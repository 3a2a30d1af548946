use std::time::Duration;

use ubass::api::dc_proto::{encode_track_id, verify_prg};
use ubass::api::dc_receiver::{
    after_failure, new_request, request_with, validate_buffer_len, validate_parallelism,
    AfterFailure, Sweep, SweepStep, MAX_BUFFER_LEN,
};
use ubass::api::dc_sender::{serve_track, SenderOptions};
use ubass::api::handles::{check_track_id, last_words, request_error, Direction};
use ubass::api::opening::{choose_port, listen_end, open, AppEnd};
use ubass::error::{
    ApiErrors, ChannelError, ConnectionError, Error, FlatState, Layer, PacketProcessingError,
    PipeDirection, TaskError, TransportError,
};
use ubass::utils::messages::{InnerConnectionEvent, StreamMessage};

#[test]
fn default_options_are_sensible() {
    let o = SenderOptions::default();
    assert!(o.max_in_flight > 0);
    assert!(Duration::from_millis(o.per_stream_timeout) > Duration::from_secs(1));
    assert!(o.max_buffer_len > 0);
    assert!(Duration::from_millis(o.shutdown_grace) > Duration::ZERO);
}

#[test]
fn a_sender_needs_room_for_a_stream() {
    assert!(SenderOptions::default().check().is_ok());
    let none = SenderOptions { max_in_flight: 0, ..SenderOptions::default() };
    assert_eq!(none.check(), Err(ApiErrors::InvalidPort));
}

#[test]
fn a_request_is_served_if_its_length_is_allowed() {
    let options = SenderOptions { max_buffer_len: 100, ..SenderOptions::default() };
    let stream = serve_track(&encode_track_id(7, 100), &options).unwrap();
    assert_eq!(stream.len(), 100);
    assert!(verify_prg(7, &stream));
    assert!(serve_track(&encode_track_id(7, 101), &options).is_none());
    assert!(serve_track(&encode_track_id(7, 0), &options).is_none());
    assert!(serve_track(b"not a track id", &options).is_none());
}

#[test]
fn a_transfer_has_a_length() {
    assert_eq!(validate_buffer_len(0), Err(ApiErrors::BufferTooLarge));
    assert!(validate_buffer_len(1).is_ok());
    assert!(validate_buffer_len(MAX_BUFFER_LEN).is_ok());
    assert_eq!(validate_buffer_len(MAX_BUFFER_LEN + 1), Err(ApiErrors::BufferTooLarge));
    assert_eq!(validate_parallelism(0), Err(ApiErrors::InvalidPort));
    assert!(validate_parallelism(1).is_ok());
}

#[test]
fn what_is_asked_for_is_served() {
    let request = request_with(0xfeed, 4096);
    assert_eq!(request.track_id, encode_track_id(0xfeed, 4096));
    let request = new_request(4096);
    let stream = serve_track(&request.track_id, &SenderOptions::default()).unwrap();
    assert_eq!(stream.len(), 4096);
    assert!(verify_prg(request.seed, &stream));
    assert_ne!(new_request(10).seed, new_request(10).seed);
}

#[test]
fn only_an_old_connection_is_opened_again() {
    assert_eq!(after_failure(true), AfterFailure::Reopen);
    assert_eq!(after_failure(false), AfterFailure::GiveUp);
}

#[test]
fn a_sweep_meets_every_pair_once() {
    let mut sweep = Sweep::new(2, 3, 2);
    let mut begun = Vec::new();
    loop {
        match sweep.step() {
            SweepStep::Start { config, target } => begun.push((config, target)),
            SweepStep::Wait => {
                assert!(sweep.running == 2 || begun.len() % 3 == 0);
                sweep.finished();
            }
            SweepStep::Done => break,
        }
    }
    assert_eq!(begun, vec![(0, 0), (0, 1), (0, 2), (1, 0), (1, 1), (1, 2)]);
    assert_eq!(Sweep::new(3, 0, 1).step(), SweepStep::Done);
    assert_eq!(Sweep::new(0, 3, 1).step(), SweepStep::Done);
}

#[test]
fn the_next_configuration_waits_for_the_last() {
    let mut sweep = Sweep::new(2, 1, 8);
    assert_eq!(sweep.step(), SweepStep::Start { config: 0, target: 0 });
    assert_eq!(sweep.step(), SweepStep::Wait);
    sweep.finished();
    assert_eq!(sweep.step(), SweepStep::Start { config: 1, target: 0 });
}

#[test]
fn system_ports_are_refused() {
    assert_eq!(choose_port(None), Ok(8455));
    assert_eq!(choose_port(Some(0)), Err(ApiErrors::InvalidPort));
    assert_eq!(choose_port(Some(1024)), Err(ApiErrors::InvalidPort));
    assert_eq!(choose_port(Some(1025)), Ok(1025));
}

#[test]
fn the_protocol_opens_with_an_ascii_id() {
    let state = open(b"music".to_vec(), Some(9000)).ok().unwrap();
    assert_eq!(state.app_id.as_bytes(), b"music");
    assert_eq!(state.port.0, 9000);
    assert!(open(vec![b'a'; 600], Some(8455)).is_ok());
    assert!(open(vec![b'a'; 1384], None).is_ok());
    assert_eq!(open(vec![b'a'; 1385], None).err(), Some(ApiErrors::InvalidAppId));
    assert_eq!(open(vec![0xc3, 0xa9], None).err(), Some(ApiErrors::InvalidAppId));
    assert_eq!(open(vec![0xc3, 0xa9], Some(80)).err(), Some(ApiErrors::InvalidPort));
}

#[test]
fn the_application_learns_how_the_protocol_ended() {
    let failed = |e| listen_end(Some(e));
    assert_eq!(listen_end(None), AppEnd::Closed);
    assert_eq!(
        failed(Error::Channel(ChannelError::ChannelClosed(PipeDirection::Inbound, Layer::Manager))),
        AppEnd::ProtocolFailed(ApiErrors::Internal)
    );
    assert_eq!(
        failed(Error::Task(TaskError::TaskFailed)),
        AppEnd::ProtocolFailed(ApiErrors::Internal)
    );
    assert_eq!(
        failed(Error::Transport(TransportError::RecvFailedTooManyTimes)),
        AppEnd::ProtocolFailed(ApiErrors::Internal)
    );
    assert_eq!(
        failed(Error::Transport(TransportError::FailedToBind)),
        AppEnd::ProtocolFailed(ApiErrors::FailedToOpen)
    );
    assert_eq!(
        failed(Error::FailedToDeref),
        AppEnd::ProtocolFailed(ApiErrors::BufferClosedUnexpectedly)
    );
    assert_eq!(
        failed(Error::StateMismatch { expected: FlatState::Up, found: FlatState::Down }),
        AppEnd::Closed
    );
    assert_eq!(failed(Error::IrrelevantError), AppEnd::Closed);
    assert_eq!(
        failed(Error::PacketProcessor(PacketProcessingError::FailedToDeserialize)),
        AppEnd::Closed
    );
}

#[test]
fn a_stream_is_done_when_all_of_it_is_through() {
    let fresh = StreamMessage::default();
    assert_eq!(fresh.current_position(), 0);
    assert!(fresh.is_playing());
    assert!(!fresh.is_done(Direction::Input, 10));
    let through = StreamMessage { head: 10, ..fresh };
    assert!(through.is_done(Direction::Input, 10));
    assert!(through.is_done(Direction::Output, 10));
    let closed = StreamMessage { closed: true, ..fresh };
    assert!(closed.is_done(Direction::Input, 10));
    assert!(!closed.is_done(Direction::Output, 10));
    assert!(!StreamMessage { paused: true, ..fresh }.is_playing());
}

#[test]
fn a_stream_is_ready_when_the_peer_agrees() {
    let fresh = StreamMessage::default();
    assert!(fresh.ready().is_none());
    assert!(matches!(StreamMessage { approved: Some(true), ..fresh }.ready(), Some(Ok(()))));
    assert!(matches!(
        StreamMessage { approved: Some(false), ..fresh }.ready(),
        Some(Err(ConnectionError::PeerRejected(None)))
    ));
}

#[test]
fn a_stream_without_memory_ends_with_an_error() {
    let fresh = StreamMessage::default();
    assert!(fresh.completed(Direction::Input).is_none());
    let closed = StreamMessage { closed: true, ..fresh };
    assert!(matches!(closed.completed(Direction::Input), Some(Ok(()))));
    let lost = StreamMessage { buffer_closed: true, ..closed };
    assert!(matches!(
        lost.completed(Direction::Input),
        Some(Err(ConnectionError::BufferClosedUnexpectedly))
    ));
    assert!(matches!(lost.completed(Direction::Output), Some(Ok(()))));
}

#[test]
fn controlling_a_stream_tells_the_position() {
    let message = StreamMessage { head: 77, ..StreamMessage::default() };
    assert!(matches!(message.controlled(Ok(Ok(()))), Ok(77)));
    assert!(matches!(message.controlled(Ok(Err(()))), Err(ConnectionError::ProtocolClosed)));
    assert!(matches!(
        message.controlled(Err(ApiErrors::NoFreeSession)),
        Err(ConnectionError::ProtocolClosed)
    ));
    assert!(matches!(
        message.controlled(Err(ApiErrors::BufferClosedUnexpectedly)),
        Err(ConnectionError::BufferClosedUnexpectedly)
    ));
}

#[test]
fn errors_of_requests_become_errors_of_connections() {
    assert!(matches!(
        request_error(ApiErrors::NoFreeSession),
        ConnectionError::UnknownInternalError
    ));
    assert!(matches!(
        request_error(ApiErrors::SessionOccupied),
        ConnectionError::UnknownInternalError
    ));
    assert!(matches!(
        request_error(ApiErrors::SessionDoesNotExist),
        ConnectionError::SessionClosedByPeer
    ));
    assert!(matches!(request_error(ApiErrors::Internal), ConnectionError::ProtocolClosed));
    assert!(matches!(
        ConnectionError::from_api(ApiErrors::SessionOccupied),
        ConnectionError::SessionOccupied
    ));
    assert!(matches!(
        ConnectionError::from_api(ApiErrors::SessionDoesNotExist),
        ConnectionError::SessionClosedByPeer
    ));
    assert!(matches!(
        ConnectionError::from_api(ApiErrors::ProtocolClosed),
        ConnectionError::ProtocolClosed
    ));
    assert!(matches!(
        ConnectionError::from_api(ApiErrors::BufferTooLarge),
        ConnectionError::BufferTooLarge
    ));
}

#[test]
fn the_name_of_a_stream_fits_a_packet() {
    assert!(check_track_id(&vec![0; 1384]).is_ok());
    assert!(matches!(check_track_id(&vec![0; 1385]), Err(ConnectionError::BufferTooLarge)));
}

#[test]
fn the_last_words_of_a_connection() {
    assert!(last_words(Some(InnerConnectionEvent::ProtocolClosed)).is_ok());
    assert!(last_words(Some(InnerConnectionEvent::ConnectionClosed)).is_err());
    assert!(last_words(None).is_err());
}
