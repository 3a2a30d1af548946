use std::collections::HashMap;

use ubass::api::opening::open;
use ubass::api::types::{ReadableBuffer, WriteableBuffer};
use ubass::error::{ApiErrors, ConnectionError};
use ubass::manager::endpoints::{close_session, close_stream};
use ubass::manager::fields::{
    BatchID, BytePosition, FecScheme, HandshakeId, Options, PacketType, SessionId,
};
use ubass::manager::held::{fate, still_held, Fate};
use ubass::manager::identity::Address;
use ubass::manager::key_exchange::create;
use ubass::manager::packets::{HelloPacket, Packet, PacketWrapper, ParityPacket};
use ubass::manager::ranges::{FECInfo, FecConfig};
use ubass::manager::send_loop::SendLoop;
use ubass::manager::state::ProtocolState;
use ubass::manager::types::Timestamp;
use ubass::packet_processor::fingerprint::fingerprint_of;
use ubass::packet_processor::types::{ProcessedPacket, ReceivedPacket};
use ubass::transport::outbound::{route, Route};
use ubass::utils::Flags;
use ubass::utils::messages::{
    Action, AppResponse, InnerConnectionEvent, PlaybackControl, SendTarget, StreamMessage,
};

const XOR: FecConfig = FecConfig { scheme: FecScheme::Xor, recovery_count: 0, batch_size: 28 };

struct Peer {
    state: ProtocolState,
    addr: Address,
    now: u64,
    senders: Vec<SendLoop>,
    held: Vec<Packet>,
    asks: Vec<(HelloPacket, Address)>,
    connected: Vec<(u64, SessionId)>,
    failed: Vec<(u64, ConnectionError)>,
    news: Vec<(SessionId, InnerConnectionEvent)>,
    messages: HashMap<u64, StreamMessage>,
    received: HashMap<u64, Vec<u8>>,
    outbox: Vec<ProcessedPacket>,
}

impl Peer {
    fn new(name: &[u8], port: u16) -> Peer {
        Peer {
            state: open(name.to_vec(), Some(port)).ok().unwrap(),
            addr: Address::V4 { octets: 0x7f00_0001, port },
            now: 1000,
            senders: Vec::new(),
            held: Vec::new(),
            asks: Vec::new(),
            connected: Vec::new(),
            failed: Vec::new(),
            news: Vec::new(),
            messages: HashMap::new(),
            received: HashMap::new(),
            outbox: Vec::new(),
        }
    }

    fn perform(&mut self, actions: Vec<Action>) {
        let now = Timestamp(self.now);
        for action in actions {
            let mut more = Vec::new();
            match action {
                Action::Send { packet, addr } => self.state.handle_packet(
                    PacketWrapper { addr, packet },
                    false,
                    now,
                    &mut self.outbox,
                    &mut more,
                ),
                Action::Resend { packet, addr } => self.state.handle_packet(
                    PacketWrapper { addr, packet },
                    true,
                    now,
                    &mut self.outbox,
                    &mut more,
                ),
                Action::Observe(_) | Action::Opened { .. } => {}
                Action::Publish { session, message } => {
                    self.messages.insert(session.0, message);
                }
                Action::Received { session, data } => {
                    self.received.insert(session.0, data);
                }
                Action::Signal { session, event } => {
                    if let Some(i) = self.senders.iter().position(|s| s.session_id == session) {
                        if !self.senders[i].on_event(&mut self.state, event, &mut more) {
                            self.senders.remove(i);
                        }
                    }
                }
                Action::Notify { session, news } => self.news.push((session, news)),
                Action::Hold { packet } => self.held.push(packet),
                Action::Handshaken { done, .. } => {
                    let held = std::mem::take(&mut self.held);
                    if done {
                        let addr = self.addr;
                        for packet in held {
                            self.state.handle_message(PacketWrapper { addr, packet }, now, &mut more);
                        }
                    }
                }
                Action::AskApp { packet, addr } => match packet {
                    Packet::HelloPacket(hello) => self.asks.push((*hello, addr)),
                    other => panic!("{other:?}"),
                },
                Action::Connected { ticket, session } => self.connected.push((ticket, session)),
                Action::Failed { ticket, error } => self.failed.push((ticket, error)),
            }
            self.perform(more);
        }
    }

    fn act(&mut self, f: impl FnOnce(&mut ProtocolState, Timestamp, &mut Vec<Action>)) {
        let mut actions = Vec::new();
        f(&mut self.state, Timestamp(self.now), &mut actions);
        self.perform(actions);
    }

    fn take_in(&mut self, src_addr: Address, data: Vec<u8>) {
        self.act(|state, now, actions| {
            match state.take_in(ReceivedPacket { src_addr, data }, now, actions) {
                Ok(Some(message)) => state.handle_message(message, now, actions),
                Ok(None) => {}
                Err(error) => state.handle_errors(error, actions),
            }
        });
    }

    fn tick(&mut self) {
        self.now += 25;
        let mut senders = std::mem::take(&mut self.senders);
        let now = Timestamp(self.now);
        let mut actions = Vec::new();
        for sender in &mut senders {
            sender.on_tick(&mut self.state, now, &mut actions);
        }
        senders.append(&mut self.senders);
        self.senders = senders;
        self.perform(actions);
        self.act(|state, now, actions| state.prune_fec(now, actions));
        self.act(|state, now, actions| {
            state.ack.prune(&state.connections, now, actions);
        });
        self.act(|state, now, _| {
            state.fingerprints.prune(now);
        });
    }

    fn session(&self) -> SessionId {
        self.connected[0].1
    }

    fn answer(&mut self, response: AppResponse) {
        let (hello, addr) = self.asks.remove(0);
        self.act(|state, now, actions| state.answer_hello(hello, addr, response, 7, now, actions));
    }
}

// How often a packet leaves.
fn copies(packet: &ProcessedPacket) -> usize {
    match route(packet.packet_type) {
        Route::Batch => packet.duplicate_count,
        _ => 1,
    }
}

// Everything that is on its way arrives, except what `lost` says, until nothing is.
fn pump(a: &mut Peer, b: &mut Peer, lost: &mut dyn FnMut(&ProcessedPacket) -> bool) {
    loop {
        let from_a = std::mem::take(&mut a.outbox);
        let from_b = std::mem::take(&mut b.outbox);
        if from_a.is_empty() && from_b.is_empty() {
            return;
        }
        for packet in from_a {
            assert_eq!(packet.dest_addr, b.addr);
            for _ in 0..copies(&packet) {
                if !lost(&packet) {
                    b.take_in(a.addr, packet.data.clone());
                }
            }
        }
        for packet in from_b {
            assert_eq!(packet.dest_addr, a.addr);
            for _ in 0..copies(&packet) {
                if !lost(&packet) {
                    a.take_in(b.addr, packet.data.clone());
                }
            }
        }
    }
}

fn arrive(a: &mut Peer, b: &mut Peer) {
    pump(a, b, &mut |_| false);
}

fn introduced() -> (Peer, Peer) {
    let mut client = Peer::new(b"client", 9001);
    let mut server = Peer::new(b"server", 9002);
    let target = server.addr;
    client.act(|state, now, actions| assert!(state.connect(target, 1, now, actions)));
    arrive(&mut client, &mut server);
    assert_eq!(server.asks.len(), 1);
    assert_eq!(server.asks[0].0.app_id.as_bytes(), b"client");
    server.answer(AppResponse::AppApproved);
    arrive(&mut client, &mut server);
    assert_eq!(client.connected.len(), 1);
    assert_eq!(client.connected[0].0, 1);
    assert_eq!(server.connected, vec![(7, client.session())]);
    (client, server)
}

fn song(len: usize) -> Vec<u8> {
    (0..len).map(|i| (i * 7 + i / 256) as u8).collect()
}

fn request(client: &mut Peer, len: usize, config: FecConfig) {
    let session = client.session();
    client.act(|state, now, actions| {
        let r = state.request_track(
            SendTarget::Session(session),
            &b"song".to_vec(),
            WriteableBuffer::new(vec![0u8; len]),
            config,
            now,
            actions,
        );
        assert_eq!(r, Ok(session));
    });
}

fn serve(server: &mut Peer, data: Vec<u8>) {
    let session = server.session();
    let config = match server.news.remove(0) {
        (s, InnerConnectionEvent::TrackRequest(id, config)) => {
            assert_eq!(s, session);
            assert_eq!(id, b"song");
            config
        }
        other => panic!("{other:?}"),
    };
    let mut actions = Vec::new();
    let sender = server
        .state
        .send_data(SendTarget::Session(session), ReadableBuffer::new(data), config, &mut actions)
        .ok()
        .unwrap();
    server.senders.push(sender);
    server.perform(actions);
}

fn complete(client: &mut Peer) {
    let session = client.session();
    client.act(|state, _, actions| state.set_complete_stream(session, false, actions));
}

fn transfer(len: usize, config: FecConfig, lost: &mut dyn FnMut(&ProcessedPacket) -> bool) {
    let (mut client, mut server) = introduced();
    request(&mut client, len, config);
    arrive(&mut client, &mut server);
    serve(&mut server, song(len));
    complete(&mut client);
    let session = client.session();
    for _ in 0..400 {
        client.tick();
        server.tick();
        pump(&mut client, &mut server, lost);
        if client.received.contains_key(&session.0) {
            break;
        }
    }
    assert!(client.messages[&session.0].closed);
    assert_eq!(client.messages[&session.0].approved, Some(true));
    assert_eq!(client.received[&session.0], song(len));
    for _ in 0..40 {
        client.tick();
        server.tick();
        arrive(&mut client, &mut server);
    }
    assert!(server.senders.is_empty());
    // the session is free again
    request(&mut client, 10, config);
}

#[test]
fn peers_agree_on_a_session_and_a_key() {
    let (client, server) = introduced();
    let id = client.session().0;
    assert!(client.state.session_exists(SessionId(id)));
    assert!(server.state.session_exists(SessionId(id)));
    let at_client = client.state.encryption.get(id).unwrap().get_cipher();
    assert_eq!(at_client, server.state.encryption.get(id).unwrap().get_cipher());
    assert_ne!(at_client, [0u8; 32]);
}

#[test]
fn a_stream_arrives() {
    transfer(100_000, XOR, &mut |_| false);
}

#[test]
fn a_stream_of_one_short_chunk_arrives() {
    transfer(10, XOR, &mut |_| false);
}

#[test]
fn streams_of_full_chunks_arrive() {
    for chunks in [1, 2, 28, 57] {
        transfer(chunks * 1384, XOR, &mut |_| false);
    }
    let mut n = 0;
    transfer(100 * 1384, XOR, &mut |_| {
        n += 1;
        n % 9 == 0
    });
}

#[test]
fn a_stream_arrives_though_packets_are_lost() {
    let mut n = 0;
    transfer(200_000, XOR, &mut |_| {
        n += 1;
        n % 9 == 0
    });
}

#[test]
fn a_stream_in_reed_solomon_arrives_though_packets_are_lost() {
    let config =
        FecConfig { scheme: FecScheme::ReedSolomon, recovery_count: 4, batch_size: 28 };
    let mut n = 0;
    transfer(200_000, config, &mut |_| {
        n += 1;
        n % 13 == 0
    });
}

#[test]
fn a_stream_that_recovery_completes_arrives() {
    let (mut client, mut server) = introduced();
    let session = client.session();
    // five batches, the last of three chunks
    let len = 4 * 28 * 1384 + 3 * 1384 - 100;
    request(&mut client, len, XOR);
    arrive(&mut client, &mut server);
    serve(&mut server, song(len));
    let mut chunks = 0;
    for _ in 0..8 {
        client.tick();
        server.tick();
        // the last chunk but one is lost, and its parity comes last
        pump(&mut client, &mut server, &mut |packet| {
            if packet.packet_type == PacketType::Data {
                chunks += 1;
            }
            packet.packet_type == PacketType::Data && chunks == 4 * 28 + 2
        });
    }
    assert!(client.messages[&session.0].closed);
    assert_eq!(client.received[&session.0], song(len));
    assert!(server.senders.is_empty());
}

#[test]
fn recovery_of_a_short_last_chunk_completes_a_stream() {
    let config =
        FecConfig { scheme: FecScheme::ReedSolomon, recovery_count: 2, batch_size: 28 };
    let (mut client, mut server) = introduced();
    let session = client.session();
    let len = 3 * 1384 + 100;
    request(&mut client, len, config);
    arrive(&mut client, &mut server);
    serve(&mut server, song(len));
    let mut chunks = 0;
    client.tick();
    server.tick();
    pump(&mut client, &mut server, &mut |packet| {
        if packet.packet_type == PacketType::Data {
            chunks += 1;
        }
        packet.packet_type == PacketType::Data && chunks == 4
    });
    assert_eq!(client.received[&session.0], song(len));
}

#[test]
fn a_session_goes_by_the_id_that_the_peer_sent_back() {
    let (client, mut server) = introduced();
    let taken = client.session();
    let mut other = Peer::new(b"other", 9003);
    let target = server.addr;
    let (secret, _) = create();
    other.act(|state, now, actions| {
        state.connect_with(target, 2, taken, HandshakeId(77), secret, now, actions)
    });
    arrive(&mut other, &mut server);
    let (hello, addr) = server.asks.remove(0);
    let drawn = SessionId(taken.0 ^ 5);
    assert_eq!(server.state.session_for(taken, drawn), drawn);
    assert_eq!(server.state.session_for(drawn, taken), drawn);
    let (secret, _) = create();
    let at_client = client.state.encryption.get(taken.0).unwrap().get_cipher();
    server.act(|state, now, actions| {
        let yes = AppResponse::AppApproved;
        state.answer_hello_with(hello, addr, yes, 8, drawn, secret, now, actions)
    });
    arrive(&mut other, &mut server);
    assert_eq!(other.connected, vec![(2, drawn)]);
    assert_eq!(server.connected[1], (8, drawn));
    assert_eq!(other.state.resolve_target(SendTarget::Address(target)), Ok((drawn, target)));
    assert_eq!(server.state.encryption.get(taken.0).unwrap().get_cipher(), at_client);
}

#[test]
fn a_handshake_begins_anew_where_the_answer_names_a_session_that_exists() {
    let (mut client, server) = introduced();
    let taken = client.session();
    let elsewhere = Address::V4 { octets: 0x7f00_0001, port: 9009 };
    let (secret, _) = create();
    client.act(|state, now, actions| {
        state.connect_with(elsewhere, 3, SessionId(1), HandshakeId(5), secret, now, actions)
    });
    let sent = client.outbox.remove(0);
    let mut third = Peer::new(b"third", 9009);
    third.take_in(client.addr, sent.data);
    let (hello, _) = third.asks.remove(0);
    let mut answer = hello;
    answer.proposed_session_id = taken;
    answer.receiving_port = third.state.port;
    let (secret, _) = create();
    client.act(|state, now, actions| {
        state.session_id_collided_with(
            &answer,
            elsewhere,
            SessionId(9),
            HandshakeId(6),
            secret,
            now,
            actions,
        )
    });
    assert_eq!(client.outbox.len(), 2);
    assert!(!client.state.handshakes.contains(HandshakeId(5)));
    assert!(client.state.handshakes.contains(HandshakeId(6)));
    assert!(client.outbox.iter().all(|packet| packet.dest_addr == elsewhere));
    assert!(server.state.session_exists(taken));
}

#[test]
fn a_peer_is_reached_at_the_port_that_its_hello_names() {
    let mut client = Peer::new(b"client", 9001);
    let mut server = Peer::new(b"server", 9002);
    let target = server.addr;
    client.act(|state, now, actions| assert!(state.connect(target, 1, now, actions)));
    let hello = client.outbox.remove(0);
    server.take_in(Address::V4 { octets: 0x7f00_0001, port: 40_000 }, hello.data);
    assert_eq!(server.asks[0].1, client.addr);
    server.answer(AppResponse::AppApproved);
    assert_eq!(server.outbox[0].dest_addr, client.addr);
}

#[test]
fn parity_for_a_session_that_receives_nothing_is_complained_about() {
    let (mut client, mut server) = introduced();
    let session = client.session();
    let parity = |size| {
        Packet::ParityPacket(ParityPacket::new(
            Options::none(),
            BatchID(1),
            FECInfo { batch_size: size, batch_pos: 0, recovery_count: 1 },
            session,
            vec![3u8; 200],
            Timestamp(5),
        ))
    };
    let addr = client.addr;
    server.act(|state, now, actions| {
        state.handle_message(PacketWrapper { addr, packet: parity(2) }, now, actions)
    });
    // more of the batch is needed
    assert!(server.outbox.is_empty());
    server.act(|state, _, actions| state.prune_fec(Timestamp(100_000), actions));
    server.act(|state, now, actions| {
        state.handle_message(PacketWrapper { addr, packet: parity(1) }, now, actions)
    });
    assert_eq!(server.outbox.len(), 1);
    assert_eq!(server.outbox[0].packet_type, PacketType::Error);
    assert_eq!(server.outbox[0].dest_addr, client.addr);
    arrive(&mut client, &mut server);
}

#[test]
fn packets_of_a_session_are_held_until_it_is_confirmed() {
    let (mine, other) = (SessionId(1), SessionId(2));
    let (since, now, late) = (Timestamp(1000), Timestamp(8000), Timestamp(8001));
    assert!(still_held(since, now));
    assert!(!still_held(since, late));
    assert_eq!(fate(Some(mine), since, mine, true, now), Fate::Handled);
    assert_eq!(fate(Some(mine), since, mine, false, now), Fate::Dropped);
    assert_eq!(fate(Some(mine), since, other, true, now), Fate::Waits);
    assert_eq!(fate(Some(mine), since, mine, true, late), Fate::Dropped);
}

#[test]
fn an_application_may_refuse_a_peer() {
    let mut client = Peer::new(b"client", 9001);
    let mut server = Peer::new(b"server", 9002);
    let target = server.addr;
    client.act(|state, now, actions| assert!(state.connect(target, 5, now, actions)));
    arrive(&mut client, &mut server);
    server.answer(AppResponse::AppRejected(b"not today".to_vec()));
    arrive(&mut client, &mut server);
    assert!(client.connected.is_empty());
    assert!(matches!(
        &client.failed[..],
        [(5, ConnectionError::PeerRejected(Some(reason)))] if reason == b"not today"
    ));
}

#[test]
fn a_request_may_be_turned_down() {
    let (mut client, mut server) = introduced();
    let session = client.session();
    request(&mut client, 5000, XOR);
    arrive(&mut client, &mut server);
    assert_eq!(server.news.len(), 1);
    server.act(|state, now, actions| {
        state.reject_track_request(session, b"song".to_vec(), now, actions)
    });
    arrive(&mut client, &mut server);
    assert_eq!(client.messages[&session.0].approved, Some(false));
}

#[test]
fn a_session_carries_one_stream_at_a_time() {
    let (mut client, _) = introduced();
    let session = client.session();
    request(&mut client, 5000, XOR);
    client.act(|state, now, actions| {
        let again = state.request_track(
            SendTarget::Session(session),
            &b"other".to_vec(),
            WriteableBuffer::new(vec![0u8; 10]),
            XOR,
            now,
            actions,
        );
        assert_eq!(again, Err(ApiErrors::SessionOccupied));
        let unknown = state.request_track(
            SendTarget::Session(SessionId(session.0 ^ 1)),
            &b"other".to_vec(),
            WriteableBuffer::new(vec![0u8; 10]),
            XOR,
            now,
            actions,
        );
        assert_eq!(unknown, Err(ApiErrors::SessionDoesNotExist));
        let nobody = state.request_track(
            SendTarget::Address(Address::V4 { octets: 1, port: 1 }),
            &b"other".to_vec(),
            WriteableBuffer::new(vec![0u8; 10]),
            XOR,
            now,
            actions,
        );
        assert_eq!(nobody, Err(ApiErrors::NoFreeSession));
    });
}

#[test]
fn a_request_is_sent_again_until_it_is_given_up() {
    let (mut client, _) = introduced();
    request(&mut client, 5000, XOR);
    client.outbox.clear();
    let mut sent = 0;
    for _ in 0..200 {
        client.tick();
        sent += client.outbox.len();
        client.outbox.clear();
    }
    assert_eq!(sent, 5);
}

#[test]
fn a_request_that_is_acknowledged_is_not_sent_again() {
    let (mut client, _) = introduced();
    request(&mut client, 5000, XOR);
    // the headers of the request are its first 24 bytes
    let print = fingerprint_of(&client.outbox.remove(0).data[..24]);
    client.tick();
    client.state.ack.acknowledge(print);
    for _ in 0..200 {
        client.tick();
        assert!(client.outbox.is_empty());
    }
}

#[test]
fn a_stream_can_be_paused_and_sought_in() {
    let (mut client, mut server) = introduced();
    let session = client.session();
    let len = 400_000;
    request(&mut client, len, XOR);
    arrive(&mut client, &mut server);
    serve(&mut server, song(len));
    for _ in 0..3 {
        client.tick();
        server.tick();
        arrive(&mut client, &mut server);
    }
    client.act(|state, now, actions| {
        let paused =
            state.send_playback_control_packet(session, PlaybackControl::Pause, now, actions);
        assert_eq!(paused, Ok(()));
    });
    arrive(&mut client, &mut server);
    assert!(!server.senders[0].playing);
    assert!(!client.messages[&session.0].is_playing());
    client.act(|state, now, actions| {
        let seek = PlaybackControl::Seek(BytePosition(300_000));
        assert_eq!(state.send_playback_control_packet(session, seek, now, actions), Ok(()));
        let play = PlaybackControl::Play;
        assert_eq!(state.send_playback_control_packet(session, play, now, actions), Ok(()));
    });
    arrive(&mut client, &mut server);
    assert!(server.senders[0].playing);
    complete(&mut client);
    for _ in 0..400 {
        client.tick();
        server.tick();
        arrive(&mut client, &mut server);
    }
    assert_eq!(client.received[&session.0], song(len));
}

#[test]
fn closing_a_stream_hands_back_what_arrived() {
    let (mut client, mut server) = introduced();
    let session = client.session();
    request(&mut client, 200_000, XOR);
    arrive(&mut client, &mut server);
    serve(&mut server, song(200_000));
    client.tick();
    server.tick();
    arrive(&mut client, &mut server);
    client.act(|state, now, actions| close_stream(state, session, now, actions));
    arrive(&mut client, &mut server);
    assert!(server.senders.is_empty());
    let part = &client.received[&session.0];
    assert_eq!(part.len(), 200_000);
    assert_eq!(part[..28 * 1384], song(200_000)[..28 * 1384]);
    assert!(part[28 * 1384..].iter().all(|b| *b == 0));
}

#[test]
fn closing_a_session_tells_the_peer() {
    let (mut client, mut server) = introduced();
    let session = client.session();
    let mut out = Vec::new();
    client.act(|state, now, actions| close_session(state, session, now, &mut out, actions));
    client.outbox.append(&mut out);
    assert!(!client.state.session_exists(session));
    assert!(client.state.encryption.get(session.0).is_none());
    assert_eq!(client.outbox.len(), 1);
    arrive(&mut client, &mut server);
    assert!(!server.state.session_exists(session));
    assert!(server.state.encryption.get(session.0).is_none());
    assert!(matches!(
        server.news[..],
        [(s, InnerConnectionEvent::ConnectionClosed)] if s == session
    ));
}

#[test]
fn a_packet_that_was_changed_is_dropped() {
    let (mut client, mut server) = introduced();
    request(&mut client, 5000, XOR);
    let packet = client.outbox.remove(0);
    for i in 24..packet.data.len() {
        let mut bad = packet.data.clone();
        bad[i] ^= 1;
        server.take_in(client.addr, bad);
    }
    assert!(server.news.is_empty());
    server.take_in(client.addr, packet.data.clone());
    assert_eq!(server.news.len(), 1);
    // a copy changes nothing
    server.take_in(client.addr, packet.data);
    assert_eq!(server.news.len(), 1);
}

#[test]
fn a_peer_of_an_old_version_is_told_so() {
    let (mut client, mut server) = introduced();
    server.outbox.clear();
    server.take_in(client.addr, vec![0, 0, 0, 1]);
    assert!(server.outbox.is_empty());
    server.take_in(client.addr, vec![0]);
    server.take_in(client.addr, b"".to_vec());
    server.take_in(client.addr, vec![0xff; 3]);
    arrive(&mut client, &mut server);
}

#[test]
fn the_end_of_the_protocol_ends_every_session() {
    let (mut client, _) = introduced();
    let session = client.session();
    request(&mut client, 5000, XOR);
    client.act(|state, _, actions| state.advertise_closed(actions));
    assert!(!client.state.session_exists(session));
    assert!(matches!(client.news[..], [(s, InnerConnectionEvent::ProtocolClosed)] if s == session));
    assert_eq!(client.received[&session.0], vec![0u8; 5000]);
}

#[test]
fn a_keep_alive_from_elsewhere_moves_the_peer() {
    let (mut client, mut server) = introduced();
    let session = client.session();
    client.act(|state, now, actions| {
        state.send_keep_alive_on_session(session, now, actions);
    });
    let packet = client.outbox.remove(0);
    let elsewhere = Address::V4 { octets: 0x0a00_0001, port: 9001 };
    server.take_in(elsewhere, packet.data);
    assert_eq!(server.state.established_address(session), Some(elsewhere));
}
