//! What connections and streams tell the application about themselves.
use vstd::prelude::*;

use crate::error::{ApiErrors, ConnectionError, ConnectionErrorView};
use crate::manager::fields::MAX_PAYLOAD_LENGTH;
use crate::utils::messages::{InnerConnectionEvent, StreamMessage};

verus! {

/// Which way a stream runs.
#[derive(Debug, Clone, Copy, PartialEq, Eq, Structural)]
pub enum Direction {
    /// From the peer.
    Input,
    /// To the peer.
    Output,
}

impl StreamMessage {
    /// Position up to which the stream was sent, or arrived.
    pub fn current_position(&self) -> (p: usize)
        ensures
            p == self.head,
    {
        self.head
    }

    /// Whether the stream goes on.
    pub fn is_playing(&self) -> (b: bool)
        ensures
            b == !self.paused,
    {
        !self.paused
    }

    /// Whether a stream of the given size is done: all of it is through, or, for the one
    /// who receives, the stream was closed.
    pub open spec fn done(self, direction: Direction, size: usize) -> bool {
        self.head == size || (direction is Input && self.closed)
    }

    /// Whether a stream of the given size is done.
    pub fn is_done(&self, direction: Direction, size: usize) -> (b: bool)
        ensures
            b == self.done(direction, size),
    {
        self.head == size || (direction == Direction::Input && self.closed)
    }

    /// Whether the peer agreed to send. Nothing if it has not answered.
    pub fn ready(&self) -> (r: Option<Result<(), ConnectionError>>)
        ensures
            r is Some <==> self.approved is Some,
            r matches Some(answer) ==> {
                &&& answer is Ok <==> self.approved == Some(true)
                &&& answer matches Err(e) ==> e@ == ConnectionErrorView::PeerRejected(None)
            },
    {
        match self.approved {
            None => None,
            Some(true) => Some(Ok(())),
            Some(false) => Some(Err(ConnectionError::PeerRejected(None))),
        }
    }

    /// How a stream ended. Nothing if it has not. The one who receives is told if the memory
    /// of the stream is gone.
    pub fn completed(&self, direction: Direction) -> (r: Option<Result<(), ConnectionError>>)
        ensures
            r is Some <==> self.closed,
            r matches Some(end) ==> {
                &&& end is Err <==> direction is Input && self.buffer_closed
                &&& end matches Err(e) ==> e@ == ConnectionErrorView::BufferClosedUnexpectedly
            },
    {
        if !self.closed {
            None
        } else if direction == Direction::Input && self.buffer_closed {
            Some(Err(ConnectionError::BufferClosedUnexpectedly))
        } else {
            Some(Ok(()))
        }
    }

    /// What is told when playback was to be controlled: the position, or why it could not.
    pub fn controlled(&self, answer: Result<Result<(), ()>, ApiErrors>) -> (r: Result<
        usize,
        ConnectionError,
    >)
        ensures
            r is Ok <==> answer is Ok && answer->Ok_0 is Ok,
            r matches Ok(position) ==> position == self.head,
            r matches Err(e) ==> e@ == (if answer is Err && answer->Err_0
                == ApiErrors::BufferClosedUnexpectedly {
                ConnectionErrorView::BufferClosedUnexpectedly
            } else {
                ConnectionErrorView::ProtocolClosed
            }),
    {
        match answer {
            Ok(Ok(())) => Ok(self.head),
            Err(ApiErrors::BufferClosedUnexpectedly) => {
                Err(ConnectionError::BufferClosedUnexpectedly)
            },
            Ok(Err(())) | Err(_) => Err(ConnectionError::ProtocolClosed),
        }
    }
}

/// Whether a stream of that name can be asked for on a connection.
pub fn check_track_id(track_id: &Vec<u8>) -> (r: Result<(), ConnectionError>)
    ensures
        r is Err <==> track_id@.len() > MAX_PAYLOAD_LENGTH,
        r matches Err(e) ==> e@ == ConnectionErrorView::BufferTooLarge,
{
    if track_id.len() > MAX_PAYLOAD_LENGTH {
        Err(ConnectionError::BufferTooLarge)
    } else {
        Ok(())
    }
}

/// What a connection makes of the error of a request for a stream.
pub open spec fn request_refused(error: ApiErrors) -> ConnectionErrorView {
    match error {
        ApiErrors::NoFreeSession => ConnectionErrorView::UnknownInternalError,
        ApiErrors::SessionOccupied => ConnectionErrorView::UnknownInternalError,
        ApiErrors::SessionDoesNotExist => ConnectionErrorView::SessionClosedByPeer,
        _ => ConnectionErrorView::ProtocolClosed,
    }
}

/// What a connection makes of the error of a request for a stream. The connection belongs to
/// one session, so that it cannot be that none is free.
pub fn request_error(error: ApiErrors) -> (e: ConnectionError)
    ensures
        e@ == request_refused(error),
{
    match error {
        ApiErrors::NoFreeSession | ApiErrors::SessionOccupied => {
            ConnectionError::UnknownInternalError
        },
        ApiErrors::SessionDoesNotExist => ConnectionError::SessionClosedByPeer,
        _ => ConnectionError::ProtocolClosed,
    }
}

/// What a connection says last, once the protocol is gone: only that the protocol ended, if
/// that was the last news, counts.
pub fn last_words(last: Option<InnerConnectionEvent>) -> (r: Result<
    InnerConnectionEvent,
    ConnectionError,
>)
    ensures
        r is Ok <==> (last matches Some(news) && news is ProtocolClosed),
        r matches Ok(news) ==> news is ProtocolClosed,
        r matches Err(e) ==> e@ == ConnectionErrorView::ProtocolClosed,
{
    match last {
        Some(InnerConnectionEvent::ProtocolClosed) => Ok(InnerConnectionEvent::ProtocolClosed),
        _ => Err(ConnectionError::ProtocolClosed),
    }
}

/// What goes wrong with a request for a stream is told to the connection as its own: that its
/// session is gone, that it is in use, or that the protocol is.
pub proof fn refusals_are_told_apart(error: ApiErrors)
    ensures
        request_refused(error) is SessionClosedByPeer <==> error is SessionDoesNotExist,
        request_refused(error) is UnknownInternalError <==> error is NoFreeSession || error
            is SessionOccupied,
        request_refused(error) is ProtocolClosed <==> !(error is SessionDoesNotExist) && !(error
            is NoFreeSession) && !(error is SessionOccupied),
{
}

/// A stream is done for the one who sends it when all of it is through, and for the one who
/// receives it also when it was closed.
pub proof fn streams_are_done_when_all_is_through(message: StreamMessage, size: usize)
    ensures
        message.head == size ==> message.done(Direction::Output, size) && message.done(
            Direction::Input,
            size,
        ),
        message.head != size ==> !message.done(Direction::Output, size),
        message.closed ==> message.done(Direction::Input, size),
        message.head != size && !message.closed ==> !message.done(Direction::Input, size),
{
}

} // verus!
