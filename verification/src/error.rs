//! What can go wrong.
use vstd::prelude::*;

use crate::manager::fields::{SessionId, Version};
use crate::manager::identity::Address;

verus! {

/// What the application is told when it asks for something that cannot be had.
#[derive(Debug, Clone, Copy, PartialEq, Eq, Structural)]
pub enum ApiErrors {
    /// There is one protocol per program.
    AlreadyOpen,
    /// Ports up to 1024 cannot be used.
    InvalidPort,
    /// The id is too long, or not ASCII.
    InvalidAppId,
    PortAlreadyInUse(u16),
    FailedToOpen,
    FailedToBuildRuntime,
    ThreadFailed,
    /// No session with the target is free.
    NoFreeSession,
    SessionOccupied,
    SessionDoesNotExist,
    /// The reason for a rejection is too long, or not ASCII.
    InvalidReason,
    ProtocolClosed,
    BufferTooLarge,
    /// The memory of a stream is gone.
    BufferClosedUnexpectedly,
    /// The protocol broke down.
    Internal,
}

/// What the application is told when a connection cannot be had, or not any more.
#[derive(Debug)]
pub enum ConnectionError {
    ProtocolClosed,
    BufferTooLarge,
    SessionOccupied,
    SessionClosedByPeer,
    UnknownInternalError,
    /// The reason for a rejection is too long, or not ASCII.
    InvalidReason,
    /// The peer does not want to connect, for the given reason.
    PeerRejected(Option<Vec<u8>>),
    SessionIdCollided,
    /// The memory of the stream is gone.
    BufferClosedUnexpectedly,
}

/// What the application is told about a connection, for contracts.
#[verifier::ext_equal]
pub enum ConnectionErrorView {
    ProtocolClosed,
    BufferTooLarge,
    SessionOccupied,
    SessionClosedByPeer,
    UnknownInternalError,
    InvalidReason,
    PeerRejected(Option<Seq<u8>>),
    SessionIdCollided,
    BufferClosedUnexpectedly,
}

impl View for ConnectionError {
    type V = ConnectionErrorView;

    open spec fn view(&self) -> ConnectionErrorView {
        match self {
            ConnectionError::ProtocolClosed => ConnectionErrorView::ProtocolClosed,
            ConnectionError::BufferTooLarge => ConnectionErrorView::BufferTooLarge,
            ConnectionError::SessionOccupied => ConnectionErrorView::SessionOccupied,
            ConnectionError::SessionClosedByPeer => ConnectionErrorView::SessionClosedByPeer,
            ConnectionError::UnknownInternalError => ConnectionErrorView::UnknownInternalError,
            ConnectionError::InvalidReason => ConnectionErrorView::InvalidReason,
            ConnectionError::PeerRejected(Some(r)) => ConnectionErrorView::PeerRejected(Some(r@)),
            ConnectionError::PeerRejected(None) => ConnectionErrorView::PeerRejected(None),
            ConnectionError::SessionIdCollided => ConnectionErrorView::SessionIdCollided,
            ConnectionError::BufferClosedUnexpectedly => {
                ConnectionErrorView::BufferClosedUnexpectedly
            },
        }
    }
}

/// The errors of requests that a connection passes on.
pub open spec fn passed_on(error: ApiErrors) -> ConnectionErrorView {
    match error {
        ApiErrors::SessionOccupied => ConnectionErrorView::SessionOccupied,
        ApiErrors::SessionDoesNotExist => ConnectionErrorView::SessionClosedByPeer,
        ApiErrors::ProtocolClosed => ConnectionErrorView::ProtocolClosed,
        ApiErrors::BufferTooLarge => ConnectionErrorView::BufferTooLarge,
        _ => ConnectionErrorView::UnknownInternalError,
    }
}

impl ConnectionError {
    /// What a connection makes of the error of a request. The others do not come on a
    /// connection.
    pub fn from_api(error: ApiErrors) -> (e: Self)
        requires
            error is SessionOccupied || error is SessionDoesNotExist || error is ProtocolClosed
                || error is BufferTooLarge,
        ensures
            e@ == passed_on(error),
    {
        match error {
            ApiErrors::SessionOccupied => ConnectionError::SessionOccupied,
            ApiErrors::SessionDoesNotExist => ConnectionError::SessionClosedByPeer,
            ApiErrors::ProtocolClosed => ConnectionError::ProtocolClosed,
            ApiErrors::BufferTooLarge => ConnectionError::BufferTooLarge,
            _ => ConnectionError::UnknownInternalError,
        }
    }
}

/// What went wrong with a stream.
#[derive(Debug)]
pub enum StreamErrors {
    Connection(ConnectionError),
    PausedByPeer,
}

/// The state of a connection, without what it holds.
#[derive(Debug, Clone, Copy, PartialEq, Eq, Structural)]
pub enum FlatState {
    Up,
    Down,
    StreamingTo,
    StreamingFrom,
    Handshake,
}

/// A task of the protocol ended early.
#[derive(Debug, Clone, Copy, PartialEq, Eq, Structural)]
pub enum TaskError {
    TaskFailed,
}

/// Which way data flow.
#[derive(Debug, Clone, Copy, PartialEq, Eq, Structural)]
pub enum PipeDirection {
    Inbound,
    Outbound,
}

/// A layer of the protocol.
#[derive(Debug, Clone, Copy, PartialEq, Eq, Structural)]
pub enum Layer {
    Manager,
    PacketProcessor,
    Transport,
}

/// A channel between layers broke.
#[derive(Debug, Clone, Copy, PartialEq, Eq, Structural)]
pub enum ChannelError {
    ChannelFailed(PipeDirection, Layer),
    ChannelClosed(PipeDirection, Layer),
}

/// A packet that cannot be taken in.
#[derive(Debug, Clone, Copy, PartialEq, Eq, Structural)]
pub enum PacketProcessingError {
    IncompatibleVersion(Version, Address),
    WrongHeaderSize(usize, Address),
    InvalidPacketTypeHeader(u8),
    FailedToDeserialize,
    SessionDoesNotExist(SessionId, Address),
}

/// The transport cannot go on.
#[derive(Debug, Clone, Copy, PartialEq, Eq, Structural)]
pub enum TransportError {
    FailedToBind,
    RecvFailedTooManyTimes,
}

/// What goes wrong inside the protocol.
#[derive(Debug, Clone, Copy, PartialEq, Eq, Structural)]
pub enum Error {
    Channel(ChannelError),
    Task(TaskError),
    Transport(TransportError),
    PacketProcessor(PacketProcessingError),
    /// A session is not in the state that was expected.
    StateMismatch { expected: FlatState, found: FlatState },
    /// The memory of a stream is gone.
    FailedToDeref,
    /// Nothing that anybody has to know.
    IrrelevantError,
}

/// An error keeps its meaning when it is passed on to a connection, and one that has none there
/// is an internal one.
pub proof fn errors_keep_their_meaning(error: ApiErrors)
    ensures
        passed_on(error) is SessionOccupied <==> error is SessionOccupied,
        passed_on(error) is SessionClosedByPeer <==> error is SessionDoesNotExist,
        passed_on(error) is ProtocolClosed <==> error is ProtocolClosed,
        passed_on(error) is BufferTooLarge <==> error is BufferTooLarge,
        passed_on(error) is UnknownInternalError <==> !(error is SessionOccupied) && !(error
            is SessionDoesNotExist) && !(error is ProtocolClosed) && !(error is BufferTooLarge),
{
}

} // verus!
