//! What it takes to open the protocol, and what its end looks like to the application.
use vstd::prelude::*;

use crate::error::{ApiErrors, Error, TransportError};
use crate::manager::connection::ConnView;
use crate::manager::fields::{HandshakeId, Port, SessionId};
use crate::manager::handshakes::HandshakeView;
use crate::manager::identity;
use crate::manager::identity::{Address, AppId};
use crate::manager::state::{KeyView, ProtocolState};
use crate::manager::types::Timestamp;
use crate::manager::windows::AckView;
use crate::DEFAULT_PORT;

verus! {

/// The highest port that cannot be used.
pub const LAST_SYSTEM_PORT: u16 = 1024;

/// The port to listen on, if the one that is asked for can be used.
pub open spec fn port_asked_for(port: Option<u16>) -> Result<u16, ApiErrors> {
    match port {
        Some(p) => if p <= LAST_SYSTEM_PORT {
            Err(ApiErrors::InvalidPort)
        } else {
            Ok(p)
        },
        None => Ok(DEFAULT_PORT),
    }
}

/// The port to listen on.
pub fn choose_port(port: Option<u16>) -> (r: Result<u16, ApiErrors>)
    ensures
        r == port_asked_for(port),
{
    match port {
        Some(p) => if p <= LAST_SYSTEM_PORT {
            Err(ApiErrors::InvalidPort)
        } else {
            Ok(p)
        },
        None => Ok(DEFAULT_PORT),
    }
}

/// The state of a protocol that was just opened. A port that cannot be used is refused
/// first, and then an id that is too long or not ASCII.
pub fn open(app_id: Vec<u8>, port: Option<u16>) -> (r: Result<ProtocolState, ApiErrors>)
    ensures
        port_asked_for(port) is Err ==> r is Err && r->Err_0 == ApiErrors::InvalidPort,
        port_asked_for(port) is Ok && !identity::valid_app_id(app_id@) ==> r is Err && r->Err_0
            == ApiErrors::InvalidAppId,
        r is Ok <==> port_asked_for(port) is Ok && identity::valid_app_id(app_id@),
        r matches Ok(state) ==> {
            &&& state.wf()
            &&& state@.app_id == app_id@
            &&& state@.port == Port(port_asked_for(port)->Ok_0)
            &&& state@.connections == Map::<u64, ConnView>::empty()
            &&& state@.handshakes == Map::<HandshakeId, HandshakeView>::empty()
            &&& state@.ack == (AckView { pending: Map::empty(), queue: seq![], canceled: false })
            &&& state@.encryption == Map::<u64, KeyView>::empty()
            &&& state@.fingerprints == Seq::<(Timestamp, u128)>::empty()
            &&& state@.address_session == Map::<Address, Seq<SessionId>>::empty()
            &&& state@.fec.is_idle()
        },
{
    let port: u16 = match choose_port(port) {
        Ok(p) => p,
        Err(e) => {
            return Err(e);
        },
    };
    if !identity::verify_app_id(app_id.as_slice()) {
        return Err(ApiErrors::InvalidAppId);
    }
    Ok(ProtocolState::new(Port(port), AppId::new(app_id)))
}

/// The end of the protocol, as the application sees it.
#[derive(Debug, Clone, Copy, PartialEq, Eq, Structural)]
pub enum AppEnd {
    /// It ended as it should, or for a reason that is none of the application's.
    Closed,
    /// It broke down.
    ProtocolFailed(ApiErrors),
}

/// What the application is told when the protocol ends with an error.
pub open spec fn end_of(error: Error) -> AppEnd {
    match error {
        Error::Channel(_) => AppEnd::ProtocolFailed(ApiErrors::Internal),
        Error::Task(_) => AppEnd::ProtocolFailed(ApiErrors::Internal),
        Error::Transport(TransportError::RecvFailedTooManyTimes) => AppEnd::ProtocolFailed(
            ApiErrors::Internal,
        ),
        Error::Transport(TransportError::FailedToBind) => AppEnd::ProtocolFailed(
            ApiErrors::FailedToOpen,
        ),
        Error::FailedToDeref => AppEnd::ProtocolFailed(ApiErrors::BufferClosedUnexpectedly),
        Error::PacketProcessor(_) => AppEnd::Closed,
        Error::StateMismatch { expected, found } => AppEnd::Closed,
        Error::IrrelevantError => AppEnd::Closed,
    }
}

/// Tells what the application is told when the protocol ends: with an error, or because
/// nothing more can come.
pub fn listen_end(error: Option<Error>) -> (end: AppEnd)
    ensures
        end == (match error {
            Some(e) => end_of(e),
            None => AppEnd::Closed,
        }),
{
    match error {
        None => AppEnd::Closed,
        Some(error) => match error {
            Error::Channel(_) | Error::Task(_) => AppEnd::ProtocolFailed(ApiErrors::Internal),
            Error::Transport(TransportError::RecvFailedTooManyTimes) => AppEnd::ProtocolFailed(
                ApiErrors::Internal,
            ),
            Error::Transport(TransportError::FailedToBind) => AppEnd::ProtocolFailed(
                ApiErrors::FailedToOpen,
            ),
            Error::FailedToDeref => AppEnd::ProtocolFailed(ApiErrors::BufferClosedUnexpectedly),
            Error::PacketProcessor(_) | Error::StateMismatch { .. } | Error::IrrelevantError => {
                AppEnd::Closed
            },
        },
    }
}

/// The ports that the system keeps for itself are refused, and no others; without a wish it is
/// the usual port.
pub proof fn system_ports_are_refused(port: u16)
    ensures
        port <= 1024 ==> port_asked_for(Some(port)) == Err::<u16, ApiErrors>(
            ApiErrors::InvalidPort,
        ),
        port > 1024 ==> port_asked_for(Some(port)) == Ok::<u16, ApiErrors>(port),
        port_asked_for(None) == Ok::<u16, ApiErrors>(DEFAULT_PORT),
        DEFAULT_PORT > 1024,
{
}

/// The application learns of a failure just if something broke down that cannot be mended: a
/// task, the way between two layers, the transport, or the memory of a stream.
pub proof fn breakdowns_are_reported(error: Error)
    ensures
        end_of(error) is Closed <==> error is PacketProcessor || error is StateMismatch || error
            is IrrelevantError,
        error is FailedToDeref ==> end_of(error) == AppEnd::ProtocolFailed(
            ApiErrors::BufferClosedUnexpectedly,
        ),
{
}

} // verus!
