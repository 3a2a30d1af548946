//! Data packets that came before their session was confirmed, and are held until it is.
use vstd::prelude::*;

use crate::manager::fields::SessionId;
use crate::manager::received::BUFFERING_TIME_FOR_HANDSHAKE;
use crate::manager::types::Timestamp;

verus! {

/// What becomes of a packet that is held.
#[derive(Debug, Clone, Copy, PartialEq, Eq, Structural)]
pub enum Fate {
    /// It is held on.
    Waits,
    /// It is handled now.
    Handled,
    /// It is dropped.
    Dropped,
}

/// Whether a packet that came at `since` may be held on.
pub open spec fn in_time(since: Timestamp, now: Timestamp) -> bool {
    !since.older_than((BUFFERING_TIME_FOR_HANDSHAKE * 1000) as u64, now)
}

/// Tells whether a packet that came at `since` may be held on.
pub fn still_held(since: Timestamp, now: Timestamp) -> (r: bool)
    ensures
        r == in_time(since, now),
{
    !since.been_longer_than(BUFFERING_TIME_FOR_HANDSHAKE * 1000, now)
}

/// What becomes of a packet of a session, held since `since`, when the handshake of `ended`
/// is over; `confirmed` says whether the peer confirmed that session.
pub open spec fn fate_of(
    session: Option<SessionId>,
    since: Timestamp,
    ended: SessionId,
    confirmed: bool,
    now: Timestamp,
) -> Fate {
    if !in_time(since, now) {
        Fate::Dropped
    } else if session != Some(ended) {
        Fate::Waits
    } else if confirmed {
        Fate::Handled
    } else {
        Fate::Dropped
    }
}

/// Tells what becomes of a held packet when the handshake of a session is over.
pub fn fate(
    session: Option<SessionId>,
    since: Timestamp,
    ended: SessionId,
    confirmed: bool,
    now: Timestamp,
) -> (r: Fate)
    ensures
        r == fate_of(session, since, ended, confirmed, now),
{
    if !still_held(since, now) {
        return Fate::Dropped;
    }
    match session {
        Some(id) => if id.0 != ended.0 {
            Fate::Waits
        } else if confirmed {
            Fate::Handled
        } else {
            Fate::Dropped
        },
        None => Fate::Waits,
    }
}

} // verus!
