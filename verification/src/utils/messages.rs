//! What the layers tell each other.
use vstd::prelude::*;

use crate::manager::fields::{BytePosition, PlaybackControlType, SessionId};
use crate::manager::identity::Address;
use crate::manager::packets::{Packet, PlaybackStatusPacket};
use crate::manager::ranges::{ByteRange, FecConfig};
use crate::manager::views;
use crate::error::ConnectionError;
use crate::utils::data_collection::Observation;

verus! {

/// The answer of the application to a peer that wants to connect.
#[derive(Debug)]
pub enum AppResponse {
    AppApproved,
    AppRejected(Vec<u8>),
}

/// News for the application about one session.
#[derive(Debug)]
pub enum InnerConnectionEvent {
    /// The peer asks for the stream with the given name, coded in the given way.
    TrackRequest(Vec<u8>, FecConfig),
    ProtocolClosed,
    ConnectionClosed,
}

/// News for the application about one session, for contracts.
#[verifier::ext_equal]
pub enum ConnectionEventView {
    TrackRequest(Seq<u8>, FecConfig),
    ProtocolClosed,
    ConnectionClosed,
}

impl View for InnerConnectionEvent {
    type V = ConnectionEventView;

    open spec fn view(&self) -> ConnectionEventView {
        match self {
            InnerConnectionEvent::TrackRequest(id, config) => ConnectionEventView::TrackRequest(
                id@,
                *config,
            ),
            InnerConnectionEvent::ProtocolClosed => ConnectionEventView::ProtocolClosed,
            InnerConnectionEvent::ConnectionClosed => ConnectionEventView::ConnectionClosed,
        }
    }
}

/// How a stream is doing.
#[derive(Debug, Clone, Copy, PartialEq, Eq, Structural)]
pub struct StreamMessage {
    /// Position up to which the stream was sent, or arrived.
    pub head: usize,
    pub paused: bool,
    pub closed: bool,
    /// Whether the application wants the stream completed, and then whether with
    /// holes.
    pub complete: Option<bool>,
    /// Whether the peer agreed to send.
    pub approved: Option<bool>,
    /// Whether the memory of the stream is gone.
    pub buffer_closed: bool,
}

impl StreamMessage {
    /// A stream that has just begun.
    pub open spec fn fresh() -> StreamMessage {
        StreamMessage {
            head: 0,
            paused: false,
            closed: false,
            complete: None,
            approved: None,
            buffer_closed: false,
        }
    }
}

impl Default for StreamMessage {
    fn default() -> (m: Self)
        ensures
            m == StreamMessage::fresh(),
    {
        StreamMessage {
            head: 0,
            paused: false,
            closed: false,
            complete: None,
            approved: None,
            buffer_closed: false,
        }
    }
}

/// What can be done to a stream.
#[derive(Debug, Clone, Copy, PartialEq, Eq, Structural)]
pub enum PlaybackControl {
    Play,
    Pause,
    Close,
    Done,
    Seek(BytePosition),
}

impl Default for PlaybackControl {
    fn default() -> (c: Self)
        ensures
            c == PlaybackControl::Play,
    {
        PlaybackControl::Play
    }
}

impl PlaybackControl {
    /// What a packet asks for.
    pub open spec fn asked_by(packet: PlaybackStatusPacket) -> PlaybackControl {
        match packet.control_type {
            PlaybackControlType::Play => PlaybackControl::Play,
            PlaybackControlType::Pause => PlaybackControl::Pause,
            PlaybackControlType::Stop => PlaybackControl::Close,
            PlaybackControlType::Done => PlaybackControl::Done,
            PlaybackControlType::Seek => PlaybackControl::Seek(
                match packet.seek_position {
                    Some(p) => p,
                    None => BytePosition(0),
                },
            ),
        }
    }

    /// What a packet asks for. A seek without a position is one to the start.
    pub fn from_packet(packet: &PlaybackStatusPacket) -> (c: Self)
        ensures
            c == PlaybackControl::asked_by(*packet),
    {
        match packet.control_type {
            PlaybackControlType::Play => PlaybackControl::Play,
            PlaybackControlType::Pause => PlaybackControl::Pause,
            PlaybackControlType::Stop => PlaybackControl::Close,
            PlaybackControlType::Done => PlaybackControl::Done,
            PlaybackControlType::Seek => PlaybackControl::Seek(
                match packet.seek_position {
                    Some(p) => p,
                    None => BytePosition(0),
                },
            ),
        }
    }
}

/// News for the one who sends a stream.
#[derive(Debug)]
pub enum StreamEvent {
    Playback(PlaybackControl),
    /// The receiver asks for these bytes again.
    Retransmit(Vec<ByteRange>),
}

/// News for the one who sends a stream, for contracts.
#[verifier::ext_equal]
pub enum StreamEventView {
    Playback(PlaybackControl),
    Retransmit(Seq<ByteRange>),
}

impl View for StreamEvent {
    type V = StreamEventView;

    open spec fn view(&self) -> StreamEventView {
        match self {
            StreamEvent::Playback(c) => StreamEventView::Playback(*c),
            StreamEvent::Retransmit(r) => StreamEventView::Retransmit(r@),
        }
    }
}

impl Default for StreamEvent {
    fn default() -> (e: Self)
        ensures
            e@ == StreamEventView::Playback(PlaybackControl::Play),
    {
        StreamEvent::Playback(PlaybackControl::Play)
    }
}

/// Whom a stream is for.
#[derive(Debug, Clone, Copy, PartialEq, Eq, Structural)]
pub enum SendTarget {
    Address(Address),
    Session(SessionId),
}

/// A batch cannot be recovered.
#[derive(Debug, Clone, Copy)]
pub struct CouldNotRecover;

/// Something that the protocol wants done.
#[derive(Debug)]
pub enum Action {
    /// Send a packet to an address.
    Send { packet: Packet, addr: Address },
    /// Send a packet again that was not acknowledged.
    Resend { packet: Packet, addr: Address },
    /// Note an observation.
    Observe(Observation),
    /// Note that a session carries a stream from now on, to or from the peer at
    /// `remote`.
    Opened { session: SessionId, remote: Address, fec_config: FecConfig },
    /// Tell the application how the stream of a session is doing.
    Publish { session: SessionId, message: StreamMessage },
    /// Hand the application what arrived of a stream that is over.
    Received { session: SessionId, data: Vec<u8> },
    /// Tell the one who sends on a session.
    Signal { session: SessionId, event: StreamEvent },
    /// Tell the application about a session.
    Notify { session: SessionId, news: InnerConnectionEvent },
    /// Tell those who wait for the handshake of a session whether it is done.
    Handshaken { session: SessionId, done: bool },
    /// Keep a data packet until the handshake of its session is done.
    Hold { packet: Packet },
    /// Ask the application whether it wants a session with the peer at `addr`, who sent
    /// the packet.
    AskApp { packet: Packet, addr: Address },
    /// Answer the one who waits for a handshake: there is a session now.
    Connected { ticket: u64, session: SessionId },
    /// Answer the one who waits for a handshake: there will be no session.
    Failed { ticket: u64, error: ConnectionError },
}

/// Something that the protocol wants done, for contracts.
#[verifier::ext_equal]
pub enum ActionView {
    Send { packet: views::PacketView, addr: Address },
    Resend { packet: views::PacketView, addr: Address },
    Observe(Observation),
    Opened { session: SessionId, remote: Address, fec_config: FecConfig },
    Publish { session: SessionId, message: StreamMessage },
    Received { session: SessionId, data: Seq<u8> },
    Signal { session: SessionId, event: StreamEventView },
    Notify { session: SessionId, news: ConnectionEventView },
    Handshaken { session: SessionId, done: bool },
    Hold { packet: views::PacketView },
    AskApp { packet: views::PacketView, addr: Address },
    Connected { ticket: u64, session: SessionId },
    Failed { ticket: u64, error: crate::error::ConnectionErrorView },
}

impl View for Action {
    type V = ActionView;

    open spec fn view(&self) -> ActionView {
        match self {
            Action::Send { packet, addr } => ActionView::Send { packet: packet@, addr: *addr },
            Action::Resend { packet, addr } => ActionView::Resend { packet: packet@, addr: *addr },
            Action::Observe(o) => ActionView::Observe(*o),
            Action::Opened { session, remote, fec_config } => ActionView::Opened {
                session: *session,
                remote: *remote,
                fec_config: *fec_config,
            },
            Action::Publish { session, message } => ActionView::Publish {
                session: *session,
                message: *message,
            },
            Action::Received { session, data } => ActionView::Received {
                session: *session,
                data: data@,
            },
            Action::Signal { session, event } => ActionView::Signal {
                session: *session,
                event: event@,
            },
            Action::Notify { session, news } => ActionView::Notify {
                session: *session,
                news: news@,
            },
            Action::Handshaken { session, done } => ActionView::Handshaken {
                session: *session,
                done: *done,
            },
            Action::Hold { packet } => ActionView::Hold { packet: packet@ },
            Action::AskApp { packet, addr } => ActionView::AskApp { packet: packet@, addr: *addr },
            Action::Connected { ticket, session } => ActionView::Connected {
                ticket: *ticket,
                session: *session,
            },
            Action::Failed { ticket, error } => ActionView::Failed {
                ticket: *ticket,
                error: error@,
            },
        }
    }
}

/// What is to be done, in order.
pub open spec fn action_views(actions: Seq<Action>) -> Seq<ActionView> {
    Seq::new(actions.len(), |i: int| actions[i]@)
}

/// Whether `after` is `before` with more to do.
pub open spec fn appended(before: Seq<Action>, after: Seq<Action>, more: Seq<ActionView>) -> bool {
    action_views(after) == action_views(before) + more
}

/// Whether `after` goes on from `before`.
pub open spec fn extends(before: Seq<Action>, after: Seq<Action>) -> bool {
    appended(before, after, added(before, after))
}

/// What `after` has beyond `before`.
pub open spec fn added(before: Seq<Action>, after: Seq<Action>) -> Seq<ActionView> {
    action_views(after).skip(before.len() as int)
}

/// What is appended is what there is beyond.
pub proof fn lemma_added(before: Seq<Action>, after: Seq<Action>, more: Seq<ActionView>)
    requires
        appended(before, after, more),
    ensures
        extends(before, after),
        added(before, after) == more,
{
    assert(action_views(after).skip(before.len() as int) =~= more);
}

/// One more thing to do comes last.
pub proof fn lemma_push_view(actions: Seq<Action>, action: Action)
    ensures
        action_views(actions.push(action)) == action_views(actions).push(action@),
{
    assert(action_views(actions.push(action)) =~= action_views(actions).push(action@));
}

/// Adds one more thing to do.
pub fn push_action(actions: &mut Vec<Action>, action: Action)
    ensures
        action_views(final(actions)@) == action_views(old(actions)@).push(action@),
{
    proof {
        lemma_push_view(actions@, action);
    }
    actions.push(action);
}

/// What is appended follows what was there, which stays as it is.
pub proof fn appended_actions_follow(
    before: Seq<Action>,
    after: Seq<Action>,
    more: Seq<ActionView>,
    i: int,
)
    requires
        appended(before, after, more),
    ensures
        after.len() == before.len() + more.len(),
        0 <= i < before.len() ==> after[i]@ == before[i]@,
        0 <= i < more.len() ==> after[before.len() + i]@ == more[i],
{
    assert(action_views(after).len() == after.len());
    if 0 <= i < before.len() {
        assert(action_views(after)[i] == action_views(before)[i]);
    }
    if 0 <= i < more.len() {
        assert(action_views(after)[before.len() + i] == more[i]);
    }
}

} // verus!
