//! Packets on their way out: protected, written as bytes, and registered if they are to be
//! acknowledged.
use vstd::prelude::*;

use crate::error::FlatState;
use crate::manager::connection::{ConnectionStates, SessionStates};
use crate::manager::fields::{FecScheme, PacketType, SessionId, MAX_PAYLOAD_LENGTH};
use crate::manager::identity::Address;
use crate::manager::images::{DataPacket, ParityPacket};
use crate::manager::packets;
use crate::manager::packets::{Packet, PacketWrapper};
use crate::manager::state;
use crate::manager::state::{KeyView, ProtocolState, StateView};
use crate::manager::stream_state::Streaming;
use crate::manager::types::Timestamp;
use crate::manager::views;
use crate::packet_processor::encryption;
use crate::packet_processor::encryptable::Encryptable;
use crate::packet_processor::encryption::{EncryptionWindow, MAX_PROTECTED};
use crate::packet_processor::fec;
use crate::packet_processor::fingerprint;
use crate::packet_processor::fingerprint::{Headers, Payload};
use crate::packet_processor::serialize::Serialize;
use crate::packet_processor::types;
use crate::packet_processor::types::{ProcessedPacket, ProcessedView};
use crate::utils::data_collection::Observation;
use crate::utils::messages;
use crate::utils::messages::{Action, ActionView};
use crate::utils::table::Table;
use crate::wire;

verus! {

/// The counter after one more packet.
pub open spec fn next_counter(counter: u64) -> u64 {
    if counter == u64::MAX {
        0
    } else {
        (counter + 1) as u64
    }
}

/// The keys after one packet of a session was protected.
pub open spec fn key_used(keys: Map<u64, KeyView>, session: SessionId) -> Map<u64, KeyView> {
    keys.insert(
        session.0,
        KeyView { counter: next_counter(keys[session.0].counter), ..keys[session.0] },
    )
}

/// Whether the payload of a packet can be encrypted: its session has a key.
pub open spec fn sealable(
    keys: Map<u64, KeyView>,
    session: SessionId,
    head: Seq<u8>,
    body: Seq<u8>,
) -> bool {
    keys.dom().contains(session.0) && head.len() <= MAX_PROTECTED && body.len() <= MAX_PROTECTED
}

/// The bytes of a packet whose payload is encrypted.
pub open spec fn sealed_bytes(
    keys: Map<u64, KeyView>,
    session: SessionId,
    head: Seq<u8>,
    body: Seq<u8>,
) -> Seq<u8> {
    head + encryption::protected(
        keys[session.0].key,
        session,
        wire::be64(keys[session.0].counter),
        head,
        body,
    )
}

/// The bytes of a packet with a tag.
pub open spec fn tagged_bytes(
    keys: Map<u64, KeyView>,
    session: SessionId,
    image: Seq<u8>,
) -> Seq<u8> {
    image + encryption::protected(
        keys[session.0].key,
        session,
        wire::be64(keys[session.0].counter),
        image,
        seq![],
    )
}

/// Encrypts the payload of a packet and writes the packet as bytes. Gives nothing if the
/// session has no key, or if the packet is too long.
pub fn process_encrypted<T: Encryptable>(
    packet: T,
    session_id: SessionId,
    windows: &mut Table<u64, EncryptionWindow>,
) -> (r: Option<Vec<u8>>)
    ensures
        r is Some <==> sealable(
            state::key_views(old(windows)@),
            session_id,
            packet.head_image(),
            packet.body(),
        ),
        r matches Some(data) ==> {
            &&& data@ == sealed_bytes(
                state::key_views(old(windows)@),
                session_id,
                packet.head_image(),
                packet.body(),
            )
            &&& state::key_views(final(windows)@) == key_used(state::key_views(old(windows)@), session_id)
        },
        r is None ==> state::key_views(final(windows)@) == state::key_views(old(windows)@),
{
    let ghost before = windows@;
    let head: Vec<u8> = packet.headers();
    if head.len() > MAX_PROTECTED || packet.payload().len() > MAX_PROTECTED {
        return None;
    }
    match windows.remove(session_id.0) {
        Some(mut window) => {
            let ghost window0 = window;
            let sealed: T = encryption::encrypt(packet, session_id, &mut window);
            windows.insert(session_id.0, window);
            let mut data: Vec<u8> = Vec::new();
            sealed.put(&mut data);
            proof {
                sealed.image_parts();
            }
            assert(data@ =~= sealed_bytes(
                state::key_views(before),
                session_id,
                packet.head_image(),
                packet.body(),
            ));
            assert(state::key_views(windows@) =~= key_used(state::key_views(before), session_id));
            Some(data)
        },
        None => {
            assert(state::key_views(windows@) =~= state::key_views(before));
            None
        },
    }
}

/// Writes a packet as bytes and puts a tag behind them. Gives nothing if the session has
/// no key, or if the packet is too long.
pub fn process_authenticated<T: Serialize>(
    packet: &T,
    session_id: SessionId,
    windows: &mut Table<u64, EncryptionWindow>,
) -> (r: Option<Vec<u8>>)
    ensures
        r is Some <==> state::key_views(old(windows)@).dom().contains(session_id.0)
            && packet.image().len() <= MAX_PROTECTED,
        r matches Some(data) ==> {
            &&& data@ == tagged_bytes(state::key_views(old(windows)@), session_id, packet.image())
            &&& state::key_views(final(windows)@) == key_used(state::key_views(old(windows)@), session_id)
        },
        r is None ==> state::key_views(final(windows)@) == state::key_views(old(windows)@),
{
    let ghost before = windows@;
    let mut data: Vec<u8> = Vec::new();
    packet.put(&mut data);
    assert(data@ =~= packet.image());
    if data.len() > MAX_PROTECTED {
        return None;
    }
    match windows.remove(session_id.0) {
        Some(mut window) => {
            encryption::tag(&mut data, session_id, &mut window);
            windows.insert(session_id.0, window);
            assert(state::key_views(windows@) =~= key_used(state::key_views(before), session_id));
            Some(data)
        },
        None => {
            assert(state::key_views(windows@) =~= state::key_views(before));
            None
        },
    }
}

/// How a packet is protected.
pub enum Protection {
    /// Its payload is encrypted.
    Encrypted,
    /// It has a tag.
    Tagged,
    /// Not at all.
    Plain,
    /// It is not sent.
    Never,
}

/// How a packet is protected.
pub open spec fn protection(packet: views::PacketView) -> Protection {
    match packet {
        views::PacketView::Data(_) => Protection::Encrypted,
        views::PacketView::TrackRequest(_) => Protection::Encrypted,
        views::PacketView::AppRejectError(_) => Protection::Encrypted,
        views::PacketView::TrackRejection(_) => Protection::Encrypted,
        views::PacketView::Retransmit(_) => Protection::Tagged,
        views::PacketView::PlaybackStatus(_) => Protection::Tagged,
        views::PacketView::CloseSession(_) => Protection::Tagged,
        views::PacketView::SessionDoesNotExistError(_) => Protection::Tagged,
        views::PacketView::KeepAlive(_) => Protection::Tagged,
        views::PacketView::UnexpectedError(_) => Protection::Tagged,
        views::PacketView::Ack(_) => Protection::Tagged,
        views::PacketView::Hello(_) => Protection::Plain,
        views::PacketView::HandshakeRejection(_) => Protection::Plain,
        views::PacketView::HandshakeAck(_) => Protection::Plain,
        views::PacketView::IncompatibleVersion(_) => Protection::Plain,
        views::PacketView::Metadata(_) => Protection::Never,
        views::PacketView::Parity(_) => Protection::Never,
    }
}

/// How often a packet is sent.
pub open spec fn duplicates(packet: views::PacketView) -> usize {
    match packet {
        views::PacketView::Data(_) => 1,
        views::PacketView::Parity(_) => 1,
        views::PacketView::Hello(_) => 7,
        views::PacketView::IncompatibleVersion(_) => 7,
        _ => 3,
    }
}

/// The type that a packet goes out as.
pub open spec fn type_of(packet: views::PacketView) -> PacketType {
    match packet {
        views::PacketView::Data(_) => PacketType::Data,
        views::PacketView::Parity(_) => PacketType::Parity,
        views::PacketView::Metadata(_) => PacketType::Metadata,
        views::PacketView::TrackRequest(_) => PacketType::Session,
        views::PacketView::TrackRejection(_) => PacketType::Session,
        views::PacketView::Retransmit(_) => PacketType::Session,
        views::PacketView::CloseSession(_) => PacketType::Session,
        views::PacketView::AppRejectError(_) => PacketType::Error,
        views::PacketView::SessionDoesNotExistError(_) => PacketType::Error,
        views::PacketView::UnexpectedError(_) => PacketType::Error,
        views::PacketView::PlaybackStatus(_) => PacketType::Playback,
        views::PacketView::KeepAlive(_) => PacketType::KeepAlive,
        views::PacketView::Ack(_) => PacketType::Ack,
        views::PacketView::Hello(_) => PacketType::Host,
        views::PacketView::HandshakeRejection(_) => PacketType::Host,
        views::PacketView::IncompatibleVersion(_) => PacketType::Host,
        views::PacketView::HandshakeAck(_) => PacketType::HandshakeAck,
    }
}

/// Whether a packet is one of those that are sent again until they are acknowledged.
pub open spec fn may_be_acked(packet: views::PacketView) -> bool {
    match packet {
        views::PacketView::Data(_) => true,
        views::PacketView::TrackRequest(_) => true,
        views::PacketView::AppRejectError(_) => true,
        views::PacketView::TrackRejection(_) => true,
        views::PacketView::Retransmit(_) => true,
        views::PacketView::PlaybackStatus(_) => true,
        _ => false,
    }
}

impl Packet {
    /// The headers of a packet whose payload is encrypted.
    pub open spec fn head(self) -> Seq<u8> {
        match self {
            Packet::DataPacket(p) => p.head_image(),
            Packet::TrackRequestPacket(p) => p.head_image(),
            Packet::AppRejectErrorPacket(p) => p.head_image(),
            Packet::TrackRejectionPacket(p) => p.head_image(),
            _ => seq![],
        }
    }

    /// The payload of a packet whose payload is encrypted.
    pub open spec fn body(self) -> Seq<u8> {
        match self {
            Packet::DataPacket(p) => p.payload@,
            Packet::TrackRequestPacket(p) => p.payload@,
            Packet::AppRejectErrorPacket(p) => p.payload@,
            Packet::TrackRejectionPacket(p) => p.payload@,
            _ => seq![],
        }
    }

    /// The bytes that the packet goes out as, if it does.
    pub open spec fn wire_bytes(self, keys: Map<u64, KeyView>) -> Option<Seq<u8>> {
        match protection(self@) {
            Protection::Encrypted => {
                let session = self@.session()->Some_0;
                if sealable(keys, session, self.head(), self.body()) {
                    Some(sealed_bytes(keys, session, self.head(), self.body()))
                } else {
                    None
                }
            },
            Protection::Tagged => {
                let session = self@.session()->Some_0;
                if keys.dom().contains(session.0) && self.image().len() <= MAX_PROTECTED {
                    Some(tagged_bytes(keys, session, self.image()))
                } else {
                    None
                }
            },
            Protection::Plain => Some(self.image()),
            Protection::Never => None,
        }
    }

    /// The keys after the packet went out.
    pub open spec fn keys_after(self, keys: Map<u64, KeyView>) -> Map<u64, KeyView> {
        if self.wire_bytes(keys) is Some && !(protection(self@) is Plain) {
            key_used(keys, self@.session()->Some_0)
        } else {
            keys
        }
    }
}

/// A packet and how often it is sent.
pub open spec fn outgoing(packet: Packet, addr: Address, keys: Map<u64, KeyView>) -> Seq<
    ProcessedView,
> {
    match packet.wire_bytes(keys) {
        Some(data) => seq![
            ProcessedView {
                dest_addr: addr,
                packet_type: type_of(packet@),
                data,
                duplicate_count: duplicates(packet@),
            },
        ],
        None => seq![],
    }
}

fn plain_bytes<T: Serialize>(packet: &T) -> (data: Vec<u8>)
    ensures
        data@ == packet.image(),
{
    let mut data: Vec<u8> = Vec::new();
    packet.put(&mut data);
    assert(data@ =~= packet.image());
    data
}

/// Protects a packet that is not one of a stream, and writes it as bytes.
#[verifier::rlimit(40)]
pub fn process_control(
    packet: Packet,
    addr: Address,
    windows: &mut Table<u64, EncryptionWindow>,
    out: &mut Vec<ProcessedPacket>,
)
    requires
        !(packet is DataPacket),
    ensures
        state::key_views(final(windows)@) == packet.keys_after(state::key_views(old(windows)@)),
        types::processed_views(final(out)@) == types::processed_views(old(out)@) + outgoing(
            packet,
            addr,
            state::key_views(old(windows)@),
        ),
{
    let ghost whole = packet;
    let ghost keys = state::key_views(windows@);
    let ghost out0 = types::processed_views(out@);
    let (packet_type, duplicate_count): (PacketType, usize) = match &packet {
        Packet::TrackRequestPacket(_) => (PacketType::Session, 3),
        Packet::TrackRejectionPacket(_) => (PacketType::Session, 3),
        Packet::RetransmitPacket(_) => (PacketType::Session, 3),
        Packet::CloseSessionPacket(_) => (PacketType::Session, 3),
        Packet::AppRejectErrorPacket(_) => (PacketType::Error, 3),
        Packet::SessionDoesNotExistErrorPacket(_) => (PacketType::Error, 3),
        Packet::UnexpectedPacketErrorPacket(_) => (PacketType::Error, 3),
        Packet::PlaybackStatusPacket(_) => (PacketType::Playback, 3),
        Packet::KeepAlivePacket(_) => (PacketType::KeepAlive, 3),
        Packet::AckPacket(_) => (PacketType::Ack, 3),
        Packet::HelloPacket(_) => (PacketType::Host, 7),
        Packet::HandshakeRejection(_) => (PacketType::Host, 3),
        Packet::IncompatibleVersionPacket(_) => (PacketType::Host, 7),
        Packet::HandshakeAckPacket(_) => (PacketType::HandshakeAck, 3),
        Packet::MetadataPacket(_) => (PacketType::Metadata, 3),
        Packet::ParityPacket(_) => (PacketType::Parity, 1),
        Packet::DataPacket(_) => (PacketType::Data, 1),
    };
    let data: Option<Vec<u8>> = match packet {
        Packet::TrackRequestPacket(p) => {
            let session: SessionId = p.session_id;
            process_encrypted(*p, session, windows)
        },
        Packet::TrackRejectionPacket(p) => {
            let session: SessionId = p.session_id;
            process_encrypted(*p, session, windows)
        },
        Packet::AppRejectErrorPacket(p) => {
            let session: SessionId = p.session_id;
            process_encrypted(*p, session, windows)
        },
        Packet::RetransmitPacket(p) => process_authenticated(&*p, p.session_id, windows),
        Packet::PlaybackStatusPacket(p) => process_authenticated(&*p, p.session_id, windows),
        Packet::CloseSessionPacket(p) => process_authenticated(&*p, p.session_id, windows),
        Packet::SessionDoesNotExistErrorPacket(p) => process_authenticated(
            &*p,
            p.session_id,
            windows,
        ),
        Packet::KeepAlivePacket(p) => process_authenticated(&*p, p.session_id, windows),
        Packet::UnexpectedPacketErrorPacket(p) => process_authenticated(
            &*p,
            p.session_id,
            windows,
        ),
        Packet::AckPacket(p) => process_authenticated(&*p, p.session_id, windows),
        Packet::HelloPacket(p) => Some(plain_bytes(&*p)),
        Packet::HandshakeRejection(p) => Some(plain_bytes(&*p)),
        Packet::HandshakeAckPacket(p) => Some(plain_bytes(&*p)),
        Packet::IncompatibleVersionPacket(p) => Some(plain_bytes(&*p)),
        Packet::MetadataPacket(_) => None,
        Packet::ParityPacket(_) => None,
        Packet::DataPacket(_) => None,
    };
    match data {
        Some(data) => {
            types::push_processed(
                out,
                ProcessedPacket { dest_addr: addr, packet_type, data, duplicate_count },
            );
        },
        None => {},
    }
    assert(types::processed_views(out@) =~= out0 + outgoing(whole, addr, keys));
}

/// What goes out, what is noted, and the keys after that.
#[verifier::ext_equal]
pub struct OutStep {
    pub keys: Map<u64, KeyView>,
    pub out: Seq<ProcessedView>,
    pub actions: Seq<ActionView>,
}

/// The observations of a packet of a stream that went out.
pub open spec fn sent_observed(session: SessionId, bytes: int, kind: Observation) -> Seq<ActionView> {
    (if bytes > 0 {
        seq![ActionView::Observe(Observation::BytesSent { session, bytes: bytes as u64 })]
    } else {
        seq![]
    }).push(ActionView::Observe(kind))
}

impl OutStep {
    /// One more packet of a stream goes out.
    pub open spec fn with(
        self,
        session: SessionId,
        head: Seq<u8>,
        body: Seq<u8>,
        addr: Address,
        packet_type: PacketType,
        kind: Observation,
    ) -> OutStep {
        if sealable(self.keys, session, head, body) {
            OutStep {
                keys: key_used(self.keys, session),
                out: self.out.push(
                    ProcessedView {
                        dest_addr: addr,
                        packet_type,
                        data: sealed_bytes(self.keys, session, head, body),
                        duplicate_count: 1,
                    },
                ),
                actions: self.actions + sent_observed(session, body.len() as int, kind),
            }
        } else {
            self
        }
    }

    /// Parity packets go out.
    pub open spec fn with_parity(self, parity: Seq<ParityPacket>, addr: Address) -> OutStep
        decreases parity.len(),
    {
        if parity.len() == 0 {
            self
        } else {
            let p = parity.last();
            self.with_parity(parity.drop_last(), addr).with(
                p.session_id,
                p.head_image(),
                p.payload@,
                addr,
                PacketType::Parity,
                Observation::ParityPacketSent { session: p.session_id },
            )
        }
    }
}

fn note_sent(session: SessionId, bytes: usize, kind: Observation, actions: &mut Vec<Action>)
    ensures
        messages::appended(
            old(actions)@,
            final(actions)@,
            sent_observed(session, bytes as int, kind),
        ),
{
    let ghost acts0 = actions@;
    if bytes > 0 {
        messages::push_action(
            actions,
            Action::Observe(Observation::BytesSent { session, bytes: bytes as u64 }),
        );
    }
    messages::push_action(actions, Action::Observe(kind));
    assert(messages::action_views(actions@) =~= messages::action_views(acts0) + sent_observed(
        session,
        bytes as int,
        kind,
    ));
}

/// Encrypts a packet of a stream and lets it go out.
fn stream_packet<T: Encryptable>(
    packet: T,
    session: SessionId,
    addr: Address,
    packet_type: PacketType,
    kind: Observation,
    windows: &mut Table<u64, EncryptionWindow>,
    out: &mut Vec<ProcessedPacket>,
    actions: &mut Vec<Action>,
)
    ensures
        ({
            let step = (OutStep {
                keys: state::key_views(old(windows)@),
                out: types::processed_views(old(out)@),
                actions: messages::action_views(old(actions)@),
            }).with(session, packet.head_image(), packet.body(), addr, packet_type, kind);
            &&& state::key_views(final(windows)@) == step.keys
            &&& types::processed_views(final(out)@) == step.out
            &&& messages::action_views(final(actions)@) == step.actions
        }),
{
    let bytes: usize = packet.payload().len();
    match process_encrypted(packet, session, windows) {
        Some(data) => {
            types::push_processed(
                out,
                ProcessedPacket { dest_addr: addr, packet_type, data, duplicate_count: 1 },
            );
            note_sent(session, bytes, kind, actions);
        },
        None => {},
    }
}

impl StateView {
    /// The way of coding of the stream that a session sends.
    pub open spec fn sending_scheme(self, session: SessionId) -> FecScheme {
        self.conn(session).stream().streaming->To_0.fec_config.scheme
    }

    /// Whether a data packet that goes out counts for the parity of its batch.
    pub open spec fn codes(self, packet: views::DataView) -> bool {
        self.sends(packet.session_id) && packet.payload.len() <= MAX_PAYLOAD_LENGTH && fec::codable(
            packet.fec_info,
            self.sending_scheme(packet.session_id),
        )
    }

    /// What sending a data packet does: the state `next` after it, what goes out and what
    /// is noted. `parity` are the parity packets of its batch, if the packet was its last
    /// one.
    pub open spec fn sends_data(
        self,
        next: StateView,
        packet: DataPacket,
        addr: Address,
        now: Timestamp,
        parity: Option<Vec<ParityPacket>>,
        before: OutStep,
        after: OutStep,
    ) -> bool {
        let session = packet.session_id;
        &&& if self.codes(packet@) {
            self.fec.sends(
                next.fec,
                self.sending_scheme(session),
                packet.batch_id,
                session,
                packet.fec_info,
                fec::data::fec_image(packet.byte_range_start.0, packet.payload@),
                now,
                parity,
            )
        } else {
            next.fec == self.fec && parity is None
        }
        &&& after == before.with(
            session,
            packet.head_image(),
            packet.payload@,
            addr,
            PacketType::Data,
            Observation::DataPacketSent { session },
        ).with_parity(
            match parity {
                Some(packets) => packets@,
                None => seq![],
            },
            addr,
        )
        &&& next == (StateView { fec: next.fec, encryption: after.keys, ..self })
    }
}

/// What there is to send and to do, with the keys of a state.
pub open spec fn out_step(
    state: StateView,
    out: Seq<ProcessedPacket>,
    actions: Seq<Action>,
) -> OutStep {
    OutStep {
        keys: state.encryption,
        out: types::processed_views(out),
        actions: messages::action_views(actions),
    }
}

fn sending_scheme_of(connections: &Table<u64, ConnectionStates>, session: SessionId) -> (r: Option<
    FecScheme,
>)
    ensures
        ({
            let conns = crate::manager::tables::conn_views(connections@);
            r == (if conns.dom().contains(session.0) && conns[session.0].flat()
                == FlatState::StreamingTo {
                Some(conns[session.0].stream().streaming->To_0.fec_config.scheme)
            } else {
                None
            })
        }),
{
    match connections.get(session.0) {
        Some(ConnectionStates::Established(established)) => match &established.state {
            SessionStates::Streaming(stream) => match &stream.streaming {
                Streaming::To(to) => Some(to.fec_config.scheme),
                Streaming::From(_) => None,
            },
            _ => None,
        },
        _ => None,
    }
}

impl ProtocolState {
    /// Encrypts parity packets and lets them go out.
    fn handle_parity(
        &mut self,
        parity: Vec<ParityPacket>,
        addr: Address,
        out: &mut Vec<ProcessedPacket>,
        actions: &mut Vec<Action>,
    )
        requires
            old(self).wf(),
        ensures
            final(self).wf(),
            final(self)@ == (StateView { encryption: final(self)@.encryption, ..old(self)@ }),
            out_step(final(self)@, final(out)@, final(actions)@) == out_step(
                old(self)@,
                old(out)@,
                old(actions)@,
            ).with_parity(parity@, addr),
    {
        let ghost before = self@;
        let ghost step0 = out_step(self@, out@, actions@);
        let mut i: usize = 0;
        assert(parity@.take(0) =~= seq![]);
        while i < parity.len()
            invariant
                i <= parity@.len(),
                self.wf(),
                self@ == (StateView { encryption: self@.encryption, ..before }),
                out_step(self@, out@, actions@) =~= step0.with_parity(
                    parity@.take(i as int),
                    addr,
                ),
            decreases parity.len() - i,
        {
            assert(parity@.take(i + 1).drop_last() =~= parity@.take(i as int));
            assert(parity@.take(i + 1).last() == parity@[i as int]);
            let packet: ParityPacket = parity[i].duplicate();
            let session: SessionId = packet.session_id;
            stream_packet(
                packet,
                session,
                addr,
                PacketType::Parity,
                Observation::ParityPacketSent { session },
                &mut self.encryption,
                out,
                actions,
            );
            i += 1;
        }
        assert(parity@.take(parity@.len() as int) =~= parity@);
    }

    /// Lets a data packet go out, and the parity of its batch if the packet was its last
    /// one.
    pub fn process_data(
        &mut self,
        packet: DataPacket,
        addr: Address,
        now: Timestamp,
        out: &mut Vec<ProcessedPacket>,
        actions: &mut Vec<Action>,
    )
        requires
            old(self).wf(),
        ensures
            final(self).wf(),
            exists|parity: Option<Vec<ParityPacket>>| #[trigger]
                old(self)@.sends_data(
                    final(self)@,
                    packet,
                    addr,
                    now,
                    parity,
                    out_step(old(self)@, old(out)@, old(actions)@),
                    out_step(final(self)@, final(out)@, final(actions)@),
                ),
    {
        let ghost before = self@;
        let ghost step0 = out_step(self@, out@, actions@);
        let ghost whole = packet;
        let session: SessionId = packet.session_id;
        let mut parity: Option<Vec<ParityPacket>> = None;
        match sending_scheme_of(&self.connections, session) {
            Some(scheme) => {
                let codable: bool = packet.fec_info.batch_size > 0 && (scheme == FecScheme::Xor
                    || packet.fec_info.recovery_count > 0);
                if packet.payload.len() <= MAX_PAYLOAD_LENGTH && codable {
                    parity = self.fec.sent(&packet, scheme, now);
                }
            },
            None => {},
        }
        let ghost coded = self@;
        let ghost parity0 = parity;
        stream_packet(
            packet,
            session,
            addr,
            PacketType::Data,
            Observation::DataPacketSent { session },
            &mut self.encryption,
            out,
            actions,
        );
        match parity {
            Some(packets) => {
                self.handle_parity(packets, addr, out, actions);
            },
            None => {},
        }
        proof {
            let after = out_step(self@, out@, actions@);
            assert(self@ =~= (StateView { fec: coded.fec, encryption: after.keys, ..before }));
            assert(before.sends_data(self@, whole, addr, now, parity0, step0, after));
        }
    }
}

proof fn lemma_same_fingerprint(a: Packet, b: Packet)
    requires
        a@ == b@,
    ensures
        a.fingerprinted() == b.fingerprinted(),
{
}

impl StateView {
    /// The state after a packet was registered that is to be acknowledged.
    pub open spec fn registered(self, packet: Packet, now: Timestamp) -> StateView {
        if packets::wants_ack(packet.options()) && may_be_acked(packet@) {
            StateView {
                ack: self.ack.waiting_for(
                    packet@,
                    fingerprint::xxh3_128_of(packet.fingerprinted()->Some_0),
                    now,
                ),
                ..self
            }
        } else {
            self
        }
    }
}

impl ProtocolState {
    /// Registers a packet that is to be acknowledged.
    fn add_pending_ack(&mut self, packet: &Packet, now: Timestamp)
        requires
            old(self).wf(),
        ensures
            final(self).wf(),
            final(self)@ == old(self)@.registered(*packet, now),
    {
        let acked: bool = match packet {
            Packet::DataPacket(_) => true,
            Packet::TrackRequestPacket(_) => true,
            Packet::AppRejectErrorPacket(_) => true,
            Packet::TrackRejectionPacket(_) => true,
            Packet::RetransmitPacket(_) => true,
            Packet::PlaybackStatusPacket(_) => true,
            _ => false,
        };
        if acked && packets::requires_ack(packet.opts()) {
            let copy: Packet = packet.duplicate();
            proof {
                lemma_same_fingerprint(copy, *packet);
            }
            self.ack.add(copy, now);
        }
    }

    /// Lets a packet go out. One that wants an acknowledgement is registered, unless it is
    /// sent again.
    pub fn handle_packet(
        &mut self,
        wrapper: PacketWrapper,
        resend: bool,
        now: Timestamp,
        out: &mut Vec<ProcessedPacket>,
        actions: &mut Vec<Action>,
    )
        requires
            old(self).wf(),
        ensures
            final(self).wf(),
            goes_out(
                if resend {
                    old(self)@
                } else {
                    old(self)@.registered(wrapper.packet, now)
                },
                final(self)@,
                wrapper.packet,
                wrapper.addr,
                now,
                out_step(old(self)@, old(out)@, old(actions)@),
                out_step(final(self)@, final(out)@, final(actions)@),
            ),
    {
        let addr: Address = wrapper.addr;
        let ghost whole = wrapper.packet;
        let ghost step0 = out_step(self@, out@, actions@);
        if !resend {
            self.add_pending_ack(&wrapper.packet, now);
        }
        let ghost before = self@;
        match wrapper.packet {
            Packet::DataPacket(packet) => {
                self.process_data(*packet, addr, now, out, actions);
                assert(out_step(before, old(out)@, old(actions)@) =~= step0);
            },
            packet => {
                let ghost acts0 = actions@;
                process_control(packet, addr, &mut self.encryption, out);
                assert(self@ =~= (StateView {
                    encryption: whole.keys_after(before.encryption),
                    ..before
                }));
            },
        }
    }
}

/// What letting a packet go out does: the state `next` after it, what goes out and what is
/// noted.
pub open spec fn goes_out(
    state: StateView,
    next: StateView,
    packet: Packet,
    addr: Address,
    now: Timestamp,
    before: OutStep,
    after: OutStep,
) -> bool {
    match packet {
        Packet::DataPacket(p) => exists|parity: Option<Vec<ParityPacket>>| #[trigger]
            state.sends_data(next, *p, addr, now, parity, before, after),
        _ => {
            &&& next == (StateView { encryption: packet.keys_after(state.encryption), ..state })
            &&& after == (OutStep {
                keys: next.encryption,
                out: before.out + outgoing(packet, addr, state.encryption),
                actions: before.actions,
            })
        },
    }
}

} // verus!
