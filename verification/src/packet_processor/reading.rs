//! Which packet bytes are, and how they are read.
use vstd::prelude::*;

use crate::error::{Error, PacketProcessingError};
use crate::manager::fields::{
    ControlType, ErrorType, HostControlType, PacketType, SessionControlType, SessionId, Version,
    CURRENT_VERSION, MIN_COMPATIBLE_VERSION,
};
use crate::manager::identity::Address;
use crate::manager::images::{
    AckPacket, AppRejectErrorPacket, CloseSessionPacket, DataPacket, HandshakeAckPacket,
    HandshakeRejection, HelloPacket, KeepAlivePacket, ParityPacket, RetransmitPacket,
    SessionDoesNotExistErrorPacket, TrackRejectionPacket, TrackRequestPacket,
    UnexpectedPacketErrorPacket,
};
use crate::manager::packets::{
    IncompatibleVersionPacket, Packet, PacketWrapper, PlaybackStatusPacket,
};
use crate::manager::state;
use crate::manager::state::{KeyView, ProtocolState, StateView};
use crate::manager::types::Timestamp;
use crate::manager::windows;
use crate::manager::windows::FingerprintWindow;
use crate::packet_processor::delivery;
use crate::packet_processor::encryption;
use crate::packet_processor::encryption::EncryptionWindow;
use crate::packet_processor::fingerprint;
use crate::packet_processor::fingerprint::Headers;
use crate::packet_processor::inbound;
use crate::packet_processor::readers;
use crate::packet_processor::serialize::Serialize;
use crate::packet_processor::types::ReceivedPacket;
use crate::utils::data_collection::Observation;
use crate::utils::messages;
use crate::utils::messages::{Action, ActionView};
use crate::utils::table::Table;
use crate::wire;

verus! {

/// Where the type of a packet stands.
pub const PACKET_TYPE_OFFSET: usize = 4;

/// Where the kind of a packet within its type stands.
pub const SECONDARY_TYPE_OFFSET: usize = 5;

/// Where the session of a packet stands that belongs to no batch.
pub const SESSION_ID_OFFSET: usize = 8;

/// Where the session of a packet stands that belongs to a batch.
pub const BATCH_SESSION_ID_OFFSET: usize = 10;

/// The session that stands at an offset.
pub open spec fn session_at(data: Seq<u8>, offset: int) -> SessionId {
    SessionId(wire::rd64(data, offset))
}

/// What reading a packet gives that asks for bytes of a stream again, and the fingerprints
/// after that.
pub open spec fn reads_retransmit(
    keys: Map<u64, KeyView>,
    window: Seq<(Timestamp, u128)>,
    after: Seq<(Timestamp, u128)>,
    session: SessionId,
    data: Seq<u8>,
    now: Timestamp,
    r: Option<RetransmitPacket>,
) -> bool {
    let bytes = encryption::tagged_data(data);
    if inbound::tag_ok(keys, session, data) && RetransmitPacket::decodes(bytes) {
        exists|p: RetransmitPacket| #[trigger]
            p.decoded_from(bytes) && {
                let f = fingerprint::xxh3_128_of(p.head_image());
                if windows::queued(window, f) {
                    after == window && r is None
                } else {
                    after == window.push((now, f)) && r == Some(p)
                }
            }
    } else {
        after == window && r is None
    }
}

/// What reading a control packet gives, and the fingerprints after that.
pub open spec fn reads_control(
    keys: Map<u64, KeyView>,
    window: Seq<(Timestamp, u128)>,
    after: Seq<(Timestamp, u128)>,
    data: Seq<u8>,
    now: Timestamp,
    r: Option<Packet>,
) -> bool {
    let session = session_at(data, 8);
    match ControlType::of_code(data[5]) {
        Some(ControlType::Host(HostControlType::Hello)) => after == window && match r {
            Some(Packet::HelloPacket(p)) => inbound::reads_plain(data, Some(*p)),
            Some(_) => false,
            None => inbound::reads_plain::<HelloPacket>(data, None),
        },
        Some(ControlType::Host(HostControlType::HandshakeRejection)) => after == window
            && match r {
            Some(Packet::HandshakeRejection(p)) => inbound::reads_plain(data, Some(*p)),
            Some(_) => false,
            None => inbound::reads_plain::<HandshakeRejection>(data, None),
        },
        Some(ControlType::Session(SessionControlType::Retransmit)) => match r {
            Some(Packet::RetransmitPacket(p)) => reads_retransmit(
                keys,
                window,
                after,
                session,
                data,
                now,
                Some(*p),
            ),
            Some(_) => false,
            None => reads_retransmit(keys, window, after, session, data, now, None),
        },
        Some(ControlType::Session(SessionControlType::TrackRequest)) => match r {
            Some(Packet::TrackRequestPacket(p)) => inbound::reads_sealed(
                keys,
                window,
                after,
                session,
                data,
                now,
                Some(*p),
            ),
            Some(_) => false,
            None => inbound::reads_sealed::<TrackRequestPacket>(
                keys,
                window,
                after,
                session,
                data,
                now,
                None,
            ),
        },
        Some(ControlType::Session(SessionControlType::TrackRejection)) => match r {
            Some(Packet::TrackRejectionPacket(p)) => inbound::reads_sealed(
                keys,
                window,
                after,
                session,
                data,
                now,
                Some(*p),
            ),
            Some(_) => false,
            None => inbound::reads_sealed::<TrackRejectionPacket>(
                keys,
                window,
                after,
                session,
                data,
                now,
                None,
            ),
        },
        Some(ControlType::Session(SessionControlType::CloseSession)) => match r {
            Some(Packet::CloseSessionPacket(p)) => inbound::reads_tagged(
                keys,
                window,
                after,
                session,
                data,
                now,
                Some(*p),
            ),
            Some(_) => false,
            None => inbound::reads_tagged::<CloseSessionPacket>(
                keys,
                window,
                after,
                session,
                data,
                now,
                None,
            ),
        },
        Some(ControlType::Playback(_)) => match r {
            Some(Packet::PlaybackStatusPacket(p)) => inbound::reads_tagged(
                keys,
                window,
                after,
                session,
                data,
                now,
                Some(*p),
            ),
            Some(_) => false,
            None => inbound::reads_tagged::<PlaybackStatusPacket>(
                keys,
                window,
                after,
                session,
                data,
                now,
                None,
            ),
        },
        Some(ControlType::Session(SessionControlType::MetadataRequest)) => after == window
            && r is None,
        None => after == window && r is None,
    }
}

/// What reading a complaint gives, and the fingerprints after that.
pub open spec fn reads_error(
    keys: Map<u64, KeyView>,
    window: Seq<(Timestamp, u128)>,
    after: Seq<(Timestamp, u128)>,
    data: Seq<u8>,
    now: Timestamp,
    r: Option<Packet>,
) -> bool {
    let session = session_at(data, 8);
    match ErrorType::of_code(data[5]) {
        Some(ErrorType::AppReject) => match r {
            Some(Packet::AppRejectErrorPacket(p)) => inbound::reads_sealed(
                keys,
                window,
                after,
                session,
                data,
                now,
                Some(*p),
            ),
            Some(_) => false,
            None => inbound::reads_sealed::<AppRejectErrorPacket>(
                keys,
                window,
                after,
                session,
                data,
                now,
                None,
            ),
        },
        Some(ErrorType::UnexpectedPacket) | Some(ErrorType::IncomprehensiblePacket) => match r {
            Some(Packet::UnexpectedPacketErrorPacket(p)) => inbound::reads_tagged(
                keys,
                window,
                after,
                session,
                data,
                now,
                Some(*p),
            ),
            Some(_) => false,
            None => inbound::reads_tagged::<UnexpectedPacketErrorPacket>(
                keys,
                window,
                after,
                session,
                data,
                now,
                None,
            ),
        },
        Some(ErrorType::SessionDoesNotExist) => match r {
            Some(Packet::SessionDoesNotExistErrorPacket(p)) => inbound::reads_tagged(
                keys,
                window,
                after,
                session,
                data,
                now,
                Some(*p),
            ),
            Some(_) => false,
            None => inbound::reads_tagged::<SessionDoesNotExistErrorPacket>(
                keys,
                window,
                after,
                session,
                data,
                now,
                None,
            ),
        },
        None => after == window && r is None,
    }
}

/// What reading a packet of a version that is understood gives, and the fingerprints after
/// that.
pub open spec fn reads(
    keys: Map<u64, KeyView>,
    window: Seq<(Timestamp, u128)>,
    after: Seq<(Timestamp, u128)>,
    data: Seq<u8>,
    now: Timestamp,
    r: Option<Packet>,
) -> bool {
    if data.len() < 18 {
        after == window && r is None
    } else {
        match PacketType::of_code(data[4]) {
            Some(PacketType::Data) => after == window && match r {
                Some(Packet::DataPacket(p)) => inbound::sealed_in(
                    keys,
                    session_at(data, 10),
                    data,
                    *p,
                ),
                Some(_) => false,
                None => !inbound::sealed_ok::<DataPacket>(keys, session_at(data, 10), data),
            },
            Some(PacketType::Parity) => after == window && match r {
                Some(Packet::ParityPacket(p)) => inbound::sealed_in(
                    keys,
                    session_at(data, 10),
                    data,
                    *p,
                ),
                Some(_) => false,
                None => !inbound::sealed_ok::<ParityPacket>(keys, session_at(data, 10), data),
            },
            Some(PacketType::Ack) => after == window && match r {
                Some(Packet::AckPacket(p)) => inbound::reads_plain(data, Some(*p)),
                Some(_) => false,
                None => inbound::reads_plain::<AckPacket>(data, None),
            },
            Some(PacketType::HandshakeAck) => after == window && match r {
                Some(Packet::HandshakeAckPacket(p)) => inbound::reads_plain(data, Some(*p)),
                Some(_) => false,
                None => inbound::reads_plain::<HandshakeAckPacket>(data, None),
            },
            Some(PacketType::KeepAlive) => match r {
                Some(Packet::KeepAlivePacket(p)) => inbound::reads_tagged(
                    keys,
                    window,
                    after,
                    session_at(data, 8),
                    data,
                    now,
                    Some(*p),
                ),
                Some(_) => false,
                None => inbound::reads_tagged::<KeepAlivePacket>(
                    keys,
                    window,
                    after,
                    session_at(data, 8),
                    data,
                    now,
                    None,
                ),
            },
            Some(PacketType::Host) | Some(PacketType::Session) | Some(PacketType::Playback) => {
                reads_control(keys, window, after, data, now, r)
            },
            Some(PacketType::Error) => reads_error(keys, window, after, data, now, r),
            Some(PacketType::Metadata) => after == window && r is None,
            None => after == window && r is None,
        }
    }
}

/// Reads a control packet. What a peer sent arrives.
#[verifier::rlimit(80)]
pub fn deserialize_and_auth_control_packet(
    data: Vec<u8>,
    keys: &Table<u64, EncryptionWindow>,
    window: &mut FingerprintWindow,
    now: Timestamp,
) -> (r: Option<Packet>)
    requires
        old(window).wf(),
        data@.len() >= 18,
    ensures
        final(window).wf(),
        reads_control(
            state::key_views(keys@),
            old(window)@,
            final(window)@,
            data@,
            now,
            r,
        ),
        forall|sent: Packet, keys0: Map<u64, KeyView>|
            delivery::is_control(sent) && #[trigger] delivery::carries(
                keys0,
                state::key_views(keys@),
                old(window)@,
                sent,
                data@,
            ) ==> delivery::arrived(sent, r),
{
    let session_id = SessionId(wire::get_u64(data.as_slice(), SESSION_ID_OFFSET));
    let control: ControlType = match ControlType::from_code(data[SECONDARY_TYPE_OFFSET]) {
        Some(control) => control,
        None => {
            proof {
                assert forall|sent: Packet, keys0: Map<u64, KeyView>|
                    delivery::is_control(sent) && #[trigger] delivery::carries(
                        keys0,
                        state::key_views(keys@),
                        window@,
                        sent,
                        data@,
                    ) implies false by {
                    delivery::lemma_shows(keys0, state::key_views(keys@), window@, sent, data@);
                }
            }
            return None;
        },
    };
    match control {
        ControlType::Host(HostControlType::Hello) => match readers::read_hello_packet(&data, keys, &*window) {
            Some(p) => Some(Packet::HelloPacket(Box::new(p))),
            None => None,
        },
        ControlType::Host(HostControlType::HandshakeRejection) => match readers::read_handshake_rejection(&data, keys, &*window) {
            Some(p) => Some(Packet::HandshakeRejection(Box::new(p))),
            None => None,
        },
        ControlType::Session(SessionControlType::Retransmit) => match readers::read_retransmit_packet(data, session_id, keys, window, now) {
            Some(p) => Some(Packet::RetransmitPacket(Box::new(p))),
            None => None,
        },
        ControlType::Session(SessionControlType::TrackRequest) => match readers::read_track_request_packet(&data, session_id, keys, window, now) {
            Some(p) => Some(Packet::TrackRequestPacket(Box::new(p))),
            None => None,
        },
        ControlType::Session(SessionControlType::TrackRejection) => match readers::read_track_rejection_packet(&data, session_id, keys, window, now) {
            Some(p) => Some(Packet::TrackRejectionPacket(Box::new(p))),
            None => None,
        },
        ControlType::Session(SessionControlType::CloseSession) => match readers::read_close_session_packet(data, session_id, keys, window, now) {
            Some(p) => Some(Packet::CloseSessionPacket(Box::new(p))),
            None => None,
        },
        ControlType::Session(SessionControlType::MetadataRequest) => {
            proof {
                assert forall|sent: Packet, keys0: Map<u64, KeyView>|
                    delivery::is_control(sent) && #[trigger] delivery::carries(
                        keys0,
                        state::key_views(keys@),
                        window@,
                        sent,
                        data@,
                    ) implies false by {
                    delivery::lemma_shows(keys0, state::key_views(keys@), window@, sent, data@);
                    delivery::lemma_carries_marked(
                        keys0,
                        state::key_views(keys@),
                        window@,
                        sent,
                        data@,
                    );
                }
            }
            None
        },
        ControlType::Playback(_) => match readers::read_playback_status_packet(data, session_id, keys, window, now) {
            Some(p) => Some(Packet::PlaybackStatusPacket(Box::new(p))),
            None => None,
        },
    }
}

/// Reads a complaint. What a peer sent arrives.
pub fn deserialize_and_auth_error_packet(
    data: Vec<u8>,
    keys: &Table<u64, EncryptionWindow>,
    window: &mut FingerprintWindow,
    now: Timestamp,
) -> (r: Option<Packet>)
    requires
        old(window).wf(),
        data@.len() >= 18,
    ensures
        final(window).wf(),
        reads_error(
            state::key_views(keys@),
            old(window)@,
            final(window)@,
            data@,
            now,
            r,
        ),
        forall|sent: Packet, keys0: Map<u64, KeyView>|
            delivery::is_error(sent) && #[trigger] delivery::carries(
                keys0,
                state::key_views(keys@),
                old(window)@,
                sent,
                data@,
            ) ==> delivery::arrived(sent, r),
{
    let session_id = SessionId(wire::get_u64(data.as_slice(), SESSION_ID_OFFSET));
    let error: ErrorType = match ErrorType::from_code(data[SECONDARY_TYPE_OFFSET]) {
        Some(error) => error,
        None => {
            proof {
                assert forall|sent: Packet, keys0: Map<u64, KeyView>|
                    delivery::is_error(sent) && #[trigger] delivery::carries(
                        keys0,
                        state::key_views(keys@),
                        window@,
                        sent,
                        data@,
                    ) implies false by {
                    delivery::lemma_shows(keys0, state::key_views(keys@), window@, sent, data@);
                }
            }
            return None;
        },
    };
    match error {
        ErrorType::AppReject => match readers::read_app_reject_error_packet(&data, session_id, keys, window, now) {
            Some(p) => Some(Packet::AppRejectErrorPacket(Box::new(p))),
            None => None,
        },
        ErrorType::UnexpectedPacket | ErrorType::IncomprehensiblePacket => match readers::read_unexpected_packet_error_packet(data, session_id, keys, window, now) {
            Some(p) => Some(Packet::UnexpectedPacketErrorPacket(Box::new(p))),
            None => None,
        },
        ErrorType::SessionDoesNotExist => match readers::read_session_does_not_exist_error_packet(data, session_id, keys, window, now) {
            Some(p) => Some(Packet::SessionDoesNotExistErrorPacket(Box::new(p))),
            None => None,
        },
    }
}

/// Reads a packet of a version that is understood. What a peer sent arrives.
pub fn deserialize_and_decrypt(
    data: Vec<u8>,
    keys: &Table<u64, EncryptionWindow>,
    window: &mut FingerprintWindow,
    now: Timestamp,
) -> (r: Option<Packet>)
    requires
        old(window).wf(),
    ensures
        final(window).wf(),
        reads(state::key_views(keys@), old(window)@, final(window)@, data@, now, r),
        forall|sent: Packet, keys0: Map<u64, KeyView>|
            #[trigger] delivery::carries(
                keys0,
                state::key_views(keys@),
                old(window)@,
                sent,
                data@,
            ) ==> delivery::arrived(sent, r),
{
    if data.len() < BATCH_SESSION_ID_OFFSET + 8 {
        proof {
            assert forall|sent: Packet, keys0: Map<u64, KeyView>|
                #[trigger] delivery::carries(
                    keys0,
                    state::key_views(keys@),
                    window@,
                    sent,
                    data@,
                ) implies false by {
                delivery::lemma_shows(keys0, state::key_views(keys@), window@, sent, data@);
            }
        }
        return None;
    }
    let packet_type: PacketType = match PacketType::from_code(data[PACKET_TYPE_OFFSET]) {
        Some(packet_type) => packet_type,
        None => {
            proof {
                assert forall|sent: Packet, keys0: Map<u64, KeyView>|
                    #[trigger] delivery::carries(
                        keys0,
                        state::key_views(keys@),
                        window@,
                        sent,
                        data@,
                    ) implies false by {
                    delivery::lemma_shows(keys0, state::key_views(keys@), window@, sent, data@);
                }
            }
            return None;
        },
    };
    match packet_type {
        PacketType::Data => {
            let session_id = SessionId(wire::get_u64(data.as_slice(), BATCH_SESSION_ID_OFFSET));
            match readers::read_data_packet(&data, session_id, keys, &*window) {
                Some(p) => Some(Packet::DataPacket(Box::new(p))),
                None => None,
            }
        },
        PacketType::Parity => {
            let session_id = SessionId(wire::get_u64(data.as_slice(), BATCH_SESSION_ID_OFFSET));
            match readers::read_parity_packet(&data, session_id, keys, &*window) {
                Some(p) => Some(Packet::ParityPacket(Box::new(p))),
                None => None,
            }
        },
        PacketType::Ack => match readers::read_ack_packet(&data, keys, &*window) {
            Some(p) => Some(Packet::AckPacket(Box::new(p))),
            None => None,
        },
        PacketType::HandshakeAck => match readers::read_handshake_ack_packet(&data, keys, &*window) {
            Some(p) => Some(Packet::HandshakeAckPacket(Box::new(p))),
            None => None,
        },
        PacketType::KeepAlive => {
            let session_id = SessionId(wire::get_u64(data.as_slice(), SESSION_ID_OFFSET));
            match readers::read_keep_alive_packet(data, session_id, keys, window, now) {
                Some(p) => Some(Packet::KeepAlivePacket(Box::new(p))),
                None => None,
            }
        },
        PacketType::Host | PacketType::Session | PacketType::Playback => {
            proof {
                assert forall|sent: Packet, keys0: Map<u64, KeyView>| #[trigger]
                    delivery::carries(
                        keys0,
                        state::key_views(keys@),
                        window@,
                        sent,
                        data@,
                    ) implies delivery::is_control(sent) by {
                    delivery::lemma_shows(keys0, state::key_views(keys@), window@, sent, data@);
                    delivery::lemma_carries_marked(
                        keys0,
                        state::key_views(keys@),
                        window@,
                        sent,
                        data@,
                    );
                }
            }
            deserialize_and_auth_control_packet(data, keys, window, now)
        },
        PacketType::Error => {
            proof {
                assert forall|sent: Packet, keys0: Map<u64, KeyView>| #[trigger]
                    delivery::carries(
                        keys0,
                        state::key_views(keys@),
                        window@,
                        sent,
                        data@,
                    ) implies delivery::is_error(sent) by {
                    delivery::lemma_shows(keys0, state::key_views(keys@), window@, sent, data@);
                    delivery::lemma_carries_marked(
                        keys0,
                        state::key_views(keys@),
                        window@,
                        sent,
                        data@,
                    );
                }
            }
            deserialize_and_auth_error_packet(data, keys, window, now)
        },
        PacketType::Metadata => {
            proof {
                assert forall|sent: Packet, keys0: Map<u64, KeyView>|
                    #[trigger] delivery::carries(
                        keys0,
                        state::key_views(keys@),
                        window@,
                        sent,
                        data@,
                    ) implies false by {
                    delivery::lemma_shows(keys0, state::key_views(keys@), window@, sent, data@);
                    delivery::lemma_carries_marked(
                        keys0,
                        state::key_views(keys@),
                        window@,
                        sent,
                        data@,
                    );
                }
            }
            None
        },
    }
}

/// The observations of a packet of a stream that came in.
pub open spec fn arrival_observed(packet: Packet) -> Seq<ActionView> {
    match packet {
        Packet::DataPacket(p) => seq![
            ActionView::Observe(
                Observation::BytesReceived {
                    session: p.session_id,
                    bytes: p.payload@.len() as u64,
                },
            ),
            ActionView::Observe(Observation::DataPacketReceived { session: p.session_id }),
        ],
        Packet::ParityPacket(p) => seq![
            ActionView::Observe(
                Observation::BytesReceived {
                    session: p.session_id,
                    bytes: p.payload@.len() as u64,
                },
            ),
            ActionView::Observe(Observation::ParityPacketReceived { session: p.session_id }),
        ],
        _ => seq![],
    }
}

fn note_arrival(packet: &Packet, actions: &mut Vec<Action>)
    ensures
        messages::appended(old(actions)@, final(actions)@, arrival_observed(*packet)),
{
    let ghost acts0 = actions@;
    match packet {
        Packet::DataPacket(p) => {
            let session: SessionId = p.session_id;
            messages::push_action(
                actions,
                Action::Observe(
                    Observation::BytesReceived { session, bytes: p.payload.len() as u64 },
                ),
            );
            messages::push_action(
                actions,
                Action::Observe(Observation::DataPacketReceived { session }),
            );
        },
        Packet::ParityPacket(p) => {
            let session: SessionId = p.session_id;
            messages::push_action(
                actions,
                Action::Observe(
                    Observation::BytesReceived { session, bytes: p.payload.len() as u64 },
                ),
            );
            messages::push_action(
                actions,
                Action::Observe(Observation::ParityPacketReceived { session }),
            );
        },
        _ => {},
    }
    assert(messages::action_views(actions@) =~= messages::action_views(acts0)
        + arrival_observed(*packet));
}

impl ProtocolState {
    /// Takes in bytes that came from a peer. Gives the packet that they are, if they are
    /// one that has not come of late. A version that is not understood is an error; version
    /// zero says that the peer does not understand this one's. What a peer sent arrives.
    pub fn take_in(
        &mut self,
        received: ReceivedPacket,
        now: Timestamp,
        actions: &mut Vec<Action>,
    ) -> (r: Result<Option<PacketWrapper>, Error>)
        requires
            old(self).wf(),
        ensures
            final(self).wf(),
            final(self)@ == (StateView {
                fingerprints: final(self)@.fingerprints,
                ..old(self)@
            }),
            ({
                let data = received.data@;
                let version = Version(wire::rd16(data, 0));
                if data.len() < 2 {
                    &&& r == Ok::<Option<PacketWrapper>, Error>(None)
                    &&& final(self)@ == old(self)@
                    &&& final(actions)@ == old(actions)@
                } else if version.0 == 0 {
                    &&& final(self)@ == old(self)@
                    &&& final(actions)@ == old(actions)@
                    &&& match r {
                        Ok(Some(w)) => w.addr == received.src_addr && match w.packet {
                            Packet::IncompatibleVersionPacket(p) => inbound::reads_plain(
                                data,
                                Some(*p),
                            ),
                            _ => false,
                        },
                        Ok(None) => inbound::reads_plain::<IncompatibleVersionPacket>(data, None),
                        Err(_) => false,
                    }
                } else if version.0 < MIN_COMPATIBLE_VERSION {
                    &&& r == Err::<Option<PacketWrapper>, Error>(
                        Error::PacketProcessor(
                            PacketProcessingError::IncompatibleVersion(
                                version,
                                received.src_addr,
                            ),
                        ),
                    )
                    &&& final(self)@ == old(self)@
                    &&& final(actions)@ == old(actions)@
                } else {
                    match r {
                        Ok(Some(w)) => {
                            &&& w.addr == received.src_addr
                            &&& reads(
                                old(self)@.encryption,
                                old(self)@.fingerprints,
                                final(self)@.fingerprints,
                                data,
                                now,
                                Some(w.packet),
                            )
                            &&& messages::appended(
                                old(actions)@,
                                final(actions)@,
                                arrival_observed(w.packet),
                            )
                        },
                        Ok(None) => reads(
                            old(self)@.encryption,
                            old(self)@.fingerprints,
                            final(self)@.fingerprints,
                            data,
                            now,
                            None,
                        ) && final(actions)@ == old(actions)@,
                        Err(_) => false,
                    }
                }
            }),
            forall|sent: Packet, keys0: Map<u64, KeyView>| #[trigger]
                delivery::carries(
                    keys0,
                    old(self)@.encryption,
                    old(self)@.fingerprints,
                    sent,
                    received.data@,
                ) ==> (r matches Ok(Some(w)) && w.packet@ == sent@ && w.addr == received.src_addr),
    {
        proof {
            assert forall|sent: Packet, keys0: Map<u64, KeyView>| #[trigger]
                delivery::carries(
                    keys0,
                    self@.encryption,
                    self@.fingerprints,
                    sent,
                    received.data@,
                ) implies received.data@.len() >= 18 && wire::rd16(received.data@, 0)
                == CURRENT_VERSION by {
                delivery::lemma_shows(
                    keys0,
                    self@.encryption,
                    self@.fingerprints,
                    sent,
                    received.data@,
                );
            }
        }
        let src_addr: Address = received.src_addr;
        let version: Version = match Version::deserialize(received.data.as_slice()) {
            Ok(version) => version,
            Err(_) => {
                return Ok(None);
            },
        };
        if version.is_zero() {
            return match inbound::read_plain::<IncompatibleVersionPacket>(&received.data) {
                Some(p) => Ok(
                    Some(Packet::IncompatibleVersionPacket(Box::new(p)).wrap(src_addr)),
                ),
                None => Ok(None),
            };
        }
        if !version.is_compatible() {
            return Err(
                Error::PacketProcessor(
                    PacketProcessingError::IncompatibleVersion(version, src_addr),
                ),
            );
        }
        match deserialize_and_decrypt(
            received.data,
            &self.encryption,
            &mut self.fingerprints,
            now,
        ) {
            Some(packet) => {
                note_arrival(&packet, actions);
                Ok(Some(packet.wrap(src_addr)))
            },
            None => Ok(None),
        }
    }
}

} // verus!
