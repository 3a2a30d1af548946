//! Reading of each kind of packet. What a peer sent arrives.
use vstd::prelude::*;

use crate::manager::fields::{
    ControlType, ErrorType, HostControlType, PacketType, SessionControlType, SessionId,
};
use crate::manager::images::{
    AckPacket, AppRejectErrorPacket, CloseSessionPacket, DataPacket, HandshakeAckPacket,
    HandshakeRejection, HelloPacket, KeepAlivePacket, ParityPacket, RetransmitPacket,
    SessionDoesNotExistErrorPacket, TrackRejectionPacket, TrackRequestPacket,
    UnexpectedPacketErrorPacket,
};
use crate::manager::packets::{Packet, PlaybackStatusPacket};
use crate::manager::state;
use crate::manager::state::KeyView;
use crate::manager::types::Timestamp;
use crate::manager::windows;
use crate::manager::windows::FingerprintWindow;
use crate::packet_processor::delivery;
use crate::packet_processor::encryption;
use crate::packet_processor::encryption::EncryptionWindow;
use crate::packet_processor::fingerprint;
use crate::packet_processor::fingerprint::{Headers, Payload};
use crate::packet_processor::inbound;
use crate::packet_processor::reading;
use crate::packet_processor::serialize::Serialize;
use crate::utils::table::Table;

verus! {

/// Reads bytes of the type of a [`Packet::HelloPacket`].
#[verifier::rlimit(30)]
pub fn read_hello_packet(
    data: &Vec<u8>,
    keys: &Table<u64, EncryptionWindow>,
    window: &FingerprintWindow,
) -> (r: Option<HelloPacket>)
    requires
        ControlType::of_code(data@[5]) == Some(ControlType::Host(HostControlType::Hello)),
    ensures
        inbound::reads_plain(data@, r),
        forall|sent: Packet, keys0: Map<u64, KeyView>|
            delivery::is_control(sent) && #[trigger] delivery::carries(
                keys0,
                state::key_views(keys@),
                window@,
                sent,
                data@,
            ) ==> (r matches Some(p) && sent matches Packet::HelloPacket(q) && p@ == q@),
{
    let ghost views = state::key_views(keys@);
    let ghost window0 = window@;
    let ghost whole = data@;
    let r: Option<HelloPacket> = inbound::read_plain(data);
    proof {
        assert forall|sent: Packet, keys0: Map<u64, KeyView>|
            delivery::is_control(sent) && #[trigger] delivery::carries(
                keys0,
                views,
                window0,
                sent,
                whole,
            ) implies (r matches Some(p) && sent matches Packet::HelloPacket(q) && p@ == q@) by {
            delivery::carried_hello_packet(keys0, views, window0, sent, whole);
            if let Packet::HelloPacket(q) = sent {
                q.image_decodes();
                if let Some(p) = r {
                    delivery::alike_hello_packet(p, *q, q.image());
                }
            }
        }
    }
    r
}

/// Reads bytes of the type of a [`Packet::HandshakeRejection`].
#[verifier::rlimit(30)]
pub fn read_handshake_rejection(
    data: &Vec<u8>,
    keys: &Table<u64, EncryptionWindow>,
    window: &FingerprintWindow,
) -> (r: Option<HandshakeRejection>)
    requires
        ControlType::of_code(data@[5]) == Some( ControlType::Host(HostControlType::HandshakeRejection), ),
    ensures
        inbound::reads_plain(data@, r),
        forall|sent: Packet, keys0: Map<u64, KeyView>|
            delivery::is_control(sent) && #[trigger] delivery::carries(
                keys0,
                state::key_views(keys@),
                window@,
                sent,
                data@,
            ) ==> (r matches Some(p) && sent matches Packet::HandshakeRejection(q) && p@ == q@),
{
    let ghost views = state::key_views(keys@);
    let ghost window0 = window@;
    let ghost whole = data@;
    let r: Option<HandshakeRejection> = inbound::read_plain(data);
    proof {
        assert forall|sent: Packet, keys0: Map<u64, KeyView>|
            delivery::is_control(sent) && #[trigger] delivery::carries(
                keys0,
                views,
                window0,
                sent,
                whole,
            ) implies (r matches Some(p) && sent matches Packet::HandshakeRejection(q) && p@ == q@) by {
            delivery::carried_handshake_rejection(keys0, views, window0, sent, whole);
            if let Packet::HandshakeRejection(q) = sent {
                q.image_decodes();
                if let Some(p) = r {
                    delivery::alike_handshake_rejection(p, *q, q.image());
                }
            }
        }
    }
    r
}

/// Reads bytes of the type of a [`Packet::DataPacket`].
#[verifier::rlimit(30)]
pub fn read_data_packet(
    data: &Vec<u8>,
    session_id: SessionId,
    keys: &Table<u64, EncryptionWindow>,
    window: &FingerprintWindow,
) -> (r: Option<DataPacket>)
    requires
        PacketType::of_code(data@[4]) == Some(PacketType::Data),
        session_id == reading::session_at(data@, 10),
    ensures
        r is Some <==> inbound::sealed_ok::<DataPacket>(
            state::key_views(keys@),
            session_id,
            data@,
        ),
        r matches Some(p) ==> inbound::sealed_in(
            state::key_views(keys@),
            session_id,
            data@,
            p,
        ),
        forall|sent: Packet, keys0: Map<u64, KeyView>|
            #[trigger] delivery::carries(
                keys0,
                state::key_views(keys@),
                window@,
                sent,
                data@,
            ) ==> (r matches Some(p) && sent matches Packet::DataPacket(q) && p@ == q@),
{
    let ghost views = state::key_views(keys@);
    let ghost window0 = window@;
    let ghost whole = data@;
    let r: Option<DataPacket> = inbound::open_sealed(data, session_id, keys);
    proof {
        assert forall|sent: Packet, keys0: Map<u64, KeyView>|
            #[trigger] delivery::carries(
                keys0,
                views,
                window0,
                sent,
                whole,
            ) implies (r matches Some(p) && sent matches Packet::DataPacket(q) && p@ == q@) by {
            delivery::carried_data_packet(keys0, views, window0, sent, whole);
        }
    }
    r
}

/// Reads bytes of the type of a [`Packet::ParityPacket`].
#[verifier::rlimit(30)]
pub fn read_parity_packet(
    data: &Vec<u8>,
    session_id: SessionId,
    keys: &Table<u64, EncryptionWindow>,
    window: &FingerprintWindow,
) -> (r: Option<ParityPacket>)
    requires
        PacketType::of_code(data@[4]) == Some(PacketType::Parity),
        session_id == reading::session_at(data@, 10),
    ensures
        r is Some <==> inbound::sealed_ok::<ParityPacket>(
            state::key_views(keys@),
            session_id,
            data@,
        ),
        r matches Some(p) ==> inbound::sealed_in(
            state::key_views(keys@),
            session_id,
            data@,
            p,
        ),
        forall|sent: Packet, keys0: Map<u64, KeyView>|
            #[trigger] delivery::carries(
                keys0,
                state::key_views(keys@),
                window@,
                sent,
                data@,
            ) ==> (r matches Some(p) && sent matches Packet::ParityPacket(q) && p@ == q@),
{
    let ghost views = state::key_views(keys@);
    let ghost window0 = window@;
    let ghost whole = data@;
    let r: Option<ParityPacket> = inbound::open_sealed(data, session_id, keys);
    proof {
        assert forall|sent: Packet, keys0: Map<u64, KeyView>|
            #[trigger] delivery::carries(
                keys0,
                views,
                window0,
                sent,
                whole,
            ) implies (r matches Some(p) && sent matches Packet::ParityPacket(q) && p@ == q@) by {
            delivery::carried_parity_packet(keys0, views, window0, sent, whole);
        }
    }
    r
}

/// Reads bytes of the type of a [`Packet::TrackRequestPacket`].
#[verifier::rlimit(30)]
pub fn read_track_request_packet(
    data: &Vec<u8>,
    session_id: SessionId,
    keys: &Table<u64, EncryptionWindow>,
    window: &mut FingerprintWindow,
    now: Timestamp,
) -> (r: Option<TrackRequestPacket>)
    requires
        old(window).wf(),
        ControlType::of_code(data@[5]) == Some( ControlType::Session(SessionControlType::TrackRequest), ),
        session_id == reading::session_at(data@, 8),
    ensures
        final(window).wf(),
        inbound::reads_sealed(
            state::key_views(keys@),
            old(window)@,
            final(window)@,
            session_id,
            data@,
            now,
            r,
        ),
        forall|sent: Packet, keys0: Map<u64, KeyView>|
            delivery::is_control(sent) && #[trigger] delivery::carries(
                keys0,
                state::key_views(keys@),
                old(window)@,
                sent,
                data@,
            ) ==> (r matches Some(p) && sent matches Packet::TrackRequestPacket(q) && p@ == q@),
{
    let ghost views = state::key_views(keys@);
    let ghost window0 = window@;
    let ghost whole = data@;
    let r: Option<TrackRequestPacket> = inbound::read_sealed(data, session_id, keys, window, now);
    proof {
        assert forall|sent: Packet, keys0: Map<u64, KeyView>|
            delivery::is_control(sent) && #[trigger] delivery::carries(
                keys0,
                views,
                window0,
                sent,
                whole,
            ) implies (r matches Some(p) && sent matches Packet::TrackRequestPacket(q) && p@ == q@) by {
            delivery::carried_track_request_packet(keys0, views, window0, sent, whole);
        }
    }
    r
}

/// Reads bytes of the type of a [`Packet::TrackRejectionPacket`].
#[verifier::rlimit(30)]
pub fn read_track_rejection_packet(
    data: &Vec<u8>,
    session_id: SessionId,
    keys: &Table<u64, EncryptionWindow>,
    window: &mut FingerprintWindow,
    now: Timestamp,
) -> (r: Option<TrackRejectionPacket>)
    requires
        old(window).wf(),
        ControlType::of_code(data@[5]) == Some( ControlType::Session(SessionControlType::TrackRejection), ),
        session_id == reading::session_at(data@, 8),
    ensures
        final(window).wf(),
        inbound::reads_sealed(
            state::key_views(keys@),
            old(window)@,
            final(window)@,
            session_id,
            data@,
            now,
            r,
        ),
        forall|sent: Packet, keys0: Map<u64, KeyView>|
            delivery::is_control(sent) && #[trigger] delivery::carries(
                keys0,
                state::key_views(keys@),
                old(window)@,
                sent,
                data@,
            ) ==> (r matches Some(p) && sent matches Packet::TrackRejectionPacket(q) && p@ == q@),
{
    let ghost views = state::key_views(keys@);
    let ghost window0 = window@;
    let ghost whole = data@;
    let r: Option<TrackRejectionPacket> = inbound::read_sealed(data, session_id, keys, window, now);
    proof {
        assert forall|sent: Packet, keys0: Map<u64, KeyView>|
            delivery::is_control(sent) && #[trigger] delivery::carries(
                keys0,
                views,
                window0,
                sent,
                whole,
            ) implies (r matches Some(p) && sent matches Packet::TrackRejectionPacket(q) && p@ == q@) by {
            delivery::carried_track_rejection_packet(keys0, views, window0, sent, whole);
        }
    }
    r
}

/// Reads bytes of the type of a [`Packet::AppRejectErrorPacket`].
#[verifier::rlimit(30)]
pub fn read_app_reject_error_packet(
    data: &Vec<u8>,
    session_id: SessionId,
    keys: &Table<u64, EncryptionWindow>,
    window: &mut FingerprintWindow,
    now: Timestamp,
) -> (r: Option<AppRejectErrorPacket>)
    requires
        old(window).wf(),
        ErrorType::of_code(data@[5]) == Some(ErrorType::AppReject),
        session_id == reading::session_at(data@, 8),
    ensures
        final(window).wf(),
        inbound::reads_sealed(
            state::key_views(keys@),
            old(window)@,
            final(window)@,
            session_id,
            data@,
            now,
            r,
        ),
        forall|sent: Packet, keys0: Map<u64, KeyView>|
            delivery::is_error(sent) && #[trigger] delivery::carries(
                keys0,
                state::key_views(keys@),
                old(window)@,
                sent,
                data@,
            ) ==> (r matches Some(p) && sent matches Packet::AppRejectErrorPacket(q) && p@ == q@),
{
    let ghost views = state::key_views(keys@);
    let ghost window0 = window@;
    let ghost whole = data@;
    let r: Option<AppRejectErrorPacket> = inbound::read_sealed(data, session_id, keys, window, now);
    proof {
        assert forall|sent: Packet, keys0: Map<u64, KeyView>|
            delivery::is_error(sent) && #[trigger] delivery::carries(
                keys0,
                views,
                window0,
                sent,
                whole,
            ) implies (r matches Some(p) && sent matches Packet::AppRejectErrorPacket(q) && p@ == q@) by {
            delivery::carried_app_reject_error_packet(keys0, views, window0, sent, whole);
        }
    }
    r
}

/// Reads bytes of the type of a [`Packet::RetransmitPacket`].
#[verifier::rlimit(30)]
pub fn read_retransmit_packet(
    data: Vec<u8>,
    session_id: SessionId,
    keys: &Table<u64, EncryptionWindow>,
    window: &mut FingerprintWindow,
    now: Timestamp,
) -> (r: Option<RetransmitPacket>)
    requires
        old(window).wf(),
        ControlType::of_code(data@[5]) == Some( ControlType::Session(SessionControlType::Retransmit), ),
        session_id == reading::session_at(data@, 8),
    ensures
        final(window).wf(),
        reading::reads_retransmit(
            state::key_views(keys@),
            old(window)@,
            final(window)@,
            session_id,
            data@,
            now,
            r,
        ),
        forall|sent: Packet, keys0: Map<u64, KeyView>|
            delivery::is_control(sent) && #[trigger] delivery::carries(
                keys0,
                state::key_views(keys@),
                old(window)@,
                sent,
                data@,
            ) ==> (r matches Some(p) && sent matches Packet::RetransmitPacket(q) && p@ == q@),
{
    let ghost views = state::key_views(keys@);
    let ghost window0 = window@;
    let ghost whole = data@;
    let bytes: Vec<u8> = match inbound::strip_tag(data, session_id, keys) {
        Some(bytes) => bytes,
        None => {
            proof {
                assert forall|sent: Packet, keys0: Map<u64, KeyView>|
                    delivery::is_control(sent) && #[trigger] delivery::carries(
                        keys0,
                        views,
                        window0,
                        sent,
                        whole,
                    ) implies false by {
                    delivery::carried_retransmit_packet(keys0, views, window0, sent, whole);
                }
            }
            return None;
        },
    };
    let read: Option<RetransmitPacket> = inbound::read_plain(&bytes);
    proof {
        assert forall|sent: Packet, keys0: Map<u64, KeyView>|
            delivery::is_control(sent) && #[trigger] delivery::carries(
                keys0,
                views,
                window0,
                sent,
                whole,
            ) implies (read matches Some(p) && sent matches Packet::RetransmitPacket(q) && p@ == q@
            && p.head_image() == q.head_image() && !windows::queued(
            window0,
            fingerprint::xxh3_128_of(q.head_image()),
        )) by {
            delivery::carried_retransmit_packet(keys0, views, window0, sent, whole);
            if let Packet::RetransmitPacket(q) = sent {
                q.image_decodes();
                if let Some(p) = read {
                    delivery::alike_retransmit_packet(p, *q, q.image());
                }
            }
        }
    }
    match read {
        Some(packet) => {
            assert(packet.decoded_from(bytes@));
            inbound::dedup_with_payload(packet, window, now)
        },
        None => None,
    }
}

/// Reads bytes of the type of a [`Packet::PlaybackStatusPacket`].
#[verifier::rlimit(30)]
pub fn read_playback_status_packet(
    data: Vec<u8>,
    session_id: SessionId,
    keys: &Table<u64, EncryptionWindow>,
    window: &mut FingerprintWindow,
    now: Timestamp,
) -> (r: Option<PlaybackStatusPacket>)
    requires
        old(window).wf(),
        ControlType::of_code(data@[5]) matches Some(ControlType::Playback(_)),
        session_id == reading::session_at(data@, 8),
    ensures
        final(window).wf(),
        inbound::reads_tagged(
            state::key_views(keys@),
            old(window)@,
            final(window)@,
            session_id,
            data@,
            now,
            r,
        ),
        forall|sent: Packet, keys0: Map<u64, KeyView>|
            delivery::is_control(sent) && #[trigger] delivery::carries(
                keys0,
                state::key_views(keys@),
                old(window)@,
                sent,
                data@,
            ) ==> (r matches Some(p) && sent matches Packet::PlaybackStatusPacket(q) && p == *q),
{
    let ghost views = state::key_views(keys@);
    let ghost window0 = window@;
    let ghost whole = data@;
    let r: Option<PlaybackStatusPacket> = inbound::read_tagged(data, session_id, keys, window, now);
    proof {
        assert forall|sent: Packet, keys0: Map<u64, KeyView>|
            delivery::is_control(sent) && #[trigger] delivery::carries(
                keys0,
                views,
                window0,
                sent,
                whole,
            ) implies (r matches Some(p) && sent matches Packet::PlaybackStatusPacket(q) && p == *q) by {
            delivery::carried_playback_status_packet(keys0, views, window0, sent, whole);
            if let Packet::PlaybackStatusPacket(q) = sent {
                q.image_decodes();
                if let Some(p) = r {
                    delivery::alike_playback_status_packet(p, *q, q.image());
                }
            }
        }
    }
    r
}

/// Reads bytes of the type of a [`Packet::CloseSessionPacket`].
#[verifier::rlimit(30)]
pub fn read_close_session_packet(
    data: Vec<u8>,
    session_id: SessionId,
    keys: &Table<u64, EncryptionWindow>,
    window: &mut FingerprintWindow,
    now: Timestamp,
) -> (r: Option<CloseSessionPacket>)
    requires
        old(window).wf(),
        ControlType::of_code(data@[5]) == Some( ControlType::Session(SessionControlType::CloseSession), ),
        session_id == reading::session_at(data@, 8),
    ensures
        final(window).wf(),
        inbound::reads_tagged(
            state::key_views(keys@),
            old(window)@,
            final(window)@,
            session_id,
            data@,
            now,
            r,
        ),
        forall|sent: Packet, keys0: Map<u64, KeyView>|
            delivery::is_control(sent) && #[trigger] delivery::carries(
                keys0,
                state::key_views(keys@),
                old(window)@,
                sent,
                data@,
            ) ==> (r matches Some(p) && sent matches Packet::CloseSessionPacket(q) && p == *q),
{
    let ghost views = state::key_views(keys@);
    let ghost window0 = window@;
    let ghost whole = data@;
    let r: Option<CloseSessionPacket> = inbound::read_tagged(data, session_id, keys, window, now);
    proof {
        assert forall|sent: Packet, keys0: Map<u64, KeyView>|
            delivery::is_control(sent) && #[trigger] delivery::carries(
                keys0,
                views,
                window0,
                sent,
                whole,
            ) implies (r matches Some(p) && sent matches Packet::CloseSessionPacket(q) && p == *q) by {
            delivery::carried_close_session_packet(keys0, views, window0, sent, whole);
            if let Packet::CloseSessionPacket(q) = sent {
                q.image_decodes();
                if let Some(p) = r {
                    delivery::alike_close_session_packet(p, *q, q.image());
                }
            }
        }
    }
    r
}

/// Reads bytes of the type of a [`Packet::SessionDoesNotExistErrorPacket`].
#[verifier::rlimit(30)]
pub fn read_session_does_not_exist_error_packet(
    data: Vec<u8>,
    session_id: SessionId,
    keys: &Table<u64, EncryptionWindow>,
    window: &mut FingerprintWindow,
    now: Timestamp,
) -> (r: Option<SessionDoesNotExistErrorPacket>)
    requires
        old(window).wf(),
        ErrorType::of_code(data@[5]) == Some(ErrorType::SessionDoesNotExist),
        session_id == reading::session_at(data@, 8),
    ensures
        final(window).wf(),
        inbound::reads_tagged(
            state::key_views(keys@),
            old(window)@,
            final(window)@,
            session_id,
            data@,
            now,
            r,
        ),
        forall|sent: Packet, keys0: Map<u64, KeyView>|
            delivery::is_error(sent) && #[trigger] delivery::carries(
                keys0,
                state::key_views(keys@),
                old(window)@,
                sent,
                data@,
            ) ==> (r matches Some(p) && sent matches Packet::SessionDoesNotExistErrorPacket(q) && p == *q),
{
    let ghost views = state::key_views(keys@);
    let ghost window0 = window@;
    let ghost whole = data@;
    let r: Option<SessionDoesNotExistErrorPacket> = inbound::read_tagged(data, session_id, keys, window, now);
    proof {
        assert forall|sent: Packet, keys0: Map<u64, KeyView>|
            delivery::is_error(sent) && #[trigger] delivery::carries(
                keys0,
                views,
                window0,
                sent,
                whole,
            ) implies (r matches Some(p) && sent matches Packet::SessionDoesNotExistErrorPacket(q) && p == *q) by {
            delivery::carried_session_does_not_exist_error_packet(keys0, views, window0, sent, whole);
            if let Packet::SessionDoesNotExistErrorPacket(q) = sent {
                q.image_decodes();
                if let Some(p) = r {
                    delivery::alike_session_does_not_exist_error_packet(p, *q, q.image());
                }
            }
        }
    }
    r
}

/// Reads bytes of the type of a [`Packet::UnexpectedPacketErrorPacket`].
#[verifier::rlimit(30)]
pub fn read_unexpected_packet_error_packet(
    data: Vec<u8>,
    session_id: SessionId,
    keys: &Table<u64, EncryptionWindow>,
    window: &mut FingerprintWindow,
    now: Timestamp,
) -> (r: Option<UnexpectedPacketErrorPacket>)
    requires
        old(window).wf(),
        ErrorType::of_code(data@[5]) == Some(ErrorType::UnexpectedPacket) || ErrorType::of_code( data@[5], ) == Some(ErrorType::IncomprehensiblePacket),
        session_id == reading::session_at(data@, 8),
    ensures
        final(window).wf(),
        inbound::reads_tagged(
            state::key_views(keys@),
            old(window)@,
            final(window)@,
            session_id,
            data@,
            now,
            r,
        ),
        forall|sent: Packet, keys0: Map<u64, KeyView>|
            delivery::is_error(sent) && #[trigger] delivery::carries(
                keys0,
                state::key_views(keys@),
                old(window)@,
                sent,
                data@,
            ) ==> (r matches Some(p) && sent matches Packet::UnexpectedPacketErrorPacket(q) && p == *q),
{
    let ghost views = state::key_views(keys@);
    let ghost window0 = window@;
    let ghost whole = data@;
    let r: Option<UnexpectedPacketErrorPacket> = inbound::read_tagged(data, session_id, keys, window, now);
    proof {
        assert forall|sent: Packet, keys0: Map<u64, KeyView>|
            delivery::is_error(sent) && #[trigger] delivery::carries(
                keys0,
                views,
                window0,
                sent,
                whole,
            ) implies (r matches Some(p) && sent matches Packet::UnexpectedPacketErrorPacket(q) && p == *q) by {
            delivery::carried_unexpected_packet_error_packet(keys0, views, window0, sent, whole);
            if let Packet::UnexpectedPacketErrorPacket(q) = sent {
                q.image_decodes();
                if let Some(p) = r {
                    delivery::alike_unexpected_packet_error_packet(p, *q, q.image());
                }
            }
        }
    }
    r
}

/// Reads bytes of the type of a [`Packet::KeepAlivePacket`].
#[verifier::rlimit(30)]
pub fn read_keep_alive_packet(
    data: Vec<u8>,
    session_id: SessionId,
    keys: &Table<u64, EncryptionWindow>,
    window: &mut FingerprintWindow,
    now: Timestamp,
) -> (r: Option<KeepAlivePacket>)
    requires
        old(window).wf(),
        PacketType::of_code(data@[4]) == Some(PacketType::KeepAlive),
        session_id == reading::session_at(data@, 8),
    ensures
        final(window).wf(),
        inbound::reads_tagged(
            state::key_views(keys@),
            old(window)@,
            final(window)@,
            session_id,
            data@,
            now,
            r,
        ),
        forall|sent: Packet, keys0: Map<u64, KeyView>|
            #[trigger] delivery::carries(
                keys0,
                state::key_views(keys@),
                old(window)@,
                sent,
                data@,
            ) ==> (r matches Some(p) && sent matches Packet::KeepAlivePacket(q) && p == *q),
{
    let ghost views = state::key_views(keys@);
    let ghost window0 = window@;
    let ghost whole = data@;
    let r: Option<KeepAlivePacket> = inbound::read_tagged(data, session_id, keys, window, now);
    proof {
        assert forall|sent: Packet, keys0: Map<u64, KeyView>|
            #[trigger] delivery::carries(
                keys0,
                views,
                window0,
                sent,
                whole,
            ) implies (r matches Some(p) && sent matches Packet::KeepAlivePacket(q) && p == *q) by {
            delivery::carried_keep_alive_packet(keys0, views, window0, sent, whole);
            if let Packet::KeepAlivePacket(q) = sent {
                q.image_decodes();
                if let Some(p) = r {
                    delivery::alike_keep_alive_packet(p, *q, q.image());
                }
            }
        }
    }
    r
}

/// Reads bytes of the type of a [`Packet::AckPacket`].
#[verifier::rlimit(30)]
pub fn read_ack_packet(
    data: &Vec<u8>,
    keys: &Table<u64, EncryptionWindow>,
    window: &FingerprintWindow,
) -> (r: Option<AckPacket>)
    requires
        PacketType::of_code(data@[4]) == Some(PacketType::Ack),
    ensures
        inbound::reads_plain(data@, r),
        forall|sent: Packet, keys0: Map<u64, KeyView>|
            #[trigger] delivery::carries(
                keys0,
                state::key_views(keys@),
                window@,
                sent,
                data@,
            ) ==> (r matches Some(p) && sent matches Packet::AckPacket(q) && p == *q),
{
    let ghost views = state::key_views(keys@);
    let ghost window0 = window@;
    let ghost whole = data@;
    let r: Option<AckPacket> = inbound::read_plain(data);
    proof {
        assert forall|sent: Packet, keys0: Map<u64, KeyView>|
            #[trigger] delivery::carries(
                keys0,
                views,
                window0,
                sent,
                whole,
            ) implies (r matches Some(p) && sent matches Packet::AckPacket(q) && p == *q) by {
            delivery::carried_ack_packet(keys0, views, window0, sent, whole);
            if let Packet::AckPacket(q) = sent {
                if let Some(p) = r {
                    delivery::alike_ack_packet(p, *q, whole);
                }
            }
        }
    }
    r
}

/// Reads bytes of the type of a [`Packet::HandshakeAckPacket`].
#[verifier::rlimit(30)]
pub fn read_handshake_ack_packet(
    data: &Vec<u8>,
    keys: &Table<u64, EncryptionWindow>,
    window: &FingerprintWindow,
) -> (r: Option<HandshakeAckPacket>)
    requires
        PacketType::of_code(data@[4]) == Some(PacketType::HandshakeAck),
    ensures
        inbound::reads_plain(data@, r),
        forall|sent: Packet, keys0: Map<u64, KeyView>|
            #[trigger] delivery::carries(
                keys0,
                state::key_views(keys@),
                window@,
                sent,
                data@,
            ) ==> (r matches Some(p) && sent matches Packet::HandshakeAckPacket(q) && p == *q),
{
    let ghost views = state::key_views(keys@);
    let ghost window0 = window@;
    let ghost whole = data@;
    let r: Option<HandshakeAckPacket> = inbound::read_plain(data);
    proof {
        assert forall|sent: Packet, keys0: Map<u64, KeyView>|
            #[trigger] delivery::carries(
                keys0,
                views,
                window0,
                sent,
                whole,
            ) implies (r matches Some(p) && sent matches Packet::HandshakeAckPacket(q) && p == *q) by {
            delivery::carried_handshake_ack_packet(keys0, views, window0, sent, whole);
            if let Packet::HandshakeAckPacket(q) = sent {
                q.image_decodes();
                if let Some(p) = r {
                    delivery::alike_handshake_ack_packet(p, *q, q.image());
                }
            }
        }
    }
    r
}

} // verus!
