//! Agreement on the key of a session.
use vstd::prelude::*;

use crate::manager::identity::PublicKey;

verus! {

/// What X25519 makes of a scalar and a point.
pub uninterp spec fn x25519_of(k: Seq<u8>, u: Seq<u8>) -> Seq<u8>;

/// The base point of X25519.
pub open spec fn base_point() -> Seq<u8> {
    Seq::new(
        32,
        |i: int|
            if i == 0 {
                9u8
            } else {
                0u8
            },
    )
}

/// The public key of a secret.
pub open spec fn public_of(secret: Seq<u8>) -> Seq<u8> {
    x25519_of(secret, base_point())
}

/// Calls `x25519_dalek::x25519`: the Diffie-Hellman function of RFC 7748. What one peer
/// makes of its secret and the public key of another, the other makes of its own secret
/// and the public key of the first.
#[verifier::external_body]
fn x25519(k: [u8; 32], u: [u8; 32]) -> (r: [u8; 32])
    ensures
        r@ == x25519_of(k@, u@),
        forall|peer: Seq<u8>|
            peer.len() == 32 && u@ == #[trigger] public_of(peer) ==> r@ == x25519_of(
                peer,
                public_of(k@),
            ),
{
    x25519_dalek::x25519(k, u)
}

/// Calls `fill_bytes` of `aes_gcm_siv::aead::OsRng`, the random number generator of the
/// operating system. Any bytes may come.
#[verifier::external_body]
fn random_bytes() -> (bytes: [u8; 32]) {
    let mut bytes = [0u8; 32];
    aes_gcm_siv::aead::rand_core::RngCore::fill_bytes(
        &mut aes_gcm_siv::aead::OsRng,
        &mut bytes,
    );
    bytes
}

/// A secret that is used for one agreement.
#[derive(Debug)]
pub struct EphemeralSecret([u8; 32]);

impl View for EphemeralSecret {
    type V = Seq<u8>;

    closed spec fn view(&self) -> Seq<u8> {
        self.0@
    }
}

impl EphemeralSecret {
    /// The secret of the given bytes, which nobody else may know.
    pub fn from_bytes(bytes: [u8; 32]) -> (s: Self)
        ensures
            s@ == bytes@,
    {
        EphemeralSecret(bytes)
    }

    /// The public key of the secret.
    pub fn public_key(&self) -> (pk: PublicKey)
        ensures
            pk.0@ == public_of(self@),
    {
        let base: [u8; 32] = [
            9,
            0,
            0,
            0,
            0,
            0,
            0,
            0,
            0,
            0,
            0,
            0,
            0,
            0,
            0,
            0,
            0,
            0,
            0,
            0,
            0,
            0,
            0,
            0,
            0,
            0,
            0,
            0,
            0,
            0,
            0,
            0,
        ];
        assert(base@ =~= base_point());
        PublicKey(x25519(self.0, base))
    }
}

/// A new secret and its public key.
pub fn create() -> (r: (EphemeralSecret, PublicKey))
    ensures
        r.1.0@ == public_of(r.0@),
        r.0@.len() == 32,
{
    let secret: EphemeralSecret = EphemeralSecret::from_bytes(random_bytes());
    let pk: PublicKey = secret.public_key();
    (secret, pk)
}

/// What both peers know and nobody else: made of one's own secret and the other's public
/// key. The other peer gets the same from its secret and this peer's public key.
pub fn get_shared_secret(secret: EphemeralSecret, other_pk: PublicKey) -> (shared: [u8; 32])
    ensures
        shared@ == x25519_of(secret@, other_pk.0@),
        forall|peer: Seq<u8>|
            peer.len() == 32 && other_pk.0@ == #[trigger] public_of(peer) ==> shared@ == x25519_of(
                peer,
                public_of(secret@),
            ),
{
    x25519(secret.0, other_pk.0)
}

} // verus!
