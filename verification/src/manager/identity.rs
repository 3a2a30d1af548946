//! Who is who: addresses, applications, keys and packet fingerprints.
use vstd::prelude::*;

use crate::manager::fields::MAX_PAYLOAD_LENGTH;
use crate::packet_processor::serialize::Serialize;
use crate::wire;

verus! {

/// Where a peer is reached.
#[derive(Debug, Clone, Copy, PartialEq, Eq, Structural)]
pub enum Address {
    V4 { octets: u32, port: u16 },
    V6 { segments: u128, port: u16 },
}

impl Address {
    /// The port.
    pub open spec fn spec_port(self) -> u16 {
        match self {
            Address::V4 { octets, port } => port,
            Address::V6 { segments, port } => port,
        }
    }

    /// The same host at another port.
    pub open spec fn at_port(self, new: u16) -> Address {
        match self {
            Address::V4 { octets, port } => Address::V4 { octets, port: new },
            Address::V6 { segments, port } => Address::V6 { segments, port: new },
        }
    }

    /// The port.
    pub fn port(&self) -> (p: u16)
        ensures
            p == self.spec_port(),
    {
        match self {
            Address::V4 { octets: _, port } => *port,
            Address::V6 { segments: _, port } => *port,
        }
    }

    /// The same host at another port.
    pub fn with_port(&self, new: u16) -> (a: Address)
        ensures
            a == self.at_port(new),
    {
        match self {
            Address::V4 { octets, port: _ } => Address::V4 { octets: *octets, port: new },
            Address::V6 { segments, port: _ } => Address::V6 { segments: *segments, port: new },
        }
    }
}

/// A public key of the key exchange.
#[derive(Debug, Clone, Copy)]
pub struct PublicKey(pub [u8; 32]);

impl View for PublicKey {
    type V = Seq<u8>;

    open spec fn view(&self) -> Seq<u8> {
        self.0@
    }
}

impl Serialize for PublicKey {
    open spec fn image(&self) -> Seq<u8> {
        self.0@
    }

    open spec fn decodes(bytes: Seq<u8>) -> bool {
        bytes.len() >= 32
    }

    open spec fn decoded_from(&self, bytes: Seq<u8>) -> bool {
        self.0@ == bytes.subrange(0, 32)
    }

    open spec fn writable(&self) -> bool {
        true
    }

    proof fn image_decodes(&self) {
        assert(self.image().subrange(0, 32) =~= self.image());
    }

    fn put(&self, out: &mut Vec<u8>) {
        wire::put_bytes(out, self.0.as_slice());
    }

    fn sized(&self) -> usize {
        32
    }

    fn deserialize(bytes: &[u8]) -> Result<Self, ()> {
        if bytes.len() < 32 {
            return Err(());
        }
        Ok(PublicKey(wire::copy_array_32(bytes, 0)))
    }
}

/// A digest of a packet, by which it is acknowledged and told from duplicates.
#[derive(Debug, Clone, Copy, PartialEq, Eq, Structural)]
pub struct PacketFingerprint(pub u128);

impl Serialize for PacketFingerprint {
    open spec fn image(&self) -> Seq<u8> {
        wire::be128(self.0)
    }

    open spec fn decodes(bytes: Seq<u8>) -> bool {
        bytes.len() >= 16
    }

    open spec fn decoded_from(&self, bytes: Seq<u8>) -> bool {
        self.0 == wire::rd128(bytes, 0)
    }

    open spec fn writable(&self) -> bool {
        true
    }

    proof fn image_decodes(&self) {
        assert(self.image().subrange(0, 16) =~= self.image());
        wire::lemma_rd128(self.image(), 0, self.0);
    }

    fn put(&self, out: &mut Vec<u8>) {
        wire::put_u128(out, self.0);
    }

    fn sized(&self) -> usize {
        16
    }

    fn deserialize(bytes: &[u8]) -> Result<Self, ()> {
        if bytes.len() < 16 {
            return Err(());
        }
        Ok(PacketFingerprint(wire::get_u128(bytes, 0)))
    }
}

/// Longest id of an application, in bytes: an id is the payload of a hello packet.
pub const MAX_APP_ID_LENGTH: usize = MAX_PAYLOAD_LENGTH;

/// Whether `bytes` are all ASCII.
pub open spec fn ascii(bytes: Seq<u8>) -> bool {
    forall|i: int| 0 <= i < bytes.len() ==> bytes[i] < 128
}

/// Whether `bytes` may be the id of an application: ASCII, and not too long.
pub open spec fn valid_app_id(bytes: Seq<u8>) -> bool {
    ascii(bytes) && bytes.len() <= MAX_APP_ID_LENGTH
}

/// Whether `bytes` may be the id of an application.
pub fn verify_app_id(bytes: &[u8]) -> (ok: bool)
    ensures
        ok == valid_app_id(bytes@),
{
    if bytes.len() > MAX_APP_ID_LENGTH {
        return false;
    }
    let mut i: usize = 0;
    while i < bytes.len()
        invariant
            i <= bytes.len(),
            forall|k: int| 0 <= k < i ==> bytes@[k] < 128,
        decreases bytes.len() - i,
    {
        if bytes[i] >= 128 {
            return false;
        }
        i += 1;
    }
    true
}

/// The id of an application.
#[derive(Debug)]
pub struct AppId(Vec<u8>);

impl View for AppId {
    type V = Seq<u8>;

    closed spec fn view(&self) -> Seq<u8> {
        self.0@
    }
}

impl AppId {
    /// The application id `id`.
    pub fn new(id: Vec<u8>) -> (a: Self)
        requires
            valid_app_id(id@),
        ensures
            a@ == id@,
    {
        AppId(id)
    }

    /// The id's bytes.
    pub fn as_bytes(&self) -> (b: &[u8])
        ensures
            b@ == self@,
    {
        self.0.as_slice()
    }

    /// Another copy of the id.
    pub fn duplicate(&self) -> (a: Self)
        ensures
            a@ == self@,
    {
        let bytes: Vec<u8> = wire::copy_range(self.0.as_slice(), 0, self.0.len());
        assert(bytes@ =~= self.0@);
        AppId(bytes)
    }
}

impl Serialize for AppId {
    open spec fn image(&self) -> Seq<u8> {
        self@
    }

    open spec fn decodes(bytes: Seq<u8>) -> bool {
        valid_app_id(bytes)
    }

    open spec fn decoded_from(&self, bytes: Seq<u8>) -> bool {
        self@ == bytes
    }

    open spec fn writable(&self) -> bool {
        valid_app_id(self@)
    }

    proof fn image_decodes(&self) {
    }

    fn put(&self, out: &mut Vec<u8>) {
        wire::put_bytes(out, self.0.as_slice());
    }

    fn sized(&self) -> usize {
        self.0.len()
    }

    fn deserialize(bytes: &[u8]) -> Result<Self, ()> {
        if verify_app_id(bytes) {
            let id: Vec<u8> = wire::copy_range(bytes, 0, bytes.len());
            assert(id@ =~= bytes@);
            Ok(AppId(id))
        } else {
            Err(())
        }
    }
}

/// `N` bytes that are written as zeros and not looked at when read.
#[derive(Debug, Clone, Copy)]
pub struct Reserved<const N: usize>;

impl<const N: usize> Serialize for Reserved<N> {
    open spec fn image(&self) -> Seq<u8> {
        Seq::new(N as nat, |i: int| 0u8)
    }

    open spec fn decodes(bytes: Seq<u8>) -> bool {
        bytes.len() >= N
    }

    open spec fn decoded_from(&self, bytes: Seq<u8>) -> bool {
        true
    }

    open spec fn writable(&self) -> bool {
        true
    }

    proof fn image_decodes(&self) {
    }

    fn put(&self, out: &mut Vec<u8>) {
        let mut i: usize = 0;
        while i < N
            invariant
                i <= N,
                out@ == old(out)@ + Seq::new(i as nat, |k: int| 0u8),
            decreases N - i,
        {
            out.push(0);
            i += 1;
            assert(out@ =~= old(out)@ + Seq::new(i as nat, |k: int| 0u8));
        }
    }

    fn sized(&self) -> usize {
        N
    }

    fn deserialize(bytes: &[u8]) -> Result<Self, ()> {
        if bytes.len() < N {
            Err(())
        } else {
            Ok(Reserved)
        }
    }
}

/// A host at another port is the same host, at that port.
pub proof fn another_port_is_the_same_host(address: Address, port: u16, other: u16)
    ensures
        address.at_port(port).spec_port() == port,
        address.at_port(address.spec_port()) == address,
        address.at_port(port).at_port(other) == address.at_port(other),
        address is V4 ==> address.at_port(port) is V4,
        address matches Address::V4 { octets, port: _ } ==> address.at_port(port)
            == (Address::V4 { octets, port }),
        address matches Address::V6 { segments, port: _ } ==> address.at_port(port)
            == (Address::V6 { segments, port }),
{
}

} // verus!
