//! Values that have a wire image.
use vstd::prelude::*;

use crate::wire;

verus! {

/// A value that can be written to and read from packet bytes.
pub trait Serialize: Sized {
    /// The bytes the value is written as.
    spec fn image(&self) -> Seq<u8>;

    /// Whether a value can be read from the start of `bytes`.
    spec fn decodes(bytes: Seq<u8>) -> bool;

    /// Whether `self` is what is read from `bytes`.
    spec fn decoded_from(&self, bytes: Seq<u8>) -> bool;

    /// Whether the value is one that is ever written. All values are, unless a
    /// type says otherwise.
    spec fn writable(&self) -> bool;

    /// What was written can be read, and gives the value that was written.
    proof fn image_decodes(&self)
        requires
            self.writable(),
        ensures
            Self::decodes(self.image()),
            self.decoded_from(self.image()),
    ;

    /// Appends the value's image to `out`.
    fn put(&self, out: &mut Vec<u8>)
        ensures
            final(out)@ == old(out)@ + self.image(),
    ;

    /// Number of bytes of the value's image.
    fn sized(&self) -> (n: usize)
        requires
            self.image().len() <= usize::MAX,
        ensures
            n == self.image().len(),
    ;

    /// Reads a value from the start of `bytes`.
    fn deserialize(bytes: &[u8]) -> (r: Result<Self, ()>)
        ensures
            r is Ok <==> Self::decodes(bytes@),
            r matches Ok(v) ==> v.decoded_from(bytes@),
    ;

    /// Writes the value's image to the start of `buf`. A buffer that is too small is
    /// left as it is.
    fn serialize(&self, buf: &mut [u8]) -> (r: Result<(), ()>)
        ensures
            r is Ok <==> self.image().len() <= old(buf)@.len(),
            r is Ok ==> final(buf)@ == self.image() + old(buf)@.skip(self.image().len() as int),
            r is Err ==> final(buf)@ == old(buf)@,
    {
        let mut bytes: Vec<u8> = Vec::new();
        self.put(&mut bytes);
        assert(bytes@ =~= self.image());
        if buf.len() < bytes.len() {
            Err(())
        } else {
            let mut i: usize = 0;
            while i < bytes.len()
                invariant
                    i <= bytes.len() <= old(buf)@.len(),
                    bytes@ == self.image(),
                    buf@ == self.image().take(i as int) + old(buf)@.skip(i as int),
                decreases bytes.len() - i,
            {
                let b: u8 = bytes[i];
                assert(i < buf@.len());
                buf[i] = b;
                i += 1;
                assert(buf@ =~= self.image().take(i as int) + old(buf)@.skip(i as int));
            }
            assert(self.image().take(i as int) =~= self.image());
            Ok(())
        }
    }
}

impl Serialize for u8 {
    open spec fn image(&self) -> Seq<u8> {
        seq![*self]
    }

    open spec fn decodes(bytes: Seq<u8>) -> bool {
        bytes.len() >= 1
    }

    open spec fn decoded_from(&self, bytes: Seq<u8>) -> bool {
        *self == bytes[0]
    }

    open spec fn writable(&self) -> bool {
        true
    }

    proof fn image_decodes(&self) {
    }

    fn put(&self, out: &mut Vec<u8>) {
        out.push(*self);
        assert(out@ =~= old(out)@ + self.image());
    }

    fn sized(&self) -> usize {
        1
    }

    fn deserialize(bytes: &[u8]) -> Result<Self, ()> {
        if bytes.len() < 1 {
            Err(())
        } else {
            Ok(bytes[0])
        }
    }
}

impl Serialize for u16 {
    open spec fn image(&self) -> Seq<u8> {
        wire::be16(*self)
    }

    open spec fn decodes(bytes: Seq<u8>) -> bool {
        bytes.len() >= 2
    }

    open spec fn decoded_from(&self, bytes: Seq<u8>) -> bool {
        *self == wire::rd16(bytes, 0)
    }

    open spec fn writable(&self) -> bool {
        true
    }

    proof fn image_decodes(&self) {
        assert(self.image().subrange(0, 2) =~= self.image());
        wire::lemma_rd16(self.image(), 0, *self);
    }

    fn put(&self, out: &mut Vec<u8>) {
        wire::put_u16(out, *self);
    }

    fn sized(&self) -> usize {
        2
    }

    fn deserialize(bytes: &[u8]) -> Result<Self, ()> {
        if bytes.len() < 2 {
            Err(())
        } else {
            Ok(wire::get_u16(bytes, 0))
        }
    }
}

impl Serialize for u32 {
    open spec fn image(&self) -> Seq<u8> {
        wire::be32(*self)
    }

    open spec fn decodes(bytes: Seq<u8>) -> bool {
        bytes.len() >= 4
    }

    open spec fn decoded_from(&self, bytes: Seq<u8>) -> bool {
        *self == wire::rd32(bytes, 0)
    }

    open spec fn writable(&self) -> bool {
        true
    }

    proof fn image_decodes(&self) {
        assert(self.image().subrange(0, 4) =~= self.image());
        wire::lemma_rd32(self.image(), 0, *self);
    }

    fn put(&self, out: &mut Vec<u8>) {
        wire::put_u32(out, *self);
    }

    fn sized(&self) -> usize {
        4
    }

    fn deserialize(bytes: &[u8]) -> Result<Self, ()> {
        if bytes.len() < 4 {
            Err(())
        } else {
            Ok(wire::get_u32(bytes, 0))
        }
    }
}

impl Serialize for u64 {
    open spec fn image(&self) -> Seq<u8> {
        wire::be64(*self)
    }

    open spec fn decodes(bytes: Seq<u8>) -> bool {
        bytes.len() >= 8
    }

    open spec fn decoded_from(&self, bytes: Seq<u8>) -> bool {
        *self == wire::rd64(bytes, 0)
    }

    open spec fn writable(&self) -> bool {
        true
    }

    proof fn image_decodes(&self) {
        assert(self.image().subrange(0, 8) =~= self.image());
        wire::lemma_rd64(self.image(), 0, *self);
    }

    fn put(&self, out: &mut Vec<u8>) {
        wire::put_u64(out, *self);
    }

    fn sized(&self) -> usize {
        8
    }

    fn deserialize(bytes: &[u8]) -> Result<Self, ()> {
        if bytes.len() < 8 {
            Err(())
        } else {
            Ok(wire::get_u64(bytes, 0))
        }
    }
}

impl Serialize for Vec<u8> {
    open spec fn image(&self) -> Seq<u8> {
        self@
    }

    open spec fn decodes(bytes: Seq<u8>) -> bool {
        true
    }

    open spec fn decoded_from(&self, bytes: Seq<u8>) -> bool {
        self@ == bytes
    }

    open spec fn writable(&self) -> bool {
        true
    }

    proof fn image_decodes(&self) {
    }

    fn put(&self, out: &mut Vec<u8>) {
        wire::put_bytes(out, self.as_slice());
    }

    fn sized(&self) -> usize {
        self.len()
    }

    fn deserialize(bytes: &[u8]) -> Result<Self, ()> {
        let v: Vec<u8> = wire::copy_range(bytes, 0, bytes.len());
        assert(v@ =~= bytes@);
        Ok(v)
    }
}

} // verus!
