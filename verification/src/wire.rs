//! Big-endian integers: what they look like on the wire, and how they are
//! appended to and read from byte buffers.
use vstd::prelude::*;

verus! {

/// The two bytes of `v`, most significant first.
pub open spec fn be16(v: u16) -> Seq<u8> {
    seq![(v / 0x100) as u8, (v % 0x100) as u8]
}

/// The four bytes of `v`, most significant first.
pub open spec fn be32(v: u32) -> Seq<u8> {
    be16((v / 0x1_0000) as u16) + be16((v % 0x1_0000) as u16)
}

/// The eight bytes of `v`, most significant first.
pub open spec fn be64(v: u64) -> Seq<u8> {
    be32((v / 0x1_0000_0000) as u32) + be32((v % 0x1_0000_0000) as u32)
}

/// The sixteen bytes of `v`, most significant first.
pub open spec fn be128(v: u128) -> Seq<u8> {
    be64((v / 0x1_0000_0000_0000_0000) as u64) + be64((v % 0x1_0000_0000_0000_0000) as u64)
}

/// The number that the two bytes of `s` from `at` on spell.
pub open spec fn rd16(s: Seq<u8>, at: int) -> u16 {
    (s[at] * 0x100 + s[at + 1]) as u16
}

/// The number that the four bytes of `s` from `at` on spell.
pub open spec fn rd32(s: Seq<u8>, at: int) -> u32 {
    (rd16(s, at) * 0x1_0000 + rd16(s, at + 2)) as u32
}

/// The number that the eight bytes of `s` from `at` on spell.
pub open spec fn rd64(s: Seq<u8>, at: int) -> u64 {
    (rd32(s, at) * 0x1_0000_0000 + rd32(s, at + 4)) as u64
}

/// The number that the sixteen bytes of `s` from `at` on spell.
pub open spec fn rd128(s: Seq<u8>, at: int) -> u128 {
    (rd64(s, at) * 0x1_0000_0000_0000_0000 + rd64(s, at + 8)) as u128
}

/// Reading two bytes where `v` was written gives `v`.
pub proof fn lemma_rd16(s: Seq<u8>, at: int, v: u16)
    requires
        0 <= at,
        at + 2 <= s.len(),
        s.subrange(at, at + 2) == be16(v),
    ensures
        rd16(s, at) == v,
{
    assert(s[at] == s.subrange(at, at + 2)[0]);
    assert(s[at + 1] == s.subrange(at, at + 2)[1]);
}

/// Reading four bytes where `v` was written gives `v`.
pub proof fn lemma_rd32(s: Seq<u8>, at: int, v: u32)
    requires
        0 <= at,
        at + 4 <= s.len(),
        s.subrange(at, at + 4) == be32(v),
    ensures
        rd32(s, at) == v,
{
    let t = s.subrange(at, at + 4);
    assert(t.subrange(0, 2) =~= be16((v / 0x1_0000) as u16));
    assert(t.subrange(2, 4) =~= be16((v % 0x1_0000) as u16));
    assert(s.subrange(at, at + 2) =~= t.subrange(0, 2));
    assert(s.subrange(at + 2, at + 4) =~= t.subrange(2, 4));
    lemma_rd16(s, at, (v / 0x1_0000) as u16);
    lemma_rd16(s, at + 2, (v % 0x1_0000) as u16);
}

/// Reading eight bytes where `v` was written gives `v`.
pub proof fn lemma_rd64(s: Seq<u8>, at: int, v: u64)
    requires
        0 <= at,
        at + 8 <= s.len(),
        s.subrange(at, at + 8) == be64(v),
    ensures
        rd64(s, at) == v,
{
    let t = s.subrange(at, at + 8);
    assert(t.subrange(0, 4) =~= be32((v / 0x1_0000_0000) as u32));
    assert(t.subrange(4, 8) =~= be32((v % 0x1_0000_0000) as u32));
    assert(s.subrange(at, at + 4) =~= t.subrange(0, 4));
    assert(s.subrange(at + 4, at + 8) =~= t.subrange(4, 8));
    lemma_rd32(s, at, (v / 0x1_0000_0000) as u32);
    lemma_rd32(s, at + 4, (v % 0x1_0000_0000) as u32);
}

/// Reading sixteen bytes where `v` was written gives `v`.
pub proof fn lemma_rd128(s: Seq<u8>, at: int, v: u128)
    requires
        0 <= at,
        at + 16 <= s.len(),
        s.subrange(at, at + 16) == be128(v),
    ensures
        rd128(s, at) == v,
{
    let t = s.subrange(at, at + 16);
    assert(t.subrange(0, 8) =~= be64((v / 0x1_0000_0000_0000_0000) as u64));
    assert(t.subrange(8, 16) =~= be64((v % 0x1_0000_0000_0000_0000) as u64));
    assert(s.subrange(at, at + 8) =~= t.subrange(0, 8));
    assert(s.subrange(at + 8, at + 16) =~= t.subrange(8, 16));
    lemma_rd64(s, at, (v / 0x1_0000_0000_0000_0000) as u64);
    lemma_rd64(s, at + 8, (v % 0x1_0000_0000_0000_0000) as u64);
}

/// Appends `v` to `out`, most significant byte first.
pub fn put_u16(out: &mut Vec<u8>, v: u16)
    ensures
        final(out)@ == old(out)@ + be16(v),
{
    out.push((v / 0x100) as u8);
    out.push((v % 0x100) as u8);
    assert(out@ =~= old(out)@ + be16(v));
}

/// Appends `v` to `out`, most significant byte first.
pub fn put_u32(out: &mut Vec<u8>, v: u32)
    ensures
        final(out)@ == old(out)@ + be32(v),
{
    put_u16(out, (v / 0x1_0000) as u16);
    put_u16(out, (v % 0x1_0000) as u16);
    assert(out@ =~= old(out)@ + be32(v));
}

/// Appends `v` to `out`, most significant byte first.
pub fn put_u64(out: &mut Vec<u8>, v: u64)
    ensures
        final(out)@ == old(out)@ + be64(v),
{
    put_u32(out, (v / 0x1_0000_0000) as u32);
    put_u32(out, (v % 0x1_0000_0000) as u32);
    assert(out@ =~= old(out)@ + be64(v));
}

/// Appends `v` to `out`, most significant byte first.
pub fn put_u128(out: &mut Vec<u8>, v: u128)
    ensures
        final(out)@ == old(out)@ + be128(v),
{
    put_u64(out, (v / 0x1_0000_0000_0000_0000) as u64);
    put_u64(out, (v % 0x1_0000_0000_0000_0000) as u64);
    assert(out@ =~= old(out)@ + be128(v));
}

/// Appends all of `bytes` to `out`.
pub fn put_bytes(out: &mut Vec<u8>, bytes: &[u8])
    ensures
        final(out)@ == old(out)@ + bytes@,
{
    let mut i: usize = 0;
    while i < bytes.len()
        invariant
            i <= bytes.len(),
            out@ == old(out)@ + bytes@.subrange(0, i as int),
        decreases bytes.len() - i,
    {
        out.push(bytes[i]);
        i += 1;
        assert(out@ =~= old(out)@ + bytes@.subrange(0, i as int));
    }
    assert(out@ =~= old(out)@ + bytes@);
}

/// Reads the two bytes from `at` on.
pub fn get_u16(bytes: &[u8], at: usize) -> (v: u16)
    requires
        at + 2 <= bytes.len(),
    ensures
        v == rd16(bytes@, at as int),
{
    bytes[at] as u16 * 0x100 + bytes[at + 1] as u16
}

/// Reads the four bytes from `at` on.
pub fn get_u32(bytes: &[u8], at: usize) -> (v: u32)
    requires
        at + 4 <= bytes.len(),
    ensures
        v == rd32(bytes@, at as int),
{
    get_u16(bytes, at) as u32 * 0x1_0000 + get_u16(bytes, at + 2) as u32
}

/// Reads the eight bytes from `at` on.
pub fn get_u64(bytes: &[u8], at: usize) -> (v: u64)
    requires
        at + 8 <= bytes.len(),
    ensures
        v == rd64(bytes@, at as int),
{
    get_u32(bytes, at) as u64 * 0x1_0000_0000 + get_u32(bytes, at + 4) as u64
}

/// Reads the sixteen bytes from `at` on.
pub fn get_u128(bytes: &[u8], at: usize) -> (v: u128)
    requires
        at + 16 <= bytes.len(),
    ensures
        v == rd128(bytes@, at as int),
{
    get_u64(bytes, at) as u128 * 0x1_0000_0000_0000_0000 + get_u64(bytes, at + 8) as u128
}

/// The bytes of `v`, most significant first.
pub fn be64_array(v: u64) -> (out: [u8; 8])
    ensures
        out@ == be64(v),
{
    let mut bytes: Vec<u8> = Vec::new();
    put_u64(&mut bytes, v);
    assert(bytes@ =~= be64(v));
    let out: [u8; 8] = [
        bytes[0],
        bytes[1],
        bytes[2],
        bytes[3],
        bytes[4],
        bytes[5],
        bytes[6],
        bytes[7],
    ];
    assert(out@ =~= be64(v));
    out
}

/// Copies the 32 bytes from `at` on.
pub fn copy_array_32(bytes: &[u8], at: usize) -> (out: [u8; 32])
    requires
        at + 32 <= bytes.len(),
    ensures
        out@ == bytes@.subrange(at as int, at + 32),
{
    let mut out: [u8; 32] = [0u8; 32];
    let mut i: usize = 0;
    while i < 32
        invariant
            i <= 32,
            at + 32 <= bytes.len(),
            forall|k: int| 0 <= k < i ==> out@[k] == bytes@[at + k],
        decreases 32 - i,
    {
        out[i] = bytes[at + i];
        i += 1;
    }
    assert(out@ =~= bytes@.subrange(at as int, at + 32));
    out
}

/// Copies the bytes from `from` (inclusive) to `to` (exclusive).
pub fn copy_range(bytes: &[u8], from: usize, to: usize) -> (out: Vec<u8>)
    requires
        from <= to <= bytes.len(),
    ensures
        out@ == bytes@.subrange(from as int, to as int),
{
    let mut out: Vec<u8> = Vec::new();
    let mut i: usize = from;
    while i < to
        invariant
            from <= i <= to <= bytes.len(),
            out@ == bytes@.subrange(from as int, i as int),
        decreases to - i,
    {
        out.push(bytes[i]);
        i += 1;
        assert(out@ =~= bytes@.subrange(from as int, i as int));
    }
    out
}

/// The number that bytes spell, most significant first.
pub open spec fn spelled(bytes: Seq<u8>) -> nat
    decreases bytes.len(),
{
    if bytes.len() == 0 {
        0
    } else {
        spelled(bytes.drop_last()) * 0x100 + bytes.last() as nat
    }
}

proof fn lemma_spelled_add(a: Seq<u8>, b: Seq<u8>)
    ensures
        b.len() == 2 ==> spelled(a + b) == spelled(a) * 0x1_0000 + spelled(b),
        b.len() == 4 ==> spelled(a + b) == spelled(a) * 0x1_0000_0000 + spelled(b),
        b.len() == 8 ==> spelled(a + b) == spelled(a) * 0x1_0000_0000_0000_0000 + spelled(b),
        b.len() == 0 ==> spelled(a + b) == spelled(a),
    decreases b.len(),
{
    if b.len() == 0 {
        assert(a + b =~= a);
    } else if b.len() == 2 {
        lemma_spelled_push(a, b[0]);
        lemma_spelled_push(a.push(b[0]), b[1]);
        assert(a + b =~= a.push(b[0]).push(b[1]));
        lemma_spelled_push(seq![], b[0]);
        lemma_spelled_push(seq![].push(b[0]), b[1]);
        assert(b =~= seq![].push(b[0]).push(b[1]));
    } else if b.len() == 4 {
        let x = b.take(2);
        let y = b.skip(2);
        assert(a + b =~= (a + x) + y);
        assert(b =~= x + y);
        lemma_spelled_add(a, x);
        lemma_spelled_add(a + x, y);
        lemma_spelled_add(x, y);
    } else if b.len() == 8 {
        let x = b.take(4);
        let y = b.skip(4);
        assert(a + b =~= (a + x) + y);
        assert(b =~= x + y);
        lemma_spelled_add(a, x);
        lemma_spelled_add(a + x, y);
        lemma_spelled_add(x, y);
    }
}

proof fn lemma_spelled_push(a: Seq<u8>, b: u8)
    ensures
        spelled(a.push(b)) == spelled(a) * 0x100 + b as nat,
{
    assert(a.push(b).drop_last() =~= a);
}

/// Numbers are written in two, four, eight or sixteen bytes, most significant first.
pub proof fn numbers_are_spelled_out(a: u16, b: u32, c: u64, d: u128)
    ensures
        be16(a).len() == 2,
        spelled(be16(a)) == a,
        be32(b).len() == 4,
        spelled(be32(b)) == b,
        be64(c).len() == 8,
        spelled(be64(c)) == c,
        be128(d).len() == 16,
        spelled(be128(d)) == d,
{
    lemma_spelled16(a);
    lemma_spelled32(b);
    lemma_spelled64(c);
    let hi = (d / 0x1_0000_0000_0000_0000) as u64;
    let lo = (d % 0x1_0000_0000_0000_0000) as u64;
    lemma_spelled64(hi);
    lemma_spelled64(lo);
    lemma_spelled_add(be64(hi), be64(lo));
}

proof fn lemma_spelled16(v: u16)
    ensures
        be16(v).len() == 2,
        spelled(be16(v)) == v,
{
    let hi = (v / 0x100) as u8;
    let lo = (v % 0x100) as u8;
    assert(be16(v) =~= seq![].push(hi).push(lo));
    lemma_spelled_push(seq![], hi);
    lemma_spelled_push(seq![].push(hi), lo);
}

proof fn lemma_spelled32(v: u32)
    ensures
        be32(v).len() == 4,
        spelled(be32(v)) == v,
{
    let hi = (v / 0x1_0000) as u16;
    let lo = (v % 0x1_0000) as u16;
    lemma_spelled16(hi);
    lemma_spelled16(lo);
    lemma_spelled_add(be16(hi), be16(lo));
}

proof fn lemma_spelled64(v: u64)
    ensures
        be64(v).len() == 8,
        spelled(be64(v)) == v,
{
    let hi = (v / 0x1_0000_0000) as u32;
    let lo = (v % 0x1_0000_0000) as u32;
    lemma_spelled32(hi);
    lemma_spelled32(lo);
    lemma_spelled_add(be32(hi), be32(lo));
}

} // verus!
