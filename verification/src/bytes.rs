//! Little-endian decoding of the fixed-width integers that PDB structures are made of.

use vstd::prelude::*;

verus! {

/// The value of the little-endian `u16` stored at `pos`.
pub open spec fn spec_u16_le(b: Seq<u8>, pos: int) -> int {
    b[pos] + 256 * b[pos + 1]
}

/// The value of the little-endian `u32` stored at `pos`.
pub open spec fn spec_u32_le(b: Seq<u8>, pos: int) -> int {
    b[pos] + 256 * b[pos + 1] + 65536 * b[pos + 2] + 16777216 * b[pos + 3]
}

/// The value of the little-endian two's-complement `i32` stored at `pos`.
pub open spec fn spec_i32_le(b: Seq<u8>, pos: int) -> int {
    let u = spec_u32_le(b, pos);
    if u >= 0x8000_0000 {
        u - 0x1_0000_0000
    } else {
        u
    }
}

/// Reads a little-endian `u16` at byte offset `pos`.
pub fn read_u16_le(b: &[u8], pos: usize) -> (r: u16)
    requires
        pos + 2 <= b@.len(),
    ensures
        r as int == spec_u16_le(b@, pos as int),
{
    let lo = b[pos] as u16;
    let hi = b[pos + 1] as u16;
    lo + hi * 256
}

/// Reads a little-endian `u32` at byte offset `pos`.
pub fn read_u32_le(b: &[u8], pos: usize) -> (r: u32)
    requires
        pos + 4 <= b@.len(),
    ensures
        r as int == spec_u32_le(b@, pos as int),
{
    let b0 = b[pos] as u32;
    let b1 = b[pos + 1] as u32;
    let b2 = b[pos + 2] as u32;
    let b3 = b[pos + 3] as u32;
    b0 + b1 * 256 + b2 * 65536 + b3 * 16777216
}

/// Reads a little-endian two's-complement `i32` at byte offset `pos`.
pub fn read_i32_le(b: &[u8], pos: usize) -> (r: i32)
    requires
        pos + 4 <= b@.len(),
    ensures
        r as int == spec_i32_le(b@, pos as int),
{
    let u = read_u32_le(b, pos) as i64;
    let s: i64 = if u >= 0x8000_0000 {
        u - 0x1_0000_0000
    } else {
        u
    };
    s as i32
}

/// The `count` little-endian `u16` values that start at `start`.
pub open spec fn spec_u16_array(b: Seq<u8>, start: int, count: int) -> Seq<u16> {
    Seq::new(count as nat, |i: int| spec_u16_le(b, start + 2 * i) as u16)
}

/// The `count` little-endian `u32` values that start at `start`.
pub open spec fn spec_u32_array(b: Seq<u8>, start: int, count: int) -> Seq<u32> {
    Seq::new(count as nat, |i: int| spec_u32_le(b, start + 4 * i) as u32)
}

} // verus!

verus! {

/// The position of the first NUL byte of `s` at or after `from`, or the length of `s` when there
/// is none.
pub open spec fn nul_index(s: Seq<u8>, from: int) -> int
    decreases s.len() - from,
{
    if from >= s.len() {
        s.len() as int
    } else if s[from] == 0 {
        from
    } else {
        nul_index(s, from + 1)
    }
}

/// The position of the first NUL at or after `from` is at least `from` and at most the length.
pub proof fn lemma_nul_index_bounds(s: Seq<u8>, from: int)
    requires
        0 <= from <= s.len(),
    ensures
        from <= nul_index(s, from) <= s.len(),
        nul_index(s, from) < s.len() ==> s[nul_index(s, from)] == 0,
        forall|j: int| from <= j < nul_index(s, from) ==> s[j] != 0,
    decreases s.len() - from,
{
    if from < s.len() && s[from] != 0 {
        lemma_nul_index_bounds(s, from + 1);
    }
}

/// Finds the first NUL byte at or after `from`; returns the length of `s` when there is none.
pub fn find_nul(s: &[u8], from: usize) -> (r: usize)
    requires
        from <= s@.len(),
    ensures
        r == nul_index(s@, from as int),
{
    let mut i = from;
    while i < s.len() && s[i] != 0
        invariant
            from <= i <= s@.len(),
            nul_index(s@, i as int) == nul_index(s@, from as int),
        decreases s@.len() - i,
    {
        i = i + 1;
    }
    i
}

/// The little-endian encoding of a `u32`.
pub open spec fn spec_u32_le_bytes(x: u32) -> Seq<u8> {
    seq![
        (x % 256) as u8,
        ((x / 256) % 256) as u8,
        ((x / 65536) % 256) as u8,
        (x / 16777216) as u8,
    ]
}

/// Decoding the encoding of a `u32` gives it back.
pub proof fn lemma_u32_le_roundtrip(x: u32)
    ensures
        spec_u32_le(spec_u32_le_bytes(x), 0) == x,
{
}

/// Appends the little-endian encoding of `x`.
pub fn push_u32_le(out: &mut Vec<u8>, x: u32)
    ensures
        final(out)@ == old(out)@ + spec_u32_le_bytes(x),
{
    out.push((x % 256) as u8);
    out.push(((x / 256) % 256) as u8);
    out.push(((x / 65536) % 256) as u8);
    out.push((x / 16777216) as u8);
    assert(final(out)@ =~= old(out)@ + spec_u32_le_bytes(x));
}

} // verus!

verus! {

/// Reading a `u32` within the first part of a concatenation reads the first part.
pub proof fn lemma_u32_le_prefix(a: Seq<u8>, b: Seq<u8>, pos: int)
    requires
        0 <= pos,
        pos + 4 <= a.len(),
    ensures
        spec_u32_le(a + b, pos) == spec_u32_le(a, pos),
{
}

/// Reading a `u32` within the second part of a concatenation reads the second part.
pub proof fn lemma_u32_le_suffix(a: Seq<u8>, b: Seq<u8>, pos: int)
    requires
        0 <= pos,
        pos + 4 <= b.len(),
    ensures
        spec_u32_le(a + b, a.len() + pos) == spec_u32_le(b, pos),
{
}

/// The little-endian encoding of a `u16`.
pub open spec fn spec_u16_le_bytes(x: u16) -> Seq<u8> {
    seq![(x % 256) as u8, (x / 256) as u8]
}

/// The two's-complement bits of an `i32`, as a `u32`.
pub open spec fn i32_bits(x: i32) -> u32 {
    if x < 0 {
        (x + 0x1_0000_0000) as u32
    } else {
        x as u32
    }
}

/// The little-endian two's-complement encoding of an `i32`.
pub open spec fn spec_i32_le_bytes(x: i32) -> Seq<u8> {
    spec_u32_le_bytes(i32_bits(x))
}

/// Appends the little-endian encoding of `x`.
pub fn push_u16_le(out: &mut Vec<u8>, x: u16)
    ensures
        final(out)@ == old(out)@ + spec_u16_le_bytes(x),
{
    out.push((x % 256) as u8);
    out.push((x / 256) as u8);
    assert(final(out)@ =~= old(out)@ + spec_u16_le_bytes(x));
}

/// Appends the little-endian two's-complement encoding of `x`.
pub fn push_i32_le(out: &mut Vec<u8>, x: i32)
    ensures
        final(out)@ == old(out)@ + spec_i32_le_bytes(x),
{
    let u: u32 = if x < 0 {
        (x as i64 + 0x1_0000_0000i64) as u32
    } else {
        x as u32
    };
    push_u32_le(out, u);
}

/// `s` with the bytes from `pos` on replaced by `b`.
pub open spec fn spliced(s: Seq<u8>, pos: int, b: Seq<u8>) -> Seq<u8> {
    s.subrange(0, pos) + b + s.subrange(pos + b.len(), s.len() as int)
}

/// Writes `src` over the bytes of `dst` from `pos` on.
pub fn write_bytes(dst: &mut Vec<u8>, pos: usize, src: &[u8])
    requires
        pos + src@.len() <= old(dst)@.len(),
    ensures
        final(dst)@ == spliced(old(dst)@, pos as int, src@),
{
    let n = dst.len();
    let mut i: usize = 0;
    while i < src.len()
        invariant
            pos + src@.len() <= old(dst)@.len(),
            n == old(dst)@.len(),
            dst@.len() == old(dst)@.len(),
            i <= src@.len(),
            forall|k: int| 0 <= k < pos ==> dst@[k] == old(dst)@[k],
            forall|k: int| 0 <= k < i ==> dst@[pos + k] == src@[k],
            forall|k: int| pos + src@.len() <= k < dst@.len() ==> dst@[k] == old(dst)@[k],
        decreases src@.len() - i,
    {
        dst.set(pos + i, src[i]);
        i = i + 1;
    }
    assert(dst@ =~= spliced(old(dst)@, pos as int, src@));
}

/// Reading a `u16` from bytes that hold its encoding there gives it back.
pub proof fn lemma_u16_read(s: Seq<u8>, p: int, x: u16)
    requires
        0 <= p,
        p + 2 <= s.len(),
        s.subrange(p, p + 2) == spec_u16_le_bytes(x),
    ensures
        spec_u16_le(s, p) == x,
{
    assert(s[p] == s.subrange(p, p + 2)[0]);
    assert(s[p + 1] == s.subrange(p, p + 2)[1]);
}

/// Reading a `u32` from bytes that hold its encoding there gives it back.
pub proof fn lemma_u32_read(s: Seq<u8>, p: int, x: u32)
    requires
        0 <= p,
        p + 4 <= s.len(),
        s.subrange(p, p + 4) == spec_u32_le_bytes(x),
    ensures
        spec_u32_le(s, p) == x,
{
    let e = s.subrange(p, p + 4);
    assert(s[p] == e[0] && s[p + 1] == e[1] && s[p + 2] == e[2] && s[p + 3] == e[3]);
    lemma_u32_le_roundtrip(x);
}

/// Reading an `i32` from bytes that hold its encoding there gives it back.
pub proof fn lemma_i32_read(s: Seq<u8>, p: int, x: i32)
    requires
        0 <= p,
        p + 4 <= s.len(),
        s.subrange(p, p + 4) == spec_i32_le_bytes(x),
    ensures
        spec_i32_le(s, p) == x,
{
    lemma_u32_read(s, p, i32_bits(x));
}

/// Writing within a part of a sequence writes within that part, and what was written reads back.
pub proof fn lemma_splice_inside(d: Seq<u8>, start: int, end: int, at: int, e: Seq<u8>)
    requires
        0 <= start <= end <= d.len(),
        0 <= at,
        at + e.len() <= end - start,
    ensures
        spliced(d, start + at, e).subrange(start, end) == spliced(d.subrange(start, end), at, e),
        spliced(d, start + at, e).subrange(start + at, start + at + e.len()) == e,
        spliced(d, start + at, e).len() == d.len(),
{
    assert(spliced(d, start + at, e).subrange(start, end) =~= spliced(d.subrange(start, end), at, e));
    assert(spliced(d, start + at, e).subrange(start + at, start + at + e.len()) =~= e);
}

} // verus!
