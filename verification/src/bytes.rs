//! Little-endian integers in byte sequences.
use vstd::prelude::*;

verus! {

/// The four little-endian bytes of `x`.
pub open spec fn le32(x: u32) -> Seq<u8> {
    seq![
        (x % 0x100) as u8,
        ((x / 0x100) % 0x100) as u8,
        ((x / 0x1_0000) % 0x100) as u8,
        (x / 0x100_0000) as u8,
    ]
}

/// The eight little-endian bytes of `x`.
pub open spec fn le64(x: u64) -> Seq<u8> {
    le32((x % 0x1_0000_0000) as u32) + le32((x / 0x1_0000_0000) as u32)
}

/// The value of four little-endian bytes starting at `at`.
pub open spec fn word_at(s: Seq<u8>, at: int) -> u32 {
    (s[at] + s[at + 1] * 0x100 + s[at + 2] * 0x1_0000 + s[at + 3] * 0x100_0000) as u32
}

/// The value of eight little-endian bytes starting at `at`.
pub open spec fn quad_at(s: Seq<u8>, at: int) -> u64 {
    (word_at(s, at) + word_at(s, at + 4) * 0x1_0000_0000) as u64
}

/// The value of two little-endian bytes starting at `at`.
pub open spec fn half_at(s: Seq<u8>, at: int) -> u16 {
    (s[at] + s[at + 1] * 0x100) as u16
}

/// `s` with the four bytes at `at` replaced by those of `x`.
pub open spec fn put_word(s: Seq<u8>, at: int, x: u32) -> Seq<u8> {
    s.update(at, le32(x)[0]).update(at + 1, le32(x)[1]).update(at + 2, le32(x)[2]).update(
        at + 3,
        le32(x)[3],
    )
}

/// Reading back the four bytes of a word gives the word, wherever they stand.
pub proof fn law_word_round_trip(prefix: Seq<u8>, x: u32, suffix: Seq<u8>)
    ensures
        word_at(prefix + le32(x) + suffix, prefix.len() as int) == x,
{
    let s = prefix + le32(x) + suffix;
    let n = prefix.len() as int;
    assert(s[n] == le32(x)[0]);
    assert(s[n + 1] == le32(x)[1]);
    assert(s[n + 2] == le32(x)[2]);
    assert(s[n + 3] == le32(x)[3]);
}

/// Reading back the eight bytes of a value gives the value, wherever they stand.
pub proof fn law_quad_round_trip(prefix: Seq<u8>, x: u64, suffix: Seq<u8>)
    ensures
        quad_at(prefix + le64(x) + suffix, prefix.len() as int) == x,
{
    let lo = (x % 0x1_0000_0000) as u32;
    let hi = (x / 0x1_0000_0000) as u32;
    assert(prefix + le64(x) + suffix =~= prefix + le32(lo) + (le32(hi) + suffix));
    law_word_round_trip(prefix, lo, le32(hi) + suffix);
    assert(prefix + le64(x) + suffix =~= (prefix + le32(lo)) + le32(hi) + suffix);
    law_word_round_trip(prefix + le32(lo), hi, suffix);
}

/// Appends the four little-endian bytes of `x`.
pub fn push_u32(out: &mut Vec<u8>, x: u32)
    ensures
        final(out)@ == old(out)@ + le32(x),
{
    out.push((x % 0x100) as u8);
    out.push(((x / 0x100) % 0x100) as u8);
    out.push(((x / 0x1_0000) % 0x100) as u8);
    out.push((x / 0x100_0000) as u8);
    assert(out@ =~= old(out)@ + le32(x));
}

/// Appends the eight little-endian bytes of `x`.
pub fn push_u64(out: &mut Vec<u8>, x: u64)
    ensures
        final(out)@ == old(out)@ + le64(x),
{
    push_u32(out, (x % 0x1_0000_0000) as u32);
    push_u32(out, (x / 0x1_0000_0000) as u32);
    assert(out@ =~= old(out)@ + le64(x));
}

/// Appends every byte of `data`.
pub fn push_bytes(out: &mut Vec<u8>, data: &[u8])
    ensures
        final(out)@ == old(out)@ + data@,
{
    let mut i: usize = 0;
    while i < data.len()
        invariant
            i <= data@.len(),
            out@ == old(out)@ + data@.take(i as int),
        decreases data@.len() - i,
    {
        out.push(data[i]);
        i = i + 1;
        assert(data@.take(i as int) =~= data@.take(i - 1).push(data@[i - 1]));
        assert(out@ =~= old(out)@ + data@.take(i as int));
    }
    assert(data@.take(data@.len() as int) =~= data@);
}

/// The little-endian word at `at`.
pub fn get_u32(s: &[u8], at: usize) -> (w: u32)
    requires
        at + 4 <= s@.len(),
    ensures
        w == word_at(s@, at as int),
{
    let lo: u32 = s[at] as u32 + s[at + 1] as u32 * 0x100;
    lo + s[at + 2] as u32 * 0x1_0000 + s[at + 3] as u32 * 0x100_0000
}

/// The little-endian 64-bit value at `at`.
pub fn get_u64(s: &[u8], at: usize) -> (w: u64)
    requires
        at + 8 <= s@.len(),
    ensures
        w == quad_at(s@, at as int),
{
    let _n: usize = s.len();
    get_u32(s, at) as u64 + get_u32(s, at + 4) as u64 * 0x1_0000_0000
}

/// The little-endian 16-bit value at `at`.
pub fn get_u16(s: &[u8], at: usize) -> (w: u16)
    requires
        at + 2 <= s@.len(),
    ensures
        w == half_at(s@, at as int),
{
    s[at] as u16 + s[at + 1] as u16 * 0x100
}

/// Overwrites the four bytes at `at` with those of `x`.
pub fn set_u32(s: &mut Vec<u8>, at: usize, x: u32)
    requires
        at + 4 <= old(s)@.len(),
    ensures
        final(s)@ == put_word(old(s)@, at as int, x),
{
    let _n: usize = s.len();
    s.set(at, (x % 0x100) as u8);
    s.set(at + 1, ((x / 0x100) % 0x100) as u8);
    s.set(at + 2, ((x / 0x1_0000) % 0x100) as u8);
    s.set(at + 3, (x / 0x100_0000) as u8);
}

/// A copy of `s[from..to]`.
pub fn copy_range(s: &[u8], from: usize, to: usize) -> (out: Vec<u8>)
    requires
        from <= to <= s@.len(),
    ensures
        out@ == s@.subrange(from as int, to as int),
{
    let mut out: Vec<u8> = Vec::new();
    let mut i: usize = from;
    while i < to
        invariant
            from <= i <= to <= s@.len(),
            out@ == s@.subrange(from as int, i as int),
        decreases to - i,
    {
        out.push(s[i]);
        i = i + 1;
        assert(out@ =~= s@.subrange(from as int, i as int));
    }
    out
}

/// A copy of all of `s`.
pub fn to_vec(s: &[u8]) -> (out: Vec<u8>)
    ensures
        out@ == s@,
{
    let out = copy_range(s, 0, s.len());
    assert(s@.subrange(0, s@.len() as int) =~= s@);
    out
}

} // verus!
