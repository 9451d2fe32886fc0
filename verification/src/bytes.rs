//! Words in byte buffers, in both byte orders.

use vstd::prelude::*;

verus! {

/// The little-endian bytes of a word.
pub open spec fn le16(x: u16) -> Seq<u8> {
    seq![(x % 256) as u8, (x / 256) as u8]
}

/// The little-endian bytes of a word.
pub open spec fn le32(x: u32) -> Seq<u8> {
    seq![
        (x % 256) as u8,
        (x / 256 % 256) as u8,
        (x / 65536 % 256) as u8,
        (x / 16777216) as u8,
    ]
}

/// The little-endian bytes of a word.
pub open spec fn le64(x: u64) -> Seq<u8> {
    le32((x % 0x1_0000_0000) as u32) + le32((x / 0x1_0000_0000) as u32)
}

/// The little-endian bytes of a run of words.
pub open spec fn le32_all(words: Seq<u32>) -> Seq<u8>
    decreases words.len(),
{
    if words.len() == 0 {
        Seq::empty()
    } else {
        le32_all(words.drop_last()) + le32(words.last())
    }
}

/// The value of two little-endian bytes at `at`.
pub open spec fn from_le16(s: Seq<u8>, at: int) -> int {
    s[at] + 256 * s[at + 1]
}

/// The value of four little-endian bytes at `at`.
pub open spec fn from_le32(s: Seq<u8>, at: int) -> int {
    s[at] + 256 * s[at + 1] + 65536 * s[at + 2] + 16777216 * s[at + 3]
}

/// The value of eight little-endian bytes at `at`.
pub open spec fn from_le64(s: Seq<u8>, at: int) -> int {
    from_le32(s, at) + 0x1_0000_0000 * from_le32(s, at + 4)
}

/// The value of four big-endian bytes at `at`.
pub open spec fn from_be32(s: Seq<u8>, at: int) -> int {
    16777216 * s[at] + 65536 * s[at + 1] + 256 * s[at + 2] + s[at + 3]
}

/// The value of eight big-endian bytes at `at`.
pub open spec fn from_be64(s: Seq<u8>, at: int) -> int {
    0x1_0000_0000 * from_be32(s, at) + from_be32(s, at + 4)
}

/// Reading back the little-endian bytes of a word gives the word.
pub proof fn le32_round_trip(x: u32)
    ensures
        le32(x).len() == 4,
        from_le32(le32(x), 0) == x,
{
}

/// Reading back the little-endian bytes of a double word gives it.
pub proof fn le64_round_trip(x: u64)
    ensures
        le64(x).len() == 8,
        from_le64(le64(x), 0) == x,
{
    let lo = (x % 0x1_0000_0000) as u32;
    let hi = (x / 0x1_0000_0000) as u32;
    le32_round_trip(lo);
    le32_round_trip(hi);
    assert(from_le32(le64(x), 0) == from_le32(le32(lo), 0));
    assert(from_le32(le64(x), 4) == from_le32(le32(hi), 0));
}

/// Four bytes written out per word.
pub proof fn le32_all_len(words: Seq<u32>)
    ensures
        le32_all(words).len() == 4 * words.len(),
    decreases words.len(),
{
    if words.len() > 0 {
        le32_all_len(words.drop_last());
    }
}

/// Every word of a run is found again at four times its index.
pub proof fn le32_all_round_trip(words: Seq<u32>, i: int)
    requires
        0 <= i < words.len(),
    ensures
        le32_all(words).len() == 4 * words.len(),
        from_le32(le32_all(words), 4 * i) == words[i],
    decreases words.len(),
{
    le32_all_len(words);
    le32_all_len(words.drop_last());
    let head = le32_all(words.drop_last());
    if i == words.len() - 1 {
        le32_round_trip(words.last());
        assert(from_le32(le32_all(words), 4 * i) == from_le32(le32(words.last()), 0));
    } else {
        le32_all_round_trip(words.drop_last(), i);
        assert(from_le32(le32_all(words), 4 * i) == from_le32(head, 4 * i));
    }
}

pub fn read_le16(s: &[u8], at: usize) -> (r: u16)
    requires
        at + 2 <= s.len(),
    ensures
        r == from_le16(s@, at as int),
{
    s[at] as u16 + 256 * (s[at + 1] as u16)
}

pub fn read_le32(s: &[u8], at: usize) -> (r: u32)
    requires
        at + 4 <= s.len(),
    ensures
        r == from_le32(s@, at as int),
{
    s[at] as u32 + 256 * (s[at + 1] as u32) + 65536 * (s[at + 2] as u32) + 16777216 * (s[at
        + 3] as u32)
}

pub fn read_le64(s: &[u8], at: usize) -> (r: u64)
    requires
        at + 8 <= s.len(),
    ensures
        r == from_le64(s@, at as int),
{
    read_le32(s, at) as u64 + 0x1_0000_0000 * (read_le32(s, at + 4) as u64)
}

/// A big-endian word of a property, where four bytes are there.
pub fn read_be_u32(bytes: &[u8], offset: usize) -> (r: Option<u32>)
    requires
        offset + 4 <= usize::MAX,
    ensures
        r is Some <==> offset + 4 <= bytes.len(),
        r is Some ==> r->0 == from_be32(bytes@, offset as int),
{
    if offset + 4 <= bytes.len() {
        Some(
            16777216 * (bytes[offset] as u32) + 65536 * (bytes[offset + 1] as u32) + 256 * (
            bytes[offset + 2] as u32) + bytes[offset + 3] as u32,
        )
    } else {
        None
    }
}

/// A big-endian double word of a property, where eight bytes are there.
pub fn read_be_u64(bytes: &[u8], offset: usize) -> (r: Option<u64>)
    requires
        offset + 8 <= usize::MAX,
    ensures
        r is Some <==> offset + 8 <= bytes.len(),
        r is Some ==> r->0 == from_be64(bytes@, offset as int),
{
    if offset + 8 <= bytes.len() {
        let hi: u32 = read_be_u32(bytes, offset).unwrap();
        let lo: u32 = read_be_u32(bytes, offset + 4).unwrap();
        Some(0x1_0000_0000 * (hi as u64) + lo as u64)
    } else {
        None
    }
}

/// Appends the little-endian bytes of a word.
pub fn push_le16(v: &mut Vec<u8>, x: u16)
    ensures
        final(v)@ == old(v)@ + le16(x),
{
    v.push((x % 256) as u8);
    v.push((x / 256) as u8);
}

/// Appends the little-endian bytes of a word.
pub fn push_le32(v: &mut Vec<u8>, x: u32)
    ensures
        final(v)@ == old(v)@ + le32(x),
{
    v.push((x % 256) as u8);
    v.push((x / 256 % 256) as u8);
    v.push((x / 65536 % 256) as u8);
    v.push((x / 16777216) as u8);
}

/// Appends the little-endian bytes of a double word.
pub fn push_le64(v: &mut Vec<u8>, x: u64)
    ensures
        final(v)@ == old(v)@ + le64(x),
{
    push_le32(v, (x % 0x1_0000_0000) as u32);
    push_le32(v, (x / 0x1_0000_0000) as u32);
}

/// Appends the bytes of a slice.
pub fn push_bytes(v: &mut Vec<u8>, s: &[u8])
    ensures
        final(v)@ == old(v)@ + s@,
{
    let ghost start = v@;
    let mut i: usize = 0;
    while i < s.len()
        invariant
            i <= s.len(),
            v@ == start + s@.subrange(0, i as int),
        decreases s.len() - i,
    {
        v.push(s[i]);
        i = i + 1;
    }
    assert(s@.subrange(0, s.len() as int) == s@);
}

/// Appends `n` zero bytes.
pub fn push_zeros(v: &mut Vec<u8>, n: usize)
    ensures
        final(v)@ == old(v)@ + Seq::new(n as nat, |i: int| 0u8),
{
    let ghost start = v@;
    let mut i: usize = 0;
    while i < n
        invariant
            i <= n,
            v@ == start + Seq::new(i as nat, |i: int| 0u8),
        decreases n - i,
    {
        v.push(0);
        i = i + 1;
    }
}

/// Copies a range out of a slice.
pub fn copy_range(s: &[u8], from: usize, to: usize) -> (r: Vec<u8>)
    requires
        from <= to <= s.len(),
    ensures
        r@ == s@.subrange(from as int, to as int),
{
    let mut v: Vec<u8> = Vec::new();
    let mut i: usize = from;
    while i < to
        invariant
            from <= i <= to <= s.len(),
            v@ == s@.subrange(from as int, i as int),
        decreases to - i,
    {
        v.push(s[i]);
        i = i + 1;
    }
    v
}

} // verus!
