//! Little-endian field encoding shared by every on-disk record of the crate.
use vstd::prelude::*;

verus! {

/// The two bytes of `x`, least significant first.
pub open spec fn u16_le_bytes(x: u16) -> Seq<u8> {
    seq![(x & 0xff) as u8, ((x >> 8) & 0xff) as u8]
}

/// The four bytes of `x`, least significant first.
pub open spec fn u32_le_bytes(x: u32) -> Seq<u8> {
    seq![(x & 0xff) as u8, ((x >> 8) & 0xff) as u8, ((x >> 16) & 0xff) as u8, ((x >> 24) & 0xff) as u8]
}

/// The little-endian `u16` stored at `s[off..off + 2]`.
pub open spec fn le_u16_at(s: Seq<u8>, off: int) -> u16 {
    (s[off] as u16) | ((s[off + 1] as u16) << 8)
}

/// The little-endian `u32` stored at `s[off..off + 4]`.
pub open spec fn le_u32_at(s: Seq<u8>, off: int) -> u32 {
    (s[off] as u32) | ((s[off + 1] as u32) << 8) | ((s[off + 2] as u32) << 16) | ((s[off + 3] as u32) << 24)
}

/// The little-endian encoding of a sequence of `u16` values, one after the other.
pub open spec fn u16s_le_bytes(v: Seq<u16>) -> Seq<u8>
    decreases v.len(),
{
    if v.len() == 0 {
        Seq::empty()
    } else {
        u16s_le_bytes(v.drop_last()) + u16_le_bytes(v.last())
    }
}

/// The concatenation of a sequence of byte strings.
pub open spec fn concat(v: Seq<Seq<u8>>) -> Seq<u8>
    decreases v.len(),
{
    if v.len() == 0 {
        Seq::empty()
    } else {
        concat(v.drop_last()) + v.last()
    }
}

/// Decoding a `u16` from its encoding gives it back.
pub proof fn lemma_u16_roundtrip(x: u16)
    ensures
        le_u16_at(u16_le_bytes(x), 0) == x,
        u16_le_bytes(x).len() == 2,
{
    let b0 = (x & 0xff) as u8;
    let b1 = ((x >> 8) & 0xff) as u8;
    assert((b0 as u16) | ((b1 as u16) << 8) == x) by (bit_vector)
        requires
            b0 == (x & 0xff) as u8,
            b1 == ((x >> 8) & 0xff) as u8,
    ;
}

/// Decoding a `u32` from its encoding gives it back.
pub proof fn lemma_u32_roundtrip(x: u32)
    ensures
        le_u32_at(u32_le_bytes(x), 0) == x,
        u32_le_bytes(x).len() == 4,
{
    let b0 = (x & 0xff) as u8;
    let b1 = ((x >> 8) & 0xff) as u8;
    let b2 = ((x >> 16) & 0xff) as u8;
    let b3 = ((x >> 24) & 0xff) as u8;
    assert((b0 as u32) | ((b1 as u32) << 8) | ((b2 as u32) << 16) | ((b3 as u32) << 24) == x)
        by (bit_vector)
        requires
            b0 == (x & 0xff) as u8,
            b1 == ((x >> 8) & 0xff) as u8,
            b2 == ((x >> 16) & 0xff) as u8,
            b3 == ((x >> 24) & 0xff) as u8,
    ;
}

/// Two bytes decoded as a `u16` and encoded again are the same two bytes.
pub proof fn lemma_u16_bytes_of(s: Seq<u8>, off: int)
    requires
        0 <= off,
        off + 2 <= s.len(),
    ensures
        u16_le_bytes(le_u16_at(s, off)) == s.subrange(off, off + 2),
{
    let b0 = s[off];
    let b1 = s[off + 1];
    let x = le_u16_at(s, off);
    assert(b0 == (x & 0xff) as u8 && b1 == ((x >> 8) & 0xff) as u8) by (bit_vector)
        requires
            x == (b0 as u16) | ((b1 as u16) << 8),
    ;
    assert(u16_le_bytes(x) =~= s.subrange(off, off + 2));
}

/// Four bytes decoded as a `u32` and encoded again are the same four bytes.
pub proof fn lemma_u32_bytes_of(s: Seq<u8>, off: int)
    requires
        0 <= off,
        off + 4 <= s.len(),
    ensures
        u32_le_bytes(le_u32_at(s, off)) == s.subrange(off, off + 4),
{
    let b0 = s[off];
    let b1 = s[off + 1];
    let b2 = s[off + 2];
    let b3 = s[off + 3];
    let x = le_u32_at(s, off);
    assert(b0 == (x & 0xff) as u8 && b1 == ((x >> 8) & 0xff) as u8 && b2 == ((x >> 16) & 0xff) as u8
        && b3 == ((x >> 24) & 0xff) as u8) by (bit_vector)
        requires
            x == (b0 as u32) | ((b1 as u32) << 8) | ((b2 as u32) << 16) | ((b3 as u32) << 24),
    ;
    assert(u32_le_bytes(x) =~= s.subrange(off, off + 4));
}

/// Reads the little-endian `u16` at `data[off..off + 2]`.
pub fn read_u16(data: &[u8], off: usize) -> (r: u16)
    requires
        off + 2 <= data@.len(),
    ensures
        r == le_u16_at(data@, off as int),
{
    (data[off] as u16) | ((data[off + 1] as u16) << 8)
}

/// Reads the little-endian `u32` at `data[off..off + 4]`.
pub fn read_u32(data: &[u8], off: usize) -> (r: u32)
    requires
        off + 4 <= data@.len(),
    ensures
        r == le_u32_at(data@, off as int),
{
    (data[off] as u32) | ((data[off + 1] as u32) << 8) | ((data[off + 2] as u32) << 16) | ((
    data[off + 3] as u32) << 24)
}

/// Appends the little-endian encoding of `x`.
pub fn push_u16(out: &mut Vec<u8>, x: u16)
    ensures
        final(out)@ == old(out)@ + u16_le_bytes(x),
{
    out.push((x & 0xff) as u8);
    out.push(((x >> 8) & 0xff) as u8);
    assert(final(out)@ =~= old(out)@ + u16_le_bytes(x));
}

/// Appends the little-endian encoding of `x`.
pub fn push_u32(out: &mut Vec<u8>, x: u32)
    ensures
        final(out)@ == old(out)@ + u32_le_bytes(x),
{
    out.push((x & 0xff) as u8);
    out.push(((x >> 8) & 0xff) as u8);
    out.push(((x >> 16) & 0xff) as u8);
    out.push(((x >> 24) & 0xff) as u8);
    assert(final(out)@ =~= old(out)@ + u32_le_bytes(x));
}

/// Appends the bytes of `src`.
pub fn push_bytes(out: &mut Vec<u8>, src: &[u8])
    ensures
        final(out)@ == old(out)@ + src@,
{
    let ghost start = out@;
    let mut i: usize = 0;
    while i < src.len()
        invariant
            i <= src@.len(),
            out@ == start + src@.take(i as int),
        decreases src@.len() - i,
    {
        out.push(src[i]);
        i = i + 1;
        assert(out@ =~= start + src@.take(i as int));
    }
    assert(src@.take(i as int) =~= src@);
}

/// Copies `src` over the start of `dst`, leaving the rest of `dst` as it was.
pub fn copy_prefix(dst: &mut [u8], src: &[u8])
    requires
        src@.len() <= old(dst)@.len(),
    ensures
        final(dst)@ == src@ + old(dst)@.skip(src@.len() as int),
{
    let ghost start = dst@;
    let mut i: usize = 0;
    while i < src.len()
        invariant
            i <= src@.len(),
            src@.len() <= start.len(),
            dst@.len() == start.len(),
            dst@ == src@.take(i as int) + start.skip(i as int),
        decreases src@.len() - i,
    {
        dst[i] = src[i];
        i = i + 1;
        assert(dst@ =~= src@.take(i as int) + start.skip(i as int));
    }
    assert(src@.take(i as int) =~= src@);
}

/// Copies the bytes of `data` into a new vector.
pub fn to_vec(data: &[u8]) -> (r: Vec<u8>)
    ensures
        r@ == data@,
{
    let mut r: Vec<u8> = Vec::new();
    push_bytes(&mut r, data);
    assert(r@ =~= data@);
    r
}

} // verus!

verus! {

/// Copies `data[off..off + N]` into an array.
pub fn read_array<const N: usize>(data: &[u8], off: usize) -> (r: [u8; N])
    requires
        off + N <= data@.len(),
    ensures
        r@ == data@.subrange(off as int, off + N),
{
    let mut a: [u8; N] = vstd::array::array_fill_for_copy_types::<u8, N>(0u8);
    let mut i: usize = 0;
    while i < N
        invariant
            off + N <= data.len(),
            i <= N,
            a@.len() == N,
            forall|j: int| 0 <= j < i ==> a@[j] == data@[off + j],
        decreases N - i,
    {
        a[i] = data[off + i];
        i = i + 1;
    }
    assert(a@ =~= data@.subrange(off as int, off + N));
    a
}

/// An array of `N` zero bytes.
pub fn zeroed<const N: usize>() -> (r: [u8; N])
    ensures
        r@ == Seq::new(N as nat, |i: int| 0u8),
{
    let a: [u8; N] = vstd::array::array_fill_for_copy_types::<u8, N>(0u8);
    assert(a@ =~= Seq::new(N as nat, |i: int| 0u8));
    a
}

} // verus!

verus! {

/// Whether two byte strings are equal.
pub fn bytes_eq(a: &[u8], b: &[u8]) -> (r: bool)
    ensures
        r == (a@ == b@),
{
    if a.len() != b.len() {
        return false;
    }
    let mut i: usize = 0;
    while i < a.len()
        invariant
            a@.len() == b@.len(),
            i <= a@.len(),
            forall|j: int| 0 <= j < i ==> a@[j] == b@[j],
        decreases a@.len() - i,
    {
        if a[i] != b[i] {
            return false;
        }
        i = i + 1;
    }
    assert(a@ =~= b@);
    true
}

} // verus!

verus! {

/// The `n` little-endian `u16` values stored one after another from `off`.
pub open spec fn le_u16s_at(s: Seq<u8>, off: int, n: nat) -> Seq<u16> {
    Seq::new(n, |i: int| le_u16_at(s, off + 2 * i))
}

/// Reads `N` little-endian `u16` values stored one after another from `off`.
pub fn read_u16_array<const N: usize>(data: &[u8], off: usize) -> (r: [u16; N])
    requires
        off + 2 * N <= data@.len(),
    ensures
        r@ == le_u16s_at(data@, off as int, N as nat),
{
    let mut a: [u16; N] = vstd::array::array_fill_for_copy_types::<u16, N>(0u16);
    let mut i: usize = 0;
    while i < N
        invariant
            off + 2 * N <= data.len(),
            i <= N,
            a@.len() == N,
            forall|j: int| 0 <= j < i ==> a@[j] == le_u16_at(data@, off + 2 * j),
        decreases N - i,
    {
        a[i] = read_u16(data, off + 2 * i);
        i = i + 1;
    }
    assert(a@ =~= le_u16s_at(data@, off as int, N as nat));
    a
}

} // verus!

verus! {

/// `needle` occurs in `haystack` at `i`.
pub open spec fn occurs_at(haystack: Seq<u8>, needle: Seq<u8>, i: int) -> bool {
    0 <= i && i + needle.len() <= haystack.len() && haystack.subrange(i, i + needle.len())
        == needle
}

/// The first position at or after `i` where `needle` occurs in `haystack`.
pub open spec fn first_occurrence_from(haystack: Seq<u8>, needle: Seq<u8>, i: int) -> Option<int>
    decreases haystack.len() + 1 - i,
{
    if i < 0 || i + needle.len() > haystack.len() {
        None
    } else if occurs_at(haystack, needle, i) {
        Some(i)
    } else {
        first_occurrence_from(haystack, needle, i + 1)
    }
}

/// A position found by the search is one where the needle occurs, at or after the start.
pub proof fn lemma_first_occurrence_from_occurs(haystack: Seq<u8>, needle: Seq<u8>, i: int)
    ensures
        first_occurrence_from(haystack, needle, i) matches Some(j) ==> i <= j && occurs_at(
            haystack,
            needle,
            j,
        ),
    decreases haystack.len() + 1 - i,
{
    if !(i < 0 || i + needle.len() > haystack.len()) && !occurs_at(haystack, needle, i) {
        lemma_first_occurrence_from_occurs(haystack, needle, i + 1);
    }
}

/// The first position where `needle` occurs in `haystack`.
pub open spec fn first_occurrence(haystack: Seq<u8>, needle: Seq<u8>) -> Option<int> {
    first_occurrence_from(haystack, needle, 0)
}

/// An optional index as an optional integer.
pub open spec fn opt_int(r: Option<usize>) -> Option<int> {
    match r {
        Some(i) => Some(i as int),
        None => None,
    }
}

/// The position of the first window of `haystack` equal to `needle`.
pub fn position_of(haystack: &[u8], needle: &[u8]) -> (r: Option<usize>)
    ensures
        opt_int(r) == first_occurrence(haystack@, needle@),
        r matches Some(i) ==> occurs_at(haystack@, needle@, i as int),
{
    proof {
        lemma_first_occurrence_from_occurs(haystack@, needle@, 0);
    }
    let n = needle.len();
    let len = haystack.len();
    if n > len {
        return None;
    }
    if n == 0 {
        assert(haystack@.subrange(0, 0) =~= needle@);
        return Some(0);
    }
    let mut i: usize = 0;
    while i <= len - n
        invariant
            n == needle@.len(),
            len == haystack@.len(),
            0 < n <= len,
            i <= len - n + 1,
            first_occurrence(haystack@, needle@) == first_occurrence_from(
                haystack@,
                needle@,
                i as int,
            ),
        decreases len - n + 1 - i,
    {
        if bytes_eq(&haystack[i..i + n], needle) {
            return Some(i);
        }
        i = i + 1;
    }
    None
}

} // verus!

verus! {

/// The bytes of an optional byte string.
pub open spec fn opt_bytes(r: Option<&[u8]>) -> Option<Seq<u8>> {
    match r {
        Some(s) => Some(s@),
        None => None,
    }
}

} // verus!

verus! {

/// Writes the little-endian encoding of `x` over `data[off..off + 4]`.
pub fn write_u32(data: &mut [u8], off: usize, x: u32)
    requires
        off + 4 <= old(data)@.len(),
    ensures
        final(data)@ == old(data)@.subrange(0, off as int) + u32_le_bytes(x) + old(data)@.subrange(
            off + 4,
            old(data)@.len() as int,
        ),
{
    data[off] = (x & 0xff) as u8;
    data[off + 1] = ((x >> 8) & 0xff) as u8;
    data[off + 2] = ((x >> 16) & 0xff) as u8;
    data[off + 3] = ((x >> 24) & 0xff) as u8;
    assert(data@ =~= old(data)@.subrange(0, off as int) + u32_le_bytes(x) + old(data)@.subrange(
        off + 4,
        old(data)@.len() as int,
    ));
}

} // verus!
