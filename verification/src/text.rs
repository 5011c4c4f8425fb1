//! Text fields of fixed size: UTF-8 decoding, done by the standard library, and trailing NUL
//! removal.
use vstd::prelude::*;
use vstd::utf8::{decode_utf8, encode_utf8, encode_utf8_decode_utf8, encode_utf8_valid_utf8, valid_utf8};
use vstd::string::StrSliceExecFns;

verus! {

/// Calls `core::str::from_utf8`, which succeeds exactly when the bytes are valid UTF-8 and then
/// gives the string they encode. The contract claims this, with validity and decoding as vstd
/// defines them for UTF-8.
#[verifier::external_body]
pub(crate) fn str_from_utf8(bytes: &[u8]) -> (r: Option<&str>)
    ensures
        r is Some <==> valid_utf8(bytes@),
        r matches Some(s) ==> s@ == decode_utf8(bytes@),
{
    core::str::from_utf8(bytes).ok()
}

/// `s` without the NUL characters at its end.
pub open spec fn trim_trailing_nul(s: Seq<char>) -> Seq<char>
    decreases s.len(),
{
    if s.len() > 0 && s.last() == '\0' {
        trim_trailing_nul(s.drop_last())
    } else {
        s
    }
}

/// `s` without the NUL characters at its end (see [`trim_trailing_nul`]).
pub(crate) fn trim_end_nul(s: &str) -> (r: &str)
    ensures
        r@ == trim_trailing_nul(s@),
{
    let n = s.unicode_len();
    let mut k: usize = n;
    assert(s@.subrange(0, n as int) =~= s@);
    while k > 0 && s.get_char(k - 1) == '\0'
        invariant
            n == s@.len(),
            k <= n,
            trim_trailing_nul(s@) == trim_trailing_nul(s@.subrange(0, k as int)),
        decreases k,
    {
        assert(s@.subrange(0, k as int).drop_last() =~= s@.subrange(0, k - 1));
        k = k - 1;
    }
    assert(trim_trailing_nul(s@.subrange(0, k as int)) == s@.subrange(0, k as int));
    s.substring_char(0, k)
}

/// The text of a fixed-size NUL-padded field: its UTF-8 decoding, or `fallback` when the bytes
/// are not valid UTF-8, without trailing NULs.
pub open spec fn field_text(bytes: Seq<u8>, fallback: Seq<char>) -> Seq<char> {
    trim_trailing_nul(if valid_utf8(bytes) { decode_utf8(bytes) } else { fallback })
}

/// Decodes a NUL-padded text field (see [`field_text`]).
pub fn text_of<'a>(bytes: &'a [u8], fallback: &'a str) -> (r: &'a str)
    ensures
        r@ == field_text(bytes@, fallback@),
{
    let s = match str_from_utf8(bytes) {
        Some(s) => s,
        None => fallback,
    };
    trim_end_nul(s)
}

} // verus!

verus! {

/// Whether two strings hold the same characters.
pub fn str_eq(a: &str, b: &str) -> (r: bool)
    ensures
        r == (a@ == b@),
{
    let n = a.unicode_len();
    if n != b.unicode_len() {
        return false;
    }
    let mut i: usize = 0;
    while i < n
        invariant
            n == a@.len(),
            a@.len() == b@.len(),
            i <= n,
            forall|j: int| 0 <= j < i ==> a@[j] == b@[j],
        decreases n - i,
    {
        if a.get_char(i) != b.get_char(i) {
            return false;
        }
        i = i + 1;
    }
    assert(a@ =~= b@);
    true
}

} // verus!

verus! {

/// `n` NUL characters.
pub open spec fn nuls(n: nat) -> Seq<char> {
    Seq::new(n, |i: int| '\0')
}

/// The encoding of two strings one after the other is the two encodings one after the other.
proof fn lemma_encode_concat(a: Seq<char>, b: Seq<char>)
    ensures
        encode_utf8(a + b) == encode_utf8(a) + encode_utf8(b),
    decreases a.len(),
{
    if a.len() == 0 {
        assert(a + b =~= b);
        assert(encode_utf8(a) + encode_utf8(b) =~= encode_utf8(b));
    } else {
        lemma_encode_concat(a.drop_first(), b);
        assert((a + b).drop_first() =~= a.drop_first() + b);
        assert((a + b)[0] == a[0]);
        assert(encode_utf8(a + b) =~= encode_utf8(a) + encode_utf8(b));
    }
}

/// NUL characters are encoded as that many zero bytes.
proof fn lemma_encode_nuls(n: nat)
    ensures
        encode_utf8(nuls(n)) == Seq::new(n, |i: int| 0u8),
    decreases n,
{
    if n > 0 {
        lemma_encode_nuls((n - 1) as nat);
        assert(nuls(n).drop_first() =~= nuls((n - 1) as nat));
        assert(nuls(n)[0] == '\0');
        assert(('\0' as u32) == 0u32);
        assert((0u32 & 0x7Fu32) as u8 == 0u8) by (bit_vector);
        assert(vstd::utf8::encode_scalar(0u32) =~= seq![0u8]);
        assert(encode_utf8(nuls(n)) == vstd::utf8::encode_scalar(0u32) + encode_utf8(nuls((n - 1) as nat)));
        assert(encode_utf8(nuls(n)) =~= Seq::new(n, |i: int| 0u8));
    }
}

/// Trailing NULs added to a string that does not end with one are all removed again.
proof fn lemma_trim_nuls(s: Seq<char>, n: nat)
    requires
        s.len() == 0 || s.last() != '\0',
    ensures
        trim_trailing_nul(s + nuls(n)) == s,
    decreases n,
{
    if n == 0 {
        assert(s + nuls(0) =~= s);
    } else {
        assert((s + nuls(n)).drop_last() =~= s + nuls((n - 1) as nat));
        assert((s + nuls(n)).last() == '\0');
        lemma_trim_nuls(s, (n - 1) as nat);
    }
}

/// The text of a field holding the encoding of `name` padded with zero bytes is `name`, when
/// `name` does not end with a NUL character.
pub proof fn lemma_padded_text(name: Seq<char>, n: nat, fallback: Seq<char>)
    requires
        name.len() == 0 || name.last() != '\0',
    ensures
        field_text(encode_utf8(name) + Seq::new(n, |i: int| 0u8), fallback) == name,
{
    lemma_encode_nuls(n);
    lemma_encode_concat(name, nuls(n));
    encode_utf8_valid_utf8(name + nuls(n));
    encode_utf8_decode_utf8(name + nuls(n));
    lemma_trim_nuls(name, n);
}

} // verus!
