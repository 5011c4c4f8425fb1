//! Substring search over bytes, done by the `memchr` crate.
use vstd::prelude::*;

use crate::bytes::{first_occurrence, opt_int};

verus! {

/// Calls `memchr::memmem::find`, which returns the index of the first occurrence of `needle` in
/// `haystack`, or `None` when it does not occur. The contract claims exactly that: the result is
/// the first position at which the bytes of `haystack` equal those of `needle`.
#[verifier::external_body]
pub(crate) fn memmem_find(haystack: &[u8], needle: &[u8]) -> (r: Option<usize>)
    ensures
        opt_int(r) == first_occurrence(haystack@, needle@),
{
    memchr::memmem::find(haystack, needle)
}

} // verus!
