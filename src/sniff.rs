//! Telling text files from binary ones by their leading bytes.
use vstd::prelude::*;
use vstd::slice::slice_subrange;

verus! {

/// How many leading bytes of a file are inspected.
pub const SNIFF_LEN: usize = 512;

/// Whether a byte sequence is well-formed UTF-8.
pub uninterp spec fn utf8_valid(b: Seq<u8>) -> bool;

/// Relies on `std::str::from_utf8`: it succeeds exactly on well-formed UTF-8,
/// and the empty slice is well-formed.
#[verifier::external_body]
pub(crate) fn is_utf8(b: &[u8]) -> (r: bool)
    ensures
        r == utf8_valid(b@),
        b@.len() == 0 ==> r,
{
    std::str::from_utf8(b).is_ok()
}

/// The part of `head` that is inspected: at most its first `SNIFF_LEN` bytes.
pub open spec fn sniff_window_spec(head: Seq<u8>) -> Seq<u8> {
    if head.len() <= SNIFF_LEN {
        head
    } else {
        head.take(SNIFF_LEN as int)
    }
}

/// A file whose inspected leading bytes are not well-formed UTF-8 is binary.
pub open spec fn is_binary(head: Seq<u8>) -> bool {
    !utf8_valid(sniff_window_spec(head))
}

/// The inspected part of `head`.
pub fn sniff_window(head: &[u8]) -> (r: &[u8])
    ensures
        r@ == sniff_window_spec(head@),
{
    if head.len() <= SNIFF_LEN {
        head
    } else {
        slice_subrange(head, 0, SNIFF_LEN)
    }
}

/// Classifies a file by its leading bytes (`head` may be the whole file or
/// any prefix of it that holds at least its first `SNIFF_LEN` bytes).
pub fn looks_binary(head: &[u8]) -> (r: bool)
    ensures
        r == is_binary(head@),
        head@.len() == 0 ==> !r,
{
    !is_utf8(sniff_window(head))
}

} // verus!
