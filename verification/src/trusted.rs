//! The few facts about the standard library that the proofs rely on and
//! that are taken on trust rather than proved.

use vstd::prelude::*;
use vstd::utf8::*;

verus! {

/// `Vec::try_reserve_exact` asks the allocator for room for exactly
/// `additional` more elements and reports whether it got it. Either way the
/// elements already in the vector stay as they are. Nothing is claimed about
/// whether the request succeeds: that is up to the allocator.
#[verifier::external_body]
pub(crate) fn try_reserve_exact(vec: &mut Vec<u8>, additional: usize) -> (reserved: bool)
    ensures
        final(vec)@ == old(vec)@,
{
    vec.try_reserve_exact(additional).is_ok()
}

/// `String::from_utf8` accepts a byte vector exactly when it is well-formed
/// UTF-8, and the string it returns then consists of those same bytes.
#[verifier::external_body]
pub(crate) fn string_from_utf8(bytes: Vec<u8>) -> (text: Option<String>)
    ensures
        text is Some <==> valid_utf8(bytes@),
        text matches Some(s) ==> encode_utf8(s@) == bytes@,
{
    String::from_utf8(bytes).ok()
}

} // verus!
