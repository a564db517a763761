//! Standard-library calls that the verifier has no specification for.
//!
//! Each function here is a thin wrapper whose contract is believed, not
//! proved. Everything else in the crate is verified against these contracts.

use vstd::prelude::*;
use vstd::utf8::*;

verus! {

/// Wraps `core::str::from_utf8`.
///
/// Claims that the call succeeds exactly on well-formed UTF-8, and that the
/// returned string slice is then a view of the very same bytes.
#[verifier::external_body]
pub(crate) fn str_from_utf8(bytes: &[u8]) -> (text: Option<&str>)
    ensures
        text is Some <==> valid_utf8(bytes@),
        text matches Some(s) ==> encode_utf8(s@) == bytes@,
{
    core::str::from_utf8(bytes).ok()
}


/// `std::io::Error`, the one kind of failure that a sink can report. Nothing
/// is claimed of it: the library only passes such a value on.
#[verifier::external_type_specification]
#[verifier::external_body]
pub struct ExIoError(std::io::Error);

/// Wraps `String::push`.
///
/// Claims that the call appends the character to the string and changes
/// nothing else.
#[verifier::external_body]
pub(crate) fn string_push(text: &mut String, c: char)
    ensures
        final(text)@ == old(text)@.push(c),
{
    text.push(c)
}

} // verus!
