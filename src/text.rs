//! Text decoding and string building through the standard library and
//! encoding_rs.
use vstd::prelude::*;
use vstd::utf8::{decode_utf8, valid_utf8};

verus! {

/// The text that a Shift-JIS byte string decodes to (a leading UTF-8 or
/// UTF-16 byte-order mark selects that encoding instead and is dropped), or
/// `None` when it holds a malformed sequence.
pub uninterp spec fn shift_jis_of(b: Seq<u8>) -> Option<Seq<char>>;

/// Relies on `encoding_rs::SHIFT_JIS.decode`: the decoded text, with BOM
/// sniffing, and a flag for malformed sequences, on which the result is
/// `None`; it depends on the bytes alone.
#[verifier::external_body]
pub(crate) fn decode_shift_jis(s: &[u8]) -> (r: Option<String>)
    requires
        s@.len() <= 0x1000_0000,
    ensures
        r is Some <==> shift_jis_of(s@) is Some,
        r matches Some(t) ==> Some(t@) == shift_jis_of(s@),
{
    let (text, _, had_errors) = encoding_rs::SHIFT_JIS.decode(s);
    if had_errors {
        None
    } else {
        Some(text.into_owned())
    }
}

/// Relies on `std::str::from_utf8`: `Ok` exactly on valid UTF-8, holding the
/// decoded text; the error is rendered with its `Display`.
#[verifier::external_body]
pub(crate) fn utf8_to_string(b: &[u8]) -> (r: Result<String, String>)
    ensures
        r is Ok <==> valid_utf8(b@),
        r matches Ok(t) ==> t@ == decode_utf8(b@),
{
    match std::str::from_utf8(b) {
        Ok(s) => Ok(s.to_owned()),
        Err(e) => Err(e.to_string()),
    }
}

/// Relies on `String: FromIterator<char>`: the string of exactly these
/// characters.
#[verifier::external_body]
pub(crate) fn string_from_chars(cs: &Vec<char>) -> (r: String)
    ensures
        r@ == cs@,
{
    cs.iter().collect()
}

} // verus!
