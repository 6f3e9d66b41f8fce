//! Text carried in headers: byte strings that are valid UTF-8.

use vstd::prelude::*;
use vstd::pervasive::unreached;
use vstd::string::StringSliceAdditionalSpecFns;
use vstd::utf8::encode_utf8;
use vstd::utf8::is_char_boundary_iff_not_is_continuation_byte;
use vstd::utf8::pop_first_scalar;
use vstd::utf8::valid_first_scalar;
use vstd::utf8::valid_utf8;
use vstd::utf8::valid_utf8_split;

verus! {

/// The bytes that a string stands for on the wire.
pub open spec fn text_bytes(s: String) -> Seq<u8> {
    encode_utf8(s@)
}

/// Cutting valid UTF-8 at a byte below 128 leaves valid UTF-8 on both sides
/// of that byte.
pub proof fn lemma_split_at_ascii(s: Seq<u8>, i: int)
    requires
        valid_utf8(s),
        0 <= i < s.len(),
        s[i] < 128,
    ensures
        valid_utf8(s.subrange(0, i)),
        valid_utf8(s.subrange(i + 1, s.len() as int)),
{
    is_char_boundary_iff_not_is_continuation_byte(s, i);
    valid_utf8_split(s, i);
    let t = s.subrange(i, s.len() as int);
    assert(t[0] == s[i]);
    assert(valid_first_scalar(t) && valid_utf8(pop_first_scalar(t)));
    assert(pop_first_scalar(t) =~= s.subrange(i + 1, s.len() as int));
}

/// `core::str::from_utf8`: succeeds exactly on the byte strings that are
/// valid UTF-8, and the string slice it returns holds the bytes it was given.
#[verifier::external_body]
pub(crate) fn utf8_str(bytes: &[u8]) -> (res: Option<&str>)
    ensures
        res is Some <==> valid_utf8(bytes@),
        res matches Some(s) ==> s.spec_bytes() == bytes@,
{
    core::str::from_utf8(bytes).ok()
}

/// Makes an owned string of bytes that are valid UTF-8.
pub fn text_of(bytes: &[u8]) -> (res: String)
    requires
        valid_utf8(bytes@),
    ensures
        text_bytes(res) == bytes@,
{
    match utf8_str(bytes) {
        Some(s) => s.to_owned(),
        None => unreached(),
    }
}

} // verus!
