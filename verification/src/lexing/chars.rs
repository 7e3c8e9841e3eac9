use vstd::prelude::*;
use vstd::utf8::*;
use vstd::string::StringSliceAdditionalSpecFns;

verus! {

/// The value `char::is_alphabetic` gives for `c` (the Unicode `Alphabetic` property).
pub uninterp spec fn spec_is_alphabetic(c: char) -> bool;

/// The value `char::is_numeric` gives for `c` (the Unicode general categories for numbers).
pub uninterp spec fn spec_is_numeric(c: char) -> bool;

/// Calls `char::is_alphabetic`; its result is the name `spec_is_alphabetic`.
#[verifier::external_body]
pub(crate) fn is_alphabetic(c: char) -> (r: bool)
    ensures
        r == spec_is_alphabetic(c),
{
    c.is_alphabetic()
}

/// Calls `char::is_alphanumeric`, which std documents as `is_alphabetic() || is_numeric()`.
#[verifier::external_body]
pub(crate) fn is_alphanumeric(c: char) -> (r: bool)
    ensures
        r == (spec_is_alphabetic(c) || spec_is_numeric(c)),
{
    c.is_alphanumeric()
}

/// The char whose UTF-8 encoding starts at byte `pos` of `bytes`, if `pos` is a char boundary before the end.
pub open spec fn spec_char_at(bytes: Seq<u8>, pos: int) -> Option<char> {
    if 0 <= pos < bytes.len() && is_char_boundary(bytes, pos) {
        Some(decode_first_scalar(bytes.subrange(pos, bytes.len() as int)) as char)
    } else {
        None
    }
}

/// The char that starts at byte `pos`, or `None` where `pos` is the end, past the end, or inside
/// a char.
pub fn char_at(s: &str, pos: usize) -> (r: Option<char>)
    requires
        s.spec_bytes().len() <= usize::MAX,
    ensures
        r == spec_char_at(s.spec_bytes(), pos as int),
{
    if pos >= s.len() || !s.is_char_boundary(pos) {
        proof { assert(spec_char_at(s.spec_bytes(), pos as int) is None); }
        return None;
    }
    let (_, rest) = s.split_at(pos);
    let mut it = rest.chars();
    let ghost before = it;
    let c = it.next();
    proof {
        broadcast use vstd::string::axiom_spec_iter, vstd::string::next_postcondition, char_u32_cast;
        let bytes = s.spec_bytes();
        assert(rest.spec_bytes() == bytes.subrange(pos as int, bytes.len() as int));
        assert(rest.spec_bytes() == encode_utf8(rest@));
        if rest@.len() == 0 {
            assert(encode_utf8(rest@) =~= Seq::<u8>::empty());
        }
        assert(rest@.len() > 0);
        assert(vstd::std_specs::iter::IteratorSpec::remaining(&before) == rest@);
        encode_utf8_first_scalar(rest@);
        assert(c == Some(rest@[0]));
        assert(decode_first_scalar(bytes.subrange(pos as int, bytes.len() as int)) == rest@[0] as u32);
        char_u32_cast(rest@[0], rest@[0] as u32);
        assert(c == spec_char_at(s.spec_bytes(), pos as int));
    }
    c
}

} // verus!
