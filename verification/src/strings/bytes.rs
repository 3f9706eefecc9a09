//! Texts and the bytes that hold them.

use vstd::prelude::*;
use vstd::string::StrSliceExecFns;
use vstd::utf8::{encode_scalar, encode_utf8};

verus! {

/// The number of bytes that the first `i` characters of `s` take in UTF-8:
/// the byte position of the character at index `i`.
pub open spec fn byte_position(s: Seq<char>, i: int) -> nat {
    encode_utf8(s.subrange(0, i)).len()
}

/// The first character stands at byte position 0.
pub proof fn lemma_byte_position_zero(s: Seq<char>)
    ensures
        byte_position(s, 0) == 0,
{
    assert(s.subrange(0, 0) =~= Seq::<char>::empty());
    assert(encode_utf8(s.subrange(0, 0)).len() == 0);
}

/// A text has at most as many characters as its UTF-8 form has bytes.
pub proof fn lemma_chars_le_bytes(s: Seq<char>)
    ensures
        s.len() <= encode_utf8(s).len(),
    decreases s.len(),
{
    if s.len() > 0 {
        lemma_chars_le_bytes(s.drop_first());
        assert(encode_scalar(s[0] as u32).len() >= 1);
    }
}

/// A bound on the number of characters of `s`, at no cost: the number of
/// its bytes.
pub fn char_count_bound(s: &str) -> (n: usize)
    ensures
        s@.len() <= n,
{
    proof {
        lemma_chars_le_bytes(s@);
    }
    s.as_bytes().len()
}

/// The byte position of the character of `s` at index `i`.
pub fn byte_position_of(s: &str, i: usize) -> (n: usize)
    requires
        i <= s@.len(),
    ensures
        n == byte_position(s@, i as int),
{
    s.substring_char(0, i).as_bytes().len()
}

} // verus!
