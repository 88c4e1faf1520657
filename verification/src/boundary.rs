//! Cutting a text at byte positions: where in its UTF-8 form a character starts.

use vstd::prelude::*;
use vstd::string::StringSliceAdditionalSpecFns;
use vstd::utf8::{
    decode_utf8, encode_utf8, encode_utf8_decode_utf8, encode_utf8_valid_utf8, is_char_boundary,
    is_char_boundary_iff_not_is_continuation_byte, is_char_boundary_start_end_of_seq,
    length_of_first_scalar, pop_first_scalar, valid_utf8, valid_utf8_split,
};

verus! {

/// The text that the bytes `b[from..to]` spell.
pub open spec fn text_between(b: Seq<u8>, from: int, to: int) -> Seq<char> {
    decode_utf8(b.subrange(from, to))
}

/// In valid UTF-8 a character starts at every ASCII byte.
pub proof fn lemma_boundary_at_ascii(b: Seq<u8>, p: int)
    requires
        valid_utf8(b),
        0 <= p < b.len(),
        b[p] < 0x80,
    ensures
        is_char_boundary(b, p),
{
    is_char_boundary_iff_not_is_continuation_byte(b, p);
}

/// In valid UTF-8 a character starts, or the text ends, after every ASCII byte.
pub proof fn lemma_boundary_after_ascii(b: Seq<u8>, p: int)
    requires
        valid_utf8(b),
        0 <= p < b.len(),
        b[p] < 0x80,
    ensures
        is_char_boundary(b, p + 1),
{
    lemma_boundary_at_ascii(b, p);
    if p + 1 == b.len() {
        is_char_boundary_start_end_of_seq(b);
    } else {
        let s = b.subrange(p, b.len() as int);
        valid_utf8_split(b, p);
        assert(s[0] == b[p]);
        assert(length_of_first_scalar(s) == 1);
        assert(pop_first_scalar(s) == s.subrange(1, s.len() as int));
        assert(valid_utf8(pop_first_scalar(s))) by {
            reveal_with_fuel(valid_utf8, 2);
        }
        assert(is_char_boundary(s, 1)) by {
            reveal_with_fuel(is_char_boundary, 2);
        }
        is_char_boundary_iff_not_is_continuation_byte(s, 1);
        assert(s[1] == b[p + 1]);
        is_char_boundary_iff_not_is_continuation_byte(b, p + 1);
    }
}

/// A character boundary of a text is one of each prefix that reaches it.
pub proof fn lemma_boundary_in_prefix(b: Seq<u8>, from: int, to: int)
    requires
        valid_utf8(b),
        0 <= from <= to <= b.len(),
        is_char_boundary(b, from),
        is_char_boundary(b, to),
    ensures
        valid_utf8(b.subrange(0, to)),
        is_char_boundary(b.subrange(0, to), from),
{
    valid_utf8_split(b, to);
    let head = b.subrange(0, to);
    if from == to {
        is_char_boundary_start_end_of_seq(head);
    } else {
        is_char_boundary_iff_not_is_continuation_byte(b, from);
        assert(head[from] == b[from]);
        is_char_boundary_iff_not_is_continuation_byte(head, from);
    }
}

/// A text has at least one byte and at most four for each of its characters.
pub proof fn lemma_encoding_len(chars: Seq<char>)
    ensures
        chars.len() <= encode_utf8(chars).len() <= 4 * chars.len(),
    decreases chars.len(),
{
    if chars.len() > 0 {
        lemma_encoding_len(chars.drop_first());
    }
}

/// The part of `input` between two byte positions at which characters start.
pub fn substr<'a>(input: &'a str, from: usize, to: usize) -> (part: &'a str)
    requires
        from <= to <= input.spec_bytes().len(),
        is_char_boundary(input.spec_bytes(), from as int),
        is_char_boundary(input.spec_bytes(), to as int),
    ensures
        part.spec_bytes() == input.spec_bytes().subrange(from as int, to as int),
        part@ == text_between(input.spec_bytes(), from as int, to as int),
        part@.len() <= to - from,
{
    let ghost b = input.spec_bytes();
    proof {
        encode_utf8_valid_utf8(input@);
        lemma_boundary_in_prefix(b, from as int, to as int);
    }
    let (head, _) = input.split_at(to);
    let (_, part) = head.split_at(from);
    proof {
        assert(part.spec_bytes() =~= b.subrange(from as int, to as int));
        encode_utf8_decode_utf8(part@);
        lemma_encoding_len(part@);
    }
    part
}

} // verus!
