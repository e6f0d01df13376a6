//! The text buffer as the edit primitives see it: a `String` addressed by
//! byte offsets into its UTF-8 encoding.
//!
//! A text's view is its sequence of `char`s. Offsets count bytes, so the
//! model goes through `encode_utf8` wherever an offset is involved.

use vstd::prelude::*;
use vstd::utf8::*;

verus! {

/// The length of `text` in bytes, which is the unit of every offset.
pub open spec fn text_len(text: Seq<char>) -> nat {
    encode_utf8(text).len()
}

/// Whether `offset` is 0, the length of `text`, or the place where the
/// encoding of one of its characters starts.
pub open spec fn is_codepoint_boundary(text: Seq<char>, offset: int) -> bool {
    is_char_boundary(encode_utf8(text), offset)
}

/// The characters of `text` that are encoded before byte `offset`.
pub open spec fn prefix(text: Seq<char>, offset: int) -> Seq<char> {
    decode_utf8(encode_utf8(text).subrange(0, offset))
}

/// The characters of `text` that are encoded from byte `offset` on.
pub open spec fn suffix(text: Seq<char>, offset: int) -> Seq<char> {
    decode_utf8(encode_utf8(text).subrange(offset, text_len(text) as int))
}

/// `text` with the bytes from `start` up to `end` taken out and `new` put in
/// their place.
pub open spec fn replaced(text: Seq<char>, start: int, end: int, new: Seq<char>) -> Seq<char> {
    prefix(text, start) + new + suffix(text, end)
}

/// Whether `start..end` is a range of whole characters of `text`.
pub open spec fn is_codepoint_range(text: Seq<char>, start: int, end: int) -> bool {
    &&& 0 <= start <= end <= text_len(text)
    &&& is_codepoint_boundary(text, start)
    &&& is_codepoint_boundary(text, end)
}

/// Decoding distributes over the concatenation of two well-formed encodings.
pub proof fn lemma_decode_concat(b1: Seq<u8>, b2: Seq<u8>)
    requires
        valid_utf8(b1),
        valid_utf8(b2),
    ensures
        valid_utf8(b1 + b2),
        decode_utf8(b1 + b2) == decode_utf8(b1) + decode_utf8(b2),
    decreases b1.len(),
{
    valid_utf8_concat(b1, b2);
    if b1.len() == 0 {
        assert(b1 + b2 =~= b2);
        assert(decode_utf8(b1) + decode_utf8(b2) =~= decode_utf8(b2));
    } else {
        let rest = pop_first_scalar(b1);
        assert(rest.len() < b1.len());
        lemma_decode_concat(rest, b2);
        assert(pop_first_scalar(b1 + b2) =~= rest + b2);
        assert(decode_first_scalar(b1 + b2) == decode_first_scalar(b1));
        assert(decode_utf8(b1 + b2) =~= decode_utf8(b1) + decode_utf8(b2));
    }
}

/// Encoding distributes over concatenation.
pub proof fn lemma_encode_concat(a: Seq<char>, b: Seq<char>)
    ensures
        encode_utf8(a + b) == encode_utf8(a) + encode_utf8(b),
{
    encode_utf8_valid_utf8(a);
    encode_utf8_valid_utf8(b);
    encode_utf8_decode_utf8(a);
    encode_utf8_decode_utf8(b);
    lemma_decode_concat(encode_utf8(a), encode_utf8(b));
    decode_utf8_encode_utf8(encode_utf8(a) + encode_utf8(b));
}

/// Two texts with the same encoding are the same text.
pub proof fn lemma_encode_injective(a: Seq<char>, b: Seq<char>)
    requires
        encode_utf8(a) == encode_utf8(b),
    ensures
        a == b,
{
    encode_utf8_decode_utf8(a);
    encode_utf8_decode_utf8(b);
}

/// Cutting a text at a codepoint boundary and joining the two parts gives
/// the text back, and each part encodes to its share of the bytes.
pub proof fn lemma_split_at_boundary(text: Seq<char>, offset: int)
    requires
        is_codepoint_boundary(text, offset),
        0 <= offset <= text_len(text),
    ensures
        prefix(text, offset) + suffix(text, offset) == text,
        encode_utf8(prefix(text, offset)) == encode_utf8(text).subrange(0, offset),
        encode_utf8(suffix(text, offset)) == encode_utf8(text).subrange(
            offset,
            text_len(text) as int,
        ),
        text_len(prefix(text, offset)) == offset,
        text_len(suffix(text, offset)) == text_len(text) - offset,
{
    let bytes = encode_utf8(text);
    encode_utf8_valid_utf8(text);
    encode_utf8_decode_utf8(text);
    valid_utf8_split(bytes, offset);
    decode_utf8_split(bytes, offset);
    decode_utf8_encode_utf8(bytes.subrange(0, offset));
    decode_utf8_encode_utf8(bytes.subrange(offset, bytes.len() as int));
}

/// The encoding of a replacement is the bytes before the range, the new
/// text's bytes, and the bytes after the range.
pub proof fn lemma_replaced_bytes(text: Seq<char>, start: int, end: int, new: Seq<char>)
    requires
        is_codepoint_range(text, start, end),
    ensures
        encode_utf8(replaced(text, start, end, new)) == encode_utf8(text).subrange(0, start)
            + encode_utf8(new) + encode_utf8(text).subrange(end, text_len(text) as int),
        text_len(replaced(text, start, end, new)) == text_len(text) - (end - start) + text_len(
            new,
        ),
{
    lemma_split_at_boundary(text, start);
    lemma_split_at_boundary(text, end);
    lemma_encode_concat(prefix(text, start), new);
    lemma_encode_concat(prefix(text, start) + new, suffix(text, end));
}

/// The length of `text` in bytes.
pub fn len(text: &String) -> (n: usize)
    ensures
        n == text_len(text@),
{
    text.as_str().as_bytes().len()
}

/// Whether the bytes `start..end` of `text` can be replaced by `new`: the
/// range is made of whole characters, and the result is no longer than
/// `isize::MAX` bytes, the most that a `String` holds. A result that is no
/// longer than `text` itself always is.
pub open spec fn can_replace(text: Seq<char>, start: int, end: int, new: Seq<char>) -> bool {
    &&& is_codepoint_range(text, start, end)
    &&& (text_len(new) <= end - start || text_len(text) - (end - start) + text_len(new)
        <= isize::MAX)
}

/// `String::replace_range` on the range `start..end`: the bytes before
/// `start` and those from `end` on stay, and the bytes of `new` stand between
/// them. The call panics on a range that is out of bounds or cuts through a
/// character, and where the result would need more than `isize::MAX` bytes,
/// so those are left out.
#[verifier::external_body]
fn replace_range(text: &mut String, start: usize, end: usize, new: &str)
    requires
        can_replace(old(text)@, start as int, end as int, new@),
    ensures
        encode_utf8(final(text)@) == encode_utf8(old(text)@).subrange(0, start as int)
            + encode_utf8(new@) + encode_utf8(old(text)@).subrange(
            end as int,
            text_len(old(text)@) as int,
        ),
{
    text.replace_range(start..end, new);
}

/// Replaces the bytes `range` of `text` by `new`.
pub fn edit(text: &mut String, range: core::ops::Range<usize>, new: &str)
    requires
        can_replace(old(text)@, range.start as int, range.end as int, new@),
    ensures
        final(text)@ == replaced(old(text)@, range.start as int, range.end as int, new@),
        text_len(final(text)@) == text_len(old(text)@) - (range.end - range.start) + text_len(
            new@,
        ),
{
    let ghost before = text@;
    replace_range(text, range.start, range.end, new);
    proof {
        lemma_replaced_bytes(before, range.start as int, range.end as int, new@);
        lemma_encode_injective(
            text@,
            replaced(before, range.start as int, range.end as int, new@),
        );
    }
}

} // verus!
