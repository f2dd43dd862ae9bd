//! Words and white space.

use vstd::prelude::*;
use vstd::string::*;
use vstd::utf8::{
    encode_scalar, encode_utf8, encode_utf8_first_scalar, encode_utf8_valid_utf8,
    has_width_1_encoding, is_char_boundary, length_of_first_scalar, pop_first_scalar,
};

verus! {

/// Whether `c` has the Unicode property `White_Space`.
pub open spec fn is_white_space(c: char) -> bool {
    let code = c as u32;
    ||| 0x09 <= code <= 0x0d
    ||| code == 0x20
    ||| code == 0x85
    ||| code == 0xa0
    ||| code == 0x1680
    ||| 0x2000 <= code <= 0x200a
    ||| code == 0x2028
    ||| code == 0x2029
    ||| code == 0x202f
    ||| code == 0x205f
    ||| code == 0x3000
}

/// How many characters `text` has before its first white space.
pub open spec fn word_len(text: Seq<char>) -> nat
    decreases text.len(),
{
    if text.len() == 0 || is_white_space(text[0]) {
        0
    } else {
        1 + word_len(text.skip(1))
    }
}

/// `text` without the white space around it.
pub open spec fn trimmed(text: Seq<char>) -> Seq<char>
    decreases text.len(),
{
    if text.len() == 0 {
        text
    } else if is_white_space(text[0]) {
        trimmed(text.skip(1))
    } else if is_white_space(text.last()) {
        trimmed(text.drop_last())
    } else {
        text
    }
}

/// Whether `c` takes up one byte in UTF-8.
pub open spec fn is_one_byte(c: char) -> bool {
    has_width_1_encoding(c as u32)
}

/// Whether `c` has the Unicode property `White_Space`.
pub fn is_whitespace(c: char) -> (found: bool)
    ensures
        found == is_white_space(c),
{
    let code: u32 = c as u32;
    (0x09 <= code && code <= 0x0d) || code == 0x20 || code == 0x85 || code == 0xa0 || code
        == 0x1680 || (0x2000 <= code && code <= 0x200a) || code == 0x2028 || code == 0x2029 || code
        == 0x202f || code == 0x205f || code == 0x3000
}

/// Whether `c` takes up one byte in UTF-8.
pub fn is_one_byte_char(c: char) -> (found: bool)
    ensures
        found == is_one_byte(c),
{
    (c as u32) < 0x80
}

/// How many characters `text` has before its first white space.
pub fn first_word_len(text: &str) -> (length: usize)
    ensures
        length == word_len(text@),
        length <= text@.len(),
{
    let mut length: usize = 0;
    let total: usize = text.unicode_len();
    assert(text@.skip(0) =~= text@);
    for c in iter: text.chars()
        invariant
            iter.seq() == text@,
            length == iter.index(),
            total == text@.len(),
            word_len(text@) == length + word_len(text@.skip(length as int)),
    {
        assert(text@.skip(length as int).skip(1) =~= text@.skip(length + 1));
        if is_whitespace(c) {
            return length;
        }
        length += 1;
    }
    assert(text@.skip(length as int) =~= Seq::empty());
    length
}

/// `text` without the white space around it.
pub fn trim(text: &str) -> (inner: &str)
    ensures
        inner@ == trimmed(text@),
{
    let mut start: usize = 0;
    let mut end: usize = text.unicode_len();
    assert(text@.subrange(0, end as int) =~= text@);
    while start < end && is_whitespace(text.get_char(start))
        invariant
            start <= end,
            end == text@.len(),
            trimmed(text@) == trimmed(text@.subrange(start as int, end as int)),
        decreases end - start,
    {
        assert(text@.subrange(start as int, end as int).skip(1) =~= text@.subrange(
            start + 1,
            end as int,
        ));
        start += 1;
    }
    while start < end && is_whitespace(text.get_char(end - 1))
        invariant
            start <= end <= text@.len(),
            start < end ==> !is_white_space(text@[start as int]),
            trimmed(text@) == trimmed(text@.subrange(start as int, end as int)),
        decreases end - start,
    {
        assert(text@.subrange(start as int, end as int).drop_last() =~= text@.subrange(
            start as int,
            end - 1,
        ));
        end -= 1;
    }
    text.substring_char(start, end)
}

/// The first white space is where the first word ends.
pub proof fn lemma_word_len(text: Seq<char>, i: int)
    requires
        0 <= i < text.len(),
        is_white_space(text[i]),
        forall|j: int| 0 <= j < i ==> !is_white_space(#[trigger] text[j]),
    ensures
        word_len(text) == i,
    decreases i,
{
    if i > 0 {
        assert(!is_white_space(text[0]));
        let rest = text.skip(1);
        assert forall|j: int| 0 <= j < i - 1 implies !is_white_space(#[trigger] rest[j]) by {
            assert(rest[j] == text[j + 1]);
        }
        lemma_word_len(rest, i - 1);
    }
}

/// The first word lies within the text and is followed by white space, if by
/// anything.
pub proof fn lemma_word_end(text: Seq<char>)
    ensures
        word_len(text) <= text.len(),
        word_len(text) < text.len() ==> is_white_space(text[word_len(text) as int]),
        forall|j: int| 0 <= j < word_len(text) ==> !is_white_space(#[trigger] text[j]),
    decreases text.len(),
{
    if text.len() > 0 && !is_white_space(text[0]) {
        let rest = text.skip(1);
        lemma_word_end(rest);
        assert forall|j: int| 0 <= j < word_len(text) implies !is_white_space(
            #[trigger] text[j],
        ) by {
            if j > 0 {
                assert(rest[j - 1] == text[j]);
            }
        }
    }
}

/// Concatenated texts are encoded one after the other.
pub proof fn lemma_encode_concat(a: Seq<char>, b: Seq<char>)
    ensures
        encode_utf8(a + b) == encode_utf8(a) + encode_utf8(b),
    decreases a.len(),
{
    if a.len() == 0 {
        assert(a + b =~= b);
        assert(encode_utf8(a + b) =~= encode_utf8(a) + encode_utf8(b));
    } else {
        lemma_encode_concat(a.drop_first(), b);
        assert((a + b).drop_first() =~= a.drop_first() + b);
        assert(encode_utf8(a + b) =~= encode_utf8(a) + encode_utf8(b));
    }
}

/// A text is encoded character by character, and one byte is enough for the
/// characters below 128 alone.
pub proof fn lemma_encode_first(text: Seq<char>)
    requires
        text.len() > 0,
    ensures
        encode_utf8(text) == encode_scalar(text[0] as u32) + encode_utf8(text.drop_first()),
        encode_scalar(text[0] as u32).len() >= 1,
        encode_scalar(text[0] as u32).len() == 1 <==> is_one_byte(text[0]),
        length_of_first_scalar(encode_utf8(text)) == encode_scalar(text[0] as u32).len(),
        pop_first_scalar(encode_utf8(text)) == encode_utf8(text.drop_first()),
{
    encode_utf8_first_scalar(text);
    encode_utf8_valid_utf8(text);
    assert(pop_first_scalar(encode_utf8(text)) =~= encode_utf8(text.drop_first()));
}

/// Past the first `k` characters, characters begin where they begin in the rest.
pub proof fn lemma_boundary_inside(text: Seq<char>, k: int, offset: int)
    requires
        0 <= k <= text.len(),
        offset >= 0,
    ensures
        is_char_boundary(encode_utf8(text), encode_utf8(text.take(k)).len() + offset)
            == is_char_boundary(encode_utf8(text.skip(k)), offset),
    decreases k,
{
    if k == 0 {
        assert(text.take(0) =~= Seq::empty());
        assert(text.skip(0) =~= text);
    } else {
        let rest = text.drop_first();
        lemma_encode_first(text);
        lemma_encode_first(text.take(k));
        encode_utf8_valid_utf8(text);
        encode_utf8_valid_utf8(rest);
        assert(text.take(k).drop_first() =~= rest.take(k - 1));
        assert(text.skip(k) =~= rest.skip(k - 1));
        lemma_boundary_inside(rest, k - 1, offset);
        let index = encode_utf8(text.take(k)).len() + offset;
        let first = encode_scalar(text[0] as u32).len() as int;
        if encode_utf8(text).len() < index {
            lemma_boundary_in_range(rest, index - first);
        }
    }
}

/// No character begins beyond the end.
proof fn lemma_boundary_in_range(text: Seq<char>, index: int)
    requires
        index > encode_utf8(text).len(),
    ensures
        !is_char_boundary(encode_utf8(text), index),
{
    encode_utf8_valid_utf8(text);
}

/// A second character begins after one byte exactly when the first takes up one
/// byte.
pub proof fn lemma_boundary_after_first(text: Seq<char>)
    requires
        text.len() > 0,
    ensures
        is_char_boundary(encode_utf8(text), 1) <==> is_one_byte(text[0]),
{
    lemma_encode_first(text);
    encode_utf8_valid_utf8(text);
    encode_utf8_valid_utf8(text.drop_first());
    reveal_with_fuel(is_char_boundary, 2);
}

/// A character begins at the last byte exactly when the last character takes up
/// one byte.
pub proof fn lemma_boundary_before_last(text: Seq<char>)
    requires
        text.len() > 0,
    ensures
        is_char_boundary(encode_utf8(text), encode_utf8(text).len() - 1) <==> is_one_byte(
            text.last(),
        ),
{
    let n = text.len() as int;
    let tail = text.skip(n - 1);
    assert(text =~= text.take(n - 1) + tail);
    assert(tail =~= seq![text.last()]);
    lemma_encode_concat(text.take(n - 1), tail);
    lemma_encode_first(tail);
    assert(tail.drop_first() =~= Seq::empty());
    encode_utf8_valid_utf8(tail);
    encode_utf8_valid_utf8(tail.drop_first());
    lemma_boundary_inside(text, n - 1, encode_utf8(tail).len() - 1);
    reveal_with_fuel(is_char_boundary, 2);
}

} // verus!
