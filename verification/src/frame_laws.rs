//! What holds of frames as bytes on the stream.

use crate::answer_laws::law_trimmed;
use crate::codec::{
    Decoded, block_len, decimal, decimal_after, decoded, leading_newlines, len_before, with_line,
    with_lines,
};
use crate::error::ErrorView;
use crate::event::{EventView, Fields, ValueView};
use crate::text::is_white_space;
use vstd::prelude::*;
use vstd::utf8::{
    decode_utf8, encode_scalar, encode_utf8, encode_utf8_decode_utf8, encode_utf8_valid_utf8,
    has_width_1_encoding, has_width_2_encoding, has_width_3_encoding, valid_utf8,
};

verus! {

/// So many line feeds.
pub open spec fn line_feeds(count: nat) -> Seq<u8> {
    Seq::new(count, |i: int| 10u8)
}

/// Whether nowhere in `bytes` do two line feeds follow each other.
pub open spec fn has_no_empty_line(bytes: Seq<u8>) -> bool {
    forall|i: int| 0 <= i < bytes.len() - 1 && #[trigger] bytes[i] == 10 ==> bytes[i + 1] != 10
}

/// Whether `head` can stand in front of the first empty line of a frame: it neither
/// begins nor ends with a line feed, and holds no empty line.
pub open spec fn is_head(head: Seq<u8>) -> bool {
    &&& head.len() > 0
    &&& head[0] != 10
    &&& head.last() != 10
    &&& has_no_empty_line(head)
}

/// A frame as it stands on the stream: empty lines, the head, an empty line, and
/// what follows.
pub open spec fn on_stream(blank: nat, head: Seq<u8>, rest: Seq<u8>) -> Seq<u8> {
    line_feeds(blank) + head + seq![10u8, 10u8] + rest
}

/// Line feeds in front are counted up to the first other byte.
proof fn lemma_leading(blank: nat, tail: Seq<u8>)
    requires
        tail.len() > 0 ==> tail[0] != 10,
    ensures
        leading_newlines(line_feeds(blank) + tail) == blank,
        (line_feeds(blank) + tail).skip(blank as int) == tail,
    decreases blank,
{
    let bytes = line_feeds(blank) + tail;
    assert(bytes.skip(blank as int) =~= tail);
    if blank > 0 {
        lemma_leading((blank - 1) as nat, tail);
        assert(bytes.skip(1) =~= line_feeds((blank - 1) as nat) + tail);
        assert(bytes[0] == 10);
    } else {
        assert(bytes =~= tail);
    }
}

/// Without an empty line there is none to be found.
proof fn lemma_no_block(bytes: Seq<u8>)
    requires
        has_no_empty_line(bytes),
    ensures
        block_len(bytes) is None,
    decreases bytes.len(),
{
    if bytes.len() >= 2 {
        let rest = bytes.skip(1);
        assert forall|i: int| 0 <= i < rest.len() - 1 && #[trigger] rest[i] == 10 implies rest[i
            + 1] != 10 by {
            assert(bytes[i + 1] == 10);
        }
        lemma_no_block(rest);
        assert(!(bytes[0] == 10 && bytes[1] == 10));
    }
}

/// The first empty line is found behind the head.
proof fn lemma_block(head: Seq<u8>, rest: Seq<u8>)
    requires
        head.len() > 0 ==> head.last() != 10,
        has_no_empty_line(head),
    ensures
        block_len(head + seq![10u8, 10u8] + rest) == Some(head.len()),
    decreases head.len(),
{
    let bytes = head + seq![10u8, 10u8] + rest;
    if head.len() > 0 {
        let tail = head.skip(1);
        assert forall|i: int| 0 <= i < tail.len() - 1 && #[trigger] tail[i] == 10 implies tail[i
            + 1] != 10 by {
            assert(head[i + 1] == 10);
        }
        lemma_block(tail, rest);
        assert(bytes.skip(1) =~= tail + seq![10u8, 10u8] + rest);
        if head.len() > 1 {
            assert(!(head[0] == 10 && head[1] == 10));
            assert(bytes[1] == head[1]);
        }
        assert(bytes[0] == head[0]);
    }
}

/// Where the head of a frame is found on the stream.
proof fn lemma_on_stream(blank: nat, head: Seq<u8>, rest: Seq<u8>)
    requires
        is_head(head),
    ensures
        ({
            let bytes = on_stream(blank, head, rest);
            let start = blank as int;
            let after = start + head.len() + 2;
            &&& leading_newlines(bytes) == blank
            &&& block_len(bytes.skip(start)) == Some(head.len())
            &&& bytes.subrange(start, start + head.len()) == head
            &&& bytes.len() == after + rest.len()
            &&& bytes.skip(after) == rest
        }),
{
    let bytes = on_stream(blank, head, rest);
    let start = blank as int;
    let tail = head + seq![10u8, 10u8] + rest;
    assert(bytes =~= line_feeds(blank) + tail);
    assert(tail[0] == head[0]);
    lemma_leading(blank, tail);
    lemma_block(head, rest);
    assert(bytes.subrange(start, start + head.len()) =~= head);
    assert(bytes.skip(start + head.len() + 2) =~= rest);
}

/// As long as no empty line has come behind the first other byte, a frame is not
/// complete.
pub proof fn law_frame_needs_an_empty_line(blank: nat, tail: Seq<u8>)
    requires
        tail.len() > 0 ==> tail[0] != 10,
        has_no_empty_line(tail),
    ensures
        decoded(line_feeds(blank) + tail) is Incomplete,
{
    lemma_leading(blank, tail);
    lemma_no_block(tail);
}

/// Empty lines in front of a frame are skipped, and a head that is not UTF-8 makes
/// no frame.
pub proof fn law_head_is_utf8(blank: nat, head: Seq<u8>, rest: Seq<u8>)
    requires
        is_head(head),
        !valid_utf8(head),
    ensures
        decoded(on_stream(blank, head, rest)) == Decoded::Invalid(
            ErrorView::InternalError("A frame is not UTF-8"@),
        ),
{
    lemma_on_stream(blank, head, rest);
}

/// A frame without `Content-Length` ends with the empty line, and has no body.
pub proof fn law_frame_without_body(blank: nat, head: Seq<char>, rest: Seq<u8>)
    requires
        is_head(encode_utf8(head)),
        !with_lines(Map::empty(), head).contains_key("Content-Length"@),
    ensures
        decoded(on_stream(blank, encode_utf8(head), rest)) == Decoded::Frame(
            (EventView { headers: with_lines(Map::empty(), head), body: None }),
            blank + encode_utf8(head).len() + 2,
        ),
{
    lemma_on_stream(blank, encode_utf8(head), rest);
    encode_utf8_valid_utf8(head);
    encode_utf8_decode_utf8(head);
}

/// A frame with `Content-Length` has a body of so many bytes, all of which belong
/// to it, and none that follow; until they have all come, the frame is not
/// complete. A length that is no number, or a body that is not UTF-8, makes no
/// frame.
pub proof fn law_frame_with_body(
    blank: nat,
    head: Seq<char>,
    digits: Seq<char>,
    length: nat,
    body: Seq<u8>,
    rest: Seq<u8>,
)
    requires
        is_head(encode_utf8(head)),
        with_lines(Map::empty(), head).contains_pair(
            "Content-Length"@,
            ValueView::Text(digits),
        ),
    ensures
        decimal(digits) is None ==> decoded(on_stream(blank, encode_utf8(head), rest))
            == Decoded::Invalid(ErrorView::InternalError("Content-Length is not a number"@)),
        decimal(digits) == Some(length) && rest.len() < length ==> decoded(
            on_stream(blank, encode_utf8(head), rest),
        ) is Incomplete,
        decimal(digits) == Some(length) && body.len() == length && valid_utf8(body) ==> decoded(
            on_stream(blank, encode_utf8(head), body + rest),
        ) == Decoded::Frame(
            (EventView {
                headers: with_lines(Map::empty(), head),
                body: Some(decode_utf8(body)),
            }),
            blank + encode_utf8(head).len() + 2 + length,
        ),
        decimal(digits) == Some(length) && body.len() == length && !valid_utf8(body) ==> decoded(
            on_stream(blank, encode_utf8(head), body + rest),
        ) == Decoded::Invalid(ErrorView::InternalError("A frame is not UTF-8"@)),
{
    let bytes = encode_utf8(head);
    let after = blank + bytes.len() + 2;
    lemma_on_stream(blank, bytes, rest);
    lemma_on_stream(blank, bytes, body + rest);
    encode_utf8_valid_utf8(head);
    encode_utf8_decode_utf8(head);
    if body.len() == length {
        let whole = on_stream(blank, bytes, body + rest);
        assert(whole.subrange(after as int, (after + length) as int) =~= whole.skip(
            after as int,
        ).take(length as int));
        assert((body + rest).take(length as int) =~= body);
    }
}

/// What stands before the first mark, when it is known.
proof fn lemma_len_before(before: Seq<char>, mark: char, after: Seq<char>)
    requires
        forall|i: int| 0 <= i < before.len() ==> #[trigger] before[i] != mark,
    ensures
        len_before(before + seq![mark] + after, mark) == before.len(),
        len_before(before, mark) == before.len(),
    decreases before.len(),
{
    let text = before + seq![mark] + after;
    if before.len() > 0 {
        let tail = before.skip(1);
        assert forall|i: int| 0 <= i < tail.len() implies #[trigger] tail[i] != mark by {
            assert(before[i + 1] != mark);
        }
        lemma_len_before(tail, mark, after);
        assert(text.skip(1) =~= tail + seq![mark] + after);
        assert(before[0] != mark);
        assert(text[0] == before[0]);
    }
}

/// Headers stand one to a line, and are read in order.
pub proof fn law_headers_are_lines(headers: Fields, line: Seq<char>, more: Seq<char>)
    requires
        forall|i: int| 0 <= i < line.len() ==> #[trigger] line[i] != '\n',
    ensures
        with_lines(headers, line) == with_line(headers, line),
        with_lines(headers, line + seq!['\n'] + more) == with_lines(
            with_line(headers, line),
            more,
        ),
{
    let n = line.len() as int;
    let text = line + seq!['\n'] + more;
    lemma_len_before(line, '\n', more);
    assert(text.take(n) =~= line);
    assert(text.skip(n + 1) =~= more);
}

/// A line gives one header: its name is all that stands before the first colon, and
/// its value all that stands after it, without the white space around it. A line
/// without a colon gives none.
pub proof fn law_line_is_a_header(
    headers: Fields,
    name: Seq<char>,
    before: Seq<char>,
    value: Seq<char>,
    after: Seq<char>,
)
    requires
        forall|i: int| 0 <= i < name.len() ==> #[trigger] name[i] != ':',
        forall|i: int| 0 <= i < before.len() ==> is_white_space(#[trigger] before[i]),
        forall|i: int| 0 <= i < after.len() ==> is_white_space(#[trigger] after[i]),
        value.len() > 0 ==> !is_white_space(value[0]) && !is_white_space(value.last()),
    ensures
        with_line(headers, name + seq![':'] + (before + value + after)) == headers.insert(
            name,
            ValueView::Text(value),
        ),
        with_line(headers, name) == headers,
{
    let rest = before + value + after;
    let line = name + seq![':'] + rest;
    let n = name.len() as int;
    lemma_len_before(name, ':', rest);
    law_trimmed(before, value, after);
    assert(line.take(n) =~= name);
    assert(line.skip(n + 1) =~= rest);
}

/// One more digit in the last place.
proof fn lemma_decimal_after(high: nat, digits: Seq<char>, c: char)
    ensures
        decimal_after(high, digits + seq![c]) == match decimal_after(high, digits) {
            Some(n) => if '0' <= c <= '9' {
                Some((n * 10 + (c as u32 - '0' as u32)) as nat)
            } else {
                None
            },
            None => None,
        },
    decreases digits.len(),
{
    let all = digits + seq![c];
    if digits.len() == 0 {
        assert(all =~= seq![c]);
        assert(all.skip(1) =~= Seq::empty());
        reveal_with_fuel(decimal_after, 2);
    } else {
        assert(all.skip(1) =~= digits.skip(1) + seq![c]);
        assert(all[0] == digits[0]);
        if '0' <= digits[0] <= '9' {
            let next = (high * 10 + (digits[0] as u32 - '0' as u32) as nat) as nat;
            lemma_decimal_after(next, digits.skip(1), c);
        }
    }
}

/// A number is spelt by decimal digits, the last one being worth itself and the
/// ones before it ten times what they spell; anything else spells no number.
pub proof fn law_decimal(digits: Seq<char>, c: char)
    ensures
        decimal(Seq::empty()) is None,
        '0' <= c <= '9' ==> decimal(seq![c]) == Some((c as u32 - '0' as u32) as nat),
        !('0' <= c <= '9') ==> decimal(digits + seq![c]) is None,
        digits.len() > 0 && decimal(digits) is None ==> decimal(digits + seq![c]) is None,
        '0' <= c <= '9' ==> (decimal(digits) matches Some(n) ==> decimal(digits + seq![c]) == Some(
            (n * 10 + (c as u32 - '0' as u32)) as nat,
        )),
{
    lemma_decimal_after(0, digits, c);
    lemma_decimal_after(0, Seq::empty(), c);
    assert(Seq::<char>::empty() + seq![c] =~= seq![c]);
}

/// The line feed is encoded as itself, and its byte stands in no other character.
proof fn lemma_line_feed_byte(c: char)
    ensures
        encode_scalar(c as u32).len() > 0,
        c == '\n' ==> encode_scalar(c as u32) == seq![10u8],
        c != '\n' ==> forall|i: int|
            0 <= i < encode_scalar(c as u32).len() ==> #[trigger] encode_scalar(c as u32)[i] != 10,
{
    let v = c as u32;
    assert(v <= 0x7f ==> (v & 0x7f) as u8 == v) by (bit_vector);
    assert(0xC0u8 | ((v >> 6) & 0x1F) as u8 != 10u8) by (bit_vector);
    assert(0xE0u8 | ((v >> 12) & 0x0F) as u8 != 10u8) by (bit_vector);
    assert(0xF0u8 | ((v >> 18) & 0x7) as u8 != 10u8) by (bit_vector);
    assert(0x80u8 | (v & 0x3F) as u8 != 10u8) by (bit_vector);
    assert(0x80u8 | ((v >> 6) & 0x3F) as u8 != 10u8) by (bit_vector);
    assert(0x80u8 | ((v >> 12) & 0x3F) as u8 != 10u8) by (bit_vector);
    if has_width_1_encoding(v) {
        if c == '\n' {
            assert(encode_scalar(v) =~= seq![10u8]);
        }
    } else if has_width_2_encoding(v) {
    } else if has_width_3_encoding(v) {
    }
}

/// Whether nowhere in `text` do two line feeds follow each other.
pub open spec fn has_no_empty_text_line(text: Seq<char>) -> bool {
    forall|i: int| 0 <= i < text.len() - 1 && #[trigger] text[i] == '\n' ==> text[i + 1] != '\n'
}

/// Encoding keeps line feeds where they are.
proof fn lemma_encoded_lines(text: Seq<char>)
    requires
        has_no_empty_text_line(text),
    ensures
        has_no_empty_line(encode_utf8(text)),
        text.len() > 0 ==> {
            let bytes = encode_utf8(text);
            &&& bytes.len() > 0
            &&& bytes[0] == 10 <==> text[0] == '\n'
            &&& bytes.last() == 10 <==> text.last() == '\n'
        },
    decreases text.len(),
{
    if text.len() > 0 {
        let tail = text.drop_first();
        let first = encode_scalar(text[0] as u32);
        let others = encode_utf8(tail);
        let bytes = encode_utf8(text);
        let n = first.len() as int;
        assert forall|i: int| 0 <= i < tail.len() - 1 && #[trigger] tail[i] == '\n' implies tail[i
            + 1] != '\n' by {
            assert(text[i + 1] == '\n');
        }
        lemma_encoded_lines(tail);
        lemma_line_feed_byte(text[0]);
        assert(bytes == first + others);
        assert(bytes[0] == first[0]);
        if tail.len() > 0 {
            assert(tail[0] == text[1]);
            assert(tail.last() == text.last());
            assert(bytes.last() == others.last());
        } else {
            assert(bytes =~= first);
            assert(bytes.last() == first[n - 1]);
        }
        assert forall|i: int| 0 <= i < bytes.len() - 1 && #[trigger] bytes[i] == 10 implies bytes[i
            + 1] != 10 by {
            if i >= n {
                assert(others[i - n] == 10);
                assert(others[i - n + 1] == bytes[i + 1]);
            } else {
                assert(first[i] == 10);
                assert(text[0] == '\n');
                assert(bytes[i + 1] == others[0]);
            }
        }
    }
}

/// The head of a frame: a line for each header, with its name, a colon, a space and
/// its value.
pub open spec fn head_text(fields: Seq<(Seq<char>, Seq<char>)>) -> Seq<char>
    decreases fields.len(),
{
    if fields.len() == 0 {
        Seq::empty()
    } else if fields.len() == 1 {
        fields[0].0 + seq![':', ' '] + fields[0].1
    } else {
        fields[0].0 + seq![':', ' '] + fields[0].1 + seq!['\n'] + head_text(fields.skip(1))
    }
}

/// The headers that are added to `headers`, a later one in place of an earlier one
/// of the same name.
pub open spec fn with_fields(headers: Fields, fields: Seq<(Seq<char>, Seq<char>)>) -> Fields
    decreases fields.len(),
{
    if fields.len() == 0 {
        headers
    } else {
        with_fields(headers.insert(fields[0].0, ValueView::Text(fields[0].1)), fields.skip(1))
    }
}

/// Whether a name and a value can be those of a header: the name holds no colon,
/// neither holds a line feed, and no white space stands around the value.
pub open spec fn is_field(field: (Seq<char>, Seq<char>)) -> bool {
    &&& forall|i: int| 0 <= i < field.0.len() ==> #[trigger] field.0[i] != ':' && field.0[i] != '\n'
    &&& forall|i: int| 0 <= i < field.1.len() ==> #[trigger] field.1[i] != '\n'
    &&& field.1.len() > 0 ==> !is_white_space(field.1[0]) && !is_white_space(field.1.last())
}

/// A head is read back as the headers that it was made of.
proof fn lemma_head_is_read(headers: Fields, fields: Seq<(Seq<char>, Seq<char>)>)
    requires
        fields.len() > 0,
        forall|i: int| 0 <= i < fields.len() ==> is_field(#[trigger] fields[i]),
    ensures
        with_lines(headers, head_text(fields)) == with_fields(headers, fields),
        has_no_empty_text_line(head_text(fields)),
        head_text(fields).len() > 0,
        head_text(fields)[0] != '\n',
        head_text(fields).last() != '\n',
    decreases fields.len(),
{
    let (name, value) = fields[0];
    let line = name + seq![':', ' '] + value;
    let next = headers.insert(name, ValueView::Text(value));
    let more = fields.skip(1);
    assert(is_field(fields[0]));
    assert forall|i: int| 0 <= i < line.len() implies #[trigger] line[i] != '\n' by {
        if i < name.len() {
            assert(line[i] == name[i]);
        } else if i >= name.len() + 2 {
            assert(line[i] == value[i - name.len() - 2]);
        }
    }
    law_line_is_a_header(headers, name, seq![' '], value, Seq::empty());
    assert(line =~= name + seq![':'] + (seq![' '] + value + Seq::empty()));
    if fields.len() == 1 {
        law_headers_are_lines(headers, line, Seq::empty());
        assert(more =~= Seq::empty());
        assert(with_fields(next, more) == next);
    } else {
        let rest = head_text(more);
        let text = line + seq!['\n'] + rest;
        assert forall|i: int| 0 <= i < more.len() implies is_field(#[trigger] more[i]) by {
            assert(more[i] == fields[i + 1]);
        }
        law_headers_are_lines(headers, line, rest);
        lemma_head_is_read(next, more);
        assert(head_text(fields) == text);
        assert(text[0] == line[0]);
        assert(text.last() == rest.last());
        let n = line.len() as int;
        assert forall|i: int| 0 <= i < text.len() - 1 && #[trigger] text[i] == '\n' implies text[i
            + 1] != '\n' by {
            if i < n {
                assert(text[i] == line[i]);
            } else if i == n {
                assert(text[i + 1] == rest[0]);
            } else {
                assert(rest[i - n - 1] == '\n');
                assert(text[i + 1] == rest[i - n - 1 + 1]);
            }
        }
    }
}

/// A frame is read back as it was made: with every header, with its whole body if
/// `Content-Length` tells the length of one, and without anything that follows it.
/// It takes up exactly its own bytes and the empty lines in front of it.
pub proof fn law_frame_is_read_back(
    blank: nat,
    fields: Seq<(Seq<char>, Seq<char>)>,
    digits: Seq<char>,
    body: Seq<char>,
    rest: Seq<u8>,
)
    requires
        fields.len() > 0,
        forall|i: int| 0 <= i < fields.len() ==> is_field(#[trigger] fields[i]),
    ensures
        ({
            let headers = with_fields(Map::empty(), fields);
            let head = encode_utf8(head_text(fields));
            &&& !headers.contains_key("Content-Length"@) ==> decoded(on_stream(blank, head, rest))
                == Decoded::Frame(
                (EventView { headers, body: None }),
                on_stream(blank, head, Seq::empty()).len(),
            )
            &&& headers.contains_pair("Content-Length"@, ValueView::Text(digits)) && decimal(digits)
                == Some(encode_utf8(body).len()) ==> decoded(
                on_stream(blank, head, encode_utf8(body) + rest),
            ) == Decoded::Frame(
                (EventView { headers, body: Some(body) }),
                on_stream(blank, head, encode_utf8(body)).len(),
            )
        }),
{
    let text = head_text(fields);
    let head = encode_utf8(text);
    lemma_head_is_read(Map::empty(), fields);
    lemma_encoded_lines(text);
    lemma_on_stream(blank, head, Seq::empty());
    lemma_on_stream(blank, head, encode_utf8(body));
    encode_utf8_valid_utf8(body);
    encode_utf8_decode_utf8(body);
    let headers = with_fields(Map::empty(), fields);
    if !headers.contains_key("Content-Length"@) {
        law_frame_without_body(blank, text, rest);
    }
    if headers.contains_pair("Content-Length"@, ValueView::Text(digits)) {
        law_frame_with_body(
            blank,
            text,
            digits,
            encode_utf8(body).len(),
            encode_utf8(body),
            rest,
        );
    }
}

/// In a part of the stream, line feeds in front are counted as far as it goes.
proof fn lemma_leading_part(bytes: Seq<u8>, n: int)
    requires
        0 <= n <= bytes.len(),
    ensures
        leading_newlines(bytes) <= bytes.len(),
        n <= leading_newlines(bytes) ==> leading_newlines(bytes.take(n)) == n,
        n > leading_newlines(bytes) ==> leading_newlines(bytes.take(n)) == leading_newlines(bytes),
    decreases bytes.len(),
{
    if bytes.len() > 0 && bytes[0] == 10 {
        if n > 0 {
            lemma_leading_part(bytes.skip(1), n - 1);
            assert(bytes.take(n).skip(1) =~= bytes.skip(1).take(n - 1));
            assert(bytes.take(n)[0] == 10);
        } else {
            lemma_leading_part(bytes.skip(1), 0);
        }
    } else if n > 0 {
        assert(bytes.take(n)[0] == bytes[0]);
    }
}

/// In a part of the stream, the first empty line is found exactly if it is there.
proof fn lemma_block_part(bytes: Seq<u8>, n: int)
    requires
        0 <= n <= bytes.len(),
        block_len(bytes) is Some,
    ensures
        block_len(bytes)->0 + 2 <= bytes.len(),
        n >= block_len(bytes)->0 + 2 ==> block_len(bytes.take(n)) == block_len(bytes),
        n < block_len(bytes)->0 + 2 ==> block_len(bytes.take(n)) is None,
    decreases bytes.len(),
{
    if !(bytes[0] == 10 && bytes[1] == 10) {
        if n > 0 {
            lemma_block_part(bytes.skip(1), n - 1);
            assert(bytes.take(n).skip(1) =~= bytes.skip(1).take(n - 1));
        } else {
            lemma_block_part(bytes.skip(1), 0);
        }
    }
}

/// A frame is not complete before its last byte has come.
pub proof fn law_part_of_a_frame_is_incomplete(bytes: Seq<u8>, n: int)
    requires
        0 <= n <= bytes.len(),
        decoded(bytes) matches Decoded::Frame(_, length) && n < length,
    ensures
        decoded(bytes.take(n)) is Incomplete,
{
    let start = leading_newlines(bytes) as int;
    let part = bytes.take(n);
    lemma_leading_part(bytes, n);
    if n <= start {
        assert(part.skip(n) =~= Seq::empty());
    } else {
        lemma_block_part(bytes.skip(start), n - start);
        assert(part.skip(start) =~= bytes.skip(start).take(n - start));
        let length = block_len(bytes.skip(start))->0 as int;
        if n - start >= length + 2 {
            assert(part.subrange(start, start + length) =~= bytes.subrange(start, start + length));
        }
    }
}

} // verus!
