//! Commands and frames as bytes on the stream.
//!
//! A command ends with an empty line. A frame starts with headers, one to a line
//! and ended by an empty line; if one of them is `Content-Length`, a body of that
//! many bytes follows.

use crate::error::EslError;
use crate::event::{Event, Value, get_text};
use crate::outside::utf8_text;
use crate::string_map::StringMap;
use crate::text::trim;
use vstd::prelude::*;
use vstd::slice::{slice_subrange, slice_to_vec};
use vstd::string::*;

verus! {

use crate::error::ErrorView;
use crate::event::{EventView, Fields, ValueView, text_at, view_fields};
use crate::text::trimmed;
use vstd::utf8::{decode_utf8, valid_utf8};

/// The line feed.
pub const NEWLINE: u8 = 10;

/// How many line feeds `bytes` starts with.
pub open spec fn leading_newlines(bytes: Seq<u8>) -> nat
    decreases bytes.len(),
{
    if bytes.len() > 0 && bytes[0] == NEWLINE {
        1 + leading_newlines(bytes.skip(1))
    } else {
        0
    }
}

/// How many bytes stand before the first two line feeds in a row.
pub open spec fn block_len(bytes: Seq<u8>) -> Option<nat>
    decreases bytes.len(),
{
    if bytes.len() < 2 {
        None
    } else if bytes[0] == NEWLINE && bytes[1] == NEWLINE {
        Some(0)
    } else {
        match block_len(bytes.skip(1)) {
            Some(n) => Some(n + 1),
            None => None,
        }
    }
}

/// How many characters stand before the first `mark`.
pub open spec fn len_before(text: Seq<char>, mark: char) -> nat
    decreases text.len(),
{
    if text.len() == 0 || text[0] == mark {
        0
    } else {
        1 + len_before(text.skip(1), mark)
    }
}

/// The headers when `line` comes after the lines that gave `headers`: what stands
/// before the first colon names the header, and what stands after it, without the
/// white space around it, is the header. A line without a colon is no header.
pub open spec fn with_line(headers: Fields, line: Seq<char>) -> Fields {
    let colon = len_before(line, ':') as int;
    if colon < line.len() {
        headers.insert(line.take(colon), ValueView::Text(trimmed(line.skip(colon + 1))))
    } else {
        headers
    }
}

/// The headers when the lines of `text` come after the lines that gave `headers`.
pub open spec fn with_lines(headers: Fields, text: Seq<char>) -> Fields
    decreases text.len(),
{
    let end = len_before(text, '\n') as int;
    if end < text.len() {
        with_lines(with_line(headers, text.take(end)), text.skip(end + 1))
    } else {
        with_line(headers, text)
    }
}

/// The number that a text of decimal digits spells, with `high` in front.
pub open spec fn decimal_after(high: nat, digits: Seq<char>) -> Option<nat>
    decreases digits.len(),
{
    if digits.len() == 0 {
        Some(high)
    } else if '0' <= digits[0] <= '9' {
        decimal_after(high * 10 + (digits[0] as u32 - '0' as u32) as nat, digits.skip(1))
    } else {
        None
    }
}

/// The number that a text of decimal digits spells.
pub open spec fn decimal(digits: Seq<char>) -> Option<nat> {
    if digits.len() == 0 {
        None
    } else {
        decimal_after(0, digits)
    }
}

/// The first frame of a stream.
pub enum Decoded {
    /// The frame is not complete yet.
    Incomplete,
    /// The frame, and how many bytes it takes up.
    Frame(EventView, nat),
    /// The bytes are not a frame.
    Invalid(ErrorView),
}

/// The first frame of the stream `bytes`, whose headers end before `rest`, which
/// is where the body starts.
pub open spec fn decoded_body(headers: Fields, bytes: Seq<u8>, rest: nat) -> Decoded {
    match text_at(headers, "Content-Length"@) {
        None => Decoded::Frame(EventView { headers, body: None }, rest),
        Some(digits) => match decimal(digits) {
            None => Decoded::Invalid(ErrorView::InternalError("Content-Length is not a number"@)),
            Some(length) => if rest + length > bytes.len() {
                Decoded::Incomplete
            } else {
                let body = bytes.subrange(rest as int, (rest + length) as int);
                if valid_utf8(body) {
                    Decoded::Frame(
                        EventView { headers, body: Some(decode_utf8(body)) },
                        rest + length,
                    )
                } else {
                    Decoded::Invalid(ErrorView::InternalError("A frame is not UTF-8"@))
                }
            },
        },
    }
}

/// The first frame of the stream `bytes`. Empty lines in front of it belong to it.
pub open spec fn decoded(bytes: Seq<u8>) -> Decoded {
    let start = leading_newlines(bytes);
    match block_len(bytes.skip(start as int)) {
        None => Decoded::Incomplete,
        Some(length) => {
            let head = bytes.subrange(start as int, (start + length) as int);
            if valid_utf8(head) {
                decoded_body(
                    with_lines(Map::empty(), decode_utf8(head)),
                    bytes,
                    start + length + 2,
                )
            } else {
                Decoded::Invalid(ErrorView::InternalError("A frame is not UTF-8"@))
            }
        },
    }
}

/// The view of a decoded frame.
pub open spec fn view_decoded(result: Result<Option<(Event, usize)>, EslError>) -> Decoded {
    match result {
        Ok(None) => Decoded::Incomplete,
        Ok(Some((event, length))) => Decoded::Frame(event@, length as nat),
        Err(error) => Decoded::Invalid(error@),
    }
}

/// A command as it stands on the stream.
pub fn encode(item: &[u8]) -> (bytes: Vec<u8>)
    ensures
        bytes@ == item@ + seq![NEWLINE, NEWLINE],
{
    let mut bytes: Vec<u8> = slice_to_vec(item);
    bytes.push(NEWLINE);
    bytes.push(NEWLINE);
    assert(bytes@ =~= item@ + seq![NEWLINE, NEWLINE]);
    bytes
}

/// How many characters stand before the first `mark`.
fn find_char(text: &str, mark: char) -> (length: usize)
    ensures
        length == len_before(text@, mark),
        length <= text@.len(),
{
    let mut length: usize = 0;
    let total: usize = text.unicode_len();
    assert(text@.skip(0) =~= text@);
    for c in iter: text.chars()
        invariant
            iter.seq() == text@,
            length == iter.index(),
            total == text@.len(),
            len_before(text@, mark) == length + len_before(text@.skip(length as int), mark),
    {
        assert(text@.skip(length as int).skip(1) =~= text@.skip(length + 1));
        if c == mark {
            return length;
        }
        length += 1;
    }
    assert(text@.skip(length as int) =~= Seq::empty());
    length
}

/// Adds the header that a line gives.
fn add_line(headers: &mut StringMap<Value>, line: &str)
    ensures
        view_fields(*final(headers)) == with_line(view_fields(*old(headers)), line@),
{
    let colon: usize = find_char(line, ':');
    let length: usize = line.unicode_len();
    let ghost before = view_fields(*headers);
    if colon < length {
        let name: String = line.substring_char(0, colon).to_owned();
        let value: String = trim(line.substring_char(colon + 1, length)).to_owned();
        proof {
            assert(line@.subrange(0, colon as int) =~= line@.take(colon as int));
            assert(line@.subrange(colon + 1, length as int) =~= line@.skip(colon + 1));
        }
        headers.insert(name, Value::String(value));
        assert(view_fields(*headers) =~= with_line(before, line@));
    }
}

/// Reads headers, one to a line.
fn parse_headers(text: &str) -> (headers: StringMap<Value>)
    ensures
        view_fields(headers) == with_lines(Map::empty(), text@),
{
    let mut headers: StringMap<Value> = StringMap::new();
    let mut rest: &str = text;
    assert(view_fields(headers) =~= Map::empty());
    loop
        invariant
            with_lines(view_fields(headers), rest@) == with_lines(Map::empty(), text@),
        decreases rest@.len(),
    {
        let end: usize = find_char(rest, '\n');
        let length: usize = rest.unicode_len();
        if end < length {
            let line: &str = rest.substring_char(0, end);
            add_line(&mut headers, line);
            proof {
                assert(line@ =~= rest@.take(end as int));
                assert(rest@.subrange(end + 1, length as int) =~= rest@.skip(end + 1));
            }
            rest = rest.substring_char(end + 1, length);
        } else {
            add_line(&mut headers, rest);
            return headers;
        }
    }
}

/// The number that a text of decimal digits spells: `None` when it spells none,
/// and `Some(None)` when the number is too large.
fn parse_decimal(digits: &str) -> (number: Option<Option<usize>>)
    ensures
        match number {
            Some(Some(n)) => decimal(digits@) == Some(n as nat),
            Some(None) => decimal(digits@) matches Some(n) && n > usize::MAX,
            None => decimal(digits@) is None,
        },
{
    let mut number: Option<usize> = Some(0);
    let ghost mut high: nat = 0;
    let ghost mut i: int = 0;
    if digits.is_empty() {
        return None;
    }
    assert(digits@.skip(0) =~= digits@);
    for c in iter: digits.chars()
        invariant
            iter.seq() == digits@,
            i == iter.index(),
            decimal(digits@) == decimal_after(high, digits@.skip(i)),
            match number {
                Some(n) => high == n,
                None => high > usize::MAX,
            },
    {
        if c < '0' || c > '9' {
            return None;
        }
        let digit: usize = (c as u32 - '0' as u32) as usize;
        number = match number {
            Some(n) => match n.checked_mul(10) {
                Some(tens) => tens.checked_add(digit),
                None => None,
            },
            None => None,
        };
        proof {
            assert(digits@.skip(i).skip(1) =~= digits@.skip(i + 1));
            high = high * 10 + (c as u32 - '0' as u32) as nat;
            i = i + 1;
        }
    }
    assert(digits@.skip(i) =~= Seq::empty());
    Some(number)
}

/// How many line feeds `bytes` starts with.
fn count_leading_newlines(bytes: &[u8]) -> (count: usize)
    ensures
        count == leading_newlines(bytes@),
        count <= bytes@.len(),
{
    let mut count: usize = 0;
    assert(bytes@.skip(0) =~= bytes@);
    while count < bytes.len() && bytes[count] == NEWLINE
        invariant
            count <= bytes@.len(),
            leading_newlines(bytes@) == count + leading_newlines(bytes@.skip(count as int)),
        decreases bytes@.len() - count,
    {
        assert(bytes@.skip(count as int).skip(1) =~= bytes@.skip(count + 1));
        count += 1;
    }
    count
}

/// Where the first two line feeds in a row stand, from `start` on.
fn find_empty_line(bytes: &[u8], start: usize) -> (found: Option<usize>)
    requires
        start <= bytes@.len(),
    ensures
        match found {
            Some(i) => start <= i && i + 2 <= bytes@.len() && block_len(
                bytes@.skip(start as int),
            ) == Some((i - start) as nat),
            None => block_len(bytes@.skip(start as int)) is None,
        },
{
    let mut i: usize = start;
    while bytes.len() - i > 1
        invariant
            start <= i,
            i <= bytes@.len(),
            block_len(bytes@.skip(start as int)) == match block_len(bytes@.skip(i as int)) {
                Some(n) => Some((n + i - start) as nat),
                None => None,
            },
        decreases bytes@.len() - i,
    {
        if bytes[i] == NEWLINE && bytes[i + 1] == NEWLINE {
            return Some(i);
        }
        assert(bytes@.skip(i as int).skip(1) =~= bytes@.skip(i + 1));
        i += 1;
    }
    None
}

/// Takes the first frame off a stream: gives the frame and how many bytes it
/// takes up, or nothing when the frame is not complete yet.
pub fn decode(bytes: &[u8]) -> (result: Result<Option<(Event, usize)>, EslError>)
    ensures
        view_decoded(result) == decoded(bytes@),
{
    let total: usize = bytes.len();
    let start: usize = count_leading_newlines(bytes);
    let end: usize = match find_empty_line(bytes, start) {
        Some(end) => end,
        None => {
            return Ok(None);
        },
    };
    let headers: StringMap<Value> = match utf8_text(slice_subrange(bytes, start, end)) {
        Some(head) => parse_headers(head.as_str()),
        None => {
            return Err(EslError::InternalError("A frame is not UTF-8".to_owned()));
        },
    };
    let rest: usize = end + 2;
    let length: usize = match get_text(&headers, "Content-Length") {
        Some(digits) => match parse_decimal(digits) {
            Some(Some(length)) => length,
            Some(None) => {
                return Ok(None);
            },
            None => {
                return Err(
                    EslError::InternalError("Content-Length is not a number".to_owned()),
                );
            },
        },
        None => {
            return Ok(Some((Event { headers, body: None }, rest)));
        },
    };
    if length > total - rest {
        return Ok(None);
    }
    match utf8_text(slice_subrange(bytes, rest, rest + length)) {
        Some(body) => Ok(Some((Event { headers, body: Some(body) }, rest + length))),
        None => Err(EslError::InternalError("A frame is not UTF-8".to_owned())),
    }
}

/// Later bytes change neither where the headers end nor what stands before.
proof fn lemma_block_len_extends(bytes: Seq<u8>, more: Seq<u8>)
    requires
        block_len(bytes) is Some,
    ensures
        block_len(bytes + more) == block_len(bytes),
        block_len(bytes)->0 + 2 <= bytes.len(),
    decreases bytes.len(),
{
    if !(bytes[0] == NEWLINE && bytes[1] == NEWLINE) {
        lemma_block_len_extends(bytes.skip(1), more);
        assert((bytes + more).skip(1) =~= bytes.skip(1) + more);
    }
}

/// Line feeds in front are counted up to the first other byte.
proof fn lemma_leading_newlines_extends(bytes: Seq<u8>, more: Seq<u8>)
    ensures
        leading_newlines(bytes) <= bytes.len(),
        leading_newlines(bytes) < bytes.len() ==> leading_newlines(bytes + more)
            == leading_newlines(bytes),
    decreases bytes.len(),
{
    if bytes.len() > 0 && bytes[0] == NEWLINE {
        lemma_leading_newlines_extends(bytes.skip(1), more);
        assert((bytes + more).skip(1) =~= bytes.skip(1) + more);
    }
}

/// A frame that is complete does not depend on what comes after it, and takes up
/// at least one and at most all of the bytes.
pub proof fn law_complete_frame_is_final(bytes: Seq<u8>, more: Seq<u8>)
    requires
        !(decoded(bytes) is Incomplete),
    ensures
        decoded(bytes + more) == decoded(bytes),
        decoded(bytes) matches Decoded::Frame(_, length) ==> 0 < length <= bytes.len(),
{
    let all = bytes + more;
    let start = leading_newlines(bytes) as int;
    lemma_leading_newlines_extends(bytes, more);
    lemma_block_len_extends(bytes.skip(start), more);
    assert(all.skip(start) =~= bytes.skip(start) + more);
    let length = block_len(bytes.skip(start))->0 as int;
    let head = bytes.subrange(start, start + length);
    assert(all.subrange(start, start + length) =~= head);
    let rest = start + length + 2;
    let headers = with_lines(Map::empty(), decode_utf8(head));
    if valid_utf8(head) {
        match text_at(headers, "Content-Length"@) {
            Some(digits) => match decimal(digits) {
                Some(size) => {
                    assert(all.subrange(rest, rest + size) =~= bytes.subrange(rest, rest + size));
                },
                None => {},
            },
            None => {},
        }
    }
}

} // verus!
