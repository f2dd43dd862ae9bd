//! What holds of values, of words, and of the answers to commands.

use crate::code::{Code, code_of};
use crate::connection::{auth_result, is_auth_reply, job_reading};
use crate::error::ErrorView;
use crate::event::{EventView, Fields, ValueView, text_at, text_of};
use crate::outside::json_object;
use crate::response::{
    api_event_result, api_response, api_result, bgapi_response, is_api_event, is_bgapi_response,
    is_job_answer, is_sliceable, job_result,
};
use crate::string_map::pairs_map;
use crate::text::{is_one_byte, is_white_space, lemma_word_end, lemma_word_len, trimmed, word_len};
use vstd::prelude::*;

verus! {

/// A string is read whole, and nothing else is read as a string.
pub proof fn law_string_is_read_whole(text: Seq<char>, json: Seq<char>)
    ensures
        text_of(ValueView::Text(text)) == Some(text),
        text_of(ValueView::Other(json)) is None,
{
}

/// What is read under a key is the whole string that is stored there, and nothing
/// when something else or nothing is stored there.
pub proof fn law_field_is_read_whole(
    fields: Fields,
    key: Seq<char>,
    text: Seq<char>,
    json: Seq<char>,
)
    ensures
        fields.contains_pair(key, ValueView::Text(text)) ==> text_at(fields, key) == Some(text),
        fields.contains_pair(key, ValueView::Other(json)) ==> text_at(fields, key) is None,
        !fields.contains_key(key) ==> text_at(fields, key) is None,
{
}

/// Of the pairs with the same key the last one counts, and there are no other
/// keys.
pub proof fn law_last_pair_counts<V>(pairs: Seq<(String, V)>)
    ensures
        forall|i: int|
            0 <= i < pairs.len() && (forall|j: int|
                i < j < pairs.len() ==> (#[trigger] pairs[j]).0@ != pairs[i].0@)
                ==> pairs_map(pairs).contains_pair((#[trigger] pairs[i]).0@, pairs[i].1),
        forall|i: int|
            0 <= i < pairs.len() ==> pairs_map(pairs).contains_key((#[trigger] pairs[i]).0@),
        forall|key: Seq<char>| #[trigger]
            pairs_map(pairs).contains_key(key) ==> exists|i: int|
                0 <= i < pairs.len() && (#[trigger] pairs[i]).0@ == key,
    decreases pairs.len(),
{
    if pairs.len() > 0 {
        let init = pairs.drop_last();
        let n = init.len() as int;
        law_last_pair_counts(init);
        assert forall|i: int|
            0 <= i < pairs.len() && (forall|j: int|
                i < j < pairs.len() ==> (#[trigger] pairs[j]).0@
                    != pairs[i].0@) implies pairs_map(pairs).contains_pair(
            (#[trigger] pairs[i]).0@,
            pairs[i].1,
        ) by {
            if i < n {
                assert(init[i] == pairs[i]);
                assert(pairs[n].0@ != pairs[i].0@);
                assert forall|j: int| i < j < init.len() implies (#[trigger] init[j]).0@
                    != init[i].0@ by {
                    assert(pairs[j].0@ != pairs[i].0@);
                }
            }
        }
        assert forall|i: int| 0 <= i < pairs.len() implies pairs_map(pairs).contains_key(
            (#[trigger] pairs[i]).0@,
        ) by {
            if i < n {
                assert(init[i] == pairs[i]);
            }
        }
        assert forall|key: Seq<char>| #[trigger] pairs_map(pairs).contains_key(key) implies exists|
            i: int,
        | 0 <= i < pairs.len() && (#[trigger] pairs[i]).0@ == key by {
            if key == pairs[n].0@ {
            } else {
                assert(pairs_map(init).contains_key(key));
                let i = choose|i: int| 0 <= i < init.len() && (#[trigger] init[i]).0@ == key;
                assert(pairs[i].0@ == key);
            }
        }
    }
}

/// White space are the blanks, tabulators, and ends of lines and paragraphs of
/// Unicode, and nothing else.
pub proof fn law_white_space(c: char)
    ensures
        is_white_space(c) <==> {
            ||| c == '\t'
            ||| c == '\n'
            ||| c == '\u{b}'
            ||| c == '\u{c}'
            ||| c == '\r'
            ||| c == ' '
            ||| c == '\u{85}'
            ||| c == '\u{a0}'
            ||| c == '\u{1680}'
            ||| '\u{2000}' <= c <= '\u{200a}'
            ||| c == '\u{2028}'
            ||| c == '\u{2029}'
            ||| c == '\u{202f}'
            ||| c == '\u{205f}'
            ||| c == '\u{3000}'
        },
{
}

/// One byte is enough for the characters of ASCII alone.
pub proof fn law_one_byte(c: char)
    ensures
        is_one_byte(c) <==> c <= '\u{7f}',
{
}

/// The first word of a text is what stands before its first white space.
pub proof fn law_first_word(word: Seq<char>, rest: Seq<char>)
    requires
        forall|i: int| 0 <= i < word.len() ==> !is_white_space(#[trigger] word[i]),
        rest.len() > 0 ==> is_white_space(rest[0]),
    ensures
        word_len(word + rest) == word.len(),
{
    let text = word + rest;
    let n = word.len() as int;
    if rest.len() > 0 {
        lemma_word_len(text, n);
    } else {
        lemma_word_end(text);
        if word_len(text) < text.len() {
            assert(!is_white_space(word[word_len(text) as int]));
        }
    }
}

/// Trimming takes off all white space around a text, and nothing else.
pub proof fn law_trimmed(before: Seq<char>, inner: Seq<char>, after: Seq<char>)
    requires
        forall|i: int| 0 <= i < before.len() ==> is_white_space(#[trigger] before[i]),
        forall|i: int| 0 <= i < after.len() ==> is_white_space(#[trigger] after[i]),
        inner.len() > 0 ==> !is_white_space(inner[0]) && !is_white_space(inner.last()),
    ensures
        trimmed(before + inner + after) == inner,
    decreases before.len() + after.len(),
{
    let text = before + inner + after;
    if before.len() > 0 {
        assert(is_white_space(before[0]));
        assert(text.skip(1) =~= before.skip(1) + inner + after);
        assert forall|i: int| 0 <= i < before.skip(1).len() implies is_white_space(
            #[trigger] before.skip(1)[i],
        ) by {
            assert(is_white_space(before[i + 1]));
        }
        law_trimmed(before.skip(1), inner, after);
    } else if after.len() > 0 && inner.len() > 0 {
        assert(is_white_space(after[after.len() - 1]));
        assert(text.last() == after.last());
        assert(text[0] == inner[0]);
        assert(text.drop_last() =~= before + inner + after.drop_last());
        assert forall|i: int| 0 <= i < after.drop_last().len() implies is_white_space(
            #[trigger] after.drop_last()[i],
        ) by {
            assert(is_white_space(after[i]));
        }
        law_trimmed(before, inner, after.drop_last());
    } else if after.len() > 0 {
        assert(is_white_space(after[0]));
        assert(text[0] == after[0]);
        assert(text.skip(1) =~= before + inner + after.skip(1));
        assert forall|i: int| 0 <= i < after.skip(1).len() implies is_white_space(
            #[trigger] after.skip(1)[i],
        ) by {
            assert(is_white_space(after[i + 1]));
        }
        law_trimmed(before, inner, after.skip(1));
    } else {
        assert(text =~= inner);
    }
}

/// `+OK` says success, `-ERR` says failure, and no other word says anything.
pub proof fn law_codes(word: Seq<char>)
    ensures
        code_of(word) == Code::Success <==> word == seq!['+', 'O', 'K'],
        code_of(word) == Code::Failure <==> word == seq!['-', 'E', 'R', 'R'],
        code_of(word) == Code::Unknown <==> word != seq!['+', 'O', 'K'] && word != seq![
            '-',
            'E',
            'R',
            'R',
        ],
{
    reveal_strlit("+OK");
    reveal_strlit("-ERR");
    assert("+OK"@ =~= seq!['+', 'O', 'K']);
    assert("-ERR"@ =~= seq!['-', 'E', 'R', 'R']);
    assert(seq!['+', 'O', 'K'].len() != seq!['-', 'E', 'R', 'R'].len());
}

/// An answer is a word, a white space, a text of any length, and one more
/// character: it is split into what the word says and the whole text.
pub proof fn law_answer_is_split(word: Seq<char>, space: char, text: Seq<char>, last: char)
    requires
        forall|i: int| 0 <= i < word.len() ==> !is_white_space(#[trigger] word[i]),
        is_white_space(space),
    ensures
        api_response(word + seq![space] + text + seq![last]) == Ok::<(Code, Seq<char>), ErrorView>(
            (code_of(word), text),
        ),
        api_response(word + seq![space]) == Ok::<(Code, Seq<char>), ErrorView>(
            (code_of(word), Seq::empty()),
        ),
{
    let n = word.len() as int;
    let body = word + seq![space] + text + seq![last];
    law_first_word(word, seq![space] + text + seq![last]);
    assert(body =~= word + (seq![space] + text + seq![last]));
    assert(body.take(n) =~= word);
    assert(body.subrange(n + 1, body.len() - 1) =~= text);
    law_first_word(word, seq![space]);
    assert((word + seq![space]).take(n) =~= word);
}

/// An answer of one word alone cannot be split.
pub proof fn law_word_is_no_answer(word: Seq<char>)
    requires
        forall|i: int| 0 <= i < word.len() ==> !is_white_space(#[trigger] word[i]),
    ensures
        is_sliceable(word),
        api_response(word) == Err::<(Code, Seq<char>), ErrorView>(
            ErrorView::InternalError("Unable to find space index"@),
        ),
        api_result(word) == Err::<Seq<char>, ErrorView>(
            ErrorView::InternalError("Unable to find space index"@),
        ),
{
    law_first_word(word, Seq::empty());
    assert(word + Seq::empty() =~= word);
}

/// An answer can be cut exactly when the first white space and the last character
/// are both of ASCII.
pub proof fn law_answer_can_be_cut(word: Seq<char>, rest: Seq<char>)
    requires
        forall|i: int| 0 <= i < word.len() ==> !is_white_space(#[trigger] word[i]),
        rest.len() > 0,
        is_white_space(rest[0]),
    ensures
        is_sliceable(word + rest) <==> rest[0] <= '\u{7f}' && rest.last() <= '\u{7f}',
{
    law_first_word(word, rest);
    assert((word + rest)[word.len() as int] == rest[0]);
    assert((word + rest).last() == rest.last());
    law_one_byte(rest[0]);
    law_one_byte(rest.last());
}

/// A success comes to its whole text, a failure to an error with its whole text,
/// and any other answer to all of itself.
pub proof fn law_answer_comes_to(word: Seq<char>, space: char, text: Seq<char>, last: char)
    requires
        forall|i: int| 0 <= i < word.len() ==> !is_white_space(#[trigger] word[i]),
        is_white_space(space),
    ensures
        ({
            let long = word + seq![space] + text + seq![last];
            let short = word + seq![space];
            &&& word == "+OK"@ ==> api_result(long) == Ok::<Seq<char>, ErrorView>(text)
            &&& word == "-ERR"@ ==> api_result(long) == Err::<Seq<char>, ErrorView>(
                ErrorView::ApiError(text),
            )
            &&& word != "+OK"@ && word != "-ERR"@ ==> api_result(long) == Ok::<
                Seq<char>,
                ErrorView,
            >(long)
            &&& word == "+OK"@ ==> api_result(short) == Ok::<Seq<char>, ErrorView>(Seq::empty())
            &&& word == "-ERR"@ ==> api_result(short) == Err::<Seq<char>, ErrorView>(
                ErrorView::ApiError(Seq::empty()),
            )
            &&& word != "+OK"@ && word != "-ERR"@ ==> api_result(short) == Ok::<
                Seq<char>,
                ErrorView,
            >(short)
        }),
{
    law_answer_is_split(word, space, text, last);
    law_codes(word);
    reveal_strlit("+OK");
    reveal_strlit("-ERR");
    assert("+OK"@ =~= seq!['+', 'O', 'K']);
    assert("-ERR"@ =~= seq!['-', 'E', 'R', 'R']);
}

/// The frame that answers an `api` command comes to what its whole body comes to,
/// whatever its headers are, and can be read exactly when the body can be cut.
pub proof fn law_api_frame_comes_to_its_body(headers: Fields, body: Seq<char>)
    ensures
        api_event_result(EventView { headers, body: Some(body) }) == api_result(body),
        api_event_result(EventView { headers, body: None }) == Err::<Seq<char>, ErrorView>(
            ErrorView::InternalError("Didnt get body in api response"@),
        ),
        is_api_event(EventView { headers, body: Some(body) }) <==> is_sliceable(body),
        is_api_event(EventView { headers, body: None }),
{
}

/// An `api` command gives the whole text of a success, the whole text of a failure
/// as an error, and any other answer whole.
pub proof fn law_api_gives_the_whole_answer(
    headers: Fields,
    word: Seq<char>,
    space: char,
    text: Seq<char>,
    last: char,
)
    requires
        forall|i: int| 0 <= i < word.len() ==> !is_white_space(#[trigger] word[i]),
        is_white_space(space),
    ensures
        ({
            let body = word + seq![space] + text + seq![last];
            let result = api_event_result(EventView { headers, body: Some(body) });
            &&& word == "+OK"@ ==> result == Ok::<Seq<char>, ErrorView>(text)
            &&& word == "-ERR"@ ==> result == Err::<Seq<char>, ErrorView>(
                ErrorView::ApiError(text),
            )
            &&& word != "+OK"@ && word != "-ERR"@ ==> result == Ok::<Seq<char>, ErrorView>(body)
        }),
{
    law_answer_comes_to(word, space, text, last);
}

/// The result of a job is what the whole string stored under `_body` comes to: the
/// one among the members of the frame's JSON body, or else the one among its
/// headers.
pub proof fn law_job_comes_to_its_answer(
    event: EventView,
    body: Seq<char>,
    members: Fields,
    answer: Seq<char>,
)
    requires
        event.body == Some(body),
        json_object(body) == Some(members),
        members.contains_pair("_body"@, ValueView::Text(answer)) || (!members.contains_key(
            "_body"@,
        ) && event.headers.contains_pair("_body"@, ValueView::Text(answer))),
    ensures
        is_sliceable(answer) ==> job_reading(Ok(event)) == Some(api_result(answer)),
        !is_sliceable(answer) ==> job_reading(Ok(event)) is None,
        bgapi_response(event) == api_result(answer),
        job_result(event.headers, members) == api_result(answer),
        is_bgapi_response(event) <==> is_sliceable(answer),
        is_job_answer(event.headers, members) <==> is_sliceable(answer),
{
}

/// A job whose answer is no string cannot be read.
pub proof fn law_job_answer_is_a_string(
    event: EventView,
    body: Seq<char>,
    members: Fields,
    json: Seq<char>,
)
    requires
        event.body == Some(body),
        json_object(body) == Some(members),
        members.contains_pair("_body"@, ValueView::Other(json)) || (!members.contains_key(
            "_body"@,
        ) && event.headers.contains_pair("_body"@, ValueView::Other(json))),
    ensures
        job_reading(Ok(event)) is None,
        !is_bgapi_response(event),
        !is_job_answer(event.headers, members),
{
}

/// A frame that has no JSON object, or no answer in it, reports no result of a
/// job; and a job whose wait has failed comes to that error.
pub proof fn law_job_without_answer(event: EventView, error: ErrorView)
    ensures
        event.body is None ==> job_reading(Ok(event)) == Some(
            Err::<Seq<char>, ErrorView>(
                ErrorView::InternalError("body was not found in event/json"@),
            ),
        ),
        event.body matches Some(body) ==> (json_object(body) is None ==> job_reading(Ok(event))
            == Some(Err::<Seq<char>, ErrorView>(ErrorView::JsonError))),
        event.body matches Some(body) ==> (json_object(body) matches Some(members) ==> (
        !members.contains_key("_body"@) && !event.headers.contains_key("_body"@) ==> job_reading(
            Ok(event),
        ) == Some(
            Err::<Seq<char>, ErrorView>(
                ErrorView::InternalError("body was not found in event/json"@),
            ),
        ) && job_result(event.headers, members) == Err::<Seq<char>, ErrorView>(
            ErrorView::InternalError("body was not found in event/json"@),
        ) && is_job_answer(event.headers, members))),
        job_reading(Err(error)) == Some(Err::<Seq<char>, ErrorView>(error)),
        job_reading(Ok(event)) == Some(bgapi_response(event)) || job_reading(Ok(event)) is None,
        job_reading(Ok(event)) is Some <==> is_bgapi_response(event),
{
}

/// A background job gives the whole text of a success, the whole text of a failure
/// as an error, and any other answer whole.
pub proof fn law_job_gives_the_whole_answer(
    event: EventView,
    body: Seq<char>,
    members: Fields,
    word: Seq<char>,
    space: char,
    text: Seq<char>,
    last: char,
)
    requires
        event.body == Some(body),
        json_object(body) == Some(members),
        members.contains_pair(
            "_body"@,
            ValueView::Text(word + seq![space] + text + seq![last]),
        ),
        forall|i: int| 0 <= i < word.len() ==> !is_white_space(#[trigger] word[i]),
        is_white_space(space),
        space <= '\u{7f}',
        last <= '\u{7f}',
    ensures
        word == "+OK"@ ==> job_reading(Ok(event)) == Some(Ok::<Seq<char>, ErrorView>(text)),
        word == "-ERR"@ ==> job_reading(Ok(event)) == Some(
            Err::<Seq<char>, ErrorView>(ErrorView::ApiError(text)),
        ),
        word != "+OK"@ && word != "-ERR"@ ==> job_reading(Ok(event)) == Some(
            Ok::<Seq<char>, ErrorView>(word + seq![space] + text + seq![last]),
        ),
{
    let answer = word + seq![space] + text + seq![last];
    let rest = seq![space] + text + seq![last];
    law_job_comes_to_its_answer(event, body, members, answer);
    law_answer_comes_to(word, space, text, last);
    law_answer_can_be_cut(word, rest);
    assert(answer =~= word + rest);
    assert(rest.last() == last);
}

/// The answer to the password gives its whole text when its first word is `+OK`;
/// with `-ERR` the password is refused, and no other answer is understood.
pub proof fn law_password_answer(
    reply: EventView,
    word: Seq<char>,
    space: char,
    text: Seq<char>,
    last: char,
)
    requires
        forall|i: int| 0 <= i < word.len() ==> !is_white_space(#[trigger] word[i]),
        is_white_space(space),
        reply.headers.contains_pair(
            "Reply-Text"@,
            ValueView::Text(word + seq![space] + text + seq![last]),
        ),
    ensures
        word == "+OK"@ ==> auth_result(reply) == Ok::<Seq<char>, ErrorView>(text),
        word == "-ERR"@ ==> auth_result(reply) == Err::<Seq<char>, ErrorView>(
            ErrorView::AuthFailed,
        ),
        word != "+OK"@ && word != "-ERR"@ ==> auth_result(reply) == Err::<Seq<char>, ErrorView>(
            ErrorView::InternalError("Got unknown code in auth request"@),
        ),
{
    law_answer_is_split(word, space, text, last);
    law_codes(word);
    reveal_strlit("+OK");
    reveal_strlit("-ERR");
    assert("+OK"@ =~= seq!['+', 'O', 'K']);
    assert("-ERR"@ =~= seq!['-', 'E', 'R', 'R']);
}

/// The shortest answers to the password: a word and a white space, a word alone,
/// and none at all.
pub proof fn law_short_password_answer(reply: EventView, word: Seq<char>, space: char)
    requires
        forall|i: int| 0 <= i < word.len() ==> !is_white_space(#[trigger] word[i]),
        is_white_space(space),
    ensures
        reply.headers.contains_pair("Reply-Text"@, ValueView::Text(word + seq![space])) ==> {
            &&& word == "+OK"@ ==> auth_result(reply) == Ok::<Seq<char>, ErrorView>(Seq::empty())
            &&& word == "-ERR"@ ==> auth_result(reply) == Err::<Seq<char>, ErrorView>(
                ErrorView::AuthFailed,
            )
            &&& word != "+OK"@ && word != "-ERR"@ ==> auth_result(reply) == Err::<
                Seq<char>,
                ErrorView,
            >(ErrorView::InternalError("Got unknown code in auth request"@))
        },
        reply.headers.contains_pair("Reply-Text"@, ValueView::Text(word)) ==> auth_result(reply)
            == Err::<Seq<char>, ErrorView>(
            ErrorView::InternalError("Unable to find space index"@),
        ),
        !reply.headers.contains_key("Reply-Text"@) ==> auth_result(reply) == Err::<
            Seq<char>,
            ErrorView,
        >(ErrorView::InternalError("Reply-Text in auth request was not found"@)),
{
    law_answer_is_split(word, space, Seq::empty(), space);
    law_word_is_no_answer(word);
    law_codes(word);
    reveal_strlit("+OK");
    reveal_strlit("-ERR");
    assert("+OK"@ =~= seq!['+', 'O', 'K']);
    assert("-ERR"@ =~= seq!['-', 'E', 'R', 'R']);
}

/// The answer to the password can be read unless its text is no string or cannot
/// be cut.
pub proof fn law_password_answer_can_be_read(reply: EventView, text: Seq<char>, json: Seq<char>)
    ensures
        !reply.headers.contains_key("Reply-Text"@) ==> is_auth_reply(reply),
        reply.headers.contains_pair("Reply-Text"@, ValueView::Text(text)) ==> (is_auth_reply(reply)
            <==> is_sliceable(text)),
        reply.headers.contains_pair("Reply-Text"@, ValueView::Other(json)) ==> !is_auth_reply(
            reply,
        ),
{
}

} // verus!
