//! What the answers to commands say.

use crate::code::{Code, parse_code};
use crate::error::EslError;
use crate::event::{Event, Value};
use crate::string_map::StringMap;
use crate::text::{first_word_len, is_one_byte_char};
use vstd::prelude::*;
use vstd::string::*;

verus! {

use crate::code::code_of;
use crate::error::{ErrorView, view_result};
use crate::event::{EventView, Fields, text_of, view_fields};
use crate::outside::{json_members, json_object};
use crate::text::{is_one_byte, word_len};

/// The code and the text of an answer: the first word, and what stands between
/// the white space after it and the last character.
pub open spec fn api_response(body: Seq<char>) -> Result<(Code, Seq<char>), ErrorView> {
    let end = word_len(body) as int;
    if end == body.len() {
        Err(ErrorView::InternalError("Unable to find space index"@))
    } else if end + 1 < body.len() {
        Ok((code_of(body.take(end)), body.subrange(end + 1, body.len() - 1)))
    } else {
        Ok((code_of(body.take(end)), Seq::empty()))
    }
}

/// Whether both characters that an answer is cut at, the first white space and
/// the last character, take up one byte each.
pub open spec fn is_sliceable(body: Seq<char>) -> bool {
    let end = word_len(body) as int;
    end < body.len() ==> is_one_byte(body[end]) && is_one_byte(body.last())
}

/// The view of a parsed answer.
pub open spec fn view_response(result: Result<(Code, String), EslError>) -> Result<
    (Code, Seq<char>),
    ErrorView,
> {
    match result {
        Ok((code, text)) => Ok((code, text@)),
        Err(error) => Err(error@),
    }
}

/// Splits an answer into its code and its text.
pub fn parse_api_response(body: &str) -> (result: Result<(Code, String), EslError>)
    requires
        is_sliceable(body@),
    ensures
        view_response(result) == api_response(body@),
{
    let end: usize = first_word_len(body);
    let length: usize = body.unicode_len();
    if end == length {
        return Err(EslError::InternalError("Unable to find space index".to_owned()));
    }
    let code: Code = parse_code(body.substring_char(0, end));
    let text: String = if end + 1 < length {
        body.substring_char(end + 1, length - 1).to_owned()
    } else {
        String::new()
    };
    assert(body@.subrange(0, end as int) =~= body@.take(end as int));
    Ok((code, text))
}

/// Whether [`parse_api_response`] can cut `body`.
pub fn can_parse_api_response(body: &str) -> (sliceable: bool)
    ensures
        sliceable == is_sliceable(body@),
{
    let end: usize = first_word_len(body);
    let length: usize = body.unicode_len();
    if end == length {
        return true;
    }
    is_one_byte_char(body.get_char(end)) && is_one_byte_char(body.get_char(length - 1))
}

/// What an answer comes to: the text of a success, the text of a failure as an
/// error, and any other answer as it is.
pub open spec fn api_result(body: Seq<char>) -> Result<Seq<char>, ErrorView> {
    match api_response(body) {
        Ok((Code::Success, text)) => Ok(text),
        Ok((Code::Failure, text)) => Err(ErrorView::ApiError(text)),
        Ok((Code::Unknown, _)) => Ok(body),
        Err(error) => Err(error),
    }
}

/// Turns an answer into a result.
fn read_api_result(body: &str) -> (result: Result<String, EslError>)
    requires
        is_sliceable(body@),
    ensures
        view_result(result) == api_result(body@),
{
    match parse_api_response(body) {
        Ok((code, text)) => match code {
            Code::Success => Ok(text),
            Code::Failure => Err(EslError::ApiError(text)),
            Code::Unknown => Ok(body.to_owned()),
        },
        Err(error) => Err(error),
    }
}

/// What the frame that answers an `api` command comes to.
pub open spec fn api_event_result(event: EventView) -> Result<Seq<char>, ErrorView> {
    match event.body {
        Some(body) => api_result(body),
        None => Err(ErrorView::InternalError("Didnt get body in api response"@)),
    }
}

/// Whether the body of the frame, if it has one, can be cut.
pub open spec fn is_api_event(event: EventView) -> bool {
    event.body matches Some(body) ==> is_sliceable(body)
}

/// Reads the frame that answers an `api` command.
pub fn parse_api_event(event: Event) -> (result: Result<String, EslError>)
    requires
        is_api_event(event@),
    ensures
        view_result(result) == api_event_result(event@),
{
    match &event.body {
        Some(body) => read_api_result(body.as_str()),
        None => Err(EslError::InternalError("Didnt get body in api response".to_owned())),
    }
}

/// Whether [`parse_api_event`] can read `event`.
pub fn can_parse_api_event(event: &Event) -> (readable: bool)
    ensures
        readable == is_api_event(event@),
{
    match &event.body {
        Some(body) => can_parse_api_response(body.as_str()),
        None => true,
    }
}

/// Reads a JSON object.
pub fn parse_json_body(body: &str) -> (result: Result<StringMap<Value>, EslError>)
    ensures
        match json_object(body@) {
            Some(members) => result matches Ok(map) && view_fields(map) == members,
            None => result == Err::<StringMap<Value>, EslError>(EslError::JsonError),
        },
{
    match json_members(body) {
        Ok(pairs) => Ok(StringMap::from_pairs(pairs)),
        Err(error) => Err(EslError::from(error)),
    }
}

/// The headers of a frame, overridden by the members of its JSON body.
pub open spec fn merged(headers: Fields, members: Fields) -> Fields {
    headers.union_prefer_right(members)
}

/// What a finished background job comes to, from the headers of the frame that
/// reports it and the members of the frame's JSON body.
pub open spec fn job_result(headers: Fields, members: Fields) -> Result<Seq<char>, ErrorView> {
    let fields = merged(headers, members);
    if fields.contains_key("_body"@) {
        api_result(text_of(fields["_body"@])->0)
    } else {
        Err(ErrorView::InternalError("body was not found in event/json"@))
    }
}

/// Whether the answer of the job, if there is one, is a string that can be cut.
pub open spec fn is_job_answer(headers: Fields, members: Fields) -> bool {
    let fields = merged(headers, members);
    fields.contains_key("_body"@) ==> (text_of(fields["_body"@]) matches Some(body)
        && is_sliceable(body))
}

/// Reads the result of a finished background job.
pub fn read_job_result(headers: StringMap<Value>, members: StringMap<Value>) -> (result: Result<
    String,
    EslError,
>)
    requires
        is_job_answer(view_fields(headers), view_fields(members)),
    ensures
        view_result(result) == job_result(view_fields(headers), view_fields(members)),
{
    let ghost fields = merged(view_fields(headers), view_fields(members));
    let mut map: StringMap<Value> = headers;
    map.extend(members);
    assert(view_fields(map) =~= fields);
    match map.get("_body") {
        Some(value) => {
            assert(fields["_body"@] == value@);
            read_api_result(value.as_str().unwrap())
        },
        None => Err(EslError::InternalError("body was not found in event/json".to_owned())),
    }
}

/// Whether [`read_job_result`] can read these fields.
pub fn can_read_job_result(headers: &StringMap<Value>, members: &StringMap<Value>) -> (readable:
    bool)
    ensures
        readable == is_job_answer(view_fields(*headers), view_fields(*members)),
{
    let value: Option<&Value> = match members.get("_body") {
        Some(value) => Some(value),
        None => headers.get("_body"),
    };
    match value {
        Some(value) => match value.as_str() {
            Some(body) => can_parse_api_response(body),
            None => false,
        },
        None => true,
    }
}

/// What the frame that reports a finished background job comes to.
pub open spec fn bgapi_response(resp: EventView) -> Result<Seq<char>, ErrorView> {
    match resp.body {
        Some(body) => match json_object(body) {
            Some(members) => job_result(resp.headers, members),
            None => Err(ErrorView::JsonError),
        },
        None => Err(ErrorView::InternalError("body was not found in event/json"@)),
    }
}

/// Whether the answer that the frame reports, if there is one, is a string that
/// can be cut.
pub open spec fn is_bgapi_response(resp: EventView) -> bool {
    resp.body matches Some(body) ==> (json_object(body) matches Some(members) ==> is_job_answer(
        resp.headers,
        members,
    ))
}

/// Reads the frame that reports a finished background job.
pub fn parse_bgapi_response(resp: Event) -> (result: Result<String, EslError>)
    requires
        is_bgapi_response(resp@),
    ensures
        view_result(result) == bgapi_response(resp@),
{
    let Event { headers, body } = resp;
    match body {
        Some(body) => match parse_json_body(body.as_str()) {
            Ok(members) => read_job_result(headers, members),
            Err(error) => Err(error),
        },
        None => Err(EslError::InternalError("body was not found in event/json".to_owned())),
    }
}

/// Reads the frame that reports a finished background job, or gives `None` when
/// the answer in it is not a string that can be cut.
pub fn try_parse_bgapi_response(resp: Event) -> (result: Option<Result<String, EslError>>)
    ensures
        match result {
            Some(result) => is_bgapi_response(resp@) && view_result(result) == bgapi_response(
                resp@,
            ),
            None => !is_bgapi_response(resp@),
        },
{
    let readable: bool = match &resp.body {
        Some(body) => match parse_json_body(body.as_str()) {
            Ok(members) => can_read_job_result(&resp.headers, &members),
            Err(_) => true,
        },
        None => true,
    };
    if readable {
        Some(parse_bgapi_response(resp))
    } else {
        None
    }
}

} // verus!
