//! What holds of the views that the contracts speak of: they leave nothing out.

use crate::code::Code;
use crate::codec::{Decoded, view_decoded};
use crate::command::view_strs;
use crate::connection::{JobOutcome, JobOutcomeView, view_job_result, view_outcome};
use crate::error::{EslError, ErrorView, view_result};
use crate::event::{Event, EventView, Value, ValueView, view_fields, view_option};
use crate::handshake::{Handshake, view_step};
use crate::outside::view_members;
use crate::reader::{ReaderAction, ReaderActionView};
use crate::response::view_response;
use crate::string_map::{StringMap, pairs_map, view_keys};
use std::time::Duration;
use vstd::prelude::*;

verus! {

/// A value is viewed as what it is, with its whole text.
pub proof fn law_value_view(text: String)
    ensures
        Value::String(text)@ == ValueView::Text(text@),
        Value::Other(text)@ == ValueView::Other(text@),
{
}

/// Fields are viewed with every key and every value.
pub proof fn law_fields_view(fields: StringMap<Value>, key: Seq<char>)
    ensures
        view_fields(fields).dom() == fields@.dom(),
        fields@.contains_key(key) ==> view_fields(fields)[key] == fields@[key]@,
{
}

/// A frame is viewed with all its headers and its whole body.
pub proof fn law_event_view(event: Event, key: Seq<char>)
    ensures
        event@.headers.dom() == event.headers@.dom(),
        event.headers@.contains_key(key) ==> event@.headers[key] == event.headers@[key]@,
        event.body is None <==> event@.body is None,
        event.body matches Some(body) ==> event@.body == Some(body@),
{
}

/// Frames with the same headers and the same body are viewed alike, and no others.
pub proof fn law_event_view_is_faithful(first: Event, second: Event)
    ensures
        first@ == second@ <==> view_fields(first.headers) == view_fields(second.headers)
            && view_option(first.body) == view_option(second.body),
{
}

/// An optional value is viewed with its value.
pub proof fn law_option_view<T: View>(value: T)
    ensures
        view_option(Some(value)) == Some(value@),
        view_option::<T>(None) is None,
{
}

/// An error is viewed as what it is, with its whole text.
pub proof fn law_error_view(text: String, timeout: Duration)
    ensures
        EslError::ConnectionClosed@ == ErrorView::ConnectionClosed,
        EslError::Timeout(timeout)@ == ErrorView::Timeout(timeout),
        EslError::AuthFailed@ == ErrorView::AuthFailed,
        EslError::ApiError(text)@ == ErrorView::ApiError(text@),
        EslError::InternalError(text)@ == ErrorView::InternalError(text@),
        EslError::RecvError@ == ErrorView::RecvError,
        EslError::JsonError@ == ErrorView::JsonError,
        EslError::TransportError(text)@ == ErrorView::TransportError(text@),
{
}

/// A result is viewed with its value or its error.
pub proof fn law_result_view<T: View>(value: T, error: EslError)
    ensures
        view_result(Ok::<T, EslError>(value)) == Ok::<T::V, ErrorView>(value@),
        view_result(Err::<T, EslError>(error)) == Err::<T::V, ErrorView>(error@),
{
}

/// The outcome of a command is viewed with its frame or its error.
pub proof fn law_outcome_view(event: Event, error: EslError)
    ensures
        view_outcome(Some(Ok(event))) == Some(Ok::<EventView, ErrorView>(event@)),
        view_outcome(Some(Err(error))) == Some(Err::<EventView, ErrorView>(error@)),
        view_outcome(None) is None,
{
}

/// The outcome of a job is viewed with its frame, and its result with its text or
/// its error.
pub proof fn law_job_view(event: Event, text: String, error: EslError)
    ensures
        JobOutcome::Finished(event)@ == JobOutcomeView::Finished(event@),
        JobOutcome::Dropped@ == JobOutcomeView::Dropped,
        JobOutcome::Elapsed@ == JobOutcomeView::Elapsed,
        view_job_result(Some(Ok(text))) == Some(Ok::<Seq<char>, ErrorView>(text@)),
        view_job_result(Some(Err(error))) == Some(Err::<Seq<char>, ErrorView>(error@)),
        view_job_result(None) is None,
{
}

/// A parsed answer is viewed with its code and its whole text, or its error.
pub proof fn law_response_view(code: Code, text: String, error: EslError)
    ensures
        view_response(Ok((code, text))) == Ok::<(Code, Seq<char>), ErrorView>((code, text@)),
        view_response(Err(error)) == Err::<(Code, Seq<char>), ErrorView>(error@),
{
}

/// A step of the handshake is viewed as what it is.
pub proof fn law_step_view(step: Handshake, error: EslError)
    ensures
        view_step(Ok(step)) == Ok::<Handshake, ErrorView>(step),
        view_step(Err(error)) == Err::<Handshake, ErrorView>(error@),
{
}

/// What is to be done about a frame is viewed with the waiter, the frame, its
/// members and its name.
pub proof fn law_action_view<W>(
    waiter: W,
    event: Event,
    members: StringMap<Value>,
    name: Option<String>,
)
    ensures
        ReaderAction::<W>::Stop@ == ReaderActionView::<W>::Stop,
        ReaderAction::<W>::Discard@ == ReaderActionView::<W>::Discard,
        ReaderAction::<W>::Unreadable@ == ReaderActionView::<W>::Unreadable,
        (ReaderAction::Reply { waiter, event })@ == (ReaderActionView::Reply {
            waiter,
            event: event@,
        }),
        (ReaderAction::<W>::Publish { event, members, name })@ == (ReaderActionView::<
            W,
        >::Publish { event: event@, members: view_fields(members), name: view_option(name) }),
{
}

/// A decoded frame is viewed with the frame and its length, or its error.
pub proof fn law_decoded_view(event: Event, length: usize, error: EslError)
    ensures
        view_decoded(Ok(None)) == Decoded::Incomplete,
        view_decoded(Ok(Some((event, length)))) == Decoded::Frame(event@, length as nat),
        view_decoded(Err(error)) == Decoded::Invalid(error@),
{
}

/// Lists of texts are viewed with every text, in order.
pub proof fn law_list_views(words: Seq<&str>, keys: Seq<String>, i: int)
    ensures
        view_strs(words).len() == words.len(),
        0 <= i < words.len() ==> view_strs(words)[i] == words[i]@,
        view_keys(keys).len() == keys.len(),
        0 <= i < keys.len() ==> view_keys(keys)[i] == keys[i]@,
{
}

/// A list of members is viewed with every key and every value that counts.
pub proof fn law_members_view(members: Seq<(String, Value)>, key: Seq<char>)
    ensures
        view_members(members).dom() == pairs_map(members).dom(),
        pairs_map(members).contains_key(key) ==> view_members(members)[key] == pairs_map(
            members,
        )[key]@,
{
}

} // verus!
