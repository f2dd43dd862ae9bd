//! Frames that FreeSWITCH sends.

use crate::string_map::StringMap;
use vstd::prelude::*;

verus! {

/// A header or a JSON member.
#[derive(Debug)]
pub enum Value {
    /// A string.
    String(String),
    /// Anything else that JSON has, as compact JSON text.
    Other(String),
}

/// What a [`Value`] holds.
pub enum ValueView {
    /// A string.
    Text(Seq<char>),
    /// The JSON text of anything else.
    Other(Seq<char>),
}

impl View for Value {
    type V = ValueView;

    open spec fn view(&self) -> ValueView {
        match self {
            Value::String(text) => ValueView::Text(text@),
            Value::Other(json) => ValueView::Other(json@),
        }
    }
}

impl Clone for Value {
    fn clone(&self) -> (copy: Self)
        ensures
            copy@ == self@,
    {
        match self {
            Value::String(text) => Value::String(text.clone()),
            Value::Other(json) => Value::Other(json.clone()),
        }
    }
}

impl Value {
    /// The string, if the value is one.
    pub fn as_str(&self) -> (text: Option<&str>)
        ensures
            view_option(text) == text_of(self@),
    {
        match self {
            Value::String(text) => Some(text.as_str()),
            Value::Other(_) => None,
        }
    }
}

/// Headers of a frame, or members of a JSON object.
pub type Fields = Map<Seq<char>, ValueView>;

/// The string, if `value` is one.
pub open spec fn text_of(value: ValueView) -> Option<Seq<char>> {
    match value {
        ValueView::Text(text) => Some(text),
        ValueView::Other(_) => None,
    }
}

/// The string stored under `key`, if there is one.
pub open spec fn text_at(fields: Fields, key: Seq<char>) -> Option<Seq<char>> {
    if fields.contains_key(key) {
        text_of(fields[key])
    } else {
        None
    }
}

/// The view of an optional value.
pub open spec fn view_option<T: View>(value: Option<T>) -> Option<T::V> {
    match value {
        Some(inner) => Some(inner@),
        None => None,
    }
}

/// What a map of values holds.
pub open spec fn view_fields(fields: StringMap<Value>) -> Fields {
    fields@.map_values(|value: Value| value@)
}

/// The string stored under `key`, if there is one.
pub fn get_text<'a>(fields: &'a StringMap<Value>, key: &str) -> (text: Option<&'a str>)
    ensures
        view_option(text) == text_at(view_fields(*fields), key@),
{
    match fields.get(key) {
        Some(value) => value.as_str(),
        None => None,
    }
}

/// One frame: headers, and a body if the frame has one.
#[derive(Debug)]
pub struct Event {
    /// The headers of the frame.
    pub headers: StringMap<Value>,
    /// The body of the frame.
    pub body: Option<String>,
}

/// What an [`Event`] holds.
pub struct EventView {
    /// The headers of the frame.
    pub headers: Fields,
    /// The body of the frame.
    pub body: Option<Seq<char>>,
}

impl View for Event {
    type V = EventView;

    open spec fn view(&self) -> EventView {
        EventView { headers: view_fields(self.headers), body: view_option(self.body) }
    }
}

impl Clone for Event {
    fn clone(&self) -> (copy: Self)
        ensures
            copy@ == self@,
    {
        let headers: StringMap<Value> = self.headers.clone();
        let body: Option<String> = match &self.body {
            Some(text) => Some(text.clone()),
            None => None,
        };
        let copy = Event { headers, body };
        assert(view_fields(copy.headers) =~= view_fields(self.headers));
        copy
    }
}

impl Event {
    /// The headers of the frame.
    pub fn headers(&self) -> (headers: &StringMap<Value>)
        ensures
            *headers == self.headers,
    {
        &self.headers
    }

    /// The body of the frame, if it has one.
    pub fn body(&self) -> (body: &Option<String>)
        ensures
            *body == self.body,
    {
        &self.body
    }
}

} // verus!
