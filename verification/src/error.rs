//! What can go wrong on a connection.

use std::time::Duration;
use vstd::prelude::*;

verus! {

/// `serde_json::Error`, of which only its occurrence is reported.
#[verifier::external_type_specification]
#[verifier::external_body]
pub struct ExJsonError(serde_json::Error);

/// An error of a connection.
#[derive(Debug, PartialEq)]
pub enum EslError {
    /// The connection has failed or was closed.
    ConnectionClosed,
    /// Nothing arrived within the given time.
    Timeout(Duration),
    /// FreeSWITCH rejected the password.
    AuthFailed,
    /// FreeSWITCH reported an error for a command.
    ApiError(String),
    /// An answer did not have the expected form.
    InternalError(String),
    /// The waiter of an answer was dropped without an answer.
    RecvError,
    /// A body was not a JSON object.
    JsonError,
    /// Reading from or writing to the stream failed.
    TransportError(String),
}

/// What an [`EslError`] says.
pub enum ErrorView {
    /// The connection has failed or was closed.
    ConnectionClosed,
    /// Nothing arrived within the given time.
    Timeout(Duration),
    /// FreeSWITCH rejected the password.
    AuthFailed,
    /// FreeSWITCH reported an error for a command.
    ApiError(Seq<char>),
    /// An answer did not have the expected form.
    InternalError(Seq<char>),
    /// The waiter of an answer was dropped without an answer.
    RecvError,
    /// A body was not a JSON object.
    JsonError,
    /// Reading from or writing to the stream failed.
    TransportError(Seq<char>),
}

impl View for EslError {
    type V = ErrorView;

    open spec fn view(&self) -> ErrorView {
        match self {
            EslError::ConnectionClosed => ErrorView::ConnectionClosed,
            EslError::Timeout(timeout) => ErrorView::Timeout(*timeout),
            EslError::AuthFailed => ErrorView::AuthFailed,
            EslError::ApiError(text) => ErrorView::ApiError(text@),
            EslError::InternalError(text) => ErrorView::InternalError(text@),
            EslError::RecvError => ErrorView::RecvError,
            EslError::JsonError => ErrorView::JsonError,
            EslError::TransportError(text) => ErrorView::TransportError(text@),
        }
    }
}

impl From<serde_json::Error> for EslError {
    fn from(error: serde_json::Error) -> (converted: Self) {
        EslError::JsonError
    }
}

impl vstd::std_specs::convert::FromSpecImpl<serde_json::Error> for EslError {
    open spec fn obeys_from_spec() -> bool {
        true
    }

    open spec fn from_spec(error: serde_json::Error) -> Self {
        EslError::JsonError
    }
}

/// The view of a result.
pub open spec fn view_result<T: View>(result: Result<T, EslError>) -> Result<T::V, ErrorView> {
    match result {
        Ok(value) => Ok(value@),
        Err(error) => Err(error@),
    }
}

} // verus!
