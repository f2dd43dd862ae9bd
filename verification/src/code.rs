//! The word that an answer starts with.

use vstd::prelude::*;

verus! {

/// What the first word of an answer says.
#[derive(Clone, Copy, Debug, PartialEq, Eq, Structural)]
pub enum Code {
    /// `+OK`.
    Success,
    /// `-ERR`.
    Failure,
    /// Any other word.
    Unknown,
}

/// What the first word of an answer says.
pub open spec fn code_of(word: Seq<char>) -> Code {
    if word == "+OK"@ {
        Code::Success
    } else if word == "-ERR"@ {
        Code::Failure
    } else {
        Code::Unknown
    }
}

/// Reads the first word of an answer.
pub fn parse_code(word: &str) -> (code: Code)
    ensures
        code == code_of(word@),
{
    let word: String = word.to_owned();
    if word == "+OK".to_owned() {
        Code::Success
    } else if word == "-ERR".to_owned() {
        Code::Failure
    } else {
        Code::Unknown
    }
}

} // verus!
