//! The exchange that opens a connection.

use crate::connection::EslConnection;
use crate::error::EslError;
use crate::event::Event;
use vstd::prelude::*;
use vstd::string::*;

verus! {

use crate::command::{auth_text, subscribe_text, view_strs};
use crate::connection::{ConnectionView, auth_result, is_auth_reply};
use crate::error::{ErrorView, view_result};
use crate::event::{EventView, Fields, text_at};
use vstd::utf8::encode_utf8;

/// Which side opened the stream.
#[derive(Clone, Copy, Debug, PartialEq, Eq, Structural)]
pub enum EslConnectionType {
    /// The stream was opened to FreeSWITCH, which greets with one frame.
    Inbound,
    /// The stream was opened by FreeSWITCH, for a call.
    Outbound,
}

/// The command that is to be sent next while a connection is opened.
#[derive(Clone, Copy, Debug, PartialEq, Eq, Structural)]
pub enum Handshake {
    /// Give the password.
    Auth,
    /// Subscribe to the events that report the end of jobs.
    Subscribe,
    /// Ask for the parameters of the session.
    Connect,
    /// Subscribe, on a connection that FreeSWITCH opened.
    SubscribeCall,
    /// Ask for the events of the call.
    MyEvents,
    /// Nothing: the connection is open.
    Done,
}

/// The first command of a connection.
pub open spec fn first_command(connection_type: EslConnectionType) -> Handshake {
    match connection_type {
        EslConnectionType::Inbound => Handshake::Auth,
        EslConnectionType::Outbound => Handshake::Connect,
    }
}

/// The events that report the end of background jobs and applications.
pub open spec fn job_events() -> Seq<Seq<char>> {
    seq!["BACKGROUND_JOB"@, "CHANNEL_EXECUTE_COMPLETE"@]
}

/// The text of a command of the handshake.
pub open spec fn handshake_text(step: Handshake, password: Seq<char>) -> Seq<char> {
    match step {
        Handshake::Auth => auth_text(password),
        Handshake::Subscribe => subscribe_text(job_events()),
        Handshake::Connect => "connect"@,
        Handshake::SubscribeCall => subscribe_text(job_events()),
        Handshake::MyEvents => "myevents"@,
        Handshake::Done => Seq::empty(),
    }
}

/// The call that the parameters of a session name.
pub open spec fn session_call(info: Option<Fields>) -> Option<Seq<char>> {
    match info {
        Some(info) => text_at(info, "Channel-Unique-ID"@),
        None => None,
    }
}

impl<W> ConnectionView<W> {
    /// Whether the answer to a command of the handshake can be read.
    pub open spec fn is_handshake_reply(
        self,
        step: Handshake,
        reply: Result<EventView, ErrorView>,
    ) -> bool {
        match reply {
            Ok(event) => match step {
                Handshake::Auth => is_auth_reply(event),
                Handshake::MyEvents => session_call(self.connection_info) is Some,
                Handshake::Done => false,
                _ => true,
            },
            Err(_) => true,
        }
    }

    /// The connection after the answer to a command of the handshake, and the
    /// next command.
    pub open spec fn advanced(self, step: Handshake, reply: Result<EventView, ErrorView>) -> (
        Self,
        Result<Handshake, ErrorView>,
    ) {
        match reply {
            Ok(event) => match step {
                Handshake::Auth => (
                    self.after_auth(event),
                    match auth_result(event) {
                        Ok(_) => Ok(Handshake::Subscribe),
                        Err(error) => Err(error),
                    },
                ),
                Handshake::Subscribe => (self, Ok(Handshake::Done)),
                Handshake::Connect => (
                    ConnectionView { connection_info: Some(event.headers), ..self },
                    Ok(Handshake::SubscribeCall),
                ),
                Handshake::SubscribeCall => (self, Ok(Handshake::MyEvents)),
                Handshake::MyEvents => (
                    ConnectionView { call_uuid: session_call(self.connection_info), ..self },
                    Ok(Handshake::Done),
                ),
                Handshake::Done => (self, Ok(Handshake::Done)),
            },
            Err(error) => (self, Err(error)),
        }
    }
}

/// The view of the next step of a handshake.
pub open spec fn view_step(step: Result<Handshake, EslError>) -> Result<Handshake, ErrorView> {
    match step {
        Ok(step) => Ok(step),
        Err(error) => Err(error@),
    }
}

impl EslConnectionType {
    /// Whether FreeSWITCH sends one frame before the first command, which is to
    /// be read and dropped.
    pub fn has_greeting(self) -> (greeting: bool)
        ensures
            greeting == (self == EslConnectionType::Inbound),
    {
        matches!(self, EslConnectionType::Inbound)
    }

    /// The first command of a connection.
    pub fn first_command(self) -> (step: Handshake)
        ensures
            step == first_command(self),
    {
        match self {
            EslConnectionType::Inbound => Handshake::Auth,
            EslConnectionType::Outbound => Handshake::Connect,
        }
    }
}

impl<W> EslConnection<W> {
    /// Sends a command of the handshake.
    pub fn handshake_send(&mut self, step: Handshake, waiter: W) -> (written: Result<
        Vec<u8>,
        EslError,
    >)
        requires
            step != Handshake::Done,
        ensures
            view_result(written) == old(self)@.submission(
                encode_utf8(handshake_text(step, old(self)@.password)),
            ),
            final(self)@ == old(self)@.sent(waiter),
    {
        match step {
            Handshake::Auth => self.auth(waiter),
            Handshake::Connect => self.send_recv("connect".as_bytes(), waiter),
            Handshake::MyEvents => self.send_recv("myevents".as_bytes(), waiter),
            _ => {
                let events: Vec<&str> = vec!["BACKGROUND_JOB", "CHANNEL_EXECUTE_COMPLETE"];
                assert(view_strs(events@) =~= job_events());
                self.subscribe(events, waiter)
            },
        }
    }

    /// Reads the answer to a command of the handshake: gives the next command.
    pub fn handshake_reply(&mut self, step: Handshake, reply: Result<Event, EslError>) -> (next:
        Result<Handshake, EslError>)
        requires
            old(self)@.is_handshake_reply(step, view_result(reply)),
        ensures
            (final(self)@, view_step(next)) == old(self)@.advanced(step, view_result(reply)),
    {
        match reply {
            Ok(event) => match step {
                Handshake::Auth => match self.auth_reply(event) {
                    Ok(_) => Ok(Handshake::Subscribe),
                    Err(error) => Err(error),
                },
                Handshake::Subscribe => Ok(Handshake::Done),
                Handshake::Connect => {
                    self.set_connection_info(event.headers);
                    Ok(Handshake::SubscribeCall)
                },
                Handshake::SubscribeCall => Ok(Handshake::MyEvents),
                Handshake::MyEvents => {
                    let call_uuid: String = self.get_info_string("Channel-Unique-ID").unwrap();
                    self.set_call_uuid(call_uuid);
                    Ok(Handshake::Done)
                },
                Handshake::Done => Ok(Handshake::Done),
            },
            Err(error) => Err(error),
        }
    }

    /// Whether [`EslConnection::handshake_reply`] can read `reply`.
    pub fn can_read_handshake_reply(&self, step: Handshake, reply: &Result<Event, EslError>) -> (readable:
        bool)
        ensures
            readable == self@.is_handshake_reply(step, view_result(*reply)),
    {
        match reply {
            Ok(event) => match step {
                Handshake::Auth => EslConnection::<W>::can_read_auth_reply(event),
                Handshake::MyEvents => self.get_info_string("Channel-Unique-ID").is_some(),
                Handshake::Done => false,
                _ => true,
            },
            Err(_) => true,
        }
    }
}

} // verus!
