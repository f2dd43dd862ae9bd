//! The state of a connection, and the steps of the commands that are given over
//! it.
//!
//! A caller that performs the input and output holds one [`EslConnection`] per
//! stream. Whoever waits for a frame is represented by a waiter of the caller's
//! choice, such as the sending half of a channel. A waiter is handed back
//! together with the frame it waits for, and is dropped when no frame will come.

use crate::command::{
    api_command, auth_command, bgapi_command, execute_command, subscribe_command,
};
use crate::code::Code;
use crate::error::EslError;
use crate::event::{Event, Value};
use crate::outside::new_uuid;
use crate::response::{
    can_parse_api_response, parse_api_event, parse_api_response, try_parse_bgapi_response,
};
use crate::string_map::StringMap;
use std::collections::VecDeque;
use std::time::Duration;
use vstd::prelude::*;
use vstd::slice::slice_to_vec;
use vstd::string::*;

verus! {

use crate::command::{
    api_text, auth_text, bgapi_text, execute_text, subscribe_text, view_strs,
};
use crate::error::{ErrorView, view_result};
use crate::event::{EventView, Fields, ValueView, text_of, view_fields, view_option};
use crate::outside::is_random_uuid;
use crate::response::{
    api_event_result, api_response, bgapi_response, is_api_event, is_bgapi_response, is_sliceable,
};
use vstd::utf8::encode_utf8;

/// A connection to FreeSWITCH, whose waiters are of type `W`.
#[derive(Debug)]
pub struct EslConnection<W> {
    password: String,
    commands: VecDeque<W>,
    background_jobs: StringMap<W>,
    wait_for_events: StringMap<W>,
    connected: bool,
    failed: bool,
    call_uuid: Option<String>,
    connection_info: Option<StringMap<Value>>,
}

/// What an [`EslConnection`] holds.
pub struct ConnectionView<W> {
    /// The password that is given to FreeSWITCH.
    pub password: Seq<char>,
    /// Who waits for the answers to the commands sent so far, oldest first.
    pub commands: Seq<W>,
    /// Who waits for the end of each background job or application.
    pub background_jobs: Map<Seq<char>, W>,
    /// Who waits for each event, by the event's name followed by the channel's id.
    pub wait_for_events: Map<Seq<char>, W>,
    /// Whether FreeSWITCH has accepted the password and the stream is open.
    pub connected: bool,
    /// Whether no command may be sent any more.
    pub failed: bool,
    /// The call that an outbound connection was opened for.
    pub call_uuid: Option<Seq<char>>,
    /// The parameters of the session of an outbound connection.
    pub connection_info: Option<Fields>,
}

impl<W> View for EslConnection<W> {
    type V = ConnectionView<W>;

    closed spec fn view(&self) -> ConnectionView<W> {
        ConnectionView {
            password: self.password@,
            commands: self.commands@,
            background_jobs: self.background_jobs@,
            wait_for_events: self.wait_for_events@,
            connected: self.connected,
            failed: self.failed,
            call_uuid: view_option(self.call_uuid),
            connection_info: match self.connection_info {
                Some(info) => Some(view_fields(info)),
                None => None,
            },
        }
    }
}

impl<W> ConnectionView<W> {
    /// A connection over which nothing has been sent.
    pub open spec fn fresh(password: Seq<char>) -> Self {
        ConnectionView {
            password,
            commands: Seq::empty(),
            background_jobs: Map::empty(),
            wait_for_events: Map::empty(),
            connected: false,
            failed: false,
            call_uuid: None,
            connection_info: None,
        }
    }

    /// One of the session parameters.
    pub open spec fn info(self, key: Seq<char>) -> Option<ValueView> {
        match self.connection_info {
            Some(info) => lookup(info, key),
            None => None,
        }
    }

    /// The connection after it has failed: nobody waits any more.
    pub open spec fn closed(self) -> Self {
        ConnectionView {
            commands: Seq::empty(),
            background_jobs: Map::empty(),
            wait_for_events: Map::empty(),
            connected: false,
            failed: true,
            ..self
        }
    }

    /// The connection after a command whose answer `waiter` waits for.
    pub open spec fn sent(self, waiter: W) -> Self {
        if self.failed {
            self.closed()
        } else {
            ConnectionView { commands: self.commands.push(waiter), ..self }
        }
    }

    /// The connection when `waiter` waits for the end of the job `uuid`.
    pub open spec fn with_job(self, uuid: Seq<char>, waiter: W) -> Self {
        ConnectionView { background_jobs: self.background_jobs.insert(uuid, waiter), ..self }
    }

    /// The connection when nobody waits for the end of the job `uuid`.
    pub open spec fn without_job(self, uuid: Seq<char>) -> Self {
        ConnectionView { background_jobs: self.background_jobs.remove(uuid), ..self }
    }

    /// What is to be written for a command: the command itself, unless no
    /// command may be sent.
    pub open spec fn submission(self, item: Seq<u8>) -> Result<Seq<u8>, ErrorView> {
        if self.failed {
            Err(ErrorView::ConnectionClosed)
        } else {
            Ok(item)
        }
    }

    /// What a waiter gets: the frame, or an error when it was dropped.
    pub open spec fn reception(self, received: Option<EventView>) -> Result<EventView, ErrorView> {
        match received {
            Some(event) => Ok(event),
            None => if self.failed {
                Err(ErrorView::ConnectionClosed)
            } else {
                Err(ErrorView::RecvError)
            },
        }
    }

    /// The connection after the write of a command.
    pub open spec fn after_write(self, success: bool) -> Self {
        if success {
            self
        } else {
            self.closed()
        }
    }

    /// The connection after a command whose time may have passed.
    pub open spec fn after_timed(self, outcome: Option<Result<EventView, ErrorView>>) -> Self {
        match outcome {
            Some(_) => self,
            None => self.closed(),
        }
    }

    /// The connection after the command that starts the job `uuid`, whose time may
    /// have passed.
    pub open spec fn after_job_reply(
        self,
        uuid: Seq<char>,
        outcome: Option<Result<EventView, ErrorView>>,
    ) -> Self {
        match outcome {
            Some(Ok(_)) => self,
            _ => self.after_timed(outcome).without_job(uuid),
        }
    }

    /// The connection after the wait for the end of the job `uuid`.
    pub open spec fn after_job(self, uuid: Seq<char>, outcome: JobOutcomeView) -> Self {
        match outcome {
            JobOutcomeView::Elapsed => self.without_job(uuid),
            _ => self,
        }
    }

    /// The connection after the answer to the command that closes it.
    pub open spec fn after_disconnect(self, reply: Result<EventView, ErrorView>) -> Self {
        match reply {
            Ok(_) => ConnectionView { connected: false, failed: true, ..self },
            Err(_) => self,
        }
    }

    /// The connection after the answer to the password.
    pub open spec fn after_auth(self, reply: EventView) -> Self {
        ConnectionView { connected: self.connected || auth_result(reply) is Ok, ..self }
    }

    /// The connection when `waiter` waits for an event of a channel.
    pub open spec fn with_event_waiter(
        self,
        event: Seq<char>,
        unique_id: Seq<char>,
        waiter: W,
    ) -> Self {
        ConnectionView {
            wait_for_events: self.wait_for_events.insert(event + unique_id, waiter),
            ..self
        }
    }

    /// What the waiter of a background job gets.
    pub open spec fn job_reception(self, outcome: JobOutcomeView, timeout: Duration) -> Result<
        EventView,
        ErrorView,
    > {
        match outcome {
            JobOutcomeView::Finished(event) => self.reception(Some(event)),
            JobOutcomeView::Dropped => self.reception(None),
            JobOutcomeView::Elapsed => Err(ErrorView::Timeout(timeout)),
        }
    }
}

/// The result of a command that was given `timeout` to complete.
pub open spec fn timed(outcome: Option<Result<EventView, ErrorView>>, timeout: Duration) -> Result<
    EventView,
    ErrorView,
> {
    match outcome {
        Some(result) => result,
        None => Err(ErrorView::Timeout(timeout)),
    }
}

/// What the answer to the password comes to.
pub open spec fn auth_result(reply: EventView) -> Result<Seq<char>, ErrorView> {
    if reply.headers.contains_key("Reply-Text"@) {
        match api_response(text_of(reply.headers["Reply-Text"@])->0) {
            Ok((Code::Success, text)) => Ok(text),
            Ok((Code::Failure, _)) => Err(ErrorView::AuthFailed),
            Ok((Code::Unknown, _)) => Err(
                ErrorView::InternalError("Got unknown code in auth request"@),
            ),
            Err(error) => Err(error),
        }
    } else {
        Err(ErrorView::InternalError("Reply-Text in auth request was not found"@))
    }
}

/// Whether the answer's text, if there is one, is a string that can be cut.
pub open spec fn is_auth_reply(reply: EventView) -> bool {
    reply.headers.contains_key("Reply-Text"@) ==> (text_of(
        reply.headers["Reply-Text"@],
    ) matches Some(text) && is_sliceable(text))
}

/// What the frame that a background job's waiter got comes to, or `None` when
/// the answer that the frame reports is not a string that can be cut.
pub open spec fn job_reading(received: Result<EventView, ErrorView>) -> Option<
    Result<Seq<char>, ErrorView>,
> {
    match received {
        Ok(event) => if is_bgapi_response(event) {
            Some(bgapi_response(event))
        } else {
            None
        },
        Err(error) => Some(Err(error)),
    }
}

/// The view of a background job's result.
pub open spec fn view_job_result(result: Option<Result<String, EslError>>) -> Option<
    Result<Seq<char>, ErrorView>,
> {
    match result {
        Some(result) => Some(view_result(result)),
        None => None,
    }
}

/// How the wait for the end of a background job ended.
pub enum JobOutcome {
    /// The frame that reports the end of the job has come.
    Finished(Event),
    /// The waiter was dropped.
    Dropped,
    /// The time given for the job has passed.
    Elapsed,
}

/// What a [`JobOutcome`] holds.
pub enum JobOutcomeView {
    /// The frame that reports the end of the job has come.
    Finished(EventView),
    /// The waiter was dropped.
    Dropped,
    /// The time given for the job has passed.
    Elapsed,
}

impl View for JobOutcome {
    type V = JobOutcomeView;

    open spec fn view(&self) -> JobOutcomeView {
        match self {
            JobOutcome::Finished(event) => JobOutcomeView::Finished(event@),
            JobOutcome::Dropped => JobOutcomeView::Dropped,
            JobOutcome::Elapsed => JobOutcomeView::Elapsed,
        }
    }
}

/// The view of the outcome of a command: `None` when its time has passed.
pub open spec fn view_outcome(outcome: Option<Result<Event, EslError>>) -> Option<
    Result<EventView, ErrorView>,
> {
    match outcome {
        Some(result) => Some(view_result(result)),
        None => None,
    }
}

impl<W> EslConnection<W> {
    /// A connection over which nothing has been sent.
    pub fn new(password: &str) -> (connection: Self)
        ensures
            connection@ == ConnectionView::<W>::fresh(password@),
    {
        EslConnection {
            password: password.to_owned(),
            commands: VecDeque::new(),
            background_jobs: StringMap::new(),
            wait_for_events: StringMap::new(),
            connected: false,
            failed: false,
            call_uuid: None,
            connection_info: None,
        }
    }

    /// One of the session parameters as a string.
    pub fn get_info_string(&self, key: &str) -> (text: Option<String>)
        ensures
            view_option(text) == match self@.info(key@) {
                Some(value) => text_of(value),
                None => None,
            },
    {
        match self.get_info(key) {
            Some(value) => match value.as_str() {
                Some(text) => Some(text.to_owned()),
                None => None,
            },
            None => None,
        }
    }

    /// One of the session parameters.
    pub fn get_info(&self, key: &str) -> (value: Option<&Value>)
        ensures
            view_option(value) == self@.info(key@),
    {
        match &self.connection_info {
            Some(info) => info.get(key),
            None => None,
        }
    }

    /// The call that an outbound connection was opened for.
    pub fn call_uuid(&self) -> (uuid: Option<String>)
        ensures
            view_option(uuid) == self@.call_uuid,
    {
        match &self.call_uuid {
            Some(uuid) => Some(uuid.clone()),
            None => None,
        }
    }

    /// Whether FreeSWITCH has accepted the password and the stream is open.
    pub fn connected(&self) -> (connected: bool)
        ensures
            connected == self@.connected,
    {
        self.connected
    }

    /// Sends `item` without waiting for an answer: gives what is to be written.
    pub fn send(&self, item: &[u8]) -> (written: Result<Vec<u8>, EslError>)
        ensures
            view_result(written) == self@.submission(item@),
    {
        if self.failed {
            return Err(EslError::ConnectionClosed);
        }
        Ok(slice_to_vec(item))
    }

    /// Sends `item` and lets `waiter` wait for the answer: gives what is to be
    /// written. The caller writes commands in the order of these calls, and
    /// reports each write with [`EslConnection::written`].
    pub fn send_recv(&mut self, item: &[u8], waiter: W) -> (written: Result<Vec<u8>, EslError>)
        ensures
            view_result(written) == old(self)@.submission(item@),
            final(self)@ == old(self)@.sent(waiter),
    {
        match self.send(item) {
            Ok(written) => {
                self.commands.push_back(waiter);
                Ok(written)
            },
            Err(error) => {
                self.fail_connection();
                Err(error)
            },
        }
    }

    /// Takes note of how the write of a command ended: after a failed one it is
    /// not known what FreeSWITCH has received, so the connection fails.
    pub fn written(&mut self, outcome: Result<(), EslError>) -> (result: Result<(), EslError>)
        ensures
            result == outcome,
            final(self)@ == old(self)@.after_write(outcome is Ok),
    {
        if outcome.is_err() {
            self.fail_connection();
        }
        outcome
    }

    /// Marks the connection as failed and drops everyone who waits.
    pub fn fail_connection(&mut self)
        ensures
            final(self)@ == old(self)@.closed(),
    {
        self.connected = false;
        self.failed = true;
        self.clear_waiters();
    }

    /// Drops everyone who waits.
    fn clear_waiters(&mut self)
        ensures
            final(self)@ == (ConnectionView {
                commands: Seq::empty(),
                background_jobs: Map::empty(),
                wait_for_events: Map::empty(),
                ..old(self)@
            }),
    {
        self.commands.clear();
        self.background_jobs.clear();
        self.wait_for_events.clear();
    }

    /// Turns what a waiter got into a result; `None` stands for a waiter that
    /// was dropped.
    pub fn recv_event(&self, received: Option<Event>) -> (result: Result<Event, EslError>)
        ensures
            view_result(result) == self@.reception(view_option(received)),
    {
        match received {
            Some(event) => Ok(event),
            None => {
                if self.failed {
                    Err(EslError::ConnectionClosed)
                } else {
                    Err(EslError::RecvError)
                }
            },
        }
    }

    /// Settles a command that was given `timeout` to complete; `None` stands for
    /// a command whose time has passed. The answers of later commands could then
    /// no longer be told from the late one, so the connection fails.
    pub fn send_recv_timeout(
        &mut self,
        outcome: Option<Result<Event, EslError>>,
        timeout: Duration,
    ) -> (result: Result<Event, EslError>)
        ensures
            view_result(result) == timed(view_outcome(outcome), timeout),
            final(self)@ == old(self)@.after_timed(view_outcome(outcome)),
    {
        match outcome {
            Some(result) => result,
            None => {
                self.fail_connection();
                Err(EslError::Timeout(timeout))
            },
        }
    }

    /// Subscribes to the given events.
    pub fn subscribe(&mut self, events: Vec<&str>, waiter: W) -> (written: Result<
        Vec<u8>,
        EslError,
    >)
        ensures
            view_result(written) == old(self)@.submission(
                encode_utf8(subscribe_text(view_strs(events@))),
            ),
            final(self)@ == old(self)@.sent(waiter),
    {
        let item: Vec<u8> = subscribe_command(&events);
        self.send_recv(item.as_slice(), waiter)
    }

    /// Gives the password.
    pub fn auth(&mut self, waiter: W) -> (written: Result<Vec<u8>, EslError>)
        ensures
            view_result(written) == old(self)@.submission(
                encode_utf8(auth_text(old(self)@.password)),
            ),
            final(self)@ == old(self)@.sent(waiter),
    {
        let item: Vec<u8> = auth_command(self.password.as_str());
        self.send_recv(item.as_slice(), waiter)
    }

    /// Reads the answer to the password: gives its text when FreeSWITCH accepts
    /// the password, and marks the connection as connected.
    pub fn auth_reply(&mut self, reply: Event) -> (result: Result<String, EslError>)
        requires
            is_auth_reply(reply@),
        ensures
            view_result(result) == auth_result(reply@),
            final(self)@ == old(self)@.after_auth(reply@),
    {
        match reply.headers.get("Reply-Text") {
            Some(value) => {
                assert(view_fields(reply.headers)["Reply-Text"@] == value@);
                match parse_api_response(value.as_str().unwrap()) {
                    Ok((code, text)) => match code {
                        Code::Success => {
                            self.connected = true;
                            Ok(text)
                        },
                        Code::Failure => Err(EslError::AuthFailed),
                        Code::Unknown => Err(
                            EslError::InternalError(
                                "Got unknown code in auth request".to_owned(),
                            ),
                        ),
                    },
                    Err(error) => Err(error),
                }
            },
            None => Err(
                EslError::InternalError("Reply-Text in auth request was not found".to_owned()),
            ),
        }
    }

    /// Whether [`EslConnection::auth_reply`] can read `reply`.
    pub fn can_read_auth_reply(reply: &Event) -> (readable: bool)
        ensures
            readable == is_auth_reply(reply@),
    {
        match reply.headers.get("Reply-Text") {
            Some(value) => match value.as_str() {
                Some(text) => can_parse_api_response(text),
                None => false,
            },
            None => true,
        }
    }

    /// Runs `command` and lets `waiter` wait for its result.
    pub fn api(&mut self, command: &str, waiter: W) -> (written: Result<Vec<u8>, EslError>)
        ensures
            view_result(written) == old(self)@.submission(encode_utf8(api_text(command@))),
            final(self)@ == old(self)@.sent(waiter),
    {
        let item: Vec<u8> = api_command(command);
        self.send_recv(item.as_slice(), waiter)
    }

    /// Settles an `api` command that was given `timeout` to complete.
    pub fn api_timeout(
        &mut self,
        outcome: Option<Result<Event, EslError>>,
        timeout: Duration,
    ) -> (result: Result<String, EslError>)
        requires
            outcome matches Some(Ok(event)) ==> is_api_event(event@),
        ensures
            view_result(result) == match timed(view_outcome(outcome), timeout) {
                Ok(event) => api_event_result(event),
                Err(error) => Err(error),
            },
            final(self)@ == old(self)@.after_timed(view_outcome(outcome)),
    {
        match self.send_recv_timeout(outcome, timeout) {
            Ok(event) => parse_api_event(event),
            Err(error) => Err(error),
        }
    }

    /// Runs `command` as a background job with a new id, which is given back.
    /// `waiter` waits for the answer to the command, `job_waiter` for the end of
    /// the job.
    pub fn bgapi(&mut self, command: &str, waiter: W, job_waiter: W) -> (started: (
        String,
        Result<Vec<u8>, EslError>,
    ))
        ensures
            is_random_uuid(started.0@),
            view_result(started.1) == old(self)@.submission(
                encode_utf8(bgapi_text(command@, started.0@)),
            ),
            final(self)@ == old(self)@.with_job(started.0@, job_waiter).sent(waiter),
    {
        let job_uuid: String = new_uuid();
        let written: Result<Vec<u8>, EslError> = self.start_bgapi(
            command,
            job_uuid.as_str(),
            waiter,
            job_waiter,
        );
        (job_uuid, written)
    }

    /// Runs `command` as the background job `job_uuid`.
    pub fn start_bgapi(&mut self, command: &str, job_uuid: &str, waiter: W, job_waiter: W) -> (written:
        Result<Vec<u8>, EslError>)
        ensures
            view_result(written) == old(self)@.submission(
                encode_utf8(bgapi_text(command@, job_uuid@)),
            ),
            final(self)@ == old(self)@.with_job(job_uuid@, job_waiter).sent(waiter),
    {
        self.background_jobs.insert(job_uuid.to_owned(), job_waiter);
        let item: Vec<u8> = bgapi_command(command, job_uuid);
        self.send_recv(item.as_slice(), waiter)
    }

    /// Turns what the waiter of a background job got into the job's result.
    /// Gives `None` when the frame's answer is not a string that can be cut.
    pub fn bgapi_result(&self, received: Option<Event>) -> (result: Option<
        Result<String, EslError>,
    >)
        ensures
            view_job_result(result) == job_reading(self@.reception(view_option(received))),
    {
        match self.recv_event(received) {
            Ok(event) => try_parse_bgapi_response(event),
            Err(error) => Some(Err(error)),
        }
    }

    /// Settles the command that starts the background job `job_uuid` and that was
    /// given `reply_timeout` to complete. When it did not succeed, nobody waits
    /// for the job any more.
    pub fn bgapi_timeout_reply(
        &mut self,
        job_uuid: &str,
        outcome: Option<Result<Event, EslError>>,
        reply_timeout: Duration,
    ) -> (result: Result<Event, EslError>)
        ensures
            view_result(result) == timed(view_outcome(outcome), reply_timeout),
            final(self)@ == old(self)@.after_job_reply(job_uuid@, view_outcome(outcome)),
    {
        match self.send_recv_timeout(outcome, reply_timeout) {
            Ok(event) => Ok(event),
            Err(error) => {
                self.background_jobs.remove(job_uuid);
                Err(error)
            },
        }
    }

    /// Settles the background job `job_uuid`, which was given `job_timeout` to
    /// complete. When its time has passed, nobody waits for the job any more, and
    /// the connection stays usable. Gives `None` when the answer that the frame
    /// reports is not a string that can be cut.
    pub fn bgapi_timeout(&mut self, job_uuid: &str, outcome: JobOutcome, job_timeout: Duration) -> (result:
        Option<Result<String, EslError>>)
        ensures
            view_job_result(result) == job_reading(
                old(self)@.job_reception(outcome@, job_timeout),
            ),
            final(self)@ == old(self)@.after_job(job_uuid@, outcome@),
    {
        match outcome {
            JobOutcome::Finished(event) => self.bgapi_result(Some(event)),
            JobOutcome::Dropped => self.bgapi_result(None),
            JobOutcome::Elapsed => {
                self.background_jobs.remove(job_uuid);
                Some(Err(EslError::Timeout(job_timeout)))
            },
        }
    }

    /// Executes an application on the call, under a new id, which is given back.
    /// `waiter` waits for the answer to the command, `job_waiter` for the end of
    /// the application.
    pub fn execute(&mut self, app_name: &str, app_args: &str, waiter: W, job_waiter: W) -> (started: (
        String,
        Result<Vec<u8>, EslError>,
    ))
        requires
            old(self)@.call_uuid is Some,
        ensures
            is_random_uuid(started.0@),
            view_result(started.1) == old(self)@.submission(
                encode_utf8(
                    execute_text(old(self)@.call_uuid->0, app_name@, app_args@, started.0@),
                ),
            ),
            final(self)@ == old(self)@.with_job(started.0@, job_waiter).sent(waiter),
    {
        let event_uuid: String = new_uuid();
        let written: Result<Vec<u8>, EslError> = self.start_execute(
            app_name,
            app_args,
            event_uuid.as_str(),
            waiter,
            job_waiter,
        );
        (event_uuid, written)
    }

    /// Executes an application on the call, under the id `event_uuid`.
    pub fn start_execute(
        &mut self,
        app_name: &str,
        app_args: &str,
        event_uuid: &str,
        waiter: W,
        job_waiter: W,
    ) -> (written: Result<Vec<u8>, EslError>)
        requires
            old(self)@.call_uuid is Some,
        ensures
            view_result(written) == old(self)@.submission(
                encode_utf8(
                    execute_text(old(self)@.call_uuid->0, app_name@, app_args@, event_uuid@),
                ),
            ),
            final(self)@ == old(self)@.with_job(event_uuid@, job_waiter).sent(waiter),
    {
        self.background_jobs.insert(event_uuid.to_owned(), job_waiter);
        let call_uuid: String = self.call_uuid().unwrap();
        let item: Vec<u8> = execute_command(call_uuid.as_str(), app_name, app_args, event_uuid);
        self.send_recv(item.as_slice(), waiter)
    }

    /// Hangs up the call.
    pub fn hangup(&mut self, reason: &str, waiter: W, job_waiter: W) -> (started: (
        String,
        Result<Vec<u8>, EslError>,
    ))
        requires
            old(self)@.call_uuid is Some,
        ensures
            is_random_uuid(started.0@),
            view_result(started.1) == old(self)@.submission(
                encode_utf8(
                    execute_text(old(self)@.call_uuid->0, "hangup"@, reason@, started.0@),
                ),
            ),
            final(self)@ == old(self)@.with_job(started.0@, job_waiter).sent(waiter),
    {
        self.execute("hangup", reason, waiter, job_waiter)
    }

    /// Answers the call.
    pub fn answer(&mut self, waiter: W, job_waiter: W) -> (started: (
        String,
        Result<Vec<u8>, EslError>,
    ))
        requires
            old(self)@.call_uuid is Some,
        ensures
            is_random_uuid(started.0@),
            view_result(started.1) == old(self)@.submission(
                encode_utf8(
                    execute_text(old(self)@.call_uuid->0, "answer"@, ""@, started.0@),
                ),
            ),
            final(self)@ == old(self)@.with_job(started.0@, job_waiter).sent(waiter),
    {
        self.execute("answer", "", waiter, job_waiter)
    }

    /// Lets `sender` wait for the event named `event` of the channel `waiter`.
    pub fn wait_for_event(&mut self, waiter: String, event: String, sender: W)
        ensures
            final(self)@ == old(self)@.with_event_waiter(event@, waiter@, sender),
    {
        let mut key: String = event;
        key.append(waiter.as_str());
        self.wait_for_events.insert(key, sender);
    }

    /// Asks FreeSWITCH to close the connection.
    pub fn disconnect(&mut self, waiter: W) -> (written: Result<Vec<u8>, EslError>)
        ensures
            view_result(written) == old(self)@.submission(encode_utf8("exit"@)),
            final(self)@ == old(self)@.sent(waiter),
    {
        self.send_recv("exit".as_bytes(), waiter)
    }

    /// Reads the answer to [`EslConnection::disconnect`]: once FreeSWITCH has
    /// answered, no command may be sent any more.
    pub fn disconnect_reply(&mut self, reply: Result<Event, EslError>) -> (result: Result<
        (),
        EslError,
    >)
        ensures
            match reply {
                Ok(_) => result is Ok,
                Err(error) => result == Err::<(), EslError>(error),
            },
            final(self)@ == old(self)@.after_disconnect(view_result(reply)),
    {
        match reply {
            Ok(_) => {
                self.connected = false;
                self.failed = true;
                Ok(())
            },
            Err(error) => Err(error),
        }
    }

    /// Takes out who waits longest for the answer to a command.
    pub(crate) fn take_command(&mut self) -> (waiter: Option<W>)
        ensures
            match waiter {
                Some(w) => old(self)@.commands.len() > 0 && w == old(self)@.commands[0]
                    && final(self)@ == (ConnectionView {
                    commands: old(self)@.commands.skip(1),
                    ..old(self)@
                }),
                None => old(self)@.commands.len() == 0 && final(self)@ == old(self)@,
            },
    {
        let ghost before = self.commands@;
        let waiter: Option<W> = self.commands.pop_front();
        assert(waiter is Some ==> self.commands@ =~= before.skip(1));
        waiter
    }

    /// Takes out who waits for the end of the job `uuid`.
    pub(crate) fn take_job(&mut self, uuid: &str) -> (waiter: Option<W>)
        ensures
            waiter == lookup(old(self)@.background_jobs, uuid@),
            final(self)@ == old(self)@.without_job(uuid@),
    {
        self.background_jobs.remove(uuid)
    }

    /// Takes out who waits for the event with the given key.
    pub(crate) fn take_event_waiter(&mut self, key: &str) -> (waiter: Option<W>)
        ensures
            waiter == lookup(old(self)@.wait_for_events, key@),
            final(self)@ == (ConnectionView {
                wait_for_events: old(self)@.wait_for_events.remove(key@),
                ..old(self)@
            }),
    {
        self.wait_for_events.remove(key)
    }

    /// Keeps the parameters of the session.
    pub(crate) fn set_connection_info(&mut self, info: StringMap<Value>)
        ensures
            final(self)@ == (ConnectionView {
                connection_info: Some(view_fields(info)),
                ..old(self)@
            }),
    {
        self.connection_info = Some(info);
    }

    /// Keeps the call that the connection was opened for.
    pub(crate) fn set_call_uuid(&mut self, uuid: String)
        ensures
            final(self)@ == (ConnectionView { call_uuid: Some(uuid@), ..old(self)@ }),
    {
        self.call_uuid = Some(uuid);
    }
}

/// What `map` holds under `key`, if anything.
pub open spec fn lookup<T>(map: Map<Seq<char>, T>, key: Seq<char>) -> Option<T> {
    if map.contains_key(key) {
        Some(map[key])
    } else {
        None
    }
}

/// Unwraps the result of a worker task; `Err` on the outside is what is known of
/// a task that did not finish.
pub fn join_esl_task<T>(joined: Result<Result<T, EslError>, String>) -> (result: Result<
    T,
    EslError,
>)
    ensures
        match joined {
            Ok(inner) => result == inner,
            Err(reason) => result matches Err(error) && error@ == ErrorView::InternalError(
                "ESL worker task failed: "@ + reason@,
            ),
        },
{
    match joined {
        Ok(result) => result,
        Err(reason) => {
            let mut text: String = "ESL worker task failed: ".to_owned();
            text.append(reason.as_str());
            Err(EslError::InternalError(text))
        },
    }
}

} // verus!
