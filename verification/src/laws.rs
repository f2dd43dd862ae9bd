//! What holds of a connection as a whole.

use crate::connection::{
    ConnectionView, JobOutcomeView, auth_result, job_reading, lookup, timed,
};
use crate::error::ErrorView;
use crate::event::{EventView, Fields, text_at, text_of};
use crate::handshake::{EslConnectionType, Handshake, first_command};
use crate::outside::json_object;
use crate::reader::{
    ReaderActionView, event_key, finished_job, has_text_names, is_channel_event,
};
use crate::response::{api_result, is_sliceable, merged};
use crate::text::{
    is_one_byte, is_white_space, lemma_boundary_after_first, lemma_boundary_before_last,
    lemma_boundary_inside, lemma_encode_concat, lemma_encode_first, lemma_word_end, lemma_word_len, word_len,
};
use std::time::Duration;
use vstd::prelude::*;
use vstd::utf8::{encode_utf8, is_char_boundary};

verus! {

/// Everything that can happen to a connection.
pub enum Operation<W> {
    /// A command is sent whose answer the waiter waits for.
    Send(W),
    /// A background job or an application is started.
    StartJob {
        /// The id of the job.
        uuid: Seq<char>,
        /// Who waits for the answer to the command.
        waiter: W,
        /// Who waits for the end of the job.
        job_waiter: W,
    },
    /// Someone begins to wait for an event of a channel.
    WaitForEvent {
        /// The name of the event.
        event: Seq<char>,
        /// The id of the channel.
        unique_id: Seq<char>,
        /// Who waits.
        waiter: W,
    },
    /// The write of a command has succeeded or failed.
    Write(bool),
    /// A command with a time limit is settled.
    Timed(Option<Result<EventView, ErrorView>>),
    /// The command that starts a job, with a time limit, is settled.
    JobReply {
        /// The id of the job.
        uuid: Seq<char>,
        /// How the command ended.
        started: Option<Result<EventView, ErrorView>>,
    },
    /// A job with a time limit is settled.
    JobSettled {
        /// The id of the job.
        uuid: Seq<char>,
        /// How the job ended.
        outcome: JobOutcomeView,
    },
    /// FreeSWITCH has answered the password.
    AuthReply(EventView),
    /// A command of the handshake was answered.
    HandshakeReply {
        /// The command.
        step: Handshake,
        /// The answer.
        reply: Result<EventView, ErrorView>,
    },
    /// The command that closes the connection was answered.
    DisconnectReply(Result<EventView, ErrorView>),
    /// The stream has given a frame, an error, or its end.
    Read(Option<Result<EventView, ErrorView>>),
    /// An event of a channel is handed to the one who waits for it.
    DispatchEvent(Fields),
    /// The end of a job is handed to the one who waits for it.
    DispatchJob(Fields),
}

/// Whether FreeSWITCH accepts the password by this operation.
pub open spec fn accepts_password<W>(operation: Operation<W>) -> bool {
    match operation {
        Operation::AuthReply(reply) => auth_result(reply) is Ok,
        Operation::HandshakeReply { step: Handshake::Auth, reply: Ok(event) } => auth_result(
            event,
        ) is Ok,
        _ => false,
    }
}

/// Whether the stream gives no more frames: it ends, fails, or brings a notice of
/// disconnection.
pub open spec fn ends_stream(input: Option<Result<EventView, ErrorView>>) -> bool {
    input matches Some(Ok(event)) ==> text_at(event.headers, "Content-Type"@) == Some(
        "text/disconnect-notice"@,
    )
}

/// Who begins to wait for the answer to a command by this operation.
pub open spec fn begins_to_wait<W>(operation: Operation<W>) -> Seq<W> {
    match operation {
        Operation::Send(waiter) => seq![waiter],
        Operation::StartJob { uuid, waiter, job_waiter } => seq![waiter],
        _ => Seq::empty(),
    }
}

impl<W> ConnectionView<W> {
    /// The connection after an operation.
    pub open spec fn after(self, operation: Operation<W>) -> Self {
        match operation {
            Operation::Send(waiter) => self.sent(waiter),
            Operation::StartJob { uuid, waiter, job_waiter } => self.with_job(
                uuid,
                job_waiter,
            ).sent(waiter),
            Operation::WaitForEvent { event, unique_id, waiter } => self.with_event_waiter(
                event,
                unique_id,
                waiter,
            ),
            Operation::Write(success) => self.after_write(success),
            Operation::Timed(outcome) => self.after_timed(outcome),
            Operation::JobReply { uuid, started } => self.after_job_reply(uuid, started),
            Operation::JobSettled { uuid, outcome } => self.after_job(uuid, outcome),
            Operation::AuthReply(reply) => self.after_auth(reply),
            Operation::HandshakeReply { step, reply } => self.advanced(step, reply).0,
            Operation::DisconnectReply(reply) => self.after_disconnect(reply),
            Operation::Read(input) => self.read(input).0,
            Operation::DispatchEvent(members) => self.event_dispatched(members),
            Operation::DispatchJob(members) => self.job_dispatched(members),
        }
    }

    /// The connection after a run of operations.
    pub open spec fn after_all(self, operations: Seq<Operation<W>>) -> Self
        decreases operations.len(),
    {
        if operations.len() == 0 {
            self
        } else {
            self.after_all(operations.drop_last()).after(operations.last())
        }
    }

    /// Whether this operation closes the connection and releases everyone who
    /// waits.
    pub open spec fn closes(self, operation: Operation<W>) -> bool {
        match operation {
            Operation::Send(_) => self.failed,
            Operation::StartJob { uuid, waiter, job_waiter } => self.failed,
            Operation::Write(success) => !success,
            Operation::Timed(outcome) => outcome is None,
            Operation::JobReply { uuid, started } => started is None,
            Operation::Read(input) => ends_stream(input),
            _ => false,
        }
    }

    /// Whether no operation of a run closes the connection.
    pub open spec fn stays_open(self, operations: Seq<Operation<W>>) -> bool
        decreases operations.len(),
    {
        operations.len() > 0 ==> self.stays_open(operations.drop_last()) && !self.after_all(
            operations.drop_last(),
        ).closes(operations.last())
    }

    /// Whether the connection fails by this operation: it is closed, or FreeSWITCH
    /// confirms that it disconnects.
    pub open spec fn fails(self, operation: Operation<W>) -> bool {
        self.closes(operation) || operation matches Operation::DisconnectReply(Ok(_))
    }

    /// Whether the connection fails by an operation of a run.
    pub open spec fn fails_during(self, operations: Seq<Operation<W>>) -> bool
        decreases operations.len(),
    {
        operations.len() > 0 && (self.fails_during(operations.drop_last()) || self.after_all(
            operations.drop_last(),
        ).fails(operations.last()))
    }

    /// Whether, in a run of operations, FreeSWITCH accepts no password once the
    /// connection has failed.
    pub open spec fn no_late_password(self, operations: Seq<Operation<W>>) -> bool
        decreases operations.len(),
    {
        operations.len() > 0 ==> self.no_late_password(operations.drop_last()) && !(self.after_all(
            operations.drop_last(),
        ).failed && accepts_password(operations.last()))
    }

    /// Who gets an answer to a command by this operation.
    pub open spec fn gets_answer(self, operation: Operation<W>) -> Seq<W> {
        match operation {
            Operation::Read(input) => match self.read(input).1 {
                ReaderActionView::Reply { waiter, event } => seq![waiter],
                _ => Seq::empty(),
            },
            _ => Seq::empty(),
        }
    }

    /// Who gets answers to commands in a run of operations, in that order.
    pub open spec fn answers(self, operations: Seq<Operation<W>>) -> Seq<W>
        decreases operations.len(),
    {
        if operations.len() == 0 {
            Seq::empty()
        } else {
            self.answers(operations.drop_last()) + self.after_all(
                operations.drop_last(),
            ).gets_answer(operations.last())
        }
    }
}

/// Who begins to wait for answers to commands in a run of operations, in that
/// order.
pub open spec fn commands_of<W>(operations: Seq<Operation<W>>) -> Seq<W>
    decreases operations.len(),
{
    if operations.len() == 0 {
        Seq::empty()
    } else {
        commands_of(operations.drop_last()) + begins_to_wait(operations.last())
    }
}

/// A connection that has failed stays so, whatever happens.
pub proof fn law_failure_is_permanent<W>(connection: ConnectionView<W>, operation: Operation<W>)
    requires
        connection.failed,
    ensures
        connection.after(operation).failed,
{
}

/// A connection fails exactly by being closed or by FreeSWITCH confirming that it
/// disconnects, and when it is closed nobody waits any more.
pub proof fn law_what_fails_a_connection<W>(
    connection: ConnectionView<W>,
    operation: Operation<W>,
)
    ensures
        connection.after(operation).failed <==> connection.failed || connection.fails(operation),
        connection.closes(operation) ==> connection.after(operation) == connection.closed(),
{
    match operation {
        Operation::JobReply { uuid, started } => {
            assert(Map::<Seq<char>, W>::empty().remove(uuid) =~= Map::<Seq<char>, W>::empty());
        },
        _ => {},
    }
}

/// A run of operations after which the connection is still usable has not closed
/// it.
pub proof fn law_usable_connection_stayed_open<W>(
    connection: ConnectionView<W>,
    operations: Seq<Operation<W>>,
)
    requires
        !connection.after_all(operations).failed,
    ensures
        connection.stays_open(operations),
    decreases operations.len(),
{
    if operations.len() > 0 {
        let init = operations.drop_last();
        law_what_fails_a_connection(connection.after_all(init), operations.last());
        law_usable_connection_stayed_open(connection, init);
    }
}

/// A connected connection stays connected until it fails: over any run of
/// operations it is connected exactly as long as it has not failed, unless
/// FreeSWITCH accepts a password after that.
pub proof fn law_connected_until_it_fails<W>(
    connection: ConnectionView<W>,
    operations: Seq<Operation<W>>,
)
    requires
        connection.connected == !connection.failed,
        connection.no_late_password(operations),
    ensures
        connection.after_all(operations).connected == !connection.after_all(operations).failed,
        connection.after_all(operations).connected <==> connection.connected
            && !connection.fails_during(operations),
    decreases operations.len(),
{
    if operations.len() > 0 {
        let init = operations.drop_last();
        law_connected_until_it_fails(connection, init);
        law_what_fails_a_connection(connection.after_all(init), operations.last());
    }
}

/// Answers go to commands in the order in which the commands were sent: over any
/// run of operations that does not close the connection, those who got an answer,
/// followed by those who still wait, are those who waited at first, followed by
/// those who sent a command since.
pub proof fn law_answers_in_order<W>(
    connection: ConnectionView<W>,
    operations: Seq<Operation<W>>,
)
    requires
        connection.stays_open(operations),
    ensures
        connection.answers(operations) + connection.after_all(operations).commands
            == connection.commands + commands_of(operations),
    decreases operations.len(),
{
    if operations.len() > 0 {
        let init = operations.drop_last();
        let before = connection.after_all(init);
        let operation = operations.last();
        law_answers_in_order(connection, init);
        let after = before.after(operation);
        assert(before.gets_answer(operation) + after.commands =~= before.commands
            + begins_to_wait(operation)) by {
            lemma_commands_step(before, operation);
        }
        assert(connection.answers(operations) + after.commands =~= connection.answers(init) + (
        before.gets_answer(operation) + after.commands));
        assert(connection.commands + commands_of(operations) =~= (connection.commands
            + commands_of(init)) + begins_to_wait(operation));
        assert((connection.answers(init) + before.commands) + begins_to_wait(operation)
            =~= connection.answers(init) + (before.commands + begins_to_wait(operation)));
    } else {
        assert(connection.answers(operations) + connection.after_all(operations).commands
            =~= connection.commands + commands_of(operations));
    }
}

/// One operation takes an answered command from the front and adds a sent one at
/// the back.
proof fn lemma_commands_step<W>(before: ConnectionView<W>, operation: Operation<W>)
    requires
        !before.closes(operation),
    ensures
        before.gets_answer(operation) + before.after(operation).commands == before.commands
            + begins_to_wait(operation),
{
    let after = before.after(operation);
    assert(before.gets_answer(operation) + after.commands =~= before.commands + begins_to_wait(
        operation,
    ));
}

/// Once a connection has failed, every command is refused, and whoever is
/// dropped learns that the connection is closed.
pub proof fn law_failed_connection_refuses<W>(
    connection: ConnectionView<W>,
    operations: Seq<Operation<W>>,
    item: Seq<u8>,
)
    requires
        connection.failed,
    ensures
        connection.after_all(operations).submission(item) == Err::<Seq<u8>, ErrorView>(
            ErrorView::ConnectionClosed,
        ),
        connection.after_all(operations).reception(None) == Err::<EventView, ErrorView>(
            ErrorView::ConnectionClosed,
        ),
    decreases operations.len(),
{
    if operations.len() > 0 {
        law_failed_connection_refuses(connection, operations.drop_last(), item);
        law_failure_is_permanent(
            connection.after_all(operations.drop_last()),
            operations.last(),
        );
    }
}

/// Nothing but an accepted password makes a failed connection count as connected
/// again.
pub proof fn law_failed_connection_is_not_connected<W>(
    connection: ConnectionView<W>,
    operation: Operation<W>,
)
    requires
        connection.failed ==> !connection.connected,
        !(connection.failed && accepts_password(operation)),
    ensures
        connection.after(operation).failed ==> !connection.after(operation).connected,
{
}

/// A connection counts as connected only once FreeSWITCH has accepted the
/// password.
pub proof fn law_connected_needs_password<W>(
    connection: ConnectionView<W>,
    operation: Operation<W>,
)
    requires
        !connection.connected,
        connection.after(operation).connected,
    ensures
        accepts_password(operation),
{
}

/// The password never changes, and the parameters and the call of the session
/// change only while the connection is opened.
pub proof fn law_session_is_fixed<W>(connection: ConnectionView<W>, operation: Operation<W>)
    ensures
        connection.after(operation).password == connection.password,
        !(operation is HandshakeReply) ==> connection.after(operation).connection_info
            == connection.connection_info && connection.after(operation).call_uuid
            == connection.call_uuid,
{
}

/// When the time of a command has passed, the connection has failed, everyone
/// who waits is released and learns that it is closed, and no later command is
/// sent.
pub proof fn law_timeout_closes_connection<W>(
    connection: ConnectionView<W>,
    timeout: Duration,
    operations: Seq<Operation<W>>,
    item: Seq<u8>,
)
    ensures
        timed(None, timeout) == Err::<EventView, ErrorView>(ErrorView::Timeout(timeout)),
        ({
            let after = connection.after(Operation::Timed(None));
            &&& !after.connected
            &&& after.failed
            &&& after.commands.len() == 0
            &&& after.background_jobs == Map::<Seq<char>, W>::empty()
            &&& after.wait_for_events == Map::<Seq<char>, W>::empty()
            &&& after.reception(None) == Err::<EventView, ErrorView>(ErrorView::ConnectionClosed)
            &&& after.after_all(operations).submission(item) == Err::<Seq<u8>, ErrorView>(
                ErrorView::ConnectionClosed,
            )
        }),
{
    law_failed_connection_refuses(connection.after(Operation::Timed(None)), operations, item);
}

/// When the time of a background job has passed, only the wait for that job ends:
/// commands are still sent and answered as before, and everyone else still waits.
pub proof fn law_job_timeout_keeps_connection<W>(
    connection: ConnectionView<W>,
    uuid: Seq<char>,
    timeout: Duration,
    item: Seq<u8>,
)
    ensures
        connection.job_reception(JobOutcomeView::Elapsed, timeout) == Err::<EventView, ErrorView>(
            ErrorView::Timeout(timeout),
        ),
        ({
            let after = connection.after(
                Operation::JobSettled { uuid, outcome: JobOutcomeView::Elapsed },
            );
            &&& !after.background_jobs.contains_key(uuid)
            &&& after.connected == connection.connected
            &&& after.failed == connection.failed
            &&& after.commands == connection.commands
            &&& after.wait_for_events == connection.wait_for_events
            &&& after.submission(item) == connection.submission(item)
            &&& forall|other: Seq<char>|
                other != uuid ==> (#[trigger] after.background_jobs.contains_key(other)
                    <==> connection.background_jobs.contains_key(other)) && (
                connection.background_jobs.contains_key(other)
                    ==> after.background_jobs[other] == connection.background_jobs[other])
        }),
{
}

/// When the command that starts a job fails or its time passes, nobody waits for
/// the job any more.
pub proof fn law_failed_start_forgets_job<W>(
    connection: ConnectionView<W>,
    uuid: Seq<char>,
    started: Option<Result<EventView, ErrorView>>,
)
    requires
        !(started matches Some(Ok(_))),
    ensures
        !connection.after(Operation::JobReply { uuid, started }).background_jobs.contains_key(uuid),
        started is None ==> connection.after(Operation::JobReply { uuid, started })
            == connection.closed(),
{
    assert(Map::<Seq<char>, W>::empty().remove(uuid) =~= Map::<Seq<char>, W>::empty());
}

/// The end of a background job is handed to the one who started it, and only
/// once.
pub proof fn law_job_end_reaches_its_waiter<W>(
    connection: ConnectionView<W>,
    uuid: Seq<char>,
    waiter: W,
    job_waiter: W,
    members: Fields,
)
    requires
        !connection.failed,
        finished_job(members) == Some(uuid),
    ensures
        ({
            let started = connection.after(Operation::StartJob { uuid, waiter, job_waiter });
            let ended = started.after(Operation::DispatchJob(members));
            &&& started.job_waiter(members) == Some(job_waiter)
            &&& ended.job_waiter(members) is None
            &&& ended.background_jobs == connection.background_jobs.remove(uuid)
            &&& ended.commands == connection.commands.push(waiter)
        }),
{
    let started = connection.after(Operation::StartJob { uuid, waiter, job_waiter });
    let ended = started.after(Operation::DispatchJob(members));
    assert(ended.background_jobs =~= connection.background_jobs.remove(uuid));
}

/// An event of a channel is handed to the one who waits for it, and only once.
pub proof fn law_event_reaches_its_waiter<W>(
    connection: ConnectionView<W>,
    event: Seq<char>,
    unique_id: Seq<char>,
    waiter: W,
    members: Fields,
)
    requires
        text_at(members, "Event-Name"@) == Some(event),
        text_at(members, "Unique-ID"@) == Some(unique_id),
    ensures
        ({
            let waiting = connection.after(
                Operation::WaitForEvent { event, unique_id, waiter },
            );
            let ended = waiting.after(Operation::DispatchEvent(members));
            &&& waiting.event_waiter(members) == Some(waiter)
            &&& ended.event_waiter(members) is None
            &&& ended.wait_for_events == connection.wait_for_events.remove(event + unique_id)
        }),
{
    let waiting = connection.after(Operation::WaitForEvent { event, unique_id, waiter });
    let ended = waiting.after(Operation::DispatchEvent(members));
    assert(is_channel_event(members));
    assert(ended.wait_for_events =~= connection.wait_for_events.remove(event + unique_id));
}

/// Whether the wait for the end of the job `uuid` ends by this operation, or
/// someone else begins to wait for it.
pub open spec fn touches_job<W>(operation: Operation<W>, uuid: Seq<char>) -> bool {
    match operation {
        Operation::StartJob { uuid: other, waiter, job_waiter } => other == uuid,
        Operation::JobReply { uuid: other, started } => other == uuid && !(started matches Some(
            Ok(_),
        )),
        Operation::JobSettled { uuid: other, outcome } => other == uuid && outcome is Elapsed,
        Operation::DispatchJob(members) => finished_job(members) == Some(uuid),
        _ => false,
    }
}

/// Whoever waits for the end of a job goes on waiting over any run of operations
/// that neither closes the connection nor touches the job.
pub proof fn law_job_keeps_its_waiter<W>(
    connection: ConnectionView<W>,
    operations: Seq<Operation<W>>,
    uuid: Seq<char>,
)
    requires
        connection.background_jobs.contains_key(uuid),
        connection.stays_open(operations),
        forall|i: int| 0 <= i < operations.len() ==> !touches_job(#[trigger] operations[i], uuid),
    ensures
        connection.after_all(operations).background_jobs.contains_key(uuid),
        connection.after_all(operations).background_jobs[uuid] == connection.background_jobs[uuid],
    decreases operations.len(),
{
    if operations.len() > 0 {
        let init = operations.drop_last();
        assert(forall|i: int| 0 <= i < init.len() ==> #[trigger] init[i] == operations[i]);
        assert(!touches_job(operations[operations.len() - 1], uuid));
        law_job_keeps_its_waiter(connection, init, uuid);
    }
}

/// Whether the wait for the event with the given key ends by this operation, or
/// someone else begins to wait for it.
pub open spec fn touches_event<W>(operation: Operation<W>, key: Seq<char>) -> bool {
    match operation {
        Operation::WaitForEvent { event, unique_id, waiter } => event + unique_id == key,
        Operation::DispatchEvent(members) => event_key(members) == Some(key),
        _ => false,
    }
}

/// Whoever waits for an event goes on waiting over any run of operations that
/// neither closes the connection nor touches the event.
pub proof fn law_event_keeps_its_waiter<W>(
    connection: ConnectionView<W>,
    operations: Seq<Operation<W>>,
    key: Seq<char>,
)
    requires
        connection.wait_for_events.contains_key(key),
        connection.stays_open(operations),
        forall|i: int| 0 <= i < operations.len() ==> !touches_event(#[trigger] operations[i], key),
    ensures
        connection.after_all(operations).wait_for_events.contains_key(key),
        connection.after_all(operations).wait_for_events[key] == connection.wait_for_events[key],
    decreases operations.len(),
{
    if operations.len() > 0 {
        let init = operations.drop_last();
        assert(forall|i: int| 0 <= i < init.len() ==> #[trigger] init[i] == operations[i]);
        assert(!touches_event(operations[operations.len() - 1], key));
        law_event_keeps_its_waiter(connection, init, key);
    }
}

/// An event that belongs to a channel is published under its name, whatever its
/// other members are; the one who waits for that event of that channel is then
/// taken out and gets it, and everyone else still waits.
pub proof fn law_channel_event_is_delivered<W>(
    connection: ConnectionView<W>,
    event: EventView,
    body: Seq<char>,
    members: Fields,
    name: Seq<char>,
    unique_id: Seq<char>,
)
    requires
        text_at(event.headers, "Content-Type"@) == Some("text/event-json"@),
        event.body == Some(body),
        json_object(body) == Some(members),
        text_at(members, "Event-Name"@) == Some(name),
        text_at(members, "Unique-ID"@) == Some(unique_id),
    ensures
        connection.received(event) == (
            connection,
            ReaderActionView::<W>::Publish { event, members, name: Some(name) },
        ),
        has_text_names(members),
        connection.event_waiter(members) == lookup(connection.wait_for_events, name + unique_id),
        ({
            let after = connection.after(Operation::DispatchEvent(members));
            &&& after == (ConnectionView { wait_for_events: after.wait_for_events, ..connection })
            &&& !after.wait_for_events.contains_key(name + unique_id)
            &&& forall|other: Seq<char>|
                other != name + unique_id ==> #[trigger] lookup(after.wait_for_events, other)
                    == lookup(connection.wait_for_events, other)
        }),
{
    reveal_strlit("text/event-json");
    reveal_strlit("text/disconnect-notice");
    assert("text/event-json"@.len() != "text/disconnect-notice"@.len());
}

/// An event that has no name or no channel is published without a name, whatever
/// its other members are, and everyone who waits for an event still waits.
pub proof fn law_other_event_reaches_no_event_waiter<W>(
    connection: ConnectionView<W>,
    event: EventView,
    body: Seq<char>,
    members: Fields,
)
    requires
        text_at(event.headers, "Content-Type"@) == Some("text/event-json"@),
        event.body == Some(body),
        json_object(body) == Some(members),
        !members.contains_key("Event-Name"@) || !members.contains_key("Unique-ID"@),
    ensures
        connection.received(event) == (
            connection,
            ReaderActionView::<W>::Publish { event, members, name: None },
        ),
        has_text_names(members),
        connection.event_waiter(members) is None,
        connection.after(Operation::DispatchEvent(members)) == connection,
{
    reveal_strlit("text/event-json");
    reveal_strlit("text/disconnect-notice");
    assert("text/event-json"@.len() != "text/disconnect-notice"@.len());
}

/// An event never passes for the answer to a command.
pub proof fn law_event_answers_no_command<W>(connection: ConnectionView<W>, event: EventView)
    requires
        text_at(event.headers, "Content-Type"@) == Some("text/event-json"@),
    ensures
        connection.received(event).0 == connection,
        !(connection.received(event).1 is Reply),
{
    reveal_strlit("text/event-json");
    reveal_strlit("text/disconnect-notice");
    assert("text/event-json"@.len() != "text/disconnect-notice"@.len());
}

/// The reader stops exactly when the stream ends, fails, or brings a notice of
/// disconnection; everyone who waits is then released, and otherwise the
/// connection has failed only if it had before.
pub proof fn law_reader_stops_only_at_the_end<W>(
    connection: ConnectionView<W>,
    input: Option<Result<EventView, ErrorView>>,
)
    ensures
        ({
            let (after, action) = connection.read(input);
            &&& action is Stop <==> ends_stream(input)
            &&& action is Stop ==> after == connection.closed()
            &&& !(action is Stop) ==> after.failed == connection.failed && after.connected
                == connection.connected && after.background_jobs == connection.background_jobs
                && after.wait_for_events == connection.wait_for_events
        }),
{
}

/// A frame with an event that cannot be understood, because its content type is
/// not a string, its body is missing, or its body is not a JSON object, is
/// dropped and changes nothing.
pub proof fn law_malformed_event_changes_nothing<W>(
    connection: ConnectionView<W>,
    event: EventView,
)
    requires
        event.headers.contains_key("Content-Type"@),
        match text_of(event.headers["Content-Type"@]) {
            Some(content_type) => content_type == "text/event-json"@ && (event.body matches Some(
                body,
            ) ==> json_object(body) is None),
            None => true,
        },
    ensures
        connection.received(event) == (connection, ReaderActionView::<W>::Discard),
{
    reveal_strlit("text/event-json");
    reveal_strlit("text/disconnect-notice");
    assert("text/event-json"@.len() != "text/disconnect-notice"@.len());
}

/// An answer of `+OK`, a white space, a text and one more character gives the text
/// back, where the white space and the last character take up one byte each.
pub proof fn law_success_gives_text(space: char, text: Seq<char>, last: char)
    requires
        is_white_space(space),
        is_one_byte(space),
        is_one_byte(last),
    ensures
        is_sliceable("+OK"@ + seq![space] + text + seq![last]),
        api_result("+OK"@ + seq![space] + text + seq![last]) == Ok::<Seq<char>, ErrorView>(text),
{
    reveal_strlit("+OK");
    let body = "+OK"@ + seq![space] + text + seq![last];
    lemma_word_len(body, 3);
    assert(body.take(3) =~= "+OK"@);
    assert(body.subrange(4, body.len() - 1) =~= text);
}

/// An answer of `-ERR`, a white space, a text and one more character is an error
/// with that text, where the white space and the last character take up one byte
/// each.
pub proof fn law_failure_gives_error(space: char, text: Seq<char>, last: char)
    requires
        is_white_space(space),
        is_one_byte(space),
        is_one_byte(last),
    ensures
        is_sliceable("-ERR"@ + seq![space] + text + seq![last]),
        api_result("-ERR"@ + seq![space] + text + seq![last]) == Err::<Seq<char>, ErrorView>(
            ErrorView::ApiError(text),
        ),
{
    reveal_strlit("-ERR");
    reveal_strlit("+OK");
    let body = "-ERR"@ + seq![space] + text + seq![last];
    lemma_word_len(body, 4);
    assert(body.take(4) =~= "-ERR"@);
    assert(body.take(4) != "+OK"@);
    assert(body.subrange(5, body.len() - 1) =~= text);
}

/// An answer that starts with any other word is given back whole.
pub proof fn law_other_answer_is_whole(body: Seq<char>)
    requires
        word_len(body) < body.len(),
        body.take(word_len(body) as int) != "+OK"@,
        body.take(word_len(body) as int) != "-ERR"@,
    ensures
        api_result(body) == Ok::<Seq<char>, ErrorView>(body),
{
}

/// An answer without white space is not understood.
pub proof fn law_answer_needs_white_space(body: Seq<char>)
    requires
        forall|i: int| 0 <= i < body.len() ==> !is_white_space(#[trigger] body[i]),
    ensures
        api_result(body) == Err::<Seq<char>, ErrorView>(
            ErrorView::InternalError("Unable to find space index"@),
        ),
{
    lemma_word_end(body);
    if word_len(body) < body.len() {
        assert(is_white_space(body[word_len(body) as int]));
    }
}

/// An answer can be cut exactly when the byte after the first white space and the
/// last byte both begin a character, and what is cut out are then the bytes
/// between them.
pub proof fn law_answer_is_cut_between_characters(body: Seq<char>)
    requires
        word_len(body) < body.len(),
    ensures
        ({
            let end = word_len(body) as int;
            let bytes = encode_utf8(body);
            let space_index = encode_utf8(body.take(end)).len() as int;
            &&& is_sliceable(body) <==> is_char_boundary(bytes, space_index + 1)
                && is_char_boundary(bytes, bytes.len() - 1)
            &&& is_sliceable(body) ==> (space_index + 1 < bytes.len() <==> end + 1 < body.len())
            &&& is_sliceable(body) && end + 1 < body.len() ==> bytes.subrange(
                space_index + 1,
                bytes.len() - 1,
            ) == encode_utf8(body.subrange(end + 1, body.len() - 1))
        }),
{
    let end = word_len(body) as int;
    let bytes = encode_utf8(body);
    let space_index = encode_utf8(body.take(end)).len() as int;
    let n = body.len() as int;
    lemma_boundary_inside(body, end, 1);
    lemma_boundary_after_first(body.skip(end));
    lemma_boundary_before_last(body);
    assert(body =~= body.take(end) + body.skip(end));
    lemma_encode_concat(body.take(end), body.skip(end));
    lemma_encode_first(body.skip(end));
    assert(body.skip(end).drop_first() =~= body.skip(end + 1));
    if end + 1 < n {
        let text = body.subrange(end + 1, n - 1);
        assert(body.skip(end + 1) =~= text + seq![body.last()]);
        lemma_encode_concat(text, seq![body.last()]);
        lemma_encode_first(seq![body.last()]);
        assert(seq![body.last()].drop_first() =~= Seq::empty());
        if is_sliceable(body) {
            assert(bytes.subrange(space_index + 1, bytes.len() - 1) =~= encode_utf8(text));
        }
    }
}

/// The result of a background job is read from the member `_body` of the JSON
/// body as the answer to a command is read from the body of its frame.
pub proof fn law_job_result_is_its_answer(event: EventView, members: Fields, answer: Seq<char>)
    requires
        event.body matches Some(body) && json_object(body) == Some(members),
        text_at(members, "_body"@) == Some(answer),
        is_sliceable(answer),
    ensures
        job_reading(Ok(event)) == Some(api_result(answer)),
{
    assert(merged(event.headers, members)["_body"@] == members["_body"@]);
}

/// A password that FreeSWITCH refuses leaves the connection as it was.
pub proof fn law_refused_password<W>(
    connection: ConnectionView<W>,
    reply: EventView,
    space: char,
    text: Seq<char>,
)
    requires
        is_white_space(space),
        text_at(reply.headers, "Reply-Text"@) == Some("-ERR"@ + seq![space] + text),
    ensures
        auth_result(reply) == Err::<Seq<char>, ErrorView>(ErrorView::AuthFailed),
        connection.after(Operation::AuthReply(reply)) == connection,
{
    reveal_strlit("-ERR");
    reveal_strlit("+OK");
    let body = "-ERR"@ + seq![space] + text;
    lemma_word_len(body, 4);
    assert(body.take(4) =~= "-ERR"@);
    assert(body.take(4) != "+OK"@);
}

/// A password that FreeSWITCH accepts makes the connection connected.
pub proof fn law_accepted_password<W>(
    connection: ConnectionView<W>,
    reply: EventView,
    space: char,
    text: Seq<char>,
)
    requires
        is_white_space(space),
        text_at(reply.headers, "Reply-Text"@) == Some("+OK"@ + seq![space] + text),
    ensures
        auth_result(reply) is Ok,
        connection.after(Operation::AuthReply(reply)).connected,
{
    reveal_strlit("+OK");
    let body = "+OK"@ + seq![space] + text;
    lemma_word_len(body, 3);
    assert(body.take(3) =~= "+OK"@);
}

/// The handshake of a connection to FreeSWITCH is the password and a
/// subscription.
pub proof fn law_inbound_handshake<W>(
    connection: ConnectionView<W>,
    auth: EventView,
    subscribed: EventView,
)
    requires
        auth_result(auth) is Ok,
    ensures
        first_command(EslConnectionType::Inbound) == Handshake::Auth,
        connection.advanced(Handshake::Auth, Ok(auth)) == (
            (ConnectionView { connected: true, ..connection }),
            Ok::<Handshake, ErrorView>(Handshake::Subscribe),
        ),
        (ConnectionView { connected: true, ..connection }).advanced(
            Handshake::Subscribe,
            Ok(subscribed),
        ) == (
            (ConnectionView { connected: true, ..connection }),
            Ok::<Handshake, ErrorView>(Handshake::Done),
        ),
{
}

/// The handshake of a connection that FreeSWITCH opened asks for the session,
/// subscribes, asks for the events of the call, and ends with the parameters of
/// the session and the call that they name.
pub proof fn law_outbound_handshake<W>(
    connection: ConnectionView<W>,
    session: EventView,
    subscribed: EventView,
    my_events: EventView,
    call_uuid: Seq<char>,
)
    requires
        text_at(session.headers, "Channel-Unique-ID"@) == Some(call_uuid),
    ensures
        first_command(EslConnectionType::Outbound) == Handshake::Connect,
        ({
            let (second, step2) = connection.advanced(Handshake::Connect, Ok(session));
            let (third, step3) = second.advanced(Handshake::SubscribeCall, Ok(subscribed));
            let (last, step4) = third.advanced(Handshake::MyEvents, Ok(my_events));
            &&& step2 == Ok::<Handshake, ErrorView>(Handshake::SubscribeCall)
            &&& step3 == Ok::<Handshake, ErrorView>(Handshake::MyEvents)
            &&& step4 == Ok::<Handshake, ErrorView>(Handshake::Done)
            &&& third.is_handshake_reply(Handshake::MyEvents, Ok(my_events))
            &&& last == (ConnectionView {
                connection_info: Some(session.headers),
                call_uuid: Some(call_uuid),
                ..connection
            })
        }),
{
}

} // verus!
