//! What holds of each step of a connection.

use crate::connection::{
    ConnectionView, JobOutcomeView, auth_result, is_auth_reply, job_reading, lookup, timed,
};
use crate::error::ErrorView;
use crate::event::{EventView, Fields, ValueView};
use crate::handshake::Handshake;
use crate::answer_laws::{law_job_comes_to_its_answer, law_password_answer};
use crate::outside::json_object;
use crate::reader::{ReaderActionView, has_text_job, has_text_names};
use crate::response::{api_result, is_sliceable};
use crate::text::is_white_space;
use std::time::Duration;
use vstd::prelude::*;

verus! {

/// Over a new connection nothing was sent, nobody waits, and only the password is
/// known.
pub proof fn law_new_connection<W>(password: Seq<char>, item: Seq<u8>)
    ensures
        ({
            let connection = ConnectionView::<W>::fresh(password);
            &&& connection.password == password
            &&& connection.commands == Seq::<W>::empty()
            &&& connection.background_jobs == Map::<Seq<char>, W>::empty()
            &&& connection.wait_for_events == Map::<Seq<char>, W>::empty()
            &&& !connection.connected
            &&& !connection.failed
            &&& connection.call_uuid is None
            &&& connection.connection_info is None
            &&& connection.submission(item) == Ok::<Seq<u8>, ErrorView>(item)
        }),
{
}

/// When a connection is closed, nobody waits any more and no command may be sent,
/// while what is known of the session stays known.
pub proof fn law_closed_connection<W>(connection: ConnectionView<W>, item: Seq<u8>)
    ensures
        ({
            let after = connection.closed();
            &&& after.commands == Seq::<W>::empty()
            &&& after.background_jobs == Map::<Seq<char>, W>::empty()
            &&& after.wait_for_events == Map::<Seq<char>, W>::empty()
            &&& !after.connected
            &&& after.failed
            &&& after.password == connection.password
            &&& after.call_uuid == connection.call_uuid
            &&& after.connection_info == connection.connection_info
            &&& after.submission(item) == Err::<Seq<u8>, ErrorView>(ErrorView::ConnectionClosed)
        }),
{
}

/// What is found under a key is what is stored there.
pub proof fn law_lookup<T>(map: Map<Seq<char>, T>, key: Seq<char>, value: T)
    ensures
        map.contains_pair(key, value) <==> lookup(map, key) == Some(value),
        !map.contains_key(key) <==> lookup(map, key) is None,
{
}

/// A session parameter is given as it was received, and is unknown without a
/// session.
pub proof fn law_session_parameter<W>(
    connection: ConnectionView<W>,
    info: Fields,
    key: Seq<char>,
    value: ValueView,
)
    ensures
        connection.connection_info is None ==> connection.info(key) is None,
        connection.connection_info == Some(info) ==> {
            &&& info.contains_pair(key, value) ==> connection.info(key) == Some(value)
            &&& !info.contains_key(key) ==> connection.info(key) is None
        },
{
}

/// A command is written as it is, byte for byte, and its waiter waits behind
/// everyone who waits already; on a failed connection nothing is written, and
/// everyone is released.
pub proof fn law_command_is_written_whole<W>(
    connection: ConnectionView<W>,
    item: Seq<u8>,
    waiter: W,
)
    ensures
        !connection.failed ==> {
            let after = connection.sent(waiter);
            &&& connection.submission(item) == Ok::<Seq<u8>, ErrorView>(item)
            &&& after.commands.len() == connection.commands.len() + 1
            &&& after.commands.last() == waiter
            &&& after.commands.drop_last() == connection.commands
            &&& after == (ConnectionView { commands: after.commands, ..connection })
        },
        connection.failed ==> {
            let after = connection.sent(waiter);
            &&& connection.submission(item) == Err::<Seq<u8>, ErrorView>(
                ErrorView::ConnectionClosed,
            )
            &&& after.commands == Seq::<W>::empty()
            &&& after.background_jobs == Map::<Seq<char>, W>::empty()
            &&& after.wait_for_events == Map::<Seq<char>, W>::empty()
            &&& !after.connected
            &&& after.failed
        },
{
    if !connection.failed {
        assert(connection.sent(waiter).commands.drop_last() =~= connection.commands);
    }
}

/// Whoever starts a job waits for it under its id, and everyone else waits as
/// before.
pub proof fn law_job_is_registered<W>(
    connection: ConnectionView<W>,
    uuid: Seq<char>,
    waiter: W,
    job_waiter: W,
    other: Seq<char>,
)
    requires
        !connection.failed,
    ensures
        ({
            let after = connection.with_job(uuid, job_waiter).sent(waiter);
            &&& after.background_jobs.contains_pair(uuid, job_waiter)
            &&& other != uuid ==> lookup(after.background_jobs, other) == lookup(
                connection.background_jobs,
                other,
            )
            &&& after.commands == connection.commands.push(waiter)
            &&& after == (ConnectionView {
                background_jobs: after.background_jobs,
                commands: after.commands,
                ..connection
            })
        }),
        ({
            let after = connection.without_job(uuid);
            &&& !after.background_jobs.contains_key(uuid)
            &&& other != uuid ==> lookup(after.background_jobs, other) == lookup(
                connection.background_jobs,
                other,
            )
            &&& after == (ConnectionView { background_jobs: after.background_jobs, ..connection })
        }),
{
}

/// Whoever waits for an event of a channel is found under the name of the event
/// followed by the id of the channel, and everyone else waits as before.
pub proof fn law_event_waiter_is_registered<W>(
    connection: ConnectionView<W>,
    event: Seq<char>,
    unique_id: Seq<char>,
    waiter: W,
    other: Seq<char>,
)
    ensures
        ({
            let after = connection.with_event_waiter(event, unique_id, waiter);
            &&& after.wait_for_events.contains_pair(event + unique_id, waiter)
            &&& other != event + unique_id ==> lookup(after.wait_for_events, other) == lookup(
                connection.wait_for_events,
                other,
            )
            &&& after == (ConnectionView { wait_for_events: after.wait_for_events, ..connection })
        }),
{
}

/// A waiter gets exactly the frame that was handed to it, with all its headers and
/// its whole body; one that was dropped learns whether the connection has failed.
pub proof fn law_waiter_gets_its_frame<W>(connection: ConnectionView<W>, event: EventView)
    ensures
        connection.reception(Some(event)) == Ok::<EventView, ErrorView>(event),
        connection.failed ==> connection.reception(None) == Err::<EventView, ErrorView>(
            ErrorView::ConnectionClosed,
        ),
        !connection.failed ==> connection.reception(None) == Err::<EventView, ErrorView>(
            ErrorView::RecvError,
        ),
{
}

/// A command that completes in time gives exactly what came of it, and leaves the
/// connection as it is; one whose time has passed gives that time as an error, and
/// closes the connection.
pub proof fn law_command_in_time<W>(
    connection: ConnectionView<W>,
    result: Result<EventView, ErrorView>,
    timeout: Duration,
)
    ensures
        timed(Some(result), timeout) == result,
        connection.after_timed(Some(result)) == connection,
        timed(None, timeout) == Err::<EventView, ErrorView>(ErrorView::Timeout(timeout)),
        connection.after_timed(None) == connection.closed(),
{
}

/// A write that succeeds changes nothing, and one that fails closes the
/// connection.
pub proof fn law_write<W>(connection: ConnectionView<W>)
    ensures
        connection.after_write(true) == connection,
        connection.after_write(false) == connection.closed(),
{
}

/// A job that was started is still waited for; one whose command failed is
/// forgotten, and nothing else is; one whose command took too long closes the
/// connection.
pub proof fn law_job_command<W>(
    connection: ConnectionView<W>,
    uuid: Seq<char>,
    event: EventView,
    error: ErrorView,
    other: Seq<char>,
)
    ensures
        connection.after_job_reply(uuid, Some(Ok(event))) == connection,
        ({
            let after = connection.after_job_reply(uuid, Some(Err(error)));
            &&& !after.background_jobs.contains_key(uuid)
            &&& other != uuid ==> lookup(after.background_jobs, other) == lookup(
                connection.background_jobs,
                other,
            )
            &&& after == (ConnectionView { background_jobs: after.background_jobs, ..connection })
        }),
        connection.after_job_reply(uuid, None) == connection.closed(),
{
    assert(Map::<Seq<char>, W>::empty().remove(uuid) =~= Map::<Seq<char>, W>::empty());
}

/// A job that ends in time gives exactly the frame that reports it; one whose
/// waiter was dropped gives what became of the connection; one whose time has
/// passed gives that time as an error, and is forgotten, and nothing else is.
pub proof fn law_job_in_time<W>(
    connection: ConnectionView<W>,
    uuid: Seq<char>,
    event: EventView,
    timeout: Duration,
    other: Seq<char>,
)
    ensures
        connection.job_reception(JobOutcomeView::Finished(event), timeout) == Ok::<
            EventView,
            ErrorView,
        >(event),
        connection.failed ==> connection.job_reception(JobOutcomeView::Dropped, timeout) == Err::<
            EventView,
            ErrorView,
        >(ErrorView::ConnectionClosed),
        !connection.failed ==> connection.job_reception(JobOutcomeView::Dropped, timeout) == Err::<
            EventView,
            ErrorView,
        >(ErrorView::RecvError),
        connection.job_reception(JobOutcomeView::Elapsed, timeout) == Err::<EventView, ErrorView>(
            ErrorView::Timeout(timeout),
        ),
        connection.after_job(uuid, JobOutcomeView::Finished(event)) == connection,
        connection.after_job(uuid, JobOutcomeView::Dropped) == connection,
        ({
            let after = connection.after_job(uuid, JobOutcomeView::Elapsed);
            &&& !after.background_jobs.contains_key(uuid)
            &&& other != uuid ==> lookup(after.background_jobs, other) == lookup(
                connection.background_jobs,
                other,
            )
            &&& after == (ConnectionView { background_jobs: after.background_jobs, ..connection })
        }),
{
}

/// Once FreeSWITCH confirms that it disconnects, the connection counts as failed
/// and not connected, and nothing else changes; otherwise nothing changes at all.
pub proof fn law_disconnected<W>(
    connection: ConnectionView<W>,
    event: EventView,
    error: ErrorView,
)
    ensures
        ({
            let after = connection.after_disconnect(Ok(event));
            &&& !after.connected
            &&& after.failed
            &&& after.password == connection.password
            &&& after.commands == connection.commands
            &&& after.background_jobs == connection.background_jobs
            &&& after.wait_for_events == connection.wait_for_events
            &&& after.call_uuid == connection.call_uuid
            &&& after.connection_info == connection.connection_info
        }),
        connection.after_disconnect(Err(error)) == connection,
{
}

/// The answer to the password decides over the connection by its first word:
/// `+OK` makes it connected and goes on to the subscription, `-ERR` refuses it,
/// and nothing else changes.
pub proof fn law_password_decides<W>(
    connection: ConnectionView<W>,
    reply: EventView,
    word: Seq<char>,
    space: char,
    text: Seq<char>,
    last: char,
)
    requires
        forall|i: int| 0 <= i < word.len() ==> !is_white_space(#[trigger] word[i]),
        is_white_space(space),
        reply.headers.contains_pair(
            "Reply-Text"@,
            ValueView::Text(word + seq![space] + text + seq![last]),
        ),
    ensures
        word == "+OK"@ ==> {
            &&& connection.after_auth(reply) == (ConnectionView { connected: true, ..connection })
            &&& connection.advanced(Handshake::Auth, Ok(reply)) == (
                (ConnectionView { connected: true, ..connection }),
                Ok::<Handshake, ErrorView>(Handshake::Subscribe),
            )
        },
        word == "-ERR"@ ==> {
            &&& connection.after_auth(reply) == connection
            &&& connection.advanced(Handshake::Auth, Ok(reply)) == (
                connection,
                Err::<Handshake, ErrorView>(ErrorView::AuthFailed),
            )
        },
        word != "+OK"@ && word != "-ERR"@ ==> {
            &&& connection.after_auth(reply) == connection
            &&& connection.advanced(Handshake::Auth, Ok(reply)) == (
                connection,
                Err::<Handshake, ErrorView>(
                    ErrorView::InternalError("Got unknown code in auth request"@),
                ),
            )
        },
{
    law_password_answer(reply, word, space, text, last);
    reveal_strlit("+OK");
    reveal_strlit("-ERR");
    assert("+OK"@.len() != "-ERR"@.len());
}

/// Whatever the answer to the password is: what it comes to decides whether the
/// handshake goes on, and a connection that is connected stays so.
pub proof fn law_any_password_answer<W>(connection: ConnectionView<W>, reply: EventView)
    ensures
        auth_result(reply) is Ok ==> connection.after_auth(reply) == (ConnectionView {
            connected: true,
            ..connection
        }),
        auth_result(reply) is Err ==> connection.after_auth(reply) == connection,
        connection.advanced(Handshake::Auth, Ok(reply)).0 == connection.after_auth(reply),
        auth_result(reply) is Ok ==> connection.advanced(Handshake::Auth, Ok(reply)).1 == Ok::<
            Handshake,
            ErrorView,
        >(Handshake::Subscribe),
        auth_result(reply) matches Err(error) ==> connection.advanced(
            Handshake::Auth,
            Ok(reply),
        ).1 == Err::<Handshake, ErrorView>(error),
        connection.is_handshake_reply(Handshake::Auth, Ok(reply)) <==> is_auth_reply(reply),
{
}

/// The other steps of the handshake: the subscription ends it on a connection to
/// FreeSWITCH; on one that FreeSWITCH opened, the headers of the first answer
/// become the parameters of the session, and the string that they hold under
/// `Channel-Unique-ID` becomes the call. A step that fails ends the handshake with
/// its error.
pub proof fn law_handshake_steps<W>(
    connection: ConnectionView<W>,
    step: Handshake,
    event: EventView,
    error: ErrorView,
    info: Fields,
    call_uuid: Seq<char>,
    json: Seq<char>,
)
    ensures
        connection.advanced(step, Err(error)) == (connection, Err::<Handshake, ErrorView>(error)),
        connection.is_handshake_reply(step, Err(error)),
        connection.advanced(Handshake::Subscribe, Ok(event)) == (
            connection,
            Ok::<Handshake, ErrorView>(Handshake::Done),
        ),
        connection.advanced(Handshake::Connect, Ok(event)) == (
            (ConnectionView { connection_info: Some(event.headers), ..connection }),
            Ok::<Handshake, ErrorView>(Handshake::SubscribeCall),
        ),
        connection.advanced(Handshake::SubscribeCall, Ok(event)) == (
            connection,
            Ok::<Handshake, ErrorView>(Handshake::MyEvents),
        ),
        connection.is_handshake_reply(Handshake::Subscribe, Ok(event)),
        connection.is_handshake_reply(Handshake::Connect, Ok(event)),
        connection.is_handshake_reply(Handshake::SubscribeCall, Ok(event)),
        !connection.is_handshake_reply(Handshake::Done, Ok(event)),
        connection.connection_info == Some(info) ==> {
            &&& info.contains_pair("Channel-Unique-ID"@, ValueView::Text(call_uuid)) ==> {
                &&& connection.is_handshake_reply(Handshake::MyEvents, Ok(event))
                &&& connection.advanced(Handshake::MyEvents, Ok(event)) == (
                    (ConnectionView { call_uuid: Some(call_uuid), ..connection }),
                    Ok::<Handshake, ErrorView>(Handshake::Done),
                )
            }
            &&& info.contains_pair("Channel-Unique-ID"@, ValueView::Other(json))
                ==> !connection.is_handshake_reply(Handshake::MyEvents, Ok(event))
            &&& !info.contains_key("Channel-Unique-ID"@) ==> !connection.is_handshake_reply(
                Handshake::MyEvents,
                Ok(event),
            )
        },
        connection.connection_info is None ==> !connection.is_handshake_reply(
            Handshake::MyEvents,
            Ok(event),
        ),
{
}

/// A frame that is neither an event nor a notice of disconnection is the answer to
/// the oldest command, and is handed on as it came; when no command waits, it is
/// dropped.
pub proof fn law_frame_answers_the_oldest_command<W>(
    connection: ConnectionView<W>,
    event: EventView,
    content_type: Seq<char>,
    waiter: W,
    others: Seq<W>,
)
    requires
        !event.headers.contains_key("Content-Type"@) || event.headers.contains_pair(
            "Content-Type"@,
            ValueView::Text(content_type),
        ),
        content_type != "text/event-json"@,
        content_type != "text/disconnect-notice"@,
    ensures
        connection.commands == seq![waiter] + others ==> connection.received(event) == (
            (ConnectionView { commands: others, ..connection }),
            ReaderActionView::<W>::Reply { waiter, event },
        ),
        connection.commands.len() == 0 ==> connection.received(event) == (
            connection,
            ReaderActionView::<W>::Discard,
        ),
{
    if connection.commands == seq![waiter] + others {
        assert((seq![waiter] + others).skip(1) =~= others);
        assert(connection.commands[0] == waiter);
    }
}

/// A command that is sent while no other waits gets the next answer exactly as it
/// came, and then everything is as before it was sent.
pub proof fn law_command_and_answer<W>(
    connection: ConnectionView<W>,
    waiter: W,
    event: EventView,
    content_type: Seq<char>,
)
    requires
        !connection.failed,
        connection.commands.len() == 0,
        event.headers.contains_pair("Content-Type"@, ValueView::Text(content_type)),
        content_type != "text/event-json"@,
        content_type != "text/disconnect-notice"@,
    ensures
        connection.sent(waiter).read(Some(Ok(event))) == (
            connection,
            ReaderActionView::<W>::Reply { waiter, event },
        ),
{
    law_frame_answers_the_oldest_command(
        connection.sent(waiter),
        event,
        content_type,
        waiter,
        Seq::empty(),
    );
    assert(connection.sent(waiter).commands =~= seq![waiter] + Seq::<W>::empty());
    assert(connection.commands =~= Seq::<W>::empty());
}

/// A notice of disconnection, the end of the stream, and an error of the stream
/// stop the reader and close the connection; every frame is else taken for what it
/// is.
pub proof fn law_reader_stops<W>(
    connection: ConnectionView<W>,
    event: EventView,
    error: ErrorView,
)
    ensures
        event.headers.contains_pair("Content-Type"@, ValueView::Text("text/disconnect-notice"@))
            ==> connection.received(event) == (
            connection.closed(),
            ReaderActionView::<W>::Stop,
        ),
        connection.read(None) == (connection.closed(), ReaderActionView::<W>::Stop),
        connection.read(Some(Err(error))) == (connection.closed(), ReaderActionView::<W>::Stop),
        connection.read(Some(Ok(event))) == connection.received(event),
{
}

/// A frame whose content type is no string, or an event without a JSON object, is
/// dropped.
pub proof fn law_reader_drops<W>(
    connection: ConnectionView<W>,
    event: EventView,
    json: Seq<char>,
)
    requires
        event.headers.contains_pair("Content-Type"@, ValueView::Other(json)) || (
        event.headers.contains_pair("Content-Type"@, ValueView::Text("text/event-json"@)) && (
        event.body matches Some(body) ==> json_object(body) is None)),
    ensures
        connection.received(event) == (connection, ReaderActionView::<W>::Discard),
{
    reveal_strlit("text/event-json");
    reveal_strlit("text/disconnect-notice");
    assert("text/event-json"@.len() != "text/disconnect-notice"@.len());
}

/// An event is published as it came, with all its members: under its name when it
/// has both a name and a channel, else without one. It cannot be published when
/// one of the two is no string.
pub proof fn law_event_is_published<W>(
    connection: ConnectionView<W>,
    event: EventView,
    body: Seq<char>,
    members: Fields,
    name: Seq<char>,
    unique_id: Seq<char>,
)
    requires
        event.headers.contains_pair("Content-Type"@, ValueView::Text("text/event-json"@)),
        event.body == Some(body),
        json_object(body) == Some(members),
    ensures
        connection.received(event).0 == connection,
        members.contains_pair("Event-Name"@, ValueView::Text(name)) && members.contains_pair(
            "Unique-ID"@,
            ValueView::Text(unique_id),
        ) ==> {
            &&& has_text_names(members)
            &&& connection.received(event).1 == (ReaderActionView::<W>::Publish {
                event,
                members,
                name: Some(name),
            })
        },
        !members.contains_key("Event-Name"@) || !members.contains_key("Unique-ID"@) ==> {
            &&& has_text_names(members)
            &&& connection.received(event).1 == (ReaderActionView::<W>::Publish {
                event,
                members,
                name: None,
            })
        },
        members.contains_key("Event-Name"@) && members.contains_key("Unique-ID"@) && (
        members["Event-Name"@] is Other || members["Unique-ID"@] is Other) ==> {
            &&& !has_text_names(members)
            &&& connection.received(event).1 is Unreadable
        },
{
    reveal_strlit("text/event-json");
    reveal_strlit("text/disconnect-notice");
    assert("text/event-json"@.len() != "text/disconnect-notice"@.len());
}

/// An event of a channel goes to whoever is registered under its name followed by
/// the id of the channel, who is then taken out; nobody else is, and an event
/// without a name or a channel goes to nobody.
pub proof fn law_event_goes_to_its_waiter<W>(
    connection: ConnectionView<W>,
    members: Fields,
    name: Seq<char>,
    unique_id: Seq<char>,
    waiter: W,
)
    ensures
        members.contains_pair("Event-Name"@, ValueView::Text(name)) && members.contains_pair(
            "Unique-ID"@,
            ValueView::Text(unique_id),
        ) ==> {
            let after = connection.event_dispatched(members);
            &&& connection.wait_for_events.contains_pair(name + unique_id, waiter)
                ==> connection.event_waiter(members) == Some(waiter)
            &&& !connection.wait_for_events.contains_key(name + unique_id)
                ==> connection.event_waiter(members) is None
            &&& after.wait_for_events == connection.wait_for_events.remove(name + unique_id)
            &&& after == (ConnectionView { wait_for_events: after.wait_for_events, ..connection })
        },
        !members.contains_key("Event-Name"@) || !members.contains_key("Unique-ID"@) ==> {
            &&& connection.event_waiter(members) is None
            &&& connection.event_dispatched(members) == connection
        },
{
}

/// Whether the members report the end of the job `uuid`: they name it as the
/// background job, or they name no background job, and report that the execution
/// of the application with that id is complete.
pub open spec fn reports_end(members: Fields, uuid: Seq<char>) -> bool {
    ||| members.contains_pair("Job-UUID"@, ValueView::Text(uuid))
    ||| {
        &&& !members.contains_key("Job-UUID"@)
        &&& members.contains_pair("Event-Name"@, ValueView::Text("CHANNEL_EXECUTE_COMPLETE"@))
        &&& members.contains_pair("Application-UUID"@, ValueView::Text(uuid))
    }
}

/// The end of a job goes to whoever is registered under its id, whatever the other
/// members of the event are, and that one is then taken out; nobody else is.
pub proof fn law_job_end_goes_to_its_waiter<W>(
    connection: ConnectionView<W>,
    members: Fields,
    uuid: Seq<char>,
    waiter: W,
)
    requires
        members.contains_pair("Job-UUID"@, ValueView::Text(uuid)) || (!members.contains_key(
            "Job-UUID"@,
        ) && members.contains_pair("Event-Name"@, ValueView::Text("CHANNEL_EXECUTE_COMPLETE"@))
            && members.contains_pair("Application-UUID"@, ValueView::Text(uuid))),
    ensures
        has_text_job(members),
        connection.background_jobs.contains_pair(uuid, waiter) ==> connection.job_waiter(members)
            == Some(waiter),
        !connection.background_jobs.contains_key(uuid) ==> connection.job_waiter(members) is None,
        ({
            let after = connection.job_dispatched(members);
            &&& after.background_jobs == connection.background_jobs.remove(uuid)
            &&& after == (ConnectionView { background_jobs: after.background_jobs, ..connection })
        }),
{
}

/// An event that reports the end of no job goes to nobody who waits for a job.
pub proof fn law_other_event_ends_no_job<W>(connection: ConnectionView<W>, members: Fields)
    requires
        forall|uuid: Seq<char>| !#[trigger] reports_end(members, uuid),
    ensures
        connection.job_waiter(members) is None,
        connection.job_dispatched(members) == connection,
{
    if members.contains_key("Job-UUID"@) {
        match members["Job-UUID"@] {
            ValueView::Text(uuid) => {
                assert(!reports_end(members, uuid));
            },
            ValueView::Other(_) => {},
        }
    } else if members.contains_key("Application-UUID"@) {
        match members["Application-UUID"@] {
            ValueView::Text(uuid) => {
                assert(!reports_end(members, uuid));
            },
            ValueView::Other(_) => {},
        }
    }
}

/// The job of an event can be read unless the id that names it, of the background
/// job or else of the application, is no string.
pub proof fn law_job_can_be_read(members: Fields)
    ensures
        has_text_job(members) <==> {
            if members.contains_key("Job-UUID"@) {
                members["Job-UUID"@] is Text
            } else {
                members.contains_key("Application-UUID"@) ==> members["Application-UUID"@] is Text
            }
        },
{
}

/// Whoever starts a job or an application on a usable connection gets the event
/// that reports its end, whatever the other members of that event are, and then
/// nobody waits for it any more.
pub proof fn law_started_job_gets_its_end<W>(
    connection: ConnectionView<W>,
    uuid: Seq<char>,
    waiter: W,
    job_waiter: W,
    members: Fields,
)
    requires
        !connection.failed,
        members.contains_pair("Job-UUID"@, ValueView::Text(uuid)) || (!members.contains_key(
            "Job-UUID"@,
        ) && members.contains_pair("Event-Name"@, ValueView::Text("CHANNEL_EXECUTE_COMPLETE"@))
            && members.contains_pair("Application-UUID"@, ValueView::Text(uuid))),
    ensures
        ({
            let started = connection.with_job(uuid, job_waiter).sent(waiter);
            let ended = started.job_dispatched(members);
            &&& has_text_job(members)
            &&& started.job_waiter(members) == Some(job_waiter)
            &&& ended.job_waiter(members) is None
            &&& !ended.background_jobs.contains_key(uuid)
            &&& ended.background_jobs == connection.background_jobs.remove(uuid)
            &&& ended.commands == connection.commands.push(waiter)
            &&& ended.wait_for_events == connection.wait_for_events
            &&& ended.failed == connection.failed
            &&& ended.connected == connection.connected
        }),
{
    let started = connection.with_job(uuid, job_waiter).sent(waiter);
    let ended = started.job_dispatched(members);
    law_job_end_goes_to_its_waiter(started, members, uuid, job_waiter);
    law_job_end_goes_to_its_waiter(ended, members, uuid, job_waiter);
    assert(ended.background_jobs =~= connection.background_jobs.remove(uuid));
}

/// A background job from its start to its result: the frame that names it is
/// published, goes to whoever started it, and comes to what the whole string under
/// `_body` comes to.
pub proof fn law_background_job_gives_its_result<W>(
    connection: ConnectionView<W>,
    uuid: Seq<char>,
    waiter: W,
    job_waiter: W,
    event: EventView,
    body: Seq<char>,
    members: Fields,
    answer: Seq<char>,
    timeout: Duration,
)
    requires
        !connection.failed,
        event.headers.contains_pair("Content-Type"@, ValueView::Text("text/event-json"@)),
        event.body == Some(body),
        json_object(body) == Some(members),
        members.contains_pair("Job-UUID"@, ValueView::Text(uuid)),
        members.contains_pair("_body"@, ValueView::Text(answer)),
        !members.contains_key("Unique-ID"@),
        is_sliceable(answer),
    ensures
        ({
            let started = connection.with_job(uuid, job_waiter).sent(waiter);
            let ended = started.job_dispatched(members);
            &&& started.received(event) == (
                started,
                (ReaderActionView::<W>::Publish { event, members, name: None }),
            )
            &&& started.job_waiter(members) == Some(job_waiter)
            &&& job_reading(ended.reception(Some(event))) == Some(api_result(answer))
            &&& job_reading(ended.job_reception(JobOutcomeView::Finished(event), timeout)) == Some(
                api_result(answer),
            )
        }),
{
    let started = connection.with_job(uuid, job_waiter).sent(waiter);
    law_event_is_published(started, event, body, members, uuid, uuid);
    law_started_job_gets_its_end(connection, uuid, waiter, job_waiter, members);
    law_job_comes_to_its_answer(event, body, members, answer);
}

} // verus!
