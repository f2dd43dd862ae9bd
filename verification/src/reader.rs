//! What becomes of the frames that come in.

use crate::connection::EslConnection;
use crate::error::EslError;
use crate::event::{Event, Value, get_text};
use crate::response::parse_json_body;
use crate::string_map::StringMap;
use vstd::prelude::*;
use vstd::string::*;

verus! {

use crate::connection::{ConnectionView, lookup};
use crate::error::{ErrorView, view_result};
use crate::event::{EventView, Fields, text_at, text_of, view_fields, view_option};
use crate::outside::json_object;

/// What is to be done about a frame.
pub enum ReaderAction<W> {
    /// Read no more frames: the connection has failed.
    Stop,
    /// Nothing: the frame is of no use to anyone.
    Discard,
    /// Hand the frame to the one who waits for the answer to a command.
    Reply {
        /// Who waits.
        waiter: W,
        /// The frame.
        event: Event,
    },
    /// Run the handlers of the event `name`, if there is a name, then hand the
    /// frame to the one that [`EslConnection::dispatch_event`] gives, and then to
    /// the one that [`EslConnection::dispatch_job`] gives.
    Publish {
        /// The frame.
        event: Event,
        /// The members of the frame's JSON body.
        members: StringMap<Value>,
        /// The name of the event, when it belongs to a channel.
        name: Option<String>,
    },
    /// Nothing can be done: the name or the channel of a channel's event is not a
    /// string.
    Unreadable,
}

/// What a [`ReaderAction`] holds.
pub enum ReaderActionView<W> {
    /// Read no more frames.
    Stop,
    /// Nothing.
    Discard,
    /// Hand the frame to the one who waits for the answer to a command.
    Reply {
        /// Who waits.
        waiter: W,
        /// The frame.
        event: EventView,
    },
    /// Run the handlers of the event, and then hand out the frame.
    Publish {
        /// The frame.
        event: EventView,
        /// The members of the frame's JSON body.
        members: Fields,
        /// The name of the event, when it belongs to a channel.
        name: Option<Seq<char>>,
    },
    /// Nothing can be done.
    Unreadable,
}

impl<W> View for ReaderAction<W> {
    type V = ReaderActionView<W>;

    open spec fn view(&self) -> ReaderActionView<W> {
        match self {
            ReaderAction::Stop => ReaderActionView::Stop,
            ReaderAction::Discard => ReaderActionView::Discard,
            ReaderAction::Reply { waiter, event } => ReaderActionView::Reply {
                waiter: *waiter,
                event: event@,
            },
            ReaderAction::Publish { event, members, name } => ReaderActionView::Publish {
                event: event@,
                members: view_fields(*members),
                name: view_option(*name),
            },
            ReaderAction::Unreadable => ReaderActionView::Unreadable,
        }
    }
}

/// Whether the event belongs to a channel: it has both a name and a channel.
pub open spec fn is_channel_event(members: Fields) -> bool {
    members.contains_key("Event-Name"@) && members.contains_key("Unique-ID"@)
}

/// The name of an event that belongs to a channel.
pub open spec fn channel_event_name(members: Fields) -> Option<Seq<char>> {
    if is_channel_event(members) {
        text_at(members, "Event-Name"@)
    } else {
        None
    }
}

/// What those who wait for an event of a channel are found under: the name of
/// the event followed by the id of the channel.
pub open spec fn event_key(members: Fields) -> Option<Seq<char>> {
    if is_channel_event(members) {
        Some(text_at(members, "Event-Name"@)->0 + text_at(members, "Unique-ID"@)->0)
    } else {
        None
    }
}

/// The job whose end the event reports: the background job that it names, or
/// else the application whose execution it reports as complete.
pub open spec fn finished_job(members: Fields) -> Option<Seq<char>> {
    if members.contains_key("Job-UUID"@) {
        text_at(members, "Job-UUID"@)
    } else if text_at(members, "Event-Name"@) == Some("CHANNEL_EXECUTE_COMPLETE"@) {
        text_at(members, "Application-UUID"@)
    } else {
        None
    }
}

/// Whether the member `key` is a string, if there is one.
pub open spec fn is_text_member(members: Fields, key: Seq<char>) -> bool {
    members.contains_key(key) ==> text_at(members, key) is Some
}

/// Whether the name and the channel of a channel's event are strings.
pub open spec fn has_text_names(members: Fields) -> bool {
    is_channel_event(members) ==> is_text_member(members, "Event-Name"@) && is_text_member(
        members,
        "Unique-ID"@,
    )
}

/// Whether the member that names the job is a string: the id of the background
/// job, or else the id of the application.
pub open spec fn has_text_job(members: Fields) -> bool {
    &&& is_text_member(members, "Job-UUID"@)
    &&& members.contains_key("Job-UUID"@) || is_text_member(members, "Application-UUID"@)
}

/// What is to be done about a frame with the given JSON members; `None` stands
/// for a body that is not a JSON object.
pub open spec fn publication<W>(event: EventView, members: Option<Fields>) -> ReaderActionView<W> {
    match members {
        Some(members) => if has_text_names(members) {
            ReaderActionView::Publish { event, members, name: channel_event_name(members) }
        } else {
            ReaderActionView::Unreadable
        },
        None => ReaderActionView::Discard,
    }
}

impl<W> ConnectionView<W> {
    /// The connection after the oldest command has been answered with `event`,
    /// and what is to be done.
    pub open spec fn answered(self, event: EventView) -> (Self, ReaderActionView<W>) {
        if self.commands.len() > 0 {
            (
                ConnectionView { commands: self.commands.skip(1), ..self },
                ReaderActionView::Reply { waiter: self.commands[0], event },
            )
        } else {
            (self, ReaderActionView::Discard)
        }
    }

    /// The connection after the frame `event` has come in, and what is to be done.
    pub open spec fn received(self, event: EventView) -> (Self, ReaderActionView<W>) {
        if event.headers.contains_key("Content-Type"@) {
            match text_of(event.headers["Content-Type"@]) {
                Some(content_type) => if content_type == "text/disconnect-notice"@ {
                    (self.closed(), ReaderActionView::Stop)
                } else if content_type == "text/event-json"@ {
                    match event.body {
                        Some(body) => (self, publication(event, json_object(body))),
                        None => (self, ReaderActionView::Discard),
                    }
                } else {
                    self.answered(event)
                },
                None => (self, ReaderActionView::Discard),
            }
        } else {
            self.answered(event)
        }
    }

    /// The connection after the stream has given a frame, an error, or its end,
    /// and what is to be done.
    pub open spec fn read(self, input: Option<Result<EventView, ErrorView>>) -> (
        Self,
        ReaderActionView<W>,
    ) {
        match input {
            Some(Ok(event)) => self.received(event),
            Some(Err(_)) => (self.closed(), ReaderActionView::Stop),
            None => (self.closed(), ReaderActionView::Stop),
        }
    }

    /// Who waits for an event of a channel.
    pub open spec fn event_waiter(self, members: Fields) -> Option<W> {
        match event_key(members) {
            Some(key) => lookup(self.wait_for_events, key),
            None => None,
        }
    }

    /// The connection after an event of a channel has been handed to the one who
    /// waits for it.
    pub open spec fn event_dispatched(self, members: Fields) -> Self {
        match event_key(members) {
            Some(key) => ConnectionView {
                wait_for_events: self.wait_for_events.remove(key),
                ..self
            },
            None => self,
        }
    }

    /// Who waits for the end of the job that an event reports.
    pub open spec fn job_waiter(self, members: Fields) -> Option<W> {
        match finished_job(members) {
            Some(uuid) => lookup(self.background_jobs, uuid),
            None => None,
        }
    }

    /// The connection after the end of a job has been handed to the one who waits
    /// for it.
    pub open spec fn job_dispatched(self, members: Fields) -> Self {
        match finished_job(members) {
            Some(uuid) => self.without_job(uuid),
            None => self,
        }
    }
}

/// Whether the member `key` is a string, if there is one.
fn has_text_if_any(members: &StringMap<Value>, key: &str) -> (found: bool)
    ensures
        found == is_text_member(view_fields(*members), key@),
{
    !members.contains_key(key) || get_text(members, key).is_some()
}

/// Whether the event belongs to a channel.
fn has_channel(members: &StringMap<Value>) -> (found: bool)
    ensures
        found == is_channel_event(view_fields(*members)),
{
    members.contains_key("Event-Name") && members.contains_key("Unique-ID")
}

/// Decides what is to be done about a frame whose body has been read as JSON;
/// `None` stands for a body that is not a JSON object.
pub fn publish<W>(event: Event, members: Option<StringMap<Value>>) -> (action: ReaderAction<W>)
    ensures
        action@ == publication::<W>(
            event@,
            match members {
                Some(members) => Some(view_fields(members)),
                None => None,
            },
        ),
{
    match members {
        Some(members) => {
            let channel: bool = has_channel(&members);
            let names: bool = !channel || (has_text_if_any(&members, "Event-Name")
                && has_text_if_any(&members, "Unique-ID"));
            if !names {
                return ReaderAction::Unreadable;
            }
            let name: Option<String> = if channel {
                match get_text(&members, "Event-Name") {
                    Some(name) => Some(name.to_owned()),
                    None => None,
                }
            } else {
                None
            };
            ReaderAction::Publish { event, members, name }
        },
        None => ReaderAction::Discard,
    }
}

impl<W> EslConnection<W> {
    /// Decides what is to be done about what the stream has given: a frame, an
    /// error, or its end.
    pub fn read(&mut self, input: Option<Result<Event, EslError>>) -> (action: ReaderAction<W>)
        ensures
            (final(self)@, action@) == old(self)@.read(
                match input {
                    Some(result) => Some(view_result(result)),
                    None => None,
                },
            ),
    {
        match input {
            Some(Ok(event)) => self.receive(event),
            _ => {
                self.fail_connection();
                ReaderAction::Stop
            },
        }
    }

    /// Decides what is to be done about a frame.
    pub fn receive(&mut self, event: Event) -> (action: ReaderAction<W>)
        ensures
            (final(self)@, action@) == old(self)@.received(event@),
    {
        match event.headers.get("Content-Type") {
            Some(value) => {
                assert(event@.headers["Content-Type"@] == value@);
                match value.as_str() {
                    Some(content_type) => {
                        let content_type: String = content_type.to_owned();
                        if content_type == "text/disconnect-notice".to_owned() {
                            self.fail_connection();
                            ReaderAction::Stop
                        } else if content_type == "text/event-json".to_owned() {
                            self.receive_json(event)
                        } else {
                            self.reply(event)
                        }
                    },
                    None => ReaderAction::Discard,
                }
            },
            None => self.reply(event),
        }
    }

    /// Reads the JSON body of a frame.
    fn receive_json(&self, event: Event) -> (action: ReaderAction<W>)
        ensures
            action@ == match event@.body {
                Some(body) => publication::<W>(event@, json_object(body)),
                None => ReaderActionView::Discard,
            },
    {
        let members: Option<StringMap<Value>> = match &event.body {
            Some(body) => match parse_json_body(body.as_str()) {
                Ok(members) => Some(members),
                Err(_) => None,
            },
            None => None,
        };
        publish(event, members)
    }

    /// Answers the oldest command with a frame.
    fn reply(&mut self, event: Event) -> (action: ReaderAction<W>)
        ensures
            (final(self)@, action@) == old(self)@.answered(event@),
    {
        match self.take_command() {
            Some(waiter) => ReaderAction::Reply { waiter, event },
            None => ReaderAction::Discard,
        }
    }

    /// Takes out the one who waits for an event of a channel, so that the frame
    /// can be handed to them.
    pub fn dispatch_event(&mut self, members: &StringMap<Value>) -> (waiter: Option<W>)
        requires
            has_text_names(view_fields(*members)),
        ensures
            waiter == old(self)@.event_waiter(view_fields(*members)),
            final(self)@ == old(self)@.event_dispatched(view_fields(*members)),
    {
        if has_channel(members) {
            let mut key: String = get_text(members, "Event-Name").unwrap().to_owned();
            key.append(get_text(members, "Unique-ID").unwrap());
            self.take_event_waiter(key.as_str())
        } else {
            None
        }
    }

    /// Takes out the one who waits for the end of the job that an event reports,
    /// so that the frame can be handed to them.
    pub fn dispatch_job(&mut self, members: &StringMap<Value>) -> (waiter: Option<W>)
        requires
            has_text_job(view_fields(*members)),
        ensures
            waiter == old(self)@.job_waiter(view_fields(*members)),
            final(self)@ == old(self)@.job_dispatched(view_fields(*members)),
    {
        let job: Option<&str> = if members.contains_key("Job-UUID") {
            get_text(members, "Job-UUID")
        } else {
            let complete: bool = match get_text(members, "Event-Name") {
                Some(name) => name.to_owned() == "CHANNEL_EXECUTE_COMPLETE".to_owned(),
                None => false,
            };
            if complete {
                get_text(members, "Application-UUID")
            } else {
                None
            }
        };
        match job {
            Some(uuid) => self.take_job(uuid),
            None => None,
        }
    }
}

/// Whether [`EslConnection::dispatch_job`] can read the job of an event.
pub fn can_dispatch_job(members: &StringMap<Value>) -> (readable: bool)
    ensures
        readable == has_text_job(view_fields(*members)),
{
    has_text_if_any(members, "Job-UUID") && (members.contains_key("Job-UUID") || has_text_if_any(
        members,
        "Application-UUID",
    ))
}

} // verus!
