//! Conversations with a FreeSWITCH stand-in, byte for byte.

use freeswitch_esl::codec::{decode, encode};
use freeswitch_esl::connection::{EslConnection, JobOutcome};
use freeswitch_esl::error::EslError;
use freeswitch_esl::event::Event;
use freeswitch_esl::handshake::{EslConnectionType, Handshake};
use freeswitch_esl::reader::{can_dispatch_job, ReaderAction};
use freeswitch_esl::response::{can_parse_api_event, parse_api_event};
use std::sync::mpsc::{channel, Receiver, Sender, TryRecvError};
use std::time::Duration;

const BACKGROUND_JOB_OK: &str = "Content-Length: 615\nContent-Type: text/event-json\n\n{\"Event-Name\":\"BACKGROUND_JOB\",\"Core-UUID\":\"bd0e8916-6a60-4e11-8978-db8580b440a6\",\"FreeSWITCH-Hostname\":\"ip-172-31-32-63\",\"FreeSWITCH-Switchname\":\"ip-172-31-32-63\",\"FreeSWITCH-IPv4\":\"172.31.32.63\",\"FreeSWITCH-IPv6\":\"::1\",\"Event-Date-Local\":\"2023-09-12 04:31:37\",\"Event-Date-GMT\":\"Tue, 12 Sep 2023 04:31:37 GMT\",\"Event-Date-Timestamp\":\"1694493097638660\",\"Event-Calling-File\":\"mod_event_socket.c\",\"Event-Calling-Function\":\"api_exec\",\"Event-Calling-Line-Number\":\"1572\",\"Event-Sequence\":\"18546\",\"Job-UUID\":\"UUID_PLACEHOLDER\",\"Job-Command\":\"reloadxml\",\"Content-Length\":\"14\",\"_body\":\"+OK [Success]\\n\"}";
const BACKGROUND_JOB_ERR: &str = "Content-Length: 684\nContent-Type: text/event-json\n\n{\"Event-Name\":\"BACKGROUND_JOB\",\"Core-UUID\":\"bd0e8916-6a60-4e11-8978-db8580b440a6\",\"FreeSWITCH-Hostname\":\"ip-172-31-32-63\",\"FreeSWITCH-Switchname\":\"ip-172-31-32-63\",\"FreeSWITCH-IPv4\":\"172.31.32.63\",\"FreeSWITCH-IPv6\":\"::1\",\"Event-Date-Local\":\"2023-09-13 06:56:24\",\"Event-Date-GMT\":\"Wed, 13 Sep 2023 06:56:24 GMT\",\"Event-Date-Timestamp\":\"1694588184538697\",\"Event-Calling-File\":\"mod_event_socket.c\",\"Event-Calling-Function\":\"api_exec\",\"Event-Calling-Line-Number\":\"1572\",\"Event-Sequence\":\"29999\",\"Job-UUID\":\"UUID_PLACEHOLDER\",\"Job-Command\":\"originate\",\"Job-Command-Arg\":\"user/some_user_that_doesnt_exists karan\",\"Content-Length\":\"23\",\"_body\":\"-ERR SUBSCRIBER_ABSENT\\n\"}";
const JOB_REPLY: &str = "Content-Type: command/reply\nReply-Text: +OK Job-UUID: UUID_PLACEHOLDER\nJob-UUID: UUID_PLACEHOLDER\n\n";

/// What the stand-in sends in answer to a command.
enum Answer {
    /// These bytes.
    Bytes(String),
    /// These bytes now, and these later.
    Later(String, String),
    /// Nothing, and it closes the stream.
    Close,
}

/// Answers one command, without the empty line that ends it.
fn server(command: &str) -> Answer {
    if command.starts_with("bgapi") && command.contains("Job-UUID") {
        let (text, uuid) = command.split_once("\nJob-UUID: ").unwrap();
        let fill = |template: &str| template.replace("UUID_PLACEHOLDER", uuid);
        return match text {
            "bgapi reloadxml" => Answer::Bytes(fill(JOB_REPLY) + &fill(BACKGROUND_JOB_OK)),
            "bgapi originate user/some_user_that_doesnt_exists karan" => {
                Answer::Bytes(fill(JOB_REPLY) + &fill(BACKGROUND_JOB_ERR))
            }
            "bgapi never_respond" => Answer::Bytes(fill(JOB_REPLY)),
            "bgapi silent" => Answer::Bytes(String::new()),
            "bgapi cancel_then_complete" => {
                Answer::Later(fill(JOB_REPLY), fill(BACKGROUND_JOB_OK))
            }
            _ => panic!("Unhandled application"),
        };
    }
    let answer = match command {
        "api never_respond" => "",
        "api disconnect_me" => return Answer::Close,
        "api trigger_malformed" => "Content-Length: 10\nContent-Type: text/event-json\n\nnot-json!!Content-Type: api/response\nContent-Length: 14\n\n+OK [Success]\n\n",
        "auth ClueCon" => "Content-Type: command/reply\nReply-Text: +OK accepted\n\n",
        "auth ClueCons" => "Content-Type: command/reply\nReply-Text: -ERR invalid\n\n",
        "api reloadxml" => "Content-Type: api/response\nContent-Length: 14\n\n+OK [Success]\n\n",
        "api sofia profile external restart" => "Content-Type: api/response\nContent-Length: 41\n\nReload XML [Success]\nrestarting: external",
        "api originate {origination_uuid=karan}loopback/1000 &conference(karan)" => "Content-Type: api/response\nContent-Length: 10\n\n+OK karan\n",
        "api uuid_kill karan" => "Content-Type: api/response\nContent-Length: 4\n\n+OK\n",
        "event json BACKGROUND_JOB CHANNEL_EXECUTE_COMPLETE" => "Content-Type: command/reply\nReply-Text: +OK event listener enabled json\n\n",
        "api originate user/some_user_that_doesnt_exists karan" => "Content-Type: api/response\nContent-Length: 23\n\n-ERR SUBSCRIBER_ABSENT\n\n",
        _ => "Content-Type: command/reply\nReply-Text: -ERR command not found\n\n",
    };
    Answer::Bytes(answer.to_string())
}

/// What has become of a wait.
enum Wait {
    Got(Event),
    Dropped,
    Pending,
}

fn look(receiver: &Receiver<Event>) -> Wait {
    match receiver.try_recv() {
        Ok(event) => Wait::Got(event),
        Err(TryRecvError::Disconnected) => Wait::Dropped,
        Err(TryRecvError::Empty) => Wait::Pending,
    }
}

/// A connection to the stand-in.
struct Client {
    core: EslConnection<Sender<Event>>,
    outgoing: Vec<u8>,
    incoming: Vec<u8>,
    later: Vec<u8>,
    open: bool,
}

impl Client {
    fn inbound(password: &str) -> Result<Client, EslError> {
        let mut client = Client {
            core: EslConnection::new(password),
            outgoing: Vec::new(),
            incoming: b"Content-Type: auth/request\n\n".to_vec(),
            later: Vec::new(),
            open: true,
        };
        let kind = EslConnectionType::Inbound;
        if kind.has_greeting() {
            client.take_frame().unwrap();
        }
        let mut step = kind.first_command();
        while step != Handshake::Done {
            let reply = client
                .exchange(|core, waiter| core.handshake_send(step, waiter))
                .unwrap();
            assert!(client.core.can_read_handshake_reply(step, &reply));
            step = client.core.handshake_reply(step, reply)?;
        }
        Ok(client)
    }

    fn take_frame(&mut self) -> Option<Event> {
        let (event, length) = decode(&self.incoming).unwrap()?;
        self.incoming.drain(0..length);
        Some(event)
    }

    /// Lets the stand-in read what was written, and reads what it sends.
    fn run(&mut self) {
        while let Some(end) = self.outgoing.windows(2).position(|two| two == b"\n\n") {
            let command: Vec<u8> = self.outgoing.drain(0..end + 2).take(end).collect();
            if !self.open {
                continue;
            }
            match server(&String::from_utf8(command).unwrap()) {
                Answer::Bytes(now) => self.incoming.extend_from_slice(now.as_bytes()),
                Answer::Later(now, later) => {
                    self.incoming.extend_from_slice(now.as_bytes());
                    self.later.extend_from_slice(later.as_bytes());
                }
                Answer::Close => self.open = false,
            }
        }
        while let Some(event) = self.take_frame() {
            match self.core.read(Some(Ok(event))) {
                ReaderAction::Reply { waiter, event } => {
                    let _ = waiter.send(event);
                }
                ReaderAction::Publish { event, members, .. } => {
                    if let Some(waiter) = self.core.dispatch_event(&members) {
                        let _ = waiter.send(event.clone());
                    }
                    assert!(can_dispatch_job(&members));
                    if let Some(waiter) = self.core.dispatch_job(&members) {
                        let _ = waiter.send(event);
                    }
                }
                ReaderAction::Discard => {}
                ReaderAction::Stop => self.open = false,
                ReaderAction::Unreadable => panic!("a member is not a string"),
            }
        }
        if !self.open {
            assert!(matches!(self.core.read(None), ReaderAction::Stop));
        }
    }

    /// Begins a command without looking at its answer.
    fn begin(
        &mut self,
        begin: impl FnOnce(
            &mut EslConnection<Sender<Event>>,
            Sender<Event>,
        ) -> Result<Vec<u8>, EslError>,
    ) -> Result<Receiver<Event>, EslError> {
        let (sender, receiver) = channel();
        let item = begin(&mut self.core, sender)?;
        self.outgoing.extend(encode(&item));
        self.core.written(Ok(()))?;
        Ok(receiver)
    }

    /// Performs a command; `None` when its answer never comes.
    fn exchange(
        &mut self,
        begin: impl FnOnce(
            &mut EslConnection<Sender<Event>>,
            Sender<Event>,
        ) -> Result<Vec<u8>, EslError>,
    ) -> Option<Result<Event, EslError>> {
        let receiver = match self.begin(begin) {
            Ok(receiver) => receiver,
            Err(error) => return Some(Err(error)),
        };
        self.run();
        match look(&receiver) {
            Wait::Got(event) => Some(self.core.recv_event(Some(event))),
            Wait::Dropped => Some(self.core.recv_event(None)),
            Wait::Pending => None,
        }
    }

    fn send_recv(&mut self, item: &[u8]) -> Option<Result<Event, EslError>> {
        self.exchange(|core, waiter| core.send_recv(item, waiter))
    }

    fn api(&mut self, command: &str) -> Result<String, EslError> {
        let event = self
            .exchange(|core, waiter| core.api(command, waiter))
            .unwrap()?;
        assert!(can_parse_api_event(&event));
        parse_api_event(event)
    }

    /// Starts a background job: its id, how its command ended, and its waiter.
    fn start_job(
        &mut self,
        command: &str,
    ) -> (String, Option<Result<Event, EslError>>, Receiver<Event>) {
        let (job_sender, job_receiver) = channel();
        let mut job_uuid = String::new();
        let reply = self.exchange(|core, waiter| {
            let (uuid, written) = core.bgapi(command, waiter, job_sender);
            job_uuid = uuid;
            written
        });
        (job_uuid, reply, job_receiver)
    }

    fn bgapi(&mut self, command: &str) -> Result<String, EslError> {
        let (_, reply, job) = self.start_job(command);
        reply.unwrap()?;
        match look(&job) {
            Wait::Got(event) => self.core.bgapi_result(Some(event)).unwrap(),
            Wait::Dropped => self.core.bgapi_result(None).unwrap(),
            Wait::Pending => panic!("the job never ends"),
        }
    }

    fn bgapi_timeout(
        &mut self,
        command: &str,
        reply_timeout: Duration,
        job_timeout: Duration,
    ) -> Result<String, EslError> {
        let (job_uuid, reply, job) = self.start_job(command);
        self.core
            .bgapi_timeout_reply(&job_uuid, reply, reply_timeout)?;
        let outcome = match look(&job) {
            Wait::Got(event) => JobOutcome::Finished(event),
            Wait::Dropped => JobOutcome::Dropped,
            Wait::Pending => JobOutcome::Elapsed,
        };
        self.core
            .bgapi_timeout(&job_uuid, outcome, job_timeout)
            .unwrap()
    }
}

#[test]
fn reloadxml() {
    let mut inbound = Client::inbound("ClueCon").unwrap();
    let response = inbound.api("reloadxml");
    assert_eq!(Ok("[Success]".into()), response);
}

#[test]
fn reloadxml_with_bgapi() {
    let mut inbound = Client::inbound("ClueCon").unwrap();
    let response = inbound.bgapi("reloadxml");
    assert_eq!(Ok("[Success]".into()), response);
}

#[test]
fn call_user_that_doesnt_exists() {
    let mut inbound = Client::inbound("ClueCon").unwrap();
    let response = inbound
        .api("originate user/some_user_that_doesnt_exists karan")
        .unwrap_err();
    assert_eq!(EslError::ApiError("SUBSCRIBER_ABSENT".into()), response);
}

#[test]
fn send_recv_test() {
    let mut inbound = Client::inbound("ClueCon").unwrap();
    let response = inbound.send_recv(b"api reloadxml").unwrap().unwrap();
    let body = response.body().clone().unwrap();
    assert_eq!("+OK [Success]\n", body);
}

#[test]
fn send_recv_timeout_marks_connection_closed() {
    let mut inbound = Client::inbound("ClueCon").unwrap();
    let outcome = inbound.send_recv(b"api never_respond");
    assert!(outcome.is_none());
    let response = inbound
        .core
        .send_recv_timeout(outcome, Duration::from_millis(25));
    assert_eq!(
        Some(EslError::Timeout(Duration::from_millis(25))),
        response.err()
    );
    assert!(!inbound.core.connected());
    let response = inbound.api("reloadxml");
    assert_eq!(Err(EslError::ConnectionClosed), response);
}

#[test]
fn api_timeout_marks_connection_closed_on_elapse() {
    let mut inbound = Client::inbound("ClueCon").unwrap();
    let outcome = inbound.exchange(|core, waiter| core.api("never_respond", waiter));
    assert!(outcome.is_none());
    let response = inbound.core.api_timeout(outcome, Duration::from_millis(25));
    assert_eq!(Err(EslError::Timeout(Duration::from_millis(25))), response);
    assert!(!inbound.core.connected());
    let response = inbound.api("reloadxml");
    assert_eq!(Err(EslError::ConnectionClosed), response);
}

#[test]
fn cancelled_send_recv_timeout_still_fails_connection() {
    let mut inbound = Client::inbound("ClueCon").unwrap();
    let receiver = inbound
        .begin(|core, waiter| core.send_recv(b"api never_respond", waiter))
        .unwrap();
    inbound.run();
    drop(receiver);
    let response = inbound
        .core
        .send_recv_timeout(None, Duration::from_millis(25));
    assert!(response.is_err());
    assert!(!inbound.core.connected());
    let response = inbound.api("reloadxml");
    assert_eq!(Err(EslError::ConnectionClosed), response);
}

#[test]
fn bgapi_timeout_reply_timeout_elapse_marks_connection_failed() {
    let mut inbound = Client::inbound("ClueCon").unwrap();
    let response = inbound.bgapi_timeout(
        "silent",
        Duration::from_millis(25),
        Duration::from_secs(1),
    );
    assert_eq!(Err(EslError::Timeout(Duration::from_millis(25))), response);
    assert!(!inbound.core.connected());
    let response = inbound.api("reloadxml");
    assert_eq!(Err(EslError::ConnectionClosed), response);
}

#[test]
fn bgapi_timeout_only_times_out_background_job() {
    let mut inbound = Client::inbound("ClueCon").unwrap();
    let response = inbound.bgapi_timeout(
        "never_respond",
        Duration::from_secs(1),
        Duration::from_millis(25),
    );
    assert_eq!(Err(EslError::Timeout(Duration::from_millis(25))), response);
    assert!(inbound.core.connected());
    let response = inbound.api("reloadxml");
    assert_eq!(Ok("[Success]".into()), response);
}

#[test]
fn cancelled_bgapi_timeout_still_cleans_background_job() {
    let mut inbound = Client::inbound("ClueCon").unwrap();
    let (job_uuid, reply, job) = inbound.start_job("never_respond");
    assert!(inbound
        .core
        .bgapi_timeout_reply(&job_uuid, reply, Duration::from_secs(1))
        .is_ok());
    let response =
        inbound
            .core
            .bgapi_timeout(&job_uuid, JobOutcome::Elapsed, Duration::from_millis(25));
    assert_eq!(
        Some(Err(EslError::Timeout(Duration::from_millis(25)))),
        response
    );
    assert!(matches!(look(&job), Wait::Dropped));
    assert!(inbound.core.connected());
    let response = inbound.api("reloadxml");
    assert_eq!(Ok("[Success]".into()), response);
}

#[test]
fn reader_survives_dropped_bgapi_waiter() {
    let mut inbound = Client::inbound("ClueCon").unwrap();
    let (_, reply, job) = inbound.start_job("cancel_then_complete");
    assert!(reply.unwrap().is_ok());
    assert!(matches!(look(&job), Wait::Pending));
    drop(job);
    let later = inbound.later.split_off(0);
    assert!(!later.is_empty());
    inbound.incoming.extend(later);
    inbound.run();
    assert!(inbound.incoming.is_empty());
    let response = inbound.api("reloadxml");
    assert_eq!(Ok("[Success]".into()), response);
    assert!(inbound.core.connected());
}

#[test]
fn reader_exit_clears_pending_waiters() {
    let mut inbound = Client::inbound("ClueCon").unwrap();
    let (_, reply, job) = inbound.start_job("never_respond");
    assert!(reply.unwrap().is_ok());
    let command = inbound
        .begin(|core, waiter| core.send_recv(b"api never_respond", waiter))
        .unwrap();
    inbound.run();
    assert!(matches!(look(&job), Wait::Pending));
    assert!(matches!(look(&command), Wait::Pending));

    let _ = inbound.send_recv(b"api disconnect_me");

    assert!(matches!(look(&job), Wait::Dropped));
    assert!(matches!(look(&command), Wait::Dropped));
    let bgapi_result = inbound.core.bgapi_result(None).unwrap();
    let api_result = inbound.core.recv_event(None);
    assert!(matches!(bgapi_result, Err(EslError::ConnectionClosed)));
    assert!(matches!(api_result, Err(EslError::ConnectionClosed)));
    assert!(!inbound.core.connected());
}

#[test]
fn reader_survives_malformed_event_json_body() {
    let mut inbound = Client::inbound("ClueCon").unwrap();
    let response = inbound.api("trigger_malformed");
    assert_eq!(Ok("[Success]".into()), response);
    let response = inbound.api("reloadxml");
    assert_eq!(Ok("[Success]".into()), response);
    assert!(inbound.core.connected());
}

#[test]
fn wrong_password() {
    let inbound = Client::inbound("ClueCons");
    assert_eq!(Some(EslError::AuthFailed), inbound.err());
}

#[test]
fn multiple_actions() {
    let mut inbound = Client::inbound("ClueCon").unwrap();
    let body = inbound.bgapi("reloadxml");
    assert_eq!(Ok("[Success]".into()), body);
    let body = inbound.bgapi("originate user/some_user_that_doesnt_exists karan");
    assert_eq!(
        Err(EslError::ApiError("SUBSCRIBER_ABSENT".to_string())),
        body
    );
}

#[test]
fn concurrent_api() {
    let mut inbound = Client::inbound("ClueCon").unwrap();
    let commands = [
        "reloadxml",
        "originate user/some_user_that_doesnt_exists karan",
        "reloadxml",
    ];
    let mut receivers = Vec::new();
    for command in commands {
        receivers.push(
            inbound
                .begin(|core, waiter| core.api(command, waiter))
                .unwrap(),
        );
    }
    inbound.run();
    let mut responses = Vec::new();
    for receiver in receivers {
        match look(&receiver) {
            Wait::Got(event) => responses.push(parse_api_event(event)),
            _ => panic!("no answer"),
        }
    }
    assert_eq!(
        responses,
        vec![
            Ok("[Success]".to_string()),
            Err(EslError::ApiError("SUBSCRIBER_ABSENT".into())),
            Ok("[Success]".to_string()),
        ]
    );
}

#[test]
fn concurrent_bgapi() {
    let mut inbound = Client::inbound("ClueCon").unwrap();
    let commands = [
        "reloadxml",
        "originate user/some_user_that_doesnt_exists karan",
        "reloadxml",
    ];
    let mut jobs = Vec::new();
    let mut replies = Vec::new();
    for command in commands {
        let (job_sender, job_receiver) = channel();
        jobs.push(job_receiver);
        replies.push(
            inbound
                .begin(|core, waiter| core.bgapi(command, waiter, job_sender).1)
                .unwrap(),
        );
    }
    inbound.run();
    for reply in &replies {
        assert!(matches!(look(reply), Wait::Got(_)));
    }
    let mut responses = Vec::new();
    for job in jobs {
        match look(&job) {
            Wait::Got(event) => responses.push(inbound.core.bgapi_result(Some(event)).unwrap()),
            _ => panic!("no answer"),
        }
    }
    assert_eq!(
        responses,
        vec![
            Ok("[Success]".to_string()),
            Err(EslError::ApiError("SUBSCRIBER_ABSENT".to_string())),
            Ok("[Success]".to_string()),
        ]
    );
}

#[test]
fn connected_status() {
    let inbound = Client::inbound("ClueCon").unwrap();
    assert!(inbound.core.connected());
}

#[test]
fn restart_external_profile() {
    let mut inbound = Client::inbound("ClueCon").unwrap();
    let body = inbound.api("sofia profile external restart");
    assert_eq!(
        Ok("Reload XML [Success]\nrestarting: external".into()),
        body
    );
}

#[test]
fn uuid_kill() {
    let mut inbound = Client::inbound("ClueCon").unwrap();
    let uuid = inbound
        .api("originate {origination_uuid=karan}loopback/1000 &conference(karan)")
        .unwrap();
    assert_eq!("karan", uuid);
    let uuid_kill_response = inbound.api("uuid_kill karan").unwrap();
    assert_eq!("", uuid_kill_response);
}
