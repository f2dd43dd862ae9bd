//! The steps of commands, frame by frame.

use freeswitch_esl::codec::{decode, encode};
use freeswitch_esl::command::{
    api_command, auth_command, bgapi_command, execute_command, subscribe_command,
};
use freeswitch_esl::connection::{join_esl_task, EslConnection, JobOutcome};
use freeswitch_esl::error::EslError;
use freeswitch_esl::event::{get_text, Event, Value};
use freeswitch_esl::handshake::{EslConnectionType, Handshake};
use freeswitch_esl::reader::{can_dispatch_job, publish, ReaderAction};
use freeswitch_esl::string_map::StringMap;
use std::time::Duration;

type Connection = EslConnection<u32>;

fn frame(text: &str) -> Event {
    decode(text.as_bytes()).unwrap().unwrap().0
}

fn json_frame(body: &str) -> Event {
    frame(&format!(
        "Content-Type: text/event-json\nContent-Length: {}\n\n{}",
        body.len(),
        body
    ))
}

fn ok_reply() -> Event {
    frame("Content-Type: command/reply\nReply-Text: +OK\n\n")
}

fn outbound() -> Connection {
    let mut connection = Connection::new("");
    let mut step = EslConnectionType::Outbound.first_command();
    let mut sent = Vec::new();
    while step != Handshake::Done {
        sent.push(String::from_utf8(connection.handshake_send(step, 0).unwrap()).unwrap());
        let event = match step {
            Handshake::Connect => {
                frame("Channel-Unique-ID: call-1\nCaller: 1000\nContent-Type: command/reply\n\n")
            }
            _ => ok_reply(),
        };
        let reply = match connection.read(Some(Ok(event))) {
            ReaderAction::Reply { event, .. } => Ok(event),
            _ => panic!("not a reply"),
        };
        assert!(connection.can_read_handshake_reply(step, &reply));
        step = connection.handshake_reply(step, reply).unwrap();
    }
    assert_eq!(
        sent,
        vec![
            "connect",
            "event json BACKGROUND_JOB CHANNEL_EXECUTE_COMPLETE",
            "myevents"
        ]
    );
    connection
}

#[test]
fn commands_are_spelled_out() {
    assert_eq!(api_command("status"), b"api status");
    assert_eq!(auth_command("ClueCon"), b"auth ClueCon");
    assert_eq!(
        subscribe_command(&vec!["A", "B", "C"]),
        b"event json A B C"
    );
    assert_eq!(subscribe_command(&vec!["A"]), b"event json A");
    assert_eq!(subscribe_command(&vec![]), b"event json ");
    assert_eq!(
        bgapi_command("status", "id"),
        b"bgapi status\nJob-UUID: id"
    );
    assert_eq!(
        execute_command("call", "playback", "file.wav", "id"),
        b"sendmsg call\nexecute-app-name: playback\nexecute-app-arg: file.wav\ncall-command: execute\nEvent-UUID: id"
    );
}

#[test]
fn a_new_connection_is_neither_connected_nor_failed() {
    let connection = Connection::new("ClueCon");
    assert!(!connection.connected());
    assert_eq!(connection.call_uuid(), None);
    assert_eq!(connection.get_info_string("Caller"), None);
    assert!(connection.get_info("Caller").is_none());
    assert_eq!(connection.send(b"item"), Ok(b"item".to_vec()));
}

#[test]
fn an_outbound_handshake_learns_of_the_call() {
    let connection = outbound();
    assert_eq!(connection.call_uuid(), Some("call-1".to_string()));
    assert_eq!(
        connection.get_info_string("Caller"),
        Some("1000".to_string())
    );
    assert_eq!(connection.get_info_string("Callee"), None);
    assert!(connection.get_info("Caller").is_some());
    assert!(!connection.connected());
}

#[test]
fn parameters_that_are_no_strings_are_not_given_as_strings() {
    let mut connection = Connection::new("");
    let session = Event {
        headers: StringMap::from_pairs(vec![("n".to_string(), Value::Other("12".to_string()))]),
        body: None,
    };
    let step = connection
        .handshake_reply(Handshake::Connect, Ok(session))
        .unwrap();
    assert_eq!(step, Handshake::SubscribeCall);
    assert_eq!(connection.get_info_string("n"), None);
    assert!(matches!(connection.get_info("n"), Some(Value::Other(json)) if json == "12"));
    assert!(!connection.can_read_handshake_reply(Handshake::MyEvents, &Ok(ok_reply())));
}

#[test]
fn the_greeting_comes_on_inbound_connections_only() {
    assert!(EslConnectionType::Inbound.has_greeting());
    assert!(!EslConnectionType::Outbound.has_greeting());
    assert_eq!(EslConnectionType::Inbound.first_command(), Handshake::Auth);
    assert_eq!(
        EslConnectionType::Outbound.first_command(),
        Handshake::Connect
    );
}

#[test]
fn the_answer_to_the_password_decides() {
    let mut connection = Connection::new("ClueCon");
    assert_eq!(connection.auth(1), Ok(b"auth ClueCon".to_vec()));
    let refused = frame("Reply-Text: -ERR invalid\n\n");
    assert_eq!(connection.auth_reply(refused), Err(EslError::AuthFailed));
    assert!(!connection.connected());
    let odd = frame("Reply-Text: hello there\n\n");
    assert_eq!(
        connection.auth_reply(odd),
        Err(EslError::InternalError(
            "Got unknown code in auth request".to_string()
        ))
    );
    let missing = frame("Content-Type: command/reply\n\n");
    assert_eq!(
        connection.auth_reply(missing),
        Err(EslError::InternalError(
            "Reply-Text in auth request was not found".to_string()
        ))
    );
    let spaceless = frame("Reply-Text: +OK\n\n");
    assert_eq!(
        connection.auth_reply(spaceless),
        Err(EslError::InternalError(
            "Unable to find space index".to_string()
        ))
    );
    assert!(!connection.connected());
    let accepted = frame("Reply-Text: +OK accepted\n\n");
    assert!(Connection::can_read_auth_reply(&accepted));
    assert_eq!(
        connection.auth_reply(accepted),
        Ok("accepte".to_string())
    );
    assert!(connection.connected());
    assert!(!Connection::can_read_auth_reply(&frame(
        "Reply-Text: +OK grün\u{fc}\n\n"
    )));
}

#[test]
fn answers_go_to_the_oldest_command() {
    let mut connection = Connection::new("");
    for waiter in 1..4 {
        assert_eq!(connection.send_recv(b"x", waiter), Ok(b"x".to_vec()));
    }
    for expected in 1..4 {
        match connection.read(Some(Ok(ok_reply()))) {
            ReaderAction::Reply { waiter, event } => {
                assert_eq!(waiter, expected);
                assert_eq!(get_text(event.headers(), "Reply-Text"), Some("+OK"));
            }
            _ => panic!("not a reply"),
        }
    }
    assert!(matches!(
        connection.read(Some(Ok(ok_reply()))),
        ReaderAction::Discard
    ));
}

#[test]
fn a_frame_without_a_content_type_is_an_answer() {
    let mut connection = Connection::new("");
    connection.send_recv(b"x", 1).unwrap();
    assert!(matches!(
        connection.receive(frame("Some-Header: 1\n\n")),
        ReaderAction::Reply { waiter: 1, .. }
    ));
}

#[test]
fn failures_refuse_every_later_command() {
    let mut connection = Connection::new("");
    connection.send_recv(b"x", 1).unwrap();
    let error = EslError::TransportError("broken pipe".to_string());
    assert_eq!(connection.written(Err(error)).is_err(), true);
    assert_eq!(connection.send(b"x"), Err(EslError::ConnectionClosed));
    assert_eq!(
        connection.send_recv(b"x", 2),
        Err(EslError::ConnectionClosed)
    );
    assert_eq!(connection.api("x", 2), Err(EslError::ConnectionClosed));
    assert_eq!(
        connection.bgapi("x", 2, 3).1,
        Err(EslError::ConnectionClosed)
    );
    assert!(matches!(
        connection.read(Some(Ok(ok_reply()))),
        ReaderAction::Discard
    ));
}

#[test]
fn whoever_is_dropped_learns_why() {
    let mut connection = Connection::new("");
    assert_eq!(
        connection.recv_event(None).err(),
        Some(EslError::RecvError)
    );
    assert!(connection.recv_event(Some(ok_reply())).is_ok());
    connection.fail_connection();
    assert_eq!(
        connection.recv_event(None).err(),
        Some(EslError::ConnectionClosed)
    );
    assert!(connection.recv_event(Some(ok_reply())).is_ok());
    assert_eq!(
        connection.bgapi_result(None),
        Some(Err(EslError::ConnectionClosed))
    );
}

#[test]
fn the_end_of_the_stream_fails_the_connection() {
    let ends: Vec<Option<Result<Event, EslError>>> = vec![
        None,
        Some(Err(EslError::TransportError("reset".to_string()))),
        Some(Ok(frame("Content-Type: text/disconnect-notice\n\n"))),
    ];
    for end in ends {
        let mut connection = Connection::new("");
        connection
            .auth_reply(frame("Reply-Text: +OK accepted\n\n"))
            .unwrap();
        connection.send_recv(b"x", 1).unwrap();
        assert!(matches!(connection.read(end), ReaderAction::Stop));
        assert!(!connection.connected());
        assert_eq!(connection.send(b"x"), Err(EslError::ConnectionClosed));
        assert!(matches!(
            connection.receive(ok_reply()),
            ReaderAction::Discard
        ));
    }
}

#[test]
fn a_timed_command_keeps_its_result() {
    let mut connection = Connection::new("");
    let timeout = Duration::from_millis(25);
    assert!(connection
        .send_recv_timeout(Some(Ok(ok_reply())), timeout)
        .is_ok());
    assert_eq!(
        connection.api_timeout(Some(Err(EslError::RecvError)), timeout),
        Err(EslError::RecvError)
    );
    assert_eq!(
        connection.api_timeout(
            Some(Ok(frame("Content-Length: 9\n\n+OK fine\n"))),
            timeout
        ),
        Ok("fine".to_string())
    );
    assert!(connection.send(b"x").is_ok());
}

#[test]
fn job_ids_are_random_uuids() {
    let mut connection = Connection::new("");
    let (first, written) = connection.bgapi("status", 1, 2);
    assert_eq!(
        written.unwrap(),
        format!("bgapi status\nJob-UUID: {}", first).into_bytes()
    );
    let (second, _) = connection.bgapi("status", 1, 2);
    assert_ne!(first, second);
    for uuid in [first, second] {
        assert_eq!(uuid.len(), 36);
        for (i, c) in uuid.chars().enumerate() {
            match i {
                8 | 13 | 18 | 23 => assert_eq!(c, '-'),
                14 => assert_eq!(c, '4'),
                19 => assert!("89ab".contains(c)),
                _ => assert!("0123456789abcdef".contains(c)),
            }
        }
    }
}

#[test]
fn the_end_of_a_job_reaches_its_waiter_once() {
    let mut connection = Connection::new("");
    connection.start_bgapi("status", "job-1", 1, 11).unwrap();
    connection.start_bgapi("status", "job-2", 2, 12).unwrap();
    let event = json_frame("{\"Event-Name\":\"BACKGROUND_JOB\",\"Job-UUID\":\"job-2\"}");
    match connection.receive(event) {
        ReaderAction::Publish { members, name, .. } => {
            assert_eq!(name, None);
            assert_eq!(connection.dispatch_event(&members), None);
            assert!(can_dispatch_job(&members));
            assert_eq!(connection.dispatch_job(&members), Some(12));
            assert_eq!(connection.dispatch_job(&members), None);
        }
        _ => panic!("not published"),
    }
    let event = json_frame("{\"Job-UUID\":\"job-1\",\"Application-UUID\":12}");
    match connection.receive(event) {
        ReaderAction::Publish { members, .. } => {
            assert_eq!(connection.dispatch_job(&members), Some(11));
        }
        _ => panic!("not published"),
    }
}

#[test]
fn a_job_that_takes_too_long_is_forgotten_alone() {
    let mut connection = Connection::new("");
    let timeout = Duration::from_millis(25);
    connection.start_bgapi("status", "job-1", 1, 11).unwrap();
    connection.start_bgapi("status", "job-2", 2, 12).unwrap();
    assert!(connection
        .bgapi_timeout_reply("job-1", Some(Ok(ok_reply())), timeout)
        .is_ok());
    assert_eq!(
        connection.bgapi_timeout("job-1", JobOutcome::Elapsed, timeout),
        Some(Err(EslError::Timeout(timeout)))
    );
    let members =
        StringMap::from_pairs(vec![("Job-UUID".into(), Value::String("job-1".into()))]);
    assert_eq!(connection.dispatch_job(&members), None);
    let members =
        StringMap::from_pairs(vec![("Job-UUID".into(), Value::String("job-2".into()))]);
    assert_eq!(connection.dispatch_job(&members), Some(12));
    assert!(connection.send(b"x").is_ok());
}

#[test]
fn a_job_whose_command_fails_is_forgotten() {
    let mut connection = Connection::new("");
    let timeout = Duration::from_millis(25);
    connection.start_bgapi("status", "job-1", 1, 11).unwrap();
    assert_eq!(
        connection
            .bgapi_timeout_reply("job-1", Some(Err(EslError::RecvError)), timeout)
            .err(),
        Some(EslError::RecvError)
    );
    let members =
        StringMap::from_pairs(vec![("Job-UUID".into(), Value::String("job-1".into()))]);
    assert_eq!(connection.dispatch_job(&members), None);
    assert!(connection.send(b"x").is_ok());
}

#[test]
fn a_finished_job_is_settled() {
    let mut connection = Connection::new("");
    let timeout = Duration::from_millis(25);
    let event = json_frame("{\"_body\":\"+OK done\\n\"}");
    assert_eq!(
        connection.bgapi_timeout("job-1", JobOutcome::Finished(event), timeout),
        Some(Ok("done".to_string()))
    );
    assert_eq!(
        connection.bgapi_timeout("job-1", JobOutcome::Dropped, timeout),
        Some(Err(EslError::RecvError))
    );
    let event = json_frame("{\"_body\":[]}");
    assert_eq!(
        connection.bgapi_timeout("job-1", JobOutcome::Finished(event), timeout),
        None
    );
}

#[test]
fn applications_are_executed_on_the_call() {
    let mut connection = outbound();
    let (uuid, written) = connection.execute("playback", "file.wav", 1, 11);
    assert_eq!(
        String::from_utf8(written.unwrap()).unwrap(),
        format!(
            "sendmsg call-1\nexecute-app-name: playback\nexecute-app-arg: file.wav\ncall-command: execute\nEvent-UUID: {}",
            uuid
        )
    );
    let (hangup, written) = connection.hangup("USER_BUSY", 2, 12);
    assert_eq!(
        String::from_utf8(written.unwrap()).unwrap(),
        format!(
            "sendmsg call-1\nexecute-app-name: hangup\nexecute-app-arg: USER_BUSY\ncall-command: execute\nEvent-UUID: {}",
            hangup
        )
    );
    let (answer, written) = connection.answer(3, 13);
    assert_eq!(
        String::from_utf8(written.unwrap()).unwrap(),
        format!(
            "sendmsg call-1\nexecute-app-name: answer\nexecute-app-arg: \ncall-command: execute\nEvent-UUID: {}",
            answer
        )
    );
    let report = |name: &str| {
        json_frame(&format!(
            "{{\"Event-Name\":\"{}\",\"Application-UUID\":\"{}\"}}",
            name, uuid
        ))
    };
    for (name, waiter) in [
        ("CHANNEL_EXECUTE", None),
        ("CHANNEL_EXECUTE_COMPLETE", Some(11)),
        ("CHANNEL_EXECUTE_COMPLETE", None),
    ] {
        match connection.receive(report(name)) {
            ReaderAction::Publish { members, .. } => {
                assert_eq!(connection.dispatch_job(&members), waiter);
            }
            _ => panic!("not published"),
        }
    }
}

#[test]
fn events_reach_those_who_wait_for_them() {
    let mut connection = Connection::new("");
    connection.wait_for_event("chan-1".to_string(), "CHANNEL_ANSWER".to_string(), 21);
    connection.wait_for_event("chan-2".to_string(), "CHANNEL_ANSWER".to_string(), 22);
    let event = json_frame("{\"Event-Name\":\"CHANNEL_ANSWER\",\"Unique-ID\":\"chan-2\"}");
    match connection.receive(event) {
        ReaderAction::Publish { members, name, .. } => {
            assert_eq!(name, Some("CHANNEL_ANSWER".to_string()));
            assert_eq!(connection.dispatch_event(&members), Some(22));
            assert_eq!(connection.dispatch_event(&members), None);
            assert!(can_dispatch_job(&members));
            assert_eq!(connection.dispatch_job(&members), None);
        }
        _ => panic!("not published"),
    }
}

#[test]
fn malformed_events_change_nothing() {
    let mut connection = Connection::new("");
    connection.send_recv(b"x", 1).unwrap();
    let odd_type = Event {
        headers: StringMap::from_pairs(vec![(
            "Content-Type".to_string(),
            Value::Other("12".to_string()),
        )]),
        body: None,
    };
    let events = vec![
        odd_type,
        frame("Content-Type: text/event-json\n\n"),
        json_frame("not-json!!"),
    ];
    for event in events {
        assert!(matches!(connection.receive(event), ReaderAction::Discard));
    }
    assert!(matches!(
        connection.receive(ok_reply()),
        ReaderAction::Reply { waiter: 1, .. }
    ));
}

#[test]
fn events_that_name_something_by_no_string_are_unreadable() {
    for body in [
        "{\"Event-Name\":1,\"Unique-ID\":\"chan\"}",
        "{\"Event-Name\":\"X\",\"Unique-ID\":null}",
        "{\"Event-Name\":1,\"Unique-ID\":\"chan\",\"Job-UUID\":\"job\"}",
    ] {
        let mut connection = Connection::new("");
        assert!(matches!(
            connection.receive(json_frame(body)),
            ReaderAction::Unreadable
        ));
    }
    for body in ["{\"Event-Name\":1}", "{\"Unique-ID\":1}", "{}"] {
        let mut connection = Connection::new("");
        assert!(matches!(
            connection.receive(json_frame(body)),
            ReaderAction::Publish { .. }
        ));
    }
    let action: ReaderAction<u32> = publish(ok_reply(), None);
    assert!(matches!(action, ReaderAction::Discard));
}

#[test]
fn an_event_is_delivered_before_its_job_is_read() {
    for (member, name) in [
        ("\"Job-UUID\":7", "CHANNEL_ANSWER"),
        ("\"Job-UUID\":null,\"Application-UUID\":\"app\"", "CHANNEL_ANSWER"),
        ("\"Application-UUID\":{}", "CHANNEL_EXECUTE_COMPLETE"),
        ("\"Application-UUID\":[]", "CHANNEL_ANSWER"),
    ] {
        let mut connection = Connection::new("");
        connection.wait_for_event("chan-1".to_string(), name.to_string(), 21);
        connection.wait_for_event("chan-2".to_string(), name.to_string(), 22);
        let body = format!(
            "{{\"Event-Name\":\"{}\",\"Unique-ID\":\"chan-1\",{}}}",
            name, member
        );
        match connection.receive(json_frame(&body)) {
            ReaderAction::Publish {
                members,
                name: published,
                ..
            } => {
                assert_eq!(published, Some(name.to_string()));
                assert_eq!(connection.dispatch_event(&members), Some(21));
                assert!(!can_dispatch_job(&members));
            }
            _ => panic!("not published"),
        }
        let other = StringMap::from_pairs(vec![
            ("Event-Name".into(), Value::String(name.to_string())),
            ("Unique-ID".into(), Value::String("chan-2".into())),
        ]);
        assert_eq!(connection.dispatch_event(&other), Some(22));
    }
    for body in ["{\"Job-UUID\":[]}", "{\"Application-UUID\":{}}"] {
        let mut connection = Connection::new("");
        match connection.receive(json_frame(body)) {
            ReaderAction::Publish { members, name, .. } => {
                assert_eq!(name, None);
                assert_eq!(connection.dispatch_event(&members), None);
                assert!(!can_dispatch_job(&members));
            }
            _ => panic!("not published"),
        }
    }
}

#[test]
fn a_connection_stays_connected_until_it_fails() {
    let mut connection = Connection::new("secret");
    assert!(!connection.connected());
    let step = EslConnectionType::Inbound.first_command();
    connection.handshake_send(step, 1).unwrap();
    assert!(matches!(
        connection.receive(ok_reply()),
        ReaderAction::Reply { waiter: 1, .. }
    ));
    assert_eq!(
        connection.handshake_reply(
            step,
            Ok(frame("Content-Type: command/reply\nReply-Text: +OK accepted\n\n"))
        ),
        Ok(Handshake::Subscribe)
    );
    assert!(connection.connected());
    let timeout = Duration::from_millis(25);
    connection.start_bgapi("status", "job-1", 2, 11).unwrap();
    assert!(connection
        .bgapi_timeout_reply("job-1", Some(Ok(ok_reply())), timeout)
        .is_ok());
    connection.wait_for_event("chan".to_string(), "X".to_string(), 21);
    connection.receive(json_frame("not-json!!"));
    assert_eq!(
        connection.disconnect_reply(Err(EslError::RecvError)),
        Err(EslError::RecvError)
    );
    assert!(connection.connected());
    let members = StringMap::from_pairs(vec![
        ("Event-Name".into(), Value::String("X".into())),
        ("Unique-ID".into(), Value::String("chan".into())),
        ("Job-UUID".into(), Value::String("job-1".into())),
    ]);
    assert_eq!(connection.dispatch_event(&members), Some(21));
    assert_eq!(connection.dispatch_job(&members), Some(11));
    connection.receive(frame("Content-Type: text/disconnect-notice\n\n"));
    assert!(!connection.connected());
    assert_eq!(connection.send(b"x"), Err(EslError::ConnectionClosed));
}

#[test]
fn disconnecting_refuses_later_commands_but_releases_nobody() {
    let mut connection = Connection::new("");
    connection.start_bgapi("status", "job-1", 1, 11).unwrap();
    assert_eq!(connection.disconnect(2), Ok(b"exit".to_vec()));
    assert_eq!(
        connection.disconnect_reply(Err(EslError::RecvError)),
        Err(EslError::RecvError)
    );
    assert!(connection.send(b"x").is_ok());
    assert_eq!(connection.disconnect_reply(Ok(ok_reply())), Ok(()));
    assert!(!connection.connected());
    assert_eq!(connection.send(b"x"), Err(EslError::ConnectionClosed));
    let members =
        StringMap::from_pairs(vec![("Job-UUID".into(), Value::String("job-1".into()))]);
    assert_eq!(connection.dispatch_job(&members), Some(11));
}

#[test]
fn worker_tasks_that_fail_are_reported() {
    assert_eq!(join_esl_task(Ok(Ok(5))), Ok(5));
    assert_eq!(
        join_esl_task::<u32>(Ok(Err(EslError::AuthFailed))),
        Err(EslError::AuthFailed)
    );
    assert_eq!(
        join_esl_task::<u32>(Err("task 3 panicked".to_string())),
        Err(EslError::InternalError(
            "ESL worker task failed: task 3 panicked".to_string()
        ))
    );
}

#[test]
fn commands_end_with_an_empty_line() {
    assert_eq!(encode(b"api status"), b"api status\n\n");
    assert_eq!(encode(b""), b"\n\n");
}

#[test]
fn frames_are_taken_off_one_by_one() {
    let bytes = b"Content-Type: api/response\nContent-Length: 14\n\n+OK [Success]\n\nA:  b: c \n\nrest";
    let (event, length) = decode(bytes).unwrap().unwrap();
    assert_eq!(event.body().as_deref(), Some("+OK [Success]\n"));
    assert_eq!(
        get_text(event.headers(), "Content-Type"),
        Some("api/response")
    );
    let rest = &bytes[length..];
    let (event, length) = decode(rest).unwrap().unwrap();
    assert_eq!(event.body(), &None);
    assert_eq!(get_text(event.headers(), "A"), Some("b: c"));
    assert_eq!(&rest[length..], b"rest");
    assert!(decode(b"rest").unwrap().is_none());
}

#[test]
fn a_frame_is_complete_with_its_last_byte() {
    let bytes = b"\nContent-Length: 3\nno header\n\nabc";
    for end in 0..bytes.len() {
        assert!(decode(&bytes[..end]).unwrap().is_none());
    }
    let (event, length) = decode(bytes).unwrap().unwrap();
    assert_eq!(length, bytes.len());
    assert_eq!(event.body().as_deref(), Some("abc"));
    assert!(!event.headers().contains_key("no header"));
    assert!(decode(b"Content-Length: 99999999999999999999999\n\nabc")
        .unwrap()
        .is_none());
}

#[test]
fn what_is_no_frame_is_an_error() {
    let not_utf8 = EslError::InternalError("A frame is not UTF-8".to_string());
    assert_eq!(decode(b"A: \xff\n\n").err(), Some(not_utf8));
    let not_utf8 = EslError::InternalError("A frame is not UTF-8".to_string());
    assert_eq!(
        decode(b"Content-Length: 1\n\n\xff").err(),
        Some(not_utf8)
    );
    for digits in ["x", "", "-1", "1 2"] {
        assert_eq!(
            decode(format!("Content-Length: {}\n\n", digits).as_bytes()).err(),
            Some(EslError::InternalError(
                "Content-Length is not a number".to_string()
            ))
        );
    }
}
