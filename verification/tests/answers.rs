//! What answers say.

use freeswitch_esl::code::{parse_code, Code};
use freeswitch_esl::error::EslError;
use freeswitch_esl::event::{get_text, Event, Value};
use freeswitch_esl::response::{
    can_parse_api_event, can_parse_api_response, can_read_job_result, parse_api_event,
    parse_api_response, parse_bgapi_response, parse_json_body, read_job_result,
    try_parse_bgapi_response,
};
use freeswitch_esl::string_map::StringMap;
use freeswitch_esl::text::{first_word_len, is_one_byte_char, is_whitespace, trim};

fn fields(pairs: &[(&str, &str)]) -> StringMap<Value> {
    StringMap::from_pairs(
        pairs
            .iter()
            .map(|(key, text)| (key.to_string(), Value::String(text.to_string())))
            .collect(),
    )
}

fn frame(body: &str) -> Event {
    Event {
        headers: StringMap::new(),
        body: Some(body.to_string()),
    }
}

#[test]
fn white_space_is_that_of_char() {
    for c in '\0'..=char::MAX {
        assert_eq!(is_whitespace(c), c.is_whitespace(), "{:?}", c);
        assert_eq!(is_one_byte_char(c), c.len_utf8() == 1, "{:?}", c);
    }
}

#[test]
fn words_end_at_white_space() {
    assert_eq!(first_word_len(""), 0);
    assert_eq!(first_word_len("word"), 4);
    assert_eq!(first_word_len("wörd x"), 4);
    assert_eq!(first_word_len(" x"), 0);
    assert_eq!(first_word_len("a\u{3000}b"), 1);
}

#[test]
fn trim_is_that_of_str() {
    for text in ["", " ", " a", "a ", " a b \t", "\u{a0}x\u{3000}", "plain"] {
        assert_eq!(trim(text), text.trim());
    }
}

#[test]
fn codes_are_whole_words() {
    assert_eq!(parse_code("+OK"), Code::Success);
    assert_eq!(parse_code("-ERR"), Code::Failure);
    assert_eq!(parse_code("+ok"), Code::Unknown);
    assert_eq!(parse_code("+OKAY"), Code::Unknown);
    assert_eq!(parse_code(""), Code::Unknown);
}

#[test]
fn an_answer_has_a_code_and_a_text() {
    assert_eq!(
        parse_api_response("+OK karan\n"),
        Ok((Code::Success, "karan".to_string()))
    );
    assert_eq!(
        parse_api_response("-ERR no such call\n"),
        Ok((Code::Failure, "no such call".to_string()))
    );
    assert_eq!(
        parse_api_response("+OK\n"),
        Ok((Code::Success, String::new()))
    );
    assert_eq!(
        parse_api_response("Reload XML\n"),
        Ok((Code::Unknown, "XML".to_string()))
    );
    assert_eq!(
        parse_api_response(" x\n"),
        Ok((Code::Unknown, "x".to_string()))
    );
}

#[test]
fn the_last_character_is_always_cut_off() {
    assert_eq!(
        parse_api_response("+OK accepted"),
        Ok((Code::Success, "accepte".to_string()))
    );
    assert_eq!(
        parse_api_response("+OK x"),
        Ok((Code::Success, String::new()))
    );
    assert_eq!(
        parse_api_response("+OK grün\n"),
        Ok((Code::Success, "grün".to_string()))
    );
}

#[test]
fn an_answer_without_white_space_is_an_error() {
    let error = EslError::InternalError("Unable to find space index".to_string());
    assert_eq!(parse_api_response("+OK"), Err(error));
    let error = EslError::InternalError("Unable to find space index".to_string());
    assert_eq!(parse_api_response(""), Err(error));
}

#[test]
fn answers_are_cut_between_characters_only() {
    assert!(can_parse_api_response("+OK ä\n"));
    assert!(can_parse_api_response("ä"));
    assert!(can_parse_api_response(""));
    assert!(!can_parse_api_response("+OK ä"));
    assert!(!can_parse_api_response("+OK\u{a0}x\n"));
    assert!(!can_parse_api_response("+OK\u{3000}"));
    for body in ["+OK ä\n", "+OK ä", "+OK\u{a0}x\n", "+OK\u{3000}", "+OK\n", "a b"] {
        let space = body.find(char::is_whitespace).unwrap();
        let boundaries = body.is_char_boundary(space + 1) && body.is_char_boundary(body.len() - 1);
        assert_eq!(can_parse_api_response(body), boundaries, "{:?}", body);
    }
}

#[test]
fn an_api_frame_gives_its_answer() {
    assert_eq!(
        parse_api_event(frame("+OK some text\n")),
        Ok("some text".to_string())
    );
    assert_eq!(
        parse_api_event(frame("-ERR some text\n")),
        Err(EslError::ApiError("some text".to_string()))
    );
    assert_eq!(
        parse_api_event(frame("neither of them\n")),
        Ok("neither of them\n".to_string())
    );
    assert_eq!(
        parse_api_event(frame("word")),
        Err(EslError::InternalError(
            "Unable to find space index".to_string()
        ))
    );
    let empty = Event {
        headers: StringMap::new(),
        body: None,
    };
    assert!(can_parse_api_event(&empty));
    assert_eq!(
        parse_api_event(empty),
        Err(EslError::InternalError(
            "Didnt get body in api response".to_string()
        ))
    );
    assert!(!can_parse_api_event(&frame("+OK ü")));
}

#[test]
fn json_members_are_read() {
    let members = parse_json_body(
        "{\"a\": \"x\\ny\", \"b\": 12, \"c\": null, \"d\": [true, {\"e\": \"f\"}], \"a2\": \"\"}",
    )
    .unwrap();
    assert_eq!(get_text(&members, "a"), Some("x\ny"));
    assert_eq!(get_text(&members, "a2"), Some(""));
    assert_eq!(get_text(&members, "b"), None);
    assert!(members.contains_key("b"));
    assert!(!members.contains_key("e"));
    let text = |key: &str| match members.get(key) {
        Some(Value::Other(json)) => json.clone(),
        other => panic!("{:?}", other),
    };
    assert_eq!(text("b"), "12");
    assert_eq!(text("c"), "null");
    assert_eq!(text("d"), "[true,{\"e\":\"f\"}]");
}

#[test]
fn the_last_of_two_equal_members_counts() {
    let members = parse_json_body("{\"a\": \"x\", \"a\": \"y\"}").unwrap();
    assert_eq!(get_text(&members, "a"), Some("y"));
}

#[test]
fn what_is_no_json_object_is_an_error() {
    for body in ["not-json!!", "", "[1]", "\"text\"", "{\"a\": 1", "{} {}"] {
        assert_eq!(parse_json_body(body).err(), Some(EslError::JsonError));
    }
    assert!(parse_json_body(" {} ").is_ok());
}

#[test]
fn a_job_gives_its_answer() {
    assert_eq!(
        parse_bgapi_response(frame("{\"_body\": \"+OK [Success]\\n\"}")),
        Ok("[Success]".to_string())
    );
    assert_eq!(
        parse_bgapi_response(frame("{\"_body\": \"-ERR SUBSCRIBER_ABSENT\\n\"}")),
        Err(EslError::ApiError("SUBSCRIBER_ABSENT".to_string()))
    );
    assert_eq!(
        parse_bgapi_response(frame("{\"_body\": \"some other text\\n\"}")),
        Ok("some other text\n".to_string())
    );
}

#[test]
fn a_job_without_an_answer_is_an_error() {
    let missing = || EslError::InternalError("body was not found in event/json".to_string());
    let empty = Event {
        headers: fields(&[("_body", "+OK x\n")]),
        body: None,
    };
    assert_eq!(parse_bgapi_response(empty), Err(missing()));
    assert_eq!(
        parse_bgapi_response(frame("{\"Job-UUID\": \"1\"}")),
        Err(missing())
    );
    assert_eq!(
        parse_bgapi_response(frame("not-json!!")),
        Err(EslError::JsonError)
    );
}

#[test]
fn members_override_headers() {
    let from_header = Event {
        headers: fields(&[("_body", "+OK header\n")]),
        body: Some("{}".to_string()),
    };
    assert_eq!(parse_bgapi_response(from_header), Ok("header".to_string()));
    assert_eq!(
        read_job_result(
            fields(&[("_body", "+OK header\n")]),
            fields(&[("_body", "+OK member\n")])
        ),
        Ok("member".to_string())
    );
}

#[test]
fn a_job_answer_must_be_a_string_that_can_be_cut() {
    assert_eq!(try_parse_bgapi_response(frame("{\"_body\": 12}")), None);
    assert_eq!(
        try_parse_bgapi_response(frame("{\"_body\": \"+OK ä\"}")),
        None
    );
    assert_eq!(
        try_parse_bgapi_response(frame("{\"_body\": \"+OK ä\\n\"}")),
        Some(Ok("ä".to_string()))
    );
    assert!(can_read_job_result(&fields(&[]), &fields(&[])));
    assert!(!can_read_job_result(
        &fields(&[("_body", "+OK ä")]),
        &fields(&[])
    ));
    assert!(can_read_job_result(
        &fields(&[("_body", "+OK ä")]),
        &fields(&[("_body", "+OK a")])
    ));
}

#[test]
fn maps_hold_what_was_stored_last() {
    let mut map: StringMap<u32> = StringMap::new();
    map.insert("a".to_string(), 1);
    map.insert("b".to_string(), 2);
    map.insert("a".to_string(), 3);
    assert_eq!(map.get("a"), Some(&3));
    assert_eq!(map.get("b"), Some(&2));
    assert_eq!(map.get("c"), None);
    let mut keys = map.keys();
    keys.sort();
    assert_eq!(keys, vec!["a".to_string(), "b".to_string()]);
    let copy = map.clone();
    assert_eq!(map.remove("a"), Some(3));
    assert_eq!(map.keys(), vec!["b".to_string()]);
    assert_eq!(map.remove("a"), None);
    assert_eq!(copy.get("a"), Some(&3));
    let mut other: StringMap<u32> =
        StringMap::from_pairs(vec![("b".to_string(), 5), ("c".to_string(), 6)]);
    other.extend(map);
    assert_eq!(other.get("b"), Some(&2));
    assert_eq!(other.get("c"), Some(&6));
    other.clear();
    assert!(!other.contains_key("b"));
    assert!(other.keys().is_empty());
}
