//! What holds of the commands that are sent.

use crate::command::{
    api_text, auth_text, bgapi_text, execute_text, spaced, subscribe_text,
};
use crate::handshake::{EslConnectionType, Handshake, first_command, handshake_text};
use crate::outside::is_random_uuid;
use crate::text::lemma_encode_concat;
use vstd::prelude::*;
use vstd::utf8::encode_utf8;

verus! {

/// Whether `text` stands in `whole` from `start` on.
pub open spec fn stands_at(whole: Seq<char>, start: int, text: Seq<char>) -> bool {
    &&& 0 <= start
    &&& start + text.len() <= whole.len()
    &&& forall|i: int| 0 <= i < text.len() ==> #[trigger] text[i] == whole[start + i]
}

/// A text that begins with `prefix` and goes on with `argument` to its end.
proof fn lemma_prefixed(whole: Seq<char>, prefix: Seq<char>, argument: Seq<char>)
    requires
        whole == prefix + argument,
    ensures
        whole.len() == prefix.len() + argument.len(),
        whole.take(prefix.len() as int) == prefix,
        whole.skip(prefix.len() as int) == argument,
        encode_utf8(whole) == encode_utf8(prefix) + encode_utf8(argument),
{
    assert(whole.take(prefix.len() as int) =~= prefix);
    assert(whole.skip(prefix.len() as int) =~= argument);
    lemma_encode_concat(prefix, argument);
}

/// The password is sent whole, after `auth` and a space: on the stream, the bytes
/// of the password are all that follows, and two passwords are never sent alike.
pub proof fn law_password_is_sent_whole(password: Seq<char>, other: Seq<char>)
    ensures
        auth_text(password).len() == 5 + password.len(),
        auth_text(password).take(5) == "auth "@,
        auth_text(password).skip(5) == password,
        auth_text(password) == auth_text(other) ==> password == other,
        encode_utf8(auth_text(password)) == encode_utf8("auth "@) + encode_utf8(password),
        encode_utf8(handshake_text(Handshake::Auth, password)) == encode_utf8("auth "@)
            + encode_utf8(password),
{
    reveal_strlit("auth ");
    lemma_prefixed(auth_text(password), "auth "@, password);
    lemma_prefixed(auth_text(other), "auth "@, other);
}

/// An `api` command is sent whole, after `api` and a space.
pub proof fn law_api_command_is_sent_whole(command: Seq<char>, other: Seq<char>)
    ensures
        api_text(command).len() == 4 + command.len(),
        api_text(command).take(4) == "api "@,
        api_text(command).skip(4) == command,
        api_text(command) == api_text(other) ==> command == other,
        encode_utf8(api_text(command)) == encode_utf8("api "@) + encode_utf8(command),
{
    reveal_strlit("api ");
    lemma_prefixed(api_text(command), "api "@, command);
    lemma_prefixed(api_text(other), "api "@, other);
}

/// A background command is sent whole, after `bgapi` and a space, and its id whole
/// on a second line.
pub proof fn law_background_command_is_sent_whole(
    command: Seq<char>,
    job_uuid: Seq<char>,
    other: Seq<char>,
    other_uuid: Seq<char>,
)
    ensures
        ({
            let text = bgapi_text(command, job_uuid);
            let n = command.len() as int;
            &&& text.len() == 17 + n + job_uuid.len()
            &&& stands_at(text, 0, "bgapi "@)
            &&& stands_at(text, 6, command)
            &&& stands_at(text, 6 + n, "\nJob-UUID: "@)
            &&& text.skip(17 + n) == job_uuid
        }),
        bgapi_text(command, job_uuid) == bgapi_text(other, job_uuid) ==> command == other,
        bgapi_text(command, job_uuid) == bgapi_text(command, other_uuid) ==> job_uuid
            == other_uuid,
        encode_utf8(bgapi_text(command, job_uuid)) == encode_utf8("bgapi "@) + encode_utf8(command)
            + encode_utf8("\nJob-UUID: "@) + encode_utf8(job_uuid),
{
    reveal_strlit("bgapi ");
    reveal_strlit("\nJob-UUID: ");
    let n = command.len() as int;
    let text = bgapi_text(command, job_uuid);
    assert(text.skip(17 + n) =~= job_uuid);
    assert(text.subrange(6, 6 + n) =~= command);
    let changed = bgapi_text(other, job_uuid);
    assert(changed.subrange(6, 6 + other.len() as int) =~= other);
    assert(changed.len() == 17 + other.len() + job_uuid.len());
    assert(bgapi_text(command, other_uuid).skip(17 + n) =~= other_uuid);
    lemma_encode_concat("bgapi "@, command);
    lemma_encode_concat("bgapi "@ + command, "\nJob-UUID: "@);
    lemma_encode_concat("bgapi "@ + command + "\nJob-UUID: "@, job_uuid);
}

/// The command that executes an application names the call, the application, its
/// arguments and the id of the event, each whole and on a line of its own.
pub proof fn law_application_is_sent_whole(
    call_uuid: Seq<char>,
    app_name: Seq<char>,
    app_args: Seq<char>,
    event_uuid: Seq<char>,
)
    ensures
        ({
            let text = execute_text(call_uuid, app_name, app_args, event_uuid);
            let name_at = 27 + call_uuid.len() as int;
            let args_at = name_at + app_name.len() + 18;
            let uuid_at = args_at + app_args.len() + 35;
            &&& text.len() == uuid_at + event_uuid.len()
            &&& stands_at(text, 0, "sendmsg "@)
            &&& stands_at(text, 8, call_uuid)
            &&& stands_at(text, name_at - 19, "\nexecute-app-name: "@)
            &&& stands_at(text, name_at, app_name)
            &&& stands_at(text, args_at - 18, "\nexecute-app-arg: "@)
            &&& stands_at(text, args_at, app_args)
            &&& stands_at(text, uuid_at - 35, "\ncall-command: execute\nEvent-UUID: "@)
            &&& stands_at(text, uuid_at, event_uuid)
        }),
        encode_utf8(execute_text(call_uuid, app_name, app_args, event_uuid)) == encode_utf8(
            "sendmsg "@,
        ) + encode_utf8(call_uuid) + encode_utf8("\nexecute-app-name: "@) + encode_utf8(app_name)
            + encode_utf8("\nexecute-app-arg: "@) + encode_utf8(app_args) + encode_utf8(
            "\ncall-command: execute\nEvent-UUID: "@,
        ) + encode_utf8(event_uuid),
{
    reveal_strlit("sendmsg ");
    reveal_strlit("\nexecute-app-name: ");
    reveal_strlit("\nexecute-app-arg: ");
    reveal_strlit("\ncall-command: execute\nEvent-UUID: ");
    let a = "sendmsg "@;
    let b = "\nexecute-app-name: "@;
    let c = "\nexecute-app-arg: "@;
    let d = "\ncall-command: execute\nEvent-UUID: "@;
    lemma_encode_concat(a, call_uuid);
    lemma_encode_concat(a + call_uuid, b);
    lemma_encode_concat(a + call_uuid + b, app_name);
    lemma_encode_concat(a + call_uuid + b + app_name, c);
    lemma_encode_concat(a + call_uuid + b + app_name + c, app_args);
    lemma_encode_concat(a + call_uuid + b + app_name + c + app_args, d);
    lemma_encode_concat(a + call_uuid + b + app_name + c + app_args + d, event_uuid);
}

/// Words are joined whole and in order: what two lists are joined to is what their
/// concatenation is joined to, with one space between.
pub proof fn law_words_are_joined(first: Seq<Seq<char>>, second: Seq<Seq<char>>, word: Seq<char>)
    ensures
        spaced(Seq::empty()) == Seq::<char>::empty(),
        spaced(seq![word]) == word,
        first.len() > 0 && second.len() > 0 ==> spaced(first + second) == spaced(first) + seq![' ']
            + spaced(second),
    decreases second.len(),
{
    if first.len() > 0 && second.len() > 0 {
        let all = first + second;
        let init = second.drop_last();
        reveal_strlit(" ");
        assert(" "@ =~= seq![' ']);
        assert(all.drop_last() =~= first + init);
        assert(all.last() == second.last());
        if init.len() == 0 {
            assert(first + init =~= first);
            assert(spaced(all) =~= spaced(first) + seq![' '] + spaced(second));
        } else {
            law_words_are_joined(first, init, word);
            assert(spaced(all) =~= spaced(first) + seq![' '] + spaced(second));
        }
    }
}

/// A subscription names every event whole and in order, with one space between,
/// after `event json` and a space.
pub proof fn law_subscription_names_every_event(
    events: Seq<Seq<char>>,
    event: Seq<char>,
    more: Seq<Seq<char>>,
)
    ensures
        subscribe_text(Seq::empty()) == "event json "@,
        subscribe_text(seq![event]) == "event json "@ + event,
        subscribe_text(events).take(11) == "event json "@,
        events.len() > 0 && more.len() > 0 ==> subscribe_text(events + more) == subscribe_text(
            events,
        ) + seq![' '] + subscribe_text(more).skip(11),
        encode_utf8(subscribe_text(events)) == encode_utf8("event json "@) + encode_utf8(
            subscribe_text(events).skip(11),
        ),
{
    reveal_strlit("event json ");
    law_words_are_joined(events, more, event);
    lemma_prefixed(subscribe_text(events), "event json "@, spaced(events));
    lemma_prefixed(subscribe_text(more), "event json "@, spaced(more));
    assert("event json "@ + Seq::<char>::empty() =~= "event json "@);
    if events.len() > 0 && more.len() > 0 {
        assert(subscribe_text(events + more) =~= subscribe_text(events) + seq![' ']
            + subscribe_text(more).skip(11));
    }
}

/// The other commands of the handshake do not depend on the password, and are
/// these.
pub proof fn law_handshake_commands(password: Seq<char>)
    ensures
        first_command(EslConnectionType::Inbound) == Handshake::Auth,
        first_command(EslConnectionType::Outbound) == Handshake::Connect,
        handshake_text(Handshake::Subscribe, password)
            == "event json BACKGROUND_JOB CHANNEL_EXECUTE_COMPLETE"@,
        handshake_text(Handshake::Connect, password) == "connect"@,
        handshake_text(Handshake::SubscribeCall, password)
            == "event json BACKGROUND_JOB CHANNEL_EXECUTE_COMPLETE"@,
        handshake_text(Handshake::MyEvents, password) == "myevents"@,
{
    reveal_strlit("event json BACKGROUND_JOB CHANNEL_EXECUTE_COMPLETE");
    reveal_strlit("event json ");
    reveal_strlit("BACKGROUND_JOB");
    reveal_strlit("CHANNEL_EXECUTE_COMPLETE");
    reveal_strlit(" ");
    let first = seq!["BACKGROUND_JOB"@];
    let second = seq!["CHANNEL_EXECUTE_COMPLETE"@];
    law_words_are_joined(first, second, "BACKGROUND_JOB"@);
    law_words_are_joined(first, second, "CHANNEL_EXECUTE_COMPLETE"@);
    assert(seq!["BACKGROUND_JOB"@, "CHANNEL_EXECUTE_COMPLETE"@] =~= first + second);
    assert(handshake_text(Handshake::Subscribe, password)
        =~= "event json BACKGROUND_JOB CHANNEL_EXECUTE_COMPLETE"@);
}

/// The id of a new job or application has the usual form of a random UUID: dashes
/// in four places, hexadecimal digits in all others, and the version in its place.
pub proof fn law_new_id(uuid: Seq<char>, i: int)
    requires
        is_random_uuid(uuid),
    ensures
        uuid.len() == 36,
        0 <= i < 36 ==> (uuid[i] == '-' <==> i == 8 || i == 13 || i == 18 || i == 23),
        0 <= i < 36 && uuid[i] != '-' ==> '0' <= uuid[i] <= '9' || 'a' <= uuid[i] <= 'f',
        uuid[14] == '4',
        uuid[19] == '8' || uuid[19] == '9' || uuid[19] == 'a' || uuid[19] == 'b',
{
}

} // verus!
