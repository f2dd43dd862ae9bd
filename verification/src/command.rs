//! The texts of the commands that are sent to FreeSWITCH.

use vstd::prelude::*;
use vstd::string::*;

verus! {

use vstd::utf8::encode_utf8;

/// The words with one space between each two.
pub open spec fn spaced(words: Seq<Seq<char>>) -> Seq<char>
    decreases words.len(),
{
    if words.len() == 0 {
        Seq::empty()
    } else if words.len() == 1 {
        words[0]
    } else {
        spaced(words.drop_last()) + " "@ + words.last()
    }
}

/// The texts of a list of strings.
pub open spec fn view_strs(words: Seq<&str>) -> Seq<Seq<char>> {
    words.map_values(|word: &str| word@)
}

/// The command that asks for the given events.
pub open spec fn subscribe_text(events: Seq<Seq<char>>) -> Seq<char> {
    "event json "@ + spaced(events)
}

/// The command that gives the password.
pub open spec fn auth_text(password: Seq<char>) -> Seq<char> {
    "auth "@ + password
}

/// The command that runs `command` and answers when it is done.
pub open spec fn api_text(command: Seq<char>) -> Seq<char> {
    "api "@ + command
}

/// The command that runs `command` as the background job `job_uuid`.
pub open spec fn bgapi_text(command: Seq<char>, job_uuid: Seq<char>) -> Seq<char> {
    "bgapi "@ + command + "\nJob-UUID: "@ + job_uuid
}

/// The command that executes an application on the call `call_uuid`.
pub open spec fn execute_text(
    call_uuid: Seq<char>,
    app_name: Seq<char>,
    app_args: Seq<char>,
    event_uuid: Seq<char>,
) -> Seq<char> {
    "sendmsg "@ + call_uuid + "\nexecute-app-name: "@ + app_name + "\nexecute-app-arg: "@ + app_args
        + "\ncall-command: execute\nEvent-UUID: "@ + event_uuid
}

/// Puts one space between each two words.
fn join_words(words: &Vec<&str>) -> (text: String)
    ensures
        text@ == spaced(view_strs(words@)),
{
    let mut text: String = String::new();
    let ghost all = view_strs(words@);
    let mut i: usize = 0;
    assert(all.take(0) =~= Seq::empty());
    while i < words.len()
        invariant
            i <= words@.len(),
            all == view_strs(words@),
            text@ == spaced(all.take(i as int)),
        decreases words@.len() - i,
    {
        assert(all.take(i + 1).drop_last() =~= all.take(i as int));
        if i > 0 {
            text.append(" ");
        }
        text.append(words[i]);
        assert(text@ =~= spaced(all.take(i + 1)));
        i += 1;
    }
    assert(all.take(words@.len() as int) =~= all);
    text
}

/// The command that asks for the given events.
pub fn subscribe_command(events: &Vec<&str>) -> (command: Vec<u8>)
    ensures
        command@ == encode_utf8(subscribe_text(view_strs(events@))),
{
    let mut text: String = "event json ".to_owned();
    text.append(join_words(events).as_str());
    text.as_str().as_bytes_vec()
}

/// The command that gives the password.
pub fn auth_command(password: &str) -> (command: Vec<u8>)
    ensures
        command@ == encode_utf8(auth_text(password@)),
{
    let mut text: String = "auth ".to_owned();
    text.append(password);
    text.as_str().as_bytes_vec()
}

/// The command that runs `command` and answers when it is done.
pub fn api_command(command: &str) -> (item: Vec<u8>)
    ensures
        item@ == encode_utf8(api_text(command@)),
{
    let mut text: String = "api ".to_owned();
    text.append(command);
    text.as_str().as_bytes_vec()
}

/// The command that runs `command` as the background job `job_uuid`.
pub fn bgapi_command(command: &str, job_uuid: &str) -> (item: Vec<u8>)
    ensures
        item@ == encode_utf8(bgapi_text(command@, job_uuid@)),
{
    let mut text: String = "bgapi ".to_owned();
    text.append(command);
    text.append("\nJob-UUID: ");
    text.append(job_uuid);
    text.as_str().as_bytes_vec()
}

/// The command that executes an application on the call `call_uuid`.
pub fn execute_command(
    call_uuid: &str,
    app_name: &str,
    app_args: &str,
    event_uuid: &str,
) -> (item: Vec<u8>)
    ensures
        item@ == encode_utf8(execute_text(call_uuid@, app_name@, app_args@, event_uuid@)),
{
    let mut text: String = "sendmsg ".to_owned();
    text.append(call_uuid);
    text.append("\nexecute-app-name: ");
    text.append(app_name);
    text.append("\nexecute-app-arg: ");
    text.append(app_args);
    text.append("\ncall-command: execute\nEvent-UUID: ");
    text.append(event_uuid);
    text.as_str().as_bytes_vec()
}

} // verus!
