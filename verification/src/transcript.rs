//! What the agent prints during a run: the log of it, and the thread that it announces.

use vstd::prelude::*;
use vstd::string::*;

use crate::json::{
    as_text, get_member, insert_member, json_member, json_text, no_members, object_value,
    optional_value, parse_json, parsed_json, plain_json, render_json, rendered_json, Json,
};
use crate::text::{opt_text, same_text};

verus! {

/// The thread of a message with this type and this `thread_id`.
pub open spec fn thread_in(kind: Option<Seq<char>>, thread_id: Option<Seq<char>>) -> Option<
    Seq<char>,
> {
    if kind == Some("thread.started"@) {
        thread_id
    } else {
        None
    }
}

/// The text of the member of `value` with this name.
pub open spec fn member_text(value: Json, name: Seq<char>) -> Option<Seq<char>> {
    match json_member(value, name) {
        Some(member) => json_text(member),
        None => None,
    }
}

/// The thread that a line announces, given what it reads as.
pub open spec fn announced_thread(message: Option<Json>) -> Option<Seq<char>> {
    match message {
        Some(value) => thread_in(member_text(value, "type"@), member_text(value, "thread_id"@)),
        None => None,
    }
}

/// The thread that is known after a line that announced a thread or none.
pub open spec fn thread_noted(known: Option<Seq<char>>, announced: Option<Seq<char>>) -> Option<
    Seq<char>,
> {
    match announced {
        Some(id) => Some(id),
        None => known,
    }
}

/// The thread that is known after a line that reads as `message`.
pub open spec fn thread_after(known: Option<Seq<char>>, message: Option<Json>) -> Option<
    Seq<char>,
> {
    thread_noted(known, announced_thread(message))
}

/// What a line of the agent's standard output comes to: what is to be appended to the log, and the
/// thread that it announces.
#[derive(Debug)]
pub struct Relayed {
    pub entry: String,
    pub thread_id: Option<String>,
}

/// The thread that is known after lines that read as `messages`.
pub open spec fn thread_after_all(known: Option<Seq<char>>, messages: Seq<Option<Json>>) -> Option<
    Seq<char>,
>
    decreases messages.len(),
{
    if messages.len() == 0 {
        known
    } else {
        thread_after(thread_after_all(known, messages.drop_last()), messages.last())
    }
}

/// The thread of a message with this type and this `thread_id`.
pub fn thread_of_message(kind: Option<&str>, thread_id: Option<&str>) -> (r: Option<String>)
    ensures
        opt_text(r) == thread_in(
            match kind {
                Some(t) => Some(t@),
                None => None,
            },
            match thread_id {
                Some(t) => Some(t@),
                None => None,
            },
        ),
        kind is Some && kind->0@ == "thread.started"@ && thread_id is Some ==> r is Some && r->0@
            == thread_id->0@,
        kind is None || kind->0@ != "thread.started"@ || thread_id is None ==> r is None,
{
    match kind {
        Some(kind) => if same_text(kind, "thread.started") {
            match thread_id {
                Some(id) => Some(id.to_string()),
                None => None,
            }
        } else {
            None
        },
        None => None,
    }
}

/// The text of the member of `value` with this name.
fn text_member<'a>(value: &'a serde_json::Value, name: &str) -> (r: Option<&'a str>)
    ensures
        match r {
            Some(text) => member_text(crate::json::value_json(*value), name@) == Some(text@),
            None => member_text(crate::json::value_json(*value), name@) is None,
        },
{
    match get_member(value, name) {
        Some(member) => as_text(member),
        None => None,
    }
}

/// The thread that a line of the agent's output announces: the `thread_id` of a JSON object whose
/// `type` is `thread.started`. Any other line announces none.
pub fn codex_thread_id_from_line(line: &str) -> (r: Option<String>)
    ensures
        opt_text(r) == announced_thread(parsed_json(line@)),
{
    match parse_json(line) {
        Ok(value) => thread_of_message(text_member(&value, "type"), text_member(&value, "thread_id")),
        Err(_) => None,
    }
}

/// What a line of the agent's standard output comes to: the line itself goes to the log.
pub fn relay_stdout(line: &str) -> (r: Relayed)
    ensures
        r.entry@ == line@ + "\n"@,
        opt_text(r.thread_id) == announced_thread(parsed_json(line@)),
{
    Relayed {
        entry: line.to_string().concat("\n"),
        thread_id: codex_thread_id_from_line(line),
    }
}

/// Notes the thread that a line announced. A line that announced none changes nothing.
pub fn note_thread(known: &mut Option<String>, announced: Option<String>)
    ensures
        opt_text(*final(known)) == thread_noted(opt_text(*old(known)), opt_text(announced)),
        announced is Some ==> *final(known) == announced,
        announced is None ==> *final(known) == *old(known),
{
    match announced {
        Some(id) => {
            *known = Some(id);
        },
        None => {},
    }
}

/// The object that a line of the agent's error output is logged as.
pub open spec fn complaint_json(line: Seq<char>) -> Json {
    Json::Object(
        Map::empty().insert("type"@, Json::Text("stderr"@)).insert("message"@, Json::Text(line)),
    )
}

/// What is to be appended to the log for a line of the agent's error output: one line with a JSON
/// object that holds it, which is read back as it was and announces no thread.
pub fn relay_stderr(line: &str) -> (r: String)
    ensures
        r@ == rendered_json(complaint_json(line@)) + "\n"@,
        !r@.drop_last().contains('\n'),
        parsed_json(r@.drop_last()) == Some(complaint_json(line@)),
        announced_thread(parsed_json(r@.drop_last())) is None,
{
    let mut members = no_members();
    insert_member(&mut members, "type".to_string(), optional_value(Some("stderr".to_string())));
    insert_member(&mut members, "message".to_string(), optional_value(Some(line.to_string())));
    let record = render_json(&object_value(members));
    let entry = record.clone().concat("\n");
    proof {
        lemma_complaint_is_plain(line@);
        law_complaints_announce_no_thread(line@);
        reveal_strlit("\n");
        assert(entry@.drop_last() == record@);
    }
    entry
}

proof fn lemma_complaint_is_plain(line: Seq<char>)
    ensures
        plain_json(complaint_json(line), 2),
{
    reveal_strlit("type");
    reveal_strlit("message");
    assert(plain_json(Json::Text("stderr"@), 1));
    assert(plain_json(Json::Text(line), 1));
}

/// What is logged of the agent's error output never announces a thread, whatever it says.
pub proof fn law_complaints_announce_no_thread(line: Seq<char>)
    ensures
        announced_thread(Some(complaint_json(line))) is None,
{
    reveal_strlit("type");
    reveal_strlit("message");
    reveal_strlit("stderr");
    reveal_strlit("thread.started");
    assert("type"@ != "message"@) by {
        assert("type"@.len() != "message"@.len());
    }
    assert("stderr"@ != "thread.started"@) by {
        assert("stderr"@.len() != "thread.started"@.len());
    }
}

/// A message that says that a thread was started announces that thread, whatever else it holds.
pub proof fn law_started_threads_are_announced(members: Map<Seq<char>, Json>, id: Seq<char>)
    requires
        members.contains_key("type"@),
        members["type"@] == Json::Text("thread.started"@),
        members.contains_key("thread_id"@),
        members["thread_id"@] == Json::Text(id),
    ensures
        announced_thread(Some(Json::Object(members))) == Some(id),
{
}

/// The last thread that is announced is the one that is known in the end.
pub proof fn law_last_announcement_counts(
    known: Option<Seq<char>>,
    messages: Seq<Option<Json>>,
    k: int,
)
    requires
        0 <= k < messages.len(),
        announced_thread(messages[k]) is Some,
        forall|j: int| k < j < messages.len() ==> announced_thread(#[trigger] messages[j]) is None,
    ensures
        thread_after_all(known, messages) == announced_thread(messages[k]),
    decreases messages.len(),
{
    if k < messages.len() - 1 {
        let fewer = messages.drop_last();
        assert(announced_thread(messages[messages.len() - 1]) is None);
        assert forall|j: int| k < j < fewer.len() implies announced_thread(#[trigger] fewer[j]) is None by {
            assert(fewer[j] == messages[j]);
        }
        law_last_announcement_counts(known, fewer, k);
    }
}

/// Where no thread is announced, what was known before stays known.
pub proof fn law_silence_keeps_the_thread(known: Option<Seq<char>>, messages: Seq<Option<Json>>)
    requires
        forall|j: int| 0 <= j < messages.len() ==> announced_thread(#[trigger] messages[j]) is None,
    ensures
        thread_after_all(known, messages) == known,
    decreases messages.len(),
{
    if messages.len() > 0 {
        let fewer = messages.drop_last();
        assert(announced_thread(messages[messages.len() - 1]) is None);
        assert forall|j: int| 0 <= j < fewer.len() implies announced_thread(#[trigger] fewer[j]) is None by {
            assert(fewer[j] == messages[j]);
        }
        law_silence_keeps_the_thread(known, fewer);
    }
}

/// A line announces a thread if and only if it reads as an object whose `type` is the text
/// `thread.started` and whose `thread_id` is a text, and the thread is that text as it stands.
pub proof fn law_only_started_threads_are_announced(message: Option<Json>, id: Seq<char>)
    ensures
        announced_thread(message) == Some(id) <==> message is Some && message->0 is Object
            && message->0->Object_0.contains_key("type"@) && message->0->Object_0["type"@]
            == Json::Text("thread.started"@) && message->0->Object_0.contains_key("thread_id"@)
            && message->0->Object_0["thread_id"@] == Json::Text(id),
{
}

/// The known thread after a line is the one that it announced, and else the one that was known.
pub proof fn law_announcement_replaces_the_thread(
    known: Option<Seq<char>>,
    message: Option<Json>,
    id: Seq<char>,
)
    ensures
        announced_thread(message) == Some(id) ==> thread_after(known, message) == Some(id),
        announced_thread(message) is None ==> thread_after(known, message) == known,
{
}

/// What is logged of the agent's error output is an object with just two members: the type, which
/// says where it comes from, and the message, which is the whole line.
pub proof fn law_complaint_keeps_the_line(line: Seq<char>)
    ensures
        complaint_json(line) matches Json::Object(members) && {
            &&& members.contains_key("type"@) && members["type"@] == Json::Text("stderr"@)
            &&& members.contains_key("message"@) && members["message"@] == Json::Text(line)
            &&& forall|name: Seq<char>| #[trigger]
                members.contains_key(name) ==> name == "type"@ || name == "message"@
        },
{
    reveal_strlit("type");
    reveal_strlit("message");
    assert("type"@ != "message"@) by {
        assert("type"@.len() != "message"@.len());
    }
}

} // verus!
