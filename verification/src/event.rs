//! The events of a project, written as lines of JSON.

use vstd::prelude::*;
use vstd::string::*;

use crate::json::{
    insert_member, json_member, no_members, object_value, optional_json, optional_value, parsed_json, plain_json,
    plain_name, render_json, rendered_json, Json,
};
use crate::outside::{date_time, now_rfc3339};
use crate::text::{copy_opt, opt_text};

verus! {

/// A member of the payload of an event: its name and its text, if it has one.
#[derive(Debug)]
pub struct Detail {
    pub name: String,
    pub value: Option<String>,
}

/// A detail as its characters.
pub struct DetailView {
    pub name: Seq<char>,
    pub value: Option<Seq<char>>,
}

impl View for Detail {
    type V = DetailView;

    open spec fn view(&self) -> DetailView {
        DetailView { name: self.name@, value: opt_text(self.value) }
    }
}

/// Something that happened in a project.
#[derive(Debug)]
pub struct Event {
    pub event_type: String,
    pub summary: String,
    pub payload: Vec<Detail>,
}

/// An event as its characters.
pub struct EventView {
    pub event_type: Seq<char>,
    pub summary: Seq<char>,
    pub payload: Seq<DetailView>,
}

impl View for Event {
    type V = EventView;

    open spec fn view(&self) -> EventView {
        EventView {
            event_type: self.event_type@,
            summary: self.summary@,
            payload: self.payload@.map_values(|d: Detail| d@),
        }
    }
}

/// The members that a payload stands for: of two details with one name, the later counts.
pub open spec fn payload_members(payload: Seq<DetailView>) -> Map<Seq<char>, Json>
    decreases payload.len(),
{
    if payload.len() == 0 {
        Map::empty()
    } else {
        payload_members(payload.drop_last()).insert(
            payload.last().name,
            optional_json(payload.last().value),
        )
    }
}

/// Whether every name in a payload is a plain one.
pub open spec fn plain_payload(payload: Seq<DetailView>) -> bool {
    forall|i: int| 0 <= i < payload.len() ==> plain_name((#[trigger] payload[i]).name)
}

/// The JSON object that an event at this time is written as.
pub open spec fn event_json(event: EventView, created_at: Seq<char>) -> Json {
    Json::Object(
        Map::empty().insert("eventType"@, Json::Text(event.event_type)).insert(
            "summary"@,
            Json::Text(event.summary),
        ).insert("payload"@, Json::Object(payload_members(event.payload))).insert(
            "createdAt"@,
            Json::Text(created_at),
        ),
    )
}

/// The line that is appended for an event at this time.
pub open spec fn event_line_text(event: EventView, created_at: Seq<char>) -> Seq<char> {
    rendered_json(event_json(event, created_at)) + "\n"@
}

/// The JSON object with the details as its members.
pub fn payload_value(payload: &Vec<Detail>) -> (r: serde_json::Value)
    ensures
        crate::json::value_json(r) == Json::Object(
            payload_members(payload@.map_values(|d: Detail| d@)),
        ),
{
    let ghost details: Seq<DetailView> = payload@.map_values(|d: Detail| d@);
    let mut members = no_members();
    let mut i: usize = 0;
    while i < payload.len()
        invariant
            i <= payload.len(),
            details == payload@.map_values(|d: Detail| d@),
            crate::json::members_json(members) == payload_members(details.take(i as int)),
        decreases payload.len() - i,
    {
        insert_member(
            &mut members,
            payload[i].name.clone(),
            optional_value(copy_opt(&payload[i].value)),
        );
        assert(details.take(i + 1).drop_last() == details.take(i as int));
        i = i + 1;
    }
    assert(details.take(i as int) == details);
    object_value(members)
}

proof fn lemma_plain_payload(payload: Seq<DetailView>)
    requires
        plain_payload(payload),
    ensures
        forall|name: Seq<char>| #[trigger]
            payload_members(payload).contains_key(name) ==> plain_name(name) && plain_json(
                payload_members(payload)[name],
                0,
            ),
    decreases payload.len(),
{
    if payload.len() > 0 {
        assert(plain_name(payload.last().name));
        assert(plain_payload(payload.drop_last())) by {
            assert forall|i: int| 0 <= i < payload.drop_last().len() implies plain_name(
                (#[trigger] payload.drop_last()[i]).name,
            ) by {
                assert(payload.drop_last()[i] == payload[i]);
            }
        }
        lemma_plain_payload(payload.drop_last());
        let fewer = payload_members(payload.drop_last());
        assert forall|name: Seq<char>| #[trigger]
            payload_members(payload).contains_key(name) implies plain_name(name) && plain_json(
            payload_members(payload)[name],
            0,
        ) by {
            if name != payload.last().name {
                assert(fewer.contains_key(name));
            }
        }
    }
}

proof fn lemma_plain_event(event: EventView, created_at: Seq<char>)
    requires
        plain_payload(event.payload),
    ensures
        plain_json(event_json(event, created_at), 2),
{
    reveal_strlit("eventType");
    reveal_strlit("summary");
    reveal_strlit("payload");
    reveal_strlit("createdAt");
    lemma_plain_payload(event.payload);
    let members = payload_members(event.payload);
    assert(plain_json(Json::Object(members), 1)) by {
        assert forall|name: Seq<char>| #[trigger] members.contains_key(name) implies plain_name(
            name,
        ) && plain_json(members[name], 0) by {}
    }
    assert(plain_json(Json::Text(event.event_type), 1));
    assert(plain_json(Json::Text(event.summary), 1));
    assert(plain_json(Json::Text(created_at), 1));
}

/// The line to append for an event at this time: one line that ends in a line break and, where the
/// payload has plain names, is read back as the object that was written.
pub fn event_line(event: &Event, created_at: &str) -> (r: String)
    ensures
        r@ == event_line_text(event@, created_at@),
        r@ == rendered_json(event_json(event@, created_at@)) + "\n"@,
        !r@.drop_last().contains('\n'),
        r@.len() > 0,
        r@.last() == '\n',
        plain_payload(event@.payload) ==> parsed_json(r@.drop_last()) == Some(
            event_json(event@, created_at@),
        ),
{
    let mut members = no_members();
    let kind = optional_value(Some(event.event_type.clone()));
    insert_member(&mut members, "eventType".to_string(), kind);
    let summary = optional_value(Some(event.summary.clone()));
    insert_member(&mut members, "summary".to_string(), summary);
    insert_member(&mut members, "payload".to_string(), payload_value(&event.payload));
    let time = optional_value(Some(created_at.to_string()));
    insert_member(&mut members, "createdAt".to_string(), time);
    let record = render_json(&object_value(members));
    let line = record.clone().concat("\n");
    proof {
        reveal_strlit("\n");
        assert(line@.drop_last() == record@);
        if plain_payload(event@.payload) {
            lemma_plain_event(event@, created_at@);
        }
    }
    line
}

/// The line to append for an event that happens now.
pub fn event_line_now(event: &Event) -> (r: String)
    ensures
        exists|created_at: Seq<char>|
            {
                &&& date_time(created_at)
                &&& r@ == #[trigger] event_line_text(event@, created_at)
                &&& r@ == rendered_json(event_json(event@, created_at)) + "\n"@
                &&& plain_payload(event@.payload) ==> parsed_json(r@.drop_last()) == Some(
                    event_json(event@, created_at),
                )
            },
        !r@.drop_last().contains('\n'),
        r@.len() > 0,
        r@.last() == '\n',
{
    let created_at = now_rfc3339();
    event_line(event, created_at.as_str())
}

/// An event is written as an object with just four members: its type, its summary and the time as
/// they stand, and its payload.
pub proof fn law_event_is_written_whole(event: EventView, created_at: Seq<char>)
    ensures
        event_json(event, created_at) matches Json::Object(members) && {
            &&& members.contains_key("eventType"@) && members["eventType"@] == Json::Text(
                event.event_type,
            )
            &&& members.contains_key("summary"@) && members["summary"@] == Json::Text(event.summary)
            &&& members.contains_key("createdAt"@) && members["createdAt"@] == Json::Text(created_at)
            &&& members.contains_key("payload"@) && members["payload"@] is Object
            &&& forall|name: Seq<char>| #[trigger]
                members.contains_key(name) ==> name == "eventType"@ || name == "summary"@ || name
                    == "payload"@ || name == "createdAt"@
        },
        json_member(event_json(event, created_at), "payload"@) == Some(
            Json::Object(payload_members(event.payload)),
        ),
{
    reveal_strlit("eventType");
    reveal_strlit("summary");
    reveal_strlit("payload");
    reveal_strlit("createdAt");
    assert("eventType"@[0] == 'e' && "summary"@[0] == 's' && "payload"@[0] == 'p' && "createdAt"@[0]
        == 'c');
}

/// A payload is written as the details that it holds: under each name stands the value of the last
/// detail of that name, as it stands, or null where it has none, and there are no other members.
pub proof fn law_details_are_written_whole(payload: Seq<DetailView>, i: int, other: Seq<char>)
    requires
        0 <= i < payload.len(),
        forall|j: int| i < j < payload.len() ==> (#[trigger] payload[j]).name != payload[i].name,
        forall|j: int| 0 <= j < payload.len() ==> (#[trigger] payload[j]).name != other,
    ensures
        payload_members(payload).contains_key(payload[i].name),
        payload_members(payload)[payload[i].name] == match payload[i].value {
            Some(text) => Json::Text(text),
            None => Json::Null,
        },
        !payload_members(payload).contains_key(other),
    decreases payload.len(),
{
    let fewer = payload.drop_last();
    assert(payload[payload.len() - 1].name != other);
    lemma_absent_name(fewer, other);
    if i < payload.len() - 1 {
        assert(payload[payload.len() - 1].name != payload[i].name);
        assert forall|j: int| i < j < fewer.len() implies (#[trigger] fewer[j]).name
            != fewer[i].name by {
            assert(fewer[j] == payload[j]);
        }
        assert forall|j: int| 0 <= j < fewer.len() implies (#[trigger] fewer[j]).name != other by {
            assert(fewer[j] == payload[j]);
        }
        law_details_are_written_whole(fewer, i, other);
    }
}

proof fn lemma_absent_name(payload: Seq<DetailView>, name: Seq<char>)
    requires
        forall|j: int| 0 <= j < payload.len() ==> (#[trigger] payload[j]).name != name,
    ensures
        !payload_members(payload).contains_key(name),
    decreases payload.len(),
{
    if payload.len() > 0 {
        let fewer = payload.drop_last();
        assert(payload[payload.len() - 1].name != name);
        assert forall|j: int| 0 <= j < fewer.len() implies (#[trigger] fewer[j]).name != name by {
            assert(fewer[j] == payload[j]);
        }
        lemma_absent_name(fewer, name);
    }
}

/// An event is seen by all that it holds, and so is every detail of its payload.
pub proof fn law_events_are_seen_whole(event: Event, i: int)
    requires
        0 <= i < event.payload@.len(),
    ensures
        event@.event_type == event.event_type@,
        event@.summary == event.summary@,
        event@.payload.len() == event.payload@.len(),
        event@.payload[i].name == event.payload@[i].name@,
        match event.payload@[i].value {
            Some(text) => event@.payload[i].value == Some(text@),
            None => event@.payload[i].value is None,
        },
{
}

} // verus!
