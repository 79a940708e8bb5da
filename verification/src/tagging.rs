//! Writes to a memory store, and the tag that a detection leaves on them.
use vstd::prelude::*;

use crate::event::{Event, EventView};
use crate::json;
use crate::json::Json;
use crate::poison::PoisonAnalyzer;
use crate::text;

verus! {

/// From this many matching signatures on, a write is critical.
pub const CRITICAL_SEVERITY_THRESHOLD: usize = 3;

/// The severity of a write on which `n` signatures match.
pub open spec fn severity_of(n: nat) -> Seq<char> {
    if n >= CRITICAL_SEVERITY_THRESHOLD {
        "CRITICAL"@
    } else {
        "HIGH"@
    }
}

/// What becomes of an event: the event to pass on, and a line for the log where
/// it is a detection.
#[derive(Debug)]
pub struct Outcome {
    pub event: Event,
    pub warning: Option<String>,
}

/// The event reports a write to a memory store.
pub open spec fn is_write(event: EventView) -> bool {
    event.source == "memwrite"@ && event.data.text_field("event"@) == Some("MEM_WRITE"@)
}

/// The file that an event names, or the empty text.
pub open spec fn file_of(event: EventView) -> Seq<char> {
    match event.data.text_field("path"@) {
        Some(path) => path,
        None => ""@,
    }
}

/// What is added to an event on which `matched` match.
pub open spec fn tag(matched: Seq<Seq<char>>, file: Seq<char>) -> Json {
    Json::Object(
        json::no_fields().insert("matched"@, json::texts_json(matched)).insert(
            "severity"@,
            Json::Text(severity_of(matched.len())),
        ).insert("file"@, Json::Text(file)),
    )
}

/// The event with the tag for `matched` in the field `poison`, and otherwise as
/// it was.
pub open spec fn tagged(event: EventView, matched: Seq<Seq<char>>) -> EventView {
    EventView {
        data: event.data.with_field("poison"@, tag(matched, file_of(event))),
        ..event
    }
}

/// The line for the log that goes with a detection.
pub open spec fn detection_line(event: EventView, matched: Seq<Seq<char>>) -> Seq<char> {
    "[MemGuard] poison write detected: pid="@ + text::decimal(event.pid as nat) + " comm="@
        + event.comm + " file="@ + file_of(event) + " signatures="@ + text::joined(matched, ","@)
}

/// `out` is what becomes of `event` when `matched` match: without a match the
/// event itself, else the tagged event and the line for the log.
pub open spec fn concluded(out: Outcome, event: Event, matched: Seq<Seq<char>>) -> bool {
    if matched.len() == 0 {
        out.event == event && out.warning is None
    } else {
        &&& out.event@ == tagged(event@, matched)
        &&& out.warning matches Some(line)
        &&& line@ == detection_line(event@, matched)
    }
}

/// The signatures that a tag lists.
pub open spec fn listed(poison: Json) -> Seq<Seq<char>> {
    match poison.field("matched"@) {
        Some(Json::List(items)) => json::texts_in(items),
        _ => Seq::empty(),
    }
}

/// The signatures that the tag of an event lists.
pub open spec fn reported(event: EventView) -> Seq<Seq<char>> {
    match event.data.field("poison"@) {
        Some(poison) => listed(poison),
        None => Seq::empty(),
    }
}

/// The texts in a list of texts are those texts.
proof fn lemma_texts_in_list(texts: Seq<Seq<char>>)
    ensures
        json::texts_in(json::texts_json(texts)->List_0) == texts,
    decreases texts.len(),
{
    let items = json::texts_json(texts)->List_0;
    if texts.len() > 0 {
        lemma_texts_in_list(texts.drop_last());
        assert(items.drop_last() =~= json::texts_json(texts.drop_last())->List_0);
        assert(texts.drop_last().push(texts.last()) =~= texts);
    } else {
        assert(texts =~= Seq::empty());
    }
}

/// A tagged write reports exactly what matched.
pub proof fn law_tag_reports(event: EventView, matched: Seq<Seq<char>>)
    requires
        is_write(event),
    ensures
        reported(tagged(event, matched)) == matched,
{
    reveal_strlit("matched");
    reveal_strlit("severity");
    reveal_strlit("file");
    assert("matched"@.len() != "severity"@.len());
    assert("matched"@.len() != "file"@.len());
    lemma_texts_in_list(matched);
}

pub(crate) fn is_memory_write(event: &Event) -> (r: bool)
    ensures
        r == is_write(event@),
{
    if !text::same(event.source.as_str(), "memwrite") {
        return false;
    }
    match json::get_text(&event.data, "event") {
        Some(kind) => text::same(kind, "MEM_WRITE"),
        None => false,
    }
}

fn file_name(event: &Event) -> (r: String)
    ensures
        r@ == file_of(event@),
{
    match json::get_text(&event.data, "path") {
        Some(path) => path.to_string(),
        None => String::from(""),
    }
}

fn tag_value(matched: &Vec<String>, file: &String) -> (r: serde_json::Value)
    ensures
        json::content(r) == tag(text::views(matched@), file@),
{
    let mut object = serde_json::Map::new();
    object.insert(String::from("matched"), json::texts_value(matched));
    object.insert(
        String::from("severity"),
        json::text_value(PoisonAnalyzer::severity(matched.as_slice()).to_string()),
    );
    object.insert(String::from("file"), json::text_value(file.clone()));
    json::object_value(object)
}

fn detection_text(event: &Event, file: &String, matched: &Vec<String>) -> (r: String)
    requires
        file@ == file_of(event@),
    ensures
        r@ == detection_line(event@, text::views(matched@)),
{
    let mut line = String::from("[MemGuard] poison write detected: pid=");
    line.append(text::decimal_text(event.pid as u64).as_str());
    line.append(" comm=");
    line.append(event.comm.as_str());
    line.append(" file=");
    line.append(file.as_str());
    line.append(" signatures=");
    line.append(text::join(matched, ",").as_str());
    line
}

/// What becomes of a write on which `matched` match.
pub(crate) fn conclude(event: Event, matched: Vec<String>) -> (r: Outcome)
    ensures
        concluded(r, event, text::views(matched@)),
        is_write(event@) && matched@.len() > 0 ==> reported(r.event@) == text::views(matched@),
{
    if matched.len() == 0 {
        return Outcome { event, warning: None };
    }
    let file = file_name(&event);
    let poison = tag_value(&matched, &file);
    let line = detection_text(&event, &file, &matched);
    let ghost before = event@;
    let mut event = event;
    if let Some(object) = event.data.as_object_mut() {
        object.insert(String::from("poison"), poison);
    }
    proof {
        if is_write(before) {
            law_tag_reports(before, text::views(matched@));
        }
    }
    Outcome { event, warning: Some(line) }
}

} // verus!
