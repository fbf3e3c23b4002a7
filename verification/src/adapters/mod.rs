//! Harness adapters: JSON payloads to [`ToolEvent`]s, policy outcomes to
//! replies.

pub mod cursor;
pub mod muse;
pub mod opencode;
pub mod pi;

use vstd::prelude::*;

use crate::event::{Harness, SToolEvent, ToolEvent};
use crate::json::Json;
use crate::policy::{Decision, PolicyOutcome};

pub use cursor::CursorReply;
pub use muse::MuseReply;
pub use opencode::OpencodeReply;
pub use pi::PiReply;

verus! {

/// `a`, or `b` when `a` is `None`.
pub open spec fn or_else(a: Option<Seq<char>>, b: Option<Seq<char>>) -> Option<Seq<char>> {
    match a {
        Some(x) => Some(x),
        None => b,
    }
}

/// The text in `a`, or `dflt` when there is none.
pub open spec fn or_lit(a: Option<Seq<char>>, dflt: Seq<char>) -> Seq<char> {
    match a {
        Some(x) => x,
        None => dflt,
    }
}

/// `j` is `{"content": [{"type": "text", "text": text}]}`.
pub open spec fn text_content(j: Json, text: Seq<char>) -> bool {
    match j {
        Json::Obj(es) => es@.len() == 1 && es@[0].0@ == "content"@ && match es@[0].1 {
            Json::Arr(xs) => xs@.len() == 1 && match xs@[0] {
                Json::Obj(fs) => fs@.len() == 2 && fs@[0].0@ == "type"@ && fs@[0].1 is Str && (
                fs@[0].1->Str_0)@ == "text"@ && fs@[1].0@ == "text"@ && fs@[1].1 is Str && (
                fs@[1].1->Str_0)@ == text,
                _ => false,
            },
            _ => false,
        },
        _ => false,
    }
}

/// `{"content": [{"type": "text", "text": text}]}`.
pub fn text_content_json(text: String) -> (r: Json)
    ensures
        text_content(r, text@),
{
    let mut part: Vec<(String, Json)> = Vec::new();
    part.push(("type".to_owned(), Json::Str("text".to_owned())));
    part.push(("text".to_owned(), Json::Str(text)));
    let mut parts: Vec<Json> = Vec::new();
    parts.push(Json::Obj(part));
    let mut top: Vec<(String, Json)> = Vec::new();
    top.push(("content".to_owned(), Json::Arr(parts)));
    Json::Obj(top)
}

/// A harness reply, ready to be written out as JSON.
#[derive(Debug, PartialEq, Eq)]
pub enum Reply {
    /// Cursor and Muse.
    Cursor(CursorReply),
    /// OpenCode.
    Opencode(OpencodeReply),
    /// Pi.
    Pi(PiReply),
}

/// The event a payload of `harness` describes.
pub open spec fn spec_parse_event(harness: Harness, name: Seq<char>, value: Json) -> SToolEvent {
    match harness {
        Harness::Cursor => cursor::spec_parse(name, value),
        Harness::Muse => muse::spec_parse(name, value),
        Harness::Opencode => opencode::spec_parse(name, value),
        Harness::Pi => pi::spec_parse(name, value),
    }
}

/// Parses a payload into a normalized event (unknown shapes become
/// `Other` tools, which the policy allows).
pub fn parse_event(harness: Harness, event_name: &str, value: Json) -> (r: ToolEvent)
    ensures
        r.sv() == spec_parse_event(harness, event_name@, value),
{
    match harness {
        Harness::Cursor => cursor::parse(event_name, value),
        Harness::Muse => muse::parse(event_name, value),
        Harness::Opencode => opencode::parse(event_name, value),
        Harness::Pi => pi::parse(event_name, value),
    }
}

/// What the reply of `harness` to hook `name` for the applied decision
/// `d` is.
pub open spec fn spec_render_reply(harness: Harness, name: Seq<char>, d: Decision, r: Reply) -> bool {
    match harness {
        Harness::Cursor => r matches Reply::Cursor(c) && cursor::spec_render(name, d, c),
        Harness::Muse => r matches Reply::Cursor(c) && cursor::spec_render(
            muse::cursor_name(name),
            d,
            c,
        ),
        Harness::Opencode => r matches Reply::Opencode(o) && opencode::spec_render(d, o),
        Harness::Pi => r matches Reply::Pi(p) && pi::spec_render(d, p),
    }
}

/// Renders the harness reply for the applied decision of `outcome`.
pub fn render_reply(harness: Harness, event_name: &str, outcome: PolicyOutcome) -> (r: Reply)
    ensures
        spec_render_reply(harness, event_name@, outcome.applied, r),
{
    match harness {
        Harness::Cursor => Reply::Cursor(cursor::render(event_name, outcome)),
        Harness::Muse => Reply::Cursor(muse::render(event_name, outcome)),
        Harness::Opencode => Reply::Opencode(opencode::render(event_name, outcome)),
        Harness::Pi => Reply::Pi(pi::render(event_name, outcome)),
    }
}

/// The fail-open reply of `harness`: what it answers to an `Allow`.
pub fn allow_reply(harness: Harness, event_name: &str) -> (r: Reply)
    ensures
        spec_render_reply(harness, event_name@, Decision::Allow, r),
{
    render_reply(
        harness,
        event_name,
        PolicyOutcome { raw: Decision::Allow, applied: Decision::Allow, rule_id: None },
    )
}

} // verus!
