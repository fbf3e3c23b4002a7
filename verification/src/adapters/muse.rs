//! Muse command hooks (`PreToolUse` / `PostToolUse` groups in Muse
//! settings).
//!
//! Muse uses the common hook JSON (the same `permission` /
//! `tool_input` shapes as Cursor's `preToolUse`), so both directions go
//! through the Cursor adapter under the Cursor event name.

use vstd::prelude::*;

use crate::adapters::cursor;
use crate::event::{Harness, SToolEvent, ToolEvent};
use crate::json::Json;
use crate::policy::PolicyOutcome;
use crate::text::str_eq;

verus! {

/// Muse replies have the Cursor shapes.
pub type MuseReply = cursor::CursorReply;

/// The Cursor name of a Muse event.
pub open spec fn cursor_name(name: Seq<char>) -> Seq<char> {
    if name == "PreToolUse"@ {
        "preToolUse"@
    } else if name == "PostToolUse"@ {
        "postToolUse"@
    } else {
        name
    }
}

/// The event a Muse payload describes: the Cursor reading, under Muse.
pub open spec fn spec_parse(name: Seq<char>, value: Json) -> SToolEvent {
    let e = cursor::spec_parse(cursor_name(name), value);
    SToolEvent {
        harness: Harness::Muse,
        phase: e.phase,
        tool: e.tool,
        args: e.args,
        output: e.output,
        session_id: e.session_id,
        cwd: e.cwd,
    }
}

fn normalized<'a>(event_name: &'a str) -> (r: &'a str)
    ensures
        r@ == cursor_name(event_name@),
{
    if str_eq(event_name, "PreToolUse") {
        "preToolUse"
    } else if str_eq(event_name, "PostToolUse") {
        "postToolUse"
    } else {
        event_name
    }
}

/// The event a Muse payload describes.
pub fn parse(event_name: &str, value: Json) -> (r: ToolEvent)
    ensures
        r.sv() == spec_parse(event_name@, value),
{
    let mut ev = cursor::parse(normalized(event_name), value);
    ev.harness = Harness::Muse;
    ev
}

/// The reply for the applied decision of `outcome`.
pub fn render(event_name: &str, outcome: PolicyOutcome) -> (r: MuseReply)
    ensures
        cursor::spec_render(cursor_name(event_name@), outcome.applied, r),
{
    cursor::render(normalized(event_name), outcome)
}

} // verus!
