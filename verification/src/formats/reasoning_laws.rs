//! Laws: what a request asks of reasoning is what each provider is asked.

use vstd::prelude::*;
use crate::formats::anthropic_messages::from_ir::reasoning_stage;
use crate::formats::google_generate_content::from_ir::thinking_fields;
use crate::formats::openai_chat_completions::from_ir::reasoning_field;
use crate::ir::{EffortV, ReasoningV};
use crate::json::{json_as_str, json_get, obj_get, obj_index, obj_set, JsonV, ObjV};
use crate::json_laws::{set_keeps_other_members, set_member_is_read};
use crate::namespaces::{one_member_is_read, two_members_are_read};
use crate::sink::SinkV;

verus! {

/// The word for an effort tier.
pub open spec fn is_word_for(word: Seq<char>, e: EffortV) -> bool {
    match e {
        EffortV::Disabled => word == "none"@,
        EffortV::Minimal => word == "minimal"@,
        EffortV::Low => word == "low"@,
        EffortV::Medium => word == "medium"@,
        EffortV::High => word == "high"@,
        EffortV::XHigh => word == "xhigh"@,
        EffortV::Max => word == "max"@,
        EffortV::Other(s) => word == s,
    }
}

/// Chat Completions is asked for the effort by its word; switching reasoning
/// off without naming an effort asks for none; and otherwise nothing is asked.
pub proof fn openai_is_asked_for_the_effort(r: ReasoningV, body: ObjV, s: SinkV)
    requires
        obj_get(body, "reasoning_effort"@) is None,
    ensures
        ({
            let asked = json_as_str(obj_get(reasoning_field(r, body, s).0, "reasoning_effort"@));
            &&& r.effort is Some ==> asked is Some && is_word_for(asked->0, r.effort->0)
            &&& r.effort is None && r.enabled == Some(false) ==> asked == Some("none"@)
            &&& r.effort is None && r.enabled != Some(false) ==> asked is None
        }),
        forall|k: Seq<char>|
            k != "reasoning_effort"@ ==> #[trigger] obj_get(reasoning_field(r, body, s).0, k) == obj_get(body, k),
{
    let out = reasoning_field(r, body, s).0;
    assert forall|v: JsonV|
        obj_get(#[trigger] obj_set(body, "reasoning_effort"@, v), "reasoning_effort"@) == Some(v) by {
        set_member_is_read(body, "reasoning_effort"@, v);
    }
    assert forall|k: Seq<char>| k != "reasoning_effort"@ implies #[trigger] obj_get(out, k) == obj_get(body, k) by {
        assert forall|v: JsonV|
            obj_get(#[trigger] obj_set(body, "reasoning_effort"@, v), k) == obj_get(body, k) by {
            set_keeps_other_members(body, "reasoning_effort"@, v, k);
        }
    }
}

/// What the thinking member of a body asks for.
pub open spec fn thinking_asked(body: ObjV, k: Seq<char>) -> Option<Seq<char>> {
    match obj_get(body, "thinking"@) {
        Some(t) => json_as_str(json_get(t, k)),
        None => None,
    }
}

/// Switching on and naming no effort at all contradict each other, and so do
/// switching off and naming one.
pub open spec fn contradicts(r: ReasoningV) -> bool {
    r.enabled is Some && r.effort is Some && r.enabled->0 == (r.effort->0 is Disabled)
}

/// Anthropic is asked to think adaptively or not at all, as the request says
/// and unless its effort says otherwise; thoughts are asked for as summaries;
/// and an effort goes out by its word if Anthropic has that tier.
pub proof fn anthropic_is_asked_to_think(r: ReasoningV, body: ObjV, config: ObjV, s: SinkV)
    requires
        obj_get(body, "thinking"@) is None,
        obj_get(config, "effort"@) is None,
    ensures
        ({
            let (b, c, t) = reasoning_stage(r, body, config, s);
            let known = r.effort is Some && !(r.effort->0 is Disabled) && !(r.effort->0 is Minimal);
            let on = r.enabled == Some(true) && !contradicts(r);
            let off = r.enabled == Some(false) && !contradicts(r);
            let open = !on && !off;
            let kind = thinking_asked(b, "type"@);
            let display = thinking_asked(b, "display"@);
            let effort = json_as_str(obj_get(c, "effort"@));
            &&& on || (open && known && r.include_thoughts is Some) ==> kind == Some("adaptive"@)
            &&& off ==> kind == Some("disabled"@) && display is None
            &&& open && !(known && r.include_thoughts is Some) ==> obj_get(b, "thinking"@) is None
            &&& (on || (open && known)) && r.include_thoughts == Some(true) ==> display == Some("summarized"@)
            &&& (on || (open && known)) && r.include_thoughts == Some(false) ==> display == Some("omitted"@)
            &&& r.include_thoughts is None ==> display is None
            &&& known ==> effort is Some && is_word_for(effort->0, r.effort->0)
            &&& !known ==> effort is None
        }),
{
    reveal_strlit("type");
    reveal_strlit("display");
    assert("type"@.len() == 4 && "display"@.len() == 7);
    assert forall|v: JsonV| obj_get(#[trigger] obj_set(body, "thinking"@, v), "thinking"@) == Some(v) by {
        set_member_is_read(body, "thinking"@, v);
    }
    assert forall|v: JsonV| obj_get(#[trigger] obj_set(config, "effort"@, v), "effort"@) == Some(v) by {
        set_member_is_read(config, "effort"@, v);
    }
    let known = seq!["type"@, "display"@];
    assert(known[0] == "type"@ && known[1] == "display"@);
    let adaptive = JsonV::Str("adaptive"@);
    one_member_is_read("type"@, adaptive, known);
    one_member_is_read("type"@, JsonV::Str("disabled"@), known);
    let display = JsonV::Str(if r.include_thoughts == Some(true) { "summarized"@ } else { "omitted"@ });
    two_members_are_read("type"@, adaptive, "display"@, display, known);
    let o = seq![("type"@, adaptive)];
    set_member_is_read(o, "display"@, display);
    set_keeps_other_members(o, "display"@, display, "type"@);
}

/// Google is asked for a thinking level where it has one for the effort, and
/// for thoughts as the request asks for them.
pub proof fn google_is_asked_for_the_level(r: ReasoningV, s: SinkV)
    ensures
        ({
            let t = thinking_fields(r, s).0;
            let level = json_as_str(obj_get(t, "thinkingLevel"@));
            &&& r.effort == Some(EffortV::Minimal) ==> level == Some("MINIMAL"@)
            &&& r.effort == Some(EffortV::Low) ==> level == Some("LOW"@)
            &&& r.effort == Some(EffortV::Medium) ==> level == Some("MEDIUM"@)
            &&& r.effort == Some(EffortV::High) ==> level == Some("HIGH"@)
            &&& r.effort is Some && r.effort->0 is Other ==> level == Some(r.effort->0->Other_0)
            &&& r.effort is None || r.effort->0 is Disabled || r.effort->0 is XHigh || r.effort->0 is Max ==> level
                is None
            &&& r.include_thoughts is Some ==> obj_get(t, "includeThoughts"@) == Some(
                JsonV::Bool(r.include_thoughts->0),
            )
            &&& r.include_thoughts is None ==> obj_get(t, "includeThoughts"@) is None
        }),
{
    reveal_strlit("thinkingLevel");
    reveal_strlit("includeThoughts");
    assert("thinkingLevel"@.len() == 13 && "includeThoughts"@.len() == 15);
    let empty = Seq::<(Seq<char>, JsonV)>::empty();
    assert(forall|k: Seq<char>| #[trigger] obj_get(empty, k) is None) by {
        reveal(obj_get);
        reveal(obj_index);
    }
    assert forall|v: JsonV, w: JsonV|
        #![trigger obj_set(obj_set(empty, "thinkingLevel"@, v), "includeThoughts"@, w)]
        obj_get(
            obj_set(obj_set(empty, "thinkingLevel"@, v), "includeThoughts"@, w),
            "thinkingLevel"@,
        ) == Some(v) by {
        let o = obj_set(empty, "thinkingLevel"@, v);
        set_member_is_read(empty, "thinkingLevel"@, v);
        set_keeps_other_members(o, "includeThoughts"@, w, "thinkingLevel"@);
    }
    assert forall|o: ObjV, w: JsonV|
        obj_get(#[trigger] obj_set(o, "includeThoughts"@, w), "includeThoughts"@) == Some(w) by {
        set_member_is_read(o, "includeThoughts"@, w);
    }
    assert forall|v: JsonV|
        obj_get(#[trigger] obj_set(empty, "thinkingLevel"@, v), "thinkingLevel"@) == Some(v) && obj_get(
            obj_set(empty, "thinkingLevel"@, v),
            "includeThoughts"@,
        ) is None by {
        set_member_is_read(empty, "thinkingLevel"@, v);
        set_keeps_other_members(empty, "thinkingLevel"@, v, "includeThoughts"@);
    }
    assert forall|w: JsonV| obj_get(#[trigger] obj_set(empty, "includeThoughts"@, w), "thinkingLevel"@) is None by {
        set_keeps_other_members(empty, "includeThoughts"@, w, "thinkingLevel"@);
    }
}

} // verus!
