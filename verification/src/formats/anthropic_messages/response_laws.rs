//! Laws: stop reason and usage of a response, as its JSON gives them.

use vstd::prelude::*;
use crate::namespaces::{absent_is_not_read, avoids, first_named_is_read, front_members_are_read, members_behind_are_read, unread_is_absent};
use crate::decode::{extended, extended_upto};
use crate::formats::anthropic_messages::stream::{anthropic_step, event_name, AnthropicStreamV};
use crate::formats::anthropic_messages::to_ir::parsed_response;
use crate::formats::anthropic_messages::types::decode_usage_wire;
use crate::ir::{ContentBlockV, StopReasonV, SseEventV, UsageV};
use crate::json::{json_as_str, json_as_u64, json_get, obj_get, obj_wf, JsonV, ObjV};
use crate::json_laws::{set_keeps_other_members, set_member_is_read};
use crate::value::json_from_str;

verus! {

/// Some block is a tool call.
pub open spec fn calls_a_tool(content: Seq<ContentBlockV>) -> bool {
    exists|i: int| 0 <= i < content.len() && (#[trigger] content[i]) is ToolCall
}

/// The stop reason is the one that the wire name stands for, and none of the
/// documented ones comes from anything else.
pub open spec fn stands_for(name: Seq<char>, stop: StopReasonV) -> bool {
    &&& name == "end_turn"@ <==> stop == StopReasonV::EndTurn
    &&& name == "max_tokens"@ <==> stop == StopReasonV::MaxTokens
    &&& name == "stop_sequence"@ <==> stop == StopReasonV::StopSequence
    &&& name == "tool_use"@ <==> stop == StopReasonV::ToolUse
    &&& name == "refusal"@ <==> stop == StopReasonV::Refusal
    &&& name == "pause_turn"@ <==> stop == StopReasonV::PauseTurn
    &&& name == "content_filter"@ <==> stop == StopReasonV::ContentFilter
    &&& stop is Other ==> stop == StopReasonV::Other(name)
}

proof fn reasons_differ(name: Seq<char>)
    ensures
        name == "end_turn"@ ==> name != "tool_use"@ && name != "content_filter"@,
        name == "max_tokens"@ ==> name != "pause_turn"@,
        "end_turn"@.len() == 8,
        "max_tokens"@.len() == 10,
        "stop_sequence"@.len() == 13,
        "tool_use"@.len() == 8,
        "content_filter"@.len() == 14,
        "refusal"@.len() == 7,
        "pause_turn"@.len() == 10,
{
    reveal_strlit("end_turn");
    reveal_strlit("max_tokens");
    reveal_strlit("stop_sequence");
    reveal_strlit("tool_use");
    reveal_strlit("content_filter");
    reveal_strlit("refusal");
    reveal_strlit("pause_turn");
    assert("end_turn"@[0] == 'e' && "tool_use"@[0] == 't');
    assert("max_tokens"@[0] == 'm' && "pause_turn"@[0] == 'p');
}

/// The stop reason of a response is the one that its JSON names; a turn that
/// ends with a tool call in the message is a stop for tool use.
pub proof fn stop_reason_is_read(j: JsonV, status: u16, headers: http::HeaderMap, name: Seq<char>)
    requires
        parsed_response(j, status, headers) is Ok,
        json_as_str(json_get(j, "stop_reason"@)) == Some(name),
    ensures
        ({
            let r = parsed_response(j, status, headers)->Ok_0;
            &&& r.stop_reason is Some
            &&& name == "end_turn"@ && calls_a_tool(r.message.content) ==> r.stop_reason == Some(StopReasonV::ToolUse)
            &&& name != "end_turn"@ || !calls_a_tool(r.message.content) ==> stands_for(name, r.stop_reason->0)
        }),
{
    reasons_differ(name);
}

/// A response that names no stop reason has none.
pub proof fn no_stop_reason_is_made_up(j: JsonV, status: u16, headers: http::HeaderMap)
    requires
        parsed_response(j, status, headers) is Ok,
        json_as_str(json_get(j, "stop_reason"@)) is None,
    ensures
        parsed_response(j, status, headers)->Ok_0.stop_reason is None,
{
}

/// The count under a name; zero when there is none.
pub open spec fn count_of(j: JsonV, k: Seq<char>) -> int {
    match json_as_u64(json_get(j, k)) {
        Some(n) => n as int,
        None => 0,
    }
}

/// The usage has the counts of the wire usage: input counts uncached tokens,
/// cache writes and cache reads together, up to the largest number.
pub open spec fn counts_are_those_of(u: UsageV, j: JsonV) -> bool {
    let input = count_of(j, "input_tokens"@) + count_of(j, "cache_creation_input_tokens"@) + count_of(
        j,
        "cache_read_input_tokens"@,
    );
    &&& u.input_tokens == if input <= u64::MAX { input } else { u64::MAX as int }
    &&& u.output_tokens == count_of(j, "output_tokens"@)
    &&& u.total_tokens is None
    &&& u.cache_read_tokens == json_as_u64(json_get(j, "cache_read_input_tokens"@))
    &&& u.cache_write_tokens == json_as_u64(json_get(j, "cache_creation_input_tokens"@))
    &&& u.reasoning_tokens == match json_get(j, "output_tokens_details"@) {
        Some(d) => json_as_u64(json_get(d, "thinking_tokens"@)),
        None => None,
    }
}

/// Id, model, usage, status and raw body of a response are those that its JSON
/// gives.
pub proof fn response_fields_are_read(j: JsonV, status: u16, headers: http::HeaderMap)
    requires
        parsed_response(j, status, headers) is Ok,
    ensures
        ({
            let r = parsed_response(j, status, headers)->Ok_0;
            &&& r.id == json_as_str(json_get(j, "id"@))
            &&& r.model == json_as_str(json_get(j, "model"@))
            &&& r.usage is Some <==> json_get(j, "usage"@) is Some && decode_usage_wire(json_get(j, "usage"@)->0) is Ok
            &&& r.usage is Some ==> counts_are_those_of(r.usage->0, json_get(j, "usage"@)->0)
            &&& r.status == status
            &&& r.headers == headers
            &&& r.raw == Some(j)
        }),
{
}

/// The stop reason that a `message_delta` names is the one it reports.
pub proof fn streamed_stop_reason_is_read(st: AnthropicStreamV, ev: SseEventV, j: JsonV)
    requires
        !st.terminated,
        json_from_str(ev.data) == Ok::<JsonV, Seq<char>>(j),
        event_name(ev.event, j) == "message_delta"@,
        anthropic_step(st, ev) is Ok,
    ensures
        ({
            let es = anthropic_step(st, ev)->Ok_0.0;
            let name = json_as_str(json_get(json_get(j, "delta"@)->0, "stop_reason"@));
            &&& es.len() == 1
            &&& es[0] is MessageDelta
            &&& es[0]->MessageDelta_stop_reason is Some <==> name is Some
            &&& name is Some ==> stands_for(name->0, es[0]->MessageDelta_stop_reason->0)
        }),
{
    events_differ();
    if let Some(name) = json_as_str(json_get(json_get(j, "delta"@)->0, "stop_reason"@)) {
        reasons_differ(name);
    }
}

proof fn events_differ()
    ensures
        "message_delta"@ != "ping"@,
        "message_delta"@ != "message_start"@,
        "message_delta"@ != "content_block_start"@,
        "message_delta"@ != "content_block_delta"@,
        "message_delta"@ != "content_block_stop"@,
        "message_start"@ != "ping"@,
{
    reveal_strlit("ping");
    reveal_strlit("message_start");
    reveal_strlit("message_delta");
    reveal_strlit("content_block_start");
    reveal_strlit("content_block_delta");
    reveal_strlit("content_block_stop");
    assert("message_delta"@.len() == 13 && "message_start"@.len() == 13 && "ping"@.len() == 4);
    assert("message_delta"@[8] == 'd' && "message_start"@[8] == 's');
    assert("content_block_start"@.len() == 19 && "content_block_delta"@.len() == 19 && "content_block_stop"@.len() == 18);
}

proof fn later_counts_win(o: ObjV, more: ObjV, k: Seq<char>, n: nat)
    requires
        n <= more.len(),
        obj_wf(more),
    ensures
        obj_get(extended_upto(o, more, n), k) == (if obj_get(more.take(n as int), k) is Some {
            obj_get(more.take(n as int), k)
        } else {
            obj_get(o, k)
        }),
    decreases n,
{
    if n == 0 {
        assert(more.take(0) =~= Seq::<(Seq<char>, JsonV)>::empty());
        absent_is_not_read(more.take(0), k, JsonV::Null);
    } else {
        let q = (n - 1) as nat;
        later_counts_win(o, more, k, q);
        let (key, v) = more[q as int];
        let a = more.take(q as int);
        let b = more.take(n as int);
        assert(b =~= a + seq![(key, v)]);
        set_member_is_read(extended_upto(o, more, q), key, v);
        if key == k {
            assert forall|i: int| 0 <= i < a.len() implies (#[trigger] a[i]).0 != k by {
                assert(more[i].0 != more[q as int].0);
            }
            first_named_is_read(b, k, q as int);
        } else {
            set_keeps_other_members(extended_upto(o, more, q), key, v, k);
            if obj_get(a, k) is Some {
                let known = seq![k];
                assert(known[0] == k);
                assert(avoids(seq![(key, v)], known));
                front_members_are_read(a, seq![(key, v)], known, k);
            } else {
                unread_is_absent(a, k);
                members_behind_are_read(a, seq![(key, v)], k);
                absent_is_not_read(seq![(key, v)], k, JsonV::Null);
            }
        }
    }
}

/// The member that a later report gives, or else the one from before.
pub open spec fn latest(before: ObjV, later: ObjV, k: Seq<char>) -> Option<JsonV> {
    match obj_get(later, k) {
        Some(v) => Some(v),
        None => obj_get(before, k),
    }
}

/// The usage of a `message_delta` is cumulative: each of its counts is reported,
/// and a count that it leaves out is the one reported before.
pub proof fn streamed_usage_is_cumulative(st: AnthropicStreamV, ev: SseEventV, j: JsonV, usage: ObjV)
    requires
        !st.terminated,
        json_from_str(ev.data) == Ok::<JsonV, Seq<char>>(j),
        event_name(ev.event, j) == "message_delta"@,
        anthropic_step(st, ev) is Ok,
        json_get(j, "usage"@) == Some(JsonV::Object(usage)),
        usage.len() > 0,
        obj_wf(usage),
    ensures
        ({
            let (es, ws, st1) = anthropic_step(st, ev)->Ok_0;
            &&& es.len() == 1
            &&& es[0] is MessageDelta
            &&& es[0]->MessageDelta_usage is Some
            &&& forall|k: Seq<char>| #[trigger] obj_get(st1.usage, k) == latest(st.usage, usage, k)
            &&& decode_usage_wire(JsonV::Object(st1.usage)) is Ok ==> counts_are_those_of(
                es[0]->MessageDelta_usage->0,
                JsonV::Object(st1.usage),
            )
        }),
{
    events_differ();
    assert forall|k: Seq<char>| #[trigger] obj_get(extended(st.usage, usage), k) == latest(st.usage, usage, k) by {
        later_counts_win(st.usage, usage, k, usage.len());
        assert(usage.take(usage.len() as int) =~= usage);
    }
    let u = extended(st.usage, usage);
    if u.len() == 0 {
        first_named_is_read(usage, usage[0].0, 0);
        absent_is_not_read(u, usage[0].0, JsonV::Null);
        assert(obj_get(u, usage[0].0) == latest(st.usage, usage, usage[0].0));
    }
}

/// The usage of `message_start` is reported with it, and remembered.
pub proof fn starting_usage_is_read(st: AnthropicStreamV, ev: SseEventV, j: JsonV, message: JsonV)
    requires
        !st.terminated,
        json_from_str(ev.data) == Ok::<JsonV, Seq<char>>(j),
        event_name(ev.event, j) == "message_start"@,
        anthropic_step(st, ev) is Ok,
        json_get(j, "message"@) == Some(message),
    ensures
        ({
            let (es, ws, st1) = anthropic_step(st, ev)->Ok_0;
            &&& es.len() == 1
            &&& es[0] is MessageStart
            &&& es[0]->id == json_as_str(json_get(message, "id"@))
            &&& es[0]->model == json_as_str(json_get(message, "model"@))
            &&& match json_get(message, "usage"@) {
                Some(JsonV::Object(u)) => st1.usage == u && (u.len() > 0 && decode_usage_wire(JsonV::Object(u)) is Ok
                    ==> es[0]->MessageStart_usage is Some && counts_are_those_of(
                    es[0]->MessageStart_usage->0,
                    JsonV::Object(u),
                )),
                _ => st1.usage == st.usage,
            }
        }),
{
    events_differ();
}

} // verus!
