//! Laws: stop reason and usage of a response, as its JSON gives them.

use vstd::prelude::*;
use crate::formats::openai_chat_completions::stream::{chat_step, choices_fed, ChatStreamV};
use crate::formats::openai_chat_completions::to_ir::openai_parsed_response;
use crate::formats::openai_chat_completions::types;
use crate::ir::{ContentBlockV, StopReasonV, SseEventV, UsageV};
use crate::json::{json_as_array, json_as_str, json_as_u64, json_get, JsonV};
use crate::scan::trimmed;
use crate::value::json_from_str;

verus! {

/// Some block is a tool call.
pub open spec fn calls_a_tool(content: Seq<ContentBlockV>) -> bool {
    exists|i: int| 0 <= i < content.len() && (#[trigger] content[i]) is ToolCall
}

/// The stop reason is the one that the finish reason stands for, and none of
/// the documented ones comes from anything else.
pub open spec fn stands_for(finish: Seq<char>, stop: StopReasonV) -> bool {
    &&& finish == "stop"@ <==> stop == StopReasonV::EndTurn
    &&& finish == "length"@ <==> stop == StopReasonV::MaxTokens
    &&& finish == "tool_calls"@ <==> stop == StopReasonV::ToolUse
    &&& finish == "content_filter"@ <==> stop == StopReasonV::ContentFilter
    &&& finish != "stop"@ && finish != "length"@ && finish != "tool_calls"@ && finish != "content_filter"@ ==> stop
        == StopReasonV::Other(finish)
}

proof fn reasons_differ()
    ensures
        "stop"@ != "length"@,
        "stop"@ != "tool_calls"@,
        "stop"@ != "content_filter"@,
        "length"@ != "tool_calls"@,
        "length"@ != "content_filter"@,
        "tool_calls"@ != "content_filter"@,
{
    reveal_strlit("stop");
    reveal_strlit("length");
    reveal_strlit("tool_calls");
    reveal_strlit("content_filter");
    assert("stop"@.len() == 4 && "length"@.len() == 6 && "tool_calls"@.len() == 10 && "content_filter"@.len() == 14);
}

/// The stop reason of a response is that of the finish reason of its first
/// choice; a turn that ends with a tool call in the message is a stop for tool
/// use.
pub proof fn finish_reason_is_read(j: JsonV, status: u16, headers: http::HeaderMap, choices: Seq<JsonV>, finish: Seq<char>)
    requires
        openai_parsed_response(j, status, headers) is Ok,
        json_get(j, "choices"@) == Some(JsonV::Array(choices)),
        choices.len() > 0,
        types::decode_choice(choices[0]) is Ok,
        json_as_str(json_get(choices[0], "finish_reason"@)) == Some(finish),
    ensures
        ({
            let r = openai_parsed_response(j, status, headers)->Ok_0;
            &&& r.stop_reason is Some
            &&& finish == "stop"@ && calls_a_tool(r.message.content) ==> r.stop_reason == Some(StopReasonV::ToolUse)
            &&& finish != "stop"@ || !calls_a_tool(r.message.content) ==> stands_for(finish, r.stop_reason->0)
        }),
{
    reasons_differ();
}

/// A response whose first choice has no finish reason has no stop reason.
pub proof fn no_finish_reason_is_made_up(j: JsonV, status: u16, headers: http::HeaderMap)
    requires
        openai_parsed_response(j, status, headers) is Ok,
        match json_get(j, "choices"@) {
            Some(JsonV::Array(a)) => a.len() > 0 ==> json_as_str(json_get(a[0], "finish_reason"@)) is None,
            _ => true,
        },
    ensures
        openai_parsed_response(j, status, headers)->Ok_0.stop_reason is None,
{
}

/// The count under a name; zero when there is none.
pub open spec fn count_of(j: JsonV, k: Seq<char>) -> u64 {
    match json_as_u64(json_get(j, k)) {
        Some(n) => n,
        None => 0,
    }
}

/// The count under two names, if there is one.
pub open spec fn detail_of(j: JsonV, k: Seq<char>, l: Seq<char>) -> Option<u64> {
    match json_get(j, k) {
        Some(d) => json_as_u64(json_get(d, l)),
        None => None,
    }
}

/// The usage has the counts of the wire usage: prompt tokens are input,
/// completion tokens are output.
pub open spec fn counts_are_those_of(u: UsageV, j: JsonV) -> bool {
    &&& u.input_tokens == count_of(j, "prompt_tokens"@)
    &&& u.output_tokens == count_of(j, "completion_tokens"@)
    &&& u.total_tokens == json_as_u64(json_get(j, "total_tokens"@))
    &&& u.cache_read_tokens == detail_of(j, "prompt_tokens_details"@, "cached_tokens"@)
    &&& u.cache_write_tokens == detail_of(j, "prompt_tokens_details"@, "cache_write_tokens"@)
    &&& u.reasoning_tokens == detail_of(j, "completion_tokens_details"@, "reasoning_tokens"@)
}

/// Id, model, usage, status and raw body of a response are those that its JSON
/// gives.
pub proof fn response_fields_are_read(j: JsonV, status: u16, headers: http::HeaderMap)
    requires
        openai_parsed_response(j, status, headers) is Ok,
    ensures
        ({
            let r = openai_parsed_response(j, status, headers)->Ok_0;
            &&& r.id == json_as_str(json_get(j, "id"@))
            &&& r.model == json_as_str(json_get(j, "model"@))
            &&& r.usage is Some <==> json_get(j, "usage"@) is Some && !(json_get(j, "usage"@)->0 is Null)
            &&& r.usage is Some ==> counts_are_those_of(r.usage->0, json_get(j, "usage"@)->0)
            &&& r.status == status
            &&& r.headers == headers
            &&& r.raw == Some(j)
        }),
{
}

/// A chunk with a finish reason closes with a message delta that reports its
/// stop reason, and with the usage of the chunk if it has one.
pub proof fn streamed_finish_reason_is_read(st: ChatStreamV, ev: SseEventV, chunk: JsonV, choice: JsonV, finish: Seq<char>)
    requires
        !st.terminal,
        trimmed(ev.data) != "[DONE]"@,
        json_from_str(ev.data) == Ok::<JsonV, Seq<char>>(chunk),
        chat_step(st, ev) is Ok,
        json_get(chunk, "choices"@) == Some(JsonV::Array(seq![choice])),
        match json_as_u64(json_get(choice, "index"@)) {
            Some(i) => i == 0,
            None => true,
        },
        json_as_str(json_get(choice, "finish_reason"@)) == Some(finish),
    ensures
        ({
            let es = chat_step(st, ev)->Ok_0.0;
            &&& es.len() > 0
            &&& es.last() is MessageDelta
            &&& es.last()->MessageDelta_stop_reason is Some
            &&& stands_for(finish, es.last()->MessageDelta_stop_reason->0)
            &&& es.last()->MessageDelta_usage is Some ==> json_get(chunk, "usage"@) is Some && counts_are_those_of(
                es.last()->MessageDelta_usage->0,
                json_get(chunk, "usage"@)->0,
            )
            &&& json_get(chunk, "usage"@) is Some && types::decode_usage(json_get(chunk, "usage"@)->0) is Ok
                ==> es.last()->MessageDelta_usage is Some
        }),
{
    reasons_differ();
    let a = seq![choice];
    reveal_with_fuel(choices_fed, 2);
    assert(a[0] == choice);
}

/// A chunk of usage alone closes with a message delta that reports it.
pub proof fn streamed_usage_is_read(st: ChatStreamV, ev: SseEventV, chunk: JsonV)
    requires
        !st.terminal,
        trimmed(ev.data) != "[DONE]"@,
        json_from_str(ev.data) == Ok::<JsonV, Seq<char>>(chunk),
        chat_step(st, ev) is Ok,
        match json_as_array(json_get(chunk, "choices"@)) {
            Some(a) => a.len() == 0,
            None => true,
        },
        json_get(chunk, "usage"@) is Some,
        types::decode_usage(json_get(chunk, "usage"@)->0) is Ok,
    ensures
        ({
            let es = chat_step(st, ev)->Ok_0.0;
            &&& es.len() > 0
            &&& es.last() is MessageDelta
            &&& es.last()->MessageDelta_stop_reason is None
            &&& es.last()->MessageDelta_usage is Some
            &&& counts_are_those_of(es.last()->MessageDelta_usage->0, json_get(chunk, "usage"@)->0)
        }),
{
}

} // verus!
