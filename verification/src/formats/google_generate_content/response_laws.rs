//! Laws: stop reason and usage of a response, as its JSON gives them.

use vstd::prelude::*;
use crate::convert::ConversionWarningV;
use crate::formats::google_generate_content::stream::{google_step, is_primary, message_started, parted, primary_from, FlowV, GoogleStreamV};
use crate::formats::google_generate_content::to_ir::{google_parsed_response, usage_read};
use crate::formats::google_generate_content::types::{decode_candidate, decode_generate_content_response, decode_usage_metadata, decode_vec_candidate, PartV};
use crate::ir::{ContentBlockV, StopReasonV, SseEventV, UsageV};
use crate::json::{json_as_i64, json_as_str, json_get, JsonV};
use crate::scan::starts_with;
use crate::value::json_from_str;

verus! {

/// Some block is a tool call.
pub open spec fn calls_a_tool(content: Seq<ContentBlockV>) -> bool {
    exists|i: int| 0 <= i < content.len() && (#[trigger] content[i]) is ToolCall
}

/// The finish reason says that content was held back.
pub open spec fn is_filtered(finish: Seq<char>) -> bool {
    ||| finish == "SAFETY"@
    ||| finish == "PROHIBITED_CONTENT"@
    ||| finish == "BLOCKLIST"@
    ||| finish == "SPII"@
    ||| finish.len() >= 6 && finish.subrange(0, 6) == "IMAGE_"@
}

/// The stop reason is the one that the finish reason stands for, and none of
/// the documented ones comes from anything else.
pub open spec fn stands_for(finish: Seq<char>, stop: StopReasonV) -> bool {
    &&& finish == "STOP"@ <==> stop == StopReasonV::EndTurn
    &&& finish == "MAX_TOKENS"@ <==> stop == StopReasonV::MaxTokens
    &&& is_filtered(finish) <==> stop == StopReasonV::ContentFilter
    &&& finish != "STOP"@ && finish != "MAX_TOKENS"@ && !is_filtered(finish) ==> stop == StopReasonV::Other(finish)
}

proof fn reasons_differ(finish: Seq<char>)
    ensures
        "STOP"@ != "MAX_TOKENS"@,
        !is_filtered("STOP"@),
        !is_filtered("MAX_TOKENS"@),
        starts_with(finish, "IMAGE_"@) == (finish.len() >= 6 && finish.subrange(0, 6) == "IMAGE_"@),
{
    reveal_strlit("STOP");
    reveal_strlit("MAX_TOKENS");
    reveal_strlit("SAFETY");
    reveal_strlit("PROHIBITED_CONTENT");
    reveal_strlit("BLOCKLIST");
    reveal_strlit("SPII");
    reveal_strlit("IMAGE_");
    assert("STOP"@.len() == 4 && "MAX_TOKENS"@.len() == 10 && "SAFETY"@.len() == 6 && "PROHIBITED_CONTENT"@.len() == 18
        && "BLOCKLIST"@.len() == 9 && "SPII"@.len() == 4 && "IMAGE_"@.len() == 6);
    assert("STOP"@[1] == 'T' && "SPII"@[1] == 'P');
    assert("MAX_TOKENS"@.subrange(0, 6)[0] == 'M' && "IMAGE_"@[0] == 'I');
}

/// The stop reason of a response is that of the finish reason of its first
/// candidate; a turn that ends with a tool call in the message is a stop for
/// tool use.
pub proof fn finish_reason_is_read(j: JsonV, status: u16, headers: http::HeaderMap, candidates: Seq<JsonV>, finish: Seq<char>)
    requires
        google_parsed_response(j, status, headers) is Ok,
        json_get(j, "candidates"@) == Some(JsonV::Array(candidates)),
        candidates.len() > 0,
        json_as_str(json_get(candidates[0], "finishReason"@)) == Some(finish),
    ensures
        ({
            let r = google_parsed_response(j, status, headers)->Ok_0;
            &&& r.stop_reason is Some
            &&& finish == "STOP"@ && calls_a_tool(r.message.content) ==> r.stop_reason == Some(StopReasonV::ToolUse)
            &&& finish != "STOP"@ || !calls_a_tool(r.message.content) ==> stands_for(finish, r.stop_reason->0)
        }),
{
    reasons_differ(finish);
    first_is_decoded(candidates, candidates.len());
}

proof fn first_is_decoded(a: Seq<JsonV>, n: nat)
    requires
        0 < n <= a.len(),
        decode_vec_candidate(a, n) is Ok,
    ensures
        decode_vec_candidate(a, n)->Ok_0.len() == n,
        decode_candidate(a[0]) == Ok::<_, Seq<char>>(decode_vec_candidate(a, n)->Ok_0[0]),
    decreases n,
{
    if n > 1 {
        first_is_decoded(a, (n - 1) as nat);
    } else {
        assert(decode_vec_candidate(a, 0)->Ok_0.len() == 0);
    }
}

/// A prompt that was blocked is a stop for the content filter.
pub proof fn blocked_prompt_is_filtered(j: JsonV, status: u16, headers: http::HeaderMap)
    requires
        google_parsed_response(j, status, headers) is Ok,
        match json_get(j, "candidates"@) {
            Some(JsonV::Array(a)) => a.len() == 0,
            other => other is None,
        },
        json_get(j, "promptFeedback"@) is Some,
        json_as_str(json_get(json_get(j, "promptFeedback"@)->0, "blockReason"@)) is Some,
    ensures
        google_parsed_response(j, status, headers)->Ok_0.stop_reason == Some(StopReasonV::ContentFilter),
        google_parsed_response(j, status, headers)->Ok_0.message.content.len() == 0,
{
}

/// The count under a name, if there is one; a negative one counts as zero.
pub open spec fn count_at(j: JsonV, k: Seq<char>) -> Option<u64> {
    match json_as_i64(json_get(j, k)) {
        Some(n) => Some(if n < 0 { 0u64 } else { n as u64 }),
        None => None,
    }
}

/// The count under a name; zero when there is none.
pub open spec fn count_of(j: JsonV, k: Seq<char>) -> int {
    match count_at(j, k) {
        Some(n) => n as int,
        None => 0,
    }
}

/// The usage has the counts of the metadata: input counts the tool-use prompt
/// too, and output the thoughts.
pub open spec fn counts_are_those_of(u: UsageV, j: JsonV) -> bool {
    &&& u.input_tokens == count_of(j, "promptTokenCount"@) + count_of(j, "toolUsePromptTokenCount"@)
    &&& u.output_tokens == count_of(j, "candidatesTokenCount"@) + count_of(j, "thoughtsTokenCount"@)
    &&& u.total_tokens == count_at(j, "totalTokenCount"@)
    &&& u.cache_read_tokens == count_at(j, "cachedContentTokenCount"@)
    &&& u.cache_write_tokens is None
    &&& u.reasoning_tokens == count_at(j, "thoughtsTokenCount"@)
}

/// Id, model, usage, status and raw body of a response are those that its JSON
/// gives.
pub proof fn response_fields_are_read(j: JsonV, status: u16, headers: http::HeaderMap)
    requires
        google_parsed_response(j, status, headers) is Ok,
    ensures
        ({
            let r = google_parsed_response(j, status, headers)->Ok_0;
            &&& r.id == json_as_str(json_get(j, "responseId"@))
            &&& r.model == json_as_str(json_get(j, "modelVersion"@))
            &&& r.usage is Some <==> json_get(j, "usageMetadata"@) is Some && decode_usage_metadata(
                json_get(j, "usageMetadata"@)->0,
            ) is Ok
            &&& r.usage is Some ==> counts_are_those_of(r.usage->0, json_get(j, "usageMetadata"@)->0)
            &&& r.status == status
            &&& r.headers == headers
            &&& r.raw == Some(j)
        }),
{
}

/// A chunk whose only candidate has a finish reason closes the message: a delta
/// that reports the stop reason and the last usage, then the stop.
pub proof fn streamed_finish_reason_is_read(st: GoogleStreamV, ev: SseEventV, j: JsonV, candidate: JsonV, finish: Seq<char>)
    requires
        !st.terminated,
        json_from_str(ev.data) == Ok::<JsonV, Seq<char>>(j),
        json_get(j, "error"@) is None,
        json_get(j, "candidates"@) == Some(JsonV::Array(seq![candidate])),
        decode_candidate(candidate) is Ok,
        is_primary(decode_candidate(candidate)->Ok_0),
        json_as_str(json_get(candidate, "finishReason"@)) == Some(finish),
        decode_generate_content_response(j) is Ok,
    ensures
        google_step(st, ev) is Ok,
        ({
            let es = google_step(st, ev)->Ok_0.0;
            let delta = es[es.len() - 2];
            &&& es.len() >= 2
            &&& es.last() is MessageStop
            &&& delta is MessageDelta
            &&& delta->MessageDelta_stop_reason is Some
            &&& stands_for(finish, delta->MessageDelta_stop_reason->0)
            &&& json_get(j, "usageMetadata"@) is None ==> delta->MessageDelta_usage == st.last_usage
            &&& json_get(j, "usageMetadata"@) is Some && decode_usage_metadata(json_get(j, "usageMetadata"@)->0) is Ok
                ==> delta->MessageDelta_usage is Some && counts_are_those_of(
                delta->MessageDelta_usage->0,
                json_get(j, "usageMetadata"@)->0,
            )
        }),
{
    reasons_differ(finish);
    let a = seq![candidate];
    assert(a[0] == candidate);
    first_is_decoded(a, 1);
    reveal_with_fuel(primary_from, 2);
    let w = decode_generate_content_response(j)->Ok_0;
    assert(w.candidates.len() == 1);
    let f = message_started(
        GoogleStreamV {
            last_usage: match usage_read(w.usage_metadata, Seq::empty()).0 {
                Some(u) => Some(u),
                None => st.last_usage,
            },
            ..st
        },
        w,
    );
    if let Some(content) = w.candidates[0].content {
        usage_is_kept(
            f,
            content.parts,
            usage_read(w.usage_metadata, Seq::empty()).1,
            content.parts.len(),
        );
    }
}

proof fn usage_is_kept(
    f: FlowV,
    parts: Seq<PartV>,
    ws: Seq<ConversionWarningV>,
    n: nat,
)
    ensures
        parted(f, parts, ws, n).0.0.last_usage == f.0.last_usage,
    decreases n,
{
    if n > 0 && n <= parts.len() {
        usage_is_kept(f, parts, ws, (n - 1) as nat);
    }
}

} // verus!
