//! Laws: a count request asks about what the chat request sends.

use vstd::prelude::*;
use crate::convert::{ConversionWarningV, WarningCode};
use crate::formats::anthropic_messages::api::{anthropic_count, count_body, count_fields, count_warning, counted};
use crate::json::{json_as_u64, json_get, obj_get, JsonV, ObjV};
use crate::namespaces::{absent_is_not_read, pushed_member_is_read};
use crate::request::FinishedV;
use crate::value::json_from_slice;

verus! {

/// A field that the model reads as input, or that says how it is read.
pub open spec fn read_as_input(k: Seq<char>) -> bool {
    ||| k == "model"@
    ||| k == "messages"@
    ||| k == "system"@
    ||| k == "tools"@
    ||| k == "tool_choice"@
    ||| k == "thinking"@
    ||| k == "cache_control"@
    ||| k == "context_management"@
    ||| k == "mcp_servers"@
    ||| k == "output_config"@
    ||| k == "output_format"@
    ||| k == "speed"@
}

proof fn fields_are_kept(o: ObjV, own: Seq<Seq<char>>, k: Seq<char>, n: nat)
    requires
        n <= o.len(),
    ensures
        obj_get(count_fields(o, own, n).0, k) == (if read_as_input(k) {
            obj_get(o.take(n as int), k)
        } else {
            None
        }),
    decreases n,
{
    let none = Seq::<(Seq<char>, JsonV)>::empty();
    if n == 0 {
        assert(o.take(0) =~= none);
        absent_is_not_read(none, k, JsonV::Null);
    } else {
        let q = (n - 1) as nat;
        fields_are_kept(o, own, k, q);
        let (key, v) = o[q as int];
        pushed_member_is_read(o.take(q as int), k, key, v);
        pushed_member_is_read(count_fields(o, own, q).0, k, key, v);
        assert(o.take(n as int) =~= o.take(q as int).push((key, v)));
    }
}

/// The body of a count request agrees with the body of the chat request on
/// every field that the model reads as input: the system prompt, the messages,
/// the tools, the choice among them and the thinking are there exactly when the
/// chat request has them, and are equal. What else the chat request sends is
/// left out.
pub proof fn count_reads_what_the_chat_reads(out: FinishedV, own: Seq<Seq<char>>, strict: bool)
    requires
        out is Ok,
        out->Ok_0.0 is Object,
        counted(out, own, strict) is Ok,
    ensures
        forall|k: Seq<char>| #[trigger]
            json_get(counted(out, own, strict)->Ok_0.0, k) == (if read_as_input(k) {
                json_get(out->Ok_0.0, k)
            } else {
                None
            }),
{
    let o = out->Ok_0.0->Object_0;
    assert forall|k: Seq<char>| #[trigger]
        json_get(counted(out, own, strict)->Ok_0.0, k) == (if read_as_input(k) {
            json_get(out->Ok_0.0, k)
        } else {
            None
        }) by {
        fields_are_kept(o, own, k, o.len());
        assert(o.take(o.len() as int) =~= o);
    }
}

/// A warning about a dropped field of this name.
pub open spec fn is_about(w: ConversionWarningV, k: Seq<char>) -> bool {
    w.code == WarningCode::CountTokensFieldDropped && w == count_warning(k)
}

proof fn drops_are_noted(o: ObjV, own: Seq<Seq<char>>, i: int, n: nat)
    requires
        0 <= i < n <= o.len(),
        !read_as_input(o[i].0),
        !own.contains(o[i].0),
    ensures
        exists|w: int|
            0 <= w < count_fields(o, own, n).1.len() && is_about(#[trigger] count_fields(o, own, n).1[w], o[i].0),
    decreases n,
{
    let q = (n - 1) as nat;
    let ws = count_fields(o, own, n).1;
    if i == q {
        assert(is_about(ws[ws.len() - 1], o[i].0));
    } else {
        drops_are_noted(o, own, i, q);
        let prev = count_fields(o, own, q).1;
        let w = choose|w: int| 0 <= w < prev.len() && is_about(#[trigger] prev[w], o[i].0);
        assert(ws[w] == prev[w]);
    }
}

/// A field that was asked for and is left out of the count is reported.
pub proof fn dropped_fields_are_reported(body: ObjV, own: Seq<Seq<char>>, i: int)
    requires
        0 <= i < body.len(),
        !read_as_input(body[i].0),
        !own.contains(body[i].0),
    ensures
        exists|w: int|
            0 <= w < count_body(JsonV::Object(body), own).1.len() && is_about(
                #[trigger] count_body(JsonV::Object(body), own).1[w],
                body[i].0,
            ),
{
    drops_are_noted(body, own, i, body.len());
    let ws = count_fields(body, own, body.len()).1;
    let w = choose|w: int| 0 <= w < ws.len() && is_about(#[trigger] ws[w], body[i].0);
    assert(is_about(count_body(JsonV::Object(body), own).1[w], body[i].0));
}

/// The count is the number of input tokens that the response gives.
pub proof fn count_is_read(body: Seq<u8>, j: JsonV, n: u64)
    requires
        json_from_slice(body) == Ok::<JsonV, Seq<char>>(j),
        json_as_u64(json_get(j, "input_tokens"@)) == Some(n),
    ensures
        anthropic_count(body) is Ok,
        anthropic_count(body)->Ok_0.input_tokens == n,
        anthropic_count(body)->Ok_0.raw == Some(j),
{
}

} // verus!
