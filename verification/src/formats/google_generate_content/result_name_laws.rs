//! Laws: a tool result is sent under the name of the call that it answers.

use vstd::prelude::*;
use crate::convert::ConvertOptionsV;
use crate::error::ConversionErrorV;
use crate::format::GOOGLE_GENERATE_CONTENT;
use crate::formats::google_generate_content::from_ir::{downgraded, google_body, google_fields, google_prepared, leading_system, new_turn, parts_of, prompt_parts, side_of, system_instruction, system_merged, system_messages, turn_step, turns, turns_start, TurnsV};
use crate::formats::google_generate_content::parts::{block_cache, hint_dropped, message_parts, part_step, response_value, result_blocks, result_name, PartsV};
use crate::ir::{extra_has, ContentBlockV, MessageV, RequestV, Role};
use crate::json::{json_get, obj_get, obj_set, object1, JsonV, ObjV};
use crate::json_laws::{set_keeps_other_members, set_member_is_read};
use crate::namespaces::first_named_is_read;
use crate::sink::{empty_sink, SinkV};
use crate::text::decimal;

verus! {

/// Block `b` of message `m` is a call with this id.
pub open spec fn calls(msgs: Seq<MessageV>, m: int, b: int, id: Seq<char>) -> bool {
    match msgs[m].content[b] {
        ContentBlockV::ToolCall { id: i, .. } => i == Some(id),
        _ => false,
    }
}

/// Block `b` of message `m` comes before block `d` of message `n`.
pub open spec fn before(m: int, b: int, n: int, d: int) -> bool {
    m < n || (m == n && b < d)
}

/// The call at block `cb` of message `cm` is the last one with this id before
/// block `rb` of message `rm`.
pub open spec fn last_call(msgs: Seq<MessageV>, id: Seq<char>, cm: int, cb: int, rm: int, rb: int) -> bool {
    &&& 0 <= cm < msgs.len()
    &&& 0 <= cb < msgs[cm].content.len()
    &&& calls(msgs, cm, cb, id)
    &&& msgs[cm].role == Role::Assistant
    &&& before(cm, cb, rm, rb)
    &&& forall|m: int, b: int|
        0 <= m < msgs.len() && 0 <= b < msgs[m].content.len() && before(cm, cb, m, b) && before(m, b, rm, rb)
            ==> !#[trigger] calls(msgs, m, b, id)
}

/// Block `rb` of message `rm` is a result for the call with this id, and has no
/// name of its own.
pub open spec fn nameless_result(msgs: Seq<MessageV>, id: Seq<char>, rm: int, rb: int) -> bool {
    &&& 0 <= rm < msgs.len()
    &&& 0 <= rb < msgs[rm].content.len()
    &&& msgs[rm].role == Role::Tool
    &&& match msgs[rm].content[rb] {
        ContentBlockV::ToolResult { tool_call_id, name, .. } => tool_call_id == Some(id) && name is None,
        _ => false,
    }
}

/// The names of the calls in a message that is read up to block `n`.
proof fn names_in_a_message(p: PartsV, msgs: Seq<MessageV>, mi: nat, ci: nat, as_text: bool, id: Seq<char>, from: int, n: nat)
    requires
        mi < msgs.len(),
        n <= msgs[mi as int].content.len(),
        forall|b: int| from < b < n && 0 <= b ==> !#[trigger] calls(msgs, mi as int, b, id),
        message_parts(p, msgs[mi as int], mi, ci, as_text, n) is Ok,
    ensures
        ({
            let names = message_parts(p, msgs[mi as int], mi, ci, as_text, n)->Ok_0.names;
            &&& from < 0 ==> obj_get(names, id) == obj_get(p.names, id)
            &&& 0 <= from < n && calls(msgs, mi as int, from, id) ==> obj_get(names, id) == Some(
                JsonV::Str(msgs[mi as int].content[from]->ToolCall_name),
            )
        }),
    decreases n,
{
    if n > 0 {
        let m = msgs[mi as int];
        let q = (n - 1) as nat;
        assert forall|b: int| from < b < q && 0 <= b implies !#[trigger] calls(msgs, mi as int, b, id) by {}
        names_in_a_message(p, msgs, mi, ci, as_text, id, from, q);
        let prev = message_parts(p, m, mi, ci, as_text, q)->Ok_0;
        if let ContentBlockV::ToolCall { id: i, name, .. } = m.content[q as int] {
            if let Some(i) = i {
                set_member_is_read(prev.names, i, JsonV::Str(name));
                if i != id {
                    set_keeps_other_members(prev.names, i, JsonV::Str(name), id);
                }
            }
            assert(calls(msgs, mi as int, q as int, id) == (i == Some(id)));
        }
    }
}

/// The names of the calls in messages that are read up to message `n`.
proof fn names_of_the_calls(t: TurnsV, msgs: Seq<MessageV>, from: nat, as_text: bool, id: Seq<char>, cm: int, cb: int, n: nat)
    requires
        from <= cm < n <= msgs.len(),
        0 <= cb < msgs[cm].content.len(),
        calls(msgs, cm, cb, id),
        forall|m: int, b: int|
            0 <= m < n && 0 <= b < msgs[m].content.len() && before(cm, cb, m, b) ==> !#[trigger] calls(msgs, m, b, id),
        turns(t, msgs, from, as_text, n) is Ok,
    ensures
        obj_get(turns(t, msgs, from, as_text, n)->Ok_0.names, id) == Some(
            JsonV::Str(msgs[cm].content[cb]->ToolCall_name),
        ),
    decreases n,
{
    let q = (n - 1) as nat;
    let prev = turns(t, msgs, from, as_text, q)->Ok_0;
    let m = msgs[q as int];
    let side = side_of(m.role);
    let joins = prev.last == Some(side) && prev.contents.len() > 0;
    let ci = if joins { (prev.contents.len() - 1) as nat } else { prev.contents.len() };
    let content = if joins { prev.contents.last() } else { new_turn(side) };
    let inner = downgraded(
        SinkV { warnings: Seq::empty(), log: prev.sink.log },
        m.role,
        "/contents/"@ + decimal(ci),
    );
    let p = PartsV { parts: parts_of(content), names: prev.names, sink: inner };
    let k = if cm == q { cb } else { -1 };
    assert forall|b: int| k < b < m.content.len() && 0 <= b implies !#[trigger] calls(msgs, q as int, b, id) by {}
    names_in_a_message(p, msgs, q, ci, as_text, id, k, m.content.len());
    if cm < q {
        assert forall|x: int, b: int|
            0 <= x < q && 0 <= b < msgs[x].content.len() && before(cm, cb, x, b) implies !#[trigger] calls(msgs, x, b, id) by {}
        names_of_the_calls(t, msgs, from, as_text, id, cm, cb, q);
    }
}

/// The state in which message `mi` is turned into parts.
spec fn parts_before(prev: TurnsV, m: MessageV) -> (PartsV, nat) {
    let side = side_of(m.role);
    let joins = prev.last == Some(side) && prev.contents.len() > 0;
    let ci = if joins { (prev.contents.len() - 1) as nat } else { prev.contents.len() };
    let content = if joins { prev.contents.last() } else { new_turn(side) };
    let inner = downgraded(
        SinkV { warnings: Seq::empty(), log: prev.sink.log },
        m.role,
        "/contents/"@ + decimal(ci),
    );
    (PartsV { parts: parts_of(content), names: prev.names, sink: inner }, ci)
}

/// The names when a result is written.
proof fn name_is_known(t: TurnsV, msgs: Seq<MessageV>, from: nat, as_text: bool, id: Seq<char>, cm: int, cb: int, rm: int, rb: int)
    requires
        last_call(msgs, id, cm, cb, rm, rb),
        from <= cm,
        0 <= rm < msgs.len(),
        0 <= rb < msgs[rm].content.len(),
        turns(t, msgs, from, as_text, rm as nat) is Ok,
    ensures
        ({
            let prev = turns(t, msgs, from, as_text, rm as nat)->Ok_0;
            let (p, ci) = parts_before(prev, msgs[rm]);
            match message_parts(p, msgs[rm], rm as nat, ci, as_text, rb as nat) {
                Ok(q) => obj_get(q.names, id) == Some(JsonV::Str(msgs[cm].content[cb]->ToolCall_name)),
                Err(_) => true,
            }
        }),
{
    let prev = turns(t, msgs, from, as_text, rm as nat)->Ok_0;
    let (p, ci) = parts_before(prev, msgs[rm]);
    let k = if cm == rm { cb } else { -1 };
    assert forall|b: int| k < b < rb && 0 <= b implies !#[trigger] calls(msgs, rm, b, id) by {}
    if message_parts(p, msgs[rm], rm as nat, ci, as_text, rb as nat) is Ok {
        names_in_a_message(p, msgs, rm as nat, ci, as_text, id, k, rb as nat);
        if cm < rm {
            assert forall|m: int, b: int|
                0 <= m < rm && 0 <= b < msgs[m].content.len() && before(cm, cb, m, b) implies !#[trigger] calls(
                msgs,
                m,
                b,
                id,
            ) by {}
            names_of_the_calls(t, msgs, from, as_text, id, cm, cb, rm as nat);
        }
    }
}

/// The history with a name on the result at block `rb` of message `rm`.
pub open spec fn with_name(msgs: Seq<MessageV>, rm: int, rb: int, n: Seq<char>) -> Seq<MessageV> {
    let b = match msgs[rm].content[rb] {
        ContentBlockV::ToolResult { tool_call_id, name, content, is_error, cache, extra } => ContentBlockV::ToolResult {
            tool_call_id,
            name: Some(n),
            content,
            is_error,
            cache,
            extra,
        },
        b => b,
    };
    msgs.update(rm, MessageV { content: msgs[rm].content.update(rb, b), ..msgs[rm] })
}

proof fn parts_agree(p: PartsV, msgs: Seq<MessageV>, id: Seq<char>, rm: nat, rb: int, name: Seq<char>, ci: nat, as_text: bool, k: nat)
    requires
        nameless_result(msgs, id, rm as int, rb),
        k <= msgs[rm as int].content.len(),
        match message_parts(p, msgs[rm as int], rm, ci, as_text, rb as nat) {
            Ok(q) => obj_get(q.names, id) == Some(JsonV::Str(name)),
            Err(_) => true,
        },
    ensures
        message_parts(p, with_name(msgs, rm as int, rb, name)[rm as int], rm, ci, as_text, k) == message_parts(
            p,
            msgs[rm as int],
            rm,
            ci,
            as_text,
            k,
        ),
    decreases k,
{
    let named = with_name(msgs, rm as int, rb, name)[rm as int];
    if k > 0 {
        parts_agree(p, msgs, id, rm, rb, name, ci, as_text, (k - 1) as nat);
        if k - 1 != rb {
            assert(named.content[k - 1] == msgs[rm as int].content[k - 1]);
        }
    }
}

proof fn turns_agree(t: TurnsV, msgs: Seq<MessageV>, from: nat, as_text: bool, id: Seq<char>, cm: int, cb: int, rm: int, rb: int, n: nat)
    requires
        last_call(msgs, id, cm, cb, rm, rb),
        nameless_result(msgs, id, rm, rb),
        from <= cm,
        n <= msgs.len(),
    ensures
        turns(t, with_name(msgs, rm, rb, msgs[cm].content[cb]->ToolCall_name), from, as_text, n) == turns(
            t,
            msgs,
            from,
            as_text,
            n,
        ),
    decreases n,
{
    let name = msgs[cm].content[cb]->ToolCall_name;
    let named = with_name(msgs, rm, rb, name);
    if n > from {
        turns_agree(t, msgs, from, as_text, id, cm, cb, rm, rb, (n - 1) as nat);
        if n - 1 == rm {
            if let Ok(prev) = turns(t, msgs, from, as_text, rm as nat) {
                name_is_known(t, msgs, from, as_text, id, cm, cb, rm, rb);
                let (p, ci) = parts_before(prev, msgs[rm]);
                parts_agree(p, msgs, id, rm as nat, rb, name, ci, as_text, msgs[rm].content.len());
            }
        } else {
            assert(named[n - 1] == msgs[n - 1]);
        }
    }
}

proof fn leads_agree(a: Seq<MessageV>, b: Seq<MessageV>, i: int)
    requires
        0 <= i,
        a.len() == b.len(),
        forall|k: int| 0 <= k < a.len() ==> (#[trigger] a[k]).role == b[k].role,
    ensures
        leading_system(a, i) == leading_system(b, i),
        forall|k: int| i <= k < leading_system(a, i) ==> k < a.len() && (#[trigger] a[k]).role == Role::System,
    decreases a.len() - i,
{
    if i < a.len() {
        assert(a[i].role == b[i].role);
        if a[i].role == Role::System {
            leads_agree(a, b, i + 1);
        }
    }
}

proof fn lead_ends(msgs: Seq<MessageV>, i: int, k: int)
    requires
        0 <= i <= k < msgs.len(),
        msgs[k].role != Role::System,
    ensures
        leading_system(msgs, i) <= k,
    decreases msgs.len() - i,
{
    if msgs[i].role == Role::System {
        lead_ends(msgs, i + 1, k);
    }
}

proof fn prompts_agree(a: Seq<MessageV>, b: Seq<MessageV>, st: (Seq<JsonV>, SinkV), v: JsonV, s: SinkV, n: nat)
    requires
        n <= a.len() == b.len(),
        forall|k: int| 0 <= k < n ==> #[trigger] a[k] == b[k],
    ensures
        system_messages(st, a, n) == system_messages(st, b, n),
        system_merged(v, s, a, n) == system_merged(v, s, b, n),
    decreases n,
{
    if n > 0 {
        prompts_agree(a, b, st, v, s, (n - 1) as nat);
        assert(a[n - 1] == b[n - 1]);
    }
}

proof fn instructions_agree(system: Option<Seq<ContentBlockV>>, a: Seq<MessageV>, b: Seq<MessageV>)
    requires
        a.len() == b.len(),
        leading_system(a, 0) == leading_system(b, 0),
        0 <= leading_system(a, 0) <= a.len(),
        forall|k: int| 0 <= k < leading_system(a, 0) ==> #[trigger] a[k] == b[k],
    ensures
        system_instruction(system, a) == system_instruction(system, b),
{
    let n = leading_system(a, 0) as nat;
    let none = Ok::<(Seq<JsonV>, SinkV), ConversionErrorV>((Seq::empty(), empty_sink()));
    let prompt = match system {
        Some(x) => prompt_parts(x, x.len()),
        None => none,
    };
    if let Ok(st) = prompt {
        prompts_agree(a, b, st, JsonV::Null, st.1, n);
        if let Ok((parts, s)) = system_messages(st, a, n) {
            let v = object1("parts"@, JsonV::Array(parts));
            prompts_agree(a, b, st, v, s, n);
        }
    }
}

/// A result without a name of its own is sent as if it had the name of the last
/// call before it that has its id: the body is the same, and is refused on the
/// same histories.
pub proof fn result_takes_the_name_of_its_call(
    req: RequestV,
    conv: ConvertOptionsV,
    id: Seq<char>,
    cm: int,
    cb: int,
    rm: int,
    rb: int,
)
    requires
        last_call(req.messages, id, cm, cb, rm, rb),
        nameless_result(req.messages, id, rm, rb),
        ({
            let named = with_name(req.messages, rm, rb, req.messages[cm].content[cb]->ToolCall_name);
            &&& google_prepared(req, conv).0 == req.messages
            &&& google_prepared(RequestV { messages: named, ..req }, conv).0 == named
        }),
    ensures
        ({
            let named = with_name(req.messages, rm, rb, req.messages[cm].content[cb]->ToolCall_name);
            let a = google_body(req, conv);
            let b = google_body(RequestV { messages: named, ..req }, conv);
            &&& a is Ok <==> b is Ok
            &&& a is Ok ==> a->Ok_0.body == b->Ok_0.body
        }),
{
    let msgs = req.messages;
    let named = with_name(msgs, rm, rb, msgs[cm].content[cb]->ToolCall_name);
    assert forall|k: int| 0 <= k < msgs.len() implies (#[trigger] msgs[k]).role == named[k].role by {}
    leads_agree(msgs, named, 0);
    lead_ends(msgs, 0, cm);
    lead_ends(msgs, 0, rm);
    let from = leading_system(msgs, 0);
    lead_is_counted(msgs, 0);
    assert forall|k: int| 0 <= k < from implies #[trigger] msgs[k] == named[k] by {
        assert(msgs[k].role == Role::System);
    }
    instructions_agree(req.system, msgs, named);
    if let Ok((system, s)) = system_instruction(req.system, msgs) {
        turns_agree(turns_start(msgs.len(), s), msgs, from as nat, conv.thinking_as_text, id, cm, cb, rm, rb, msgs.len());
    }
}

pub proof fn lead_is_counted(msgs: Seq<MessageV>, i: int)
    requires
        0 <= i <= msgs.len(),
    ensures
        i <= leading_system(msgs, i) <= msgs.len(),
    decreases msgs.len() - i,
{
    if i < msgs.len() && msgs[i].role == Role::System {
        lead_is_counted(msgs, i + 1);
    }
}

proof fn parts_are_appended(p: PartsV, m: MessageV, mi: nat, ci: nat, as_text: bool, k: nat, n: nat)
    requires
        k <= n <= m.content.len(),
        message_parts(p, m, mi, ci, as_text, n) is Ok,
    ensures
        message_parts(p, m, mi, ci, as_text, k) is Ok,
        ({
            let a = message_parts(p, m, mi, ci, as_text, k)->Ok_0.parts;
            let b = message_parts(p, m, mi, ci, as_text, n)->Ok_0.parts;
            a.len() <= b.len() && forall|i: int| 0 <= i < a.len() ==> #[trigger] b[i] == a[i]
        }),
    decreases n,
{
    if k < n {
        parts_are_appended(p, m, mi, ci, as_text, k, (n - 1) as nat);
    }
}

/// Part `pi` of content `ci` is this value.
pub open spec fn part_is(contents: Seq<JsonV>, ci: int, pi: int, v: JsonV) -> bool {
    &&& 0 <= ci < contents.len()
    &&& contents[ci] is Object
    &&& json_get(contents[ci], "parts"@) is Some
    &&& json_get(contents[ci], "parts"@)->0 is Array
    &&& 0 <= pi < json_get(contents[ci], "parts"@)->0->Array_0.len()
    &&& json_get(contents[ci], "parts"@)->0->Array_0[pi] == v
}

proof fn turns_are_objects(t: TurnsV, msgs: Seq<MessageV>, from: nat, as_text: bool, n: nat)
    requires
        n <= msgs.len(),
        t.contents.len() == 0,
        turns(t, msgs, from, as_text, n) is Ok,
    ensures
        ({
            let c = turns(t, msgs, from, as_text, n)->Ok_0.contents;
            forall|i: int| 0 <= i < c.len() ==> (#[trigger] c[i]) is Object
        }),
    decreases n,
{
    if n > from {
        turns_are_objects(t, msgs, from, as_text, (n - 1) as nat);
    }
}

proof fn parts_stay_put(prev: TurnsV, m: MessageV, mi: nat, as_text: bool, ci: int, pi: int, v: JsonV)
    requires
        turn_step(prev, m, mi, as_text) is Ok,
        !extra_has(m.extra, GOOGLE_GENERATE_CONTENT@),
        forall|i: int| 0 <= i < prev.contents.len() ==> (#[trigger] prev.contents[i]) is Object,
        part_is(prev.contents, ci, pi, v),
    ensures
        part_is(turn_step(prev, m, mi, as_text)->Ok_0.contents, ci, pi, v),
{
    let (p, c) = parts_before(prev, m);
    let q = message_parts(p, m, mi, c, as_text, m.content.len())->Ok_0;
    parts_are_appended(p, m, mi, c, as_text, 0, m.content.len());
    let side = side_of(m.role);
    let content = if prev.last == Some(side) && prev.contents.len() > 0 { prev.contents.last() } else { new_turn(side) };
    set_member_is_read(content->Object_0, "parts"@, JsonV::Array(q.parts));
}

proof fn parts_stay(t: TurnsV, msgs: Seq<MessageV>, from: nat, as_text: bool, k: nat, n: nat, ci: int, pi: int, v: JsonV)
    requires
        from <= k <= n <= msgs.len(),
        t.contents.len() == 0,
        turns(t, msgs, from, as_text, n) is Ok,
        turns(t, msgs, from, as_text, k) is Ok,
        part_is(turns(t, msgs, from, as_text, k)->Ok_0.contents, ci, pi, v),
        forall|i: int| k <= i < n ==> !extra_has((#[trigger] msgs[i]).extra, GOOGLE_GENERATE_CONTENT@),
    ensures
        part_is(turns(t, msgs, from, as_text, n)->Ok_0.contents, ci, pi, v),
    decreases n,
{
    if k < n {
        let q = (n - 1) as nat;
        parts_stay(t, msgs, from, as_text, k, q, ci, pi, v);
        turns_are_objects(t, msgs, from, as_text, q);
        let prev = turns(t, msgs, from, as_text, q)->Ok_0;
        assert(!extra_has(msgs[q as int].extra, GOOGLE_GENERATE_CONTENT@));
        parts_stay_put(prev, msgs[q as int], q, as_text, ci, pi, v);
    }
}

proof fn turns_reach(t: TurnsV, msgs: Seq<MessageV>, from: nat, as_text: bool, k: nat, n: nat)
    requires
        k <= n <= msgs.len(),
        turns(t, msgs, from, as_text, n) is Ok,
    ensures
        turns(t, msgs, from, as_text, k) is Ok,
    decreases n,
{
    if k < n && n > from {
        turns_reach(t, msgs, from, as_text, k, (n - 1) as nat);
    } else if k < n {
        assert(turns(t, msgs, from, as_text, k) == Ok::<TurnsV, ConversionErrorV>(t));
    }
}

/// The name of a function response.
pub open spec fn response_name(part: JsonV) -> Option<JsonV> {
    json_get(json_get(part, "functionResponse"@)->0, "name"@)
}

/// The id of a function response.
pub open spec fn response_id(part: JsonV) -> Option<JsonV> {
    json_get(json_get(part, "functionResponse"@)->0, "id"@)
}

/// A result without provider data is written as a function response with its id
/// and a name: its own, or else that of the call.
proof fn result_is_written(p: PartsV, b: ContentBlockV, ptr: Seq<char>, as_text: bool, id: Seq<char>)
    requires
        match b {
            ContentBlockV::ToolResult { tool_call_id, name, extra, .. } => tool_call_id == Some(id) && !extra_has(
                extra,
                GOOGLE_GENERATE_CONTENT@,
            ),
            _ => false,
        },
        part_step(p, b, ptr, as_text) is Ok,
    ensures
        ({
            let q = part_step(p, b, ptr, as_text)->Ok_0;
            &&& q.parts.len() == p.parts.len() + 1
            &&& json_get(q.parts.last(), "functionResponse"@) is Some
            &&& response_id(q.parts.last()) == Some(JsonV::Str(id))
            &&& match b->ToolResult_name {
                Some(n) => response_name(q.parts.last()) == Some(JsonV::Str(n)),
                None => response_name(q.parts.last()) == obj_get(p.names, id),
            }
        }),
{
    let v = part_step(p, b, ptr, as_text)->Ok_0.parts.last();
    let r = v->Object_0[0].1;
    first_named_is_read(v->Object_0, "functionResponse"@, 0);
    let n = result_name(
        b->ToolResult_tool_call_id,
        b->ToolResult_name,
        p.names,
    )->0;
    let none = Seq::<(Seq<char>, JsonV)>::empty();
    let s = hint_dropped(
        p.sink,
        block_cache(b),
        ptr,
    );
    let blocks = b->ToolResult_content;
    let x = result_blocks(blocks, ptr, s, blocks.len());
    let resp = response_value(x.texts, b->ToolResult_is_error);
    let o1 = obj_set(none, "id"@, JsonV::Str(id));
    let o2 = obj_set(o1, "name"@, JsonV::Str(n));
    let o3 = obj_set(o2, "response"@, resp);
    reveal_strlit("id");
    reveal_strlit("name");
    reveal_strlit("response");
    reveal_strlit("parts");
    assert("id"@.len() == 2 && "name"@.len() == 4 && "response"@.len() == 8 && "parts"@.len() == 5);
    set_member_is_read(none, "id"@, JsonV::Str(id));
    set_member_is_read(o1, "name"@, JsonV::Str(n));
    set_keeps_other_members(o1, "name"@, JsonV::Str(n), "id"@);
    set_keeps_other_members(o2, "response"@, resp, "id"@);
    set_keeps_other_members(o2, "response"@, resp, "name"@);
    set_keeps_other_members(o3, "parts"@, JsonV::Array(x.media), "id"@);
    set_keeps_other_members(o3, "parts"@, JsonV::Array(x.media), "name"@);
}

/// The contents of a body without provider data of its own.
proof fn contents_are_sent(req: RequestV, system: Option<JsonV>, contents: Seq<JsonV>, s: SinkV)
    ensures
        obj_get(
            google_fields(
                req,
                system,
                obj_set(Seq::<(Seq<char>, JsonV)>::empty(), "contents"@, JsonV::Array(contents)),
                s,
            ).0,
            "contents"@,
        ) == Some(JsonV::Array(contents)),
{
    reveal_strlit("contents");
    reveal_strlit("tools");
    reveal_strlit("toolConfig");
    reveal_strlit("systemInstruction");
    reveal_strlit("generationConfig");
    let key = "contents"@;
    assert(key.len() == 8 && "tools"@.len() == 5 && "toolConfig"@.len() == 10 && "systemInstruction"@.len() == 17
        && "generationConfig"@.len() == 16);
    let b0 = obj_set(Seq::<(Seq<char>, JsonV)>::empty(), key, JsonV::Array(contents));
    set_member_is_read(Seq::empty(), key, JsonV::Array(contents));
    others_are_set_apart(key);
}

proof fn others_are_set_apart(key: Seq<char>)
    requires
        key == "contents"@,
    ensures
        forall|o: ObjV, v: JsonV| obj_get(#[trigger] obj_set(o, "tools"@, v), key) == obj_get(o, key),
        forall|o: ObjV, v: JsonV| obj_get(#[trigger] obj_set(o, "toolConfig"@, v), key) == obj_get(o, key),
        forall|o: ObjV, v: JsonV| obj_get(#[trigger] obj_set(o, "systemInstruction"@, v), key) == obj_get(o, key),
        forall|o: ObjV, v: JsonV| obj_get(#[trigger] obj_set(o, "generationConfig"@, v), key) == obj_get(o, key),
{
    reveal_strlit("contents");
    reveal_strlit("tools");
    reveal_strlit("toolConfig");
    reveal_strlit("systemInstruction");
    reveal_strlit("generationConfig");
    assert(key.len() == 8 && "tools"@.len() == 5 && "toolConfig"@.len() == 10 && "systemInstruction"@.len() == 17
        && "generationConfig"@.len() == 16);
    assert forall|o: ObjV, v: JsonV| obj_get(#[trigger] obj_set(o, "tools"@, v), key) == obj_get(o, key) by {
        set_keeps_other_members(o, "tools"@, v, key);
    }
    assert forall|o: ObjV, v: JsonV| obj_get(#[trigger] obj_set(o, "toolConfig"@, v), key) == obj_get(o, key) by {
        set_keeps_other_members(o, "toolConfig"@, v, key);
    }
    assert forall|o: ObjV, v: JsonV| obj_get(#[trigger] obj_set(o, "systemInstruction"@, v), key) == obj_get(o, key) by {
        set_keeps_other_members(o, "systemInstruction"@, v, key);
    }
    assert forall|o: ObjV, v: JsonV| obj_get(#[trigger] obj_set(o, "generationConfig"@, v), key) == obj_get(o, key) by {
        set_keeps_other_members(o, "generationConfig"@, v, key);
    }
}

/// The body has a function response for every result of the history, with the
/// id of the result and the right name: the result's own, or else that of the
/// last call before it that has its id. Provider data of the format may change
/// what is sent, and is not there from the result on.
pub proof fn result_is_sent_under_the_name_of_its_call(
    req: RequestV,
    conv: ConvertOptionsV,
    id: Seq<char>,
    rm: int,
    rb: int,
) -> (at: (int, int, JsonV))
    requires
        ({
            let msgs = google_prepared(req, conv).0;
            &&& 0 <= rm < msgs.len()
            &&& 0 <= rb < msgs[rm].content.len()
            &&& msgs[rm].role == Role::Tool
            &&& match msgs[rm].content[rb] {
                ContentBlockV::ToolResult { tool_call_id, extra, .. } => tool_call_id == Some(id) && !extra_has(
                    extra,
                    GOOGLE_GENERATE_CONTENT@,
                ),
                _ => false,
            }
            &&& forall|i: int| rm <= i < msgs.len() ==> !extra_has((#[trigger] msgs[i]).extra, GOOGLE_GENERATE_CONTENT@)
        }),
        !extra_has(req.extra, GOOGLE_GENERATE_CONTENT@),
        google_body(req, conv) is Ok,
    ensures
        ({
            let msgs = google_prepared(req, conv).0;
            let body = google_body(req, conv)->Ok_0.body;
            &&& json_get(body, "contents"@) is Some
            &&& json_get(body, "contents"@)->0 is Array
            &&& part_is(json_get(body, "contents"@)->0->Array_0, at.0, at.1, at.2)
            &&& json_get(at.2, "functionResponse"@) is Some
            &&& response_id(at.2) == Some(JsonV::Str(id))
            &&& msgs[rm].content[rb]->ToolResult_name is Some ==> response_name(at.2) == Some(
                JsonV::Str(msgs[rm].content[rb]->ToolResult_name->0),
            )
            &&& msgs[rm].content[rb]->ToolResult_name is None ==> forall|cm: int, cb: int| #[trigger]
                last_call(msgs, id, cm, cb, rm, rb) ==> response_name(at.2) == Some(
                    JsonV::Str(msgs[cm].content[cb]->ToolCall_name),
                )
        }),
{
    let as_text = conv.thinking_as_text;
    let msgs = google_prepared(req, conv).0;
    let (system, s) = system_instruction(req.system, msgs)->Ok_0;
    lead_ends(msgs, 0, rm);
    lead_is_counted(msgs, 0);
    let from = leading_system(msgs, 0) as nat;
    let t0 = turns_start(msgs.len(), s);
    let t = turns(t0, msgs, from, as_text, msgs.len())->Ok_0;
    turns_reach(t0, msgs, from, as_text, (rm + 1) as nat, msgs.len());
    turns_reach(t0, msgs, from, as_text, rm as nat, msgs.len());
    turns_are_objects(t0, msgs, from, as_text, rm as nat);
    let prev = turns(t0, msgs, from, as_text, rm as nat)->Ok_0;
    let m = msgs[rm];
    let (p, ci) = parts_before(prev, m);
    let n = m.content.len();
    parts_are_appended(p, m, rm as nat, ci, as_text, (rb + 1) as nat, n);
    parts_are_appended(p, m, rm as nat, ci, as_text, rb as nat, n);
    parts_are_appended(p, m, rm as nat, ci, as_text, 0, rb as nat);
    let q = message_parts(p, m, rm as nat, ci, as_text, rb as nat)->Ok_0;
    let ptr = "/contents/"@ + decimal(ci) + "/parts/"@ + decimal(q.parts.len());
    result_is_written(q, m.content[rb], ptr, as_text, id);
    let r = message_parts(p, m, rm as nat, ci, as_text, (rb + 1) as nat)->Ok_0;
    let v = r.parts.last();
    let whole = message_parts(p, m, rm as nat, ci, as_text, n)->Ok_0;
    assert(whole.parts[q.parts.len() as int] == v);
    let side = side_of(m.role);
    let content = if prev.last == Some(side) && prev.contents.len() > 0 { prev.contents.last() } else { new_turn(side) };
    set_member_is_read(content->Object_0, "parts"@, JsonV::Array(whole.parts));
    assert(!extra_has(msgs[rm].extra, GOOGLE_GENERATE_CONTENT@));
    let next = turns(t0, msgs, from, as_text, (rm + 1) as nat)->Ok_0;
    assert(part_is(next.contents, ci as int, q.parts.len() as int, v));
    parts_stay(t0, msgs, from, as_text, (rm + 1) as nat, msgs.len(), ci as int, q.parts.len() as int, v);
    contents_are_sent(req, system, t.contents, t.sink);
    assert forall|cm: int, cb: int| #[trigger] last_call(msgs, id, cm, cb, rm, rb) implies obj_get(q.names, id) == Some(
        JsonV::Str(msgs[cm].content[cb]->ToolCall_name),
    ) by {
        lead_ends(msgs, 0, cm);
        name_is_known(t0, msgs, from, as_text, id, cm, cb, rm, rb);
    }
    (ci as int, q.parts.len() as int, v)
}

} // verus!
