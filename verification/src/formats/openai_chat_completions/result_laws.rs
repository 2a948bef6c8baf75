//! Laws: every tool result goes out as a message of its own.

use vstd::prelude::*;
use crate::convert::{ConvertOptionsV, WarningCode};
use crate::format::OPENAI_CHAT_COMPLETIONS;
use crate::formats::openai_chat_completions::content::{onoted_if, tool_content};
use crate::formats::openai_chat_completions::messages::{chat_step, tool_messages, tool_step, tool_steps, verbatim, wire_ptr, ChatV};
use crate::ir::{extra_ns, ContentBlockV, MessageV, Role};
use crate::json::{json_as_str, json_get, object3, with_member, JsonV};
use crate::json_laws::{set_keeps_other_members, set_member_is_read};
use crate::namespaces::first_named_is_read;

verus! {

/// A result that names its call and has nothing of this provider with it.
pub open spec fn is_plain_result(b: ContentBlockV) -> bool {
    b is ToolResult && b->ToolResult_tool_call_id is Some && extra_ns(
        b->ToolResult_extra,
        OPENAI_CHAT_COMPLETIONS@,
    ).len() == 0
}

/// The wire message of a result: its role, the call that it answers, its name,
/// and, where it is one text, that text.
pub open spec fn tells(v: JsonV, b: ContentBlockV) -> bool {
    let content = b->ToolResult_content;
    &&& json_as_str(json_get(v, "role"@)) == Some("tool"@)
    &&& json_as_str(json_get(v, "tool_call_id"@)) == b->ToolResult_tool_call_id
    &&& b->ToolResult_name is Some ==> json_as_str(json_get(v, "name"@)) == b->ToolResult_name
    &&& content.len() == 1 && content[0] is Text && content[0]->Text_text.len() > 0 && extra_ns(
        content[0]->Text_extra,
        OPENAI_CHAT_COMPLETIONS@,
    ).len() == 0 ==> json_as_str(json_get(v, "content"@)) == Some(content[0]->Text_text)
}

proof fn item_is_read(id: Seq<char>, content: JsonV, name: Option<Seq<char>>)
    ensures
        ({
            let v0 = object3("role"@, JsonV::Str("tool"@), "tool_call_id"@, JsonV::Str(id), "content"@, content);
            let v = match name {
                Some(n) => with_member(v0, "name"@, JsonV::Str(n)),
                None => v0,
            };
            &&& v is Object
            &&& json_get(v, "role"@) == Some(JsonV::Str("tool"@))
            &&& json_get(v, "tool_call_id"@) == Some(JsonV::Str(id))
            &&& json_get(v, "content"@) == Some(content)
            &&& name is Some ==> json_get(v, "name"@) == Some(JsonV::Str(name->0))
        }),
{
    reveal_strlit("role");
    reveal_strlit("tool_call_id");
    reveal_strlit("content");
    reveal_strlit("name");
    assert("role"@.len() == 4 && "tool_call_id"@.len() == 12 && "content"@.len() == 7 && "name"@.len() == 4);
    assert("role"@[0] == 'r' && "name"@[0] == 'n');
    let v0 = object3("role"@, JsonV::Str("tool"@), "tool_call_id"@, JsonV::Str(id), "content"@, content);
    let o = v0->Object_0;
    first_named_is_read(o, "role"@, 0);
    first_named_is_read(o, "tool_call_id"@, 1);
    first_named_is_read(o, "content"@, 2);
    if let Some(n) = name {
        let w = JsonV::Str(n);
        set_member_is_read(o, "name"@, w);
        set_keeps_other_members(o, "name"@, w, "role"@);
        set_keeps_other_members(o, "name"@, w, "tool_call_id"@);
        set_keeps_other_members(o, "name"@, w, "content"@);
    }
}

proof fn step_tells(c: ChatV, b: ContentBlockV, mi: nat, bi: nat)
    requires
        is_plain_result(b),
    ensures
        tool_step(c, b, mi, bi) is Ok,
        tells(tool_step(c, b, mi, bi)->Ok_0.wire.last(), b),
        tool_step(c, b, mi, bi)->Ok_0.wire.drop_last() == c.wire,
        tool_step(c, b, mi, bi)->Ok_0.wire.len() == c.wire.len() + 1,
{
    let ptr = wire_ptr(c.wire.len());
    let s = onoted_if(
        b->ToolResult_cache is Some,
        onoted_if(
            b->ToolResult_is_error == Some(true),
            c.sink,
            WarningCode::IsErrorDropped,
            ptr,
            "`is_error` is native to Anthropic and Google; the error marker was dropped"@,
        ),
        WarningCode::CacheHintDropped,
        ptr,
        "cache breakpoints exist only on content parts; the hint on this tool result was dropped"@,
    );
    let x = tool_content(b->ToolResult_content, ptr, s).0;
    item_is_read(b->ToolResult_tool_call_id->0, x, b->ToolResult_name);
    assert(tool_step(c, b, mi, bi)->Ok_0.wire.drop_last() =~= c.wire);
}

proof fn steps_tell(c: ChatV, m: MessageV, mi: nat, n: nat)
    requires
        n <= m.content.len(),
        forall|k: int| 0 <= k < m.content.len() ==> is_plain_result(#[trigger] m.content[k]),
    ensures
        tool_steps(c, m, mi, n) is Ok,
        ({
            let d = tool_steps(c, m, mi, n)->Ok_0;
            &&& d.wire.len() == c.wire.len() + n
            &&& forall|k: int| 0 <= k < c.wire.len() ==> #[trigger] d.wire[k] == c.wire[k]
            &&& forall|k: int| 0 <= k < n ==> tells(d.wire[c.wire.len() + k], #[trigger] m.content[k])
        }),
    decreases n,
{
    if n > 0 {
        let q = (n - 1) as nat;
        steps_tell(c, m, mi, q);
        let a = tool_steps(c, m, mi, q)->Ok_0;
        let b = m.content[q as int];
        assert(is_plain_result(b));
        let d = tool_steps(c, m, mi, n)->Ok_0;
        step_tells(a, b, mi, q);
        assert(d.wire.last() == d.wire[c.wire.len() + q as int]);
        assert forall|k: int| 0 <= k < n implies tells(d.wire[c.wire.len() + k], #[trigger] m.content[k]) by {
            if k < q {
                assert(d.wire[c.wire.len() + k] == a.wire[c.wire.len() + k]);
            }
        }
    }
}

/// A message of results becomes one wire message for each, in order: what came
/// before stays, and each tells the call that it answers and what it says.
pub proof fn every_result_is_a_message(c: ChatV, m: MessageV, mi: nat, conv: ConvertOptionsV)
    requires
        m.role == Role::Tool,
        extra_ns(m.extra, OPENAI_CHAT_COMPLETIONS@).len() == 0,
        forall|k: int| 0 <= k < m.content.len() ==> is_plain_result(#[trigger] m.content[k]),
    ensures
        chat_step(c, m, mi, conv) is Ok,
        ({
            let d = chat_step(c, m, mi, conv)->Ok_0;
            &&& d.wire.len() == c.wire.len() + m.content.len()
            &&& forall|k: int| 0 <= k < c.wire.len() ==> #[trigger] d.wire[k] == c.wire[k]
            &&& forall|k: int|
                0 <= k < m.content.len() ==> tells(d.wire[c.wire.len() + k], #[trigger] m.content[k])
        }),
{
    if m.content.len() == 1 {
        assert(is_plain_result(m.content[0]));
    }
    assert(verbatim(m) is None);
    steps_tell(c, m, mi, m.content.len());
    let d = tool_steps(c, m, mi, m.content.len())->Ok_0;
    let first = c.wire.len() as int;
    if d.wire.len() > first {
        assert(d.wire.update(first, d.wire[first]) =~= d.wire);
    }
    assert(tool_messages(c, m, mi)->Ok_0.wire == d.wire);
}

} // verus!
