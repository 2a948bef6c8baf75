//! Laws: a history is read back from the wire messages that it becomes.

use vstd::prelude::*;
use crate::convert::ConversionWarningV;
use crate::error::ConversionErrorV;
use crate::format::ANTHROPIC_MESSAGES;
use crate::formats::anthropic_messages::blocks::block_value;
use crate::formats::anthropic_messages::layout::{in_array_meta, wire_role_name, WirePlanV, WireRole};
use crate::formats::anthropic_messages::messages::{content_blocks, content_step, merged_parts, plan_content, wire_step, WireV};
use crate::formats::anthropic_messages::parse_blocks::{leftover, opaque_block, type_of};
use crate::formats::anthropic_messages::parse_messages::{assistant_blocks, content_at, parsed_message, system_blocks, turn_block, turn_runs};
use crate::formats::anthropic_messages::round_trip::{block_round_trip, own_data, plain_block, read_block};
use crate::formats::anthropic_messages::system::{any_content, has_content};
use crate::formats::anthropic_messages::types::MessageContentV::Blocks;
use crate::formats::anthropic_messages::types::{decode_message_param, message_param_keys};
use crate::ir::{extra_merged, extra_ns, plain_message, ContentBlockV, ExtraV, MessageV, Role};
use crate::json::{object2, JsonV, ObjV};
use crate::namespaces::{foreign_data_is_not_merged, provider_data_survives, there, within};
use crate::sink::SinkV;
use crate::text::decimal;
use crate::turns::{kinds_differ, run_role, run_step, turn_messages, RunV};

verus! {

/// The value of a block of a message of this role, wherever it is read.
pub open spec fn reads_as(role: Role, v: JsonV, b: ContentBlockV) -> bool {
    &&& forall|at: Seq<char>, ws: Seq<ConversionWarningV>| #[trigger] read_block(role, v, at, ws) == (b, ws)
    &&& role != Role::Assistant ==> ((role == Role::Tool) == (type_of(v) == Some("tool_result"@)))
    &&& role == Role::System ==> (type_of(v) == Some("text"@)) == (b is Text)
}

/// The values of blocks, from index `from` of an array on.
pub open spec fn read_from(role: Role, a: Seq<JsonV>, from: nat, blocks: Seq<ContentBlockV>) -> bool {
    &&& from + blocks.len() <= a.len()
    &&& forall|i: int| 0 <= i < blocks.len() ==> reads_as(role, #[trigger] a[from + i], blocks[i])
}

/// The blocks of a message that this format can carry.
pub open spec fn plain_blocks(role: Role, blocks: Seq<ContentBlockV>) -> bool {
    forall|i: int| 0 <= i < blocks.len() ==> plain_block(role, #[trigger] blocks[i])
}

proof fn block_is_read(
    role: Role,
    b: ContentBlockV,
    loc: Seq<char>,
    ir_loc: Seq<char>,
    as_text: bool,
    s: SinkV,
)
    requires
        plain_block(role, b),
    ensures
        match block_value(role, b, loc, ir_loc, as_text, s) {
            Ok((Some(v), s1)) => s1.warnings == s.warnings && reads_as(role, v, b),
            _ => false,
        },
{
    block_round_trip(role, b, loc, ir_loc, as_text, s, loc, Seq::empty());
    let v = block_value(role, b, loc, ir_loc, as_text, s)->Ok_0.0->0;
    assert forall|at: Seq<char>, ws: Seq<ConversionWarningV>| #[trigger] read_block(role, v, at, ws) == (b, ws) by {
        block_round_trip(role, b, loc, ir_loc, as_text, s, at, ws);
    }
}

/// The blocks of a message are appended to the content, each in a form that
/// reads as the block, and without a warning.
pub proof fn content_is_written(
    st: (Seq<JsonV>, SinkV),
    m: MessageV,
    p: nat,
    loc: Seq<char>,
    as_text: bool,
    n: nat,
)
    requires
        plain_blocks(m.role, m.content),
        n <= m.content.len(),
    ensures
        match content_blocks(st, m, p, loc, as_text, n) {
            Ok((c, s)) => {
                &&& c.len() == st.0.len() + n
                &&& c.take(st.0.len() as int) == st.0
                &&& s.warnings == st.1.warnings
                &&& read_from(m.role, c, st.0.len(), m.content.take(n as int))
            },
            Err(_) => false,
        },
    decreases n,
{
    if n == 0 {
        assert(st.0.take(st.0.len() as int) =~= st.0);
    } else {
        let q = (n - 1) as nat;
        content_is_written(st, m, p, loc, as_text, q);
        let prev = content_blocks(st, m, p, loc, as_text, q)->Ok_0;
        let b = m.content[q as int];
        assert(plain_block(m.role, b));
        block_is_read(
            m.role,
            b,
            loc + "/content/"@ + decimal(prev.0.len()),
            "/messages/"@ + decimal(p) + "/content/"@ + decimal(q),
            as_text,
            prev.1,
        );
        let next = content_blocks(st, m, p, loc, as_text, n)->Ok_0;
        assert(content_blocks(st, m, p, loc, as_text, n) == content_step(prev, m, p, q, loc, as_text));
        assert(next.0.take(st.0.len() as int) =~= prev.0.take(st.0.len() as int));
        let want = m.content.take(n as int);
        assert forall|i: int| 0 <= i < want.len() implies reads_as(m.role, #[trigger] next.0[st.0.len() + i], want[i]) by {
            if i < q {
                assert(next.0[st.0.len() + i] == prev.0[st.0.len() + i]);
                assert(want[i] == m.content.take(q as int)[i]);
                assert(reads_as(m.role, prev.0[st.0.len() + i], m.content.take(q as int)[i]));
            }
        }
    }
}

proof fn assistant_is_read(a: Seq<JsonV>, blocks: Seq<ContentBlockV>, loc: Seq<char>, ws: Seq<ConversionWarningV>, n: nat)
    requires
        read_from(Role::Assistant, a, 0, blocks),
        n <= blocks.len(),
    ensures
        assistant_blocks(a, loc, ws, n) == (blocks.take(n as int), ws),
    decreases n,
{
    if n == 0 {
        assert(blocks.take(0) =~= Seq::<ContentBlockV>::empty());
    } else {
        let q = (n - 1) as nat;
        assistant_is_read(a, blocks, loc, ws, q);
        assert(reads_as(Role::Assistant, a[0 + q as int], blocks[q as int]));
        assert(read_block(Role::Assistant, a[q as int], content_at(loc, q), ws) == (blocks[q as int], ws));
        assert(blocks.take(q as int).push(blocks[q as int]) =~= blocks.take(n as int));
    }
}

proof fn system_is_read(a: Seq<JsonV>, blocks: Seq<ContentBlockV>, loc: Seq<char>, ws: Seq<ConversionWarningV>, n: nat)
    requires
        read_from(Role::System, a, 0, blocks),
        plain_blocks(Role::System, blocks),
        n <= blocks.len(),
    ensures
        system_blocks(a, loc, ws, n) == (blocks.take(n as int), ws),
    decreases n,
{
    if n == 0 {
        assert(blocks.take(0) =~= Seq::<ContentBlockV>::empty());
    } else {
        let q = (n - 1) as nat;
        system_is_read(a, blocks, loc, ws, q);
        let v = a[q as int];
        assert(reads_as(Role::System, a[0 + q as int], blocks[q as int]));
        assert(plain_block(Role::System, blocks[q as int]));
        assert(read_block(Role::System, v, content_at(loc, q), ws) == (blocks[q as int], ws));
        reveal_strlit("text");
        reveal_strlit("image");
        assert("text"@.len() != "image"@.len());
        assert(blocks.take(q as int).push(blocks[q as int]) =~= blocks.take(n as int));
    }
}

proof fn run_is_read(
    a: Seq<JsonV>,
    from: nat,
    runs: Seq<RunV>,
    role: Role,
    blocks: Seq<ContentBlockV>,
    loc: Seq<char>,
    ws: Seq<ConversionWarningV>,
    n: nat,
)
    requires
        role == Role::User || role == Role::Tool,
        read_from(role, a, from, blocks),
        turn_runs(a, loc, ws, from) == (runs, ws),
        runs.len() > 0 ==> runs.last().is_tool != (role == Role::Tool),
        1 <= n <= blocks.len(),
    ensures
        turn_runs(a, loc, ws, from + n) == (
            runs.push(RunV { is_tool: role == Role::Tool, blocks: blocks.take(n as int) }),
            ws,
        ),
    decreases n,
{
    let q = (n - 1) as nat;
    let is_tool = role == Role::Tool;
    let v = a[from + q as int];
    assert(reads_as(role, v, blocks[q as int]));
    let at = content_at(loc, from + q);
    assert(read_block(role, v, at, ws) == (blocks[q as int], ws));
    assert(turn_block(v, at, ws) == (is_tool, blocks[q as int], ws));
    if q == 0 {
        assert(blocks.take(1) =~= seq![blocks[0]]);
    } else {
        run_is_read(a, from, runs, role, blocks, loc, ws, q);
        let prev = runs.push(RunV { is_tool, blocks: blocks.take(q as int) });
        assert(blocks.take(q as int).push(blocks[q as int]) =~= blocks.take(n as int));
        assert(run_step(prev, is_tool, blocks[q as int]) =~= runs.push(
            RunV { is_tool, blocks: blocks.take(n as int) },
        ));
    }
}

/// A wire message in terms of the messages that it stands for.
pub enum TurnV {
    Assistant { content: Seq<ContentBlockV>, extra: ExtraV },
    /// A system message that keeps its place among the others.
    System { content: Seq<ContentBlockV>, extra: ExtraV },
    /// Runs of tool results and of other content, in turn.
    User { runs: Seq<RunV>, extra: ExtraV },
    /// A wire message that is kept verbatim.
    Verbatim { value: JsonV },
}

/// The messages of a turn; those of several runs belong to group `group`.
pub open spec fn messages_of(t: TurnV, group: u64) -> Seq<MessageV> {
    match t {
        TurnV::Assistant { content, extra } => seq![MessageV { extra, ..plain_message(Role::Assistant, content) }],
        TurnV::System { content, extra } => seq![
            MessageV { extra, round_trip: Some(in_array_meta()), ..plain_message(Role::System, content) },
        ],
        TurnV::User { runs, extra } => turn_messages(runs, group, extra),
        TurnV::Verbatim { value } => seq![plain_message(Role::User, seq![opaque_block(value)])],
    }
}

/// The turn takes a group.
pub open spec fn takes_group(t: TurnV) -> bool {
    match t {
        TurnV::User { runs, extra } => runs.len() > 1,
        _ => false,
    }
}

/// The wire role of a turn.
pub open spec fn role_of_turn(t: TurnV) -> WireRole {
    match t {
        TurnV::Assistant { .. } => WireRole::Assistant,
        TurnV::System { .. } => WireRole::System,
        _ => WireRole::User,
    }
}

/// Runs that alternate, each with content that this format can carry.
pub open spec fn plain_runs(runs: Seq<RunV>) -> bool {
    &&& forall|i: int| 0 <= i < runs.len() ==> plain_blocks(run_role(#[trigger] runs[i]), runs[i].blocks)
    &&& forall|i: int| 0 <= i < runs.len() ==> (#[trigger] runs[i]).blocks.len() > 0
    &&& forall|i: int| 0 < i < runs.len() ==> #[trigger] kinds_differ(runs, i)
}

/// A turn of known blocks that this format can carry.
pub open spec fn plain_turn(t: TurnV) -> bool {
    match t {
        TurnV::Assistant { content, extra } => plain_blocks(Role::Assistant, content) && own_data(
            extra,
            message_param_keys(),
        ),
        TurnV::System { content, extra } => plain_blocks(Role::System, content) && own_data(
            extra,
            message_param_keys(),
        ),
        TurnV::User { runs, extra } => plain_runs(runs) && own_data(extra, message_param_keys()),
        TurnV::Verbatim { .. } => false,
    }
}

/// The parts of a plan are these messages.
pub open spec fn planned_for(parts: Seq<usize>, msgs: Seq<MessageV>, ms: Seq<MessageV>) -> bool {
    &&& parts.len() == ms.len()
    &&& forall|k: int| 0 <= k < parts.len() ==> (#[trigger] parts[k]) < msgs.len() && msgs[parts[k] as int] == ms[k]
}

proof fn runs_prefix(a: Seq<JsonV>, b: Seq<JsonV>, loc: Seq<char>, ws: Seq<ConversionWarningV>, n: nat)
    requires
        n <= a.len() <= b.len(),
        b.take(a.len() as int) == a,
    ensures
        turn_runs(a, loc, ws, n) == turn_runs(b, loc, ws, n),
    decreases n,
{
    if n > 0 {
        runs_prefix(a, b, loc, ws, (n - 1) as nat);
        assert(a[n - 1] == b.take(a.len() as int)[n - 1]);
    }
}

proof fn runs_are_written(
    runs: Seq<RunV>,
    extra: ExtraV,
    group: u64,
    parts: Seq<usize>,
    msgs: Seq<MessageV>,
    loc: Seq<char>,
    as_text: bool,
    log: Seq<Seq<char>>,
    at: Seq<char>,
    ws: Seq<ConversionWarningV>,
    n: nat,
)
    requires
        runs.len() > 0,
        plain_runs(runs),
        planned_for(parts, msgs, turn_messages(runs, group, extra)),
        n <= runs.len(),
    ensures
        match plan_content(msgs, parts, loc, as_text, log, n) {
            Ok((c, s)) => {
                &&& n > 0 ==> c.len() > 0
                &&& s.warnings == Seq::<ConversionWarningV>::empty()
                &&& turn_runs(c, at, ws, c.len()) == (runs.take(n as int), ws)
            },
            Err(_) => false,
        },
    decreases n,
{
    if n == 0 {
        assert(runs.take(0) =~= Seq::<RunV>::empty());
    } else {
        let q = (n - 1) as nat;
        runs_are_written(runs, extra, group, parts, msgs, loc, as_text, log, at, ws, q);
        let prev = plan_content(msgs, parts, loc, as_text, log, q)->Ok_0;
        let ms = turn_messages(runs, group, extra);
        let m = ms[q as int];
        let r = runs[q as int];
        assert(parts[q as int] < msgs.len() && msgs[parts[q as int] as int] == m);
        assert(m.role == run_role(r) && m.content == r.blocks);
        assert(plain_blocks(run_role(runs[q as int]), runs[q as int].blocks));
        let k = m.content.len();
        content_is_written(prev, m, parts[q as int] as nat, loc, as_text, k);
        assert(m.content.take(k as int) =~= m.content);
        let c = content_blocks(prev, m, parts[q as int] as nat, loc, as_text, k)->Ok_0.0;
        runs_prefix(prev.0, c, at, ws, prev.0.len());
        if q > 0 {
            assert(kinds_differ(runs, q as int));
            assert(runs.take(q as int).last() == runs[q - 1]);
        }
        run_is_read(c, prev.0.len(), runs.take(q as int), m.role, m.content, at, ws, k);
        assert(runs.take(q as int).push(RunV { is_tool: m.role == Role::Tool, blocks: m.content }) =~= runs.take(n as int));
    }
}

proof fn no_data_is_merged(e: ExtraV, v: JsonV)
    requires
        e == Seq::<(Seq<char>, ObjV)>::empty(),
    ensures
        extra_merged(e, ANTHROPIC_MESSAGES@, v) == v,
{
    foreign_data_is_not_merged(e, ANTHROPIC_MESSAGES@, v);
}

pub proof fn turn_data_is_merged(v: JsonV, s: SinkV, t: TurnV, group: u64, parts: Seq<usize>, msgs: Seq<MessageV>, loc: Seq<char>, n: nat)
    requires
        planned_for(parts, msgs, messages_of(t, group)),
        1 <= n <= parts.len(),
    ensures
        ({
            let (v1, s1) = merged_parts(v, s, msgs, parts, loc, n);
            &&& v1 == extra_merged(messages_of(t, group)[0].extra, ANTHROPIC_MESSAGES@, v)
            &&& s1.warnings == s.warnings
        }),
    decreases n,
{
    let q = (n - 1) as nat;
    let ms = messages_of(t, group);
    assert(parts[q as int] < msgs.len() && msgs[parts[q as int] as int] == ms[q as int]);
    if n == 1 {
        assert(merged_parts(v, s, msgs, parts, loc, 0) == (v, s));
    } else {
        turn_data_is_merged(v, s, t, group, parts, msgs, loc, q);
        no_data_is_merged(ms[q as int].extra, merged_parts(v, s, msgs, parts, loc, q).0);
    }
}

pub proof fn message_names()
    ensures
        "role"@ != "content"@,
        "user"@ != "assistant"@,
        "user"@ != "system"@,
        "system"@ != "assistant"@,
{
    reveal_strlit("role");
    reveal_strlit("content");
    reveal_strlit("user");
    reveal_strlit("system");
    reveal_strlit("assistant");
    assert("role"@.len() == 4 && "content"@.len() == 7 && "user"@.len() == 4 && "system"@.len() == 6
        && "assistant"@.len() == 9);
}

/// The typed form of a wire message is read back, with the provider data
/// aside.
proof fn shell_is_read(role: Seq<char>, content: Seq<JsonV>, extra: ExtraV)
    requires
        own_data(extra, message_param_keys()),
    ensures
        ({
            let v = extra_merged(
                extra,
                ANTHROPIC_MESSAGES@,
                object2("role"@, JsonV::Str(role), "content"@, JsonV::Array(content)),
            );
            match decode_message_param(v) {
                Ok(wm) => wm.role == role && wm.content
                    == Blocks(content) && leftover(
                    wm.extra,
                ) == extra,
                Err(_) => false,
            }
        }),
{
    message_names();
    let ns = extra_ns(extra, ANTHROPIC_MESSAGES@);
    let known = message_param_keys();
    let t = seq![("role"@, JsonV::Str(role)), ("content"@, JsonV::Array(content))];
    assert(known[0] == "role"@ && known[1] == "content"@);
    assert(within(t, known)) by {
        assert forall|i: int| 0 <= i < t.len() implies known.contains((#[trigger] t[i]).0) by {
            assert(t[i].0 == known[i]);
        }
    }
    provider_data_survives(ANTHROPIC_MESSAGES@, t, ns, known);
    there(t, ns, "role"@, 0);
    there(t, ns, "content"@, 1);
    assert(object2("role"@, JsonV::Str(role), "content"@, JsonV::Array(content)) == JsonV::Object(t));
}

/// The messages of a turn become one wire message, without a warning, and are
/// read back from it wherever it stands: tool results and other content split
/// again into the messages that were joined.
pub proof fn turn_round_trip(
    st: WireV,
    t: TurnV,
    group: u64,
    plan: WirePlanV,
    msgs: Seq<MessageV>,
    as_text: bool,
    at: Seq<char>,
    ws: Seq<ConversionWarningV>,
)
    requires
        plain_turn(t),
        !plan.verbatim,
        plan.role == role_of_turn(t),
        planned_for(plan.parts, msgs, messages_of(t, group)),
    ensures
        match wire_step(st, plan, msgs, as_text) {
            Ok(w) => {
                &&& w.wire.len() == st.wire.len() + 1
                &&& w.wire.drop_last() == st.wire
                &&& w.sink.warnings == st.sink.warnings
                &&& parsed_message(w.wire.last(), at, group, ws) == (messages_of(t, group), takes_group(t), ws)
            },
            Err(_) => false,
        },
{
    message_names();
    let ms = messages_of(t, group);
    let parts = plan.parts;
    let loc = "/messages/"@ + decimal(st.wire.len());
    let log = st.sink.log;
    assert(ms.len() > 0);
    assert(parts[0] < msgs.len() && msgs[parts[0] as int] == ms[0]);
    let extra = ms[0].extra;
    match t {
        TurnV::User { runs, extra: e } => {
            if runs.len() > 0 {
                runs_are_written(runs, e, group, parts, msgs, loc, as_text, log, at, ws, runs.len());
                assert(runs.take(runs.len() as int) =~= runs);
            } else {
                assert(plan_content(msgs, parts, loc, as_text, log, 0) == Ok::<
                    (Seq<JsonV>, SinkV),
                    ConversionErrorV,
                >((Seq::empty(), SinkV { warnings: Seq::empty(), log })));
                assert(plan_content(msgs, parts, loc, as_text, log, 1) == Ok::<
                    (Seq<JsonV>, SinkV),
                    ConversionErrorV,
                >((Seq::empty(), SinkV { warnings: Seq::empty(), log })));
                assert(!any_content(msgs, parts));
            }
        },
        _ => {
            let st0 = (Seq::<JsonV>::empty(), SinkV { warnings: Seq::<ConversionWarningV>::empty(), log });
            assert(plan_content(msgs, parts, loc, as_text, log, 0) == Ok::<
                (Seq<JsonV>, SinkV),
                ConversionErrorV,
            >(st0));
            let m = ms[0];
            content_is_written(st0, m, parts[0] as nat, loc, as_text, m.content.len());
            assert(m.content.take(m.content.len() as int) =~= m.content);
            let (c, s) = content_blocks(st0, m, parts[0] as nat, loc, as_text, m.content.len())->Ok_0;
            assert(plan_content(msgs, parts, loc, as_text, log, 1) == content_blocks(
                st0,
                m,
                parts[0] as nat,
                loc,
                as_text,
                m.content.len(),
            ));
            if m.content.len() == 0 {
                assert(!any_content(msgs, parts)) by {
                    assert forall|k: int| 0 <= k < parts.len() implies !has_content(msgs, #[trigger] parts[k]) by {}
                }
            }
            match t {
                TurnV::Assistant { .. } => {
                    assistant_is_read(c, m.content, at, ws, m.content.len());
                },
                _ => {
                    system_is_read(c, m.content, at, ws, m.content.len());
                },
            }
        },
    }
    let (c, s) = plan_content(msgs, parts, loc, as_text, log, parts.len())->Ok_0;
    let base = object2("role"@, JsonV::Str(wire_role_name(plan.role)), "content"@, JsonV::Array(c));
    let s1 = SinkV { warnings: st.sink.warnings + s.warnings, log: s.log };
    assert(st.sink.warnings + Seq::<ConversionWarningV>::empty() =~= st.sink.warnings);
    turn_data_is_merged(base, s1, t, group, parts, msgs, loc, parts.len());
    shell_is_read(wire_role_name(plan.role), c, extra);
    let w = wire_step(st, plan, msgs, as_text)->Ok_0;
    assert(w.wire.drop_last() =~= st.wire);
    assert(parsed_message(w.wire.last(), at, group, ws).0 =~= ms);
}

} // verus!
