//! Laws: wire messages in their canonical form. What a message becomes on its
//! way through the IR stays as it is from then on.

use vstd::prelude::*;
use crate::formats::anthropic_messages::canonical_nodes::extended_behind;
use crate::error::ConversionErrorV;
use crate::convert::ConversionWarningV;
use crate::decode::{extended, unknown_upto};
use crate::format::ANTHROPIC_MESSAGES;
use crate::formats::anthropic_messages::canonical_blocks::{block_settles, read_anywhere, read_value, recast, steady_block, written, written_anywhere};
use crate::formats::anthropic_messages::layout::{wire_role_name, WirePlanV};
use crate::formats::anthropic_messages::messages::{content_blocks, plan_content, wire_messages, wire_step, WireV};
use crate::formats::anthropic_messages::parse_blocks::{leftover, opaque_block, type_of};
use crate::formats::anthropic_messages::parse_messages::{assistant_blocks, content_at, expanded, parsed_message, parsed_messages, system_blocks, turn_runs};
use crate::formats::anthropic_messages::round_trip_history::{apart_entry, history_of, plan_at, plans_of, turn_is_in_place, whole_message};
use crate::formats::anthropic_messages::round_trip_messages::{message_names, messages_of, planned_for, role_of_turn, takes_group, turn_data_is_merged, TurnV};
use crate::formats::anthropic_messages::system::{any_content, has_content};
use crate::formats::anthropic_messages::types::{decode_message_param, encode_message_content, encode_message_param, message_param_keys, MessageContentV, MessageParamV};
use crate::ir::{ContentBlockV, MessageV, Role};
use crate::json::{json_as_str, json_get, obj_index_props, obj_wf, object2, JsonV, ObjV};
use crate::namespaces::{absent, absent_is_not_read, avoids, extended_nothing, foreign_data_is_not_merged, there, unknown_avoids, unmodeled_members_are_kept, within};
use crate::sink::SinkV;
use crate::sweep::{kept, kept_fields_stay, known_are_apart, unmodeled_fields_are_kept};
use crate::text::decimal;
use crate::turns::{run_blocks, run_blocks_prefix, run_message, run_role, run_step, RunV};

verus! {

/// The role in which a block of a message stands: tool results have one of
/// their own.
pub open spec fn block_role(role: Seq<char>, v: JsonV) -> Role {
    if role == "assistant"@ {
        Role::Assistant
    } else if role == "system"@ {
        Role::System
    } else if type_of(v) == Some("tool_result"@) {
        Role::Tool
    } else {
        Role::User
    }
}

/// The role is one that messages are read by.
pub open spec fn known_role(role: Seq<char>) -> bool {
    role == "user"@ || role == "assistant"@ || role == "system"@
}

/// The blocks of a message, each with its role.
pub open spec fn role_blocks(role: Seq<char>, a: Seq<JsonV>) -> Seq<(Role, ContentBlockV)> {
    Seq::new(a.len(), |i: int| (block_role(role, a[i]), read_value(block_role(role, a[i]), a[i])))
}

/// The runs of the first `n` blocks of a user message.
pub open spec fn runs_of(a: Seq<JsonV>, n: nat) -> Seq<RunV>
    decreases n,
{
    if n == 0 || n > a.len() {
        Seq::empty()
    } else {
        let r = block_role("user"@, a[n - 1]);
        run_step(runs_of(a, (n - 1) as nat), r == Role::Tool, read_value(r, a[n - 1]))
    }
}

/// The value has a text as its `role`.
pub open spec fn has_role(v: JsonV) -> bool {
    json_as_str(json_get(v, "role"@)) is Some
}

/// The turn that a wire message stands for.
pub open spec fn turn_of(j: JsonV) -> TurnV {
    match decode_message_param(j) {
        Err(_) => if has_role(j) {
            TurnV::Verbatim { value: j }
        } else {
            TurnV::User {
                runs: seq![RunV { is_tool: false, blocks: seq![opaque_block(j)] }],
                extra: leftover(Seq::empty()),
            }
        },
        Ok(wm) => {
            let a = expanded(wm.content);
            let extra = leftover(wm.extra);
            if wm.role == "assistant"@ {
                TurnV::Assistant { content: Seq::new(a.len(), |i: int| read_value(Role::Assistant, a[i])), extra }
            } else if wm.role == "system"@ {
                TurnV::System { content: Seq::new(a.len(), |i: int| read_value(Role::System, a[i])), extra }
            } else if wm.role == "user"@ {
                TurnV::User { runs: runs_of(a, a.len()), extra }
            } else {
                TurnV::Verbatim { value: encode_message_param(wm) }
            }
        },
    }
}

/// The turns that wire messages stand for.
pub open spec fn turns_of(a: Seq<JsonV>) -> Seq<TurnV> {
    Seq::new(a.len(), |i: int| turn_of(a[i]))
}

proof fn assistant_is_turn(a: Seq<JsonV>, loc: Seq<char>, ws: Seq<ConversionWarningV>, n: nat)
    requires
        n <= a.len(),
    ensures
        assistant_blocks(a, loc, ws, n).0 == Seq::new(n, |i: int| read_value(Role::Assistant, a[i])),
    decreases n,
{
    if n > 0 {
        assistant_is_turn(a, loc, ws, (n - 1) as nat);
        let ws1 = assistant_blocks(a, loc, ws, (n - 1) as nat).1;
        read_anywhere(a[n - 1], content_at(loc, (n - 1) as nat), ws1);
    }
    assert(assistant_blocks(a, loc, ws, n).0 =~= Seq::new(n, |i: int| read_value(Role::Assistant, a[i])));
}

proof fn system_is_turn(a: Seq<JsonV>, loc: Seq<char>, ws: Seq<ConversionWarningV>, n: nat)
    requires
        n <= a.len(),
    ensures
        system_blocks(a, loc, ws, n).0 == Seq::new(n, |i: int| read_value(Role::System, a[i])),
    decreases n,
{
    if n > 0 {
        system_is_turn(a, loc, ws, (n - 1) as nat);
        let ws1 = system_blocks(a, loc, ws, (n - 1) as nat).1;
        read_anywhere(a[n - 1], content_at(loc, (n - 1) as nat), ws1);
    }
    assert(system_blocks(a, loc, ws, n).0 =~= Seq::new(n, |i: int| read_value(Role::System, a[i])));
}

proof fn user_is_turn(a: Seq<JsonV>, loc: Seq<char>, ws: Seq<ConversionWarningV>, n: nat)
    requires
        n <= a.len(),
    ensures
        turn_runs(a, loc, ws, n).0 == runs_of(a, n),
    decreases n,
{
    message_names();
    if n > 0 {
        user_is_turn(a, loc, ws, (n - 1) as nat);
        let ws1 = turn_runs(a, loc, ws, (n - 1) as nat).1;
        read_anywhere(a[n - 1], content_at(loc, (n - 1) as nat), ws1);
    }
}

/// A wire message is parsed to the messages of its turn.
pub proof fn message_is_turn(j: JsonV, loc: Seq<char>, group: u64, ws: Seq<ConversionWarningV>)
    ensures
        parsed_message(j, loc, group, ws).0 == messages_of(turn_of(j), group),
        parsed_message(j, loc, group, ws).1 == takes_group(turn_of(j)),
{
    message_names();
    if let Ok(wm) = decode_message_param(j) {
        let a = expanded(wm.content);
        assistant_is_turn(a, loc, ws, a.len());
        system_is_turn(a, loc, ws, a.len());
        user_is_turn(a, loc, ws, a.len());
    }
    assert(parsed_message(j, loc, group, ws).0 =~= messages_of(turn_of(j), group));
}

/// Wire messages are parsed to the history of their turns.
pub proof fn messages_are_turns(lead: Seq<MessageV>, a: Seq<JsonV>, ws: Seq<ConversionWarningV>, n: nat)
    requires
        n <= a.len(),
    ensures
        parsed_messages(lead, a, ws, n).0 == history_of(lead, turns_of(a), n).0,
        parsed_messages(lead, a, ws, n).1 == history_of(lead, turns_of(a), n).1,
    decreases n,
{
    if n > 0 {
        let m = (n - 1) as nat;
        messages_are_turns(lead, a, ws, m);
        let (prev, group, ws1) = parsed_messages(lead, a, ws, m);
        message_is_turn(a[n - 1], "/messages/"@ + decimal(m), group, ws1);
        assert(turns_of(a)[n - 1] == turn_of(a[n - 1]));
    }
}

/// The values of the first `n` blocks; nothing when one cannot be written.
pub open spec fn written_all(blocks: Seq<(Role, ContentBlockV)>, as_text: bool, n: nat) -> Option<Seq<JsonV>>
    decreases n,
{
    if n == 0 || n > blocks.len() {
        Some(Seq::empty())
    } else {
        match written_all(blocks, as_text, (n - 1) as nat) {
            None => None,
            Some(prev) => match written(blocks[n - 1].0, blocks[n - 1].1, as_text) {
                None => None,
                Some(None) => Some(prev),
                Some(Some(u)) => Some(prev.push(u)),
            },
        }
    }
}

/// The canonical form of a wire message: nothing when it cannot be written,
/// and no message when all of its content is dropped.
pub open spec fn canonical_message(j: JsonV, as_text: bool) -> Option<Option<JsonV>> {
    match turn_of(j) {
        TurnV::Verbatim { value } => Some(Some(value)),
        _ => if decode_message_param(j) is Err {
            Some(
                Some(
                    JsonV::Object(seq![("role"@, JsonV::Str("user"@)), ("content"@, JsonV::Array(seq![j]))]),
                ),
            )
        } else {
            let wm = decode_message_param(j)->Ok_0;
            let a = expanded(wm.content);
            match written_all(role_blocks(wm.role, a), as_text, a.len()) {
                None => None,
                Some(vals) => if vals.len() == 0 && a.len() > 0 {
                    Some(None)
                } else {
                    Some(
                        Some(
                            JsonV::Object(
                                seq![("role"@, JsonV::Str(wm.role)), ("content"@, JsonV::Array(vals))] + kept(wm.extra),
                            ),
                        ),
                    )
                },
            }
        },
    }
}

proof fn blocks_are_written(
    blocks: Seq<(Role, ContentBlockV)>,
    st: (Seq<JsonV>, SinkV),
    from: nat,
    m: MessageV,
    p: nat,
    loc: Seq<char>,
    as_text: bool,
    n: nat,
)
    requires
        from + m.content.len() <= blocks.len(),
        n <= m.content.len(),
        forall|i: int| 0 <= i < m.content.len() ==> blocks[from + i] == (m.role, #[trigger] m.content[i]),
        written_all(blocks, as_text, from) == Some(st.0),
    ensures
        match content_blocks(st, m, p, loc, as_text, n) {
            Ok((c, _)) => written_all(blocks, as_text, from + n) == Some(c),
            Err(_) => written_all(blocks, as_text, from + n) is None,
        },
    decreases n,
{
    if n > 0 {
        let q = (n - 1) as nat;
        blocks_are_written(blocks, st, from, m, p, loc, as_text, q);
        assert(blocks[(from + q) as int] == (m.role, m.content[q as int]));
        if let Ok((c, s)) = content_blocks(st, m, p, loc, as_text, q) {
            written_anywhere(
                m.role,
                m.content[q as int],
                loc + "/content/"@ + decimal(c.len()),
                "/messages/"@ + decimal(p) + "/content/"@ + decimal(q),
                as_text,
                s,
            );
        }
    }
}

proof fn run_step_adds(runs: Seq<RunV>, is_tool: bool, b: ContentBlockV)
    ensures
        ({
            let next = run_step(runs, is_tool, b);
            run_blocks(next, next.len()) == run_blocks(runs, runs.len()).push(
                (if is_tool { Role::Tool } else { Role::User }, b),
            )
        }),
{
    let next = run_step(runs, is_tool, b);
    let role = if is_tool { Role::Tool } else { Role::User };
    if runs.len() > 0 && runs.last().is_tool == is_tool {
        let m = (runs.len() - 1) as nat;
        run_blocks_prefix(runs, next, m);
        assert(run_blocks(next, next.len()) =~= run_blocks(runs, runs.len()).push((role, b)));
    } else {
        run_blocks_prefix(runs, next, runs.len());
        assert(run_blocks(next, next.len()) =~= run_blocks(runs, runs.len()).push((role, b)));
    }
}

proof fn runs_hold_the_blocks(a: Seq<JsonV>, n: nat)
    requires
        n <= a.len(),
    ensures
        run_blocks(runs_of(a, n), runs_of(a, n).len()) == role_blocks("user"@, a).take(n as int),
        forall|i: int| 0 <= i < runs_of(a, n).len() ==> (#[trigger] runs_of(a, n)[i]).blocks.len() > 0,
        n > 0 ==> runs_of(a, n).len() > 0,
    decreases n,
{
    message_names();
    if n == 0 {
        assert(role_blocks("user"@, a).take(0) =~= Seq::<(Role, ContentBlockV)>::empty());
    } else {
        runs_hold_the_blocks(a, (n - 1) as nat);
        let r = block_role("user"@, a[n - 1]);
        run_step_adds(runs_of(a, (n - 1) as nat), r == Role::Tool, read_value(r, a[n - 1]));
        assert(role_blocks("user"@, a).take(n as int) =~= role_blocks("user"@, a).take(n - 1).push(
            role_blocks("user"@, a)[n - 1],
        ));
    }
}

proof fn written_prefix(a: Seq<(Role, ContentBlockV)>, b: Seq<(Role, ContentBlockV)>, as_text: bool, n: nat)
    requires
        n <= a.len(),
        n <= b.len(),
        forall|i: int| 0 <= i < n ==> (#[trigger] a[i]) == b[i],
    ensures
        written_all(a, as_text, n) == written_all(b, as_text, n),
    decreases n,
{
    if n > 0 {
        written_prefix(a, b, as_text, (n - 1) as nat);
        assert(a[n - 1] == b[n - 1]);
    }
}

proof fn run_blocks_grow(runs: Seq<RunV>, n: nat, m: nat)
    requires
        n <= m <= runs.len(),
    ensures
        run_blocks(runs, n).len() <= run_blocks(runs, m).len(),
        forall|i: int| 0 <= i < run_blocks(runs, n).len() ==> run_blocks(runs, m)[i] == #[trigger] run_blocks(runs, n)[i],
    decreases m - n,
{
    if n < m {
        run_blocks_grow(runs, n, (m - 1) as nat);
        let a = run_blocks(runs, n);
        let b = run_blocks(runs, (m - 1) as nat);
        let c = run_blocks(runs, m);
        assert forall|i: int| 0 <= i < a.len() implies c[i] == #[trigger] a[i] by {
            assert(b[i] == a[i]);
        }
    }
}

proof fn failure_stays(blocks: Seq<(Role, ContentBlockV)>, as_text: bool, n: nat, m: nat)
    requires
        n <= m <= blocks.len(),
        written_all(blocks, as_text, n) is None,
    ensures
        written_all(blocks, as_text, m) is None,
    decreases m - n,
{
    if n < m {
        failure_stays(blocks, as_text, n, (m - 1) as nat);
    }
}

proof fn runs_are_put(
    runs: Seq<RunV>,
    ms: Seq<MessageV>,
    parts: Seq<usize>,
    msgs: Seq<MessageV>,
    loc: Seq<char>,
    as_text: bool,
    log: Seq<Seq<char>>,
    n: nat,
)
    requires
        planned_for(parts, msgs, ms),
        ms.len() == runs.len(),
        forall|i: int|
            0 <= i < runs.len() ==> (#[trigger] ms[i]).role == run_role(runs[i]) && ms[i].content == runs[i].blocks,
        n <= runs.len(),
    ensures
        ({
            let all = run_blocks(runs, runs.len());
            match plan_content(msgs, parts, loc, as_text, log, n) {
                Ok((c, _)) => written_all(all, as_text, run_blocks(runs, n).len()) == Some(c),
                Err(_) => written_all(all, as_text, run_blocks(runs, n).len()) is None,
            }
        }),
    decreases n,
{
    let all = run_blocks(runs, runs.len());
    if n > 0 {
        let q = (n - 1) as nat;
        runs_are_put(runs, ms, parts, msgs, loc, as_text, log, q);
        let front = run_blocks(runs, q);
        let upto = run_blocks(runs, n);
        run_blocks_grow(runs, n, runs.len());
        assert(parts[q as int] < msgs.len() && msgs[parts[q as int] as int] == ms[q as int]);
        let m = ms[q as int];
        assert(m.role == run_role(runs[q as int]) && m.content == runs[q as int].blocks);
        assert(upto.len() == front.len() + m.content.len());
        match plan_content(msgs, parts, loc, as_text, log, q) {
            Ok(prev) => {
                assert forall|i: int| 0 <= i < m.content.len() implies all[front.len() + i] == (
                    m.role,
                    #[trigger] m.content[i],
                ) by {
                    assert(all[front.len() + i] == upto[front.len() + i]);
                }
                blocks_are_written(
                    all,
                    prev,
                    front.len(),
                    m,
                    parts[q as int] as nat,
                    loc,
                    as_text,
                    m.content.len(),
                );
            },
            Err(_) => {
                failure_stays(all, as_text, front.len(), upto.len());
            },
        }
    }
}

/// The content of a turn is written block by block.
proof fn content_is_put(
    j: JsonV,
    group: u64,
    parts: Seq<usize>,
    msgs: Seq<MessageV>,
    loc: Seq<char>,
    as_text: bool,
    log: Seq<Seq<char>>,
)
    requires
        decode_message_param(j) is Ok,
        known_role(decode_message_param(j)->Ok_0.role),
        planned_for(parts, msgs, messages_of(turn_of(j), group)),
    ensures
        ({
            let wm = decode_message_param(j)->Ok_0;
            let a = expanded(wm.content);
            &&& match plan_content(msgs, parts, loc, as_text, log, parts.len()) {
                Ok((c, _)) => written_all(role_blocks(wm.role, a), as_text, a.len()) == Some(c),
                Err(_) => written_all(role_blocks(wm.role, a), as_text, a.len()) is None,
            }
            &&& any_content(msgs, parts) == (a.len() > 0)
        }),
{
    message_names();
    let wm = decode_message_param(j)->Ok_0;
    let a = expanded(wm.content);
    let t = turn_of(j);
    let ms = messages_of(t, group);
    let blocks = role_blocks(wm.role, a);
    let st0 = (Seq::<JsonV>::empty(), SinkV { warnings: Seq::<ConversionWarningV>::empty(), log });
    assert(ms.len() > 0);
    assert(parts[0] < msgs.len() && msgs[parts[0] as int] == ms[0]);
    match t {
        TurnV::User { runs, extra } => {
            runs_hold_the_blocks(a, a.len());
            assert(blocks.take(a.len() as int) =~= blocks);
            if runs.len() > 0 {
                assert forall|i: int| 0 <= i < runs.len() implies (#[trigger] ms[i]).role == run_role(runs[i])
                    && ms[i].content == runs[i].blocks by {
                    let g = if runs.len() > 1 { Some(group) } else { None };
                    assert(ms[i] == run_message(runs[i], i, g, extra));
                }
                runs_are_put(runs, ms, parts, msgs, loc, as_text, log, runs.len());
                assert(runs[0].blocks.len() > 0);
                assert(has_content(msgs, parts[0]));
                if a.len() == 0 {
                    assert(runs_of(a, 0).len() == 0);
                }
            } else {
                assert(a.len() == 0);
                assert(ms[0].content.len() == 0);
                assert(plan_content(msgs, parts, loc, as_text, log, 0) == Ok::<
                    (Seq<JsonV>, SinkV),
                    ConversionErrorV,
                >(st0));
                assert(content_blocks(st0, ms[0], parts[0] as nat, loc, as_text, 0) == Ok::<
                    (Seq<JsonV>, SinkV),
                    ConversionErrorV,
                >(st0));
                assert(plan_content(msgs, parts, loc, as_text, log, 1) == Ok::<
                    (Seq<JsonV>, SinkV),
                    ConversionErrorV,
                >(st0));
                assert forall|k: int| 0 <= k < parts.len() implies !has_content(msgs, #[trigger] parts[k]) by {}
            }
        },
        _ => {
            let m = ms[0];
            assert(m.content.len() == a.len());
            assert forall|i: int| 0 <= i < m.content.len() implies blocks[0 + i] == (m.role, #[trigger] m.content[i]) by {}
            blocks_are_written(blocks, st0, 0, m, parts[0] as nat, loc, as_text, m.content.len());
            assert(plan_content(msgs, parts, loc, as_text, log, 0) == Ok::<
                (Seq<JsonV>, SinkV),
                ConversionErrorV,
            >(st0));
            assert(plan_content(msgs, parts, loc, as_text, log, 1) == content_blocks(
                st0,
                m,
                parts[0] as nat,
                loc,
                as_text,
                m.content.len(),
            ));
            if a.len() > 0 {
                assert(has_content(msgs, parts[0]));
            } else {
                assert forall|k: int| 0 <= k < parts.len() implies !has_content(msgs, #[trigger] parts[k]) by {}
            }
        },
    }
}

/// The messages of a turn become its canonical wire message.
pub proof fn message_is_written(
    j: JsonV,
    st: WireV,
    group: u64,
    plan: WirePlanV,
    msgs: Seq<MessageV>,
    as_text: bool,
)
    requires
        plan.role == role_of_turn(turn_of(j)),
        plan.verbatim == (turn_of(j) is Verbatim),
        planned_for(plan.parts, msgs, messages_of(turn_of(j), group)),
    ensures
        match wire_step(st, plan, msgs, as_text) {
            Ok(w) => match canonical_message(j, as_text) {
                Some(Some(v)) => w.wire == st.wire.push(v),
                Some(None) => w.wire == st.wire,
                None => false,
            },
            Err(_) => canonical_message(j, as_text) is None,
        },
{
    message_names();
    let t = turn_of(j);
    let ms = messages_of(t, group);
    let parts = plan.parts;
    assert(ms.len() > 0);
    assert(parts[0] < msgs.len() && msgs[parts[0] as int] == ms[0]);
    match t {
        TurnV::Verbatim { value } => {
            kept_role(j);
            foreign_data_is_not_merged(ms[0].extra, ANTHROPIC_MESSAGES@, value);
        },
        _ => if decode_message_param(j) is Err {
            let loc = "/messages/"@ + decimal(st.wire.len());
            let st0 = (Seq::<JsonV>::empty(), SinkV { warnings: Seq::<ConversionWarningV>::empty(), log: st.sink.log });
            let m = ms[0];
            let blocks = seq![(Role::User, opaque_block(j))];
            assert(parts.len() == 1);
            assert(m.content =~= seq![opaque_block(j)]);
            assert(written_all(blocks, as_text, 0) == Some(Seq::<JsonV>::empty()));
            assert(written_all(blocks, as_text, 1) == Some(Seq::<JsonV>::empty().push(j)));
            blocks_are_written(blocks, st0, 0, m, parts[0] as nat, loc, as_text, 1);
            assert(plan_content(msgs, parts, loc, as_text, st.sink.log, 0) == Ok::<
                (Seq<JsonV>, SinkV),
                ConversionErrorV,
            >(st0));
            assert(plan_content(msgs, parts, loc, as_text, st.sink.log, 1) == content_blocks(
                st0,
                m,
                parts[0] as nat,
                loc,
                as_text,
                1,
            ));
            assert(has_content(msgs, parts[0]));
            let (c, s) = plan_content(msgs, parts, loc, as_text, st.sink.log, 1)->Ok_0;
            assert(c =~= seq![j]);
            let base = object2("role"@, JsonV::Str(wire_role_name(plan.role)), "content"@, JsonV::Array(c));
            let s1 = SinkV { warnings: st.sink.warnings + s.warnings, log: s.log };
            turn_data_is_merged(base, s1, t, group, parts, msgs, loc, 1);
            let none = Seq::<(Seq<char>, JsonV)>::empty();
            let head = seq![("role"@, JsonV::Str("user"@)), ("content"@, JsonV::Array(seq![j]))];
            let known = message_param_keys();
            assert(known[0] == "role"@ && known[1] == "content"@);
            assert(within(head, known));
            unmodeled_fields_are_kept(ANTHROPIC_MESSAGES@, head, none, known);
            assert(kept(none) =~= none);
            assert(head + none =~= head);
        } else {
            let wm = decode_message_param(j)->Ok_0;
            let loc = "/messages/"@ + decimal(st.wire.len());
            content_is_put(j, group, parts, msgs, loc, as_text, st.sink.log);
            if let Ok((c, s)) = plan_content(msgs, parts, loc, as_text, st.sink.log, parts.len()) {
                let base = object2("role"@, JsonV::Str(wire_role_name(plan.role)), "content"@, JsonV::Array(c));
                let s1 = SinkV { warnings: st.sink.warnings + s.warnings, log: s.log };
                turn_data_is_merged(base, s1, t, group, parts, msgs, loc, parts.len());
                assert(wire_role_name(plan.role) == wm.role);
                let known = message_param_keys();
                let head = seq![("role"@, JsonV::Str(wm.role)), ("content"@, JsonV::Array(c))];
                assert(known[0] == "role"@ && known[1] == "content"@);
                assert(within(head, known));
                unknown_avoids(j->Object_0, known, j->Object_0.len());
                unmodeled_fields_are_kept(ANTHROPIC_MESSAGES@, head, wm.extra, known);
                assert(ms[0].extra == leftover(wm.extra));
            }
        },
    }
}

/// A message that is kept verbatim keeps its role.
proof fn kept_role(j: JsonV)
    requires
        turn_of(j) is Verbatim,
    ensures
        has_role(turn_of(j)->Verbatim_value),
{
    message_names();
    if let Ok(wm) = decode_message_param(j) {
        broadcast use crate::json::obj_index_props;
        let none = Seq::<(Seq<char>, JsonV)>::empty();
        let known = message_param_keys();
        assert(known[0] == "role"@ && known[1] == "content"@);
        let o = j->Object_0;
        unknown_avoids(o, known, o.len());
        encoded_message(wm);
        let head = message_head(wm);
        let x = extended(none, wm.extra);
        there(head, x, "role"@, 0);
    }
}

/// The modeled members of a message.
pub open spec fn message_head(wm: MessageParamV) -> ObjV {
    seq![("role"@, JsonV::Str(wm.role)), ("content"@, encode_message_content(wm.content))]
}

proof fn encoded_message(wm: MessageParamV)
    requires
        avoids(wm.extra, message_param_keys()),
    ensures
        encode_message_param(wm) == JsonV::Object(message_head(wm) + extended(Seq::empty(), wm.extra)),
        within(message_head(wm), message_param_keys()),
{
    message_names();
    let none = Seq::<(Seq<char>, JsonV)>::empty();
    let known = message_param_keys();
    assert(known[0] == "role"@ && known[1] == "content"@);
    let head = message_head(wm);
    assert(within(head, known));
    absent_is_not_read(none, "role"@, JsonV::Str(wm.role));
    let o1 = none.push(("role"@, JsonV::Str(wm.role)));
    absent_is_not_read(o1, "content"@, encode_message_content(wm.content));
    assert(o1.push(("content"@, encode_message_content(wm.content))) =~= head);
    known_are_apart(head, wm.extra, known);
    extended_behind(head, wm.extra, wm.extra.len());
}

/// The message is laid out as the turn that it stands for: it is taken for a
/// verbatim one only if it is.
#[verifier::opaque]
pub open spec fn laid_out(j: JsonV) -> bool {
    apart_entry(turn_of(j))
}

/// A wire message that keeps its canonical form: so do its blocks, and neither
/// it nor its canonical form is taken for one block that looks like a message
/// of its own. A message of an unknown role names each member once, and a value
/// without a role is a block that stays as it is.
pub open spec fn steady_message(j: JsonV, as_text: bool) -> bool {
    match decode_message_param(j) {
        Ok(wm) => if known_role(wm.role) {
            &&& forall|i: int|
                0 <= i < expanded(wm.content).len() ==> steady_block(#[trigger] expanded(wm.content)[i], as_text)
            &&& laid_out(j)
            &&& match canonical_message(j, as_text) {
                Some(Some(u)) => laid_out(u),
                _ => true,
            }
        } else {
            obj_wf(j->Object_0)
        },
        Err(_) => has_role(j) || steady_block(j, as_text) && recast(block_role("user"@, j), j, as_text) == Some(Some(j)),
    }
}

/// A steady message is laid out as the turn that it stands for.
pub proof fn steady_messages_stay_apart(j: JsonV, as_text: bool)
    requires
        steady_message(j, as_text),
    ensures
        apart_entry(turn_of(j)),
{
    message_names();
    reveal(laid_out);
    if turn_of(j) is Verbatim {
        kept_role(j);
    }
}

/// The value of a block is as it will stay.
spec fn settled_value(role: Seq<char>, u: JsonV, as_text: bool) -> bool {
    steady_block(u, as_text) && recast(block_role(role, u), u, as_text) == Some(Some(u))
}

proof fn values_settle(role: Seq<char>, a: Seq<JsonV>, as_text: bool, n: nat)
    requires
        n <= a.len(),
        known_role(role),
        forall|i: int| 0 <= i < a.len() ==> steady_block(#[trigger] a[i], as_text),
        written_all(role_blocks(role, a), as_text, n) is Some,
    ensures
        ({
            let vals = written_all(role_blocks(role, a), as_text, n)->0;
            forall|i: int| 0 <= i < vals.len() ==> settled_value(role, #[trigger] vals[i], as_text)
        }),
    decreases n,
{
    message_names();
    if n > 0 {
        values_settle(role, a, as_text, (n - 1) as nat);
        let v = a[n - 1];
        assert(steady_block(v, as_text));
        let r = block_role(role, v);
        assert(role_blocks(role, a)[n - 1] == (r, read_value(r, v)));
        block_settles(r, v, as_text);
        if let Some(Some(u)) = recast(r, v, as_text) {
            assert(block_role(role, u) == r);
            assert(settled_value(role, u, as_text));
        }
    }
}

proof fn settled_values_are_written(role: Seq<char>, vals: Seq<JsonV>, as_text: bool, n: nat)
    requires
        n <= vals.len(),
        forall|i: int| 0 <= i < vals.len() ==> settled_value(role, #[trigger] vals[i], as_text),
    ensures
        written_all(role_blocks(role, vals), as_text, n) == Some(vals.take(n as int)),
    decreases n,
{
    if n == 0 {
        assert(vals.take(0) =~= Seq::<JsonV>::empty());
    } else {
        settled_values_are_written(role, vals, as_text, (n - 1) as nat);
        assert(settled_value(role, vals[n - 1], as_text));
        assert(vals.take(n as int) =~= vals.take(n - 1).push(vals[n - 1]));
    }
}

proof fn unknown_is_named_once(o: ObjV, known: Seq<Seq<char>>, n: nat)
    requires
        obj_wf(o),
        n <= o.len(),
    ensures
        obj_wf(unknown_upto(o, known, n)),
        forall|i: int|
            0 <= i < unknown_upto(o, known, n).len() ==> exists|k: int|
                0 <= k < n && (#[trigger] unknown_upto(o, known, n)[i]).0 == (#[trigger] o[k]).0,
    decreases n,
{
    if n > 0 {
        unknown_is_named_once(o, known, (n - 1) as nat);
        let prev = unknown_upto(o, known, (n - 1) as nat);
        let r = unknown_upto(o, known, n);
        assert forall|i: int| 0 <= i < r.len() implies exists|k: int|
            0 <= k < n && (#[trigger] r[i]).0 == (#[trigger] o[k]).0 by {
            if i < prev.len() {
                assert(r[i] == prev[i]);
                let k = choose|k: int| 0 <= k < n - 1 && prev[i].0 == (#[trigger] o[k]).0;
                assert(r[i].0 == o[k].0);
            } else {
                assert(r[i].0 == o[n - 1].0);
            }
        }
        assert forall|i: int, l: int| 0 <= i < l < r.len() implies #[trigger] r[i].0 != #[trigger] r[l].0 by {
            assert(r[i] == prev[i]);
            if l < prev.len() {
                assert(r[l] == prev[l]);
            } else {
                let k = choose|k: int| 0 <= k < n - 1 && prev[i].0 == (#[trigger] o[k]).0;
                assert(o[k].0 != o[n - 1].0);
            }
        }
    }
}

/// The number of blocks of a wire message, and one more. A value that is no
/// message counts as one block.
pub open spec fn message_size(j: JsonV) -> nat {
    match decode_message_param(j) {
        Ok(wm) => expanded(wm.content).len() + 1,
        Err(_) => 2,
    }
}

proof fn written_is_no_longer(blocks: Seq<(Role, ContentBlockV)>, as_text: bool, n: nat)
    requires
        n <= blocks.len(),
    ensures
        match written_all(blocks, as_text, n) {
            Some(v) => v.len() <= n,
            None => true,
        },
    decreases n,
{
    if n > 0 {
        written_is_no_longer(blocks, as_text, (n - 1) as nat);
    }
}

/// A turn has no more messages than its size.
pub proof fn turn_is_bounded(j: JsonV, group: u64)
    ensures
        messages_of(turn_of(j), group).len() <= message_size(j),
{
    if let Ok(wm) = decode_message_param(j) {
        let a = expanded(wm.content);
        runs_are_bounded(a, a.len());
    }
}

proof fn runs_are_bounded(a: Seq<JsonV>, n: nat)
    requires
        n <= a.len(),
    ensures
        runs_of(a, n).len() <= n,
    decreases n,
{
    if n > 0 {
        runs_are_bounded(a, (n - 1) as nat);
    }
}

/// The size of the first `n` wire messages.
pub open spec fn wire_size(a: Seq<JsonV>, n: nat) -> nat
    decreases n,
{
    if n == 0 || n > a.len() {
        0
    } else {
        wire_size(a, (n - 1) as nat) + message_size(a[n - 1])
    }
}

/// A history has no more messages than the size of its wire messages, besides
/// those that come first.
pub proof fn history_is_bounded(lead: Seq<MessageV>, a: Seq<JsonV>, n: nat)
    requires
        n <= a.len(),
    ensures
        history_of(lead, turns_of(a), n).0.len() <= lead.len() + wire_size(a, n),
    decreases n,
{
    if n > 0 {
        history_is_bounded(lead, a, (n - 1) as nat);
        turn_is_bounded(a[n - 1], history_of(lead, turns_of(a), (n - 1) as nat).1);
        assert(turns_of(a)[n - 1] == turn_of(a[n - 1]));
    }
}

proof fn size_of_front(a: Seq<JsonV>, b: Seq<JsonV>, n: nat)
    requires
        n <= a.len() <= b.len(),
        forall|i: int| 0 <= i < a.len() ==> (#[trigger] a[i]) == b[i],
    ensures
        wire_size(a, n) == wire_size(b, n),
    decreases n,
{
    if n > 0 {
        size_of_front(a, b, (n - 1) as nat);
        assert(a[n - 1] == b[n - 1]);
    }
}

/// A block that stands for a message on its own becomes the content of one.
proof fn block_settles_alone(j: JsonV, as_text: bool)
    requires
        decode_message_param(j) is Err,
        !has_role(j),
        steady_message(j, as_text),
    ensures
        ({
            let u = canonical_message(j, as_text)->0->0;
            &&& canonical_message(j, as_text) is Some
            &&& canonical_message(j, as_text)->0 is Some
            &&& steady_message(u, as_text)
            &&& canonical_message(u, as_text) == Some(Some(u))
            &&& message_size(u) <= message_size(j)
        }),
{
    message_names();
    let none = Seq::<(Seq<char>, JsonV)>::empty();
    let r = block_role("user"@, j);
    let head = seq![("role"@, JsonV::Str("user"@)), ("content"@, JsonV::Array(seq![j]))];
    let known = message_param_keys();
    assert(known[0] == "role"@ && known[1] == "content"@);
    assert(within(head, known));
    unmodeled_members_are_kept(head, none, known);
    there(head, none, "role"@, 0);
    there(head, none, "content"@, 1);
    assert(head + none =~= head);
    let u = JsonV::Object(head);
    let w2 = MessageParamV { role: "user"@, content: MessageContentV::Blocks(seq![j]), extra: none };
    assert(decode_message_param(u) == Ok::<MessageParamV, Seq<char>>(w2));
    let a = seq![j];
    assert(expanded(w2.content) == a);
    assert(settled_value("user"@, a[0], as_text));
    settled_values_are_written("user"@, a, as_text, 1);
    assert(a.take(1) =~= a);
    assert(kept(none) =~= none);
    assert(canonical_message(u, as_text) == Some(Some(u)));
    assert(runs_of(a, 0) =~= Seq::<RunV>::empty());
    let b = read_value(r, j);
    assert(runs_of(a, 1) =~= seq![RunV { is_tool: r == Role::Tool, blocks: seq![b] }]);
    assert(b is Opaque ==> b->Opaque_value == j);
    assert(!whole_message(seq![b]));
    assert(laid_out(u)) by {
        reveal(laid_out);
    }
}

/// The canonical form of a message of a known role is read as it is written.
proof fn canonical_is_decoded(role: Seq<char>, vals: Seq<JsonV>, fields: ObjV)
    requires
        avoids(fields, message_param_keys()),
    ensures
        ({
            let head = seq![("role"@, JsonV::Str(role)), ("content"@, JsonV::Array(vals))];
            decode_message_param(JsonV::Object(head + kept(fields))) == Ok::<MessageParamV, Seq<char>>(
                MessageParamV { role, content: MessageContentV::Blocks(vals), extra: kept(fields) },
            )
        }),
        kept(kept(fields)) == kept(fields),
{
    message_names();
    let known = message_param_keys();
    assert(known[0] == "role"@ && known[1] == "content"@);
    let head = seq![("role"@, JsonV::Str(role)), ("content"@, JsonV::Array(vals))];
    assert(within(head, known));
    let r = kept(fields);
    kept_fields_stay(fields);
    unmodeled_fields_are_kept(ANTHROPIC_MESSAGES@, head, fields, known);
    there(head, r, "role"@, 0);
    there(head, r, "content"@, 1);
}

/// A message of values that stay as they are is its own canonical form.
proof fn canonical_stays(role: Seq<char>, vals: Seq<JsonV>, fields: ObjV, as_text: bool)
    requires
        known_role(role),
        avoids(fields, message_param_keys()),
        forall|i: int| 0 <= i < vals.len() ==> settled_value(role, #[trigger] vals[i], as_text),
    ensures
        ({
            let u = JsonV::Object(
                seq![("role"@, JsonV::Str(role)), ("content"@, JsonV::Array(vals))] + kept(fields),
            );
            &&& canonical_message(u, as_text) == Some(Some(u))
            &&& laid_out(u) ==> steady_message(u, as_text)
            &&& message_size(u) == vals.len() + 1
        }),
{
    message_names();
    settled_values_are_written(role, vals, as_text, vals.len());
    assert(vals.take(vals.len() as int) =~= vals);
    canonical_is_decoded(role, vals, fields);
    let u = JsonV::Object(seq![("role"@, JsonV::Str(role)), ("content"@, JsonV::Array(vals))] + kept(fields));
    let w = MessageParamV { role, content: MessageContentV::Blocks(vals), extra: kept(fields) };
    assert(decode_message_param(u) == Ok::<MessageParamV, Seq<char>>(w));
    assert(expanded(w.content) == vals);
    assert(canonical_message(u, as_text) == Some(Some(u)));
    assert forall|i: int| 0 <= i < vals.len() implies steady_block(#[trigger] vals[i], as_text) by {
        assert(settled_value(role, vals[i], as_text));
    }
}

proof fn known_message_settles(j: JsonV, as_text: bool)
    requires
        decode_message_param(j) is Ok,
        known_role(decode_message_param(j)->Ok_0.role),
        steady_message(j, as_text),
    ensures
        match canonical_message(j, as_text) {
            Some(Some(u)) => steady_message(u, as_text) && canonical_message(u, as_text) == Some(Some(u)) && message_size(u)
                <= message_size(j),
            _ => true,
        },
{
    let wm = decode_message_param(j)->Ok_0;
    unknown_avoids(j->Object_0, message_param_keys(), j->Object_0.len());
    let a = expanded(wm.content);
    let blocks = role_blocks(wm.role, a);
    if let Some(vals) = written_all(blocks, as_text, a.len()) {
        values_settle(wm.role, a, as_text, a.len());
        written_is_no_longer(blocks, as_text, a.len());
        canonical_stays(wm.role, vals, wm.extra, as_text);
    }
}

proof fn unknown_message_settles(j: JsonV, as_text: bool)
    requires
        decode_message_param(j) is Ok,
        !known_role(decode_message_param(j)->Ok_0.role),
        steady_message(j, as_text),
    ensures
        ({
            let u = encode_message_param(decode_message_param(j)->Ok_0);
            steady_message(u, as_text) && canonical_message(u, as_text) == Some(Some(u)) && message_size(u)
                <= message_size(j)
        }),
{
    message_names();
    let wm = decode_message_param(j)->Ok_0;
    let o = j->Object_0;
    let known = message_param_keys();
    assert(known[0] == "role"@ && known[1] == "content"@);
    unknown_avoids(o, known, o.len());
    unknown_is_named_once(o, known, o.len());
    encoded_message(wm);
    let head = message_head(wm);
    extended_nothing(wm.extra);
    let u = head + wm.extra;
    unmodeled_members_are_kept(head, wm.extra, known);
    there(head, wm.extra, "role"@, 0);
    there(head, wm.extra, "content"@, 1);
    assert(decode_message_param(JsonV::Object(u)) == Ok::<MessageParamV, Seq<char>>(wm));
    assert(obj_wf(u)) by {
        known_are_apart(head, wm.extra, known);
        assert forall|i: int, k: int| 0 <= i < k < u.len() implies #[trigger] u[i].0 != #[trigger] u[k].0 by {
            if k >= head.len() {
                assert(u[k] == wm.extra[k - head.len()]);
                if i >= head.len() {
                    assert(u[i] == wm.extra[i - head.len()]);
                } else {
                    assert(absent(head, wm.extra[k - head.len()].0));
                    assert(u[i] == head[i]);
                }
            }
        }
    }
}

/// What a wire message becomes on its way through the IR stays as it is from
/// then on.
pub proof fn message_settles(j: JsonV, as_text: bool)
    requires
        steady_message(j, as_text),
    ensures
        match canonical_message(j, as_text) {
            Some(Some(u)) => steady_message(u, as_text) && canonical_message(u, as_text) == Some(Some(u)) && message_size(u)
                <= message_size(j),
            _ => true,
        },
{
    if let Ok(wm) = decode_message_param(j) {
        if known_role(wm.role) {
            known_message_settles(j, as_text);
        } else {
            unknown_message_settles(j, as_text);
        }
    } else if !has_role(j) {
        block_settles_alone(j, as_text);
    }
}

/// The canonical forms of the first `n` wire messages.
pub open spec fn canonical_messages(a: Seq<JsonV>, as_text: bool, n: nat) -> Option<Seq<JsonV>>
    decreases n,
{
    if n == 0 || n > a.len() {
        Some(Seq::empty())
    } else {
        match canonical_messages(a, as_text, (n - 1) as nat) {
            None => None,
            Some(prev) => match canonical_message(a[n - 1], as_text) {
                None => None,
                Some(None) => Some(prev),
                Some(Some(u)) => Some(prev.push(u)),
            },
        }
    }
}

/// All messages keep their canonical forms.
pub open spec fn steady_messages(a: Seq<JsonV>, as_text: bool) -> bool {
    forall|i: int| 0 <= i < a.len() ==> steady_message(#[trigger] a[i], as_text)
}

/// The history of wire messages becomes their canonical forms.
pub proof fn history_is_written(lead: Seq<MessageV>, a: Seq<JsonV>, st: WireV, as_text: bool, n: nat)
    requires
        steady_messages(a, as_text),
        st.wire.len() == 0,
        n <= a.len(),
        history_of(lead, turns_of(a), a.len()).0.len() <= usize::MAX,
    ensures
        ({
            let turns = turns_of(a);
            let msgs = history_of(lead, turns, turns.len()).0;
            match wire_messages(st, plans_of(lead, turns, turns.len()), msgs, as_text, n) {
                Ok(w) => canonical_messages(a, as_text, n) == Some(w.wire),
                Err(_) => canonical_messages(a, as_text, n) is None,
            }
        }),
    decreases n,
{
    let turns = turns_of(a);
    let msgs = history_of(lead, turns, turns.len()).0;
    let plans = plans_of(lead, turns, turns.len());
    if n == 0 {
        assert(st.wire =~= Seq::<JsonV>::empty());
    } else {
        let k = (n - 1) as nat;
        history_is_written(lead, a, st, as_text, k);
        if let Ok(prev) = wire_messages(st, plans, msgs, as_text, k) {
            let (before, g) = history_of(lead, turns, k);
            let ms = messages_of(turns[k as int], g);
            let p = plan_at(lead, turns, k);
            assert(plans[k as int] == p);
            assert(steady_message(a[k as int], as_text));
            assert forall|j: int| 0 <= j < p.parts.len() implies (#[trigger] p.parts[j]) < msgs.len()
                && msgs[p.parts[j] as int] == ms[j] by {
                turn_is_in_place(lead, turns, k, j);
            }
            message_is_written(a[k as int], prev, g, p, msgs, as_text);
        }
    }
}

/// The canonical forms of wire messages stay as they are.
pub proof fn messages_settle(a: Seq<JsonV>, as_text: bool, n: nat)
    requires
        steady_messages(a, as_text),
        n <= a.len(),
        canonical_messages(a, as_text, n) is Some,
    ensures
        ({
            let u = canonical_messages(a, as_text, n)->0;
            &&& steady_messages(u, as_text)
            &&& canonical_messages(u, as_text, u.len()) == Some(u)
            &&& wire_size(u, u.len()) <= wire_size(a, n)
        }),
    decreases n,
{
    if n > 0 {
        let m = (n - 1) as nat;
        messages_settle(a, as_text, m);
        let prev = canonical_messages(a, as_text, m)->0;
        assert(steady_message(a[n - 1], as_text));
        message_settles(a[n - 1], as_text);
        if let Some(Some(v)) = canonical_message(a[n - 1], as_text) {
            let u = prev.push(v);
            assert forall|i: int| 0 <= i < u.len() implies steady_message(#[trigger] u[i], as_text) by {
                if i < prev.len() {
                    assert(u[i] == prev[i]);
                }
            }
            canonical_prefix(prev, u, as_text, prev.len());
            size_of_front(prev, u, prev.len());
        }
    }
}

proof fn canonical_prefix(a: Seq<JsonV>, b: Seq<JsonV>, as_text: bool, n: nat)
    requires
        n <= a.len() <= b.len(),
        forall|i: int| 0 <= i < a.len() ==> (#[trigger] a[i]) == b[i],
    ensures
        canonical_messages(a, as_text, n) == canonical_messages(b, as_text, n),
    decreases n,
{
    if n > 0 {
        canonical_prefix(a, b, as_text, (n - 1) as nat);
        assert(a[n - 1] == b[n - 1]);
    }
}

} // verus!
