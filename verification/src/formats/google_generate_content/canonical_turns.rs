//! Laws: contents in their canonical form. Neighbouring contents of one side
//! become one on the first pass, and stay as they are from then on.

use vstd::prelude::*;
use crate::json_laws::set_member_is_read;
use crate::convert::{ConversionWarningV, WarningCode};
use crate::decode::unknown;
use crate::format::GOOGLE_GENERATE_CONTENT;
use crate::formats::google_generate_content::canonical_contents::{advanced, bare, content_json, contents_of, fresh, message_blocks, message_is_put, put_blocks, shell_is_filled, stands, step_anywhere, step_view, CurrentV, PartStateV, ProgressV};
use crate::formats::google_generate_content::from_ir::{downgraded, new_turn, side_name, side_of, turn_step, turns, Side, TurnsV};
use crate::formats::google_generate_content::parse_parts::{classified, g_leftover, gp_noted, part_block};
use crate::formats::google_generate_content::parts::{allowed, message_parts, part_step, PartsV};
use crate::formats::google_generate_content::round_trip_history::{content_names, shell};
use crate::formats::google_generate_content::to_ir::{all_messages, content_messages, model_blocks, part_runs, turn_part};
use crate::formats::google_generate_content::types::{content_keys, decode_content, decode_part, decode_vec_content, decode_vec_part, ContentV, PartV};
use crate::ir::{extra_get, extra_merged, extra_ns, non_null, ContentBlockV, MessageV, Role};
use crate::json::{obj_get, obj_index, obj_index_props, obj_set, with_member, JsonV, ObjV};
use crate::merge::merged;
use crate::namespaces::{avoids, clean, namespace_holds_its_members, there, unknown_avoids, unmodeled_members_are_kept, within};
use crate::sink::SinkV;
use crate::sweep::{apart_data_goes_to_the_back, clean_data_is_swept, clean_member_by_member, fields_are_merged, known_are_apart, merge_stays_clean, merged_data_avoids, non_null_avoids};
use crate::text::decimal;
use crate::turns::{run_blocks, run_blocks_prefix, run_message, run_role, run_step, turn_messages, RunV};

verus! {

/// A block of this format: it becomes a part, or cannot be written.
pub open spec fn native(b: ContentBlockV) -> bool {
    match b {
        ContentBlockV::Opaque { format, value } => format == GOOGLE_GENERATE_CONTENT@,
        ContentBlockV::Thinking { text, signature, extra } => extra_get(extra, GOOGLE_GENERATE_CONTENT@) is Some,
        _ => true,
    }
}

/// What a block is written as, given the names of the calls so far.
pub open spec fn written(b: ContentBlockV, names: ObjV, as_text: bool) -> Option<JsonV> {
    match step_view(part_step(bare((Seq::empty(), names)), b, Seq::empty(), as_text)) {
        Some((parts, _)) => if parts.len() == 1 { Some(parts[0]) } else { None },
        None => None,
    }
}

proof fn step_pushes(st: PartStateV, b: ContentBlockV, as_text: bool)
    requires
        native(b),
    ensures
        match step_view(part_step(bare(st), b, Seq::empty(), as_text)) {
            Some((parts, _)) => written(b, st.1, as_text) is Some && parts == st.0.push(written(b, st.1, as_text)->0),
            None => written(b, st.1, as_text) is None,
        },
{
    match b {
        ContentBlockV::ToolResult { content, .. } => {},
        _ => {},
    }
}

/// The block that a part of one side is read as, and whether it is a tool
/// result.
pub open spec fn side_block(side: Side, p: PartV) -> (bool, ContentBlockV) {
    match side {
        Side::Model => (false, part_block(classified(p, Seq::empty(), Seq::empty()).0)),
        Side::User => {
            let (t, b, ws) = turn_part(p, Seq::empty(), Seq::empty());
            (t, b)
        },
    }
}

/// The role of a block of one side.
pub open spec fn block_role(side: Side, is_tool: bool) -> Role {
    match side {
        Side::Model => Role::Assistant,
        Side::User => if is_tool { Role::Tool } else { Role::User },
    }
}

/// The part is read as a block that is written as the same part, whatever
/// calls came before.
pub open spec fn part_stays(side: Side, v: JsonV, as_text: bool) -> bool {
    match decode_part(v) {
        Ok(p) => {
            let (t, b) = side_block(side, p);
            &&& allowed(block_role(side, t), b)
            &&& forall|names: ObjV| #[trigger] written(b, names, as_text) == Some(v)
        },
        Err(_) => false,
    }
}

/// A part that keeps its canonical form: what it is written as stays.
pub open spec fn steady_part(side: Side, p: PartV, as_text: bool) -> bool {
    let b = side_block(side, p).1;
    forall|names: ObjV| #[trigger]
        written(b, names, as_text) is Some ==> part_stays(side, written(b, names, as_text)->0, as_text)
}

proof fn parts_are_native(side: Side, p: PartV)
    ensures
        native(side_block(side, p).1),
{
    reveal(extra_get);
    let b = side_block(side, p).1;
    if let ContentBlockV::Thinking { text, signature, extra } = b {
        let f = obj_set(p.extra, "thought"@, JsonV::Bool(true));
        thought_is_kept(p.extra);
        fields_are_merged(GOOGLE_GENERATE_CONTENT@, Seq::empty(), f);
    }
}

proof fn thought_is_kept(x: ObjV)
    ensures
        ({
            let f = obj_set(x, "thought"@, JsonV::Bool(true));
            non_null(f, f.len()).len() > 0
        }),
{
    broadcast use crate::json::obj_index_props;
    let f = obj_set(x, "thought"@, JsonV::Bool(true));
    set_member_is_read(x, "thought"@, JsonV::Bool(true));
    reveal(obj_get);
    let i = obj_index(f, "thought"@);
    something_is_kept(f, i, f.len());
}

proof fn something_is_kept(f: ObjV, i: int, n: nat)
    requires
        0 <= i < n <= f.len(),
        !(f[i].1 is Null),
    ensures
        non_null(f, n).len() > 0,
    decreases n,
{
    if i < n - 1 {
        something_is_kept(f, i, (n - 1) as nat);
    }
}

/// All blocks of a message are of this format, and its data is apart from the
/// members of a content.
pub open spec fn carried(m: MessageV) -> bool {
    &&& forall|i: int| 0 <= i < m.content.len() ==> native(#[trigger] m.content[i])
    &&& avoids(extra_ns(m.extra, GOOGLE_GENERATE_CONTENT@), content_keys())
}

proof fn parts_grow(st: PartsV, m: MessageV, mi: nat, ci: nat, as_text: bool, n: nat)
    requires
        n <= m.content.len(),
        forall|i: int| 0 <= i < m.content.len() ==> native(#[trigger] m.content[i]),
    ensures
        match message_parts(st, m, mi, ci, as_text, n) {
            Ok(r) => r.parts.len() == st.parts.len() + n,
            Err(_) => true,
        },
    decreases n,
{
    if n > 0 {
        parts_grow(st, m, mi, ci, as_text, (n - 1) as nat);
        if let Ok(prev) = message_parts(st, m, mi, ci, as_text, (n - 1) as nat) {
            assert(native(m.content[n - 1]));
            let ptr = "/contents/"@ + decimal(ci) + "/parts/"@ + decimal(prev.parts.len());
            step_anywhere(prev, m.content[n - 1], ptr, as_text);
            step_pushes((prev.parts, prev.names), m.content[n - 1], as_text);
        }
    }
}

/// One message advances the turns as its blocks and data do.
proof fn message_moves(t: TurnsV, p: ProgressV, m: MessageV, mi: nat, as_text: bool)
    requires
        stands(t, p),
        carried(m),
    ensures
        ({
            let next = advanced(
                p,
                side_of(m.role),
                message_blocks(m),
                extra_ns(m.extra, GOOGLE_GENERATE_CONTENT@),
                as_text,
            );
            match turn_step(t, m, mi, as_text) {
                Ok(now) => match next {
                    Some(q) => stands(now, q),
                    None => false,
                },
                Err(_) => next is None,
            }
        }),
{
    content_names();
    let none = Seq::<(Seq<char>, JsonV)>::empty();
    let side = side_of(m.role);
    let ns = extra_ns(m.extra, GOOGLE_GENERATE_CONTENT@);
    let joins = t.last == Some(side) && t.contents.len() > 0;
    let ci = if joins { (t.contents.len() - 1) as nat } else { t.contents.len() };
    let base = "/contents/"@ + decimal(ci);
    let c: CurrentV = if joins { p.current->0 } else { (side, Seq::empty(), none) };
    let content = if joins { t.contents.last() } else { new_turn(side) };
    shell_is_filled(side, c.1, c.2, Seq::empty());
    assert(content == content_json(c));
    let st = PartsV {
        parts: c.1,
        names: t.names,
        sink: downgraded(SinkV { warnings: Seq::empty(), log: t.sink.log }, m.role, base),
    };
    message_is_put(st, m, mi, ci, as_text, m.content.len());
    if let Ok(r) = message_parts(st, m, mi, ci, as_text, m.content.len()) {
        parts_grow(st, m, mi, ci, as_text, m.content.len());
        shell_is_filled(side, c.1, c.2, r.parts);
        let known = content_keys();
        let head = shell(side, r.parts);
        assert(within(head, known)) by {
            assert forall|i: int| 0 <= i < head.len() implies known.contains((#[trigger] head[i]).0) by {
                assert(head[i].0 == known[i]);
            }
        }
        known_are_apart(head, ns, known);
        apart_data_goes_to_the_back(head, c.2, ns, ns.len());
        merge_stays_clean(c.2, ns, ns.len());
        merged_data_avoids(c.2, ns, known, ns.len());
        if ns.len() == 0 {
            assert(merged(c.2, ns) == c.2);
        }
        let now = turn_step(t, m, mi, as_text)->Ok_0;
        let next: CurrentV = (side, r.parts, merged(c.2, ns));
        assert(extra_merged(
            m.extra,
            GOOGLE_GENERATE_CONTENT@,
            with_member(content, "parts"@, JsonV::Array(r.parts)),
        ) == content_json(next));
        if joins {
            assert(now.contents =~= p.done.push(content_json(next)));
        } else {
            assert(now.contents =~= t.contents.push(content_json(next)));
        }
    }
}

/// The progress that messages make, from `from` on.
pub open spec fn moved(msgs: Seq<MessageV>, from: nat, as_text: bool, n: nat) -> Option<ProgressV>
    decreases n,
{
    if n <= from || n > msgs.len() {
        Some(fresh())
    } else {
        match moved(msgs, from, as_text, (n - 1) as nat) {
            None => None,
            Some(p) => {
                let m = msgs[n - 1];
                advanced(p, side_of(m.role), message_blocks(m), extra_ns(m.extra, GOOGLE_GENERATE_CONTENT@), as_text)
            },
        }
    }
}

/// The turns of messages are where their progress is.
pub proof fn messages_move(t: TurnsV, msgs: Seq<MessageV>, from: nat, as_text: bool, n: nat)
    requires
        n <= msgs.len(),
        stands(t, fresh()),
        forall|i: int| from <= i < msgs.len() ==> carried(#[trigger] msgs[i]),
    ensures
        match turns(t, msgs, from, as_text, n) {
            Ok(now) => match moved(msgs, from, as_text, n) {
                Some(q) => stands(now, q),
                None => false,
            },
            Err(_) => moved(msgs, from, as_text, n) is None,
        },
    decreases n,
{
    if n > from {
        messages_move(t, msgs, from, as_text, (n - 1) as nat);
        assert(carried(msgs[n - 1]));
        if let Ok(prev) = turns(t, msgs, from, as_text, (n - 1) as nat) {
            let p = moved(msgs, from, as_text, (n - 1) as nat)->0;
            message_moves(prev, p, msgs[n - 1], (n - 1) as nat, as_text);
        }
    }
}

/// Messages that are the same up to `n` make the same progress.
proof fn moved_prefix(a: Seq<MessageV>, b: Seq<MessageV>, from: nat, as_text: bool, n: nat)
    requires
        n <= a.len() <= b.len(),
        forall|i: int| 0 <= i < a.len() ==> (#[trigger] a[i]) == b[i],
    ensures
        moved(a, from, as_text, n) == moved(b, from, as_text, n),
    decreases n,
{
    if n > from {
        moved_prefix(a, b, from, as_text, (n - 1) as nat);
        assert(a[n - 1] == b[n - 1]);
    }
}

/// A content whose parts stay, with clean data of its own.
pub open spec fn content_stays(c: CurrentV, as_text: bool) -> bool {
    &&& forall|i: int| 0 <= i < c.1.len() ==> part_stays(c.0, #[trigger] c.1[i], as_text)
    &&& clean(c.2)
    &&& avoids(c.2, content_keys())
}

/// Contents whose sides alternate, and which stay.
pub open spec fn settled_contents(cs: Seq<CurrentV>, as_text: bool) -> bool {
    &&& forall|i: int| 0 <= i < cs.len() ==> content_stays(#[trigger] cs[i], as_text)
    &&& forall|i: int| 0 < i < cs.len() ==> (#[trigger] cs[i]).0 != cs[i - 1].0
}

/// The contents as JSON.
pub open spec fn contents_json(cs: Seq<CurrentV>) -> Seq<JsonV> {
    Seq::new(cs.len(), |i: int| content_json(cs[i]))
}

/// The progress has come to these contents.
pub open spec fn comes_to(p: ProgressV, cs: Seq<CurrentV>) -> bool {
    match p.current {
        Some(c) => cs.len() > 0 && cs.last() == c && p.done == contents_json(cs.drop_last()),
        None => cs.len() == 0 && p.done.len() == 0,
    }
}

/// Blocks of a message whose parts stay.
pub open spec fn message_steady(m: MessageV, as_text: bool) -> bool {
    forall|i: int, names: ObjV|
        #![trigger m.content[i], written(m.content[i], names, as_text)]
        0 <= i < m.content.len() && written(m.content[i], names, as_text) is Some ==> part_stays(
            side_of(m.role),
            written(m.content[i], names, as_text)->0,
            as_text,
        )
}

proof fn blocks_stay(st: PartStateV, m: MessageV, as_text: bool, n: nat)
    requires
        n <= m.content.len(),
        carried(m),
        message_steady(m, as_text),
        forall|i: int| 0 <= i < st.0.len() ==> part_stays(side_of(m.role), #[trigger] st.0[i], as_text),
    ensures
        match put_blocks(st, message_blocks(m), as_text, n) {
            Some((parts, _)) => forall|i: int|
                0 <= i < parts.len() ==> part_stays(side_of(m.role), #[trigger] parts[i], as_text),
            None => true,
        },
    decreases n,
{
    if n > 0 {
        blocks_stay(st, m, as_text, (n - 1) as nat);
        if let Some(prev) = put_blocks(st, message_blocks(m), as_text, (n - 1) as nat) {
            let b = m.content[n - 1];
            assert(native(b));
            step_pushes(prev, b, as_text);
            if let Some((parts, names)) = put_blocks(st, message_blocks(m), as_text, n) {
                assert(parts == prev.0.push(written(b, prev.1, as_text)->0));
                assert forall|i: int| 0 <= i < parts.len() implies part_stays(
                    side_of(m.role),
                    #[trigger] parts[i],
                    as_text,
                ) by {
                    if i < prev.0.len() {
                        assert(parts[i] == prev.0[i]);
                    }
                }
            }
        }
    }
}

/// Messages whose parts stay come to contents that stay.
pub proof fn progress_settles(msgs: Seq<MessageV>, from: nat, as_text: bool, n: nat) -> (cs: Seq<CurrentV>)
    requires
        n <= msgs.len(),
        forall|i: int| from <= i < msgs.len() ==> carried(#[trigger] msgs[i]) && message_steady(msgs[i], as_text),
    ensures
        match moved(msgs, from, as_text, n) {
            Some(p) => settled_contents(cs, as_text) && comes_to(p, cs),
            None => true,
        },
    decreases n,
{
    let none = Seq::<(Seq<char>, JsonV)>::empty();
    if n <= from {
        Seq::empty()
    } else {
        let before = progress_settles(msgs, from, as_text, (n - 1) as nat);
        match moved(msgs, from, as_text, n) {
            Some(q) => {
                let p = moved(msgs, from, as_text, (n - 1) as nat)->0;
                let m = msgs[n - 1];
                assert(carried(m) && message_steady(m, as_text));
                let side = side_of(m.role);
                let ns = extra_ns(m.extra, GOOGLE_GENERATE_CONTENT@);
                let joins = p.current is Some && (p.current->0).0 == side;
                let c: CurrentV = if joins { p.current->0 } else { (side, Seq::empty(), none) };
                if joins {
                    assert(content_stays(before[before.len() - 1], as_text));
                }
                blocks_stay((c.1, p.names), m, as_text, m.content.len());
                assert(clean(none)) by {
                    clean_member_by_member(none);
                }
                merge_stays_clean(c.2, ns, ns.len());
                merged_data_avoids(c.2, ns, content_keys(), ns.len());
                let next = q.current->0;
                assert(content_stays(next, as_text));
                let cs = if joins { before.drop_last().push(next) } else { before.push(next) };
                assert(cs.drop_last() =~= if joins { before.drop_last() } else { before });
                assert forall|i: int| 0 <= i < cs.len() implies content_stays(#[trigger] cs[i], as_text) by {
                    if i < cs.len() - 1 {
                        assert(cs[i] == before[i]);
                    }
                }
                assert forall|i: int| 0 < i < cs.len() implies (#[trigger] cs[i]).0 != cs[i - 1].0 by {
                    if i < cs.len() - 1 {
                        assert(cs[i] == before[i] && cs[i - 1] == before[i - 1]);
                    } else if joins {
                        assert(before[i].0 != before[i - 1].0);
                    }
                }
                if !joins && before.len() > 0 {
                    assert(contents_json(before) =~= contents_json(before.drop_last()).push(content_json(before.last())));
                }
                if before.len() == 0 {
                    assert(q.done =~= contents_json(cs.drop_last()));
                }
                cs
            },
            None => before,
        }
    }
}

/// The side of a content.
pub open spec fn content_side(c: ContentV) -> Side {
    if c.role == Some("model"@) {
        Side::Model
    } else {
        Side::User
    }
}

/// A content whose parts keep their canonical form.
pub open spec fn steady_content(c: ContentV, as_text: bool) -> bool {
    forall|i: int| 0 <= i < c.parts.len() ==> steady_part(content_side(c), #[trigger] c.parts[i], as_text)
}

/// A block of one side whose part stays.
spec fn good_block(side: Side, b: ContentBlockV, as_text: bool) -> bool {
    &&& native(b)
    &&& forall|names: ObjV| #[trigger]
        written(b, names, as_text) is Some ==> part_stays(side, written(b, names, as_text)->0, as_text)
}

proof fn part_is_good(side: Side, p: PartV, as_text: bool)
    requires
        steady_part(side, p, as_text),
    ensures
        good_block(side, side_block(side, p).1, as_text),
{
    parts_are_native(side, p);
}

proof fn turn_part_anywhere(p: PartV, loc: Seq<char>, ws: Seq<ConversionWarningV>)
    ensures
        (turn_part(p, loc, ws).0, turn_part(p, loc, ws).1) == side_block(Side::User, p),
        part_block(classified(p, loc, ws).0) == side_block(Side::Model, p).1,
{
}

proof fn model_is_read(parts: Seq<PartV>, base: Seq<char>, ws: Seq<ConversionWarningV>, n: nat)
    requires
        n <= parts.len(),
    ensures
        model_blocks(parts, base, ws, n).0 == Seq::new(n, |i: int| side_block(Side::Model, parts[i]).1),
    decreases n,
{
    if n > 0 {
        model_is_read(parts, base, ws, (n - 1) as nat);
        let ws1 = model_blocks(parts, base, ws, (n - 1) as nat).1;
        turn_part_anywhere(parts[n - 1], base + "/parts/"@ + decimal((n - 1) as nat), ws1);
    }
    assert(model_blocks(parts, base, ws, n).0 =~= Seq::new(n, |i: int| side_block(Side::Model, parts[i]).1));
}

/// The blocks of user-side parts, each with its role.
spec fn user_blocks(parts: Seq<PartV>) -> Seq<(Role, ContentBlockV)> {
    Seq::new(
        parts.len(),
        |i: int| (block_role(Side::User, side_block(Side::User, parts[i]).0), side_block(Side::User, parts[i]).1),
    )
}

proof fn run_step_adds(runs: Seq<RunV>, is_tool: bool, b: ContentBlockV)
    ensures
        ({
            let next = run_step(runs, is_tool, b);
            run_blocks(next, next.len()) == run_blocks(runs, runs.len()).push((block_role(Side::User, is_tool), b))
        }),
{
    let next = run_step(runs, is_tool, b);
    let role = block_role(Side::User, is_tool);
    if runs.len() > 0 && runs.last().is_tool == is_tool {
        run_blocks_prefix(runs, next, (runs.len() - 1) as nat);
    } else {
        run_blocks_prefix(runs, next, runs.len());
    }
    assert(run_blocks(next, next.len()) =~= run_blocks(runs, runs.len()).push((role, b)));
}

proof fn runs_are_read(parts: Seq<PartV>, base: Seq<char>, ws: Seq<ConversionWarningV>, n: nat)
    requires
        n <= parts.len(),
    ensures
        ({
            let runs = part_runs(parts, base, ws, n).0;
            &&& run_blocks(runs, runs.len()) == user_blocks(parts).take(n as int)
            &&& n > 0 ==> runs.len() > 0
            &&& n == 0 ==> runs.len() == 0
        }),
    decreases n,
{
    if n == 0 {
        assert(user_blocks(parts).take(0) =~= Seq::<(Role, ContentBlockV)>::empty());
    } else {
        runs_are_read(parts, base, ws, (n - 1) as nat);
        let (prev, ws1) = part_runs(parts, base, ws, (n - 1) as nat);
        turn_part_anywhere(parts[n - 1], base + "/parts/"@ + decimal((n - 1) as nat), ws1);
        let (t, b) = side_block(Side::User, parts[n - 1]);
        run_step_adds(prev, t, b);
        assert(user_blocks(parts).take(n as int) =~= user_blocks(parts).take(n - 1).push(user_blocks(parts)[n - 1]));
    }
}

proof fn run_blocks_grow(runs: Seq<RunV>, n: nat, m: nat)
    requires
        n <= m <= runs.len(),
    ensures
        run_blocks(runs, n).len() <= run_blocks(runs, m).len(),
        forall|i: int| 0 <= i < run_blocks(runs, n).len() ==> run_blocks(runs, m)[i] == #[trigger] run_blocks(runs, n)[i],
    decreases m - n,
{
    if n < m {
        run_blocks_grow(runs, n, (m - 1) as nat);
        let a = run_blocks(runs, n);
        let b = run_blocks(runs, (m - 1) as nat);
        let c = run_blocks(runs, m);
        assert forall|i: int| 0 <= i < a.len() implies c[i] == #[trigger] a[i] by {
            assert(b[i] == a[i]);
        }
    }
}

/// The blocks of run `j` among all of them.
proof fn run_in_place(runs: Seq<RunV>, j: int, k: int)
    requires
        0 <= j < runs.len(),
        0 <= k < runs[j].blocks.len(),
    ensures
        ({
            let at = run_blocks(runs, j as nat).len() + k;
            let all = run_blocks(runs, runs.len());
            at < all.len() && all[at] == (run_role(runs[j]), runs[j].blocks[k])
        }),
{
    run_blocks_grow(runs, (j + 1) as nat, runs.len());
    let part = run_blocks(runs, (j + 1) as nat);
    let at = run_blocks(runs, j as nat).len() + k;
    assert(part[at] == (run_role(runs[j]), runs[j].blocks[k]));
    assert(run_blocks(runs, runs.len())[at] == part[at]);
}

/// The messages of a content whose parts keep their canonical form.
proof fn content_is_steady(c: ContentV, ci: nat, group: u64, ws: Seq<ConversionWarningV>, as_text: bool)
    requires
        steady_content(c, as_text),
        avoids(c.extra, content_keys()),
    ensures
        ({
            let ms = content_messages(c, ci, group, ws).0;
            forall|i: int| 0 <= i < ms.len() ==> carried(#[trigger] ms[i]) && message_steady(ms[i], as_text)
        }),
{
    let base = "/contents/"@ + decimal(ci);
    let ms = content_messages(c, ci, group, ws).0;
    fields_are_merged(GOOGLE_GENERATE_CONTENT@, Seq::empty(), c.extra);
    non_null_avoids(c.extra, content_keys());
    nothing_is_namespaced();
    if c.role == Some("model"@) {
        model_is_read(c.parts, base, ws, c.parts.len());
        let m = ms[0];
        assert forall|i: int| 0 <= i < m.content.len() implies good_block(Side::Model, #[trigger] m.content[i], as_text) by {
            assert(steady_part(content_side(c), c.parts[i], as_text));
            part_is_good(Side::Model, c.parts[i], as_text);
        }
        good_message(m, Side::Model, as_text);
    } else {
        let ws1 = if c.role is Some && c.role != Some("user"@) {
            gp_noted(
                ws,
                WarningCode::MalformedField,
                base + "/role"@,
                "unknown content role `"@ + c.role->0 + "`; treated as user"@,
            )
        } else {
            ws
        };
        let runs = part_runs(c.parts, base, ws1, c.parts.len()).0;
        runs_are_read(c.parts, base, ws1, c.parts.len());
        let all = user_blocks(c.parts);
        assert(all.take(c.parts.len() as int) =~= all);
        assert forall|i: int| 0 <= i < ms.len() implies carried(#[trigger] ms[i]) && message_steady(ms[i], as_text) by {
            let m = ms[i];
            assert forall|k: int| 0 <= k < m.content.len() implies good_block(
                Side::User,
                #[trigger] m.content[k],
                as_text,
            ) by {
                run_in_place(runs, i, k);
                let at = run_blocks(runs, i as nat).len() + k;
                assert(all[at].1 == m.content[k]);
                assert(steady_part(content_side(c), c.parts[at], as_text));
                part_is_good(Side::User, c.parts[at], as_text);
            }
            good_message(m, Side::User, as_text);
        }
    }
}

proof fn good_message(m: MessageV, side: Side, as_text: bool)
    requires
        side == side_of(m.role),
        forall|i: int| 0 <= i < m.content.len() ==> good_block(side, #[trigger] m.content[i], as_text),
        avoids(extra_ns(m.extra, GOOGLE_GENERATE_CONTENT@), content_keys()),
    ensures
        carried(m),
        message_steady(m, as_text),
{
    assert forall|i: int| 0 <= i < m.content.len() implies native(#[trigger] m.content[i]) by {
        assert(good_block(side, m.content[i], as_text));
    }
    assert forall|i: int, names: ObjV|
        #![trigger m.content[i], written(m.content[i], names, as_text)]
        0 <= i < m.content.len() && written(m.content[i], names, as_text) is Some implies part_stays(
        side_of(m.role),
        written(m.content[i], names, as_text)->0,
        as_text,
    ) by {
        assert(good_block(side, m.content[i], as_text));
    }
}

proof fn nothing_is_namespaced()
    ensures
        extra_ns(Seq::empty(), GOOGLE_GENERATE_CONTENT@) == Seq::<(Seq<char>, JsonV)>::empty(),
{
    let none = Seq::<(Seq<char>, JsonV)>::empty();
    fields_are_merged(GOOGLE_GENERATE_CONTENT@, none, none);
    assert(non_null(none, 0) =~= none);
}

/// All contents keep their canonical form.
pub open spec fn steady_contents(a: Seq<ContentV>, as_text: bool) -> bool {
    forall|i: int| 0 <= i < a.len() ==> steady_content(#[trigger] a[i], as_text)
}

/// The messages of contents that keep their canonical form.
pub proof fn messages_are_steady(
    start: Seq<MessageV>,
    a: Seq<ContentV>,
    ws: Seq<ConversionWarningV>,
    as_text: bool,
    n: nat,
)
    requires
        n <= a.len(),
        steady_contents(a, as_text),
        forall|i: int| 0 <= i < a.len() ==> avoids((#[trigger] a[i]).extra, content_keys()),
    ensures
        ({
            let msgs = all_messages(start, a, ws, n).0;
            &&& msgs.len() >= start.len()
            &&& forall|i: int| 0 <= i < start.len() ==> msgs[i] == #[trigger] start[i]
            &&& forall|i: int|
                start.len() <= i < msgs.len() ==> carried(#[trigger] msgs[i]) && message_steady(msgs[i], as_text)
        }),
    decreases n,
{
    if n > 0 {
        messages_are_steady(start, a, ws, as_text, (n - 1) as nat);
        let (prev, group, ws1) = all_messages(start, a, ws, (n - 1) as nat);
        assert(steady_content(a[n - 1], as_text));
        content_is_steady(a[n - 1], (n - 1) as nat, group, ws1, as_text);
        let more = content_messages(a[n - 1], (n - 1) as nat, group, ws1).0;
        let msgs = all_messages(start, a, ws, n).0;
        assert(msgs == prev + more);
        assert forall|i: int| start.len() <= i < msgs.len() implies carried(#[trigger] msgs[i]) && message_steady(
            msgs[i],
            as_text,
        ) by {
            if i < prev.len() {
                assert(msgs[i] == prev[i]);
            } else {
                assert(msgs[i] == more[i - prev.len()]);
            }
        }
        assert forall|i: int| 0 <= i < start.len() implies msgs[i] == #[trigger] start[i] by {
            assert(msgs[i] == prev[i]);
        }
    }
}

/// A content in its canonical form, as it is read again.
pub open spec fn content_again(c: CurrentV) -> ContentV {
    ContentV {
        role: Some(side_name(c.0)),
        parts: Seq::new(c.1.len(), |i: int| decode_part(c.1[i])->Ok_0),
        extra: c.2,
    }
}

proof fn parts_are_decoded(c: CurrentV, as_text: bool, n: nat)
    requires
        n <= c.1.len(),
        content_stays(c, as_text),
    ensures
        decode_vec_part(c.1, n) == Ok::<Seq<PartV>, Seq<char>>(content_again(c).parts.take(n as int)),
    decreases n,
{
    let ps = content_again(c).parts;
    if n == 0 {
        assert(ps.take(0) =~= Seq::<PartV>::empty());
    } else {
        parts_are_decoded(c, as_text, (n - 1) as nat);
        assert(part_stays(c.0, c.1[n - 1], as_text));
        assert(ps.take(n as int) =~= ps.take(n - 1).push(ps[n - 1]));
    }
}

proof fn content_is_decoded(c: CurrentV, as_text: bool)
    requires
        content_stays(c, as_text),
    ensures
        decode_content(content_json(c)) == Ok::<ContentV, Seq<char>>(content_again(c)),
{
    content_names();
    parts_are_decoded(c, as_text, c.1.len());
    assert(content_again(c).parts.take(c.1.len() as int) =~= content_again(c).parts);
    let known = content_keys();
    let h = shell(c.0, c.1);
    assert(within(h, known)) by {
        assert forall|i: int| 0 <= i < h.len() implies known.contains((#[trigger] h[i]).0) by {
            assert(h[i].0 == known[i]);
        }
    }
    unmodeled_members_are_kept(h, c.2, known);
    there(h, c.2, "role"@, 0);
    there(h, c.2, "parts"@, 1);
}

/// The contents as they are read again.
pub open spec fn contents_again(cs: Seq<CurrentV>) -> Seq<ContentV> {
    Seq::new(cs.len(), |i: int| content_again(cs[i]))
}

pub proof fn contents_are_decoded(cs: Seq<CurrentV>, as_text: bool, n: nat)
    requires
        n <= cs.len(),
        settled_contents(cs, as_text),
    ensures
        decode_vec_content(contents_json(cs), n) == Ok::<Seq<ContentV>, Seq<char>>(
            contents_again(cs).take(n as int),
        ),
    decreases n,
{
    let a = contents_again(cs);
    if n == 0 {
        assert(a.take(0) =~= Seq::<ContentV>::empty());
    } else {
        contents_are_decoded(cs, as_text, (n - 1) as nat);
        assert(content_stays(cs[n - 1], as_text));
        content_is_decoded(cs[n - 1], as_text);
        assert(a.take(n as int) =~= a.take(n - 1).push(a[n - 1]));
    }
}

/// Blocks that were read from parts that stay are put as these parts.
proof fn parts_are_put(
    st: PartStateV,
    side: Side,
    blocks: Seq<(Role, ContentBlockV)>,
    vs: Seq<JsonV>,
    as_text: bool,
    n: nat,
)
    requires
        n <= blocks.len() == vs.len(),
        forall|i: int| 0 <= i < vs.len() ==> part_stays(side, #[trigger] vs[i], as_text),
        forall|i: int|
            0 <= i < vs.len() ==> (#[trigger] blocks[i]) == (
                block_role(side, side_block(side, decode_part(vs[i])->Ok_0).0),
                side_block(side, decode_part(vs[i])->Ok_0).1,
            ),
    ensures
        match put_blocks(st, blocks, as_text, n) {
            Some((parts, _)) => parts == st.0 + vs.take(n as int),
            None => false,
        },
    decreases n,
{
    if n == 0 {
        assert(st.0 + vs.take(0) =~= st.0);
    } else {
        parts_are_put(st, side, blocks, vs, as_text, (n - 1) as nat);
        let prev = put_blocks(st, blocks, as_text, (n - 1) as nat)->0;
        let v = vs[n - 1];
        assert(part_stays(side, v, as_text));
        let p = decode_part(v)->Ok_0;
        let (t, b) = side_block(side, p);
        assert(blocks[n - 1] == (block_role(side, t), b));
        parts_are_native(side, p);
        step_pushes(prev, b, as_text);
        assert(written(b, prev.1, as_text) == Some(v));
        assert((st.0 + vs.take(n - 1)).push(v) =~= st.0 + vs.take(n as int));
    }
}

proof fn clean_data_is_namespaced(ns: ObjV)
    requires
        clean(ns),
    ensures
        extra_ns(g_leftover(ns), GOOGLE_GENERATE_CONTENT@) == ns,
        merged(Seq::empty(), ns) == ns,
        merged(ns, Seq::empty()) == ns,
{
    namespace_holds_its_members(GOOGLE_GENERATE_CONTENT@, ns);
    clean_data_is_swept(ns);
}

/// The progress is in the content, with its first parts.
spec fn stands_in(p: ProgressV, done: Seq<JsonV>, c: CurrentV) -> bool {
    p.done == done && p.current == Some(c)
}

/// The runs of a content that is read again bring its parts back.
#[verifier::spinoff_prover]
#[verifier::rlimit(40)]
proof fn runs_come_back(
    msgs: Seq<MessageV>,
    from: nat,
    c: CurrentV,
    runs: Seq<RunV>,
    group: u64,
    as_text: bool,
    first: nat,
    done: Seq<JsonV>,
    j: nat,
)
    requires
        c.0 == Side::User,
        content_stays(c, as_text),
        from <= first,
        first + runs.len() <= msgs.len(),
        1 <= j <= runs.len(),
        run_blocks(runs, runs.len()) == user_blocks(content_again(c).parts),
        forall|i: int|
            0 <= i < runs.len() ==> msgs[first + i] == #[trigger] turn_messages(runs, group, g_leftover(c.2))[i],
        match moved(msgs, from, as_text, first) {
            Some(p) => contents_of(p) == done && (p.current is Some ==> (p.current->0).0 == Side::Model),
            None => false,
        },
    ensures
        match moved(msgs, from, as_text, first + j) {
            Some(p) => stands_in(p, done, (Side::User, c.1.take(run_blocks(runs, j).len() as int), c.2)),
            None => false,
        },
    decreases j,
{
    let none = Seq::<(Seq<char>, JsonV)>::empty();
    clean_data_is_namespaced(c.2);
    nothing_is_namespaced();
    let k = (j - 1) as nat;
    let m = msgs[(first + k) as int];
    assert(m == turn_messages(runs, group, g_leftover(c.2))[k as int]);
    let g = if runs.len() > 1 { Some(group) } else { None };
    assert(m == run_message(runs[k as int], k as int, g, g_leftover(c.2)));
    let a = run_blocks(runs, k).len();
    let b = run_blocks(runs, j).len();
    run_blocks_grow(runs, j, runs.len());
    let all = run_blocks(runs, runs.len());
    assert(b == a + m.content.len());
    assert(all.len() == c.1.len());
    let vs = c.1.subrange(a as int, b as int);
    let blocks = message_blocks(m);
    assert forall|i: int| 0 <= i < vs.len() implies part_stays(Side::User, #[trigger] vs[i], as_text) && blocks[i] == (
        block_role(Side::User, side_block(Side::User, decode_part(vs[i])->Ok_0).0),
        side_block(Side::User, decode_part(vs[i])->Ok_0).1,
    ) by {
        assert(vs[i] == c.1[a + i]);
        assert(part_stays(c.0, c.1[a + i], as_text));
        run_in_place(runs, k as int, i);
    }
    if k == 0 {
        let p = moved(msgs, from, as_text, first)->0;
        parts_are_put((Seq::empty(), p.names), Side::User, blocks, vs, as_text, blocks.len());
        assert(run_blocks(runs, 0).len() == 0);
        assert(vs.take(vs.len() as int) =~= c.1.take(b as int));
        assert(Seq::<JsonV>::empty() + c.1.take(b as int) =~= c.1.take(b as int));
    } else {
        runs_come_back(msgs, from, c, runs, group, as_text, first, done, k);
        let p = moved(msgs, from, as_text, first + k)->0;
        parts_are_put((c.1.take(a as int), p.names), Side::User, blocks, vs, as_text, blocks.len());
        assert(vs.take(vs.len() as int) =~= vs);
        assert(c.1.take(a as int) + vs =~= c.1.take(b as int));
    }
}

/// A content that is read again comes back as it was.
proof fn content_comes_back(
    msgs: Seq<MessageV>,
    from: nat,
    c: CurrentV,
    ci: nat,
    group: u64,
    ws: Seq<ConversionWarningV>,
    as_text: bool,
    first: nat,
    done: Seq<JsonV>,
)
    requires
        content_stays(c, as_text),
        from <= first,
        ({
            let ms = content_messages(content_again(c), ci, group, ws).0;
            &&& first + ms.len() == msgs.len()
            &&& forall|i: int| 0 <= i < ms.len() ==> msgs[first + i] == #[trigger] ms[i]
        }),
        match moved(msgs, from, as_text, first) {
            Some(p) => contents_of(p) == done && (p.current is Some ==> (p.current->0).0 != c.0),
            None => false,
        },
    ensures
        match moved(msgs, from, as_text, msgs.len()) {
            Some(p) => stands_in(p, done, c),
            None => false,
        },
{
    content_names();
    let w = content_again(c);
    let ms = content_messages(w, ci, group, ws).0;
    let base = "/contents/"@ + decimal(ci);
    clean_data_is_namespaced(c.2);
    let p = moved(msgs, from, as_text, first)->0;
    if c.0 == Side::Model {
        model_is_read(w.parts, base, ws, w.parts.len());
        assert(msgs[first as int] == ms[0]);
        let m = ms[0];
        let blocks = message_blocks(m);
        assert forall|i: int| 0 <= i < c.1.len() implies part_stays(Side::Model, #[trigger] c.1[i], as_text)
            && blocks[i] == (
            block_role(Side::Model, side_block(Side::Model, decode_part(c.1[i])->Ok_0).0),
            side_block(Side::Model, decode_part(c.1[i])->Ok_0).1,
        ) by {
            assert(part_stays(c.0, c.1[i], as_text));
        }
        parts_are_put((Seq::empty(), p.names), Side::Model, blocks, c.1, as_text, blocks.len());
        assert(Seq::<JsonV>::empty() + c.1.take(c.1.len() as int) =~= c.1);
    } else {
        let runs = part_runs(w.parts, base, ws, w.parts.len()).0;
        runs_are_read(w.parts, base, ws, w.parts.len());
        assert(user_blocks(w.parts).take(w.parts.len() as int) =~= user_blocks(w.parts));
        if runs.len() == 0 {
            assert(c.1 =~= Seq::<JsonV>::empty());
            assert(msgs[first as int] == ms[0]);
            let m = ms[0];
            assert(message_blocks(m) =~= Seq::<(Role, ContentBlockV)>::empty());
            assert(put_blocks((Seq::empty(), p.names), message_blocks(m), as_text, 0) == Some(
                (Seq::<JsonV>::empty(), p.names),
            ));
        } else {
            runs_come_back(msgs, from, c, runs, (group + 1) as u64, as_text, first, done, runs.len());
            assert(c.1.take(c.1.len() as int) =~= c.1);
        }
    }
}

/// Contents that are read again come back as they were.
pub proof fn contents_come_back(
    start: Seq<MessageV>,
    cs: Seq<CurrentV>,
    ws: Seq<ConversionWarningV>,
    as_text: bool,
    n: nat,
)
    requires
        n <= cs.len(),
        settled_contents(cs, as_text),
    ensures
        ({
            let msgs = all_messages(start, contents_again(cs), ws, n).0;
            &&& msgs.len() >= start.len()
            &&& match moved(msgs, start.len(), as_text, msgs.len()) {
                Some(p) => contents_of(p) == contents_json(cs.take(n as int)) && (n > 0 ==> p.current is Some
                    && (p.current->0).0 == cs[n - 1].0) && (n == 0 ==> p.current is None),
                None => false,
            }
        }),
    decreases n,
{
    if n == 0 {
        assert(contents_json(cs.take(0)) =~= Seq::<JsonV>::empty());
    } else {
        let k = (n - 1) as nat;
        contents_come_back(start, cs, ws, as_text, k);
        let a = contents_again(cs);
        let (prev, group, ws1) = all_messages(start, a, ws, k);
        let (more, grouped, ws2) = content_messages(a[k as int], k, group, ws1);
        let msgs = all_messages(start, a, ws, n).0;
        assert(msgs == prev + more);
        moved_prefix(prev, msgs, start.len(), as_text, prev.len());
        let c = cs[k as int];
        assert(content_stays(cs[k as int], as_text));
        assert(a[k as int] == content_again(c));
        if k > 0 {
            assert(cs[k as int].0 != cs[k - 1].0);
        }
        assert forall|i: int| 0 <= i < more.len() implies msgs[prev.len() + i] == #[trigger] more[i] by {}
        let done = contents_json(cs.take(k as int));
        content_comes_back(msgs, start.len(), c, k, group, ws1, as_text, prev.len(), done);
        assert(contents_json(cs.take(n as int)) =~= done.push(content_json(c)));
    }
}

/// Contents that were read keep members that a content does not model apart.
pub proof fn contents_avoid(a: Seq<JsonV>, n: nat)
    requires
        n <= a.len(),
        decode_vec_content(a, n) is Ok,
    ensures
        forall|i: int|
            0 <= i < decode_vec_content(a, n)->Ok_0.len() ==> avoids(
                (#[trigger] decode_vec_content(a, n)->Ok_0[i]).extra,
                content_keys(),
            ),
    decreases n,
{
    if n > 0 {
        contents_avoid(a, (n - 1) as nat);
        if let JsonV::Object(o) = a[n - 1] {
            unknown_avoids(o, content_keys(), o.len());
        }
    }
}

/// Contents in their canonical form are steady when they are read again.
pub proof fn parts_are_steady(cs: Seq<CurrentV>, as_text: bool)
    requires
        settled_contents(cs, as_text),
    ensures
        steady_contents(contents_again(cs), as_text),
        forall|i: int| 0 <= i < cs.len() ==> avoids((#[trigger] contents_again(cs)[i]).extra, content_keys()),
{
    content_names();
    let a = contents_again(cs);
    assert forall|i: int| 0 <= i < a.len() implies steady_content(#[trigger] a[i], as_text) && avoids(
        a[i].extra,
        content_keys(),
    ) by {
        let c = cs[i];
        assert(content_stays(cs[i], as_text));
        assert(content_side(a[i]) == c.0);
        assert forall|k: int| 0 <= k < a[i].parts.len() implies steady_part(content_side(a[i]), #[trigger] a[i].parts[k], as_text) by {
            let v = c.1[k];
            assert(part_stays(c.0, c.1[k], as_text));
            let b = side_block(c.0, decode_part(v)->Ok_0).1;
            assert forall|names: ObjV| #[trigger] written(b, names, as_text) is Some implies part_stays(
                c.0,
                written(b, names, as_text)->0,
                as_text,
            ) by {
                assert(written(b, names, as_text) == Some(v));
            }
        }
    }
}

} // verus!
