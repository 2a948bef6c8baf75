//! Law: a request body that went through the IR once stays as it is from then
//! on. Neighbouring contents of one side become one content.

use vstd::prelude::*;
use crate::formats::google_generate_content::round_trip::plain_block;
use crate::convert::{ConversionWarningV, ConvertOptionsV, OrphanToolCalls};
use crate::error::ConversionErrorV;
use crate::format::GOOGLE_GENERATE_CONTENT;
use crate::formats::google_generate_content::from_ir::{downgraded, google_body, google_fields, google_prepared, leading_system, new_turn, parts_of, prompt_parts, side_of, system_instruction, system_messages, tool_entries, turn_step, turns, turns_start, Side, ToolsV, TurnsV};
use crate::formats::google_generate_content::parse_parts::g_leftover;
use crate::formats::google_generate_content::parts::{allowed, block_cache, hint_dropped, message_parts, part_step, result_blocks, PartsV};
use crate::formats::google_generate_content::round_trip_history::{block_is_read, content_names, data_of, exchange_is_in_place, history_grows, history_of, messages_of, plain_blocks, plain_exchange, plain_runs, shell, side_of_exchange, sides_differ, stands_at, ExchangeV};
use crate::formats::google_generate_content::round_trip_request::{nothing_leads, plain_contents, plain_request, request_round_trip};
use crate::formats::google_generate_content::to_ir::google_parsed_request;
use crate::formats::google_generate_content::types::content_keys;
use crate::ir::{extra_get, extra_merged, extra_ns, ContentBlockV, MessageV, RequestV, Role, ToolOutputBlockV, ToolV};
use crate::json::{obj_set, with_member, JsonV, ObjV};
use crate::merge::merged;
use crate::namespaces::{avoids, clean, first_named_is_read, namespace_holds_its_members, within};
use crate::sink::{empty_sink, SinkV};
use crate::sweep::{apart_data_goes_to_the_back, clean_data_is_swept, known_are_apart, merge_stays_clean, merged_data_avoids};
use crate::text::decimal;
use crate::turns::{kinds_differ, run_blocks, run_blocks_prefix, run_message, run_role, RunV};

verus! {

/// Parts and call names.
pub type PartStateV = (Seq<JsonV>, ObjV);

/// What a step makes of parts and call names.
pub open spec fn step_view(r: Result<PartsV, ConversionErrorV>) -> Option<PartStateV> {
    match r {
        Ok(p) => Some((p.parts, p.names)),
        Err(_) => None,
    }
}

pub open spec fn bare(st: PartStateV) -> PartsV {
    PartsV { parts: st.0, names: st.1, sink: empty_sink() }
}

proof fn results_anywhere(
    blocks: Seq<ToolOutputBlockV>,
    ptr: Seq<char>,
    s: SinkV,
    ptr2: Seq<char>,
    s2: SinkV,
    n: nat,
)
    ensures
        ({
            let a = result_blocks(blocks, ptr, s, n);
            let b = result_blocks(blocks, ptr2, s2, n);
            a.texts == b.texts && a.media == b.media
        }),
    decreases n,
{
    if n > 0 && n <= blocks.len() {
        results_anywhere(blocks, ptr, s, ptr2, s2, (n - 1) as nat);
    }
}

/// A block becomes the same part wherever it stands.
pub proof fn step_anywhere(p: PartsV, b: ContentBlockV, ptr: Seq<char>, as_text: bool)
    ensures
        step_view(part_step(p, b, ptr, as_text)) == step_view(
            part_step(bare((p.parts, p.names)), b, Seq::empty(), as_text),
        ),
{
    match b {
        ContentBlockV::ToolResult { content, .. } => {
            let s = hint_dropped(
                p.sink,
                block_cache(b),
                ptr,
            );
            let s2 = hint_dropped(
                empty_sink(),
                block_cache(b),
                Seq::empty(),
            );
            results_anywhere(content, ptr, s, Seq::empty(), s2, content.len());
        },
        _ => {},
    }
}

/// The parts of the first `n` blocks, behind those that are there.
pub open spec fn put_blocks(st: PartStateV, blocks: Seq<(Role, ContentBlockV)>, as_text: bool, n: nat) -> Option<PartStateV>
    decreases n,
{
    if n == 0 || n > blocks.len() {
        Some(st)
    } else {
        match put_blocks(st, blocks, as_text, (n - 1) as nat) {
            None => None,
            Some(prev) => if allowed(blocks[n - 1].0, blocks[n - 1].1) {
                step_view(part_step(bare(prev), blocks[n - 1].1, Seq::empty(), as_text))
            } else {
                None
            },
        }
    }
}

/// The blocks of a message, each with its role.
pub open spec fn message_blocks(m: MessageV) -> Seq<(Role, ContentBlockV)> {
    Seq::new(m.content.len(), |i: int| (m.role, m.content[i]))
}

pub proof fn message_is_put(p: PartsV, m: MessageV, mi: nat, ci: nat, as_text: bool, n: nat)
    requires
        n <= m.content.len(),
    ensures
        step_view(message_parts(p, m, mi, ci, as_text, n)) == put_blocks(
            (p.parts, p.names),
            message_blocks(m),
            as_text,
            n,
        ),
    decreases n,
{
    if n > 0 {
        message_is_put(p, m, mi, ci, as_text, (n - 1) as nat);
        if let Ok(prev) = message_parts(p, m, mi, ci, as_text, (n - 1) as nat) {
            step_anywhere(
                prev,
                m.content[n - 1],
                "/contents/"@ + decimal(ci) + "/parts/"@ + decimal(prev.parts.len()),
                as_text,
            );
        }
    }
}

proof fn put_in_turn(
    st: PartStateV,
    a: Seq<(Role, ContentBlockV)>,
    b: Seq<(Role, ContentBlockV)>,
    as_text: bool,
    n: nat,
)
    requires
        n <= b.len(),
    ensures
        put_blocks(st, a + b, as_text, a.len() + n) == match put_blocks(st, a, as_text, a.len()) {
            Some(mid) => put_blocks(mid, b, as_text, n),
            None => None,
        },
    decreases n,
{
    if n == 0 {
        put_front(st, a, b, as_text, a.len());
    } else {
        put_in_turn(st, a, b, as_text, (n - 1) as nat);
        assert((a + b)[a.len() + n - 1] == b[n - 1]);
    }
}

proof fn put_front(st: PartStateV, a: Seq<(Role, ContentBlockV)>, b: Seq<(Role, ContentBlockV)>, as_text: bool, n: nat)
    requires
        n <= a.len(),
    ensures
        put_blocks(st, a + b, as_text, n) == put_blocks(st, a, as_text, n),
    decreases n,
{
    if n > 0 {
        put_front(st, a, b, as_text, (n - 1) as nat);
        assert((a + b)[n - 1] == a[n - 1]);
    }
}

/// The content in progress: its side, parts and provider data.
pub type CurrentV = (Side, Seq<JsonV>, ObjV);

/// The contents that are done, the one in progress, and the call names.
pub struct ProgressV {
    pub done: Seq<JsonV>,
    pub current: Option<CurrentV>,
    pub names: ObjV,
}

pub open spec fn content_json(c: CurrentV) -> JsonV {
    JsonV::Object(shell(c.0, c.1) + c.2)
}

pub open spec fn contents_of(p: ProgressV) -> Seq<JsonV> {
    match p.current {
        Some(c) => p.done.push(content_json(c)),
        None => p.done,
    }
}

/// The turns stand where the progress says.
pub open spec fn stands(t: TurnsV, p: ProgressV) -> bool {
    &&& t.contents == contents_of(p)
    &&& t.names == p.names
    &&& match p.current {
        Some(c) => t.last == Some(c.0) && clean(c.2) && avoids(c.2, content_keys()),
        None => t.last is None && p.done.len() == 0,
    }
}

/// Blocks and data of one side join the content in progress, or open one.
pub open spec fn advanced(p: ProgressV, side: Side, blocks: Seq<(Role, ContentBlockV)>, ns: ObjV, as_text: bool) -> Option<
    ProgressV,
> {
    let none = Seq::<(Seq<char>, JsonV)>::empty();
    let (done, c) = match p.current {
        Some(c) => if c.0 == side { (p.done, c) } else { (p.done.push(content_json(c)), (side, Seq::empty(), none)) },
        None => (p.done, (side, Seq::empty(), none)),
    };
    match put_blocks((c.1, p.names), blocks, as_text, blocks.len()) {
        Some((parts, names)) => Some(ProgressV { done, current: Some((side, parts, merged(c.2, ns))), names }),
        None => None,
    }
}

/// The data of a message of this format: clean, and apart from its members.
spec fn message_data(m: MessageV) -> bool {
    let ns = extra_ns(m.extra, GOOGLE_GENERATE_CONTENT@);
    clean(ns) && avoids(ns, content_keys())
}

pub proof fn shell_is_filled(side: Side, parts: Seq<JsonV>, ns: ObjV, more: Seq<JsonV>)
    ensures
        parts_of(JsonV::Object(shell(side, parts) + ns)) == parts,
        with_member(JsonV::Object(shell(side, parts) + ns), "parts"@, JsonV::Array(more)) == JsonV::Object(
            shell(side, more) + ns,
        ),
        new_turn(side) == JsonV::Object(shell(side, Seq::empty()) + Seq::<(Seq<char>, JsonV)>::empty()),
{
    content_names();
    let o = shell(side, parts) + ns;
    assert(o[0] == shell(side, parts)[0] && o[1] == shell(side, parts)[1]);
    first_named_is_read(o, "parts"@, 1);
    reveal(obj_set);
    assert(obj_set(o, "parts"@, JsonV::Array(more)) =~= shell(side, more) + ns);
    let none = Seq::<(Seq<char>, JsonV)>::empty();
    assert(shell(side, Seq::empty()) + none =~= shell(side, Seq::empty()));
}

/// One message advances the turns as its blocks and data do.
proof fn message_advances(t: TurnsV, p: ProgressV, m: MessageV, mi: nat, as_text: bool)
    requires
        stands(t, p),
        plain_blocks(m.role, m.content),
        message_data(m),
    ensures
        match turn_step(t, m, mi, as_text) {
            Ok(now) => match advanced(
                p,
                side_of(m.role),
                message_blocks(m),
                extra_ns(m.extra, GOOGLE_GENERATE_CONTENT@),
                as_text,
            ) {
                Some(q) => stands(now, q),
                None => false,
            },
            Err(_) => advanced(
                p,
                side_of(m.role),
                message_blocks(m),
                extra_ns(m.extra, GOOGLE_GENERATE_CONTENT@),
                as_text,
            ) is None,
        },
{
    content_names();
    let none = Seq::<(Seq<char>, JsonV)>::empty();
    let side = side_of(m.role);
    let ns = extra_ns(m.extra, GOOGLE_GENERATE_CONTENT@);
    let joins = t.last == Some(side) && t.contents.len() > 0;
    let ci = if joins { (t.contents.len() - 1) as nat } else { t.contents.len() };
    let base = "/contents/"@ + decimal(ci);
    let c: CurrentV = if joins { p.current->0 } else { (side, Seq::empty(), none) };
    let content = if joins { t.contents.last() } else { new_turn(side) };
    shell_is_filled(side, c.1, c.2, Seq::empty());
    assert(content == content_json(c));
    let st = PartsV {
        parts: c.1,
        names: t.names,
        sink: downgraded(
            SinkV { warnings: Seq::empty(), log: t.sink.log },
            m.role,
            base,
        ),
    };
    message_is_put(st, m, mi, ci, as_text, m.content.len());
    if let Ok(r) = message_parts(st, m, mi, ci, as_text, m.content.len()) {
        grows(st, m, mi, ci, as_text, m.content.len());
        shell_is_filled(side, c.1, c.2, r.parts);
        let known = content_keys();
        let head = shell(side, r.parts);
        assert(within(head, known)) by {
            assert forall|i: int| 0 <= i < head.len() implies known.contains((#[trigger] head[i]).0) by {
                assert(head[i].0 == known[i]);
            }
        }
        known_are_apart(head, ns, known);
        apart_data_goes_to_the_back(head, c.2, ns, ns.len());
        merge_stays_clean(c.2, ns, ns.len());
        merged_data_avoids(c.2, ns, known, ns.len());
        if ns.len() == 0 {
            assert(merged(c.2, ns) == c.2);
        }
        let now = turn_step(t, m, mi, as_text)->Ok_0;
        let next: CurrentV = (side, r.parts, merged(c.2, ns));
        assert(extra_merged(
            m.extra,
            GOOGLE_GENERATE_CONTENT@,
            with_member(content, "parts"@, JsonV::Array(r.parts)),
        ) == content_json(next));
        if joins {
            assert(now.contents =~= p.done.push(content_json(next)));
        } else {
            assert(now.contents =~= t.contents.push(content_json(next)));
        }
    }
}

/// Every block of a plain message becomes a part.
proof fn grows(st: PartsV, m: MessageV, mi: nat, ci: nat, as_text: bool, n: nat)
    requires
        plain_blocks(m.role, m.content),
        n <= m.content.len(),
    ensures
        match message_parts(st, m, mi, ci, as_text, n) {
            Ok(r) => r.parts.len() == st.parts.len() + n,
            Err(_) => true,
        },
    decreases n,
{
    if n > 0 {
        grows(st, m, mi, ci, as_text, (n - 1) as nat);
        if let Ok(prev) = message_parts(st, m, mi, ci, as_text, (n - 1) as nat) {
            assert(plain_block(m.role, m.content[n - 1]));
            block_is_read(
                m.role,
                m.content[n - 1],
                prev,
                "/contents/"@ + decimal(ci) + "/parts/"@ + decimal(prev.parts.len()),
                as_text,
            );
        }
    }
}

/// The blocks of an exchange, each with its role.
spec fn exchange_blocks(t: ExchangeV) -> Seq<(Role, ContentBlockV)> {
    match t {
        ExchangeV::Model { content, extra } => Seq::new(content.len(), |i: int| (Role::Assistant, content[i])),
        ExchangeV::User { runs, extra } => run_blocks(runs, runs.len()),
    }
}

/// The provider data of an exchange.
spec fn exchange_ns(t: ExchangeV) -> ObjV {
    extra_ns(data_of(t), GOOGLE_GENERATE_CONTENT@)
}

spec fn exchange_advances(p: ProgressV, t: ExchangeV, as_text: bool) -> Option<ProgressV> {
    advanced(p, side_of_exchange(t), exchange_blocks(t), exchange_ns(t), as_text)
}

proof fn more_joins(
    p: ProgressV,
    side: Side,
    a: Seq<(Role, ContentBlockV)>,
    b: Seq<(Role, ContentBlockV)>,
    ns: ObjV,
    as_text: bool,
)
    ensures
        advanced(p, side, a + b, ns, as_text) == match advanced(p, side, a, ns, as_text) {
            Some(q) => advanced(q, side, b, Seq::empty(), as_text),
            None => None,
        },
{
    let none = Seq::<(Seq<char>, JsonV)>::empty();
    let c: CurrentV = match p.current {
        Some(c) => if c.0 == side { c } else { (side, Seq::empty(), none) },
        None => (side, Seq::empty(), none),
    };
    put_in_turn((c.1, p.names), a, b, as_text, b.len());
    assert((a + b).len() == a.len() + b.len());
    assert(merged(merged(c.2, ns), none) == merged(c.2, ns));
}

/// The first `j` runs of an exchange advance the turns.
proof fn runs_advance(
    start: TurnsV,
    prev: TurnsV,
    p: ProgressV,
    t: ExchangeV,
    group: u64,
    msgs: Seq<MessageV>,
    first: nat,
    as_text: bool,
    j: nat,
)
    requires
        plain_exchange(t),
        t is User,
        t->User_runs.len() > 0,
        stands_at(t, group, msgs, first),
        turns(start, msgs, 0, as_text, first) == Ok::<TurnsV, ConversionErrorV>(prev),
        stands(prev, p),
        1 <= j <= t->User_runs.len(),
    ensures
        match turns(start, msgs, 0, as_text, first + j) {
            Ok(now) => match advanced(p, Side::User, run_blocks(t->User_runs, j), exchange_ns(t), as_text) {
                Some(q) => stands(now, q),
                None => false,
            },
            Err(_) => advanced(p, Side::User, run_blocks(t->User_runs, j), exchange_ns(t), as_text) is None,
        },
    decreases j,
{
    reveal(extra_get);
    let runs = t->User_runs;
    let extra = t->User_extra;
    let ms = messages_of(t, group);
    let q = (j - 1) as nat;
    let m = ms[q as int];
    let g = if runs.len() > 1 { Some(group) } else { None };
    assert(msgs[first + q as int] == ms[q as int]);
    assert(m == run_message(runs[q as int], q as int, g, extra));
    assert(m.role == run_role(runs[q as int]) && m.content == runs[q as int].blocks);
    assert(plain_blocks(run_role(runs[q as int]), runs[q as int].blocks));
    let mb = message_blocks(m);
    assert(mb =~= Seq::new(runs[q as int].blocks.len(), |k: int| (run_role(runs[q as int]), runs[q as int].blocks[k])));
    assert(run_blocks(runs, j) == run_blocks(runs, q) + mb);
    assert(turns(start, msgs, 0, as_text, first + j) == match turns(start, msgs, 0, as_text, first + q) {
        Err(e) => Err(e),
        Ok(x) => turn_step(x, msgs[first + q as int], first + q, as_text),
    });
    if j == 1 {
        assert(run_blocks(runs, 0) + mb =~= mb);
        message_advances(prev, p, m, first, as_text);
    } else {
        runs_advance(start, prev, p, t, group, msgs, first, as_text, q);
        more_joins(p, Side::User, run_blocks(runs, q), mb, exchange_ns(t), as_text);
        assert(extra_ns(m.extra, GOOGLE_GENERATE_CONTENT@) =~= Seq::<(Seq<char>, JsonV)>::empty());
        if let Ok(x) = turns(start, msgs, 0, as_text, first + q) {
            let y = advanced(p, Side::User, run_blocks(runs, q), exchange_ns(t), as_text)->0;
            message_advances(x, y, m, first + q, as_text);
        }
    }
}

/// An exchange advances the turns as its blocks and data do.
proof fn exchange_is_run(
    start: TurnsV,
    prev: TurnsV,
    p: ProgressV,
    t: ExchangeV,
    group: u64,
    msgs: Seq<MessageV>,
    first: nat,
    as_text: bool,
)
    requires
        plain_exchange(t),
        stands_at(t, group, msgs, first),
        turns(start, msgs, 0, as_text, first) == Ok::<TurnsV, ConversionErrorV>(prev),
        stands(prev, p),
    ensures
        match turns(start, msgs, 0, as_text, first + messages_of(t, group).len()) {
            Ok(now) => match exchange_advances(p, t, as_text) {
                Some(q) => stands(now, q),
                None => false,
            },
            Err(_) => exchange_advances(p, t, as_text) is None,
        },
{
    let ms = messages_of(t, group);
    assert(msgs[first as int] == ms[0]);
    assert(turns(start, msgs, 0, as_text, first + 1) == turn_step(prev, msgs[first as int], first, as_text));
    match t {
        ExchangeV::User { runs, extra } => {
            if runs.len() > 0 {
                runs_advance(start, prev, p, t, group, msgs, first, as_text, runs.len());
            } else {
                assert(message_blocks(ms[0]) =~= exchange_blocks(t));
                message_advances(prev, p, ms[0], first, as_text);
            }
        },
        ExchangeV::Model { content, extra } => {
            assert(message_blocks(ms[0]) =~= exchange_blocks(t));
            message_advances(prev, p, ms[0], first, as_text);
        },
    }
}

pub open spec fn fresh() -> ProgressV {
    ProgressV { done: Seq::empty(), current: None, names: Seq::empty() }
}

/// What the first `n` exchanges become.
spec fn progress(all: Seq<ExchangeV>, as_text: bool, n: nat) -> Option<ProgressV>
    decreases n,
{
    if n == 0 || n > all.len() {
        Some(fresh())
    } else {
        match progress(all, as_text, (n - 1) as nat) {
            Some(p) => exchange_advances(p, all[n - 1], as_text),
            None => None,
        }
    }
}

proof fn failed_turns_stay(start: TurnsV, msgs: Seq<MessageV>, as_text: bool, n: nat, m: nat)
    requires
        n <= m <= msgs.len(),
        turns(start, msgs, 0, as_text, n) is Err,
    ensures
        turns(start, msgs, 0, as_text, m) is Err,
    decreases m - n,
{
    if n < m {
        failed_turns_stay(start, msgs, as_text, n, (m - 1) as nat);
    }
}

/// A history becomes what its exchanges do.
proof fn history_is_run(all: Seq<ExchangeV>, start: TurnsV, as_text: bool, n: nat)
    requires
        forall|i: int| 0 <= i < all.len() ==> plain_exchange(#[trigger] all[i]),
        start.contents.len() == 0,
        start.last is None,
        start.names.len() == 0,
        n <= all.len(),
    ensures
        match turns(start, history_of(all, all.len()).0, 0, as_text, history_of(all, n).0.len()) {
            Ok(t) => match progress(all, as_text, n) {
                Some(p) => stands(t, p),
                None => false,
            },
            Err(_) => progress(all, as_text, n) is None,
        },
    decreases n,
{
    let msgs = history_of(all, all.len()).0;
    if n == 0 {
        assert(start.contents =~= Seq::<JsonV>::empty());
        assert(start.names =~= Seq::<(Seq<char>, JsonV)>::empty());
    } else {
        let k = (n - 1) as nat;
        history_is_run(all, start, as_text, k);
        let (before, g) = history_of(all, k);
        assert(plain_exchange(all[k as int]));
        exchange_is_in_place(all, k);
        history_grows(all, k, n);
        history_grows(all, n, all.len());
        match turns(start, msgs, 0, as_text, before.len()) {
            Ok(prev) => {
                let p = progress(all, as_text, k)->0;
                exchange_is_run(start, prev, p, all[k as int], (g + 1) as u64, msgs, before.len(), as_text);
            },
            Err(_) => {
                failed_turns_stay(start, msgs, as_text, before.len(), history_of(all, n).0.len());
            },
        }
    }
}

/// The runs of two exchanges in one: where the first ends as the second
/// begins, a run goes on.
pub open spec fn joined_runs(a: Seq<RunV>, b: Seq<RunV>) -> Seq<RunV> {
    if a.len() > 0 && b.len() > 0 && a.last().is_tool == b[0].is_tool {
        a.update(a.len() - 1, RunV { is_tool: b[0].is_tool, blocks: a.last().blocks + b[0].blocks }) + b.skip(1)
    } else {
        a + b
    }
}

/// Two exchanges of one side in one.
pub open spec fn joined(a: ExchangeV, b: ExchangeV) -> ExchangeV {
    let extra = g_leftover(
        merged(extra_ns(data_of(a), GOOGLE_GENERATE_CONTENT@), extra_ns(data_of(b), GOOGLE_GENERATE_CONTENT@)),
    );
    match (a, b) {
        (ExchangeV::Model { content: x, .. }, ExchangeV::Model { content: y, .. }) => ExchangeV::Model {
            content: x + y,
            extra,
        },
        (ExchangeV::User { runs: x, .. }, ExchangeV::User { runs: y, .. }) => ExchangeV::User {
            runs: joined_runs(x, y),
            extra,
        },
        _ => a,
    }
}

/// The first `n` exchanges with neighbours of one side joined.
pub open spec fn alternating(all: Seq<ExchangeV>, n: nat) -> Seq<ExchangeV>
    decreases n,
{
    if n == 0 || n > all.len() {
        Seq::empty()
    } else {
        let prev = alternating(all, (n - 1) as nat);
        if prev.len() > 0 && side_of_exchange(prev.last()) == side_of_exchange(all[n - 1]) {
            prev.update(prev.len() - 1, joined(prev.last(), all[n - 1]))
        } else {
            prev.push(all[n - 1])
        }
    }
}

proof fn run_blocks_add_up(a: Seq<RunV>, b: Seq<RunV>, n: nat)
    requires
        n <= b.len(),
    ensures
        run_blocks(a + b, a.len() + n) == run_blocks(a, a.len()) + run_blocks(b, n),
    decreases n,
{
    if n == 0 {
        run_blocks_prefix(a, a + b, a.len());
        assert(run_blocks(a, a.len()) + run_blocks(b, 0) =~= run_blocks(a, a.len()));
    } else {
        run_blocks_add_up(a, b, (n - 1) as nat);
        let x = Seq::new(b[n - 1].blocks.len(), |k: int| (run_role(b[n - 1]), b[n - 1].blocks[k]));
        assert((a + b)[a.len() + n - 1] == b[n - 1]);
        assert((run_blocks(a, a.len()) + run_blocks(b, (n - 1) as nat)) + x =~= run_blocks(a, a.len()) + (run_blocks(
            b,
            (n - 1) as nat,
        ) + x));
    }
}

proof fn joined_runs_add_up(a: Seq<RunV>, b: Seq<RunV>)
    requires
        plain_runs(a),
        plain_runs(b),
    ensures
        run_blocks(joined_runs(a, b), joined_runs(a, b).len()) == run_blocks(a, a.len()) + run_blocks(b, b.len()),
        plain_runs(joined_runs(a, b)),
        joined_runs(a, b).len() <= a.len() + b.len(),
{
    let j = joined_runs(a, b);
    if a.len() > 0 && b.len() > 0 && a.last().is_tool == b[0].is_tool {
        let m = (a.len() - 1) as nat;
        let r = RunV { is_tool: b[0].is_tool, blocks: a.last().blocks + b[0].blocks };
        let c = a.update(m as int, r);
        let rest = b.skip(1);
        let head = seq![b[0]];
        run_blocks_add_up(c, rest, rest.len());
        run_blocks_prefix(a, c, m);
        assert(b =~= head + rest);
        run_blocks_add_up(head, rest, rest.len());
        assert(run_blocks(head, 0) == Seq::<(Role, ContentBlockV)>::empty());
        let y = Seq::new(b[0].blocks.len(), |k: int| (run_role(b[0]), b[0].blocks[k]));
        assert(run_blocks(head, 1) =~= y);
        assert(run_blocks(c, c.len()) =~= run_blocks(a, a.len()) + y);
        assert(run_blocks(j, j.len()) =~= run_blocks(a, a.len()) + run_blocks(b, b.len()));
        assert forall|i: int| 0 <= i < j.len() implies plain_blocks(run_role(#[trigger] j[i]), j[i].blocks) && j[i].blocks.len()
            > 0 by {
            if i < m {
                assert(j[i] == a[i]);
            } else if i == m {
                assert(plain_blocks(run_role(a[m as int]), a[m as int].blocks));
                assert(plain_blocks(run_role(b[0]), b[0].blocks));
                assert(a[m as int].blocks.len() > 0);
                assert forall|k: int| 0 <= k < r.blocks.len() implies plain_block(
                    run_role(r),
                    #[trigger] r.blocks[k],
                ) by {
                    if k < a.last().blocks.len() {
                        assert(r.blocks[k] == a[m as int].blocks[k]);
                    } else {
                        assert(r.blocks[k] == b[0].blocks[k - a.last().blocks.len()]);
                    }
                }
            } else {
                assert(j[i] == b[i - m]);
            }
        }
        assert forall|i: int| 0 < i < j.len() implies #[trigger] kinds_differ(j, i) by {
            if i <= m {
                assert(kinds_differ(a, i));
                assert(j[i].is_tool == a[i].is_tool && j[i - 1].is_tool == a[i - 1].is_tool);
            } else {
                assert(kinds_differ(b, i - m));
                assert(j[i] == b[i - m]);
                assert(j[i - 1].is_tool == b[i - m - 1].is_tool);
            }
        }
    } else {
        run_blocks_add_up(a, b, b.len());
        assert forall|i: int| 0 <= i < j.len() implies plain_blocks(run_role(#[trigger] j[i]), j[i].blocks) && j[i].blocks.len()
            > 0 by {
            if i < a.len() {
                assert(j[i] == a[i]);
            } else {
                assert(j[i] == b[i - a.len()]);
            }
        }
        assert forall|i: int| 0 < i < j.len() implies #[trigger] kinds_differ(j, i) by {
            if i < a.len() {
                assert(kinds_differ(a, i));
            } else if i > a.len() {
                assert(kinds_differ(b, i - a.len()));
                assert(j[i] == b[i - a.len()] && j[i - 1] == b[i - a.len() - 1]);
            } else {
                assert(j[i] == b[0] && j[i - 1] == a.last());
            }
        }
    }
}

/// Two exchanges of one side make an exchange that becomes what they become.
proof fn joined_advances(p: ProgressV, a: ExchangeV, b: ExchangeV, as_text: bool)
    requires
        plain_exchange(a),
        plain_exchange(b),
        side_of_exchange(a) == side_of_exchange(b),
        p.current is Some ==> (p.current->0).0 != side_of_exchange(a),
    ensures
        plain_exchange(joined(a, b)),
        side_of_exchange(joined(a, b)) == side_of_exchange(a),
        exchange_advances(p, joined(a, b), as_text) == match exchange_advances(p, a, as_text) {
            Some(q) => exchange_advances(q, b, as_text),
            None => None,
        },
        forall|g: u64, h: u64, k: u64| (#[trigger] messages_of(joined(a, b), g)).len() <= (#[trigger] messages_of(a, h)).len()
            + (#[trigger] messages_of(b, k)).len(),
{
    let none = Seq::<(Seq<char>, JsonV)>::empty();
    let j = joined(a, b);
    let side = side_of_exchange(a);
    let x = exchange_ns(a);
    let y = exchange_ns(b);
    let ns = merged(x, y);
    merge_stays_clean(x, y, y.len());
    merged_data_avoids(x, y, content_keys(), y.len());
    namespace_holds_its_members(GOOGLE_GENERATE_CONTENT@, ns);
    assert(exchange_ns(j) == ns);
    match (a, b) {
        (ExchangeV::Model { content: c, .. }, ExchangeV::Model { content: d, .. }) => {
            assert forall|i: int| 0 <= i < (c + d).len() implies plain_block(
                Role::Assistant,
                #[trigger] (c + d)[i],
            ) by {
                if i < c.len() {
                    assert((c + d)[i] == c[i]);
                } else {
                    assert((c + d)[i] == d[i - c.len()]);
                }
            }
            assert(exchange_blocks(j) =~= exchange_blocks(a) + exchange_blocks(b));
        },
        (ExchangeV::User { runs: c, .. }, ExchangeV::User { runs: d, .. }) => {
            joined_runs_add_up(c, d);
        },
        _ => {},
    }
    clean_data_is_swept(x);
    clean_data_is_swept(ns);
    put_in_turn(
        (Seq::empty(), p.names),
        exchange_blocks(a),
        exchange_blocks(b),
        as_text,
        exchange_blocks(b).len(),
    );
    assert(exchange_blocks(j).len() == exchange_blocks(a).len() + exchange_blocks(b).len());
}

proof fn progress_prefix(a: Seq<ExchangeV>, b: Seq<ExchangeV>, as_text: bool, n: nat)
    requires
        n <= a.len(),
        n <= b.len(),
        forall|i: int| 0 <= i < n ==> (#[trigger] a[i]) == b[i],
    ensures
        progress(a, as_text, n) == progress(b, as_text, n),
    decreases n,
{
    if n > 0 {
        progress_prefix(a, b, as_text, (n - 1) as nat);
        assert(a[n - 1] == b[n - 1]);
    }
}

proof fn progress_side(all: Seq<ExchangeV>, as_text: bool, n: nat)
    requires
        0 < n <= all.len(),
        progress(all, as_text, n) is Some,
    ensures
        progress(all, as_text, n)->0.current is Some,
        (progress(all, as_text, n)->0.current->0).0 == side_of_exchange(all[n - 1]),
{
}

proof fn history_prefix(a: Seq<ExchangeV>, b: Seq<ExchangeV>, n: nat)
    requires
        n <= a.len(),
        n <= b.len(),
        forall|i: int| 0 <= i < n ==> (#[trigger] a[i]) == b[i],
    ensures
        history_of(a, n) == history_of(b, n),
    decreases n,
{
    if n > 0 {
        history_prefix(a, b, (n - 1) as nat);
        assert(a[n - 1] == b[n - 1]);
    }
}

/// Joining neighbours of one side changes nothing of what a history becomes.
proof fn alternating_is_the_same(all: Seq<ExchangeV>, as_text: bool, n: nat)
    requires
        forall|i: int| 0 <= i < all.len() ==> plain_exchange(#[trigger] all[i]),
        n <= all.len(),
    ensures
        ({
            let alt = alternating(all, n);
            &&& progress(alt, as_text, alt.len()) == progress(all, as_text, n)
            &&& forall|i: int| 0 <= i < alt.len() ==> plain_exchange(#[trigger] alt[i])
            &&& forall|i: int| 0 < i < alt.len() ==> #[trigger] sides_differ(alt, i)
            &&& history_of(alt, alt.len()).0.len() <= history_of(all, n).0.len()
        }),
    decreases n,
{
    if n > 0 {
        let k = (n - 1) as nat;
        alternating_is_the_same(all, as_text, k);
        let prev = alternating(all, k);
        let alt = alternating(all, n);
        let t = all[k as int];
        assert(plain_exchange(all[k as int]));
        if prev.len() > 0 && side_of_exchange(prev.last()) == side_of_exchange(t) {
            let m = (prev.len() - 1) as nat;
            let last = prev.last();
            assert(plain_exchange(prev[m as int]));
            let j = joined(last, t);
            progress_prefix(prev, alt, as_text, m);
            history_prefix(prev, alt, m);
            if let Some(p) = progress(prev, as_text, m) {
                if m > 0 {
                    progress_side(prev, as_text, m);
                    assert(sides_differ(prev, m as int));
                }
                joined_advances(p, last, t, as_text);
            } else {
                joined_advances(fresh(), last, t, as_text);
            }
            let g = history_of(prev, m).1;
            let h = history_of(all, k).1;
            assert(messages_of(j, (g + 1) as u64).len() <= messages_of(last, (g + 1) as u64).len() + messages_of(
                t,
                (h + 1) as u64,
            ).len());
            assert forall|i: int| 0 <= i < alt.len() implies plain_exchange(#[trigger] alt[i]) by {
                if i < m {
                    assert(alt[i] == prev[i]);
                }
            }
            assert forall|i: int| 0 < i < alt.len() implies #[trigger] sides_differ(alt, i) by {
                assert(sides_differ(prev, i));
            }
        } else {
            progress_prefix(prev, alt, as_text, prev.len());
            history_prefix(prev, alt, prev.len());
            turn_sizes(t, (history_of(prev, prev.len()).1 + 1) as u64, (history_of(all, k).1 + 1) as u64);
            assert forall|i: int| 0 <= i < alt.len() implies plain_exchange(#[trigger] alt[i]) by {
                if i < prev.len() {
                    assert(alt[i] == prev[i]);
                }
            }
            assert forall|i: int| 0 < i < alt.len() implies #[trigger] sides_differ(alt, i) by {
                if i < prev.len() {
                    assert(sides_differ(prev, i));
                }
            }
        }
    }
}

proof fn turn_sizes(t: ExchangeV, g: u64, h: u64)
    ensures
        messages_of(t, g).len() == messages_of(t, h).len(),
{
}

pub proof fn tools_anywhere(tools: Seq<ToolV>, s: SinkV, s2: SinkV, n: nat)
    ensures
        ({
            let a = tool_entries(tools, s, n);
            let b = tool_entries(tools, s2, n);
            a == (ToolsV { sink: a.sink, ..b })
        }),
    decreases n,
{
    if n > 0 && n <= tools.len() {
        tools_anywhere(tools, s, s2, (n - 1) as nat);
    }
}

/// The fields of a request are the same whatever was noted before.
pub proof fn fields_anywhere(req: RequestV, system: Option<JsonV>, body: ObjV, s: SinkV, s2: SinkV)
    ensures
        google_fields(req, system, body, s).0 == google_fields(req, system, body, s2).0,
{
    if let Some(tools) = req.tools {
        tools_anywhere(tools, s, s2, tools.len());
    }
}

proof fn instructions_agree(system: Option<Seq<ContentBlockV>>, a: Seq<MessageV>, b: Seq<MessageV>)
    requires
        leading_system(a, 0) == 0,
        leading_system(b, 0) == 0,
    ensures
        system_instruction(system, a) == system_instruction(system, b),
{
    let none = Ok::<(Seq<JsonV>, SinkV), ConversionErrorV>((Seq::empty(), empty_sink()));
    let prompt = match system {
        Some(x) => prompt_parts(x, x.len()),
        None => none,
    };
    if let Ok(st) = prompt {
        assert(system_messages(st, a, 0) == Ok::<
            (Seq<JsonV>, SinkV),
            ConversionErrorV,
        >(st));
        assert(system_messages(st, b, 0) == Ok::<
            (Seq<JsonV>, SinkV),
            ConversionErrorV,
        >(st));
    }
}

/// Requests whose exchanges become the same contents have the same body.
proof fn bodies_agree(r: RequestV, q: RequestV, all: Seq<ExchangeV>, alt: Seq<ExchangeV>, conv: ConvertOptionsV)
    requires
        forall|i: int| 0 <= i < all.len() ==> plain_exchange(#[trigger] all[i]),
        forall|i: int| 0 <= i < alt.len() ==> plain_exchange(#[trigger] alt[i]),
        r.messages == history_of(all, all.len()).0,
        q.messages == history_of(alt, alt.len()).0,
        q == (RequestV { messages: q.messages, ..r }),
        progress(alt, conv.thinking_as_text, alt.len()) == progress(all, conv.thinking_as_text, all.len()),
        google_prepared(r, conv).0 == r.messages,
        google_prepared(q, conv).0 == q.messages,
        google_body(q, conv) is Ok,
    ensures
        google_body(r, conv) is Ok,
        google_body(r, conv)->Ok_0.body == google_body(q, conv)->Ok_0.body,
{
    let as_text = conv.thinking_as_text;
    nothing_leads(r, all);
    nothing_leads(q, alt);
    instructions_agree(r.system, r.messages, q.messages);
    let (system, s) = system_instruction(q.system, q.messages)->Ok_0;
    let (t, t2) = contents_agree(all, alt, s, as_text);
    let b0 = obj_set(Seq::<(Seq<char>, JsonV)>::empty(), "contents"@, JsonV::Array(t.contents));
    fields_agree(r, q, system, b0, t.sink, t2.sink);
    let b = google_fields(r, system, b0, t.sink).0;
    assert(google_body(r, conv)->Ok_0.body == extra_merged(r.extra, GOOGLE_GENERATE_CONTENT@, JsonV::Object(b)));
    assert(google_body(q, conv)->Ok_0.body == extra_merged(r.extra, GOOGLE_GENERATE_CONTENT@, JsonV::Object(b)));
}

/// Exchanges with the same progress become the same contents.
proof fn contents_agree(all: Seq<ExchangeV>, alt: Seq<ExchangeV>, s: SinkV, as_text: bool) -> (out: (TurnsV, TurnsV))
    requires
        forall|i: int| 0 <= i < all.len() ==> plain_exchange(#[trigger] all[i]),
        forall|i: int| 0 <= i < alt.len() ==> plain_exchange(#[trigger] alt[i]),
        progress(alt, as_text, alt.len()) == progress(all, as_text, all.len()),
        ({
            let b = history_of(alt, alt.len()).0;
            turns(turns_start(b.len(), s), b, 0, as_text, b.len()) is Ok
        }),
    ensures
        ({
            let a = history_of(all, all.len()).0;
            let b = history_of(alt, alt.len()).0;
            &&& turns(turns_start(a.len(), s), a, 0, as_text, a.len()) == Ok::<TurnsV, ConversionErrorV>(out.0)
            &&& turns(turns_start(b.len(), s), b, 0, as_text, b.len()) == Ok::<TurnsV, ConversionErrorV>(out.1)
            &&& out.0.contents == out.1.contents
        }),
{
    let a = history_of(all, all.len()).0;
    let b = history_of(alt, alt.len()).0;
    history_is_run(all, turns_start(a.len(), s), as_text, all.len());
    history_is_run(alt, turns_start(b.len(), s), as_text, alt.len());
    (
        turns(turns_start(a.len(), s), a, 0, as_text, a.len())->Ok_0,
        turns(turns_start(b.len(), s), b, 0, as_text, b.len())->Ok_0,
    )
}

/// Requests that agree but for their history have the same fields.
proof fn fields_agree(r: RequestV, q: RequestV, system: Option<JsonV>, body: ObjV, s: SinkV, s2: SinkV)
    requires
        q == (RequestV { messages: q.messages, ..r }),
    ensures
        google_fields(r, system, body, s).0 == google_fields(q, system, body, s2).0,
{
    fields_anywhere(r, system, body, s, s2);
}

/// Exchanges of one side that follow each other are joined by the body that
/// they become: what the body is parsed to has the joined exchanges and is
/// otherwise the request itself. The history may have unanswered calls and
/// missing thinking, which only raise warnings.
pub proof fn neighbours_are_joined(j: JsonV, all: Seq<ExchangeV>, conv: ConvertOptionsV)
    requires
        google_parsed_request(j) is Ok,
        plain_contents(google_parsed_request(j)->Ok_0.0, all),
        conv.orphan_tool_calls == OrphanToolCalls::Passthrough,
        conv.fill_missing_thinking is None,
    ensures
        ({
            let r = google_parsed_request(j)->Ok_0.0;
            let first = google_body(r, conv);
            let again = google_body(google_parsed_request(first->Ok_0.body)->Ok_0.0, conv);
            let alt = alternating(all, all.len());
            &&& first is Ok
            &&& google_parsed_request(first->Ok_0.body) == Ok::<(RequestV, Seq<ConversionWarningV>), Seq<char>>(
                (RequestV { messages: history_of(alt, alt.len()).0, ..r }, Seq::empty()),
            )
            &&& again is Ok
            &&& again->Ok_0.body == first->Ok_0.body
        }),
{
    let as_text = conv.thinking_as_text;
    let r = google_parsed_request(j)->Ok_0.0;
    alternating_is_the_same(all, as_text, all.len());
    let alt = alternating(all, all.len());
    let q = RequestV { messages: history_of(alt, alt.len()).0, ..r };
    assert(plain_request(q, alt));
    request_round_trip(q, alt, conv);
    bodies_agree(r, q, all, alt, conv);
}

} // verus!
