//! Laws: a history is read back from the contents that it becomes.

use vstd::prelude::*;
use crate::convert::ConversionWarningV;
use crate::decode::unknown;
use crate::error::ConversionErrorV;
use crate::format::GOOGLE_GENERATE_CONTENT;
use crate::formats::google_generate_content::from_ir::{new_turn, parts_of, side_name, side_of, turn_step, turns, Side, TurnsV};
use crate::formats::google_generate_content::parse_parts::g_leftover;
use crate::formats::google_generate_content::parts::{allowed, message_parts, part_step, PartsV};
use crate::formats::google_generate_content::round_trip::{block_round_trip, is_result, plain_block, read_part};
use crate::formats::google_generate_content::to_ir::{all_messages, content_messages, model_blocks, part_runs, turn_part};
use crate::formats::google_generate_content::types::{content_keys, decode_content, decode_part, decode_vec_content, decode_vec_part, ContentV, PartV};
use crate::ir::{extra_merged, extra_ns, plain_message, ContentBlockV, ExtraV, MessageV, Role};
use crate::json::{obj_set, with_member, JsonV, ObjV};
use crate::namespaces::{first_named_is_read, foreign_data_is_not_merged, provider_data_survives, there, tidy_for, within};
use crate::sink::SinkV;
use crate::text::decimal;
use crate::turns::{kinds_differ, run_role, run_step, turn_messages, RunV};

verus! {

/// The value of a block of a message of this role, wherever it is read.
pub open spec fn reads_as(role: Role, v: JsonV, b: ContentBlockV) -> bool {
    match decode_part(v) {
        Ok(p) => {
            &&& forall|loc: Seq<char>, ws: Seq<ConversionWarningV>| #[trigger] read_part(role, p, loc, ws) == (b, ws)
            &&& role != Role::Assistant ==> is_result(p) == (role == Role::Tool)
        },
        Err(_) => false,
    }
}

/// The values of blocks, from index `from` of an array on.
pub open spec fn read_from(role: Role, a: Seq<JsonV>, from: nat, blocks: Seq<ContentBlockV>) -> bool {
    &&& from + blocks.len() <= a.len()
    &&& forall|i: int| 0 <= i < blocks.len() ==> reads_as(role, #[trigger] a[from + i], blocks[i])
}

/// The blocks of a message that this format can carry.
pub open spec fn plain_blocks(role: Role, blocks: Seq<ContentBlockV>) -> bool {
    forall|i: int| 0 <= i < blocks.len() ==> plain_block(role, #[trigger] blocks[i])
}

pub proof fn block_is_read(role: Role, b: ContentBlockV, st: PartsV, ptr: Seq<char>, as_text: bool)
    requires
        plain_block(role, b),
    ensures
        allowed(role, b),
        match part_step(st, b, ptr, as_text) {
            Ok(n) => {
                &&& n.parts.len() == st.parts.len() + 1
                &&& n.parts.drop_last() == st.parts
                &&& n.sink.warnings == st.sink.warnings
                &&& reads_as(role, n.parts.last(), b)
            },
            Err(_) => false,
        },
{
    block_round_trip(role, b, st, ptr, as_text, ptr, Seq::empty());
    let p = decode_part(part_step(st, b, ptr, as_text)->Ok_0.parts.last())->Ok_0;
    assert forall|loc: Seq<char>, ws: Seq<ConversionWarningV>| #[trigger] read_part(role, p, loc, ws) == (b, ws) by {
        block_round_trip(role, b, st, ptr, as_text, loc, ws);
    }
}

/// The blocks of a message are appended to the parts, each in a form that
/// reads as the block, and without a warning.
pub proof fn parts_are_written(st: PartsV, m: MessageV, mi: nat, ci: nat, as_text: bool, n: nat)
    requires
        plain_blocks(m.role, m.content),
        n <= m.content.len(),
    ensures
        match message_parts(st, m, mi, ci, as_text, n) {
            Ok(r) => {
                &&& r.parts.len() == st.parts.len() + n
                &&& r.parts.take(st.parts.len() as int) == st.parts
                &&& r.sink.warnings == st.sink.warnings
                &&& read_from(m.role, r.parts, st.parts.len(), m.content.take(n as int))
            },
            Err(_) => false,
        },
    decreases n,
{
    let from = st.parts.len();
    if n == 0 {
        assert(st.parts.take(from as int) =~= st.parts);
    } else {
        let q = (n - 1) as nat;
        parts_are_written(st, m, mi, ci, as_text, q);
        let prev = message_parts(st, m, mi, ci, as_text, q)->Ok_0;
        let b = m.content[q as int];
        assert(plain_block(m.role, m.content[q as int]));
        let ptr = "/contents/"@ + decimal(ci) + "/parts/"@ + decimal(prev.parts.len());
        block_is_read(m.role, b, prev, ptr, as_text);
        let next = message_parts(st, m, mi, ci, as_text, n)->Ok_0;
        assert(message_parts(st, m, mi, ci, as_text, n) == part_step(prev, b, ptr, as_text));
        assert(next.parts.take(from as int) =~= next.parts.drop_last().take(from as int));
        let want = m.content.take(n as int);
        assert forall|i: int| 0 <= i < want.len() implies reads_as(m.role, #[trigger] next.parts[from + i], want[i]) by {
            if i < q {
                assert(next.parts.drop_last()[from + i] == next.parts[from + i]);
                assert(want[i] == m.content.take(q as int)[i]);
                assert(reads_as(m.role, prev.parts[from + i], m.content.take(q as int)[i]));
            }
        }
    }
}

/// The parts of an array, typed.
pub open spec fn typed(a: Seq<JsonV>) -> Seq<PartV> {
    Seq::new(a.len(), |i: int| decode_part(a[i])->Ok_0)
}

/// Every value is a part.
pub open spec fn all_parts(a: Seq<JsonV>) -> bool {
    forall|i: int| 0 <= i < a.len() ==> decode_part(#[trigger] a[i]) is Ok
}

/// An array of parts is typed part by part.
pub proof fn parts_are_decoded(a: Seq<JsonV>, n: nat)
    requires
        all_parts(a),
        n <= a.len(),
    ensures
        decode_vec_part(a, n) == Ok::<Seq<PartV>, Seq<char>>(typed(a).take(n as int)),
    decreases n,
{
    if n == 0 {
        assert(typed(a).take(0) =~= Seq::<PartV>::empty());
    } else {
        parts_are_decoded(a, (n - 1) as nat);
        assert(decode_part(a[n - 1]) is Ok);
        assert(typed(a).take(n - 1).push(typed(a)[n - 1]) =~= typed(a).take(n as int));
    }
}

proof fn model_is_read(a: Seq<JsonV>, blocks: Seq<ContentBlockV>, base: Seq<char>, ws: Seq<ConversionWarningV>, n: nat)
    requires
        read_from(Role::Assistant, a, 0, blocks),
        n <= blocks.len(),
    ensures
        model_blocks(typed(a), base, ws, n) == (blocks.take(n as int), ws),
    decreases n,
{
    if n == 0 {
        assert(blocks.take(0) =~= Seq::<ContentBlockV>::empty());
    } else {
        let q = (n - 1) as nat;
        model_is_read(a, blocks, base, ws, q);
        assert(reads_as(Role::Assistant, a[0 + q as int], blocks[q as int]));
        let p = typed(a)[q as int];
        assert(read_part(Role::Assistant, p, base + "/parts/"@ + decimal(q), ws) == (blocks[q as int], ws));
        assert(blocks.take(q as int).push(blocks[q as int]) =~= blocks.take(n as int));
    }
}

proof fn run_is_read(
    a: Seq<JsonV>,
    from: nat,
    runs: Seq<RunV>,
    role: Role,
    blocks: Seq<ContentBlockV>,
    base: Seq<char>,
    ws: Seq<ConversionWarningV>,
    n: nat,
)
    requires
        role == Role::User || role == Role::Tool,
        read_from(role, a, from, blocks),
        part_runs(typed(a), base, ws, from) == (runs, ws),
        runs.len() > 0 ==> runs.last().is_tool != (role == Role::Tool),
        1 <= n <= blocks.len(),
    ensures
        part_runs(typed(a), base, ws, from + n) == (
            runs.push(RunV { is_tool: role == Role::Tool, blocks: blocks.take(n as int) }),
            ws,
        ),
    decreases n,
{
    let q = (n - 1) as nat;
    let is_tool = role == Role::Tool;
    assert(reads_as(role, a[from + q as int], blocks[q as int]));
    let p = typed(a)[from + q as int];
    let loc = base + "/parts/"@ + decimal(from + q);
    assert(read_part(role, p, loc, ws) == (blocks[q as int], ws));
    assert(turn_part(p, loc, ws) == (is_tool, blocks[q as int], ws));
    if q == 0 {
        assert(blocks.take(1) =~= seq![blocks[0]]);
    } else {
        run_is_read(a, from, runs, role, blocks, base, ws, q);
        let prev = runs.push(RunV { is_tool, blocks: blocks.take(q as int) });
        assert(blocks.take(q as int).push(blocks[q as int]) =~= blocks.take(n as int));
        assert(run_step(prev, is_tool, blocks[q as int]) =~= runs.push(
            RunV { is_tool, blocks: blocks.take(n as int) },
        ));
    }
}

proof fn runs_prefix(a: Seq<JsonV>, b: Seq<JsonV>, base: Seq<char>, ws: Seq<ConversionWarningV>, n: nat)
    requires
        n <= a.len() <= b.len(),
        b.take(a.len() as int) == a,
    ensures
        part_runs(typed(a), base, ws, n) == part_runs(typed(b), base, ws, n),
    decreases n,
{
    if n > 0 {
        runs_prefix(a, b, base, ws, (n - 1) as nat);
        assert(a[n - 1] == b.take(a.len() as int)[n - 1]);
        assert(typed(a)[n - 1] == typed(b)[n - 1]);
    }
}

/// A content in terms of the messages that it stands for.
pub enum ExchangeV {
    Model { content: Seq<ContentBlockV>, extra: ExtraV },
    /// Runs of tool results and of other content, in turn.
    User { runs: Seq<RunV>, extra: ExtraV },
}

/// The messages of an exchange; those of several runs belong to group `group`.
pub open spec fn messages_of(t: ExchangeV, group: u64) -> Seq<MessageV> {
    match t {
        ExchangeV::Model { content, extra } => seq![MessageV { extra, ..plain_message(Role::Assistant, content) }],
        ExchangeV::User { runs, extra } => turn_messages(runs, group, extra),
    }
}

/// The exchange takes a group.
pub open spec fn takes_group(t: ExchangeV) -> bool {
    match t {
        ExchangeV::User { runs, extra } => runs.len() > 1,
        _ => false,
    }
}

/// The side of an exchange.
pub open spec fn side_of_exchange(t: ExchangeV) -> Side {
    match t {
        ExchangeV::Model { .. } => Side::Model,
        ExchangeV::User { .. } => Side::User,
    }
}

/// The provider data of an exchange.
pub open spec fn data_of(t: ExchangeV) -> ExtraV {
    match t {
        ExchangeV::Model { content, extra } => extra,
        ExchangeV::User { runs, extra } => extra,
    }
}

/// Runs that alternate, each with content that this format can carry.
pub open spec fn plain_runs(runs: Seq<RunV>) -> bool {
    &&& forall|i: int| 0 <= i < runs.len() ==> plain_blocks(run_role(#[trigger] runs[i]), runs[i].blocks)
    &&& forall|i: int| 0 <= i < runs.len() ==> (#[trigger] runs[i]).blocks.len() > 0
    &&& forall|i: int| 0 < i < runs.len() ==> #[trigger] kinds_differ(runs, i)
}

/// An exchange that this format can carry.
pub open spec fn plain_exchange(t: ExchangeV) -> bool {
    &&& tidy_for(GOOGLE_GENERATE_CONTENT@, data_of(t), content_keys())
    &&& match t {
        ExchangeV::Model { content, extra } => plain_blocks(Role::Assistant, content),
        ExchangeV::User { runs, extra } => plain_runs(runs),
    }
}

/// The members of a content.
pub open spec fn shell(side: Side, parts: Seq<JsonV>) -> ObjV {
    seq![("role"@, JsonV::Str(side_name(side))), ("parts"@, JsonV::Array(parts))]
}

/// A content with its provider data.
pub open spec fn content_of(t: ExchangeV, parts: Seq<JsonV>) -> JsonV {
    JsonV::Object(shell(side_of_exchange(t), parts) + extra_ns(data_of(t), GOOGLE_GENERATE_CONTENT@))
}

pub proof fn content_names()
    ensures
        "role"@ != "parts"@,
        "user"@ != "model"@,
        content_keys()[0] == "role"@,
        content_keys()[1] == "parts"@,
{
    reveal_strlit("role");
    reveal_strlit("parts");
    reveal_strlit("user");
    reveal_strlit("model");
    assert("role"@.len() == 4 && "parts"@.len() == 5 && "user"@.len() == 4 && "model"@.len() == 5);
}

/// The parts of a content are found again, and replaced in place.
proof fn shell_is_open(t: ExchangeV, parts: Seq<JsonV>, more: Seq<JsonV>)
    ensures
        parts_of(content_of(t, parts)) == parts,
        with_member(content_of(t, parts), "parts"@, JsonV::Array(more)) == content_of(t, more),
        parts_of(new_turn(side_of_exchange(t))) == Seq::<JsonV>::empty(),
        with_member(new_turn(side_of_exchange(t)), "parts"@, JsonV::Array(more)) == JsonV::Object(
            shell(side_of_exchange(t), more),
        ),
{
    content_names();
    let side = side_of_exchange(t);
    let ns = extra_ns(data_of(t), GOOGLE_GENERATE_CONTENT@);
    let o = shell(side, parts) + ns;
    assert(o[0] == shell(side, parts)[0] && o[1] == shell(side, parts)[1]);
    first_named_is_read(o, "parts"@, 1);
    reveal(obj_set);
    assert(obj_set(o, "parts"@, JsonV::Array(more)) =~= shell(side, more) + ns);
    let e = shell(side, Seq::empty());
    first_named_is_read(e, "parts"@, 1);
    assert(obj_set(e, "parts"@, JsonV::Array(more)) =~= shell(side, more));
}

proof fn data_is_merged(t: ExchangeV, parts: Seq<JsonV>)
    requires
        plain_exchange(t),
    ensures
        extra_merged(data_of(t), GOOGLE_GENERATE_CONTENT@, JsonV::Object(shell(side_of_exchange(t), parts))) == content_of(
            t,
            parts,
        ),
        unknown(content_of(t, parts)->Object_0, content_keys()) == extra_ns(data_of(t), GOOGLE_GENERATE_CONTENT@),
        g_leftover(extra_ns(data_of(t), GOOGLE_GENERATE_CONTENT@)) == data_of(t),
{
    content_names();
    let known = content_keys();
    let s = shell(side_of_exchange(t), parts);
    let ns = extra_ns(data_of(t), GOOGLE_GENERATE_CONTENT@);
    assert(within(s, known)) by {
        assert forall|i: int| 0 <= i < s.len() implies known.contains((#[trigger] s[i]).0) by {
            assert(s[i].0 == known[i]);
        }
    }
    provider_data_survives(GOOGLE_GENERATE_CONTENT@, s, ns, known);
}

/// The messages of the exchange stand in `msgs` from index `first` on.
pub open spec fn stands_at(t: ExchangeV, group: u64, msgs: Seq<MessageV>, first: nat) -> bool {
    let ms = messages_of(t, group);
    &&& first + ms.len() <= msgs.len()
    &&& forall|j: int| 0 <= j < ms.len() ==> msgs[first + j] == #[trigger] ms[j]
}

/// What the first `j` messages of an exchange have become.
spec fn built_upto(prev: TurnsV, now: TurnsV, t: ExchangeV, parts: Seq<JsonV>) -> bool {
    &&& now.contents == prev.contents.push(content_of(t, parts))
    &&& now.last == Some(side_of_exchange(t))
    &&& now.sink.warnings == prev.sink.warnings
    &&& all_parts(parts)
}

proof fn parts_stay_parts(role: Role, old_parts: Seq<JsonV>, parts: Seq<JsonV>, blocks: Seq<ContentBlockV>)
    requires
        all_parts(old_parts),
        parts.len() == old_parts.len() + blocks.len(),
        parts.take(old_parts.len() as int) == old_parts,
        read_from(role, parts, old_parts.len(), blocks),
    ensures
        all_parts(parts),
{
    assert forall|i: int| 0 <= i < parts.len() implies decode_part(#[trigger] parts[i]) is Ok by {
        if i < old_parts.len() {
            assert(parts.take(old_parts.len() as int)[i] == parts[i]);
            assert(decode_part(old_parts[i]) is Ok);
        } else {
            let d = i - old_parts.len();
            assert(reads_as(role, parts[old_parts.len() + d], blocks[d]));
        }
    }
}

/// The first message of an exchange opens a content.
proof fn exchange_is_opened(prev: TurnsV, t: ExchangeV, group: u64, mi: nat, as_text: bool) -> (parts: Seq<JsonV>)
    requires
        plain_exchange(t),
        prev.last != Some(side_of_exchange(t)),
    ensures
        match turn_step(prev, messages_of(t, group)[0], mi, as_text) {
            Ok(now) => {
                let m = messages_of(t, group)[0];
                built_upto(prev, now, t, parts) && read_from(m.role, parts, 0, m.content) && parts.len()
                    == m.content.len()
            },
            Err(_) => false,
        },
{
    let m = messages_of(t, group)[0];
    let ci = prev.contents.len();
    let st = PartsV {
        parts: Seq::empty(),
        names: prev.names,
        sink: SinkV { warnings: Seq::empty(), log: prev.sink.log },
    };
    match t {
        ExchangeV::User { runs, extra } => {
            if runs.len() > 0 {
                assert(plain_blocks(run_role(runs[0]), runs[0].blocks));
            }
        },
        _ => {},
    }
    assert(side_of(m.role) == side_of_exchange(t));
    assert(m.extra == data_of(t));
    parts_are_written(st, m, mi, ci, as_text, m.content.len());
    assert(m.content.take(m.content.len() as int) =~= m.content);
    let p = message_parts(st, m, mi, ci, as_text, m.content.len())->Ok_0;
    shell_is_open(t, Seq::empty(), p.parts);
    data_is_merged(t, p.parts);
    parts_stay_parts(m.role, st.parts, p.parts, m.content);
    assert(prev.sink.warnings + Seq::<ConversionWarningV>::empty() =~= prev.sink.warnings);
    p.parts
}

/// A further message of an exchange joins its content.
proof fn exchange_is_continued(
    prev: TurnsV,
    now: TurnsV,
    t: ExchangeV,
    group: u64,
    before: Seq<JsonV>,
    j: int,
    mi: nat,
    as_text: bool,
) -> (parts: Seq<JsonV>)
    requires
        plain_exchange(t),
        t is User,
        0 < j < messages_of(t, group).len(),
        built_upto(prev, now, t, before),
    ensures
        match turn_step(now, messages_of(t, group)[j], mi, as_text) {
            Ok(next) => {
                let m = messages_of(t, group)[j];
                &&& built_upto(prev, next, t, parts)
                &&& parts.len() == before.len() + m.content.len()
                &&& parts.take(before.len() as int) == before
                &&& read_from(m.role, parts, before.len(), m.content)
            },
            Err(_) => false,
        },
{
    let m = messages_of(t, group)[j];
    let runs = t->User_runs;
    let r = runs[j];
    assert(plain_blocks(run_role(runs[j]), runs[j].blocks));
    assert(m.role == run_role(r) && m.content == r.blocks);
    assert(m.extra == Seq::<(Seq<char>, ObjV)>::empty());
    let ci = (now.contents.len() - 1) as nat;
    assert(now.contents.last() == content_of(t, before));
    shell_is_open(t, before, Seq::empty());
    let st = PartsV {
        parts: before,
        names: now.names,
        sink: SinkV { warnings: Seq::empty(), log: now.sink.log },
    };
    parts_are_written(st, m, mi, ci, as_text, m.content.len());
    assert(m.content.take(m.content.len() as int) =~= m.content);
    let p = message_parts(st, m, mi, ci, as_text, m.content.len())->Ok_0;
    shell_is_open(t, before, p.parts);
    foreign_data_is_not_merged(m.extra, GOOGLE_GENERATE_CONTENT@, content_of(t, p.parts));
    parts_stay_parts(m.role, before, p.parts, m.content);
    assert(now.sink.warnings + Seq::<ConversionWarningV>::empty() =~= now.sink.warnings);
    assert(runs[j].blocks.len() > 0);
    let next = turn_step(now, m, mi, as_text)->Ok_0;
    assert(next.contents =~= prev.contents.push(content_of(t, p.parts)));
    p.parts
}

/// The messages of a user exchange are joined in one content, whose parts
/// fall into the same runs.
proof fn runs_are_joined(
    start: TurnsV,
    prev: TurnsV,
    t: ExchangeV,
    group: u64,
    msgs: Seq<MessageV>,
    first: nat,
    as_text: bool,
    base: Seq<char>,
    ws: Seq<ConversionWarningV>,
    j: nat,
) -> (parts: Seq<JsonV>)
    requires
        plain_exchange(t),
        t is User,
        t->User_runs.len() > 0,
        stands_at(t, group, msgs, first),
        turns(start, msgs, 0, as_text, first) == Ok::<TurnsV, ConversionErrorV>(prev),
        prev.last != Some(Side::User),
        1 <= j <= t->User_runs.len(),
    ensures
        match turns(start, msgs, 0, as_text, first + j) {
            Ok(now) => built_upto(prev, now, t, parts) && part_runs(typed(parts), base, ws, parts.len()) == (
                t->User_runs.take(j as int),
                ws,
            ),
            Err(_) => false,
        },
    decreases j,
{
    let runs = t->User_runs;
    let ms = messages_of(t, group);
    let q = (j - 1) as nat;
    assert(msgs[first + q as int] == ms[q as int]);
    let m = ms[q as int];
    assert(m.role == run_role(runs[q as int]) && m.content == runs[q as int].blocks);
    assert(runs[q as int].blocks.len() > 0);
    let k = m.content.len();
    if j == 1 {
        let parts = exchange_is_opened(prev, t, group, first, as_text);
        let none = Seq::<RunV>::empty();
        run_is_read(parts, 0, none, m.role, m.content, base, ws, k);
        assert(m.content.take(k as int) =~= m.content);
        assert(none.push(RunV { is_tool: m.role == Role::Tool, blocks: m.content }) =~= runs.take(1));
        parts
    } else {
        let before = runs_are_joined(start, prev, t, group, msgs, first, as_text, base, ws, q);
        let now = turns(start, msgs, 0, as_text, first + q)->Ok_0;
        let parts = exchange_is_continued(prev, now, t, group, before, q as int, first + q, as_text);
        runs_prefix(before, parts, base, ws, before.len());
        assert(kinds_differ(runs, q as int));
        assert(runs.take(q as int).last() == runs[q - 1]);
        run_is_read(parts, before.len(), runs.take(q as int), m.role, m.content, base, ws, k);
        assert(m.content.take(k as int) =~= m.content);
        assert(runs.take(q as int).push(RunV { is_tool: m.role == Role::Tool, blocks: m.content }) =~= runs.take(
            j as int,
        ));
        parts
    }
}

/// The typed form of a content.
proof fn content_is_decoded(t: ExchangeV, parts: Seq<JsonV>)
    requires
        plain_exchange(t),
        all_parts(parts),
    ensures
        decode_content(content_of(t, parts)) == Ok::<ContentV, Seq<char>>(
            ContentV {
                role: Some(side_name(side_of_exchange(t))),
                parts: typed(parts),
                extra: extra_ns(data_of(t), GOOGLE_GENERATE_CONTENT@),
            },
        ),
{
    content_names();
    let side = side_of_exchange(t);
    let s = shell(side, parts);
    let ns = extra_ns(data_of(t), GOOGLE_GENERATE_CONTENT@);
    there(s, ns, "role"@, 0);
    there(s, ns, "parts"@, 1);
    data_is_merged(t, parts);
    parts_are_decoded(parts, parts.len());
    assert(typed(parts).take(parts.len() as int) =~= typed(parts));
}

/// The messages of an exchange become one content, without a warning, and are
/// read back from it.
pub proof fn exchange_round_trip(
    start: TurnsV,
    prev: TurnsV,
    t: ExchangeV,
    group: u64,
    msgs: Seq<MessageV>,
    first: nat,
    as_text: bool,
    ci: nat,
    ws: Seq<ConversionWarningV>,
)
    requires
        plain_exchange(t),
        group < u64::MAX,
        stands_at(t, (group + 1) as u64, msgs, first),
        turns(start, msgs, 0, as_text, first) == Ok::<TurnsV, ConversionErrorV>(prev),
        prev.last != Some(side_of_exchange(t)),
    ensures
        match turns(start, msgs, 0, as_text, first + messages_of(t, (group + 1) as u64).len()) {
            Ok(now) => {
                &&& now.contents.len() == prev.contents.len() + 1
                &&& now.contents.drop_last() == prev.contents
                &&& now.last == Some(side_of_exchange(t))
                &&& now.sink.warnings == prev.sink.warnings
                &&& match decode_content(now.contents.last()) {
                    Ok(c) => content_messages(c, ci, group, ws) == (
                        messages_of(t, (group + 1) as u64),
                        takes_group(t),
                        ws,
                    ),
                    Err(_) => false,
                }
            },
            Err(_) => false,
        },
{
    content_names();
    let g = (group + 1) as u64;
    let ms = messages_of(t, g);
    let base = "/contents/"@ + decimal(ci);
    assert(msgs[first as int] == ms[0]);
    match t {
        ExchangeV::User { runs, extra } => {
            if runs.len() > 0 {
                let parts = runs_are_joined(start, prev, t, g, msgs, first, as_text, base, ws, runs.len());
                assert(runs.take(runs.len() as int) =~= runs);
                content_is_decoded(t, parts);
                data_is_merged(t, parts);
                assert(prev.contents.push(content_of(t, parts)).drop_last() =~= prev.contents);
            } else {
                let parts = exchange_is_opened(prev, t, g, first, as_text);
                content_is_decoded(t, parts);
                data_is_merged(t, parts);
                assert(prev.contents.push(content_of(t, parts)).drop_last() =~= prev.contents);
                assert(part_runs(typed(parts), base, ws, 0) == (Seq::<RunV>::empty(), ws));
            }
        },
        ExchangeV::Model { content, extra } => {
            let parts = exchange_is_opened(prev, t, g, first, as_text);
            content_is_decoded(t, parts);
            data_is_merged(t, parts);
            model_is_read(parts, content, base, ws, content.len());
            assert(content.take(content.len() as int) =~= content);
            assert(prev.contents.push(content_of(t, parts)).drop_last() =~= prev.contents);
        },
    }
}

/// The messages of the first `n` exchanges, and the groups taken.
pub open spec fn history_of(all: Seq<ExchangeV>, n: nat) -> (Seq<MessageV>, u64)
    decreases n,
{
    if n == 0 || n > all.len() {
        (Seq::empty(), 0)
    } else {
        let (prev, g) = history_of(all, (n - 1) as nat);
        (
            prev + messages_of(all[n - 1], (g + 1) as u64),
            if takes_group(all[n - 1]) { (g + 1) as u64 } else { g },
        )
    }
}

/// Exchange `i` and the one before it are of different sides.
pub open spec fn sides_differ(all: Seq<ExchangeV>, i: int) -> bool {
    side_of_exchange(all[i]) != side_of_exchange(all[i - 1])
}

pub proof fn history_grows(all: Seq<ExchangeV>, n: nat, m: nat)
    requires
        n <= m <= all.len(),
    ensures
        history_of(all, n).0.len() <= history_of(all, m).0.len(),
        history_of(all, m).0.take(history_of(all, n).0.len() as int) == history_of(all, n).0,
    decreases m - n,
{
    let a = history_of(all, n).0;
    if n < m {
        history_grows(all, n, (m - 1) as nat);
        let b = history_of(all, (m - 1) as nat).0;
        let c = history_of(all, m).0;
        assert(c.take(a.len() as int) =~= b.take(a.len() as int));
    } else {
        assert(a.take(a.len() as int) =~= a);
    }
}

/// There are no more groups than messages.
proof fn groups_are_counted(all: Seq<ExchangeV>, n: nat)
    requires
        n <= all.len(),
        history_of(all, all.len()).0.len() < u64::MAX,
    ensures
        history_of(all, n).1 <= history_of(all, n).0.len() < u64::MAX,
    decreases n,
{
    history_grows(all, n, all.len());
    if n > 0 {
        groups_are_counted(all, (n - 1) as nat);
        history_grows(all, (n - 1) as nat, n);
    }
}

pub proof fn exchange_is_in_place(all: Seq<ExchangeV>, k: nat)
    requires
        k < all.len(),
    ensures
        ({
            let (before, g) = history_of(all, k);
            stands_at(all[k as int], (g + 1) as u64, history_of(all, all.len()).0, before.len())
        }),
{
    let (before, g) = history_of(all, k);
    let ms = messages_of(all[k as int], (g + 1) as u64);
    let msgs = history_of(all, all.len()).0;
    let next = history_of(all, k + 1).0;
    history_grows(all, k + 1, all.len());
    assert forall|j: int| 0 <= j < ms.len() implies msgs[before.len() + j] == #[trigger] ms[j] by {
        assert(next[before.len() + j] == ms[j]);
        assert(msgs.take(next.len() as int)[before.len() + j] == next[before.len() + j]);
    }
}

proof fn contents_prefix(a: Seq<JsonV>, b: Seq<JsonV>, n: nat)
    requires
        n <= a.len() <= b.len(),
        b.take(a.len() as int) == a,
    ensures
        decode_vec_content(a, n) == decode_vec_content(b, n),
    decreases n,
{
    if n > 0 {
        contents_prefix(a, b, (n - 1) as nat);
        assert(a[n - 1] == b.take(a.len() as int)[n - 1]);
    }
}

proof fn messages_prefix(start: Seq<MessageV>, a: Seq<ContentV>, b: Seq<ContentV>, ws: Seq<ConversionWarningV>, n: nat)
    requires
        n <= a.len() <= b.len(),
        forall|i: int| 0 <= i < a.len() ==> (#[trigger] a[i]) == b[i],
    ensures
        all_messages(start, a, ws, n) == all_messages(start, b, ws, n),
    decreases n,
{
    if n > 0 {
        messages_prefix(start, a, b, ws, (n - 1) as nat);
        assert(a[n - 1] == b[n - 1]);
    }
}

/// A history of exchanges is read back from the contents that it becomes,
/// behind whatever messages come first, without a warning on either side.
pub proof fn history_round_trip(
    all: Seq<ExchangeV>,
    st: TurnsV,
    as_text: bool,
    start: Seq<MessageV>,
    ws: Seq<ConversionWarningV>,
    n: nat,
)
    requires
        forall|i: int| 0 <= i < all.len() ==> plain_exchange(#[trigger] all[i]),
        forall|i: int| 0 < i < all.len() ==> #[trigger] sides_differ(all, i),
        history_of(all, all.len()).0.len() < u64::MAX,
        st.contents.len() == 0,
        st.last is None,
        n <= all.len(),
    ensures
        match turns(st, history_of(all, all.len()).0, 0, as_text, history_of(all, n).0.len()) {
            Ok(t) => {
                &&& t.contents.len() == n
                &&& t.last == (if n == 0 { None } else { Some(side_of_exchange(all[n - 1])) })
                &&& t.sink.warnings == st.sink.warnings
                &&& match decode_vec_content(t.contents, n) {
                    Ok(cs) => cs.len() == n && all_messages(start, cs, ws, n) == (
                        start + history_of(all, n).0,
                        history_of(all, n).1,
                        ws,
                    ),
                    Err(_) => false,
                }
            },
            Err(_) => false,
        },
    decreases n,
{
    let msgs = history_of(all, all.len()).0;
    if n == 0 {
        assert(start + Seq::<MessageV>::empty() =~= start);
    } else {
        let k = (n - 1) as nat;
        history_round_trip(all, st, as_text, start, ws, k);
        let (before, g) = history_of(all, k);
        let prev = turns(st, msgs, 0, as_text, before.len())->Ok_0;
        assert(plain_exchange(all[k as int]));
        groups_are_counted(all, k);
        exchange_is_in_place(all, k);
        if k > 0 {
            assert(sides_differ(all, k as int));
        }
        exchange_round_trip(st, prev, all[k as int], g, msgs, before.len(), as_text, k, ws);
        let ms = messages_of(all[k as int], (g + 1) as u64);
        let now = turns(st, msgs, 0, as_text, before.len() + ms.len())->Ok_0;
        assert(now.contents.take(k as int) =~= now.contents.drop_last());
        contents_prefix(prev.contents, now.contents, k);
        let cs0 = decode_vec_content(prev.contents, k)->Ok_0;
        let cs = decode_vec_content(now.contents, n)->Ok_0;
        messages_prefix(start, cs0, cs, ws, k);
        assert((start + before) + ms =~= start + (before + ms));
    }
}

} // verus!
