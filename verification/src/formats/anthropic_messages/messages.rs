//! The `messages` array of an Anthropic Messages request.

use vstd::prelude::*;
use crate::convert::warnings::warning;
use crate::convert::{ConversionDirection, ConversionWarning, ConversionWarningV, WarningCode};
use crate::error::{ConversionError, ConversionErrorV};
use crate::format::ANTHROPIC_MESSAGES;
use crate::formats::anthropic_messages::blocks::{block_value, convert_block};
use crate::formats::anthropic_messages::layout::{verbatim_value, verbatim_wire_message, wire_role_ir, wire_role_name, WirePlan, WirePlanV};
use crate::formats::anthropic_messages::system::{any_content, has_content, relocate, relocated};
use crate::history::{Pending, PendingV};
use crate::ir::{extra_merged, Message, MessageV, Role};
use crate::json::{make2, object2, Json, JsonV};
use crate::merge::MergeLog;
use crate::model::{group_views, views};
use crate::sink::{merge_noted, Sink, SinkV};
use crate::text::{cat2, cat3, cat4, dec_usize, decimal, join, joined};

verus! {

broadcast use group_views;

/// The wire messages so far.
pub struct WireV {
    pub wire: Seq<JsonV>,
    /// Location and role of each wire message.
    pub pointers: Seq<(Seq<char>, Role)>,
    /// For each IR message, the wire message that holds it.
    pub placed: Seq<Option<usize>>,
    pub sink: SinkV,
}

/// Wire messages under construction.
#[derive(Debug)]
pub struct Wire {
    pub wire: Vec<Json>,
    pub pointers: Vec<(String, Role)>,
    pub placed: Vec<Option<usize>>,
    pub sink: Sink,
}

impl View for Wire {
    type V = WireV;

    open spec fn view(&self) -> WireV {
        WireV {
            wire: views(self.wire@),
            pointers: views(self.pointers@),
            placed: self.placed@,
            sink: self.sink@,
        }
    }
}

/// Block `bi` of IR message `p`, as the next block of the wire message.
pub open spec fn content_step(
    st: (Seq<JsonV>, SinkV),
    m: MessageV,
    p: nat,
    bi: nat,
    msg_loc: Seq<char>,
    as_text: bool,
) -> Result<(Seq<JsonV>, SinkV), ConversionErrorV> {
    match block_value(
        m.role,
        m.content[bi as int],
        msg_loc + "/content/"@ + decimal(st.0.len()),
        "/messages/"@ + decimal(p) + "/content/"@ + decimal(bi),
        as_text,
        st.1,
    ) {
        Err(e) => Err(e),
        Ok((Some(v), s)) => Ok((st.0.push(v), s)),
        Ok((None, s)) => Ok((st.0, s)),
    }
}

/// The first `n` blocks of IR message `p`.
pub open spec fn content_blocks(
    st: (Seq<JsonV>, SinkV),
    m: MessageV,
    p: nat,
    msg_loc: Seq<char>,
    as_text: bool,
    n: nat,
) -> Result<(Seq<JsonV>, SinkV), ConversionErrorV>
    decreases n,
{
    if n == 0 || n > m.content.len() {
        Ok(st)
    } else {
        match content_blocks(st, m, p, msg_loc, as_text, (n - 1) as nat) {
            Err(e) => Err(e),
            Ok(prev) => content_step(prev, m, p, (n - 1) as nat, msg_loc, as_text),
        }
    }
}

/// The content of the first `n` parts of a plan.
pub open spec fn plan_content(
    msgs: Seq<MessageV>,
    parts: Seq<usize>,
    msg_loc: Seq<char>,
    as_text: bool,
    log: Seq<Seq<char>>,
    n: nat,
) -> Result<(Seq<JsonV>, SinkV), ConversionErrorV>
    decreases n,
{
    if n == 0 || n > parts.len() {
        Ok((Seq::empty(), SinkV { warnings: Seq::empty(), log }))
    } else {
        match plan_content(msgs, parts, msg_loc, as_text, log, (n - 1) as nat) {
            Err(e) => Err(e),
            Ok(prev) => {
                let p = parts[n - 1];
                if p < msgs.len() {
                    content_blocks(prev, msgs[p as int], p as nat, msg_loc, as_text, msgs[p as int].content.len())
                } else {
                    Ok(prev)
                }
            },
        }
    }
}

/// The indices of those among the first `n` parts that have content.
pub open spec fn content_indices(msgs: Seq<MessageV>, parts: Seq<usize>, n: nat) -> Seq<Seq<char>>
    decreases n,
{
    if n == 0 || n > parts.len() {
        Seq::empty()
    } else if has_content(msgs, parts[n - 1]) {
        content_indices(msgs, parts, (n - 1) as nat).push(decimal(parts[n - 1] as nat))
    } else {
        content_indices(msgs, parts, (n - 1) as nat)
    }
}

/// A wire message after the provider data of the first `n` parts was merged.
pub open spec fn merged_parts(
    v: JsonV,
    s: SinkV,
    msgs: Seq<MessageV>,
    parts: Seq<usize>,
    msg_loc: Seq<char>,
    n: nat,
) -> (JsonV, SinkV)
    decreases n,
{
    if n == 0 || n > parts.len() {
        (v, s)
    } else {
        let (v1, s1) = merged_parts(v, s, msgs, parts, msg_loc, (n - 1) as nat);
        let p = parts[n - 1];
        if p < msgs.len() {
            let extra = msgs[p as int].extra;
            (
                extra_merged(extra, ANTHROPIC_MESSAGES@, v1),
                merge_noted(s1, extra, ANTHROPIC_MESSAGES@, msg_loc),
            )
        } else {
            (v1, s1)
        }
    }
}

/// The placement after the first `n` parts were put into wire message `w`.
pub open spec fn placed_parts(placed: Seq<Option<usize>>, parts: Seq<usize>, w: usize, n: nat) -> Seq<Option<usize>>
    decreases n,
{
    if n == 0 || n > parts.len() {
        placed
    } else {
        let prev = placed_parts(placed, parts, w, (n - 1) as nat);
        if parts[n - 1] < prev.len() {
            prev.update(parts[n - 1] as int, Some(w))
        } else {
            prev
        }
    }
}

/// The warning about a wire message that lost all its content.
pub open spec fn empty_message_warning(msgs: Seq<MessageV>, parts: Seq<usize>) -> ConversionWarningV {
    warning(
        WarningCode::EmptyMessageDropped,
        ANTHROPIC_MESSAGES@,
        ConversionDirection::ToFormat,
        "/messages"@,
        "IR message(s) "@ + joined(content_indices(msgs, parts, parts.len()), ", "@)
            + " serialized to zero wire content (every block was dropped); the empty wire message was omitted"@,
    )
}

/// A plan that re-emits a whole wire message.
pub open spec fn verbatim_step(st: WireV, msgs: Seq<MessageV>, p: usize) -> WireV {
    let w = st.wire.len();
    let loc = "/messages/"@ + decimal(w);
    if p < msgs.len() && verbatim_value(msgs[p as int]) is Some {
        let m = msgs[p as int];
        WireV {
            wire: st.wire.push(extra_merged(m.extra, ANTHROPIC_MESSAGES@, verbatim_value(m)->0)),
            pointers: st.pointers.push((loc, m.role)),
            placed: placed_parts(st.placed, seq![p], w as usize, 1),
            sink: merge_noted(st.sink, m.extra, ANTHROPIC_MESSAGES@, loc),
        }
    } else {
        st
    }
}

/// The wire messages after one more plan. A plan whose content is all dropped
/// is omitted; its warnings then point at the array.
pub open spec fn wire_step(st: WireV, plan: WirePlanV, msgs: Seq<MessageV>, as_text: bool) -> Result<WireV, ConversionErrorV> {
    let w = st.wire.len();
    let loc = "/messages/"@ + decimal(w);
    if plan.verbatim {
        if plan.parts.len() > 0 {
            Ok(verbatim_step(st, msgs, plan.parts[0]))
        } else {
            Ok(st)
        }
    } else {
        match plan_content(msgs, plan.parts, loc, as_text, st.sink.log, plan.parts.len()) {
            Err(e) => Err(e),
            Ok((content, s)) => if content.len() == 0 && any_content(msgs, plan.parts) {
                Ok(
                    WireV {
                        sink: SinkV {
                            warnings: (st.sink.warnings + relocated(s.warnings, "/messages"@)).push(
                                empty_message_warning(msgs, plan.parts),
                            ),
                            log: s.log,
                        },
                        ..st
                    },
                )
            } else {
                let (v, s2) = merged_parts(
                    object2(
                        "role"@,
                        JsonV::Str(wire_role_name(plan.role)),
                        "content"@,
                        JsonV::Array(content),
                    ),
                    SinkV { warnings: st.sink.warnings + s.warnings, log: s.log },
                    msgs,
                    plan.parts,
                    loc,
                    plan.parts.len(),
                );
                Ok(
                    WireV {
                        wire: st.wire.push(v),
                        pointers: st.pointers.push((loc, wire_role_ir(plan.role))),
                        placed: placed_parts(st.placed, plan.parts, w as usize, plan.parts.len()),
                        sink: s2,
                    },
                )
            },
        }
    }
}

/// The wire messages of the first `n` plans.
pub open spec fn wire_messages(
    st: WireV,
    plans: Seq<WirePlanV>,
    msgs: Seq<MessageV>,
    as_text: bool,
    n: nat,
) -> Result<WireV, ConversionErrorV>
    decreases n,
{
    if n == 0 || n > plans.len() {
        Ok(st)
    } else {
        match wire_messages(st, plans, msgs, as_text, (n - 1) as nat) {
            Err(e) => Err(e),
            Ok(prev) => wire_step(prev, plans[n - 1], msgs, as_text),
        }
    }
}

/// Where a deferred warning points: at the wire message that holds its IR
/// message, or else at the array.
pub open spec fn pending_location(p: PendingV, placed: Seq<Option<usize>>) -> Seq<char> {
    let w = match p.message {
        Some(i) => if i < placed.len() { placed[i as int] } else { None },
        None => None,
    };
    match w {
        Some(w) => if p.at_first_block {
            "/messages/"@ + decimal(w as nat) + "/content/0"@
        } else {
            "/messages/"@ + decimal(w as nat)
        },
        None => "/messages"@,
    }
}

/// The first `n` deferred warnings at their final locations.
pub open spec fn resolved(pending: Seq<PendingV>, placed: Seq<Option<usize>>, n: nat) -> Seq<ConversionWarningV>
    decreases n,
{
    if n == 0 || n > pending.len() {
        Seq::empty()
    } else {
        resolved(pending, placed, (n - 1) as nat).push(
            warning(
                pending[n - 1].code,
                ANTHROPIC_MESSAGES@,
                ConversionDirection::ToFormat,
                pending_location(pending[n - 1], placed),
                pending[n - 1].text,
            ),
        )
    }
}

proof fn content_blocks_error_stays(
    st: (Seq<JsonV>, SinkV),
    msg: MessageV,
    p: nat,
    loc: Seq<char>,
    as_text: bool,
    n: nat,
    m: nat,
)
    requires
        n <= m <= msg.content.len(),
        content_blocks(st, msg, p, loc, as_text, n) is Err,
    ensures
        content_blocks(st, msg, p, loc, as_text, m) == content_blocks(st, msg, p, loc, as_text, n),
    decreases m - n,
{
    if n < m {
        content_blocks_error_stays(st, msg, p, loc, as_text, n, (m - 1) as nat);
    }
}

proof fn plan_content_error_stays(
    msgs: Seq<MessageV>,
    parts: Seq<usize>,
    loc: Seq<char>,
    as_text: bool,
    log: Seq<Seq<char>>,
    n: nat,
    m: nat,
)
    requires
        n <= m <= parts.len(),
        plan_content(msgs, parts, loc, as_text, log, n) is Err,
    ensures
        plan_content(msgs, parts, loc, as_text, log, m) == plan_content(msgs, parts, loc, as_text, log, n),
    decreases m - n,
{
    if n < m {
        plan_content_error_stays(msgs, parts, loc, as_text, log, n, (m - 1) as nat);
    }
}

proof fn wire_messages_error_stays(
    st: WireV,
    plans: Seq<WirePlanV>,
    msgs: Seq<MessageV>,
    as_text: bool,
    n: nat,
    m: nat,
)
    requires
        n <= m <= plans.len(),
        wire_messages(st, plans, msgs, as_text, n) is Err,
    ensures
        wire_messages(st, plans, msgs, as_text, m) == wire_messages(st, plans, msgs, as_text, n),
    decreases m - n,
{
    if n < m {
        wire_messages_error_stays(st, plans, msgs, as_text, n, (m - 1) as nat);
    }
}

fn push_blocks(
    content: &mut Vec<Json>,
    sink: &mut Sink,
    m: &Message,
    p: usize,
    msg_loc: &str,
    as_text: bool,
) -> (r: Result<(), ConversionError>)
    ensures
        match r {
            Ok(_) => content_blocks(
                (views(old(content)@), old(sink)@),
                m@,
                p as nat,
                msg_loc@,
                as_text,
                m@.content.len(),
            ) == Ok::<(Seq<JsonV>, SinkV), ConversionErrorV>((views(final(content)@), final(sink)@)),
            Err(e) => content_blocks(
                (views(old(content)@), old(sink)@),
                m@,
                p as nat,
                msg_loc@,
                as_text,
                m@.content.len(),
            ) == Err::<(Seq<JsonV>, SinkV), ConversionErrorV>(e@),
        },
{
    let ghost st = (views(content@), sink@);
    let mut bi: usize = 0;
    while bi < m.content.len()
        invariant
            bi <= m.content@.len(),
            st == (views(old(content)@), old(sink)@),
            content_blocks(st, m@, p as nat, msg_loc@, as_text, bi as nat) == Ok::<
                (Seq<JsonV>, SinkV),
                ConversionErrorV,
            >((views(content@), sink@)),
        decreases m.content@.len() - bi,
    {
        let block_loc = cat3(msg_loc, "/content/", dec_usize(content.len()).as_str());
        let ir_loc = cat4("/messages/", dec_usize(p).as_str(), "/content/", dec_usize(bi).as_str());
        match convert_block(m.role, &m.content[bi], block_loc.as_str(), ir_loc.as_str(), as_text, sink) {
            Ok(Some(v)) => {
                content.push(v);
            },
            Ok(None) => {},
            Err(e) => {
                proof {
                    content_blocks_error_stays(st, m@, p as nat, msg_loc@, as_text, bi as nat + 1, m@.content.len());
                }
                return Err(e);
            },
        }
        bi += 1;
    }
    Ok(())
}

fn build_content(
    messages: &Vec<Message>,
    parts: &Vec<usize>,
    msg_loc: &str,
    as_text: bool,
    content: &mut Vec<Json>,
    sink: &mut Sink,
) -> (r: Result<(), ConversionError>)
    requires
        old(content)@.len() == 0,
        old(sink)@.warnings.len() == 0,
    ensures
        match r {
            Ok(_) => plan_content(views(messages@), parts@, msg_loc@, as_text, old(sink)@.log, parts@.len())
                == Ok::<(Seq<JsonV>, SinkV), ConversionErrorV>((views(final(content)@), final(sink)@)),
            Err(e) => plan_content(views(messages@), parts@, msg_loc@, as_text, old(sink)@.log, parts@.len())
                == Err::<(Seq<JsonV>, SinkV), ConversionErrorV>(e@),
        },
{
    let ghost log = sink@.log;
    let ghost msgs = views(messages@);
    proof {
        assert(sink@.warnings =~= Seq::empty());
    }
    let mut k: usize = 0;
    while k < parts.len()
        invariant
            k <= parts@.len(),
            msgs == views(messages@),
            log == old(sink)@.log,
            plan_content(msgs, parts@, msg_loc@, as_text, log, k as nat) == Ok::<
                (Seq<JsonV>, SinkV),
                ConversionErrorV,
            >((views(content@), sink@)),
        decreases parts@.len() - k,
    {
        let p: usize = parts[k];
        if p < messages.len() {
            proof {
                assert(msgs[p as int] == messages@[p as int]@);
            }
            match push_blocks(content, sink, &messages[p], p, msg_loc, as_text) {
                Ok(_) => {},
                Err(e) => {
                    proof {
                        plan_content_error_stays(msgs, parts@, msg_loc@, as_text, log, k as nat + 1, parts@.len());
                    }
                    return Err(e);
                },
            }
        }
        k += 1;
    }
    Ok(())
}

fn parts_have_content(messages: &Vec<Message>, parts: &Vec<usize>) -> (r: Vec<String>)
    ensures
        views(r@) == content_indices(views(messages@), parts@, parts@.len()),
        r@.len() > 0 <==> any_content(views(messages@), parts@),
{
    let ghost msgs = views(messages@);
    let mut out: Vec<String> = Vec::new();
    let mut k: usize = 0;
    while k < parts.len()
        invariant
            k <= parts@.len(),
            msgs == views(messages@),
            views(out@) == content_indices(msgs, parts@, k as nat),
            out@.len() == 0 ==> forall|j: int| 0 <= j < k ==> !has_content(msgs, #[trigger] parts@[j]),
            out@.len() > 0 ==> any_content(msgs, parts@),
        decreases parts@.len() - k,
    {
        let p: usize = parts[k];
        if p < messages.len() && messages[p].content.len() > 0 {
            out.push(dec_usize(p));
            proof {
                assert(has_content(msgs, parts@[k as int]));
            }
        }
        k += 1;
    }
    out
}

fn merge_parts(v: &mut Json, sink: &mut Sink, messages: &Vec<Message>, parts: &Vec<usize>, msg_loc: &str)
    ensures
        (final(v)@, final(sink)@) == merged_parts(
            old(v)@,
            old(sink)@,
            views(messages@),
            parts@,
            msg_loc@,
            parts@.len(),
        ),
{
    let ghost v0 = v@;
    let ghost s0 = sink@;
    let ghost msgs = views(messages@);
    let mut k: usize = 0;
    while k < parts.len()
        invariant
            k <= parts@.len(),
            msgs == views(messages@),
            (v@, sink@) == merged_parts(v0, s0, msgs, parts@, msg_loc@, k as nat),
        decreases parts@.len() - k,
    {
        let p: usize = parts[k];
        if p < messages.len() {
            proof {
                assert(msgs[p as int] == messages@[p as int]@);
            }
            sink.merge(&messages[p].extra, ANTHROPIC_MESSAGES, v, msg_loc);
        }
        k += 1;
    }
}

fn place_parts(placed: &mut Vec<Option<usize>>, parts: &Vec<usize>, w: usize)
    ensures
        final(placed)@ == placed_parts(old(placed)@, parts@, w, parts@.len()),
{
    let ghost p0 = placed@;
    let mut k: usize = 0;
    while k < parts.len()
        invariant
            k <= parts@.len(),
            placed@ == placed_parts(p0, parts@, w, k as nat),
        decreases parts@.len() - k,
    {
        let p: usize = parts[k];
        if p < placed.len() {
            placed[p] = Some(w);
        }
        k += 1;
    }
}

fn take_log(sink: &mut Sink) -> (r: MergeLog)
    ensures
        r@ == old(sink)@.log,
        final(sink)@ == (SinkV { warnings: old(sink)@.warnings, log: Seq::empty() }),
{
    let mut log = MergeLog::new();
    std::mem::swap(&mut sink.log, &mut log);
    log
}

fn push_verbatim(st: &mut Wire, messages: &Vec<Message>, p: usize)
    ensures
        final(st)@ == verbatim_step(old(st)@, views(messages@), p),
{
    if p < messages.len() {
        let m = &messages[p];
        proof {
            assert(views(messages@)[p as int] == m@);
        }
        if let Some(value) = verbatim_wire_message(m) {
            let w = st.wire.len();
            let loc = cat2("/messages/", dec_usize(w).as_str());
            let mut v = value.copy();
            st.sink.merge(&m.extra, ANTHROPIC_MESSAGES, &mut v, loc.as_str());
            let mut one: Vec<usize> = Vec::new();
            one.push(p);
            proof {
                assert(one@ =~= seq![p]);
            }
            place_parts(&mut st.placed, &one, w);
            st.wire.push(v);
            st.pointers.push((loc, m.role));
        }
    }
}

fn push_plan(st: &mut Wire, plan: &WirePlan, messages: &Vec<Message>, as_text: bool) -> (r: Result<(), ConversionError>)
    ensures
        match r {
            Ok(_) => wire_step(old(st)@, plan@, views(messages@), as_text) == Ok::<WireV, ConversionErrorV>(final(st)@),
            Err(e) => wire_step(old(st)@, plan@, views(messages@), as_text) == Err::<WireV, ConversionErrorV>(e@),
        },
{
    if plan.verbatim {
        if plan.parts.len() > 0 {
            push_verbatim(st, messages, plan.parts[0]);
        }
        return Ok(());
    }
    let w = st.wire.len();
    let loc = cat2("/messages/", dec_usize(w).as_str());
    let mut content: Vec<Json> = Vec::new();
    let log = take_log(&mut st.sink);
    let mut inner = Sink { warnings: Vec::new(), log };
    match build_content(messages, &plan.parts, loc.as_str(), as_text, &mut content, &mut inner) {
        Ok(_) => {},
        Err(e) => {
            return Err(e);
        },
    }
    let names = parts_have_content(messages, &plan.parts);
    let ghost innerv = inner@;
    let ghost st0 = old(st)@;
    st.sink.log = inner.log;
    if content.len() == 0 && names.len() > 0 {
        let mut ws = relocate(inner.warnings, "/messages");
        st.sink.warnings.append(&mut ws);
        st.sink.warnings.push(
            ConversionWarning::to_format(
                WarningCode::EmptyMessageDropped,
                ANTHROPIC_MESSAGES,
                "/messages",
                cat3(
                    "IR message(s) ",
                    join(&names, ", ").as_str(),
                    " serialized to zero wire content (every block was dropped); the empty wire message was omitted",
                ).as_str(),
            ),
        );
        return Ok(());
    }
    let mut ws = inner.warnings;
    st.sink.warnings.append(&mut ws);
    let mut v = make2("role", Json::text(plan.role.as_str()), "content", Json::array(content));
    merge_parts(&mut v, &mut st.sink, messages, &plan.parts, loc.as_str());
    place_parts(&mut st.placed, &plan.parts, w);
    st.wire.push(v);
    st.pointers.push((loc, plan.role.ir_role()));
    Ok(())
}

/// Builds the wire messages of the plans.
pub fn build_messages(st: &mut Wire, plans: &Vec<WirePlan>, messages: &Vec<Message>, as_text: bool) -> (r: Result<(), ConversionError>)
    ensures
        match r {
            Ok(_) => wire_messages(old(st)@, views(plans@), views(messages@), as_text, plans@.len()) == Ok::<
                WireV,
                ConversionErrorV,
            >(final(st)@),
            Err(e) => wire_messages(old(st)@, views(plans@), views(messages@), as_text, plans@.len()) == Err::<
                WireV,
                ConversionErrorV,
            >(e@),
        },
{
    let ghost st0 = st@;
    let ghost msgs = views(messages@);
    let mut k: usize = 0;
    while k < plans.len()
        invariant
            k <= plans@.len(),
            st0 == old(st)@,
            msgs == views(messages@),
            wire_messages(st0, views(plans@), msgs, as_text, k as nat) == Ok::<WireV, ConversionErrorV>(st@),
        decreases plans@.len() - k,
    {
        match push_plan(st, &plans[k], messages, as_text) {
            Ok(_) => {},
            Err(e) => {
                proof {
                    wire_messages_error_stays(st0, views(plans@), msgs, as_text, k as nat + 1, plans@.len());
                }
                return Err(e);
            },
        }
        k += 1;
    }
    Ok(())
}

fn locate(p: &Pending, placed: &Vec<Option<usize>>) -> (r: String)
    ensures
        r@ == pending_location(p@, placed@),
{
    let w = match p.message {
        Some(i) => if i < placed.len() { placed[i] } else { None },
        None => None,
    };
    match w {
        Some(w) => if p.at_first_block {
            cat3("/messages/", dec_usize(w).as_str(), "/content/0")
        } else {
            cat2("/messages/", dec_usize(w).as_str())
        },
        None => "/messages".to_owned(),
    }
}

/// Adds the deferred warnings at their final locations.
pub fn resolve_pending(pending: &Vec<Pending>, placed: &Vec<Option<usize>>, sink: &mut Sink)
    ensures
        final(sink)@ == (SinkV {
            warnings: old(sink)@.warnings + resolved(views(pending@), placed@, pending@.len()),
            log: old(sink)@.log,
        }),
{
    let ghost s0 = sink@;
    let mut k: usize = 0;
    proof {
        assert(sink@.warnings =~= s0.warnings + resolved(views(pending@), placed@, 0));
    }
    while k < pending.len()
        invariant
            k <= pending@.len(),
            sink@ == (SinkV {
                warnings: s0.warnings + resolved(views(pending@), placed@, k as nat),
                log: s0.log,
            }),
        decreases pending@.len() - k,
    {
        let p = &pending[k];
        let loc = locate(p, placed);
        sink.warn(ANTHROPIC_MESSAGES, p.code, loc.as_str(), p.text.as_str());
        proof {
            assert(sink@.warnings =~= s0.warnings + resolved(views(pending@), placed@, k as nat + 1));
        }
        k += 1;
    }
}

} // verus!
