//! The top-level `system` channel of Anthropic Messages.

use vstd::prelude::*;
use crate::convert::warnings::warning;
use crate::convert::{ConversionDirection, ConversionWarning, ConversionWarningV, WarningCode};
use crate::error::{ConversionError, ConversionErrorV};
use crate::format::ANTHROPIC_MESSAGES;
use crate::formats::anthropic_messages::blocks::{cache_control_value, invalid_block, make_text, text_value, with_cache};
use crate::ir::{extra_has, extra_merged, CacheHint, CacheHintV, ContentBlock, ContentBlockV, Extra, ExtraV, Message, MessageV, Role};
use crate::json::{Json, JsonV};
use crate::model::{dup_opt, group_views, opt_view, opt_views, views, Dup};
use crate::sink::{merge_noted, Sink, SinkV};
use crate::text::{cat2, cat3, cat4, dec_usize, decimal, text_is};

verus! {

broadcast use group_views;

/// One prospective entry of the `system` array.
#[derive(Debug, PartialEq, Eq)]
pub struct Entry {
    pub value: Json,
    /// Provider data of the block, still to be merged.
    pub extra: Option<Extra>,
    /// The text, where the entry could stand as a bare string.
    pub plain: Option<String>,
}

/// The mathematical value of a [`Entry`].
pub struct EntryV {
    pub value: JsonV,
    pub extra: Option<ExtraV>,
    pub plain: Option<Seq<char>>,
}

impl View for Entry {
    type V = EntryV;

    open spec fn view(&self) -> EntryV {
        EntryV {
            value: self.value@,
            extra: opt_view(self.extra),
            plain: opt_view(self.plain),
        }
    }
}

impl Dup for Entry {
    fn dup(&self) -> (r: Self) {
        Entry {
            value: self.value.dup(),
            extra: dup_opt(&self.extra),
            plain: dup_opt(&self.plain),
        }
    }
}

/// The entry of a text block.
pub open spec fn text_entry(text: Seq<char>, cache: Option<CacheHintV>, extra: ExtraV) -> EntryV {
    EntryV {
        value: with_cache(text_value(text), cache),
        extra: Some(extra),
        plain: if cache is None && !extra_has(extra, ANTHROPIC_MESSAGES@) { Some(text) } else { None },
    }
}

/// The entries of the first `n` blocks of the request's system prompt, which
/// allows text alone.
pub open spec fn prompt_entries(system: Seq<ContentBlockV>, n: nat) -> Result<Seq<EntryV>, ConversionErrorV>
    decreases n,
{
    if n == 0 || n > system.len() {
        Ok(Seq::empty())
    } else {
        match prompt_entries(system, (n - 1) as nat) {
            Err(e) => Err(e),
            Ok(prev) => match system[n - 1] {
                ContentBlockV::Text { text, cache, extra } => Ok(prev.push(text_entry(text, cache, extra))),
                b => Err(invalid_block(Role::System, b, "/system/"@ + decimal((n - 1) as nat))),
            },
        }
    }
}

/// What hoisting has produced so far.
pub struct HoistV {
    pub entries: Seq<EntryV>,
    /// Message-level provider data, with the entry that it merges into.
    pub extras: Seq<(usize, ExtraV)>,
    pub warnings: Seq<ConversionWarningV>,
}

/// Hoisting under construction.
#[derive(Debug)]
pub struct Hoist {
    pub entries: Vec<Entry>,
    pub extras: Vec<(usize, Extra)>,
    pub warnings: Vec<ConversionWarning>,
}

impl View for Hoist {
    type V = HoistV;

    open spec fn view(&self) -> HoistV {
        HoistV {
            entries: views(self.entries@),
            extras: views(self.extras@),
            warnings: views(self.warnings@),
        }
    }
}

/// A build-side warning of this format.
pub open spec fn sys_warning(code: WarningCode, location: Seq<char>, message: Seq<char>) -> ConversionWarningV {
    warning(code, ANTHROPIC_MESSAGES@, ConversionDirection::ToFormat, location, message)
}

/// Block `bi` of hoisted message `i`.
pub open spec fn hoist_block(h: HoistV, b: ContentBlockV, i: nat, bi: nat) -> Result<HoistV, ConversionErrorV> {
    match b {
        ContentBlockV::Text { text, cache, extra } => Ok(
            HoistV { entries: h.entries.push(text_entry(text, cache, extra)), ..h },
        ),
        ContentBlockV::Opaque { format, value } => if format == ANTHROPIC_MESSAGES@ {
            Ok(HoistV { entries: h.entries.push(EntryV { value, extra: None, plain: None }), ..h })
        } else {
            Ok(
                HoistV {
                    warnings: h.warnings.push(
                        sys_warning(
                            WarningCode::OpaqueDropped,
                            "/system/"@ + decimal(h.entries.len()),
                            "opaque block belongs to format `"@ + format + "`; dropped"@,
                        ),
                    ),
                    ..h
                },
            )
        },
        _ => Err(
            invalid_block(Role::System, b, "/messages/"@ + decimal(i) + "/content/"@ + decimal(bi)),
        ),
    }
}

/// The first `n` blocks of hoisted message `i`.
pub open spec fn hoist_blocks(h: HoistV, m: MessageV, i: nat, n: nat) -> Result<HoistV, ConversionErrorV>
    decreases n,
{
    if n == 0 || n > m.content.len() {
        Ok(h)
    } else {
        match hoist_blocks(h, m, i, (n - 1) as nat) {
            Err(e) => Err(e),
            Ok(prev) => hoist_block(prev, m.content[n - 1], i, (n - 1) as nat),
        }
    }
}

/// Hoisted message `i`: its blocks, and its provider data for the first entry
/// that it produced.
pub open spec fn hoist_message(h: HoistV, m: MessageV, i: nat) -> Result<HoistV, ConversionErrorV> {
    match hoist_blocks(h, m, i, m.content.len()) {
        Err(e) => Err(e),
        Ok(h2) => if h2.entries.len() > h.entries.len() && extra_has(m.extra, ANTHROPIC_MESSAGES@) {
            Ok(HoistV { extras: h2.extras.push((h.entries.len() as usize, m.extra)), ..h2 })
        } else {
            Ok(h2)
        },
    }
}

/// The first `n` hoisted messages.
pub open spec fn hoist_all(h: HoistV, msgs: Seq<MessageV>, hoisted: Seq<usize>, n: nat) -> Result<HoistV, ConversionErrorV>
    decreases n,
{
    if n == 0 || n > hoisted.len() {
        Ok(h)
    } else {
        match hoist_all(h, msgs, hoisted, (n - 1) as nat) {
            Err(e) => Err(e),
            Ok(prev) => if hoisted[n - 1] < msgs.len() {
                hoist_message(prev, msgs[hoisted[n - 1] as int], hoisted[n - 1] as nat)
            } else {
                Ok(prev)
            },
        }
    }
}

/// The warnings, all pointing at `location`.
pub open spec fn relocated(ws: Seq<ConversionWarningV>, location: Seq<char>) -> Seq<ConversionWarningV> {
    ws.map_values(|w: ConversionWarningV| ConversionWarningV { location, ..w })
}

/// Message `i` has content.
pub open spec fn has_content(msgs: Seq<MessageV>, i: usize) -> bool {
    i < msgs.len() && msgs[i as int].content.len() > 0
}

/// Some of the messages has content.
pub open spec fn any_content(msgs: Seq<MessageV>, parts: Seq<usize>) -> bool {
    exists|k: int| 0 <= k < parts.len() && has_content(msgs, #[trigger] parts[k])
}

/// The warnings about provider data of hoisted messages that lost its place,
/// for the first `n` of them.
pub open spec fn lost_extras(msgs: Seq<MessageV>, hoisted: Seq<usize>, n: nat) -> Seq<ConversionWarningV>
    decreases n,
{
    if n == 0 || n > hoisted.len() {
        Seq::empty()
    } else {
        let prev = lost_extras(msgs, hoisted, (n - 1) as nat);
        let i = hoisted[n - 1];
        if has_content(msgs, i) && extra_has(msgs[i as int].extra, ANTHROPIC_MESSAGES@) {
            prev.push(
                sys_warning(
                    WarningCode::ExtraDropped,
                    "/system"@,
                    "message-level `extra` of hoisted system message "@ + decimal(i as nat)
                        + " has no wire location (the `system` channel was omitted) and was dropped"@,
                ),
            )
        } else {
            prev
        }
    }
}

/// The warnings when the system channel came out empty.
pub open spec fn empty_channel_warnings(
    warnings: Seq<ConversionWarningV>,
    system: Option<Seq<ContentBlockV>>,
    msgs: Seq<MessageV>,
    hoisted: Seq<usize>,
) -> Seq<ConversionWarningV> {
    if (system is Some && system->0.len() > 0) || any_content(msgs, hoisted) {
        relocated(warnings, "/system"@).push(
            sys_warning(
                WarningCode::EmptyMessageDropped,
                "/system"@,
                "the system channel serialized to zero wire content (every block was dropped); the `system` key was omitted"@,
            ),
        ) + lost_extras(msgs, hoisted, hoisted.len())
    } else {
        warnings
    }
}

/// The message-level provider data for entry `j`, searched from position `k`.
pub open spec fn extra_at(extras: Seq<(usize, ExtraV)>, j: nat, k: int) -> Option<ExtraV>
    decreases extras.len() - k,
{
    if k < 0 || k >= extras.len() {
        None
    } else if extras[k].0 == j {
        Some(extras[k].1)
    } else {
        extra_at(extras, j, k + 1)
    }
}

/// Entry `j` with the provider data of its block and of its message.
pub open spec fn entry_value(e: EntryV, extras: Seq<(usize, ExtraV)>, j: nat, s: SinkV) -> (JsonV, SinkV) {
    let loc = "/system/"@ + decimal(j);
    let (v1, s1) = match e.extra {
        Some(x) => (extra_merged(x, ANTHROPIC_MESSAGES@, e.value), merge_noted(s, x, ANTHROPIC_MESSAGES@, loc)),
        None => (e.value, s),
    };
    match extra_at(extras, j, 0) {
        Some(x) => (extra_merged(x, ANTHROPIC_MESSAGES@, v1), merge_noted(s1, x, ANTHROPIC_MESSAGES@, loc)),
        None => (v1, s1),
    }
}

/// The first `n` entries of the array form.
pub open spec fn entry_values(entries: Seq<EntryV>, extras: Seq<(usize, ExtraV)>, s: SinkV, n: nat) -> (Seq<JsonV>, SinkV)
    decreases n,
{
    if n == 0 || n > entries.len() {
        (Seq::empty(), s)
    } else {
        let (prev, s1) = entry_values(entries, extras, s, (n - 1) as nat);
        let (v, s2) = entry_value(entries[n - 1], extras, (n - 1) as nat, s1);
        (prev.push(v), s2)
    }
}

/// The `system` value: nothing without content, a string for exactly one plain
/// text, else an array.
pub open spec fn system_value(
    system: Option<Seq<ContentBlockV>>,
    msgs: Seq<MessageV>,
    hoisted: Seq<usize>,
    s: SinkV,
) -> Result<(Option<JsonV>, SinkV), ConversionErrorV> {
    let prompt = match system {
        Some(blocks) => prompt_entries(blocks, blocks.len()),
        None => Ok(Seq::empty()),
    };
    match prompt {
        Err(e) => Err(e),
        Ok(entries) => match hoist_all(
            HoistV { entries, extras: Seq::empty(), warnings: Seq::empty() },
            msgs,
            hoisted,
            hoisted.len(),
        ) {
            Err(e) => Err(e),
            Ok(h) => if h.entries.len() == 0 {
                Ok(
                    (
                        None,
                        SinkV {
                            warnings: s.warnings + empty_channel_warnings(h.warnings, system, msgs, hoisted),
                            log: s.log,
                        },
                    ),
                )
            } else {
                let s1 = SinkV { warnings: s.warnings + h.warnings, log: s.log };
                if h.entries.len() == 1 && h.entries[0].plain is Some && h.extras.len() == 0 {
                    Ok((Some(JsonV::Str(h.entries[0].plain->0)), s1))
                } else {
                    let (values, s2) = entry_values(h.entries, h.extras, s1, h.entries.len());
                    Ok((Some(JsonV::Array(values)), s2))
                }
            },
        },
    }
}

fn make_entry(text: &String, cache: &Option<CacheHint>, extra: &Extra) -> (r: Entry)
    ensures
        r@ == text_entry(text@, opt_view(*cache), extra@),
{
    let mut value = make_text(text);
    if let Some(h) = cache {
        value.put("cache_control", cache_control_value(h));
    }
    let plain = if cache.is_none() && !extra.has(ANTHROPIC_MESSAGES) {
        Some(text.clone())
    } else {
        None
    };
    Entry { value, extra: Some(extra.dup()), plain }
}

fn collect_prompt(system: &Vec<ContentBlock>) -> (r: Result<Vec<Entry>, ConversionError>)
    ensures
        match r {
            Ok(v) => prompt_entries(views(system@), system@.len()) == Ok::<Seq<EntryV>, ConversionErrorV>(views(v@)),
            Err(e) => prompt_entries(views(system@), system@.len()) == Err::<Seq<EntryV>, ConversionErrorV>(e@),
        },
{
    let mut out: Vec<Entry> = Vec::new();
    let mut i: usize = 0;
    while i < system.len()
        invariant
            i <= system@.len(),
            prompt_entries(views(system@), i as nat) == Ok::<Seq<EntryV>, ConversionErrorV>(views(out@)),
        decreases system@.len() - i,
    {
        proof {
            assert(views(system@)[i as int] == system@[i as int]@);
        }
        match &system[i] {
            ContentBlock::Text { text, cache, extra } => {
                out.push(make_entry(text, cache, extra));
            },
            b => {
                let e = ConversionError::invalid_block_for_role(
                    Role::System,
                    b.kind_name(),
                    cat2("/system/", dec_usize(i).as_str()).as_str(),
                );
                proof {
                    prompt_error_stays(views(system@), i as nat + 1, system@.len());
                }
                return Err(e);
            },
        }
        i += 1;
    }
    Ok(out)
}

/// An error among the first blocks is the error of all of them.
proof fn prompt_error_stays(system: Seq<ContentBlockV>, n: nat, m: nat)
    requires
        n <= m <= system.len(),
        prompt_entries(system, n) is Err,
    ensures
        prompt_entries(system, m) == prompt_entries(system, n),
    decreases m - n,
{
    if n < m {
        prompt_error_stays(system, n, (m - 1) as nat);
    }
}

proof fn hoist_blocks_error_stays(h: HoistV, msg: MessageV, i: nat, n: nat, m: nat)
    requires
        n <= m <= msg.content.len(),
        hoist_blocks(h, msg, i, n) is Err,
    ensures
        hoist_blocks(h, msg, i, m) == hoist_blocks(h, msg, i, n),
    decreases m - n,
{
    if n < m {
        hoist_blocks_error_stays(h, msg, i, n, (m - 1) as nat);
    }
}

proof fn hoist_all_error_stays(h: HoistV, msgs: Seq<MessageV>, hoisted: Seq<usize>, n: nat, m: nat)
    requires
        n <= m <= hoisted.len(),
        hoist_all(h, msgs, hoisted, n) is Err,
    ensures
        hoist_all(h, msgs, hoisted, m) == hoist_all(h, msgs, hoisted, n),
    decreases m - n,
{
    if n < m {
        hoist_all_error_stays(h, msgs, hoisted, n, (m - 1) as nat);
    }
}

fn hoist_one(h: &mut Hoist, b: &ContentBlock, i: usize, bi: usize) -> (r: Result<(), ConversionError>)
    ensures
        match r {
            Ok(_) => hoist_block(old(h)@, b@, i as nat, bi as nat) == Ok::<HoistV, ConversionErrorV>(final(h)@),
            Err(e) => hoist_block(old(h)@, b@, i as nat, bi as nat) == Err::<HoistV, ConversionErrorV>(e@),
        },
{
    match b {
        ContentBlock::Text { text, cache, extra } => {
            h.entries.push(make_entry(text, cache, extra));
            Ok(())
        },
        ContentBlock::Opaque { format, value } => {
            if text_is(format, ANTHROPIC_MESSAGES) {
                h.entries.push(Entry { value: value.copy(), extra: None, plain: None });
            } else {
                let w = ConversionWarning::to_format(
                    WarningCode::OpaqueDropped,
                    ANTHROPIC_MESSAGES,
                    cat2("/system/", dec_usize(h.entries.len()).as_str()).as_str(),
                    cat3("opaque block belongs to format `", format.as_str(), "`; dropped").as_str(),
                );
                h.warnings.push(w);
            }
            Ok(())
        },
        _ => Err(
            ConversionError::invalid_block_for_role(
                Role::System,
                b.kind_name(),
                cat4("/messages/", dec_usize(i).as_str(), "/content/", dec_usize(bi).as_str()).as_str(),
            ),
        ),
    }
}

fn hoist(h: &mut Hoist, m: &Message, i: usize) -> (r: Result<(), ConversionError>)
    ensures
        match r {
            Ok(_) => hoist_message(old(h)@, m@, i as nat) == Ok::<HoistV, ConversionErrorV>(final(h)@),
            Err(e) => hoist_message(old(h)@, m@, i as nat) == Err::<HoistV, ConversionErrorV>(e@),
        },
{
    let ghost h0 = h@;
    let first = h.entries.len();
    let mut bi: usize = 0;
    while bi < m.content.len()
        invariant
            bi <= m.content@.len(),
            h0 == old(h)@,
            hoist_blocks(h0, m@, i as nat, bi as nat) == Ok::<HoistV, ConversionErrorV>(h@),
        decreases m.content@.len() - bi,
    {
        proof {
            assert(m@.content[bi as int] == m.content@[bi as int]@);
        }
        match hoist_one(h, &m.content[bi], i, bi) {
            Ok(_) => {},
            Err(e) => {
                proof {
                    hoist_blocks_error_stays(h0, m@, i as nat, bi as nat + 1, m@.content.len());
                }
                return Err(e);
            },
        }
        bi += 1;
    }
    if h.entries.len() > first && m.extra.has(ANTHROPIC_MESSAGES) {
        h.extras.push((first, m.extra.dup()));
    }
    Ok(())
}

fn any_has_content(messages: &Vec<Message>, parts: &Vec<usize>) -> (r: bool)
    ensures
        r == any_content(views(messages@), parts@),
{
    let mut k: usize = 0;
    while k < parts.len()
        invariant
            k <= parts@.len(),
            forall|j: int| 0 <= j < k ==> !has_content(views(messages@), #[trigger] parts@[j]),
        decreases parts@.len() - k,
    {
        let p: usize = parts[k];
        if p < messages.len() && messages[p].content.len() > 0 {
            proof {
                assert(has_content(views(messages@), parts@[k as int]));
            }
            return true;
        }
        k += 1;
    }
    false
}

/// Points every warning at `location`.
pub fn relocate(ws: Vec<ConversionWarning>, location: &str) -> (r: Vec<ConversionWarning>)
    ensures
        views(r@) == relocated(views(ws@), location@),
{
    let mut out: Vec<ConversionWarning> = Vec::new();
    let ghost all = relocated(views(ws@), location@);
    let mut i: usize = 0;
    while i < ws.len()
        invariant
            i <= ws@.len(),
            all == relocated(views(ws@), location@),
            views(out@) == all.take(i as int),
        decreases ws@.len() - i,
    {
        let mut w = ws[i].dup();
        w.location = location.to_owned();
        out.push(w);
        proof {
            assert(all[i as int] == w@);
            assert(all.take(i as int + 1) =~= all.take(i as int).push(all[i as int]));
        }
        i += 1;
    }
    proof {
        assert(all.take(i as int) =~= all);
    }
    out
}

fn push_lost_extras(messages: &Vec<Message>, hoisted: &Vec<usize>, ws: &mut Vec<ConversionWarning>)
    ensures
        views(final(ws)@) == views(old(ws)@) + lost_extras(views(messages@), hoisted@, hoisted@.len()),
{
    let ghost w0 = views(ws@);
    let mut k: usize = 0;
    proof {
        assert(views(ws@) =~= w0 + lost_extras(views(messages@), hoisted@, 0));
    }
    while k < hoisted.len()
        invariant
            k <= hoisted@.len(),
            views(ws@) == w0 + lost_extras(views(messages@), hoisted@, k as nat),
        decreases hoisted@.len() - k,
    {
        let i: usize = hoisted[k];
        if i < messages.len() && messages[i].content.len() > 0 && messages[i].extra.has(ANTHROPIC_MESSAGES) {
            ws.push(
                ConversionWarning::to_format(
                    WarningCode::ExtraDropped,
                    ANTHROPIC_MESSAGES,
                    "/system",
                    cat3(
                        "message-level `extra` of hoisted system message ",
                        dec_usize(i).as_str(),
                        " has no wire location (the `system` channel was omitted) and was dropped",
                    ).as_str(),
                ),
            );
            proof {
                assert(has_content(views(messages@), i));
                assert(views(ws@) =~= w0 + lost_extras(views(messages@), hoisted@, k as nat + 1));
            }
        } else {
            proof {
                assert(!(has_content(views(messages@), i) && extra_has(views(messages@)[i as int].extra, ANTHROPIC_MESSAGES@)));
            }
        }
        k += 1;
    }
}

fn find_extra(extras: &Vec<(usize, Extra)>, j: usize) -> (r: Option<&Extra>)
    ensures
        opt_view(r) == extra_at(views(extras@), j as nat, 0),
{
    let mut k: usize = 0;
    while k < extras.len()
        invariant
            k <= extras@.len(),
            extra_at(views(extras@), j as nat, 0) == extra_at(views(extras@), j as nat, k as int),
        decreases extras@.len() - k,
    {
        proof {
            assert(views(extras@)[k as int] == (extras@[k as int].0, extras@[k as int].1@));
        }
        if extras[k].0 == j {
            return Some(&extras[k].1);
        }
        k += 1;
    }
    None
}

fn build_entry(e: &Entry, extras: &Vec<(usize, Extra)>, j: usize, sink: &mut Sink) -> (r: Json)
    ensures
        (r@, final(sink)@) == entry_value(e@, views(extras@), j as nat, old(sink)@),
{
    let loc = cat2("/system/", dec_usize(j).as_str());
    let mut v = e.value.copy();
    if let Some(x) = &e.extra {
        sink.merge(x, ANTHROPIC_MESSAGES, &mut v, loc.as_str());
    }
    if let Some(x) = find_extra(extras, j) {
        sink.merge(x, ANTHROPIC_MESSAGES, &mut v, loc.as_str());
    }
    v
}

/// Builds the top-level `system` value from the request's system prompt and
/// the hoisted system messages.
pub fn build_system(
    system: &Option<Vec<ContentBlock>>,
    messages: &Vec<Message>,
    hoisted: &Vec<usize>,
    sink: &mut Sink,
) -> (r: Result<Option<Json>, ConversionError>)
    ensures
        match r {
            Ok(v) => system_value(opt_views(*system), views(messages@), hoisted@, old(sink)@) == Ok::<
                (Option<JsonV>, SinkV),
                ConversionErrorV,
            >((opt_view(v), final(sink)@)),
            Err(e) => system_value(opt_views(*system), views(messages@), hoisted@, old(sink)@) == Err::<
                (Option<JsonV>, SinkV),
                ConversionErrorV,
            >(e@),
        },
{
    let ghost s0 = sink@;
    let ghost msgs = views(messages@);
    let entries = match system {
        Some(blocks) => match collect_prompt(blocks) {
            Ok(v) => v,
            Err(e) => {
                return Err(e);
            },
        },
        None => Vec::new(),
    };
    let mut h = Hoist { entries, extras: Vec::new(), warnings: Vec::new() };
    let ghost h0 = h@;
    let mut k: usize = 0;
    while k < hoisted.len()
        invariant
            k <= hoisted@.len(),
            msgs == views(messages@),
            h0 == (HoistV { entries: h0.entries, extras: Seq::empty(), warnings: Seq::empty() }),
            (match opt_views(*system) {
                Some(blocks) => prompt_entries(blocks, blocks.len()),
                None => Ok(Seq::empty()),
            }) == Ok::<Seq<EntryV>, ConversionErrorV>(h0.entries),
            hoist_all(h0, msgs, hoisted@, k as nat) == Ok::<HoistV, ConversionErrorV>(h@),
        decreases hoisted@.len() - k,
    {
        let i: usize = hoisted[k];
        if i < messages.len() {
            proof {
                assert(msgs[i as int] == messages@[i as int]@);
            }
            match hoist(&mut h, &messages[i], i) {
                Ok(_) => {},
                Err(e) => {
                    proof {
                        hoist_all_error_stays(h0, msgs, hoisted@, k as nat + 1, hoisted@.len());
                    }
                    return Err(e);
                },
            }
        }
        k += 1;
    }
    let ghost hv = h@;
    if h.entries.len() == 0 {
        let prompt_nonempty = match system {
            Some(blocks) => blocks.len() > 0,
            None => false,
        };
        let mut ws = h.warnings;
        if prompt_nonempty || any_has_content(messages, hoisted) {
            ws = relocate(ws, "/system");
            ws.push(
                ConversionWarning::to_format(
                    WarningCode::EmptyMessageDropped,
                    ANTHROPIC_MESSAGES,
                    "/system",
                    "the system channel serialized to zero wire content (every block was dropped); the `system` key was omitted",
                ),
            );
            push_lost_extras(messages, hoisted, &mut ws);
        }
        sink.warnings.append(&mut ws);
        return Ok(None);
    }
    let mut ws = h.warnings;
    sink.warnings.append(&mut ws);
    if h.entries.len() == 1 && h.extras.len() == 0 {
        proof {
            assert(hv.entries[0] == h.entries@[0]@);
        }
        if let Some(text) = &h.entries[0].plain {
            return Ok(Some(Json::Str(text.clone())));
        }
    }
    let mut array: Vec<Json> = Vec::new();
    let ghost s1 = sink@;
    let mut j: usize = 0;
    while j < h.entries.len()
        invariant
            j <= h.entries@.len(),
            hv.entries == views(h.entries@),
            hv.extras == views(h.extras@),
            (views(array@), sink@) == entry_values(hv.entries, hv.extras, s1, j as nat),
        decreases h.entries@.len() - j,
    {
        let v = build_entry(&h.entries[j], &h.extras, j, sink);
        array.push(v);
        j += 1;
    }
    Ok(Some(Json::array(array)))
}

} // verus!
