//! Laws: what the build side writes, the parse side reads back as it was.

use vstd::prelude::*;
use crate::merge::merged;
use crate::convert::ConversionWarningV;
use crate::decode::opt_value;
use crate::format::OPENAI_CHAT_COMPLETIONS;
use crate::formats::openai_chat_completions::content::{image_url, image_value, input_content, input_parts, input_step, omerged, shorthand, text_part, with_breakpoint};
use crate::formats::openai_chat_completions::messages::{input_message, input_role_name, role_check, wire_ptr, ChatV};
use crate::formats::openai_chat_completions::parse_messages::{input_of, no_fields, parsed_message, read_content, FieldsV};
use crate::formats::openai_chat_completions::parse_parts::{explicit_breakpoint, own_extra, part_block, part_blocks, part_type, plain_hint, source_of, split_breakpoint};
use crate::formats::openai_chat_completions::types;
use crate::ir::{extra_ns, text_block, CacheHintV, ContentBlockV, ExtraV, ImageSourceV, MessageV, Role};
use crate::json::{obj_get, obj_wf, JsonV, ObjV};
use crate::namespaces::{absent, absent_is_not_read, avoids, clean, data_under, extended_nothing, first_named_is_read, namespace_holds_its_members, not_there, provider_data_survives, there, tidy_for, two_level, two_levels_are_merged, unmodeled_members_are_kept, within};
use crate::sink::SinkV;
use crate::text::decimal;

verus! {

/// The data is this format's own, and a merge beside members named `known`
/// keeps it.
pub open spec fn tidy(e: ExtraV, known: Seq<Seq<char>>) -> bool {
    tidy_for(OPENAI_CHAT_COMPLETIONS@, e, known)
}

/// No hint, or one without a time to live: those that this format can carry.
pub open spec fn plain_cache(c: Option<CacheHintV>) -> bool {
    c is None || c == Some(plain_hint())
}

/// The URL of the source tells the source back.
pub open spec fn plain_source(s: ImageSourceV) -> bool {
    match image_url(s) {
        Some(u) => source_of(u) == s,
        None => false,
    }
}

/// Provider data of an image part that the wire keeps as it is: unmodeled
/// members, then data of the image URL, such as its detail.
pub open spec fn image_data(e: ExtraV) -> bool {
    let ns = extra_ns(e, OPENAI_CHAT_COMPLETIONS@);
    &&& e == own_extra(ns)
    &&& clean(ns)
    &&& two_level(ns, "image_url"@, types::image_part_keys(), types::image_url_keys())
}

/// A block that an input message of this format can carry.
pub open spec fn plain_input(b: ContentBlockV, system: bool) -> bool {
    match b {
        ContentBlockV::Text { text, cache, extra } => plain_cache(cache) && tidy(extra, types::text_part_keys()),
        ContentBlockV::Image { source, cache, extra } => !system && plain_source(source) && plain_cache(cache)
            && image_data(extra),
        ContentBlockV::Opaque { format, value } => format == OPENAI_CHAT_COMPLETIONS@ && part_type(value) != Some(
            "text"@,
        ) && part_type(value) != Some("image_url"@) && part_type(value) != Some("refusal"@),
        _ => false,
    }
}

pub proof fn part_names()
    ensures
        "type"@ != "text"@,
        "type"@ != "prompt_cache_breakpoint"@,
        "type"@ != "image_url"@,
        "type"@ != "refusal"@,
        "type"@ != "url"@,
        "text"@ != "prompt_cache_breakpoint"@,
        "text"@ != "image_url"@,
        "text"@ != "refusal"@,
        "image_url"@ != "prompt_cache_breakpoint"@,
        "image_url"@ != "refusal"@,
        "refusal"@ != "prompt_cache_breakpoint"@,
{
    reveal_strlit("type");
    reveal_strlit("text");
    reveal_strlit("prompt_cache_breakpoint");
    reveal_strlit("image_url");
    reveal_strlit("refusal");
    reveal_strlit("url");
    assert("type"@[1] != "text"@[1]);
    assert("text"@.len() == 4 && "image_url"@.len() == 9 && "refusal"@.len() == 7 && "prompt_cache_breakpoint"@.len()
        == 23);
}

/// A part with the breakpoint of a plain hint.
spec fn hinted(t: ObjV, cache: Option<CacheHintV>) -> ObjV {
    match cache {
        Some(_) => t.push(("prompt_cache_breakpoint"@, explicit_breakpoint())),
        None => t,
    }
}

proof fn breakpoint_is_appended(t: ObjV, cache: Option<CacheHintV>, ptr: Seq<char>, s: SinkV)
    requires
        plain_cache(cache),
        absent(t, "prompt_cache_breakpoint"@),
    ensures
        with_breakpoint(JsonV::Object(t), cache, ptr, s) == (JsonV::Object(hinted(t, cache)), s),
{
    absent_is_not_read(t, "prompt_cache_breakpoint"@, explicit_breakpoint());
}

/// The hint of a breakpoint is read back, and nothing is left over.
proof fn hint_is_read(o: ObjV, t: ObjV, ns: ObjV, cache: Option<CacheHintV>, known: Seq<Seq<char>>)
    requires
        plain_cache(cache),
        absent(t, "prompt_cache_breakpoint"@),
        o == hinted(t, cache) + ns,
        avoids(ns, known),
        known.contains("prompt_cache_breakpoint"@),
    ensures
        opt_value(o, "prompt_cache_breakpoint"@) == Ok::<Option<JsonV>, Seq<char>>(
            match cache {
                Some(_) => Some(explicit_breakpoint()),
                None => None,
            },
        ),
        split_breakpoint(
            match cache {
                Some(_) => Some(explicit_breakpoint()),
                None => None,
            },
            true,
        ) == (cache, None::<JsonV>),
{
    let k = "prompt_cache_breakpoint"@;
    match cache {
        Some(_) => {
            assert(o[t.len() as int].0 == k);
            assert forall|j: int| 0 <= j < t.len() implies (#[trigger] o[j]).0 != k by {
                assert(o[j] == t[j]);
            }
            first_named_is_read(o, k, t.len() as int);
        },
        None => {
            assert forall|j: int| 0 <= j < o.len() implies (#[trigger] o[j]).0 != k by {
                if j < t.len() {
                    assert(o[j] == t[j]);
                } else {
                    assert(o[j] == ns[j - t.len()]);
                    assert(!known.contains(ns[j - t.len()].0));
                }
            }
            absent_is_not_read(o, k, JsonV::Null);
        },
    }
}

/// A text block is read back from the part that it becomes.
pub proof fn text_round_trip(
    text: Seq<char>,
    cache: Option<CacheHintV>,
    extra: ExtraV,
    ptr: Seq<char>,
    s: SinkV,
    at: Seq<char>,
    ws: Seq<ConversionWarningV>,
)
    requires
        plain_cache(cache),
        tidy(extra, types::text_part_keys()),
    ensures
        with_breakpoint(text_part(text), cache, ptr, s).1 == s,
        part_block(omerged(extra, with_breakpoint(text_part(text), cache, ptr, s).0), at, true, ws) == (
            ContentBlockV::Text { text, cache, extra },
            ws,
        ),
{
    part_names();
    let known = types::text_part_keys();
    let ns = extra_ns(extra, OPENAI_CHAT_COMPLETIONS@);
    let t0 = seq![("type"@, JsonV::Str("text"@)), ("text"@, JsonV::Str(text))];
    breakpoint_is_appended(t0, cache, ptr, s);
    let t = hinted(t0, cache);
    assert(known[0] == "type"@ && known[1] == "text"@ && known[2] == "prompt_cache_breakpoint"@);
    assert(within(t, known));
    provider_data_survives(OPENAI_CHAT_COMPLETIONS@, t, ns, known);
    let o = t + ns;
    assert(o[0] == t0[0] && o[1] == t0[1]);
    first_named_is_read(o, "type"@, 0);
    first_named_is_read(o, "text"@, 1);
    hint_is_read(o, t0, ns, cache, known);
    assert(text_part(text) == JsonV::Object(t0));
    assert(part_type(JsonV::Object(o)) == Some("text"@));
}

/// An image block is read back from the part that it becomes.
pub proof fn image_round_trip(
    source: ImageSourceV,
    cache: Option<CacheHintV>,
    extra: ExtraV,
    ptr: Seq<char>,
    s: SinkV,
    at: Seq<char>,
    ws: Seq<ConversionWarningV>,
)
    requires
        plain_source(source),
        plain_cache(cache),
        image_data(extra),
    ensures
        image_value(source, cache, extra, ptr, s).0 is Some,
        image_value(source, cache, extra, ptr, s).1.warnings == s.warnings,
        part_block(image_value(source, cache, extra, ptr, s).0->0, at, true, ws) == (
            ContentBlockV::Image { source, cache, extra },
            ws,
        ),
{
    part_names();
    let known = types::image_part_keys();
    let ns = extra_ns(extra, OPENAI_CHAT_COMPLETIONS@);
    let url = image_url(source)->0;
    let inner = seq![("url"@, JsonV::Str(url))];
    let t0 = seq![("type"@, JsonV::Str("image_url"@)), ("image_url"@, JsonV::Object(inner))];
    breakpoint_is_appended(t0, cache, ptr, s);
    let t = hinted(t0, cache);
    let ik = types::image_url_keys();
    let q = data_under(ns, "image_url"@);
    let none = Seq::<(Seq<char>, JsonV)>::empty();
    assert(known[0] == "type"@ && known[1] == "image_url"@ && known[2] == "prompt_cache_breakpoint"@);
    assert(known.contains(known[0]) && known.contains(known[1]) && known.contains(known[2]));
    assert(ik[0] == "url"@);
    assert(within(t, known));
    assert(within(inner, ik));
    assert(obj_wf(t));
    first_named_is_read(t, "type"@, 0);
    first_named_is_read(t, "image_url"@, 1);
    two_levels_are_merged(t, ns, "image_url"@, known, ik);
    let o = merged(t, ns);
    namespace_holds_its_members(OPENAI_CHAT_COMPLETIONS@, ns);
    assert(t + none =~= t);
    hint_is_read(t, t0, none, cache, known);
    assert(obj_get(o, "prompt_cache_breakpoint"@) == obj_get(t, "prompt_cache_breakpoint"@));
    // The inner object.
    there(inner, q, "url"@, 0);
    unmodeled_members_are_kept(inner, q, ik);
    unmodeled_members_are_kept(inner, none, ik);
    first_named_is_read(inner, "url"@, 0);
    assert(inner + none =~= inner);
    if q.len() == 0 {
        assert(q =~= none);
    }
    assert(types::decode_image_url(JsonV::Object(inner + q)) == Ok::<types::ImageUrlV, Seq<char>>(
        types::ImageUrlV { url, extra: q },
    ));
    assert(part_type(JsonV::Object(o)) == Some("image_url"@));
}

/// A block of an input message is read back from what it becomes.
pub proof fn input_block_round_trip(
    st: (Seq<JsonV>, SinkV),
    b: ContentBlockV,
    bi: nat,
    msg_ptr: Seq<char>,
    system: bool,
    at: Seq<char>,
    ws: Seq<ConversionWarningV>,
)
    requires
        plain_input(b, system),
    ensures
        match input_step(st, b, bi, msg_ptr, system) {
            Ok((parts, s)) => parts.len() == st.0.len() + 1 && parts.drop_last() == st.0 && s.warnings
                == st.1.warnings && part_block(parts.last(), at, true, ws) == (b, ws),
            Err(_) => false,
        },
{
    let ptr = msg_ptr + "/content/"@ + decimal(st.0.len());
    match b {
        ContentBlockV::Text { text, cache, extra } => {
            text_round_trip(text, cache, extra, ptr, st.1, at, ws);
        },
        ContentBlockV::Image { source, cache, extra } => {
            image_round_trip(source, cache, extra, ptr, st.1, at, ws);
        },
        _ => {},
    }
    match input_step(st, b, bi, msg_ptr, system) {
        Ok((parts, s)) => {
            assert(parts.drop_last() =~= st.0);
        },
        Err(_) => {},
    }
}

/// All blocks can be carried.
pub open spec fn plain_inputs(blocks: Seq<ContentBlockV>, system: bool) -> bool {
    forall|i: int| 0 <= i < blocks.len() ==> plain_input(#[trigger] blocks[i], system)
}

pub proof fn part_blocks_prefix(a: Seq<JsonV>, b: Seq<JsonV>, ptr: Seq<char>, input: bool, ws: Seq<ConversionWarningV>, n: nat)
    requires
        n <= a.len(),
        n <= b.len(),
        forall|i: int| 0 <= i < n ==> (#[trigger] a[i]) == b[i],
    ensures
        part_blocks(a, ptr, input, ws, n) == part_blocks(b, ptr, input, ws, n),
    decreases n,
{
    if n > 0 {
        part_blocks_prefix(a, b, ptr, input, ws, (n - 1) as nat);
    }
}

/// The blocks of an input message are read back from the parts that they
/// become.
pub proof fn input_parts_round_trip(
    blocks: Seq<ContentBlockV>,
    msg_ptr: Seq<char>,
    system: bool,
    s: SinkV,
    n: nat,
    at: Seq<char>,
    ws: Seq<ConversionWarningV>,
)
    requires
        n <= blocks.len(),
        plain_inputs(blocks, system),
    ensures
        match input_parts(blocks, msg_ptr, system, s, n) {
            Ok((parts, s1)) => parts.len() == n && s1.warnings == s.warnings && part_blocks(
                parts,
                at,
                true,
                ws,
                n,
            ) == (blocks.take(n as int), ws),
            Err(_) => false,
        },
    decreases n,
{
    if n == 0 {
        assert(blocks.take(0) =~= Seq::<ContentBlockV>::empty());
    } else {
        let m = (n - 1) as nat;
        input_parts_round_trip(blocks, msg_ptr, system, s, m, at, ws);
        let prev = input_parts(blocks, msg_ptr, system, s, m)->Ok_0;
        let b = blocks[n - 1];
        assert(plain_input(b, system));
        let loc = at + "/content/"@ + decimal(m);
        input_block_round_trip(prev, b, m, msg_ptr, system, loc, ws);
        let (parts, s1) = input_parts(blocks, msg_ptr, system, s, n)->Ok_0;
        assert forall|i: int| 0 <= i < m implies (#[trigger] prev.0[i]) == parts[i] by {
            assert(parts.drop_last()[i] == parts[i]);
        }
        part_blocks_prefix(prev.0, parts, at, true, ws, m);
        assert(parts[n - 1] == parts.last());
        assert(blocks.take(m as int).push(b) =~= blocks.take(n as int));
    }
}

pub proof fn message_names()
    ensures
        "role"@ != "content"@,
        "role"@ != "reasoning_content"@,
        "role"@ != "refusal"@,
        "role"@ != "tool_calls"@,
        "role"@ != "tool_call_id"@,
        "role"@ != "name"@,
        "content"@ != "reasoning_content"@,
        "content"@ != "refusal"@,
        "content"@ != "tool_calls"@,
        "content"@ != "tool_call_id"@,
        "content"@ != "name"@,
        "reasoning_content"@ != "refusal"@,
        "reasoning_content"@ != "tool_calls"@,
        "reasoning_content"@ != "tool_call_id"@,
        "reasoning_content"@ != "name"@,
        "refusal"@ != "tool_calls"@,
        "tool_calls"@ != "tool_call_id"@,
        "tool_calls"@ != "name"@,
        "tool_call_id"@ != "name"@,
        "tool_call_id"@ != "refusal"@,
        "name"@ != "refusal"@,
{
    reveal_strlit("role");
    reveal_strlit("content");
    reveal_strlit("reasoning_content");
    reveal_strlit("refusal");
    reveal_strlit("tool_calls");
    reveal_strlit("tool_call_id");
    reveal_strlit("name");
    assert("role"@[0] != "name"@[0]);
    assert("content"@[0] != "refusal"@[0]);
    assert("role"@.len() == 4 && "content"@.len() == 7 && "reasoning_content"@.len() == 17 && "refusal"@.len() == 7
        && "tool_calls"@.len() == 10 && "tool_call_id"@.len() == 12 && "name"@.len() == 4);
}

pub proof fn role_names()
    ensures
        "developer"@ != "system"@,
        "user"@ != "system"@,
        "user"@ != "developer"@,
        "assistant"@ != "system"@,
        "assistant"@ != "developer"@,
        "assistant"@ != "user"@,
        "tool"@ != "system"@,
        "tool"@ != "developer"@,
        "tool"@ != "user"@,
        "tool"@ != "assistant"@,
{
    reveal_strlit("system");
    reveal_strlit("developer");
    reveal_strlit("user");
    reveal_strlit("assistant");
    reveal_strlit("tool");
    assert("assistant"@[0] != "developer"@[0]);
    assert("tool"@[0] != "user"@[0]);
    assert("system"@.len() == 6 && "developer"@.len() == 9 && "user"@.len() == 4 && "assistant"@.len() == 9
        && "tool"@.len() == 4);
}

proof fn plain_inputs_are_valid(m: MessageV, mi: nat, system: bool, n: nat)
    requires
        n <= m.content.len(),
        plain_inputs(m.content, system),
    ensures
        role_check(m, mi, system, n) is Ok,
    decreases n,
{
    if n > 0 {
        plain_inputs_are_valid(m, mi, system, (n - 1) as nat);
        assert(plain_input(m.content[n - 1], system));
    }
}

/// The content of an input message is read back from what it becomes.
proof fn input_content_round_trip(
    blocks: Seq<ContentBlockV>,
    msg_ptr: Seq<char>,
    system: bool,
    s: SinkV,
    at: Seq<char>,
    ws: Seq<ConversionWarningV>,
)
    requires
        plain_inputs(blocks, system),
    ensures
        match input_content(blocks, msg_ptr, system, s) {
            Ok((v, s1)) => !(v is Null) && s1.warnings == s.warnings && read_content(no_fields(ws), Some(v), at, true)
                == (FieldsV { blocks, ns: Seq::empty(), warnings: ws }),
            Err(_) => false,
        },
{
    match shorthand(blocks) {
        Some(text) => {
            let b = blocks[0];
            assert(plain_input(b, system));
            let ns = extra_ns(b->Text_extra, OPENAI_CHAT_COMPLETIONS@);
            namespace_holds_its_members(OPENAI_CHAT_COMPLETIONS@, ns);
            assert(b == text_block(text));
            assert(Seq::<ContentBlockV>::empty().push(text_block(text)) =~= blocks);
        },
        None => {
            input_parts_round_trip(blocks, msg_ptr, system, s, blocks.len(), at, ws);
            assert(blocks.take(blocks.len() as int) =~= blocks);
            assert(Seq::<ContentBlockV>::empty() + blocks =~= blocks);
        },
    }
}

/// A message that an input role of this format can carry.
pub open spec fn plain_input_message(m: MessageV) -> bool {
    &&& m.role == Role::System || m.role == Role::Developer || m.role == Role::User
    &&& plain_inputs(m.content, m.role != Role::User)
    &&& tidy(m.extra, types::message_keys())
    &&& m.round_trip is None
}

/// A system, developer or user message is read back from the wire message that
/// it becomes, without a warning on either side.
pub proof fn input_message_round_trip(c: ChatV, m: MessageV, mi: nat, i: nat, ws: Seq<ConversionWarningV>)
    requires
        plain_input_message(m),
    ensures
        match input_message(c, m, mi, false) {
            Ok(d) => d.wire.len() == c.wire.len() + 1 && d.wire.drop_last() == c.wire && d.sink.warnings
                == c.sink.warnings && parsed_message(d.wire.last(), i, ws) == (m, ws),
            Err(_) => false,
        },
{
    message_names();
    role_names();
    let system = m.role != Role::User;
    let ptr = wire_ptr(c.wire.len());
    let at = "/messages/"@ + decimal(i);
    let known = types::message_keys();
    let ns = extra_ns(m.extra, OPENAI_CHAT_COMPLETIONS@);
    plain_inputs_are_valid(m, mi, system, m.content.len());
    input_content_round_trip(m.content, ptr, system, c.sink, at, ws);
    let (content, s2) = input_content(m.content, ptr, system, c.sink)->Ok_0;
    let name = input_role_name(m.role);
    let t = seq![("role"@, JsonV::Str(name)), ("content"@, content)];
    assert(known[0] == "role"@ && known[1] == "content"@ && known[2] == "reasoning_content"@ && known[3] == "refusal"@
        && known[4] == "tool_calls"@ && known[5] == "tool_call_id"@ && known[6] == "name"@);
    assert(within(t, known));
    provider_data_survives(OPENAI_CHAT_COMPLETIONS@, t, ns, known);
    let o = t + ns;
    there(t, ns, "role"@, 0);
    there(t, ns, "content"@, 1);
    not_there(t, ns, known, "reasoning_content"@);
    not_there(t, ns, known, "refusal"@);
    not_there(t, ns, known, "tool_calls"@);
    not_there(t, ns, known, "tool_call_id"@);
    not_there(t, ns, known, "name"@);
    let w = types::MessageV {
        role: Some(name),
        content: Some(content),
        reasoning_content: None,
        refusal: None,
        tool_calls: None,
        tool_call_id: None,
        name: None,
        extra: ns,
    };
    assert(types::decode_message(JsonV::Object(o)) == Ok::<types::MessageV, Seq<char>>(w));
    extended_nothing(ns);
    let d = input_message(c, m, mi, false)->Ok_0;
    assert(d.wire.last() == JsonV::Object(o));
    assert(d.wire.drop_last() =~= c.wire);
    assert(input_of(m.role, w, at, ws) == (m, ws));
}

} // verus!
