//! Tool calls that arrive in fragments.

use vstd::prelude::*;
use crate::convert::{ConversionWarning, ConversionWarningV, WarningCode};
use crate::decode::{extend_map, extended};
use crate::format::OPENAI_CHAT_COMPLETIONS;
use crate::formats::openai_chat_completions::assistant::TYPE_KEY;
use crate::formats::openai_chat_completions::parse_parts::{odd_field, oparsed, own_extra, warn_field};
use crate::ir::{ContentBlock, ContentBlockV, Extra};
use crate::json::{group_json, json_as_str, json_get, obj_get, obj_remove, obj_set, Json, JsonMap, JsonV, ObjV};
use crate::model::{group_views, opt_view, views, Dup};
use crate::response::parse_warn;
use crate::text::{cat2, cat3, cat4, cat5, dec, decimal, str_eq, text_is};

verus! {

broadcast use group_views;

/// Which payload object a call carries.
#[derive(Clone, Copy, Debug, PartialEq, Eq, Structural)]
pub enum PayloadKind {
    /// `function`, with `name` and `arguments`.
    Function,
    /// `custom`, with `name` and `input`.
    Custom,
}

/// The key of the payload object.
pub open spec fn payload_key(k: PayloadKind) -> Seq<char> {
    match k {
        PayloadKind::Function => "function"@,
        PayloadKind::Custom => "custom"@,
    }
}

/// The member that holds the arguments.
pub open spec fn payload_args_key(k: PayloadKind) -> Seq<char> {
    match k {
        PayloadKind::Function => "arguments"@,
        PayloadKind::Custom => "input"@,
    }
}

impl PayloadKind {
    /// The key of the payload object.
    pub fn key(self) -> (r: &'static str)
        ensures
            r@ == payload_key(self),
    {
        match self {
            PayloadKind::Function => "function",
            PayloadKind::Custom => "custom",
        }
    }

    /// The member that holds the arguments.
    pub fn args_key(self) -> (r: &'static str)
        ensures
            r@ == payload_args_key(self),
    {
        match self {
            PayloadKind::Function => "arguments",
            PayloadKind::Custom => "input",
        }
    }
}

/// One payload object of a call that is mirrored.
#[derive(Debug)]
pub struct MirrorPayload {
    pub seen: bool,
    pub name: Option<String>,
    pub args: Option<String>,
    pub extra: JsonMap,
}

/// The mathematical value of a [`MirrorPayload`].
pub struct MirrorPayloadV {
    pub seen: bool,
    pub name: Option<Seq<char>>,
    pub args: Option<Seq<char>>,
    pub extra: ObjV,
}

impl View for MirrorPayload {
    type V = MirrorPayloadV;

    open spec fn view(&self) -> MirrorPayloadV {
        MirrorPayloadV {
            seen: self.seen,
            name: opt_view(self.name),
            args: opt_view(self.args),
            extra: self.extra@,
        }
    }
}

/// A call whose declared type is not modeled: its payloads are kept verbatim.
#[derive(Debug)]
pub struct MirrorState {
    pub function: MirrorPayload,
    pub custom: MirrorPayload,
}

/// The mathematical value of a [`MirrorState`].
pub struct MirrorV {
    pub function: MirrorPayloadV,
    pub custom: MirrorPayloadV,
}

impl View for MirrorState {
    type V = MirrorV;

    open spec fn view(&self) -> MirrorV {
        MirrorV { function: self.function@, custom: self.custom@ }
    }
}

/// A call that is still being streamed.
#[derive(Debug)]
pub struct ToolCallState {
    /// Index of its block.
    pub block_index: usize,
    pub id: Option<String>,
    pub name: String,
    pub arguments: String,
    /// A payload of its kind arrived.
    pub saw_payload: bool,
    /// A name arrived.
    pub saw_name: bool,
    /// Arguments arrived.
    pub saw_arguments: bool,
    /// First declared type.
    pub declared_type: Option<Json>,
    /// Kind of payload, declared or inferred from the first one.
    pub kind: Option<PayloadKind>,
    /// Set when the declared type is not modeled.
    pub mirror: Option<MirrorState>,
    /// Unknown fields.
    pub extra: JsonMap,
}

/// The mathematical value of a [`ToolCallState`].
pub struct CallStateV {
    pub block_index: usize,
    pub id: Option<Seq<char>>,
    pub name: Seq<char>,
    pub arguments: Seq<char>,
    pub saw_payload: bool,
    pub saw_name: bool,
    pub saw_arguments: bool,
    pub declared_type: Option<JsonV>,
    pub kind: Option<PayloadKind>,
    pub mirror: Option<MirrorV>,
    pub extra: ObjV,
}

impl View for ToolCallState {
    type V = CallStateV;

    open spec fn view(&self) -> CallStateV {
        CallStateV {
            block_index: self.block_index,
            id: opt_view(self.id),
            name: self.name@,
            arguments: self.arguments@,
            saw_payload: self.saw_payload,
            saw_name: self.saw_name,
            saw_arguments: self.saw_arguments,
            declared_type: opt_view(self.declared_type),
            kind: self.kind,
            mirror: opt_view(self.mirror),
            extra: self.extra@,
        }
    }
}

/// A call of which nothing has arrived.
pub open spec fn fresh_call(block_index: usize) -> CallStateV {
    CallStateV {
        block_index,
        id: None,
        name: Seq::empty(),
        arguments: Seq::empty(),
        saw_payload: false,
        saw_name: false,
        saw_arguments: false,
        declared_type: None,
        kind: None,
        mirror: None,
        extra: Seq::empty(),
    }
}

/// `a` followed by `b`; an absent text counts as empty.
pub open spec fn grown(a: Option<Seq<char>>, b: Seq<char>) -> Option<Seq<char>> {
    match a {
        Some(a) => Some(a + b),
        None => Some(b),
    }
}

/// A payload that was never seen.
pub open spec fn no_payload() -> MirrorPayloadV {
    MirrorPayloadV { seen: false, name: None, args: None, extra: Seq::empty() }
}

/// One member of a mirrored payload: text pieces join, anything else is kept.
pub open spec fn member_absorbed(p: MirrorPayloadV, kind: PayloadKind, key: Seq<char>, v: JsonV) -> MirrorPayloadV {
    match v {
        JsonV::Null => p,
        JsonV::Str(piece) => if key == "name"@ {
            MirrorPayloadV { name: grown(p.name, piece), ..p }
        } else if key == payload_args_key(kind) {
            MirrorPayloadV { args: grown(p.args, piece), ..p }
        } else {
            MirrorPayloadV { extra: obj_set(p.extra, key, v), ..p }
        },
        _ => MirrorPayloadV { extra: obj_set(p.extra, key, v), ..p },
    }
}

/// The first `n` members of a mirrored payload.
pub open spec fn members_absorbed(p: MirrorPayloadV, kind: PayloadKind, m: ObjV, n: nat) -> MirrorPayloadV
    decreases n,
{
    if n == 0 || n > m.len() {
        MirrorPayloadV { seen: true, ..p }
    } else {
        member_absorbed(members_absorbed(p, kind, m, (n - 1) as nat), kind, m[n - 1].0, m[n - 1].1)
    }
}

/// A fragment of a mirrored payload.
pub open spec fn absorbed(p: MirrorPayloadV, kind: PayloadKind, m: ObjV) -> MirrorPayloadV {
    members_absorbed(p, kind, m, m.len())
}

/// A fragment of one of the mirrored payloads.
pub open spec fn mirror_absorbed(m: MirrorV, kind: PayloadKind, o: ObjV) -> MirrorV {
    match kind {
        PayloadKind::Function => MirrorV { function: absorbed(m.function, kind, o), ..m },
        PayloadKind::Custom => MirrorV { custom: absorbed(m.custom, kind, o), ..m },
    }
}

/// A mirrored payload as one object, if it was ever seen.
pub open spec fn folded(p: MirrorPayloadV, kind: PayloadKind) -> Option<JsonV> {
    if !p.seen {
        None
    } else {
        let o1 = match p.name {
            Some(n) => obj_set(p.extra, "name"@, JsonV::Str(n)),
            None => p.extra,
        };
        let o2 = match p.args {
            Some(a) => obj_set(o1, payload_args_key(kind), JsonV::Str(a)),
            None => o1,
        };
        Some(JsonV::Object(o2))
    }
}

/// The object kept under `key`, moved out to a mirrored payload.
pub open spec fn moved_out(extra: ObjV, kind: PayloadKind) -> (MirrorPayloadV, ObjV) {
    match obj_get(extra, payload_key(kind)) {
        Some(JsonV::Object(m)) => (absorbed(no_payload(), kind, m), obj_remove(extra, payload_key(kind))),
        _ => (no_payload(), extra),
    }
}

/// What arrived for the locked kind, moved to its mirrored payload.
pub open spec fn taken_over(p: MirrorPayloadV, s: CallStateV) -> MirrorPayloadV {
    MirrorPayloadV {
        seen: p.seen || s.saw_payload,
        name: if s.saw_name { Some(s.name) } else { p.name },
        args: if s.saw_arguments { Some(s.arguments) } else { p.args },
        extra: p.extra,
    }
}

/// The call is mirrored from now on, and what arrived so far with it.
pub open spec fn mirrored_call(s: CallStateV) -> CallStateV {
    let (f, e1) = moved_out(s.extra, PayloadKind::Function);
    let (c, e2) = moved_out(e1, PayloadKind::Custom);
    match s.kind {
        None => CallStateV { mirror: Some(MirrorV { function: f, custom: c }), extra: e2, ..s },
        Some(k) => CallStateV {
            mirror: Some(
                match k {
                    PayloadKind::Function => MirrorV { function: taken_over(f, s), custom: c },
                    PayloadKind::Custom => MirrorV { function: f, custom: taken_over(c, s) },
                },
            ),
            extra: e2,
            name: if s.saw_name { Seq::empty() } else { s.name },
            arguments: if s.saw_arguments { Seq::empty() } else { s.arguments },
            ..s
        },
    }
}

/// The kind is declared. A payload of the other kind that was inferred before
/// is set aside under its key.
pub open spec fn relocked(s: CallStateV, declared: PayloadKind) -> CallStateV {
    match s.kind {
        None => CallStateV { kind: Some(declared), ..s },
        Some(inferred) => if inferred == declared {
            s
        } else {
            let key = payload_key(inferred);
            let (m0, e0) = match obj_get(s.extra, key) {
                Some(JsonV::Object(m)) => (m, obj_remove(s.extra, key)),
                _ => (Seq::empty(), s.extra),
            };
            let m1 = if s.saw_name { obj_set(m0, "name"@, JsonV::Str(s.name)) } else { m0 };
            let m2 = if s.saw_arguments {
                obj_set(m1, payload_args_key(inferred), JsonV::Str(s.arguments))
            } else {
                m1
            };
            CallStateV {
                extra: if s.saw_payload || m2.len() > 0 {
                    obj_set(e0, key, JsonV::Object(m2))
                } else {
                    e0
                },
                name: Seq::empty(),
                arguments: Seq::empty(),
                saw_payload: false,
                saw_name: false,
                saw_arguments: false,
                kind: Some(declared),
                ..s
            }
        },
    }
}

/// The location of warnings about streamed calls.
pub open spec fn calls_ptr() -> Seq<char> {
    "/choices/0/delta/tool_calls"@
}

/// A warning about a streamed call that is malformed.
pub open spec fn odd_call(ws: Seq<ConversionWarningV>, message: Seq<char>) -> Seq<ConversionWarningV> {
    oparsed(ws, WarningCode::MalformedToolCall, calls_ptr(), message)
}

/// The first declaration of a type takes effect.
pub open spec fn declared(
    s: CallStateV,
    t: JsonV,
    wire: u64,
    ws: Seq<ConversionWarningV>,
) -> (CallStateV, Seq<ConversionWarningV>) {
    match t {
        JsonV::Str(name) => if name == "function"@ {
            (relocked(s, PayloadKind::Function), ws)
        } else if name == "custom"@ {
            (relocked(s, PayloadKind::Custom), ws)
        } else {
            (mirrored_call(s), ws)
        },
        _ => (
            mirrored_call(s),
            odd_field(
                ws,
                calls_ptr(),
                "tool call index "@ + decimal(wire as nat)
                    + " declares a non-string `type`; the entry was mirrored verbatim"@,
            ),
        ),
    }
}

/// The type that a fragment declares. The first declaration wins.
pub open spec fn type_read(
    s: CallStateV,
    t: Option<JsonV>,
    wire: u64,
    ws: Seq<ConversionWarningV>,
) -> (CallStateV, Seq<ConversionWarningV>) {
    match t {
        None => (s, ws),
        Some(JsonV::Null) => (s, ws),
        Some(t) => match s.declared_type {
            None => declared(CallStateV { declared_type: Some(t), ..s }, t, wire, ws),
            Some(first) => if first == t {
                (s, ws)
            } else {
                (
                    s,
                    odd_call(
                        ws,
                        "tool call index "@ + decimal(wire as nat)
                            + " declares conflicting `type` values; the first declaration wins and this one was ignored"@,
                    ),
                )
            },
        },
    }
}

/// `extra` with members added to the object under `key`.
pub open spec fn nested_extended(extra: ObjV, key: Seq<char>, members: ObjV) -> ObjV {
    if members.len() == 0 {
        extra
    } else {
        match obj_get(extra, key) {
            None => obj_set(extra, key, JsonV::Object(extended(Seq::empty(), members))),
            Some(JsonV::Object(o)) => obj_set(extra, key, JsonV::Object(extended(o, members))),
            Some(_) => extra,
        }
    }
}

/// A call, the argument pieces of one fragment, and the warnings so far.
pub struct RouteV {
    pub call: CallStateV,
    pub deltas: Seq<Seq<char>>,
    pub warnings: Seq<ConversionWarningV>,
}

/// One member of a payload that counts: the route, and the unknown members.
pub open spec fn member_routed(
    st: (RouteV, ObjV),
    kind: PayloadKind,
    wire: u64,
    key: Seq<char>,
    v: JsonV,
) -> (RouteV, ObjV) {
    let (r, unknowns) = st;
    let is_name = key == "name"@;
    if is_name || key == payload_args_key(kind) {
        match v {
            JsonV::Str(piece) => if is_name {
                (
                    RouteV {
                        call: CallStateV { saw_name: true, name: r.call.name + piece, ..r.call },
                        ..r
                    },
                    unknowns,
                )
            } else {
                (
                    RouteV {
                        call: CallStateV { saw_arguments: true, ..r.call },
                        deltas: if piece.len() > 0 { r.deltas.push(piece) } else { r.deltas },
                        ..r
                    },
                    unknowns,
                )
            },
            JsonV::Null => st,
            _ => (
                RouteV {
                    call: if is_name {
                        CallStateV { saw_name: true, ..r.call }
                    } else {
                        CallStateV { saw_arguments: true, ..r.call }
                    },
                    warnings: odd_call(
                        r.warnings,
                        "tool call index "@ + decimal(wire as nat) + ": non-string `"@ + payload_key(kind) + "."@
                            + key + "` fragment was ignored"@,
                    ),
                    ..r
                },
                unknowns,
            ),
        }
    } else if v is Null {
        st
    } else {
        (r, obj_set(unknowns, key, v))
    }
}

/// The first `n` members of a payload that counts.
pub open spec fn members_routed(r: RouteV, kind: PayloadKind, wire: u64, m: ObjV, n: nat) -> (RouteV, ObjV)
    decreases n,
{
    if n == 0 || n > m.len() {
        (RouteV { call: CallStateV { saw_payload: true, ..r.call }, ..r }, Seq::empty())
    } else {
        member_routed(members_routed(r, kind, wire, m, (n - 1) as nat), kind, wire, m[n - 1].0, m[n - 1].1)
    }
}

/// A payload of the kind that counts.
pub open spec fn payload_counted(r: RouteV, kind: PayloadKind, wire: u64, m: ObjV) -> RouteV {
    let (r1, unknowns) = members_routed(r, kind, wire, m, m.len());
    RouteV {
        call: CallStateV {
            extra: nested_extended(r1.call.extra, payload_key(kind), unknowns),
            ..r1.call
        },
        ..r1
    }
}

/// A payload object of a fragment. The first one settles the kind, unless it
/// was declared; one of the other kind is set aside.
pub open spec fn payload_routed(r: RouteV, kind: PayloadKind, wire: u64, payload: Option<JsonV>) -> RouteV {
    match payload {
        None => r,
        Some(JsonV::Null) => r,
        Some(JsonV::Object(m)) => match r.call.mirror {
            Some(mirror) => RouteV {
                call: CallStateV { mirror: Some(mirror_absorbed(mirror, kind, m)), ..r.call },
                ..r
            },
            None => match r.call.kind {
                None => payload_counted(
                    RouteV { call: CallStateV { kind: Some(kind), ..r.call }, ..r },
                    kind,
                    wire,
                    m,
                ),
                Some(locked) => if locked == kind {
                    payload_counted(r, kind, wire, m)
                } else {
                    RouteV {
                        call: CallStateV {
                            extra: nested_extended(r.call.extra, payload_key(kind), m),
                            ..r.call
                        },
                        warnings: odd_call(
                            r.warnings,
                            "tool call index "@ + decimal(wire as nat) + " mixes `"@ + payload_key(locked)
                                + "` and `"@ + payload_key(kind) + "` payloads; the `"@ + payload_key(kind)
                                + "` fragment was mirrored into the block extra instead of accumulated"@,
                        ),
                        ..r
                    }
                },
            },
        },
        Some(_) => RouteV {
            warnings: odd_call(
                r.warnings,
                "tool call index "@ + decimal(wire as nat) + ": non-object `"@ + payload_key(kind)
                    + "` payload fragment was ignored"@,
            ),
            ..r
        },
    }
}

/// A field of a fragment that has its own handling.
pub open spec fn modeled_field(key: Seq<char>) -> bool {
    key == "index"@ || key == "id"@ || key == "type"@ || key == "function"@ || key == "custom"@
}

/// The first `n` unknown fields of a fragment.
pub open spec fn fields_kept(extra: ObjV, o: ObjV, n: nat) -> ObjV
    decreases n,
{
    if n == 0 || n > o.len() {
        extra
    } else {
        let prev = fields_kept(extra, o, (n - 1) as nat);
        if modeled_field(o[n - 1].0) || o[n - 1].1 is Null {
            prev
        } else {
            obj_set(prev, o[n - 1].0, o[n - 1].1)
        }
    }
}

/// The unknown fields of a fragment.
pub open spec fn fragment_kept(extra: ObjV, fragment: JsonV) -> ObjV {
    match fragment {
        JsonV::Object(o) => fields_kept(extra, o, o.len()),
        _ => extra,
    }
}

/// One fragment of a call.
pub open spec fn fragment_routed(
    s: CallStateV,
    fragment: JsonV,
    wire: u64,
    ws: Seq<ConversionWarningV>,
) -> RouteV {
    let s1 = match json_as_str(json_get(fragment, "id"@)) {
        Some(id) => CallStateV { id: grown(s.id, id), ..s },
        None => s,
    };
    let (s2, ws2) = type_read(s1, json_get(fragment, "type"@), wire, ws);
    let r0 = RouteV { call: s2, deltas: Seq::empty(), warnings: ws2 };
    let r1 = payload_routed(r0, PayloadKind::Function, wire, json_get(fragment, "function"@));
    let r2 = payload_routed(r1, PayloadKind::Custom, wire, json_get(fragment, "custom"@));
    RouteV {
        call: CallStateV { extra: fragment_kept(r2.call.extra, fragment), ..r2.call },
        ..r2
    }
}

/// The finished block of a mirrored call.
pub open spec fn mirror_block(s: CallStateV, m: MirrorV) -> ContentBlockV {
    let n1 = match folded(m.function, PayloadKind::Function) {
        Some(v) => obj_set(s.extra, "function"@, v),
        None => s.extra,
    };
    let n2 = match folded(m.custom, PayloadKind::Custom) {
        Some(v) => obj_set(n1, "custom"@, v),
        None => n1,
    };
    let n3 = match s.declared_type {
        Some(t) => obj_set(n2, TYPE_KEY@, t),
        None => n2,
    };
    ContentBlockV::ToolCall {
        id: s.id,
        name: Seq::empty(),
        arguments: Seq::empty(),
        cache: None,
        extra: own_extra(n3),
    }
}

/// The warning about the unknown type of a mirrored call.
pub open spec fn mirror_noted(s: CallStateV, wire: u64, ws: Seq<ConversionWarningV>) -> Seq<ConversionWarningV> {
    match s.declared_type {
        Some(JsonV::Str(t)) => odd_field(
            ws,
            calls_ptr(),
            "tool call index "@ + decimal(wire as nat) + " has unknown tool call type `"@ + t
                + "`; the entry was mirrored verbatim"@,
        ),
        _ => ws,
    }
}

/// The warnings about what never arrived.
pub open spec fn missing_noted(
    s: CallStateV,
    kind: PayloadKind,
    wire: u64,
    ws: Seq<ConversionWarningV>,
) -> Seq<ConversionWarningV> {
    let key = payload_key(kind);
    let args = payload_args_key(kind);
    let ws1 = if !s.saw_payload {
        odd_call(
            ws,
            "tool call index "@ + decimal(wire as nat) + " carries no `"@ + key + "` payload; `name` and `"@ + args
                + "` parse as empty strings"@,
        )
    } else {
        ws
    };
    let ws2 = if !s.saw_name {
        odd_call(
            ws1,
            "tool call index "@ + decimal(wire as nat) + ": `"@ + key
                + ".name` is missing; it parses as an empty string and re-serializes as such"@,
        )
    } else {
        ws1
    };
    if !s.saw_arguments {
        odd_call(
            ws2,
            "tool call index "@ + decimal(wire as nat) + ": `"@ + key + "."@ + args
                + "` is missing; it parses as an empty string and re-serializes as such"@,
        )
    } else {
        ws2
    }
}

/// The kind that counts; a call without any sign of one is a function call.
pub open spec fn effective_kind(s: CallStateV) -> PayloadKind {
    match s.kind {
        Some(k) => k,
        None => PayloadKind::Function,
    }
}

/// The namespace of a finished call, with its type unless that is `function`.
pub open spec fn typed_extra(s: CallStateV) -> ObjV {
    match s.declared_type {
        Some(t) => if t == JsonV::Str("function"@) {
            s.extra
        } else {
            obj_set(s.extra, TYPE_KEY@, t)
        },
        None => if effective_kind(s) == PayloadKind::Custom {
            obj_set(s.extra, TYPE_KEY@, JsonV::Str("custom"@))
        } else {
            s.extra
        },
    }
}

/// The finished block of a call.
pub open spec fn finished_call(
    s: CallStateV,
    wire: u64,
    ws: Seq<ConversionWarningV>,
) -> (ContentBlockV, Seq<ConversionWarningV>) {
    let ws1 = if s.id is None {
        odd_call(
            ws,
            "tool call index "@ + decimal(wire as nat)
                + " has no `id`; the IR keeps `id: None`, and formats that require tool call ids will fail to rebuild the call"@,
        )
    } else {
        ws
    };
    match s.mirror {
        Some(m) => (mirror_block(s, m), mirror_noted(s, wire, ws1)),
        None => (
            ContentBlockV::ToolCall {
                id: s.id,
                name: s.name,
                arguments: s.arguments,
                cache: None,
                extra: own_extra(typed_extra(s)),
            },
            missing_noted(s, effective_kind(s), wire, ws1),
        ),
    }
}

/// A call of which nothing has arrived.
pub fn make_fresh_call(block_index: usize) -> (r: ToolCallState)
    ensures
        r@ == fresh_call(block_index),
{
    ToolCallState {
        block_index,
        id: None,
        name: String::new(),
        arguments: String::new(),
        saw_payload: false,
        saw_name: false,
        saw_arguments: false,
        declared_type: None,
        kind: None,
        mirror: None,
        extra: JsonMap::new(),
    }
}

fn grow(a: &mut Option<String>, b: &String)
    ensures
        opt_view(*final(a)) == grown(opt_view(*old(a)), b@),
{
    let mut taken: Option<String> = None;
    std::mem::swap(&mut taken, a);
    *a = match taken {
        Some(t) => {
            let mut t = t;
            t.append(b.as_str());
            Some(t)
        },
        None => Some(b.clone()),
    };
}

impl MirrorPayload {
    /// A payload that was never seen.
    pub fn new() -> (r: MirrorPayload)
        ensures
            r@ == no_payload(),
    {
        MirrorPayload { seen: false, name: None, args: None, extra: JsonMap::new() }
    }

    /// Takes in one fragment.
    pub fn absorb(&mut self, kind: PayloadKind, m: &JsonMap)
        ensures
            final(self)@ == absorbed(old(self)@, kind, m@),
    {
        let ghost p0 = self@;
        self.seen = true;
        let mut i: usize = 0;
        while i < m.entries.len()
            invariant
                i <= m.entries@.len(),
                self@ == members_absorbed(p0, kind, m@, i as nat),
            decreases m.entries@.len() - i,
        {
            let key = &m.entries[i].0;
            let v = &m.entries[i].1;
            proof {
                assert(m@[i as int] == (key@, v@));
            }
            match v {
                Json::Null => {},
                Json::Str(piece) => {
                    if text_is(key, "name") {
                        grow(&mut self.name, piece);
                    } else if str_eq(key.as_str(), kind.args_key()) {
                        grow(&mut self.args, piece);
                    } else {
                        self.extra.set(key.as_str(), v.copy());
                    }
                },
                _ => {
                    self.extra.set(key.as_str(), v.copy());
                },
            }
            i += 1;
        }
    }

    /// The payload as one object.
    pub fn fold(self, kind: PayloadKind) -> (r: Option<Json>)
        ensures
            opt_view(r) == folded(self@, kind),
    {
        if !self.seen {
            return None;
        }
        let mut o = self.extra;
        if let Some(n) = self.name {
            o.set("name", Json::Str(n));
        }
        if let Some(a) = self.args {
            o.set(kind.args_key(), Json::Str(a));
        }
        Some(Json::object(o))
    }
}

fn object_of(o: &JsonMap, key: &str) -> (r: Option<JsonMap>)
    ensures
        match r {
            Some(m) => obj_get(o@, key@) == Some(JsonV::Object(m@)),
            None => !(obj_get(o@, key@) is Some && obj_get(o@, key@)->0 is Object),
        },
{
    match o.get(key) {
        Some(j) => match j.as_object() {
            Some(m) => Some(m.copy()),
            None => None,
        },
        None => None,
    }
}

fn move_out(extra: &mut JsonMap, kind: PayloadKind) -> (r: MirrorPayload)
    ensures
        (r@, final(extra)@) == moved_out(old(extra)@, kind),
{
    let mut p = MirrorPayload::new();
    if let Some(m) = object_of(extra, kind.key()) {
        p.absorb(kind, &m);
        let _ = extra.remove(kind.key());
    }
    p
}

/// Mirrors the call from now on.
pub fn enter_mirror(s: &mut ToolCallState)
    ensures
        final(s)@ == mirrored_call(old(s)@),
{
    let function = move_out(&mut s.extra, PayloadKind::Function);
    let custom = move_out(&mut s.extra, PayloadKind::Custom);
    let mut m = MirrorState { function, custom };
    match s.kind {
        None => {},
        Some(k) => {
            let mut name: Option<String> = None;
            if s.saw_name {
                let mut t = String::new();
                std::mem::swap(&mut t, &mut s.name);
                name = Some(t);
            }
            let mut args: Option<String> = None;
            if s.saw_arguments {
                let mut t = String::new();
                std::mem::swap(&mut t, &mut s.arguments);
                args = Some(t);
            }
            match k {
                PayloadKind::Function => {
                    m.function.seen = m.function.seen || s.saw_payload;
                    if name.is_some() {
                        m.function.name = name;
                    }
                    if args.is_some() {
                        m.function.args = args;
                    }
                },
                PayloadKind::Custom => {
                    m.custom.seen = m.custom.seen || s.saw_payload;
                    if name.is_some() {
                        m.custom.name = name;
                    }
                    if args.is_some() {
                        m.custom.args = args;
                    }
                },
            }
        },
    }
    s.mirror = Some(m);
}

/// Settles the kind by declaration.
pub fn relock_kind(s: &mut ToolCallState, declared: PayloadKind)
    ensures
        final(s)@ == relocked(old(s)@, declared),
{
    let inferred = match s.kind {
        None => {
            s.kind = Some(declared);
            return;
        },
        Some(k) => k,
    };
    if inferred == declared {
        return;
    }
    let mut members = match object_of(&s.extra, inferred.key()) {
        Some(m) => {
            let _ = s.extra.remove(inferred.key());
            m
        },
        None => JsonMap::new(),
    };
    if s.saw_name {
        members.set("name", Json::Str(s.name.clone()));
    }
    if s.saw_arguments {
        members.set(inferred.args_key(), Json::Str(s.arguments.clone()));
    }
    if s.saw_payload || !members.is_empty() {
        s.extra.set(inferred.key(), Json::object(members));
    }
    s.name = String::new();
    s.arguments = String::new();
    s.saw_payload = false;
    s.saw_name = false;
    s.saw_arguments = false;
    s.kind = Some(declared);
}

fn warn_call(ws: &mut Vec<ConversionWarning>, message: &str)
    ensures
        views(final(ws)@) == odd_call(views(old(ws)@), message@),
{
    parse_warn(
        ws,
        OPENAI_CHAT_COMPLETIONS,
        WarningCode::MalformedToolCall,
        "/choices/0/delta/tool_calls",
        message,
    );
}

/// Applies the first declaration of a type.
pub fn apply_declared_type(s: &mut ToolCallState, t: &Json, wire: u64, ws: &mut Vec<ConversionWarning>)
    ensures
        (final(s)@, views(final(ws)@)) == declared(old(s)@, t@, wire, views(old(ws)@)),
{
    match t {
        Json::Str(name) => {
            if text_is(name, "function") {
                relock_kind(s, PayloadKind::Function);
            } else if text_is(name, "custom") {
                relock_kind(s, PayloadKind::Custom);
            } else {
                enter_mirror(s);
            }
        },
        _ => {
            warn_field(
                ws,
                "/choices/0/delta/tool_calls",
                cat3(
                    "tool call index ",
                    dec(wire).as_str(),
                    " declares a non-string `type`; the entry was mirrored verbatim",
                ).as_str(),
            );
            enter_mirror(s);
        },
    }
}

fn read_type(s: &mut ToolCallState, t: Option<&Json>, wire: u64, ws: &mut Vec<ConversionWarning>)
    ensures
        (final(s)@, views(final(ws)@)) == type_read(old(s)@, opt_view(t), wire, views(old(ws)@)),
{
    let t = match t {
        None => {
            return;
        },
        Some(t) => t,
    };
    if t.is_null() {
        return;
    }
    match &s.declared_type {
        Some(first) => {
            if !first.same(t) {
                warn_call(
                    ws,
                    cat3(
                        "tool call index ",
                        dec(wire).as_str(),
                        " declares conflicting `type` values; the first declaration wins and this one was ignored",
                    ).as_str(),
                );
            }
        },
        None => {
            s.declared_type = Some(t.copy());
            apply_declared_type(s, t, wire, ws);
        },
    }
}

fn extend_nested_extra(extra: &mut JsonMap, key: &str, members: &JsonMap)
    ensures
        final(extra)@ == nested_extended(old(extra)@, key@, members@),
{
    if members.is_empty() {
        return;
    }
    if !extra.contains_key(key) {
        let mut o = JsonMap::new();
        extend_map(&mut o, members);
        proof {
            reveal(obj_get);
        }
        extra.set(key, Json::object(o));
        return;
    }
    if let Some(m) = object_of(extra, key) {
        let mut o = m;
        extend_map(&mut o, members);
        extra.set(key, Json::object(o));
    } else {
        proof {
            reveal(obj_get);
        }
    }
}

/// A route that is being built.
#[derive(Debug)]
pub struct Route {
    pub call: ToolCallState,
    pub deltas: Vec<String>,
    pub warnings: Vec<ConversionWarning>,
}

impl View for Route {
    type V = RouteV;

    open spec fn view(&self) -> RouteV {
        RouteV { call: self.call@, deltas: views(self.deltas@), warnings: views(self.warnings@) }
    }
}

fn route_member(r: &mut Route, unknowns: &mut JsonMap, kind: PayloadKind, wire: u64, key: &String, v: &Json)
    ensures
        (final(r)@, final(unknowns)@) == member_routed((old(r)@, old(unknowns)@), kind, wire, key@, v@),
{
    let is_name = text_is(key, "name");
    if is_name || str_eq(key.as_str(), kind.args_key()) {
        match v {
            Json::Str(piece) => {
                if is_name {
                    r.call.saw_name = true;
                    r.call.name.append(piece.as_str());
                } else {
                    r.call.saw_arguments = true;
                    if !piece.as_str().is_empty() {
                        r.deltas.push(piece.clone());
                    }
                }
            },
            Json::Null => {},
            _ => {
                if is_name {
                    r.call.saw_name = true;
                } else {
                    r.call.saw_arguments = true;
                }
                let what = cat4(": non-string `", kind.key(), ".", key.as_str());
                warn_call(
                    &mut r.warnings,
                    cat4("tool call index ", dec(wire).as_str(), what.as_str(), "` fragment was ignored").as_str(),
                );
                proof {
                    let a = "tool call index "@ + decimal(wire as nat);
                    assert(a + (": non-string `"@ + payload_key(kind) + "."@ + key@) + "` fragment was ignored"@
                        =~= a + ": non-string `"@ + payload_key(kind) + "."@ + key@ + "` fragment was ignored"@);
                }
            },
        }
    } else if !v.is_null() {
        unknowns.set(key.as_str(), v.copy());
    }
}

fn count_payload(r: &mut Route, kind: PayloadKind, wire: u64, m: &JsonMap)
    ensures
        final(r)@ == payload_counted(old(r)@, kind, wire, m@),
{
    let ghost r0 = r@;
    r.call.saw_payload = true;
    let mut unknowns = JsonMap::new();
    let mut i: usize = 0;
    while i < m.entries.len()
        invariant
            i <= m.entries@.len(),
            (r@, unknowns@) == members_routed(r0, kind, wire, m@, i as nat),
        decreases m.entries@.len() - i,
    {
        proof {
            assert(m@[i as int] == (m.entries@[i as int].0@, m.entries@[i as int].1@));
        }
        route_member(r, &mut unknowns, kind, wire, &m.entries[i].0, &m.entries[i].1);
        i += 1;
    }
    extend_nested_extra(&mut r.call.extra, kind.key(), &unknowns);
}

/// Routes a payload object of a fragment.
pub fn route_payload(r: &mut Route, kind: PayloadKind, wire: u64, payload: Option<&Json>)
    ensures
        final(r)@ == payload_routed(old(r)@, kind, wire, opt_view(payload)),
{
    broadcast use group_json;
    match payload {
        None => {},
        Some(Json::Null) => {},
        Some(Json::Object(m)) => {
            let mut mirror: Option<MirrorState> = None;
            std::mem::swap(&mut mirror, &mut r.call.mirror);
            match mirror {
                Some(x) => {
                    let mut x = x;
                    match kind {
                        PayloadKind::Function => {
                            x.function.absorb(kind, m);
                        },
                        PayloadKind::Custom => {
                            x.custom.absorb(kind, m);
                        },
                    }
                    r.call.mirror = Some(x);
                },
                None => match r.call.kind {
                    None => {
                        r.call.kind = Some(kind);
                        count_payload(r, kind, wire, m);
                    },
                    Some(locked) => {
                        if locked == kind {
                            count_payload(r, kind, wire, m);
                        } else {
                            let mixed = cat5(" mixes `", locked.key(), "` and `", kind.key(), "` payloads; the `");
                            warn_call(
                                &mut r.warnings,
                                cat5(
                                    "tool call index ",
                                    dec(wire).as_str(),
                                    mixed.as_str(),
                                    kind.key(),
                                    "` fragment was mirrored into the block extra instead of accumulated",
                                ).as_str(),
                            );
                            proof {
                                let a = "tool call index "@ + decimal(wire as nat);
                                let z =
                                    "` fragment was mirrored into the block extra instead of accumulated"@;
                                assert(a + (" mixes `"@ + payload_key(locked) + "` and `"@ + payload_key(kind)
                                    + "` payloads; the `"@) + payload_key(kind) + z =~= a + " mixes `"@
                                    + payload_key(locked) + "` and `"@ + payload_key(kind)
                                    + "` payloads; the `"@ + payload_key(kind) + z);
                            }
                            extend_nested_extra(&mut r.call.extra, kind.key(), m);
                        }
                    },
                },
            }
        },
        Some(_) => {
            warn_call(
                &mut r.warnings,
                cat5(
                    "tool call index ",
                    dec(wire).as_str(),
                    ": non-object `",
                    kind.key(),
                    "` payload fragment was ignored",
                ).as_str(),
            );
        },
    }
}

fn is_modeled_field(key: &String) -> (r: bool)
    ensures
        r == modeled_field(key@),
{
    text_is(key, "index") || text_is(key, "id") || text_is(key, "type") || text_is(key, "function") || text_is(
        key,
        "custom",
    )
}

/// Keeps the unknown fields of a fragment.
pub fn collect_fragment_extras(extra: &mut JsonMap, fragment: &Json)
    ensures
        final(extra)@ == fragment_kept(old(extra)@, fragment@),
{
    let ghost e0 = extra@;
    if let Some(o) = fragment.as_object() {
        let mut i: usize = 0;
        while i < o.entries.len()
            invariant
                i <= o.entries@.len(),
                extra@ == fields_kept(e0, o@, i as nat),
            decreases o.entries@.len() - i,
        {
            proof {
                assert(o@[i as int] == (o.entries@[i as int].0@, o.entries@[i as int].1@));
            }
            if !is_modeled_field(&o.entries[i].0) && !o.entries[i].1.is_null() {
                extra.set(o.entries[i].0.as_str(), o.entries[i].1.copy());
            }
            i += 1;
        }
    }
}

/// Takes in one fragment of a call.
pub fn route_fragment(s: ToolCallState, fragment: &Json, wire: u64, ws: Vec<ConversionWarning>) -> (r: Route)
    ensures
        r@ == fragment_routed(s@, fragment@, wire, views(ws@)),
{
    let mut s = s;
    let mut ws = ws;
    if let Some(j) = fragment.get("id") {
        if let Some(id) = j.as_str() {
            grow(&mut s.id, id);
        }
    }
    read_type(&mut s, fragment.get("type"), wire, &mut ws);
    let mut r = Route { call: s, deltas: Vec::new(), warnings: ws };
    proof {
        assert(r@.deltas =~= Seq::<Seq<char>>::empty());
    }
    route_payload(&mut r, PayloadKind::Function, wire, fragment.get("function"));
    route_payload(&mut r, PayloadKind::Custom, wire, fragment.get("custom"));
    collect_fragment_extras(&mut r.call.extra, fragment);
    r
}

fn warn_missing(s: &ToolCallState, kind: PayloadKind, wire: u64, ws: &mut Vec<ConversionWarning>)
    ensures
        views(final(ws)@) == missing_noted(s@, kind, wire, views(old(ws)@)),
{
    let head = cat2("tool call index ", dec(wire).as_str());
    let ghost a = "tool call index "@ + decimal(wire as nat);
    let ghost key = payload_key(kind);
    let ghost args = payload_args_key(kind);
    if !s.saw_payload {
        let what = cat3(kind.key(), "` payload; `name` and `", kind.args_key());
        warn_call(
            ws,
            cat4(head.as_str(), " carries no `", what.as_str(), "` parse as empty strings").as_str(),
        );
        proof {
            assert(a + " carries no `"@ + (key + "` payload; `name` and `"@ + args) + "` parse as empty strings"@
                =~= a + " carries no `"@ + key + "` payload; `name` and `"@ + args + "` parse as empty strings"@);
        }
    }
    if !s.saw_name {
        warn_call(
            ws,
            cat4(
                head.as_str(),
                ": `",
                kind.key(),
                ".name` is missing; it parses as an empty string and re-serializes as such",
            ).as_str(),
        );
    }
    if !s.saw_arguments {
        let what = cat3(kind.key(), ".", kind.args_key());
        warn_call(
            ws,
            cat4(
                head.as_str(),
                ": `",
                what.as_str(),
                "` is missing; it parses as an empty string and re-serializes as such",
            ).as_str(),
        );
        proof {
            let z = "` is missing; it parses as an empty string and re-serializes as such"@;
            assert(a + ": `"@ + (key + "."@ + args) + z =~= a + ": `"@ + key + "."@ + args + z);
        }
    }
}

fn build_mirror_block(s: ToolCallState, m: MirrorState) -> (r: ContentBlock)
    ensures
        r@ == mirror_block(s@, m@),
{
    let mut ns = s.extra;
    if let Some(v) = m.function.fold(PayloadKind::Function) {
        ns.set("function", v);
    }
    if let Some(v) = m.custom.fold(PayloadKind::Custom) {
        ns.set("custom", v);
    }
    if let Some(t) = s.declared_type {
        ns.set(TYPE_KEY, t);
    }
    ContentBlock::ToolCall {
        id: s.id,
        name: String::new(),
        arguments: String::new(),
        cache: None,
        extra: Extra::from_unknown(OPENAI_CHAT_COMPLETIONS, ns),
    }
}

fn is_function(t: &Json) -> (r: bool)
    ensures
        r == (t@ == JsonV::Str("function"@)),
{
    match t {
        Json::Str(s) => text_is(s, "function"),
        _ => false,
    }
}

/// Finishes the block of a call.
pub fn finalize_tool_call(s: ToolCallState, wire: u64, ws: &mut Vec<ConversionWarning>) -> (r: ContentBlock)
    ensures
        (r@, views(final(ws)@)) == finished_call(s@, wire, views(old(ws)@)),
{
    let mut s = s;
    let ghost s0 = s@;
    if s.id.is_none() {
        warn_call(
            ws,
            cat3(
                "tool call index ",
                dec(wire).as_str(),
                " has no `id`; the IR keeps `id: None`, and formats that require tool call ids will fail to rebuild the call",
            ).as_str(),
        );
    }
    let mut mirror: Option<MirrorState> = None;
    std::mem::swap(&mut mirror, &mut s.mirror);
    if let Some(m) = mirror {
        if let Some(Json::Str(t)) = &s.declared_type {
            warn_field(
                ws,
                "/choices/0/delta/tool_calls",
                cat5(
                    "tool call index ",
                    dec(wire).as_str(),
                    " has unknown tool call type `",
                    t.as_str(),
                    "`; the entry was mirrored verbatim",
                ).as_str(),
            );
        }
        return build_mirror_block(s, m);
    }
    let kind = match s.kind {
        Some(k) => k,
        None => PayloadKind::Function,
    };
    warn_missing(&s, kind, wire, ws);
    let mut ns = s.extra;
    match s.declared_type {
        Some(t) => {
            if !is_function(&t) {
                ns.set(TYPE_KEY, t);
            }
        },
        None => {
            if kind == PayloadKind::Custom {
                ns.set(TYPE_KEY, Json::text("custom"));
            }
        },
    }
    ContentBlock::ToolCall {
        id: s.id,
        name: s.name,
        arguments: s.arguments,
        cache: None,
        extra: Extra::from_unknown(OPENAI_CHAT_COMPLETIONS, ns),
    }
}

} // verus!
