//! The intermediate representation of chat requests, responses and streams.

use vstd::prelude::*;
use crate::json::{json_as_u64, obj_get, obj_set, Json, JsonMap, JsonV, Num, NumV, ObjV};
use crate::merge::{addressed, merge_patch, merged, obj_part, MergeLog};
use crate::model::{dup_opt, dup_opt_vec, dup_vec, group_views, opt_view, opt_views, views, Dup};
use crate::text::{text_is, str_eq};

verus! {

broadcast use group_views;

/// Who a message is from.
#[derive(Clone, Copy, Debug, PartialEq, Eq, Structural)]
pub enum Role {
    System,
    Developer,
    User,
    Assistant,
    Tool,
}

impl View for Role {
    type V = Role;

    open spec fn view(&self) -> Role {
        *self
    }
}

/// Provider data of a node, one namespace per format. A namespace takes part
/// only when its format is built.
#[derive(Debug, PartialEq, Eq)]
pub struct Extra {
    pub namespaces: Vec<(String, JsonMap)>,
}

/// The namespaces of an [`Extra`], in order.
pub type ExtraV = Seq<(Seq<char>, ObjV)>;

impl View for Extra {
    type V = ExtraV;

    open spec fn view(&self) -> ExtraV {
        views(self.namespaces@)
    }
}

impl Dup for Extra {
    fn dup(&self) -> (r: Self) {
        Extra { namespaces: dup_vec(&self.namespaces) }
    }
}

/// Position of the namespace of `fmt` at or after `i`; the length when there
/// is none.
pub open spec fn extra_index_from(e: ExtraV, fmt: Seq<char>, i: int) -> int
    decreases e.len() - i,
{
    if i < 0 || i >= e.len() {
        e.len() as int
    } else if e[i].0 == fmt {
        i
    } else {
        extra_index_from(e, fmt, i + 1)
    }
}

/// The namespace of `fmt`.
#[verifier::opaque]
pub open spec fn extra_get(e: ExtraV, fmt: Seq<char>) -> Option<ObjV> {
    let i = extra_index_from(e, fmt, 0);
    if 0 <= i < e.len() {
        Some(e[i].1)
    } else {
        None
    }
}

/// The members of the namespace of `fmt`; none when it is absent.
pub open spec fn extra_ns(e: ExtraV, fmt: Seq<char>) -> ObjV {
    match extra_get(e, fmt) {
        Some(ns) => ns,
        None => Seq::empty(),
    }
}

/// The namespace of `fmt` holds something.
pub open spec fn extra_has(e: ExtraV, fmt: Seq<char>) -> bool {
    extra_ns(e, fmt).len() > 0
}

/// Some namespace holds something.
pub open spec fn extra_has_any(e: ExtraV) -> bool {
    exists|i: int| 0 <= i < e.len() && (#[trigger] e[i]).1.len() > 0
}

/// The members of `o` among the first `n` that are not `null`, in order.
pub open spec fn non_null(o: ObjV, n: nat) -> ObjV
    decreases n,
{
    if n == 0 || n > o.len() {
        Seq::empty()
    } else if o[n - 1].1 is Null {
        non_null(o, (n - 1) as nat)
    } else {
        non_null(o, (n - 1) as nat).push(o[n - 1])
    }
}

/// The provider data made of the fields that a parse did not model: `null`
/// fields count as absent, and without fields there is no namespace.
pub open spec fn extra_from_unknown(fmt: Seq<char>, fields: ObjV) -> ExtraV {
    let kept = non_null(fields, fields.len());
    if kept.len() == 0 {
        Seq::empty()
    } else {
        seq![(fmt, kept)]
    }
}

/// `e` with member `k` of the namespace of `fmt` set to `v`.
pub open spec fn extra_set(e: ExtraV, fmt: Seq<char>, k: Seq<char>, v: JsonV) -> ExtraV {
    let i = extra_index_from(e, fmt, 0);
    if 0 <= i < e.len() {
        e.update(i, (e[i].0, obj_set(e[i].1, k, v)))
    } else {
        e.push((fmt, obj_set(Seq::empty(), k, v)))
    }
}

/// `j` after the namespace of `fmt` was merged into it.
pub open spec fn extra_merged(e: ExtraV, fmt: Seq<char>, j: JsonV) -> JsonV {
    if extra_has(e, fmt) {
        JsonV::Object(merged(obj_part(Some(j)), extra_ns(e, fmt)))
    } else {
        j
    }
}

/// The merge log after the namespace of `fmt` was merged at `ptr`.
pub open spec fn extra_logged(
    e: ExtraV,
    fmt: Seq<char>,
    ptr: Seq<char>,
    log: Seq<Seq<char>>,
) -> Seq<Seq<char>> {
    if extra_has(e, fmt) {
        log + addressed(extra_ns(e, fmt), ptr)
    } else {
        log
    }
}

impl Extra {
    /// No provider data.
    pub fn new() -> (r: Extra)
        ensures
            r@ == Seq::<(Seq<char>, ObjV)>::empty(),
    {
        Extra { namespaces: Vec::new() }
    }

    fn index_of(&self, fmt: &str) -> (r: usize)
        ensures
            r as int == extra_index_from(self@, fmt@, 0),
            r <= self.namespaces@.len(),
    {
        let mut i: usize = 0;
        while i < self.namespaces.len()
            invariant
                i <= self.namespaces@.len(),
                extra_index_from(self@, fmt@, 0) == extra_index_from(self@, fmt@, i as int),
            decreases self.namespaces@.len() - i,
        {
            proof {
                assert(self@[i as int].0 == self.namespaces@[i as int].0@);
            }
            if text_is(&self.namespaces[i].0, fmt) {
                return i;
            }
            i += 1;
        }
        i
    }

    /// The namespace of `fmt`.
    pub fn get(&self, fmt: &str) -> (r: Option<&JsonMap>)
        ensures
            opt_view(r) == extra_get(self@, fmt@),
    {
        reveal(extra_get);
        let i = self.index_of(fmt);
        if i < self.namespaces.len() {
            Some(&self.namespaces[i].1)
        } else {
            None
        }
    }

    /// `true` when the namespace of `fmt` holds something.
    pub fn has(&self, fmt: &str) -> (r: bool)
        ensures
            r == extra_has(self@, fmt@),
    {
        match self.get(fmt) {
            Some(ns) => !ns.is_empty(),
            None => false,
        }
    }

    /// `true` when some namespace holds something.
    pub fn has_any(&self) -> (r: bool)
        ensures
            r == extra_has_any(self@),
    {
        let mut i: usize = 0;
        while i < self.namespaces.len()
            invariant
                i <= self.namespaces@.len(),
                forall|j: int| 0 <= j < i ==> (#[trigger] self@[j]).1.len() == 0,
            decreases self.namespaces@.len() - i,
        {
            if !self.namespaces[i].1.is_empty() {
                proof {
                    assert(self@[i as int].1.len() > 0);
                }
                return true;
            }
            i += 1;
        }
        false
    }

    /// The names of the formats that have a namespace, in order.
    pub fn formats(&self) -> (r: Vec<String>)
        ensures
            views(r@) == self@.map_values(|p: (Seq<char>, ObjV)| p.0),
    {
        let mut out: Vec<String> = Vec::new();
        let mut i: usize = 0;
        let ghost names = self@.map_values(|p: (Seq<char>, ObjV)| p.0);
        while i < self.namespaces.len()
            invariant
                i <= self.namespaces@.len(),
                names == self@.map_values(|p: (Seq<char>, ObjV)| p.0),
                views(out@) == names.take(i as int),
            decreases self.namespaces@.len() - i,
        {
            out.push(self.namespaces[i].0.clone());
            proof {
                assert(names.take(i as int + 1) =~= names.take(i as int).push(names[i as int]));
            }
            i += 1;
        }
        proof {
            assert(names.take(i as int) =~= names);
        }
        out
    }

    /// Provider data made of the fields that a parse did not model.
    pub fn from_unknown(fmt: &str, fields: JsonMap) -> (r: Extra)
        ensures
            r@ == extra_from_unknown(fmt@, fields@),
    {
        let mut kept = JsonMap::new();
        let mut i: usize = 0;
        while i < fields.entries.len()
            invariant
                i <= fields.entries@.len(),
                kept@ == non_null(fields@, i as nat),
            decreases fields.entries@.len() - i,
        {
            let k = &fields.entries[i].0;
            let v = &fields.entries[i].1;
            proof {
                assert(fields@[i as int] == (k@, v@));
            }
            if !v.is_null() {
                kept.entries.push((k.clone(), v.copy()));
            }
            i += 1;
        }
        if kept.is_empty() {
            Extra::new()
        } else {
            let mut v: Vec<(String, JsonMap)> = Vec::new();
            v.push((fmt.to_owned(), kept));
            proof {
                assert(views(v@) =~= seq![(fmt@, kept@)]);
            }
            Extra { namespaces: v }
        }
    }

    /// Sets member `k` of the namespace of `fmt`.
    pub fn set(&mut self, fmt: &str, k: &str, v: Json)
        ensures
            final(self)@ == extra_set(old(self)@, fmt@, k@, v@),
    {
        let i = self.index_of(fmt);
        if i < self.namespaces.len() {
            let name = self.namespaces[i].0.clone();
            let mut ns = self.namespaces[i].1.copy();
            ns.set(k, v);
            self.namespaces[i] = (name, ns);
        } else {
            let mut ns = JsonMap::new();
            ns.set(k, v);
            self.namespaces.push((fmt.to_owned(), ns));
        }
    }

    /// Merges the namespace of `fmt` into `target`, which stands at `ptr`.
    pub fn merge_into(&self, fmt: &str, target: &mut Json, ptr: &str, log: &mut MergeLog)
        ensures
            final(target)@ == extra_merged(self@, fmt@, old(target)@),
            final(log)@ == extra_logged(self@, fmt@, ptr@, old(log)@),
    {
        match self.get(fmt) {
            Some(ns) => if !ns.is_empty() {
                merge_patch(target, ns, ptr, log);
            },
            None => {},
        }
    }
}

/// A prompt-cache hint on a block or tool.
#[derive(Debug, PartialEq, Eq)]
pub struct CacheHint {
    /// Requested time to live.
    pub ttl: Option<String>,
}

/// The mathematical value of a [`CacheHint`].
pub struct CacheHintV {
    pub ttl: Option<Seq<char>>,
}

impl View for CacheHint {
    type V = CacheHintV;

    open spec fn view(&self) -> CacheHintV {
        CacheHintV {
            ttl: opt_view(self.ttl),
        }
    }
}

impl Dup for CacheHint {
    fn dup(&self) -> (r: Self) {
        CacheHint {
            ttl: dup_opt(&self.ttl),
        }
    }
}

/// Versioned data that a parse leaves on a message so that a later build can
/// restore its placement.
#[derive(Debug, PartialEq, Eq)]
pub struct RoundTripMeta {
    /// Payload version.
    pub version: u64,
    /// Payload fields.
    pub fields: JsonMap,
}

/// The mathematical value of a [`RoundTripMeta`].
pub struct RoundTripMetaV {
    pub version: u64,
    pub fields: ObjV,
}

impl View for RoundTripMeta {
    type V = RoundTripMetaV;

    open spec fn view(&self) -> RoundTripMetaV {
        RoundTripMetaV {
            version: self.version,
            fields: self.fields@,
        }
    }
}

impl Dup for RoundTripMeta {
    fn dup(&self) -> (r: Self) {
        RoundTripMeta {
            version: self.version,
            fields: self.fields.dup(),
        }
    }
}

/// Where image data comes from.
#[derive(Debug, PartialEq, Eq)]
pub enum ImageSource {
    /// A remote URL.
    Url(String),
    /// Inline base64 data.
    Base64 {
        media_type: String,
        data: String,
    },
    /// A provider file id.
    FileId(String),
}

/// The mathematical value of a [`ImageSource`].
pub enum ImageSourceV {
    Url(Seq<char>),
    Base64 { media_type: Seq<char>, data: Seq<char> },
    FileId(Seq<char>),
}

impl View for ImageSource {
    type V = ImageSourceV;

    open spec fn view(&self) -> ImageSourceV {
        match self {
            ImageSource::Url(x) => ImageSourceV::Url(x@),
            ImageSource::Base64 { media_type, data } => ImageSourceV::Base64 {
                media_type: media_type@,
                data: data@,
            },
            ImageSource::FileId(x) => ImageSourceV::FileId(x@),
        }
    }
}

impl Dup for ImageSource {
    fn dup(&self) -> (r: Self) {
        match self {
            ImageSource::Url(x) => ImageSource::Url(x.clone()),
            ImageSource::Base64 { media_type, data } => ImageSource::Base64 {
                media_type: media_type.clone(),
                data: data.clone(),
            },
            ImageSource::FileId(x) => ImageSource::FileId(x.clone()),
        }
    }
}

/// One block of a tool result.
#[derive(Debug, PartialEq, Eq)]
pub enum ToolOutputBlock {
    /// Text output.
    Text {
        text: String,
        cache: Option<CacheHint>,
        extra: Extra,
    },
    /// Image output.
    Image {
        source: ImageSource,
        cache: Option<CacheHint>,
        extra: Extra,
    },
    /// A provider node kept verbatim.
    Opaque {
        format: String,
        value: Json,
    },
}

/// The mathematical value of a [`ToolOutputBlock`].
pub enum ToolOutputBlockV {
    Text { text: Seq<char>, cache: Option<CacheHintV>, extra: ExtraV },
    Image { source: ImageSourceV, cache: Option<CacheHintV>, extra: ExtraV },
    Opaque { format: Seq<char>, value: JsonV },
}

impl View for ToolOutputBlock {
    type V = ToolOutputBlockV;

    open spec fn view(&self) -> ToolOutputBlockV {
        match self {
            ToolOutputBlock::Text { text, cache, extra } => ToolOutputBlockV::Text {
                text: text@,
                cache: opt_view(*cache),
                extra: extra@,
            },
            ToolOutputBlock::Image { source, cache, extra } => ToolOutputBlockV::Image {
                source: source@,
                cache: opt_view(*cache),
                extra: extra@,
            },
            ToolOutputBlock::Opaque { format, value } => ToolOutputBlockV::Opaque {
                format: format@,
                value: value@,
            },
        }
    }
}

impl Dup for ToolOutputBlock {
    fn dup(&self) -> (r: Self) {
        match self {
            ToolOutputBlock::Text { text, cache, extra } => ToolOutputBlock::Text {
                text: text.clone(),
                cache: dup_opt(cache),
                extra: extra.dup(),
            },
            ToolOutputBlock::Image { source, cache, extra } => ToolOutputBlock::Image {
                source: source.dup(),
                cache: dup_opt(cache),
                extra: extra.dup(),
            },
            ToolOutputBlock::Opaque { format, value } => ToolOutputBlock::Opaque {
                format: format.clone(),
                value: value.dup(),
            },
        }
    }
}

/// One block of message content.
#[allow(inconsistent_fields)]
#[derive(Debug, PartialEq, Eq)]
pub enum ContentBlock {
    /// Text.
    Text {
        text: String,
        cache: Option<CacheHint>,
        extra: Extra,
    },
    /// An image.
    Image {
        source: ImageSource,
        cache: Option<CacheHint>,
        extra: Extra,
    },
    /// A tool call; `arguments` is the raw JSON argument text.
    ToolCall {
        id: Option<String>,
        name: String,
        arguments: String,
        cache: Option<CacheHint>,
        extra: Extra,
    },
    /// The result of a tool call.
    ToolResult {
        tool_call_id: Option<String>,
        name: Option<String>,
        content: Vec<ToolOutputBlock>,
        is_error: Option<bool>,
        cache: Option<CacheHint>,
        extra: Extra,
    },
    /// Model thinking.
    Thinking {
        text: Option<String>,
        signature: Option<String>,
        extra: Extra,
    },
    /// A provider node kept verbatim.
    Opaque {
        format: String,
        value: Json,
    },
}

/// The mathematical value of a [`ContentBlock`].
#[allow(inconsistent_fields)]
pub enum ContentBlockV {
    Text { text: Seq<char>, cache: Option<CacheHintV>, extra: ExtraV },
    Image { source: ImageSourceV, cache: Option<CacheHintV>, extra: ExtraV },
    ToolCall { id: Option<Seq<char>>, name: Seq<char>, arguments: Seq<char>, cache: Option<CacheHintV>, extra: ExtraV },
    ToolResult { tool_call_id: Option<Seq<char>>, name: Option<Seq<char>>, content: Seq<ToolOutputBlockV>, is_error: Option<bool>, cache: Option<CacheHintV>, extra: ExtraV },
    Thinking { text: Option<Seq<char>>, signature: Option<Seq<char>>, extra: ExtraV },
    Opaque { format: Seq<char>, value: JsonV },
}

impl View for ContentBlock {
    type V = ContentBlockV;

    open spec fn view(&self) -> ContentBlockV {
        match self {
            ContentBlock::Text { text, cache, extra } => ContentBlockV::Text {
                text: text@,
                cache: opt_view(*cache),
                extra: extra@,
            },
            ContentBlock::Image { source, cache, extra } => ContentBlockV::Image {
                source: source@,
                cache: opt_view(*cache),
                extra: extra@,
            },
            ContentBlock::ToolCall { id, name, arguments, cache, extra } => ContentBlockV::ToolCall {
                id: opt_view(*id),
                name: name@,
                arguments: arguments@,
                cache: opt_view(*cache),
                extra: extra@,
            },
            ContentBlock::ToolResult { tool_call_id, name, content, is_error, cache, extra } => ContentBlockV::ToolResult {
                tool_call_id: opt_view(*tool_call_id),
                name: opt_view(*name),
                content: views(content@),
                is_error: *is_error,
                cache: opt_view(*cache),
                extra: extra@,
            },
            ContentBlock::Thinking { text, signature, extra } => ContentBlockV::Thinking {
                text: opt_view(*text),
                signature: opt_view(*signature),
                extra: extra@,
            },
            ContentBlock::Opaque { format, value } => ContentBlockV::Opaque {
                format: format@,
                value: value@,
            },
        }
    }
}

impl Dup for ContentBlock {
    fn dup(&self) -> (r: Self) {
        match self {
            ContentBlock::Text { text, cache, extra } => ContentBlock::Text {
                text: text.clone(),
                cache: dup_opt(cache),
                extra: extra.dup(),
            },
            ContentBlock::Image { source, cache, extra } => ContentBlock::Image {
                source: source.dup(),
                cache: dup_opt(cache),
                extra: extra.dup(),
            },
            ContentBlock::ToolCall { id, name, arguments, cache, extra } => ContentBlock::ToolCall {
                id: dup_opt(id),
                name: name.clone(),
                arguments: arguments.clone(),
                cache: dup_opt(cache),
                extra: extra.dup(),
            },
            ContentBlock::ToolResult { tool_call_id, name, content, is_error, cache, extra } => ContentBlock::ToolResult {
                tool_call_id: dup_opt(tool_call_id),
                name: dup_opt(name),
                content: dup_vec(content),
                is_error: *is_error,
                cache: dup_opt(cache),
                extra: extra.dup(),
            },
            ContentBlock::Thinking { text, signature, extra } => ContentBlock::Thinking {
                text: dup_opt(text),
                signature: dup_opt(signature),
                extra: extra.dup(),
            },
            ContentBlock::Opaque { format, value } => ContentBlock::Opaque {
                format: format.clone(),
                value: value.dup(),
            },
        }
    }
}

/// One message of a conversation.
#[derive(Debug, PartialEq, Eq)]
pub struct Message {
    pub role: Role,
    pub content: Vec<ContentBlock>,
    /// Provider data, by format.
    pub extra: Extra,
    /// Placement data left by a parse.
    pub round_trip: Option<RoundTripMeta>,
}

/// The mathematical value of a [`Message`].
pub struct MessageV {
    pub role: Role,
    pub content: Seq<ContentBlockV>,
    pub extra: ExtraV,
    pub round_trip: Option<RoundTripMetaV>,
}

impl View for Message {
    type V = MessageV;

    open spec fn view(&self) -> MessageV {
        MessageV {
            role: self.role,
            content: views(self.content@),
            extra: self.extra@,
            round_trip: opt_view(self.round_trip),
        }
    }
}

impl Dup for Message {
    fn dup(&self) -> (r: Self) {
        Message {
            role: self.role,
            content: dup_vec(&self.content),
            extra: self.extra.dup(),
            round_trip: dup_opt(&self.round_trip),
        }
    }
}

/// A function the model may call.
#[derive(Debug, PartialEq, Eq)]
pub struct FunctionTool {
    pub name: String,
    pub description: Option<String>,
    /// JSON Schema of the arguments.
    pub parameters: Option<Json>,
    pub strict: Option<bool>,
    pub cache: Option<CacheHint>,
    pub extra: Extra,
}

/// The mathematical value of a [`FunctionTool`].
pub struct FunctionToolV {
    pub name: Seq<char>,
    pub description: Option<Seq<char>>,
    pub parameters: Option<JsonV>,
    pub strict: Option<bool>,
    pub cache: Option<CacheHintV>,
    pub extra: ExtraV,
}

impl View for FunctionTool {
    type V = FunctionToolV;

    open spec fn view(&self) -> FunctionToolV {
        FunctionToolV {
            name: self.name@,
            description: opt_view(self.description),
            parameters: opt_view(self.parameters),
            strict: self.strict,
            cache: opt_view(self.cache),
            extra: self.extra@,
        }
    }
}

impl Dup for FunctionTool {
    fn dup(&self) -> (r: Self) {
        FunctionTool {
            name: self.name.clone(),
            description: dup_opt(&self.description),
            parameters: dup_opt(&self.parameters),
            strict: self.strict,
            cache: dup_opt(&self.cache),
            extra: self.extra.dup(),
        }
    }
}

/// A tool definition.
#[derive(Debug, PartialEq, Eq)]
pub enum Tool {
    Function(FunctionTool),
    /// A provider tool kept verbatim.
    Opaque {
        format: String,
        value: Json,
    },
}

/// The mathematical value of a [`Tool`].
pub enum ToolV {
    Function(FunctionToolV),
    Opaque { format: Seq<char>, value: JsonV },
}

impl View for Tool {
    type V = ToolV;

    open spec fn view(&self) -> ToolV {
        match self {
            Tool::Function(x) => ToolV::Function(x@),
            Tool::Opaque { format, value } => ToolV::Opaque {
                format: format@,
                value: value@,
            },
        }
    }
}

impl Dup for Tool {
    fn dup(&self) -> (r: Self) {
        match self {
            Tool::Function(x) => Tool::Function(x.dup()),
            Tool::Opaque { format, value } => Tool::Opaque {
                format: format.clone(),
                value: value.dup(),
            },
        }
    }
}

/// How the model may use tools.
#[derive(Debug, PartialEq, Eq)]
pub enum ToolChoice {
    Auto,
    Disabled,
    Required,
    Tool {
        name: String,
    },
}

/// The mathematical value of a [`ToolChoice`].
pub enum ToolChoiceV {
    Auto,
    Disabled,
    Required,
    Tool { name: Seq<char> },
}

impl View for ToolChoice {
    type V = ToolChoiceV;

    open spec fn view(&self) -> ToolChoiceV {
        match self {
            ToolChoice::Auto => ToolChoiceV::Auto,
            ToolChoice::Disabled => ToolChoiceV::Disabled,
            ToolChoice::Required => ToolChoiceV::Required,
            ToolChoice::Tool { name } => ToolChoiceV::Tool {
                name: name@,
            },
        }
    }
}

impl Dup for ToolChoice {
    fn dup(&self) -> (r: Self) {
        match self {
            ToolChoice::Auto => ToolChoice::Auto,
            ToolChoice::Disabled => ToolChoice::Disabled,
            ToolChoice::Required => ToolChoice::Required,
            ToolChoice::Tool { name } => ToolChoice::Tool {
                name: name.clone(),
            },
        }
    }
}

/// A reasoning effort tier.
#[derive(Debug, PartialEq, Eq)]
pub enum Effort {
    Disabled,
    Minimal,
    Low,
    Medium,
    High,
    XHigh,
    Max,
    Other(String),
}

/// The mathematical value of a [`Effort`].
pub enum EffortV {
    Disabled,
    Minimal,
    Low,
    Medium,
    High,
    XHigh,
    Max,
    Other(Seq<char>),
}

impl View for Effort {
    type V = EffortV;

    open spec fn view(&self) -> EffortV {
        match self {
            Effort::Disabled => EffortV::Disabled,
            Effort::Minimal => EffortV::Minimal,
            Effort::Low => EffortV::Low,
            Effort::Medium => EffortV::Medium,
            Effort::High => EffortV::High,
            Effort::XHigh => EffortV::XHigh,
            Effort::Max => EffortV::Max,
            Effort::Other(x) => EffortV::Other(x@),
        }
    }
}

impl Dup for Effort {
    fn dup(&self) -> (r: Self) {
        match self {
            Effort::Disabled => Effort::Disabled,
            Effort::Minimal => Effort::Minimal,
            Effort::Low => Effort::Low,
            Effort::Medium => Effort::Medium,
            Effort::High => Effort::High,
            Effort::XHigh => Effort::XHigh,
            Effort::Max => Effort::Max,
            Effort::Other(x) => Effort::Other(x.clone()),
        }
    }
}

/// Reasoning configuration.
#[derive(Debug, PartialEq, Eq)]
pub struct Reasoning {
    pub enabled: Option<bool>,
    pub effort: Option<Effort>,
    pub include_thoughts: Option<bool>,
    pub extra: Extra,
}

/// The mathematical value of a [`Reasoning`].
pub struct ReasoningV {
    pub enabled: Option<bool>,
    pub effort: Option<EffortV>,
    pub include_thoughts: Option<bool>,
    pub extra: ExtraV,
}

impl View for Reasoning {
    type V = ReasoningV;

    open spec fn view(&self) -> ReasoningV {
        ReasoningV {
            enabled: self.enabled,
            effort: opt_view(self.effort),
            include_thoughts: self.include_thoughts,
            extra: self.extra@,
        }
    }
}

impl Dup for Reasoning {
    fn dup(&self) -> (r: Self) {
        Reasoning {
            enabled: self.enabled,
            effort: dup_opt(&self.effort),
            include_thoughts: self.include_thoughts,
            extra: self.extra.dup(),
        }
    }
}

/// Structured-output configuration.
#[derive(Debug, PartialEq, Eq)]
pub enum OutputFormat {
    JsonSchema {
        name: Option<String>,
        description: Option<String>,
        schema: Json,
        strict: Option<bool>,
    },
    JsonObject,
}

/// The mathematical value of a [`OutputFormat`].
pub enum OutputFormatV {
    JsonSchema { name: Option<Seq<char>>, description: Option<Seq<char>>, schema: JsonV, strict: Option<bool> },
    JsonObject,
}

impl View for OutputFormat {
    type V = OutputFormatV;

    open spec fn view(&self) -> OutputFormatV {
        match self {
            OutputFormat::JsonSchema { name, description, schema, strict } => OutputFormatV::JsonSchema {
                name: opt_view(*name),
                description: opt_view(*description),
                schema: schema@,
                strict: *strict,
            },
            OutputFormat::JsonObject => OutputFormatV::JsonObject,
        }
    }
}

impl Dup for OutputFormat {
    fn dup(&self) -> (r: Self) {
        match self {
            OutputFormat::JsonSchema { name, description, schema, strict } => OutputFormat::JsonSchema {
                name: dup_opt(name),
                description: dup_opt(description),
                schema: schema.dup(),
                strict: *strict,
            },
            OutputFormat::JsonObject => OutputFormat::JsonObject,
        }
    }
}

/// A chat request.
#[derive(Debug, PartialEq, Eq)]
pub struct Request {
    /// System prompt (text blocks only).
    pub system: Option<Vec<ContentBlock>>,
    pub messages: Vec<Message>,
    pub tools: Option<Vec<Tool>>,
    pub tool_choice: Option<ToolChoice>,
    pub parallel_tool_calls: Option<bool>,
    pub max_output_tokens: Option<u32>,
    pub temperature: Option<Num>,
    pub top_p: Option<Num>,
    pub top_k: Option<u32>,
    pub frequency_penalty: Option<Num>,
    pub presence_penalty: Option<Num>,
    pub seed: Option<i64>,
    pub stop_sequences: Option<Vec<String>>,
    pub cache_key: Option<String>,
    pub metadata: Option<JsonMap>,
    pub reasoning: Option<Reasoning>,
    pub output_format: Option<OutputFormat>,
    pub extra: Extra,
}

/// The mathematical value of a [`Request`].
pub struct RequestV {
    pub system: Option<Seq<ContentBlockV>>,
    pub messages: Seq<MessageV>,
    pub tools: Option<Seq<ToolV>>,
    pub tool_choice: Option<ToolChoiceV>,
    pub parallel_tool_calls: Option<bool>,
    pub max_output_tokens: Option<u32>,
    pub temperature: Option<NumV>,
    pub top_p: Option<NumV>,
    pub top_k: Option<u32>,
    pub frequency_penalty: Option<NumV>,
    pub presence_penalty: Option<NumV>,
    pub seed: Option<i64>,
    pub stop_sequences: Option<Seq<Seq<char>>>,
    pub cache_key: Option<Seq<char>>,
    pub metadata: Option<ObjV>,
    pub reasoning: Option<ReasoningV>,
    pub output_format: Option<OutputFormatV>,
    pub extra: ExtraV,
}

impl View for Request {
    type V = RequestV;

    open spec fn view(&self) -> RequestV {
        RequestV {
            system: opt_views(self.system),
            messages: views(self.messages@),
            tools: opt_views(self.tools),
            tool_choice: opt_view(self.tool_choice),
            parallel_tool_calls: self.parallel_tool_calls,
            max_output_tokens: self.max_output_tokens,
            temperature: opt_view(self.temperature),
            top_p: opt_view(self.top_p),
            top_k: self.top_k,
            frequency_penalty: opt_view(self.frequency_penalty),
            presence_penalty: opt_view(self.presence_penalty),
            seed: self.seed,
            stop_sequences: opt_views(self.stop_sequences),
            cache_key: opt_view(self.cache_key),
            metadata: opt_view(self.metadata),
            reasoning: opt_view(self.reasoning),
            output_format: opt_view(self.output_format),
            extra: self.extra@,
        }
    }
}

impl Dup for Request {
    fn dup(&self) -> (r: Self) {
        Request {
            system: dup_opt_vec(&self.system),
            messages: dup_vec(&self.messages),
            tools: dup_opt_vec(&self.tools),
            tool_choice: dup_opt(&self.tool_choice),
            parallel_tool_calls: self.parallel_tool_calls,
            max_output_tokens: self.max_output_tokens,
            temperature: dup_opt(&self.temperature),
            top_p: dup_opt(&self.top_p),
            top_k: self.top_k,
            frequency_penalty: dup_opt(&self.frequency_penalty),
            presence_penalty: dup_opt(&self.presence_penalty),
            seed: self.seed,
            stop_sequences: dup_opt_vec(&self.stop_sequences),
            cache_key: dup_opt(&self.cache_key),
            metadata: dup_opt(&self.metadata),
            reasoning: dup_opt(&self.reasoning),
            output_format: dup_opt(&self.output_format),
            extra: self.extra.dup(),
        }
    }
}

/// Why generation stopped.
#[derive(Debug, PartialEq, Eq)]
pub enum StopReason {
    EndTurn,
    MaxTokens,
    StopSequence,
    ToolUse,
    ContentFilter,
    Refusal,
    PauseTurn,
    Other(String),
}

/// The mathematical value of a [`StopReason`].
pub enum StopReasonV {
    EndTurn,
    MaxTokens,
    StopSequence,
    ToolUse,
    ContentFilter,
    Refusal,
    PauseTurn,
    Other(Seq<char>),
}

impl View for StopReason {
    type V = StopReasonV;

    open spec fn view(&self) -> StopReasonV {
        match self {
            StopReason::EndTurn => StopReasonV::EndTurn,
            StopReason::MaxTokens => StopReasonV::MaxTokens,
            StopReason::StopSequence => StopReasonV::StopSequence,
            StopReason::ToolUse => StopReasonV::ToolUse,
            StopReason::ContentFilter => StopReasonV::ContentFilter,
            StopReason::Refusal => StopReasonV::Refusal,
            StopReason::PauseTurn => StopReasonV::PauseTurn,
            StopReason::Other(x) => StopReasonV::Other(x@),
        }
    }
}

impl Dup for StopReason {
    fn dup(&self) -> (r: Self) {
        match self {
            StopReason::EndTurn => StopReason::EndTurn,
            StopReason::MaxTokens => StopReason::MaxTokens,
            StopReason::StopSequence => StopReason::StopSequence,
            StopReason::ToolUse => StopReason::ToolUse,
            StopReason::ContentFilter => StopReason::ContentFilter,
            StopReason::Refusal => StopReason::Refusal,
            StopReason::PauseTurn => StopReason::PauseTurn,
            StopReason::Other(x) => StopReason::Other(x.clone()),
        }
    }
}

/// Unified token usage.
#[derive(Debug, PartialEq, Eq)]
pub struct Usage {
    pub input_tokens: u64,
    pub output_tokens: u64,
    pub total_tokens: Option<u64>,
    pub cache_read_tokens: Option<u64>,
    pub cache_write_tokens: Option<u64>,
    pub reasoning_tokens: Option<u64>,
    /// The provider usage object.
    pub raw: Option<Json>,
}

/// The mathematical value of a [`Usage`].
pub struct UsageV {
    pub input_tokens: u64,
    pub output_tokens: u64,
    pub total_tokens: Option<u64>,
    pub cache_read_tokens: Option<u64>,
    pub cache_write_tokens: Option<u64>,
    pub reasoning_tokens: Option<u64>,
    pub raw: Option<JsonV>,
}

impl View for Usage {
    type V = UsageV;

    open spec fn view(&self) -> UsageV {
        UsageV {
            input_tokens: self.input_tokens,
            output_tokens: self.output_tokens,
            total_tokens: self.total_tokens,
            cache_read_tokens: self.cache_read_tokens,
            cache_write_tokens: self.cache_write_tokens,
            reasoning_tokens: self.reasoning_tokens,
            raw: opt_view(self.raw),
        }
    }
}

impl Dup for Usage {
    fn dup(&self) -> (r: Self) {
        Usage {
            input_tokens: self.input_tokens,
            output_tokens: self.output_tokens,
            total_tokens: self.total_tokens,
            cache_read_tokens: self.cache_read_tokens,
            cache_write_tokens: self.cache_write_tokens,
            reasoning_tokens: self.reasoning_tokens,
            raw: dup_opt(&self.raw),
        }
    }
}

/// An increment of a streamed block.
#[derive(Debug, PartialEq, Eq)]
pub enum BlockDelta {
    Text(String),
    Thinking(String),
    Signature(String),
    ToolArguments(String),
    Other(Json),
}

/// The mathematical value of a [`BlockDelta`].
pub enum BlockDeltaV {
    Text(Seq<char>),
    Thinking(Seq<char>),
    Signature(Seq<char>),
    ToolArguments(Seq<char>),
    Other(JsonV),
}

impl View for BlockDelta {
    type V = BlockDeltaV;

    open spec fn view(&self) -> BlockDeltaV {
        match self {
            BlockDelta::Text(x) => BlockDeltaV::Text(x@),
            BlockDelta::Thinking(x) => BlockDeltaV::Thinking(x@),
            BlockDelta::Signature(x) => BlockDeltaV::Signature(x@),
            BlockDelta::ToolArguments(x) => BlockDeltaV::ToolArguments(x@),
            BlockDelta::Other(x) => BlockDeltaV::Other(x@),
        }
    }
}

impl Dup for BlockDelta {
    fn dup(&self) -> (r: Self) {
        match self {
            BlockDelta::Text(x) => BlockDelta::Text(x.clone()),
            BlockDelta::Thinking(x) => BlockDelta::Thinking(x.clone()),
            BlockDelta::Signature(x) => BlockDelta::Signature(x.clone()),
            BlockDelta::ToolArguments(x) => BlockDelta::ToolArguments(x.clone()),
            BlockDelta::Other(x) => BlockDelta::Other(x.dup()),
        }
    }
}

/// A unified stream event.
#[allow(inconsistent_fields)]
#[derive(Debug, PartialEq, Eq)]
pub enum StreamEvent {
    MessageStart {
        id: Option<String>,
        model: Option<String>,
        usage: Option<Usage>,
    },
    BlockStart {
        index: usize,
        block: ContentBlock,
    },
    BlockDelta {
        index: usize,
        delta: BlockDelta,
    },
    BlockStop {
        index: usize,
        block: Option<ContentBlock>,
    },
    MessageDelta {
        stop_reason: Option<StopReason>,
        usage: Option<Usage>,
    },
    MessageStop,
    Unknown,
}

/// The mathematical value of a [`StreamEvent`].
#[allow(inconsistent_fields)]
pub enum StreamEventV {
    MessageStart { id: Option<Seq<char>>, model: Option<Seq<char>>, usage: Option<UsageV> },
    BlockStart { index: usize, block: ContentBlockV },
    BlockDelta { index: usize, delta: BlockDeltaV },
    BlockStop { index: usize, block: Option<ContentBlockV> },
    MessageDelta { stop_reason: Option<StopReasonV>, usage: Option<UsageV> },
    MessageStop,
    Unknown,
}

impl View for StreamEvent {
    type V = StreamEventV;

    open spec fn view(&self) -> StreamEventV {
        match self {
            StreamEvent::MessageStart { id, model, usage } => StreamEventV::MessageStart {
                id: opt_view(*id),
                model: opt_view(*model),
                usage: opt_view(*usage),
            },
            StreamEvent::BlockStart { index, block } => StreamEventV::BlockStart {
                index: *index,
                block: block@,
            },
            StreamEvent::BlockDelta { index, delta } => StreamEventV::BlockDelta {
                index: *index,
                delta: delta@,
            },
            StreamEvent::BlockStop { index, block } => StreamEventV::BlockStop {
                index: *index,
                block: opt_view(*block),
            },
            StreamEvent::MessageDelta { stop_reason, usage } => StreamEventV::MessageDelta {
                stop_reason: opt_view(*stop_reason),
                usage: opt_view(*usage),
            },
            StreamEvent::MessageStop => StreamEventV::MessageStop,
            StreamEvent::Unknown => StreamEventV::Unknown,
        }
    }
}

impl Dup for StreamEvent {
    fn dup(&self) -> (r: Self) {
        match self {
            StreamEvent::MessageStart { id, model, usage } => StreamEvent::MessageStart {
                id: dup_opt(id),
                model: dup_opt(model),
                usage: dup_opt(usage),
            },
            StreamEvent::BlockStart { index, block } => StreamEvent::BlockStart {
                index: *index,
                block: block.dup(),
            },
            StreamEvent::BlockDelta { index, delta } => StreamEvent::BlockDelta {
                index: *index,
                delta: delta.dup(),
            },
            StreamEvent::BlockStop { index, block } => StreamEvent::BlockStop {
                index: *index,
                block: dup_opt(block),
            },
            StreamEvent::MessageDelta { stop_reason, usage } => StreamEvent::MessageDelta {
                stop_reason: dup_opt(stop_reason),
                usage: dup_opt(usage),
            },
            StreamEvent::MessageStop => StreamEvent::MessageStop,
            StreamEvent::Unknown => StreamEvent::Unknown,
        }
    }
}

/// One server-sent event.
#[derive(Debug, PartialEq, Eq)]
pub struct SseEvent {
    pub event: Option<String>,
    pub data: String,
}

/// The mathematical value of a [`SseEvent`].
pub struct SseEventV {
    pub event: Option<Seq<char>>,
    pub data: Seq<char>,
}

impl View for SseEvent {
    type V = SseEventV;

    open spec fn view(&self) -> SseEventV {
        SseEventV {
            event: opt_view(self.event),
            data: self.data@,
        }
    }
}

impl Dup for SseEvent {
    fn dup(&self) -> (r: Self) {
        SseEvent {
            event: dup_opt(&self.event),
            data: self.data.clone(),
        }
    }
}

/// Key of the turn group in the round-trip data of a message.
pub open spec fn turn_group_key() -> Seq<char> {
    "turn_group"@
}

/// Field `k` of round-trip data of version 1.
pub open spec fn meta_field(m: Option<RoundTripMetaV>, k: Seq<char>) -> Option<JsonV> {
    match m {
        Some(m) => if m.version == 1 { obj_get(m.fields, k) } else { None },
        None => None,
    }
}

/// The turn group that a message belongs to.
pub open spec fn turn_group(m: MessageV) -> Option<u64> {
    json_as_u64(meta_field(m.round_trip, turn_group_key()))
}

/// `m` as a member of turn group `g`.
pub open spec fn in_turn_group(m: MessageV, g: u64) -> MessageV {
    let fields = match m.round_trip {
        Some(meta) => if meta.version == 1 { meta.fields } else { Seq::empty() },
        None => Seq::empty(),
    };
    MessageV {
        round_trip: Some(RoundTripMetaV {
            version: 1,
            fields: obj_set(fields, turn_group_key(), JsonV::Number(NumV::Int(g as int))),
        }),
        ..m
    }
}

/// A message without provider or placement data.
pub open spec fn plain_message(role: Role, content: Seq<ContentBlockV>) -> MessageV {
    MessageV { role, content, extra: Seq::empty(), round_trip: None }
}

/// A text block without cache hint or provider data.
pub open spec fn text_block(text: Seq<char>) -> ContentBlockV {
    ContentBlockV::Text { text, cache: None, extra: Seq::empty() }
}

/// A thinking block without signature or provider data.
pub open spec fn thinking_block(text: Seq<char>) -> ContentBlockV {
    ContentBlockV::Thinking { text: Some(text), signature: None, extra: Seq::empty() }
}

/// A text output block without cache hint or provider data.
pub open spec fn text_output(text: Seq<char>) -> ToolOutputBlockV {
    ToolOutputBlockV::Text { text, cache: None, extra: Seq::empty() }
}

/// The error result that stands in for a call that was never answered.
pub open spec fn cancelled_result(id: Option<Seq<char>>, name: Seq<char>) -> ContentBlockV {
    ContentBlockV::ToolResult {
        tool_call_id: id,
        name: Some(name),
        content: seq![text_output("cancelled"@)],
        is_error: Some(true),
        cache: None,
        extra: Seq::empty(),
    }
}

/// Human-readable name of a block kind.
pub open spec fn block_kind(b: ContentBlockV) -> Seq<char> {
    match b {
        ContentBlockV::Text { .. } => "text"@,
        ContentBlockV::Image { .. } => "image"@,
        ContentBlockV::ToolCall { .. } => "tool_call"@,
        ContentBlockV::ToolResult { .. } => "tool_result"@,
        ContentBlockV::Thinking { .. } => "thinking"@,
        ContentBlockV::Opaque { .. } => "opaque"@,
    }
}

/// The wire name of an effort tier.
pub open spec fn effort_name(e: EffortV) -> Seq<char> {
    match e {
        EffortV::Disabled => "none"@,
        EffortV::Minimal => "minimal"@,
        EffortV::Low => "low"@,
        EffortV::Medium => "medium"@,
        EffortV::High => "high"@,
        EffortV::XHigh => "xhigh"@,
        EffortV::Max => "max"@,
        EffortV::Other(s) => s,
    }
}

/// The effort tier that a wire name stands for.
pub open spec fn effort_named(s: Seq<char>) -> EffortV {
    if s == "none"@ {
        EffortV::Disabled
    } else if s == "minimal"@ {
        EffortV::Minimal
    } else if s == "low"@ {
        EffortV::Low
    } else if s == "medium"@ {
        EffortV::Medium
    } else if s == "high"@ {
        EffortV::High
    } else if s == "xhigh"@ {
        EffortV::XHigh
    } else if s == "max"@ {
        EffortV::Max
    } else {
        EffortV::Other(s)
    }
}

/// The stop reason that a snake-case name stands for.
pub open spec fn stop_reason_named(s: Seq<char>) -> StopReasonV {
    if s == "end_turn"@ {
        StopReasonV::EndTurn
    } else if s == "max_tokens"@ {
        StopReasonV::MaxTokens
    } else if s == "stop_sequence"@ {
        StopReasonV::StopSequence
    } else if s == "tool_use"@ {
        StopReasonV::ToolUse
    } else if s == "content_filter"@ {
        StopReasonV::ContentFilter
    } else if s == "refusal"@ {
        StopReasonV::Refusal
    } else if s == "pause_turn"@ {
        StopReasonV::PauseTurn
    } else {
        StopReasonV::Other(s)
    }
}

/// Some block of `content` is a tool call.
pub open spec fn has_tool_call(content: Seq<ContentBlockV>) -> bool {
    exists|i: int| 0 <= i < content.len() && (#[trigger] content[i]) is ToolCall
}

/// Some block of `content` is a thinking block.
pub open spec fn has_thinking(content: Seq<ContentBlockV>) -> bool {
    exists|i: int| 0 <= i < content.len() && (#[trigger] content[i]) is Thinking
}

/// The stop reason of a complete message: ending the turn with a pending tool
/// call is a stop for tool use.
pub open spec fn normalized_stop_reason(
    m: MessageV,
    reason: Option<StopReasonV>,
) -> Option<StopReasonV> {
    if reason == Some(StopReasonV::EndTurn) && has_tool_call(m.content) {
        Some(StopReasonV::ToolUse)
    } else {
        reason
    }
}

/// The request asks for thinking: it is switched on, or left open with an
/// effort tier other than none.
pub open spec fn enables_thinking(r: Option<ReasoningV>) -> bool {
    match r {
        Some(r) => r.enabled == Some(true) || (r.enabled is None && r.effort is Some
            && !(r.effort->0 is Disabled)),
        None => false,
    }
}

impl CacheHint {
    /// A hint without a time to live.
    pub fn new() -> (r: CacheHint)
        ensures
            r@ == (CacheHintV { ttl: None }),
    {
        CacheHint { ttl: None }
    }

    /// A hint with a time to live.
    pub fn with_ttl(ttl: String) -> (r: CacheHint)
        ensures
            r@ == (CacheHintV { ttl: Some(ttl@) }),
    {
        CacheHint { ttl: Some(ttl) }
    }
}

impl RoundTripMeta {
    /// Round-trip data of version 1.
    pub fn v1(fields: JsonMap) -> (r: RoundTripMeta)
        ensures
            r@ == (RoundTripMetaV { version: 1, fields: fields@ }),
    {
        RoundTripMeta { version: 1, fields }
    }

    /// Field `k` of round-trip data of version 1.
    pub fn v1_field(&self, k: &str) -> (r: Option<&Json>)
        ensures
            opt_view(r) == meta_field(Some(self@), k@),
    {
        if self.version == 1 {
            self.fields.get(k)
        } else {
            None
        }
    }
}

impl ToolOutputBlock {
    /// A text block.
    pub fn text(text: String) -> (r: ToolOutputBlock)
        ensures
            r@ == text_output(text@),
    {
        ToolOutputBlock::Text { text, cache: None, extra: Extra::new() }
    }

    /// A provider node kept verbatim.
    pub fn opaque(format: &str, value: Json) -> (r: ToolOutputBlock)
        ensures
            r@ == (ToolOutputBlockV::Opaque { format: format@, value: value@ }),
    {
        ToolOutputBlock::Opaque { format: format.to_owned(), value }
    }
}

impl ContentBlock {
    /// A text block.
    pub fn text(text: String) -> (r: ContentBlock)
        ensures
            r@ == text_block(text@),
    {
        ContentBlock::Text { text, cache: None, extra: Extra::new() }
    }

    /// A thinking block.
    pub fn thinking(text: String) -> (r: ContentBlock)
        ensures
            r@ == thinking_block(text@),
    {
        ContentBlock::Thinking { text: Some(text), signature: None, extra: Extra::new() }
    }

    /// A provider node kept verbatim.
    pub fn opaque(format: &str, value: Json) -> (r: ContentBlock)
        ensures
            r@ == (ContentBlockV::Opaque { format: format@, value: value@ }),
    {
        ContentBlock::Opaque { format: format.to_owned(), value }
    }

    /// The error result that stands in for a call that was never answered.
    pub fn cancelled(id: &Option<String>, name: &String) -> (r: ContentBlock)
        ensures
            r@ == cancelled_result(opt_view(*id), name@),
    {
        let mut content: Vec<ToolOutputBlock> = Vec::new();
        content.push(ToolOutputBlock::text("cancelled".to_owned()));
        proof {
            assert(views(content@) =~= seq![text_output("cancelled"@)]);
        }
        ContentBlock::ToolResult {
            tool_call_id: dup_opt(id),
            name: Some(name.clone()),
            content,
            is_error: Some(true),
            cache: None,
            extra: Extra::new(),
        }
    }

    /// Human-readable name of the block kind.
    pub fn kind_name(&self) -> (r: &'static str)
        ensures
            r@ == block_kind(self@),
    {
        match self {
            ContentBlock::Text { .. } => "text",
            ContentBlock::Image { .. } => "image",
            ContentBlock::ToolCall { .. } => "tool_call",
            ContentBlock::ToolResult { .. } => "tool_result",
            ContentBlock::Thinking { .. } => "thinking",
            ContentBlock::Opaque { .. } => "opaque",
        }
    }
}

impl Message {
    /// A message without provider or placement data.
    pub fn new(role: Role, content: Vec<ContentBlock>) -> (r: Message)
        ensures
            r@ == plain_message(role, views(content@)),
    {
        Message { role, content, extra: Extra::new(), round_trip: None }
    }

    /// A user message.
    pub fn user(content: Vec<ContentBlock>) -> (r: Message)
        ensures
            r@ == plain_message(Role::User, views(content@)),
    {
        Message::new(Role::User, content)
    }

    /// An assistant message.
    pub fn assistant(content: Vec<ContentBlock>) -> (r: Message)
        ensures
            r@ == plain_message(Role::Assistant, views(content@)),
    {
        Message::new(Role::Assistant, content)
    }

    /// A tool message.
    pub fn tool(content: Vec<ContentBlock>) -> (r: Message)
        ensures
            r@ == plain_message(Role::Tool, views(content@)),
    {
        Message::new(Role::Tool, content)
    }

    /// The turn group that this message belongs to.
    pub fn turn_group_id(&self) -> (r: Option<u64>)
        ensures
            r == turn_group(self@),
    {
        match &self.round_trip {
            Some(m) => match m.v1_field("turn_group") {
                Some(j) => j.as_u64(),
                None => None,
            },
            None => None,
        }
    }

    /// This message as a member of turn group `g`.
    pub fn with_turn_group(self, g: u64) -> (r: Message)
        ensures
            r@ == in_turn_group(self@, g),
    {
        let mut fields = match &self.round_trip {
            Some(m) => if m.version == 1 { m.fields.copy() } else { JsonMap::new() },
            None => JsonMap::new(),
        };
        fields.set("turn_group", Json::uint(g));
        Message {
            role: self.role,
            content: self.content,
            extra: self.extra,
            round_trip: Some(RoundTripMeta::v1(fields)),
        }
    }

    /// `true` when some block is a tool call.
    pub fn has_tool_call(&self) -> (r: bool)
        ensures
            r == has_tool_call(self@.content),
    {
        any_tool_call(&self.content)
    }
}

/// `true` when some block is a tool call.
pub fn any_tool_call(content: &Vec<ContentBlock>) -> (r: bool)
    ensures
        r == has_tool_call(views(content@)),
{
    let mut i: usize = 0;
    while i < content.len()
        invariant
            i <= content@.len(),
            forall|j: int| 0 <= j < i ==> !((#[trigger] views(content@)[j]) is ToolCall),
        decreases content@.len() - i,
    {
        if let ContentBlock::ToolCall { .. } = &content[i] {
            proof {
                assert(views(content@)[i as int] is ToolCall);
            }
            return true;
        }
        i += 1;
    }
    false
}

/// `true` when some block is a thinking block.
pub fn any_thinking(content: &Vec<ContentBlock>) -> (r: bool)
    ensures
        r == has_thinking(views(content@)),
{
    let mut i: usize = 0;
    while i < content.len()
        invariant
            i <= content@.len(),
            forall|j: int| 0 <= j < i ==> !((#[trigger] views(content@)[j]) is Thinking),
        decreases content@.len() - i,
    {
        if let ContentBlock::Thinking { .. } = &content[i] {
            proof {
                assert(views(content@)[i as int] is Thinking);
            }
            return true;
        }
        i += 1;
    }
    false
}

impl Effort {
    /// The wire name of this tier.
    pub fn as_str(&self) -> (r: &str)
        ensures
            r@ == effort_name(self@),
    {
        match self {
            Effort::Disabled => "none",
            Effort::Minimal => "minimal",
            Effort::Low => "low",
            Effort::Medium => "medium",
            Effort::High => "high",
            Effort::XHigh => "xhigh",
            Effort::Max => "max",
            Effort::Other(s) => s.as_str(),
        }
    }

    /// The tier that a wire name stands for.
    pub fn from_str_lossy(s: &str) -> (r: Effort)
        ensures
            r@ == effort_named(s@),
    {
        if str_eq(s, "none") {
            Effort::Disabled
        } else if str_eq(s, "minimal") {
            Effort::Minimal
        } else if str_eq(s, "low") {
            Effort::Low
        } else if str_eq(s, "medium") {
            Effort::Medium
        } else if str_eq(s, "high") {
            Effort::High
        } else if str_eq(s, "xhigh") {
            Effort::XHigh
        } else if str_eq(s, "max") {
            Effort::Max
        } else {
            Effort::Other(s.to_owned())
        }
    }
}

/// Every tier reads back from its wire name, unless it is an `Other` that
/// spells a known tier.
pub proof fn effort_name_round_trip(e: EffortV)
    requires
        e is Other ==> effort_named(e->Other_0) is Other,
    ensures
        effort_named(effort_name(e)) == e,
{
    reveal_strlit("none");
    reveal_strlit("minimal");
    reveal_strlit("low");
    reveal_strlit("medium");
    reveal_strlit("high");
    reveal_strlit("xhigh");
    reveal_strlit("max");
    assert("low"@[0] != "max"@[0]);
    assert("low"@.len() == 3);
    assert("none"@.len() == 4);
    assert("high"@.len() == 4);
    assert("none"@[0] != "high"@[0]);
    assert("minimal"@.len() == 7);
    assert("medium"@.len() == 6);
    assert("xhigh"@.len() == 5);
}

impl StopReason {
    /// The stop reason that a snake-case name stands for.
    pub fn from_str_lossy(s: &str) -> (r: StopReason)
        ensures
            r@ == stop_reason_named(s@),
    {
        if str_eq(s, "end_turn") {
            StopReason::EndTurn
        } else if str_eq(s, "max_tokens") {
            StopReason::MaxTokens
        } else if str_eq(s, "stop_sequence") {
            StopReason::StopSequence
        } else if str_eq(s, "tool_use") {
            StopReason::ToolUse
        } else if str_eq(s, "content_filter") {
            StopReason::ContentFilter
        } else if str_eq(s, "refusal") {
            StopReason::Refusal
        } else if str_eq(s, "pause_turn") {
            StopReason::PauseTurn
        } else {
            StopReason::Other(s.to_owned())
        }
    }
}

/// The stop reason of a complete message.
pub fn normalize_stop_reason(message: &Message, reason: Option<StopReason>) -> (r: Option<StopReason>)
    ensures
        opt_view(r) == normalized_stop_reason(message@, opt_view(reason)),
{
    match reason {
        Some(StopReason::EndTurn) => if message.has_tool_call() {
            Some(StopReason::ToolUse)
        } else {
            Some(StopReason::EndTurn)
        },
        other => other,
    }
}

impl Reasoning {
    /// No reasoning configuration.
    pub fn new() -> (r: Reasoning)
        ensures
            r@ == (ReasoningV { enabled: None, effort: None, include_thoughts: None, extra: Seq::empty() }),
    {
        Reasoning { enabled: None, effort: None, include_thoughts: None, extra: Extra::new() }
    }
}

/// `true` when the request asks for thinking.
pub fn request_enables_thinking(reasoning: Option<&Reasoning>) -> (r: bool)
    ensures
        r == enables_thinking(opt_view(reasoning)),
{
    match reasoning {
        Some(r) => match r.enabled {
            Some(b) => b,
            None => match &r.effort {
                Some(Effort::Disabled) => false,
                Some(_) => true,
                None => false,
            },
        },
        None => false,
    }
}

/// A request that asks for nothing.
pub open spec fn empty_request() -> RequestV {
    RequestV {
        system: None,
        messages: Seq::empty(),
        tools: None,
        tool_choice: None,
        parallel_tool_calls: None,
        max_output_tokens: None,
        temperature: None,
        top_p: None,
        top_k: None,
        frequency_penalty: None,
        presence_penalty: None,
        seed: None,
        stop_sequences: None,
        cache_key: None,
        metadata: None,
        reasoning: None,
        output_format: None,
        extra: Seq::empty(),
    }
}

impl Request {
    /// A request that asks for nothing.
    pub fn new() -> (r: Request)
        ensures
            r@ == empty_request(),
    {
        Request {
            system: None,
            messages: Vec::new(),
            tools: None,
            tool_choice: None,
            parallel_tool_calls: None,
            max_output_tokens: None,
            temperature: None,
            top_p: None,
            top_k: None,
            frequency_penalty: None,
            presence_penalty: None,
            seed: None,
            stop_sequences: None,
            cache_key: None,
            metadata: None,
            reasoning: None,
            output_format: None,
            extra: Extra::new(),
        }
    }
}

} // verus!
