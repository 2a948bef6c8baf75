//! Conversion warnings: stable codes with a fixed severity each.

use vstd::prelude::*;
use crate::model::Dup;

verus! {

/// Whether a warning describes lost meaning or lost tuning.
#[derive(Clone, Copy, Debug, PartialEq, Eq, Hash, Structural)]
pub enum WarningSeverity {
    /// Meaning lost: model-visible behavior or contract can change.
    Semantic,
    /// Tuning lost.
    Cosmetic,
}

/// Which conversion direction produced a warning.
#[derive(Clone, Copy, Debug, PartialEq, Eq, Hash, Structural)]
pub enum ConversionDirection {
    /// IR to provider request. Locations point into the final target JSON.
    ToFormat,
    /// Provider JSON to IR. Locations point into the JSON being consumed.
    FromFormat,
}

/// Stable, matchable warning identifiers.
#[derive(Clone, Copy, Debug, PartialEq, Eq, Hash, Structural)]
pub enum WarningCode {
    /// A thinking block was dropped for a target of another provider.
    ThinkingDropped,
    /// A thinking signature could not be carried.
    ThinkingSignatureDropped,
    /// An image source has no channel on the target.
    ImageSourceUnsupported,
    /// A tool-result image was dropped.
    ToolResultImageDropped,
    /// The error marker of a tool result was dropped.
    IsErrorDropped,
    /// A strict tool schema has no equivalent on the target.
    StrictUnsupported,
    /// An opaque node was dropped: it belongs to another format.
    OpaqueDropped,
    /// Stop sequences were dropped.
    StopSequencesDropped,
    /// A serial tool-call constraint was dropped.
    SerialToolCallsDropped,
    /// Disabled reasoning cannot be expressed on the target.
    ReasoningDisableUnsupported,
    /// The effort tier is outside the target's set.
    EffortUnsupported,
    /// Schema-less JSON mode is unsupported on the target.
    JsonModeUnsupported,
    /// A system or developer message became a user message.
    RoleDowngraded,
    /// An interleaved tool result lost its order.
    ToolResultOrderLost,
    /// Interleaved assistant blocks lost their order.
    BlockOrderLost,
    /// Tool calls without results in the middle of the conversation.
    OrphanToolCalls,
    /// Dropping trailing tool calls left thinking without them.
    ThinkingOrphaned,
    /// Tool calls without thinking while the request enables it.
    MissingThinkingWithToolCalls,
    /// A signed block kept two messages of one role apart.
    MergeBlockedBySignature,
    /// A message lost all its blocks and was omitted.
    EmptyMessageDropped,
    /// Provider data addressed to the target had no place in the output.
    ExtraDropped,
    /// A field the converter did not generate was dropped for counting.
    CountTokensFieldDropped,
    /// Counting used a format other than that of the chat.
    CountTokensApproximate,
    /// More than one candidate came back; only the first was read.
    MultipleCandidates,
    /// A tool call is malformed and cannot be rebuilt as it was.
    MalformedToolCall,
    /// A tool result is malformed and cannot be rebuilt as it was.
    MalformedToolResult,
    /// A sampling parameter was dropped.
    SamplingParameterDropped,
    /// Metadata was dropped.
    MetadataDropped,
    /// A cache hint was dropped.
    CacheHintDropped,
    /// The time to live of a cache hint was dropped.
    CacheTtlDropped,
    /// The cache key was dropped.
    CacheKeyDropped,
    /// The parallel tool-call setting was meaningless and not emitted.
    ParallelToolCallsIgnored,
    /// The tool choice was meaningless without tools and not emitted.
    ToolChoiceIgnored,
    /// An empty parameter schema was synthesized.
    EmptyParametersSynthesized,
    /// A structured-output detail has no channel on the target.
    OutputFormatDetailDropped,
    /// Reasoning switch and effort conflicted; the effort won.
    ReasoningConflict,
    /// Thought inclusion has no channel on the target.
    IncludeThoughtsUnsupported,
    /// Several thinking texts were joined into one.
    ThinkingBlocksJoined,
    /// A URL was mapped to a file URI verbatim.
    ImageUrlAsFileUri,
    /// Several tool-result texts were joined into one.
    ToolResultTextJoined,
    /// Trailing tool calls without results were removed.
    OrphanToolCallsDropped,
    /// Error results were appended for trailing tool calls.
    OrphanToolCallsSynthesized,
    /// A placeholder thinking block was inserted.
    MissingThinkingFilled,
    /// Stream options that cannot be rebuilt were dropped.
    StreamOptionsDropped,
    /// Malformed provider data was skipped or partially mapped.
    MalformedField,
    /// A stream event could not be attributed to a block.
    UnknownStreamEvent,
    /// A stream failed after its message was complete.
    PostTerminalStreamFailure,
}

/// The code stands for lost meaning.
pub open spec fn is_semantic(code: WarningCode) -> bool {
    match code {
        WarningCode::ThinkingDropped
        | WarningCode::ThinkingSignatureDropped
        | WarningCode::ImageSourceUnsupported
        | WarningCode::ToolResultImageDropped
        | WarningCode::IsErrorDropped
        | WarningCode::StrictUnsupported
        | WarningCode::OpaqueDropped
        | WarningCode::StopSequencesDropped
        | WarningCode::SerialToolCallsDropped
        | WarningCode::ReasoningDisableUnsupported
        | WarningCode::EffortUnsupported
        | WarningCode::JsonModeUnsupported
        | WarningCode::RoleDowngraded
        | WarningCode::ToolResultOrderLost
        | WarningCode::BlockOrderLost
        | WarningCode::OrphanToolCalls
        | WarningCode::ThinkingOrphaned
        | WarningCode::MissingThinkingWithToolCalls
        | WarningCode::MergeBlockedBySignature
        | WarningCode::EmptyMessageDropped
        | WarningCode::ExtraDropped
        | WarningCode::CountTokensFieldDropped
        | WarningCode::CountTokensApproximate
        | WarningCode::MultipleCandidates
        | WarningCode::MalformedToolCall
        | WarningCode::MalformedToolResult => true,
        _ => false,
    }
}

/// The fixed severity of a code.
pub open spec fn severity_of(code: WarningCode) -> WarningSeverity {
    if is_semantic(code) {
        WarningSeverity::Semantic
    } else {
        WarningSeverity::Cosmetic
    }
}

impl WarningCode {
    /// The fixed severity of this code.
    pub fn severity(&self) -> (r: WarningSeverity)
        ensures
            r == severity_of(*self),
    {
        match self {
            WarningCode::ThinkingDropped
            | WarningCode::ThinkingSignatureDropped
            | WarningCode::ImageSourceUnsupported
            | WarningCode::ToolResultImageDropped
            | WarningCode::IsErrorDropped
            | WarningCode::StrictUnsupported
            | WarningCode::OpaqueDropped
            | WarningCode::StopSequencesDropped
            | WarningCode::SerialToolCallsDropped
            | WarningCode::ReasoningDisableUnsupported
            | WarningCode::EffortUnsupported
            | WarningCode::JsonModeUnsupported
            | WarningCode::RoleDowngraded
            | WarningCode::ToolResultOrderLost
            | WarningCode::BlockOrderLost
            | WarningCode::OrphanToolCalls
            | WarningCode::ThinkingOrphaned
            | WarningCode::MissingThinkingWithToolCalls
            | WarningCode::MergeBlockedBySignature
            | WarningCode::EmptyMessageDropped
            | WarningCode::ExtraDropped
            | WarningCode::CountTokensFieldDropped
            | WarningCode::CountTokensApproximate
            | WarningCode::MultipleCandidates
            | WarningCode::MalformedToolCall
            | WarningCode::MalformedToolResult => WarningSeverity::Semantic,
            WarningCode::SamplingParameterDropped
            | WarningCode::MetadataDropped
            | WarningCode::CacheHintDropped
            | WarningCode::CacheTtlDropped
            | WarningCode::CacheKeyDropped
            | WarningCode::ParallelToolCallsIgnored
            | WarningCode::ToolChoiceIgnored
            | WarningCode::EmptyParametersSynthesized
            | WarningCode::OutputFormatDetailDropped
            | WarningCode::ReasoningConflict
            | WarningCode::IncludeThoughtsUnsupported
            | WarningCode::ThinkingBlocksJoined
            | WarningCode::ImageUrlAsFileUri
            | WarningCode::ToolResultTextJoined
            | WarningCode::OrphanToolCallsDropped
            | WarningCode::OrphanToolCallsSynthesized
            | WarningCode::MissingThinkingFilled
            | WarningCode::StreamOptionsDropped
            | WarningCode::MalformedField
            | WarningCode::UnknownStreamEvent
            | WarningCode::PostTerminalStreamFailure => WarningSeverity::Cosmetic,
        }
    }
}

/// One conversion warning.
#[derive(Debug, PartialEq, Eq)]
pub struct ConversionWarning {
    /// Stable, matchable code.
    pub code: WarningCode,
    /// Fixed severity of `code`.
    pub severity: WarningSeverity,
    /// JSON Pointer into the target (build side) or the source (parse side).
    pub location: String,
    /// The provider format involved.
    pub format: String,
    /// Build or parse side.
    pub direction: ConversionDirection,
    /// `extra` explicitly addressed this location.
    pub overridden: bool,
    /// Human-readable description.
    pub message: String,
}

/// The mathematical value of a [`ConversionWarning`].
pub struct ConversionWarningV {
    pub code: WarningCode,
    pub severity: WarningSeverity,
    pub location: Seq<char>,
    pub format: Seq<char>,
    pub direction: ConversionDirection,
    pub overridden: bool,
    pub message: Seq<char>,
}

impl View for ConversionWarning {
    type V = ConversionWarningV;

    open spec fn view(&self) -> ConversionWarningV {
        ConversionWarningV {
            code: self.code,
            severity: self.severity,
            location: self.location@,
            format: self.format@,
            direction: self.direction,
            overridden: self.overridden,
            message: self.message@,
        }
    }
}

impl Dup for ConversionWarning {
    fn dup(&self) -> (r: Self) {
        ConversionWarning {
            code: self.code,
            severity: self.severity,
            location: self.location.clone(),
            format: self.format.clone(),
            direction: self.direction,
            overridden: self.overridden,
            message: self.message.clone(),
        }
    }
}

/// The warning that `code` raises at `location`.
pub open spec fn warning(
    code: WarningCode,
    format: Seq<char>,
    direction: ConversionDirection,
    location: Seq<char>,
    message: Seq<char>,
) -> ConversionWarningV {
    ConversionWarningV {
        code,
        severity: severity_of(code),
        location,
        format,
        direction,
        overridden: false,
        message,
    }
}

impl ConversionWarning {
    /// Creates a warning; the severity is that of the code.
    pub fn new(
        code: WarningCode,
        format: &str,
        direction: ConversionDirection,
        location: &str,
        message: &str,
    ) -> (r: ConversionWarning)
        ensures
            r@ == warning(code, format@, direction, location@, message@),
    {
        ConversionWarning {
            code,
            severity: code.severity(),
            location: location.to_owned(),
            format: format.to_owned(),
            direction,
            overridden: false,
            message: message.to_owned(),
        }
    }

    /// A build-side warning.
    pub fn to_format(code: WarningCode, format: &str, location: &str, message: &str) -> (r: ConversionWarning)
        ensures
            r@ == warning(code, format@, ConversionDirection::ToFormat, location@, message@),
    {
        ConversionWarning::new(code, format, ConversionDirection::ToFormat, location, message)
    }

    /// A parse-side warning.
    pub fn from_format(code: WarningCode, format: &str, location: &str, message: &str) -> (r: ConversionWarning)
        ensures
            r@ == warning(code, format@, ConversionDirection::FromFormat, location@, message@),
    {
        ConversionWarning::new(code, format, ConversionDirection::FromFormat, location, message)
    }
}

} // verus!
