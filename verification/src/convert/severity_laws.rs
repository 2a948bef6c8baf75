//! Laws: strict mode refuses what loses meaning, and nothing else.

use vstd::prelude::*;
use crate::convert::gate::{escalates, gate_result, refused_iff_something_escalates};
use crate::convert::warnings::{warning, ConversionDirection, ConversionWarningV, WarningCode};

verus! {

/// What a model or a caller would notice: content, roles, order or a contract
/// was lost.
pub open spec fn loses_meaning(code: WarningCode) -> bool {
    ||| loses_content(code)
    ||| loses_contract(code)
    ||| loses_place(code)
    ||| breaks_history(code)
    ||| code == WarningCode::CountTokensFieldDropped
    ||| code == WarningCode::CountTokensApproximate
    ||| code == WarningCode::MultipleCandidates
}

/// A block, or part of one, does not arrive.
pub open spec fn loses_content(code: WarningCode) -> bool {
    ||| code == WarningCode::ThinkingDropped
    ||| code == WarningCode::ThinkingSignatureDropped
    ||| code == WarningCode::ImageSourceUnsupported
    ||| code == WarningCode::ToolResultImageDropped
    ||| code == WarningCode::IsErrorDropped
    ||| code == WarningCode::OpaqueDropped
    ||| code == WarningCode::EmptyMessageDropped
    ||| code == WarningCode::ExtraDropped
    ||| code == WarningCode::MalformedToolCall
    ||| code == WarningCode::MalformedToolResult
}

/// Something that the caller asked of the answer is not asked.
pub open spec fn loses_contract(code: WarningCode) -> bool {
    ||| code == WarningCode::StrictUnsupported
    ||| code == WarningCode::StopSequencesDropped
    ||| code == WarningCode::SerialToolCallsDropped
    ||| code == WarningCode::ReasoningDisableUnsupported
    ||| code == WarningCode::EffortUnsupported
    ||| code == WarningCode::JsonModeUnsupported
}

/// A message or block stands elsewhere than it stood.
pub open spec fn loses_place(code: WarningCode) -> bool {
    ||| code == WarningCode::RoleDowngraded
    ||| code == WarningCode::ToolResultOrderLost
    ||| code == WarningCode::BlockOrderLost
    ||| code == WarningCode::MergeBlockedBySignature
}

/// The upstream may reject the conversation as it is.
pub open spec fn breaks_history(code: WarningCode) -> bool {
    ||| code == WarningCode::OrphanToolCalls
    ||| code == WarningCode::ThinkingOrphaned
    ||| code == WarningCode::MissingThinkingWithToolCalls
}

/// Raised by a build and not addressed by provider data.
pub open spec fn raised(w: ConversionWarningV) -> bool {
    w == warning(w.code, w.format, ConversionDirection::ToFormat, w.location, w.message)
}

/// In strict mode a build that loses meaning is refused, and one that loses
/// only tuning goes through.
pub proof fn strict_mode_refuses_what_loses_meaning(ws: Seq<ConversionWarningV>)
    requires
        forall|i: int| 0 <= i < ws.len() ==> raised(#[trigger] ws[i]),
    ensures
        gate_result(true, ws) is Err <==> exists|i: int| 0 <= i < ws.len() && loses_meaning((#[trigger] ws[i]).code),
        gate_result(false, ws) is Ok,
{
    refused_iff_something_escalates(true, ws);
    assert forall|i: int| 0 <= i < ws.len() implies escalates(#[trigger] ws[i]) == loses_meaning(ws[i].code) by {
        assert(raised(ws[i]));
    }
}

/// Provider data that addresses a location answers for it: an overridden
/// warning refuses nothing. Nor does one about what a provider sent.
pub proof fn addressed_losses_are_let_through(ws: Seq<ConversionWarningV>, strict: bool)
    requires
        forall|i: int|
            0 <= i < ws.len() ==> (#[trigger] ws[i]).overridden || ws[i].direction == ConversionDirection::FromFormat,
    ensures
        gate_result(strict, ws) is Ok,
{
    refused_iff_something_escalates(strict, ws);
}

} // verus!
