//! Options that control how the intermediate representation becomes a request.

use vstd::prelude::*;
use crate::model::{dup_opt, opt_view, Dup};

verus! {

/// Policy for trailing assistant tool calls without matching results.
#[derive(Clone, Copy, Debug, PartialEq, Eq, Structural)]
pub enum OrphanToolCalls {
    /// Send as they are.
    Passthrough,
    /// Remove the unmatched trailing calls, and the message if it becomes
    /// empty.
    DropTrailing,
    /// Append an error result for each unmatched trailing call.
    SynthesizeError,
}

impl Default for OrphanToolCalls {
    fn default() -> (r: Self)
        ensures
            r == OrphanToolCalls::Passthrough,
    {
        OrphanToolCalls::Passthrough
    }
}

/// Options of the build-side conversion.
#[derive(Debug, PartialEq, Eq)]
pub struct ConvertOptions {
    /// Turns any semantic build-side warning that `extra` did not override into an error.
    pub strict: bool,
    /// Rewrites the developer role to user within OpenAI-family formats.
    pub downgrade_developer: bool,
    /// Policy for trailing tool calls without results.
    pub orphan_tool_calls: OrphanToolCalls,
    /// Keeps the text of foreign thinking instead of dropping it.
    pub thinking_as_text: bool,
    /// Text of the thinking block to insert before tool calls that lack one.
    pub fill_missing_thinking: Option<String>,
}

/// The mathematical value of a [`ConvertOptions`].
pub struct ConvertOptionsV {
    pub strict: bool,
    pub downgrade_developer: bool,
    pub orphan_tool_calls: OrphanToolCalls,
    pub thinking_as_text: bool,
    pub fill_missing_thinking: Option<Seq<char>>,
}

impl View for ConvertOptions {
    type V = ConvertOptionsV;

    open spec fn view(&self) -> ConvertOptionsV {
        ConvertOptionsV {
            strict: self.strict,
            downgrade_developer: self.downgrade_developer,
            orphan_tool_calls: self.orphan_tool_calls,
            thinking_as_text: self.thinking_as_text,
            fill_missing_thinking: opt_view(self.fill_missing_thinking),
        }
    }
}

impl Dup for ConvertOptions {
    fn dup(&self) -> (r: Self) {
        ConvertOptions {
            strict: self.strict,
            downgrade_developer: self.downgrade_developer,
            orphan_tool_calls: self.orphan_tool_calls,
            thinking_as_text: self.thinking_as_text,
            fill_missing_thinking: dup_opt(&self.fill_missing_thinking),
        }
    }
}

/// Lenient options: no strict mode, no policy beyond passing through.
pub open spec fn lenient_options() -> ConvertOptionsV {
    ConvertOptionsV {
        strict: false,
        downgrade_developer: false,
        orphan_tool_calls: OrphanToolCalls::Passthrough,
        thinking_as_text: false,
        fill_missing_thinking: None,
    }
}

impl Default for ConvertOptions {
    fn default() -> (r: Self)
        ensures
            r@ == lenient_options(),
    {
        ConvertOptions {
            strict: false,
            downgrade_developer: false,
            orphan_tool_calls: OrphanToolCalls::Passthrough,
            thinking_as_text: false,
            fill_missing_thinking: None,
        }
    }
}

impl ConvertOptions {
    /// Default (lenient) options.
    pub fn new() -> (r: ConvertOptions)
        ensures
            r@ == lenient_options(),
    {
        ConvertOptions::default()
    }

    /// Sets strict mode.
    pub fn strict(self, strict: bool) -> (r: ConvertOptions)
        ensures
            r@ == (ConvertOptionsV { strict, ..self@ }),
    {
        ConvertOptions {
            strict,
            downgrade_developer: self.downgrade_developer,
            orphan_tool_calls: self.orphan_tool_calls,
            thinking_as_text: self.thinking_as_text,
            fill_missing_thinking: self.fill_missing_thinking,
        }
    }
}

} // verus!
