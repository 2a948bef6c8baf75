//! What a build collects on the side: warnings and the merge log.

use vstd::prelude::*;
use crate::convert::warnings::warning;
use crate::convert::{ConversionDirection, ConversionWarning, ConversionWarningV, WarningCode};
use crate::ir::{extra_logged, extra_merged, Extra, ExtraV};
use crate::json::Json;
use crate::merge::MergeLog;
use crate::model::{group_views, views};

verus! {

broadcast use group_views;

/// Warnings and merge log of a build.
#[derive(Debug, PartialEq, Eq)]
pub struct Sink {
    pub warnings: Vec<ConversionWarning>,
    pub log: MergeLog,
}

/// The mathematical value of a [`Sink`].
pub struct SinkV {
    pub warnings: Seq<ConversionWarningV>,
    pub log: Seq<Seq<char>>,
}

impl View for Sink {
    type V = SinkV;

    open spec fn view(&self) -> SinkV {
        SinkV { warnings: views(self.warnings@), log: self.log@ }
    }
}

/// Nothing collected.
pub open spec fn empty_sink() -> SinkV {
    SinkV { warnings: Seq::empty(), log: Seq::empty() }
}

/// `s` with one more build-side warning.
pub open spec fn warned(
    s: SinkV,
    format: Seq<char>,
    code: WarningCode,
    location: Seq<char>,
    message: Seq<char>,
) -> SinkV {
    SinkV {
        warnings: s.warnings.push(
            warning(code, format, ConversionDirection::ToFormat, location, message),
        ),
        log: s.log,
    }
}

/// `s` with one more build-side warning, if `cond` holds.
pub open spec fn warned_if(
    cond: bool,
    s: SinkV,
    format: Seq<char>,
    code: WarningCode,
    location: Seq<char>,
    message: Seq<char>,
) -> SinkV {
    if cond {
        warned(s, format, code, location, message)
    } else {
        s
    }
}

/// `s` after the namespace of `format` in `e` was merged at `ptr`.
pub open spec fn merge_noted(s: SinkV, e: ExtraV, format: Seq<char>, ptr: Seq<char>) -> SinkV {
    SinkV { warnings: s.warnings, log: extra_logged(e, format, ptr, s.log) }
}

impl Sink {
    /// Nothing collected.
    pub fn new() -> (r: Sink)
        ensures
            r@ == empty_sink(),
    {
        Sink { warnings: Vec::new(), log: MergeLog::new() }
    }

    /// Adds a build-side warning.
    pub fn warn(&mut self, format: &str, code: WarningCode, location: &str, message: &str)
        ensures
            final(self)@ == warned(old(self)@, format@, code, location@, message@),
    {
        self.warnings.push(ConversionWarning::to_format(code, format, location, message));
    }

    /// Merges the namespace of `format` into `target`, which stands at `ptr`.
    pub fn merge(&mut self, e: &Extra, format: &str, target: &mut Json, ptr: &str)
        ensures
            final(target)@ == extra_merged(e@, format@, old(target)@),
            final(self)@ == merge_noted(old(self)@, e@, format@, ptr@),
    {
        e.merge_into(format, target, ptr, &mut self.log);
    }
}

} // verus!
