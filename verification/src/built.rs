//! A request body as a format builds it.

use vstd::prelude::*;
use crate::convert::{ConversionWarning, ConversionWarningV};
use crate::ir::Role;
use crate::json::{Json, JsonV};
use crate::merge::MergeLog;
use crate::model::{group_views, views};

verus! {

broadcast use group_views;

/// A built request body, before the strict gate and hooks.
#[derive(Debug)]
pub struct BuiltBody {
    /// The request JSON, with all `extra` merged.
    pub body: Json,
    /// Build-side warnings.
    pub warnings: Vec<ConversionWarning>,
    /// Log of the `extra` merges.
    pub merge_log: MergeLog,
    /// Location and role of each wire message.
    pub message_pointers: Vec<(String, Role)>,
}

/// The mathematical value of a [`BuiltBody`].
pub struct BuiltBodyV {
    pub body: JsonV,
    pub warnings: Seq<ConversionWarningV>,
    pub merge_log: Seq<Seq<char>>,
    pub message_pointers: Seq<(Seq<char>, Role)>,
}

impl View for BuiltBody {
    type V = BuiltBodyV;

    open spec fn view(&self) -> BuiltBodyV {
        BuiltBodyV {
            body: self.body@,
            warnings: views(self.warnings@),
            merge_log: self.merge_log@,
            message_pointers: views(self.message_pointers@),
        }
    }
}

} // verus!
