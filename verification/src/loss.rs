//! Laws: warnings that were raised stay raised.

use vstd::prelude::*;
use crate::convert::{ConversionWarningV, WarningCode};
use crate::formats::anthropic_messages::system::relocated;
use crate::ir::ExtraV;
use crate::sink::{merge_noted, warned, warned_if, SinkV};

verus! {

/// Some warning has this code.
pub closed spec fn has_code(ws: Seq<ConversionWarningV>, code: WarningCode) -> bool {
    exists|i: int| 0 <= i < ws.len() && (#[trigger] ws[i]).code == code
}

/// What [`has_code`] means.
pub proof fn code_is_among(ws: Seq<ConversionWarningV>, code: WarningCode)
    ensures
        has_code(ws, code) <==> exists|i: int| 0 <= i < ws.len() && (#[trigger] ws[i]).code == code,
{
}

/// Every code of the first warnings is among the second.
pub open spec fn kept(a: Seq<ConversionWarningV>, b: Seq<ConversionWarningV>) -> bool {
    forall|code: WarningCode| #[trigger] has_code(a, code) ==> has_code(b, code)
}

/// A warning is there once it is raised, and those before it stay.
pub broadcast proof fn raised_stays(s: SinkV, format: Seq<char>, code: WarningCode, location: Seq<char>, message: Seq<char>)
    ensures
        has_code((#[trigger] warned(s, format, code, location, message)).warnings, code),
        kept(s.warnings, warned(s, format, code, location, message).warnings),
{
    let t = warned(s, format, code, location, message);
    let n = s.warnings.len();
    assert(t.warnings[n as int].code == code);
    assert forall|c: WarningCode| #[trigger] has_code(s.warnings, c) implies has_code(t.warnings, c) by {
        let i = choose|i: int| 0 <= i < n && (#[trigger] s.warnings[i]).code == c;
        assert(t.warnings[i] == s.warnings[i]);
    }
}

/// A warning under a condition.
pub broadcast proof fn raised_stays_if(
    cond: bool,
    s: SinkV,
    format: Seq<char>,
    code: WarningCode,
    location: Seq<char>,
    message: Seq<char>,
)
    ensures
        cond ==> has_code((#[trigger] warned_if(cond, s, format, code, location, message)).warnings, code),
        kept(s.warnings, warned_if(cond, s, format, code, location, message).warnings),
{
    raised_stays(s, format, code, location, message);
}

/// A merge raises nothing.
pub broadcast proof fn merges_raise_nothing(s: SinkV, e: ExtraV, format: Seq<char>, ptr: Seq<char>)
    ensures
        (#[trigger] merge_noted(s, e, format, ptr)).warnings == s.warnings,
{
}

/// Warnings of two stretches.
pub broadcast proof fn stretches_stay(a: Seq<ConversionWarningV>, b: Seq<ConversionWarningV>)
    ensures
        kept(a, #[trigger] (a + b)),
        kept(b, a + b),
{
    let t = a + b;
    assert forall|c: WarningCode| #[trigger] has_code(a, c) implies has_code(t, c) by {
        let i = choose|i: int| 0 <= i < a.len() && (#[trigger] a[i]).code == c;
        assert(t[i] == a[i]);
    }
    assert forall|c: WarningCode| #[trigger] has_code(b, c) implies has_code(t, c) by {
        let i = choose|i: int| 0 <= i < b.len() && (#[trigger] b[i]).code == c;
        assert(t[a.len() + i] == b[i]);
    }
}

/// One more warning.
pub broadcast proof fn one_more_stays(a: Seq<ConversionWarningV>, w: ConversionWarningV)
    ensures
        kept(a, #[trigger] a.push(w)),
        has_code(a.push(w), w.code),
{
    let t = a.push(w);
    assert(t[a.len() as int] == w);
    assert forall|c: WarningCode| #[trigger] has_code(a, c) implies has_code(t, c) by {
        let i = choose|i: int| 0 <= i < a.len() && (#[trigger] a[i]).code == c;
        assert(t[i] == a[i]);
    }
}

/// Warnings that point elsewhere are still there.
pub proof fn moved_warnings_stay(ws: Seq<ConversionWarningV>, location: Seq<char>)
    ensures
        kept(ws, relocated(ws, location)),
{
    let t = relocated(ws, location);
    assert forall|code: WarningCode| #[trigger] has_code(ws, code) implies has_code(t, code) by {
        code_is_among(ws, code);
        let i = choose|i: int| 0 <= i < ws.len() && (#[trigger] ws[i]).code == code;
        assert(t[i].code == code);
        code_is_among(t, code);
    }
}

pub broadcast group group_loss {
    raised_stays,
    raised_stays_if,
    merges_raise_nothing,
    stretches_stay,
    one_more_stays,
}

} // verus!
