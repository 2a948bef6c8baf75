//! The strict gate: semantic build-side losses become errors.

use vstd::prelude::*;
use crate::convert::warnings::{ConversionDirection, ConversionWarning, ConversionWarningV, WarningSeverity};
use crate::error::{ConversionError, ConversionErrorV};
use crate::model::{group_views, views, Dup};

verus! {

broadcast use group_views;

/// A warning that strict mode escalates: semantic, from the build side, and
/// not overridden by `extra`.
pub open spec fn escalates(w: ConversionWarningV) -> bool {
    w.severity == WarningSeverity::Semantic && !w.overridden
        && w.direction == ConversionDirection::ToFormat
}

/// The warnings among the first `n` that strict mode escalates, in order.
pub open spec fn escalated(ws: Seq<ConversionWarningV>, n: nat) -> Seq<ConversionWarningV>
    decreases n,
{
    if n == 0 || n > ws.len() {
        Seq::empty()
    } else if escalates(ws[n - 1]) {
        escalated(ws, (n - 1) as nat).push(ws[n - 1])
    } else {
        escalated(ws, (n - 1) as nat)
    }
}

/// What the strict gate reports.
pub open spec fn gate_result(strict: bool, ws: Seq<ConversionWarningV>) -> Result<(), ConversionErrorV> {
    let bad = escalated(ws, ws.len());
    if strict && bad.len() > 0 {
        Err(ConversionErrorV::Strict { warnings: bad })
    } else {
        Ok(())
    }
}

/// Fails, under `strict`, when some warning escalates.
pub fn strict_gate(strict: bool, warnings: &[ConversionWarning]) -> (r: Result<(), ConversionError>)
    ensures
        match r {
            Ok(_) => gate_result(strict, views(warnings@)) is Ok,
            Err(e) => gate_result(strict, views(warnings@)) == Err::<(), ConversionErrorV>(e@),
        },
{
    if !strict {
        return Ok(());
    }
    let mut bad: Vec<ConversionWarning> = Vec::new();
    let mut i: usize = 0;
    while i < warnings.len()
        invariant
            i <= warnings@.len(),
            views(bad@) == escalated(views(warnings@), i as nat),
        decreases warnings@.len() - i,
    {
        let w = &warnings[i];
        if w.severity == WarningSeverity::Semantic && !w.overridden && w.direction == ConversionDirection::ToFormat {
            bad.push(w.dup());
        }
        i += 1;
    }
    if bad.len() == 0 {
        Ok(())
    } else {
        Err(ConversionError::Strict { warnings: bad })
    }
}

/// A warning escalates exactly where it occurs among the escalated ones.
pub proof fn escalated_member(ws: Seq<ConversionWarningV>, n: nat, w: ConversionWarningV)
    requires
        n <= ws.len(),
    ensures
        escalated(ws, n).contains(w) <==> (escalates(w) && ws.take(n as int).contains(w)),
    decreases n,
{
    let bad = escalated(ws, n);
    if n == 0 {
    } else {
        let m = (n - 1) as nat;
        let prev = escalated(ws, m);
        escalated_member(ws, m, w);
        assert(ws.take(n as int) =~= ws.take(m as int).push(ws[m as int]));
        if bad.contains(w) {
            let i = choose|i: int| 0 <= i < bad.len() && bad[i] == w;
            if escalates(ws[m as int]) {
                if i < prev.len() {
                    assert(prev[i] == w);
                    let j = choose|j: int| 0 <= j < m && ws.take(m as int)[j] == w;
                    assert(ws.take(n as int)[j] == w);
                } else {
                    assert(ws.take(n as int)[m as int] == w);
                }
            } else {
                let j = choose|j: int| 0 <= j < m && ws.take(m as int)[j] == w;
                assert(ws.take(n as int)[j] == w);
            }
        }
        if escalates(w) && ws.take(n as int).contains(w) {
            let j = choose|j: int| 0 <= j < n && ws.take(n as int)[j] == w;
            if j < m {
                assert(ws.take(m as int)[j] == w);
                let i = choose|i: int| 0 <= i < prev.len() && prev[i] == w;
                assert(bad[i] == w);
            } else {
                assert(bad[prev.len() as int] == w);
            }
        }
    }
}

/// Nothing is refused unless strict mode is on and some warning is semantic,
/// from the build side and not overridden; parse-side warnings never count.
pub proof fn refused_iff_something_escalates(strict: bool, ws: Seq<ConversionWarningV>)
    ensures
        gate_result(strict, ws) is Ok <==> (!strict || forall|i: int|
            0 <= i < ws.len() ==> !escalates(#[trigger] ws[i])),
{
    let bad = escalated(ws, ws.len());
    assert(ws.take(ws.len() as int) =~= ws);
    if bad.len() > 0 {
        escalated_member(ws, ws.len(), bad[0]);
        assert(bad.contains(bad[0]));
        let j = choose|j: int| 0 <= j < ws.len() && ws[j] == bad[0];
        assert(escalates(ws[j]));
    } else {
        assert forall|i: int| 0 <= i < ws.len() implies !escalates(#[trigger] ws[i]) by {
            escalated_member(ws, ws.len(), ws[i]);
            assert(ws.contains(ws[i]));
        }
    }
}

} // verus!
