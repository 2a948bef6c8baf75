//! What the stream parsers of all formats share.

use vstd::prelude::*;
use crate::convert::{ConversionWarning, ConversionWarningV};
use crate::error::{ApiErrorKindV, ConversionErrorV, Error, ErrorV};
use crate::headers::header_values;
use crate::ir::{SseEvent, SseEventV, StreamEvent, StreamEventV};
use crate::json::JsonV;
use crate::model::{group_views, opt_view, views, Dup};

verus! {

broadcast use group_views;

/// How a stream parser fails: on data it cannot use, on an error that the
/// provider reported in the stream, or on its own configuration.
pub enum FailV {
    Parse { message: Seq<char>, raw: Seq<u8> },
    Api {
        status: u16,
        kind: ApiErrorKindV,
        message: Seq<char>,
        raw: Seq<u8>,
        parsed: Option<JsonV>,
    },
    Conversion(ConversionErrorV),
}

/// `e` reports the failure `f`. An error reported in the stream is complete
/// and carries no headers of its own.
pub open spec fn reports(e: ErrorV, f: FailV) -> bool {
    match f {
        FailV::Parse { message, raw } => e == (ErrorV::Parse { message, raw }),
        FailV::Conversion(c) => e == ErrorV::Conversion(c),
        FailV::Api { status, kind, message, raw, parsed } => match e {
            ErrorV::Api {
                status: s,
                kind: k,
                message: m,
                raw: r,
                truncated,
                parsed: p,
                retry_after,
                headers,
            } => {
                &&& s == status
                &&& k == kind
                &&& m == message
                &&& r == raw
                &&& !truncated
                &&& p == parsed
                &&& retry_after is None
                &&& forall|k: Seq<char>| #[trigger] header_values(headers, k).len() == 0
            },
            _ => false,
        },
    }
}

/// The events and warnings of one step, with the state after it.
pub type StepV<S> = Result<(Seq<StreamEventV>, Seq<ConversionWarningV>, S), FailV>;

/// Stateful per-stream event parser.
pub trait StreamParser: View + Sized {
    /// What an event becomes in a state.
    spec fn parsed(st: Self::V, event: SseEventV) -> StepV<Self::V>;

    /// What the end of the byte stream becomes in a state.
    spec fn finished(st: Self::V) -> StepV<Self::V>;

    /// Parses one SSE event into unified events and warnings. A failure leaves
    /// the state as it was.
    fn parse(&mut self, event: &SseEvent) -> (r: Result<(Vec<StreamEvent>, Vec<ConversionWarning>), Error>)
        ensures
            match r {
                Ok(v) => Self::parsed(old(self)@, event@) == Ok::<
                    (Seq<StreamEventV>, Seq<ConversionWarningV>, Self::V),
                    FailV,
                >((views(v.0@), views(v.1@), final(self)@)),
                Err(e) => Self::parsed(old(self)@, event@) is Err && reports(
                    e@,
                    Self::parsed(old(self)@, event@)->Err_0,
                ) && final(self)@ == old(self)@,
            },
    ;

    /// Called once when the byte stream ends. A stream that showed no protocol
    /// terminator fails.
    fn finish(&mut self) -> (r: Result<(Vec<StreamEvent>, Vec<ConversionWarning>), Error>)
        ensures
            match r {
                Ok(v) => Self::finished(old(self)@) == Ok::<
                    (Seq<StreamEventV>, Seq<ConversionWarningV>, Self::V),
                    FailV,
                >((views(v.0@), views(v.1@), final(self)@)),
                Err(e) => Self::finished(old(self)@) is Err && reports(e@, Self::finished(old(self)@)->Err_0)
                    && final(self)@ == old(self)@,
            },
    ;
}

/// Position of slot `k` at or after `i`; the length when there is none.
pub open spec fn slot_from<T>(s: Seq<(u64, T)>, k: u64, i: int) -> int
    decreases s.len() - i,
{
    if i < 0 || i >= s.len() {
        s.len() as int
    } else if s[i].0 == k {
        i
    } else {
        slot_from(s, k, i + 1)
    }
}

/// Position of slot `k`; the length when there is none.
pub open spec fn slot_index<T>(s: Seq<(u64, T)>, k: u64) -> int {
    slot_from(s, k, 0)
}

/// What slot `k` holds.
pub open spec fn slot_get<T>(s: Seq<(u64, T)>, k: u64) -> Option<T> {
    let i = slot_index(s, k);
    if 0 <= i < s.len() {
        Some(s[i].1)
    } else {
        None
    }
}

/// `s` with slot `k` set.
pub open spec fn slot_set<T>(s: Seq<(u64, T)>, k: u64, v: T) -> Seq<(u64, T)> {
    let i = slot_index(s, k);
    if 0 <= i < s.len() {
        s.update(i, (k, v))
    } else {
        s.push((k, v))
    }
}

/// `s` without slot `k`.
pub open spec fn slot_remove<T>(s: Seq<(u64, T)>, k: u64) -> Seq<(u64, T)> {
    let i = slot_index(s, k);
    if 0 <= i < s.len() {
        s.remove(i)
    } else {
        s
    }
}

proof fn slot_from_props<T>(s: Seq<(u64, T)>, k: u64, i: int)
    requires
        0 <= i <= s.len(),
    ensures
        i <= slot_from(s, k, i) <= s.len(),
        slot_from(s, k, i) < s.len() ==> s[slot_from(s, k, i)].0 == k,
        forall|j: int| i <= j < slot_from(s, k, i) ==> (#[trigger] s[j]).0 != k,
    decreases s.len() - i,
{
    if i < s.len() && s[i].0 != k {
        slot_from_props(s, k, i + 1);
    }
}

/// No two slots share a number.
pub open spec fn slots_differ<T>(s: Seq<(u64, T)>) -> bool {
    forall|i: int, j: int| 0 <= i < j < s.len() ==> (#[trigger] s[i]).0 != (#[trigger] s[j]).0
}

/// A slot holds what was last set, and no number gets a second slot.
pub proof fn set_slot_is_read<T>(s: Seq<(u64, T)>, k: u64, v: T)
    ensures
        slot_get(slot_set(s, k, v), k) == Some(v),
        slots_differ(s) ==> slots_differ(slot_set(s, k, v)),
{
    let t = slot_set(s, k, v);
    slot_from_props(s, k, 0);
    slot_from_props(t, k, 0);
    let i = slot_index(s, k);
    let j = slot_index(t, k);
    assert(t[i].0 == k);
    if j < i {
        assert(t[j] == s[j]);
    }
}

/// A slot that was taken out is empty.
pub proof fn removed_slot_is_empty<T>(s: Seq<(u64, T)>, k: u64)
    requires
        slots_differ(s),
    ensures
        slot_get(slot_remove(s, k), k) is None,
        slots_differ(slot_remove(s, k)),
{
    let t = slot_remove(s, k);
    slot_from_props(s, k, 0);
    slot_from_props(t, k, 0);
    let i = slot_index(s, k);
    let j = slot_index(t, k);
    if i < s.len() {
        assert forall|a: int, b: int| 0 <= a < b < t.len() implies (#[trigger] t[a]).0 != (#[trigger] t[b]).0 by {
            let ca = if a < i { a } else { a + 1 };
            let cb = if b < i { b } else { b + 1 };
            assert(t[a] == s[ca] && t[b] == s[cb]);
        }
        if j < t.len() {
            let c = if j < i { j } else { j + 1 };
            assert(t[j] == s[c]);
            if c < i {
                assert(s[c].0 != s[i].0);
            } else {
                assert(s[i].0 != s[c].0);
            }
        }
    }
}

/// Open items of a stream, keyed by number.
#[derive(Debug)]
pub struct Slots<T> {
    pub items: Vec<(u64, T)>,
}

impl<T: View> View for Slots<T> {
    type V = Seq<(u64, T::V)>;

    open spec fn view(&self) -> Seq<(u64, T::V)> {
        views(self.items@)
    }
}

impl<T: View> Slots<T> {
    /// No open item.
    pub fn new() -> (r: Slots<T>)
        ensures
            r@ == Seq::<(u64, T::V)>::empty(),
    {
        Slots { items: Vec::new() }
    }

    /// Position of slot `k`.
    pub fn index_of(&self, k: u64) -> (r: usize)
        ensures
            r as int == slot_index(self@, k),
            r <= self.items@.len(),
    {
        let mut i: usize = 0;
        while i < self.items.len()
            invariant
                i <= self.items@.len(),
                slot_index(self@, k) == slot_from(self@, k, i as int),
            decreases self.items@.len() - i,
        {
            proof {
                assert(self@[i as int].0 == self.items@[i as int].0);
            }
            if self.items[i].0 == k {
                return i;
            }
            i += 1;
        }
        i
    }

    /// What slot `k` holds.
    pub fn get(&self, k: u64) -> (r: Option<&T>)
        ensures
            opt_view(r) == slot_get(self@, k),
    {
        let i = self.index_of(k);
        if i < self.items.len() {
            Some(&self.items[i].1)
        } else {
            None
        }
    }

    /// Sets slot `k`.
    pub fn set(&mut self, k: u64, v: T)
        ensures
            final(self)@ == slot_set(old(self)@, k, v@),
    {
        let i = self.index_of(k);
        if i < self.items.len() {
            self.items[i] = (k, v);
        } else {
            self.items.push((k, v));
        }
    }

    /// Takes slot `k` out.
    pub fn take(&mut self, k: u64) -> (r: Option<T>)
        ensures
            opt_view(r) == slot_get(old(self)@, k),
            final(self)@ == slot_remove(old(self)@, k),
    {
        let i = self.index_of(k);
        if i < self.items.len() {
            let e = self.items.remove(i);
            proof {
                assert(self@ =~= old(self)@.remove(i as int));
            }
            Some(e.1)
        } else {
            None
        }
    }
}

/// First position at or after `i` whose key is at least `k`; the length when
/// there is none.
pub open spec fn place_from<T>(s: Seq<(u64, T)>, k: u64, i: int) -> int
    decreases s.len() - i,
{
    if i < 0 || i >= s.len() {
        s.len() as int
    } else if s[i].0 >= k {
        i
    } else {
        place_from(s, k, i + 1)
    }
}

/// The keys rise strictly.
pub open spec fn keys_rise<T>(s: Seq<(u64, T)>) -> bool {
    forall|i: int, j: int| 0 <= i < j < s.len() ==> (#[trigger] s[i]).0 < (#[trigger] s[j]).0
}

/// What key `k` holds.
pub open spec fn keyed_get<T>(s: Seq<(u64, T)>, k: u64) -> Option<T> {
    let i = place_from(s, k, 0);
    if 0 <= i < s.len() && s[i].0 == k {
        Some(s[i].1)
    } else {
        None
    }
}

/// `s` with key `k` set.
pub open spec fn keyed_set<T>(s: Seq<(u64, T)>, k: u64, v: T) -> Seq<(u64, T)> {
    let i = place_from(s, k, 0);
    if 0 <= i < s.len() && s[i].0 == k {
        s.update(i, (k, v))
    } else {
        s.insert(i, (k, v))
    }
}

/// Where the search for a place ends.
pub proof fn place_from_props<T>(s: Seq<(u64, T)>, k: u64, i: int)
    requires
        0 <= i <= s.len(),
    ensures
        i <= place_from(s, k, i) <= s.len(),
        place_from(s, k, i) < s.len() ==> s[place_from(s, k, i)].0 >= k,
        forall|j: int| i <= j < place_from(s, k, i) ==> (#[trigger] s[j]).0 < k,
    decreases s.len() - i,
{
    if i < s.len() && s[i].0 < k {
        place_from_props(s, k, i + 1);
    }
}

proof fn place_is<T>(s: Seq<(u64, T)>, k: u64, i: int, p: int)
    requires
        0 <= i <= p < s.len(),
        s[p].0 >= k,
        forall|j: int| i <= j < p ==> (#[trigger] s[j]).0 < k,
    ensures
        place_from(s, k, i) == p,
    decreases p - i,
{
    if i < p {
        place_is(s, k, i + 1, p);
    }
}

/// Setting a key keeps the keys rising.
pub proof fn keyed_set_keeps_order<T>(s: Seq<(u64, T)>, k: u64, v: T)
    requires
        keys_rise(s),
    ensures
        keys_rise(keyed_set(s, k, v)),
{
    place_from_props(s, k, 0);
    let p = place_from(s, k, 0);
    let t = keyed_set(s, k, v);
    assert forall|i: int, j: int| 0 <= i < j < t.len() implies (#[trigger] t[i]).0 < (#[trigger] t[j]).0 by {
        if p < s.len() && s[p].0 == k {
        } else {
            let a = if i < p { i } else { i - 1 };
            let b = if j < p { j } else { j - 1 };
            if i == p {
                assert(t[j] == s[b]);
                if p < b {
                    assert(s[p].0 < s[b].0);
                }
            } else if j == p {
                assert(t[i] == s[a]);
            } else {
                assert(t[i] == s[a] && t[j] == s[b]);
            }
        }
    }
}

/// A key holds what was last set.
pub proof fn keyed_get_after_set<T>(s: Seq<(u64, T)>, k: u64, v: T)
    ensures
        keyed_get(keyed_set(s, k, v), k) == Some(v),
{
    place_from_props(s, k, 0);
    place_is(keyed_set(s, k, v), k, 0, place_from(s, k, 0));
}

/// Setting one key leaves the others as they were.
pub proof fn keyed_set_keeps_others<T>(s: Seq<(u64, T)>, k: u64, v: T, other: u64)
    requires
        other != k,
    ensures
        keyed_get(s, other) is Some ==> keyed_get(keyed_set(s, k, v), other) == keyed_get(s, other),
{
    place_from_props(s, k, 0);
    place_from_props(s, other, 0);
    let p = place_from(s, k, 0);
    let q = place_from(s, other, 0);
    let t = keyed_set(s, k, v);
    if q < s.len() && s[q].0 == other {
        if p < s.len() && s[p].0 == k {
            assert forall|j: int| 0 <= j < q implies (#[trigger] t[j]).0 < other by {
                assert(s[j].0 < other);
            }
            place_is(t, other, 0, q);
        } else if p <= q {
            assert(t[q + 1] == s[q]);
            if other < k {
                if q < p {
                    assert(s[q].0 < k);
                }
                if p < s.len() {
                    assert(s[p].0 >= k);
                }
                if p < q {
                    assert(s[p].0 < other);
                }
                assert(p == q);
                assert(s[p].0 >= k);
            }
            assert forall|j: int| 0 <= j < q + 1 implies (#[trigger] t[j]).0 < other by {
                if j < p {
                    assert(t[j] == s[j]);
                } else if j > p {
                    assert(t[j] == s[j - 1]);
                }
            }
            place_is(t, other, 0, q + 1);
        } else {
            assert(t[q] == s[q]);
            assert forall|j: int| 0 <= j < q implies (#[trigger] t[j]).0 < other by {
                assert(t[j] == s[j]);
            }
            place_is(t, other, 0, q);
        }
    }
}

/// The last value set is the one that counts.
pub proof fn keyed_set_twice<T>(s: Seq<(u64, T)>, k: u64, v: T, w: T)
    ensures
        keyed_set(keyed_set(s, k, v), k, w) == keyed_set(s, k, w),
{
    place_from_props(s, k, 0);
    let p = place_from(s, k, 0);
    place_is(keyed_set(s, k, v), k, 0, p);
    assert(keyed_set(keyed_set(s, k, v), k, w) =~= keyed_set(s, k, w));
}

/// Open items of a stream in the order of their keys.
#[derive(Debug)]
pub struct Keyed<T> {
    pub items: Vec<(u64, T)>,
}

impl<T: View> View for Keyed<T> {
    type V = Seq<(u64, T::V)>;

    open spec fn view(&self) -> Seq<(u64, T::V)> {
        views(self.items@)
    }
}

impl<T: View> Keyed<T> {
    /// No open item.
    pub fn new() -> (r: Keyed<T>)
        ensures
            r@ == Seq::<(u64, T::V)>::empty(),
    {
        Keyed { items: Vec::new() }
    }

    fn place_of(&self, k: u64) -> (r: usize)
        ensures
            r as int == place_from(self@, k, 0),
            r <= self.items@.len(),
    {
        let mut i: usize = 0;
        while i < self.items.len()
            invariant
                i <= self.items@.len(),
                place_from(self@, k, 0) == place_from(self@, k, i as int),
            decreases self.items@.len() - i,
        {
            proof {
                assert(self@[i as int].0 == self.items@[i as int].0);
            }
            if self.items[i].0 >= k {
                return i;
            }
            i += 1;
        }
        i
    }

    /// Key `k` is set.
    pub fn has(&self, k: u64) -> (r: bool)
        ensures
            r == (keyed_get(self@, k) is Some),
    {
        let i = self.place_of(k);
        proof {
            if i < self.items@.len() {
                assert(self@[i as int].0 == self.items@[i as int].0);
            }
        }
        i < self.items.len() && self.items[i].0 == k
    }

    /// What the keys hold, in their order.
    pub fn into_values(self) -> (r: Vec<T>)
        ensures
            views(r@) == self@.map_values(|p: (u64, T::V)| p.1),
    {
        let ghost all = self@.map_values(|p: (u64, T::V)| p.1);
        let ghost items = self.items@;
        let mut out: Vec<T> = Vec::new();
        for e in it: self.items
            invariant
                it.seq() == items,
                all.len() == items.len(),
                forall|j: int| 0 <= j < items.len() ==> all[j] == #[trigger] items[j].1@,
                views(out@) == all.take(it.index() as int),
        {
            let ghost i = it.index() as int;
            proof {
                assert(items[i] == e);
                assert(all.take(i + 1) =~= all.take(i).push(all[i]));
            }
            out.push(e.1);
        }
        proof {
            assert(all.take(items.len() as int) =~= all);
        }
        out
    }

    /// Sets key `k` and hands out what it held.
    pub fn replace(&mut self, k: u64, v: T) -> (r: Option<T>)
        ensures
            opt_view(r) == keyed_get(old(self)@, k),
            final(self)@ == keyed_set(old(self)@, k, v@),
    {
        let i = self.place_of(k);
        proof {
            if i < self.items@.len() {
                assert(self@[i as int].0 == self.items@[i as int].0);
            }
        }
        if i < self.items.len() && self.items[i].0 == k {
            let mut e = (k, v);
            self.items.set_and_swap(i, &mut e);
            proof {
                assert(self@ =~= keyed_set(old(self)@, k, v@));
            }
            Some(e.1)
        } else {
            self.items.insert(i, (k, v));
            proof {
                assert(self@ =~= keyed_set(old(self)@, k, v@));
            }
            None
        }
    }
}

} // verus!
