//! Laws: a listing follows every page once, and ends.

use vstd::prelude::*;
use crate::client::call::next_page;

verus! {

/// The cursors followed after `n` pages that named these successors, if the
/// listing goes on.
pub open spec fn followed(nexts: Seq<Option<Seq<char>>>, max: nat, raw: Seq<u8>, n: nat) -> Option<Seq<Seq<char>>>
    decreases n,
{
    if n == 0 || n > nexts.len() {
        Some(Seq::empty())
    } else {
        match followed(nexts, max, raw, (n - 1) as nat) {
            Some(seen) => match next_page(seen, seen.len(), max, nexts[n - 1], raw) {
                Ok(Some(c)) => Some(seen.push(c)),
                _ => None,
            },
            None => None,
        }
    }
}

/// The first `n` pages each name a successor, none of them twice.
pub open spec fn lead_on(nexts: Seq<Option<Seq<char>>>, n: nat) -> bool {
    &&& forall|i: int| 0 <= i < n ==> (#[trigger] nexts[i]) is Some
    &&& forall|i: int, j: int| 0 <= i < j < n ==> (#[trigger] nexts[i]) != (#[trigger] nexts[j])
}

/// A listing goes on after `n` pages exactly while each has led to a new one
/// and fewer than the limit were read; it has then followed the cursors that
/// the pages named, in order.
pub proof fn listing_follows_every_page_once(nexts: Seq<Option<Seq<char>>>, max: nat, raw: Seq<u8>, n: nat)
    requires
        0 < n <= nexts.len(),
    ensures
        followed(nexts, max, raw, n) is Some <==> lead_on(nexts, n) && n < max,
        followed(nexts, max, raw, n) is Some ==> {
            let seen = followed(nexts, max, raw, n)->0;
            seen.len() == n && forall|i: int| 0 <= i < n ==> nexts[i] == Some(#[trigger] seen[i])
        },
    decreases n,
{
    let q = (n - 1) as nat;
    if q > 0 {
        listing_follows_every_page_once(nexts, max, raw, q);
    }
    let before = followed(nexts, max, raw, q);
    if before is Some {
        let seen = before->0;
        if nexts[q as int] is Some {
            let c = nexts[q as int]->0;
            if seen.contains(c) {
                let i = choose|i: int| 0 <= i < seen.len() && seen[i] == c;
                assert(nexts[i] == nexts[q as int]);
            } else {
                assert forall|i: int| 0 <= i < q implies nexts[i] != nexts[q as int] by {
                    assert(nexts[i] == Some(seen[i]));
                    assert(seen.contains(seen[i]));
                }
            }
        }
    } else {
        assert(q > 0);
        if lead_on(nexts, n) {
            assert(lead_on(nexts, q));
        }
    }
}

/// A page without a successor ends the listing, whatever was read before.
pub proof fn last_page_ends_the_listing(seen: Seq<Seq<char>>, count: nat, max: nat, raw: Seq<u8>)
    ensures
        next_page(seen, count, max, None, raw) is Ok,
        next_page(seen, count, max, None, raw)->Ok_0 is None,
{
}

} // verus!
