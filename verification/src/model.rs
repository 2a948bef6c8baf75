//! Lifting of views through the containers of the standard library.

use vstd::prelude::*;

verus! {

/// The views of the elements of a sequence, in order.
pub open spec fn views<T: View>(s: Seq<T>) -> Seq<T::V> {
    s.map_values(|t: T| t.view())
}

/// The view of an optional value.
pub open spec fn opt_view<T: View>(o: Option<T>) -> Option<T::V> {
    match o {
        Some(t) => Some(t.view()),
        None => None,
    }
}

/// `views` keeps the length.
pub broadcast proof fn views_len<T: View>(s: Seq<T>)
    ensures
        #[trigger] views(s).len() == s.len(),
{
}

/// `views` works element by element.
pub broadcast proof fn views_index<T: View>(s: Seq<T>, i: int)
    requires
        0 <= i < s.len(),
    ensures
        #[trigger] views(s)[i] == s[i].view(),
{
}

/// `views` commutes with `push`.
pub broadcast proof fn views_push<T: View>(s: Seq<T>, x: T)
    ensures
        #[trigger] views(s.push(x)) == views(s).push(x.view()),
{
    assert(views(s.push(x)) =~= views(s).push(x.view()));
}

/// `views` of the empty sequence is empty.
pub broadcast proof fn views_empty<T: View>(s: Seq<T>)
    requires
        s.len() == 0,
    ensures
        #[trigger] views(s) == Seq::<T::V>::empty(),
{
    assert(views(s) =~= Seq::<T::V>::empty());
}

/// `views` commutes with concatenation.
pub broadcast proof fn views_concat<T: View>(a: Seq<T>, b: Seq<T>)
    ensures
        #[trigger] views(a + b) == views(a) + views(b),
{
    assert(views(a + b) =~= views(a) + views(b));
}

/// `views` commutes with `update`.
pub broadcast proof fn views_update<T: View>(s: Seq<T>, i: int, x: T)
    requires
        0 <= i < s.len(),
    ensures
        #[trigger] views(s.update(i, x)) == views(s).update(i, x.view()),
{
    assert(views(s.update(i, x)) =~= views(s).update(i, x.view()));
}

pub broadcast group group_views {
    views_len,
    views_index,
    views_push,
    views_empty,
    views_concat,
    views_update,
}


/// The views of an optional vector.
pub open spec fn opt_views<T: View>(o: Option<Vec<T>>) -> Option<Seq<T::V>> {
    match o {
        Some(v) => Some(views(v@)),
        None => None,
    }
}

/// Types that can be duplicated without changing their view.
pub trait Dup: View + Sized {
    /// A value with the same view.
    fn dup(&self) -> (r: Self)
        ensures
            r@ == self@,
    ;
}

impl Dup for String {
    fn dup(&self) -> (r: Self) {
        self.clone()
    }
}

impl<A: Dup, B: Dup> Dup for (A, B) {
    fn dup(&self) -> (r: Self) {
        (self.0.dup(), self.1.dup())
    }
}

/// Duplicates an optional value.
pub fn dup_opt<T: Dup>(o: &Option<T>) -> (r: Option<T>)
    ensures
        opt_view(r) == opt_view(*o),
{
    match o {
        Some(t) => Some(t.dup()),
        None => None,
    }
}

/// Duplicates a vector.
pub fn dup_vec<T: Dup>(v: &Vec<T>) -> (r: Vec<T>)
    ensures
        views(r@) == views(v@),
{
    broadcast use group_views;

    let mut out: Vec<T> = Vec::new();
    let mut i: usize = 0;
    while i < v.len()
        invariant
            i <= v@.len(),
            views(out@) == views(v@).take(i as int),
        decreases v@.len() - i,
    {
        out.push(v[i].dup());
        proof {
            assert(views(v@).take(i as int + 1) =~= views(v@).take(i as int).push(views(v@)[i as int]));
        }
        i += 1;
    }
    proof {
        assert(views(v@).take(i as int) =~= views(v@));
    }
    out
}

/// Duplicates an optional vector.
pub fn dup_opt_vec<T: Dup>(o: &Option<Vec<T>>) -> (r: Option<Vec<T>>)
    ensures
        opt_views(r) == opt_views(*o),
{
    match o {
        Some(v) => Some(dup_vec(v)),
        None => None,
    }
}

} // verus!
