//! Helpers on owned strings and on views of containers.
//!
//! Contracts in this crate speak of a string through its character sequence
//! (`Seq<char>`), of a vector through the sequence of its items' views, and of
//! an optional value through the view of what it holds.

use crate::collections::TextMap;
use vstd::prelude::*;
use vstd::string::*;

verus! {

/// The views of the items of `s`, in order.
pub open spec fn views<T: View>(s: Seq<T>) -> Seq<T::V> {
    s.map_values(|t: T| t@)
}

/// The view of what `o` holds.
pub open spec fn opt_view<T: View>(o: Option<T>) -> Option<T::V> {
    match o {
        Some(t) => Some(t@),
        None => None,
    }
}

/// The map `m` with each value replaced by its view.
pub open spec fn map_views<T: View>(m: Map<Seq<char>, T>) -> Map<Seq<char>, T::V> {
    m.map_values(|t: T| t@)
}

/// Inserting a value and then taking views is taking views and then
/// inserting the value's view.
pub proof fn lemma_map_views_insert<T: View>(m: Map<Seq<char>, T>, k: Seq<char>, t: T)
    ensures
        map_views(m.insert(k, t)) == map_views(m).insert(k, t@),
{
    assert(map_views(m.insert(k, t)) =~= map_views(m).insert(k, t@));
}

/// Pushing an item and then taking views is taking views and then pushing the
/// item's view.
pub proof fn lemma_views_push<T: View>(s: Seq<T>, t: T)
    ensures
        views(s.push(t)) == views(s).push(t@),
{
    assert(views(s.push(t)) =~= views(s).push(t@));
}

/// Whether a clone of a `T` always has the view of what it was cloned from.
pub open spec fn clone_keeps_view<T: Clone + View>() -> bool {
    forall|a: T, b: T| #[trigger] call_ensures(T::clone, (&a,), b) ==> a@ == b@
}

/// A fresh copy of a list, item by item.
pub(crate) fn copy_items<T: Clone + View>(v: &Vec<T>) -> (r: Vec<T>)
    requires
        clone_keeps_view::<T>(),
    ensures
        views(r@) == views(v@),
{
    let mut out: Vec<T> = Vec::new();
    let mut i: usize = 0;
    while i < v.len()
        invariant
            i <= v@.len(),
            clone_keeps_view::<T>(),
            views(out@) == views(v@.take(i as int)),
        decreases v@.len() - i,
    {
        let item = v[i].clone();
        proof {
            lemma_views_push(out@, item);
            assert(v@.take(i + 1) =~= v@.take(i as int).push(v@[i as int]));
            lemma_views_push(v@.take(i as int), v@[i as int]);
        }
        out.push(item);
        i += 1;
    }
    assert(v@.take(v@.len() as int) =~= v@);
    out
}

/// A fresh copy of an optional value.
pub(crate) fn copy_opt<T: Clone + View>(o: &Option<T>) -> (r: Option<T>)
    requires
        clone_keeps_view::<T>(),
    ensures
        opt_view(r) == opt_view(*o),
{
    match o {
        Some(t) => Some(t.clone()),
        None => None,
    }
}

/// A fresh copy of a map, value by value.
pub(crate) fn copy_map<T: Clone + View>(m: &TextMap<T>) -> (r: TextMap<T>)
    requires
        clone_keeps_view::<T>(),
    ensures
        map_views(r@) == map_views(m@),
{
    let r = m.clone();
    assert(map_views(r@) =~= map_views(m@));
    r
}

/// Whether `v` holds a string with the characters of `key`.
pub fn has_text(v: &Vec<String>, key: &String) -> (r: bool)
    ensures
        r == views(v@).contains(key@),
{
    let mut i: usize = 0;
    while i < v.len()
        invariant
            i <= v@.len(),
            forall|j: int| 0 <= j < i ==> views(v@)[j] != key@,
        decreases v@.len() - i,
    {
        if v[i] == *key {
            assert(views(v@)[i as int] == key@);
            return true;
        }
        i += 1;
    }
    false
}

/// `prefix` followed by `rest`.
pub fn prefixed(prefix: &str, rest: &String) -> (r: String)
    ensures
        r@ == prefix@ + rest@,
{
    let mut out = String::from_str(prefix);
    out.append(rest.as_str());
    out
}

} // verus!
