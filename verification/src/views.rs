//! Views of sequences and of optional values.
use vstd::prelude::*;

verus! {

/// The views of the items of a sequence.
pub open spec fn each<T: View>(s: Seq<T>) -> Seq<T::V> {
    s.map_values(|t: T| t@)
}

/// Viewing commutes with `push`.
pub broadcast proof fn each_push<T: View>(s: Seq<T>, t: T)
    ensures
        #[trigger] each(s.push(t)) == each(s).push(t@),
{
    assert(each(s.push(t)) =~= each(s).push(t@));
}

/// Viewing commutes with concatenation.
pub broadcast proof fn each_concat<T: View>(a: Seq<T>, b: Seq<T>)
    ensures
        #[trigger] each(a + b) == each(a) + each(b),
{
    assert(each(a + b) =~= each(a) + each(b));
}

/// The view of an empty sequence is empty.
pub broadcast proof fn each_empty<T: View>()
    ensures
        #[trigger] each(Seq::<T>::empty()) == Seq::<T::V>::empty(),
{
    assert(each(Seq::<T>::empty()) =~= Seq::<T::V>::empty());
}

/// Viewing commutes with `update`.
pub broadcast proof fn each_update<T: View>(s: Seq<T>, i: int, t: T)
    requires
        0 <= i < s.len(),
    ensures
        #[trigger] each(s.update(i, t)) == each(s).update(i, t@),
{
    assert(each(s.update(i, t)) =~= each(s).update(i, t@));
}

/// The view of an optional value.
pub open spec fn opt<T: View>(o: Option<T>) -> Option<T::V> {
    match o {
        Some(t) => Some(t@),
        None => None,
    }
}

/// The views of the items of a sequence of optional values.
pub open spec fn opts<T: View>(s: Seq<Option<T>>) -> Seq<Option<T::V>> {
    s.map_values(|o: Option<T>| opt(o))
}

/// Viewing optional values commutes with `push`.
pub broadcast proof fn opts_push<T: View>(s: Seq<Option<T>>, o: Option<T>)
    ensures
        #[trigger] opts(s.push(o)) == opts(s).push(opt(o)),
{
    assert(opts(s.push(o)) =~= opts(s).push(opt(o)));
}

/// Viewing optional values commutes with `update`.
pub broadcast proof fn opts_update<T: View>(s: Seq<Option<T>>, i: int, o: Option<T>)
    requires
        0 <= i < s.len(),
    ensures
        #[trigger] opts(s.update(i, o)) == opts(s).update(i, opt(o)),
{
    assert(opts(s.update(i, o)) =~= opts(s).update(i, opt(o)));
}

/// The facts about [`each`] and [`opts`] that proofs rely on.
pub broadcast group group_views {
    each_push,
    each_concat,
    each_empty,
    each_update,
    opts_push,
    opts_update,
}

} // verus!
