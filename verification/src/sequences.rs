//! Facts about filtered sequences.
use vstd::prelude::*;

verus! {

/// Filtering one more element of a sequence either appends that element to
/// the filtered prefix or leaves the filtered prefix as it is.
pub proof fn lemma_filter_take_next<A>(s: Seq<A>, keep: spec_fn(A) -> bool, i: int)
    requires
        0 <= i < s.len(),
    ensures
        s.take(i + 1).filter(keep) == if keep(s[i]) {
            s.take(i).filter(keep).push(s[i])
        } else {
            s.take(i).filter(keep)
        },
{
    reveal(Seq::filter);
    assert(s.take(i + 1).drop_last() =~= s.take(i));
    assert(s.take(i + 1).last() == s[i]);
}

/// A filter never lengthens a sequence, a filter that drops nothing leaves
/// the sequence as it is, and what a filter keeps passes it.
pub proof fn lemma_filter_all<A>(s: Seq<A>, keep: spec_fn(A) -> bool)
    ensures
        s.filter(keep).len() <= s.len(),
        s.filter(keep).len() == s.len() ==> s.filter(keep) == s,
        forall|index: int|
            0 <= index < s.filter(keep).len() ==> keep(#[trigger] s.filter(keep)[index]),
    decreases s.len(),
{
    reveal(Seq::filter);
    if s.len() > 0 {
        lemma_filter_all(s.drop_last(), keep);
        if s.filter(keep).len() == s.len() {
            assert(s.filter(keep) =~= s);
        }
    }
}

/// A filter keeps every element that passes it and loses at least one
/// element where one fails it.
pub proof fn lemma_filter_members<A>(s: Seq<A>, keep: spec_fn(A) -> bool, element: A)
    requires
        s.contains(element),
    ensures
        keep(element) ==> s.filter(keep).contains(element),
        !keep(element) ==> s.filter(keep).len() < s.len(),
    decreases s.len(),
{
    reveal(Seq::filter);
    lemma_filter_all(s.drop_last(), keep);
    let kept = s.drop_last().filter(keep);
    if s.last() == element {
        if keep(element) {
            assert(s.filter(keep) == kept.push(element));
            assert(s.filter(keep)[kept.len() as int] == element);
        }
    } else {
        let index = choose|index: int| 0 <= index < s.len() && s[index] == element;
        assert(s.drop_last()[index] == element);
        lemma_filter_members(s.drop_last(), keep, element);
        if keep(element) {
            let place = choose|place: int| 0 <= place < kept.len() && kept[place] == element;
            assert(s.filter(keep)[place] == element);
        }
    }
}

} // verus!
