//! Sorting names: a merge sort that moves the strings and never copies one.
//!
//! Strings leave a vector at its end and enter one at its end, so merging two
//! runs turns their direction round: two falling runs merge into a rising one
//! and two rising runs into a falling one. The sort asks each half for the
//! direction opposite to its own.

use vstd::prelude::*;
use vstd::multiset::Multiset;
use vstd::seq_lib::{lemma_multiset_commutative, to_multiset_build, to_multiset_contains};
use crate::order::{
    le,
    lemma_name_le_total,
    lemma_name_le_transitive,
    name_le,
    sorted,
};

verus! {

/// `a` stands at or before `b` in a run that rises (`up`) or falls.
spec fn leads(up: bool, a: Seq<char>, b: Seq<char>) -> bool {
    if up {
        name_le(a, b)
    } else {
        name_le(b, a)
    }
}

/// The names form a run that rises (`up`) or falls.
spec fn run(up: bool, names: Seq<Seq<char>>) -> bool {
    forall|i: int, j: int| 0 <= i < j < names.len() ==> #[trigger] leads(up, names[i], names[j])
}

/// In a run in direction `up`, every name of `first` may stand before every
/// name of `rest`.
spec fn all_lead(up: bool, first: Seq<Seq<char>>, rest: Seq<Seq<char>>) -> bool {
    forall|i: int, j: int|
        0 <= i < first.len() && 0 <= j < rest.len() ==> #[trigger] leads(up, first[i], rest[j])
}

/// A sequence without names has the empty multiset of names.
proof fn lemma_no_names(names: Seq<Seq<char>>)
    requires
        names.len() == 0,
    ensures
        names.to_multiset() == Multiset::<Seq<char>>::empty(),
{
    assert forall|name: Seq<char>| names.to_multiset().count(name) == 0 by {
        to_multiset_contains(names, name);
    }
    assert(names.to_multiset() =~= Multiset::<Seq<char>>::empty());
}

/// The names of a vector and of the same vector with one more string.
proof fn lemma_push_names(before: Vec<String>, after: Vec<String>, s: String)
    requires
        after@ == before@.push(s),
    ensures
        after.deep_view() == before.deep_view().push(s@),
        after.deep_view().to_multiset() == before.deep_view().to_multiset().insert(s@),
{
    assert(after.deep_view() =~= before.deep_view().push(s@));
    to_multiset_build(before.deep_view(), s@);
}

/// The names of a vector and of the same vector without its last string.
proof fn lemma_pop_names(before: Vec<String>, after: Vec<String>)
    requires
        before@.len() > 0,
        after@ == before@.subrange(0, before@.len() - 1),
    ensures
        before.deep_view() == after.deep_view().push(before@.last()@),
        before.deep_view().to_multiset() == after.deep_view().to_multiset().insert(
            before@.last()@,
        ),
{
    assert(before.deep_view() =~= after.deep_view().push(before@.last()@));
    to_multiset_build(after.deep_view(), before@.last()@);
}

/// A run that rises is a sorted sequence, and the other way round.
proof fn lemma_rising_run_is_sorted(names: Seq<Seq<char>>)
    ensures
        run(true, names) == sorted(names),
{
    if run(true, names) {
        assert forall|i: int, j: int| 0 <= i < j < names.len() implies #[trigger] name_le(
            names[i],
            names[j],
        ) by {
            assert(leads(true, names[i], names[j]));
        }
    }
    if sorted(names) {
        assert forall|i: int, j: int| 0 <= i < j < names.len() implies #[trigger] leads(
            true,
            names[i],
            names[j],
        ) by {
            assert(name_le(names[i], names[j]));
        }
    }
}

/// Moves the last string of `from` to the end of `to`. Where `from` runs
/// against `up`, `to` runs in it, and all of `to` may stand before all of
/// `from` and of `other`, which also runs against `up` and whose last name
/// does not lead the one that moves, all of this still holds afterwards.
fn move_last(up: bool, from: &mut Vec<String>, to: &mut Vec<String>, Ghost(other): Ghost<Seq<Seq<char>>>)
    requires
        old(from).len() > 0,
        run(!up, old(from).deep_view()),
        run(!up, other),
        run(up, old(to).deep_view()),
        all_lead(up, old(to).deep_view(), old(from).deep_view()),
        all_lead(up, old(to).deep_view(), other),
        other.len() > 0 ==> leads(up, old(from).deep_view().last(), other.last()),
    ensures
        final(from).len() == old(from).len() - 1,
        run(!up, final(from).deep_view()),
        run(up, final(to).deep_view()),
        all_lead(up, final(to).deep_view(), final(from).deep_view()),
        all_lead(up, final(to).deep_view(), other),
        final(to).deep_view().to_multiset().add(final(from).deep_view().to_multiset()) == old(
            to,
        ).deep_view().to_multiset().add(old(from).deep_view().to_multiset()),
{
    let ghost from_before = *from;
    let ghost to_before = *to;
    let s = from.pop().unwrap();
    to.push(s);
    proof {
        lemma_pop_names(from_before, *from);
        lemma_push_names(to_before, *to, s);
        let src = from_before.deep_view();
        let dst = to_before.deep_view();
        let rest = from.deep_view();
        let out = to.deep_view();
        let last = rest.len() as int;
        let down = !up;
        assert(src[last] == s@);
        assert forall|i: int, j: int| 0 <= i < j < rest.len() implies #[trigger] leads(
            down,
            rest[i],
            rest[j],
        ) by {
            assert(leads(down, src[i], src[j]));
        }
        assert forall|i: int, j: int| 0 <= i < j < out.len() implies #[trigger] leads(
            up,
            out[i],
            out[j],
        ) by {
            if j == out.len() - 1 {
                assert(leads(up, dst[i], src[last]));
            } else {
                assert(leads(up, dst[i], dst[j]));
            }
        }
        assert forall|i: int, j: int|
            0 <= i < out.len() && 0 <= j < rest.len() implies #[trigger] leads(
            up,
            out[i],
            rest[j],
        ) by {
            if i == out.len() - 1 {
                assert(leads(down, src[j], src[last]));
            } else {
                assert(leads(up, dst[i], src[j]));
            }
        }
        assert forall|i: int, j: int|
            0 <= i < out.len() && 0 <= j < other.len() implies #[trigger] leads(
            up,
            out[i],
            other[j],
        ) by {
            if i == out.len() - 1 {
                let end = other.len() - 1;
                assert(leads(up, src[last], other[end]));
                if j < end {
                    assert(leads(down, other[j], other[end]));
                    if up {
                        lemma_name_le_transitive(src[last], other[end], other[j]);
                    } else {
                        lemma_name_le_transitive(other[j], other[end], src[last]);
                    }
                }
            } else {
                assert(leads(up, dst[i], other[j]));
            }
        }
        assert(out.to_multiset().add(rest.to_multiset()) =~= dst.to_multiset().add(
            src.to_multiset(),
        ));
    }
}

/// Merges two runs against `up` into one run in `up` that holds the names of
/// both.
fn merge(up: bool, a: Vec<String>, b: Vec<String>) -> (out: Vec<String>)
    requires
        run(!up, a.deep_view()),
        run(!up, b.deep_view()),
    ensures
        run(up, out.deep_view()),
        out.deep_view().to_multiset() == a.deep_view().to_multiset().add(
            b.deep_view().to_multiset(),
        ),
{
    let ghost all = a.deep_view().to_multiset().add(b.deep_view().to_multiset());
    let mut a = a;
    let mut b = b;
    let mut out: Vec<String> = Vec::new();
    proof {
        lemma_no_names(out.deep_view());
        assert(Multiset::<Seq<char>>::empty().add(a.deep_view().to_multiset()).add(
            b.deep_view().to_multiset(),
        ) =~= all);
    }
    while a.len() > 0 || b.len() > 0
        invariant
            run(!up, a.deep_view()),
            run(!up, b.deep_view()),
            run(up, out.deep_view()),
            all_lead(up, out.deep_view(), a.deep_view()),
            all_lead(up, out.deep_view(), b.deep_view()),
            out.deep_view().to_multiset().add(a.deep_view().to_multiset()).add(
                b.deep_view().to_multiset(),
            ) == all,
        decreases a.len() + b.len(),
    {
        let ghost a_before = a.deep_view();
        let ghost b_before = b.deep_view();
        let ghost out_before = out.deep_view();
        let from_a = if a.len() == 0 {
            false
        } else if b.len() == 0 {
            true
        } else {
            let x = a[a.len() - 1].as_str();
            let y = b[b.len() - 1].as_str();
            proof {
                assert(a_before.last() == x@);
                assert(b_before.last() == y@);
                lemma_name_le_total(x@, y@);
            }
            if up {
                le(x, y)
            } else {
                le(y, x)
            }
        };
        if from_a {
            move_last(up, &mut a, &mut out, Ghost(b_before));
            proof {
                assert(out.deep_view().to_multiset().add(a.deep_view().to_multiset()).add(
                    b_before.to_multiset(),
                ) =~= out_before.to_multiset().add(a_before.to_multiset()).add(
                    b_before.to_multiset(),
                ));
            }
        } else {
            move_last(up, &mut b, &mut out, Ghost(a_before));
            proof {
                assert(out.deep_view().to_multiset().add(a_before.to_multiset()).add(
                    b.deep_view().to_multiset(),
                ) =~= out_before.to_multiset().add(b_before.to_multiset()).add(
                    a_before.to_multiset(),
                ));
                assert(out_before.to_multiset().add(b_before.to_multiset()).add(
                    a_before.to_multiset(),
                ) =~= out_before.to_multiset().add(a_before.to_multiset()).add(
                    b_before.to_multiset(),
                ));
            }
        }
    }
    proof {
        lemma_no_names(a.deep_view());
        lemma_no_names(b.deep_view());
        assert(out.deep_view().to_multiset().add(Multiset::<Seq<char>>::empty()).add(
            Multiset::<Seq<char>>::empty(),
        ) =~= out.deep_view().to_multiset());
    }
    out
}

/// Sorts `names` into a run in direction `up`.
fn merge_sort(up: bool, names: Vec<String>) -> (out: Vec<String>)
    ensures
        run(up, out.deep_view()),
        out.deep_view().to_multiset() == names.deep_view().to_multiset(),
    decreases names.len(),
{
    if names.len() <= 1 {
        return names;
    }
    let mut front = names;
    let back = front.split_off(front.len() / 2);
    proof {
        assert(names.deep_view() =~= front.deep_view() + back.deep_view());
        lemma_multiset_commutative(front.deep_view(), back.deep_view());
    }
    let front = merge_sort(!up, front);
    let back = merge_sort(!up, back);
    merge(up, front, back)
}

/// Sorts `names` in ascending order. The names afterwards are those before,
/// each as often as before.
pub fn sort_names(names: &mut Vec<String>)
    ensures
        sorted(final(names).deep_view()),
        final(names).deep_view().to_multiset() == old(names).deep_view().to_multiset(),
{
    let mut taken: Vec<String> = Vec::new();
    core::mem::swap(names, &mut taken);
    let mut ordered = merge_sort(true, taken);
    core::mem::swap(names, &mut ordered);
    proof {
        lemma_rising_run_is_sorted(names.deep_view());
    }
}

} // verus!
