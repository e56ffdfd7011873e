//! The order of names: character by character, by code point, a proper
//! prefix before what it is a prefix of. It is the order in which `str`
//! compares.

use vstd::prelude::*;
use vstd::relations::total_ordering;
use vstd::seq_lib::lemma_sorted_unique;
use vstd::std_specs::iter::IteratorSpec;
use vstd::string::group_string_axioms;

verus! {

/// `a` comes before `b` in the order of names, or is equal to it.
pub open spec fn name_le(a: Seq<char>, b: Seq<char>) -> bool
    decreases a.len(),
{
    if a.len() == 0 {
        true
    } else if b.len() == 0 {
        false
    } else if a[0] != b[0] {
        (a[0] as int) < (b[0] as int)
    } else {
        name_le(a.skip(1), b.skip(1))
    }
}

/// Each name comes before, or is equal to, every name after it.
pub open spec fn sorted(names: Seq<Seq<char>>) -> bool {
    forall|i: int, j: int| 0 <= i < j < names.len() ==> #[trigger] name_le(names[i], names[j])
}

/// Every name is at most itself.
pub proof fn lemma_name_le_reflexive(a: Seq<char>)
    ensures
        name_le(a, a),
    decreases a.len(),
{
    if a.len() > 0 {
        lemma_name_le_reflexive(a.skip(1));
    }
}

/// Of two names, one is at most the other.
pub proof fn lemma_name_le_total(a: Seq<char>, b: Seq<char>)
    ensures
        name_le(a, b) || name_le(b, a),
    decreases a.len(),
{
    if a.len() > 0 && b.len() > 0 && a[0] == b[0] {
        lemma_name_le_total(a.skip(1), b.skip(1));
    }
}

/// Two names that are each at most the other are the same name.
pub proof fn lemma_name_le_antisymmetric(a: Seq<char>, b: Seq<char>)
    requires
        name_le(a, b),
        name_le(b, a),
    ensures
        a == b,
    decreases a.len(),
{
    if a.len() == 0 || b.len() == 0 {
        assert(a =~= b);
    } else {
        lemma_name_le_antisymmetric(a.skip(1), b.skip(1));
        assert(a =~= seq![a[0]] + a.skip(1));
        assert(b =~= seq![b[0]] + b.skip(1));
    }
}

/// The order of names is transitive.
pub proof fn lemma_name_le_transitive(a: Seq<char>, b: Seq<char>, c: Seq<char>)
    requires
        name_le(a, b),
        name_le(b, c),
    ensures
        name_le(a, c),
    decreases a.len(),
{
    if a.len() > 0 && a[0] == b[0] && b[0] == c[0] {
        lemma_name_le_transitive(a.skip(1), b.skip(1), c.skip(1));
    }
}

/// There is one way to sort: two sorted sequences that hold the same names,
/// each as often as the other, are the same sequence.
pub proof fn lemma_sorted_is_unique(a: Seq<Seq<char>>, b: Seq<Seq<char>>)
    requires
        sorted(a),
        sorted(b),
        a.to_multiset() == b.to_multiset(),
    ensures
        a == b,
{
    let leq = |x: Seq<char>, y: Seq<char>| name_le(x, y);
    assert forall|x: Seq<char>| #[trigger] leq(x, x) by {
        lemma_name_le_reflexive(x);
    }
    assert forall|x: Seq<char>, y: Seq<char>| #[trigger] leq(x, y) && #[trigger] leq(y, x) implies x
        == y by {
        lemma_name_le_antisymmetric(x, y);
    }
    assert forall|x: Seq<char>, y: Seq<char>, z: Seq<char>| #[trigger]
        leq(x, y) && #[trigger] leq(y, z) implies leq(x, z) by {
        lemma_name_le_transitive(x, y, z);
    }
    assert forall|x: Seq<char>, y: Seq<char>| #[trigger] leq(x, y) || #[trigger] leq(y, x) by {
        lemma_name_le_total(x, y);
    }
    assert(total_ordering(leq));
    assert forall|i: int, j: int| 0 <= i < j < a.len() implies #[trigger] leq(a[i], a[j]) by {
        assert(name_le(a[i], a[j]));
    }
    assert forall|i: int, j: int| 0 <= i < j < b.len() implies #[trigger] leq(b[i], b[j]) by {
        assert(name_le(b[i], b[j]));
    }
    lemma_sorted_unique(a, b, leq);
}

/// Whether `a` comes before `b` in the order of names, or is equal to it.
pub fn le(a: &str, b: &str) -> (r: bool)
    ensures
        r == name_le(a@, b@),
{
    broadcast use group_string_axioms;

    let mut xs = a.chars();
    let mut ys = b.chars();
    let ghost mut seen: int = 0;
    loop
        invariant
            0 <= seen <= a@.len(),
            xs.remaining() == a@.skip(seen),
            name_le(a@, b@) == name_le(xs.remaining(), ys.remaining()),
        decreases a@.len() - seen,
    {
        let ghost rest_a = xs.remaining();
        let ghost rest_b = ys.remaining();
        match xs.next() {
            None => {
                return true;
            },
            Some(x) => {
                match ys.next() {
                    None => {
                        return false;
                    },
                    Some(y) => {
                        assert(xs.remaining() =~= rest_a.skip(1));
                        assert(ys.remaining() =~= rest_b.skip(1));
                        if x != y {
                            return x < y;
                        }
                        proof {
                            seen = seen + 1;
                            assert(rest_a.skip(1) =~= a@.skip(seen));
                        }
                    },
                }
            },
        }
    }
}

} // verus!
