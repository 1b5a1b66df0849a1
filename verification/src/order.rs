//! The order of names, and sorting by it.
use vstd::prelude::*;
use vstd::relations::{sorted_by, total_ordering};
use vstd::seq_lib::lemma_sorted_unique;

use crate::text::{chars_of, texts};

verus! {

/// `a` comes before `b`, or is `b`, in the order of their characters.
pub open spec fn at_most(a: Seq<char>, b: Seq<char>) -> bool
    decreases a.len(),
{
    if a.len() == 0 {
        true
    } else if b.len() == 0 {
        false
    } else if a[0] != b[0] {
        a[0] < b[0]
    } else {
        at_most(a.drop_first(), b.drop_first())
    }
}

/// The order of names as a relation.
pub open spec fn name_order() -> spec_fn(Seq<char>, Seq<char>) -> bool {
    |a: Seq<char>, b: Seq<char>| at_most(a, b)
}

/// Names in ascending order.
pub open spec fn sorted_names(names: Seq<Seq<char>>) -> Seq<Seq<char>> {
    names.sort_by(name_order())
}

proof fn lemma_at_most_reflexive(a: Seq<char>)
    ensures
        at_most(a, a),
    decreases a.len(),
{
    if a.len() > 0 {
        lemma_at_most_reflexive(a.drop_first());
    }
}

proof fn lemma_at_most_antisymmetric(a: Seq<char>, b: Seq<char>)
    requires
        at_most(a, b),
        at_most(b, a),
    ensures
        a == b,
    decreases a.len(),
{
    if a.len() > 0 {
        lemma_at_most_antisymmetric(a.drop_first(), b.drop_first());
        assert(a =~= seq![a[0]] + a.drop_first());
        assert(b =~= seq![b[0]] + b.drop_first());
    } else {
        assert(a =~= b);
    }
}

proof fn lemma_at_most_transitive(a: Seq<char>, b: Seq<char>, c: Seq<char>)
    requires
        at_most(a, b),
        at_most(b, c),
    ensures
        at_most(a, c),
    decreases a.len(),
{
    if a.len() > 0 && a[0] == b[0] && b[0] == c[0] {
        lemma_at_most_transitive(a.drop_first(), b.drop_first(), c.drop_first());
    }
}

proof fn lemma_at_most_total(a: Seq<char>, b: Seq<char>)
    ensures
        at_most(a, b) || at_most(b, a),
    decreases a.len(),
{
    if a.len() > 0 && b.len() > 0 && a[0] == b[0] {
        lemma_at_most_total(a.drop_first(), b.drop_first());
    }
}

/// The order of names is a total order.
pub proof fn lemma_name_order_total()
    ensures
        total_ordering(name_order()),
{
    let leq = name_order();
    assert forall|a: Seq<char>| #[trigger] leq(a, a) by {
        lemma_at_most_reflexive(a);
    }
    assert forall|a: Seq<char>, b: Seq<char>| #[trigger] leq(a, b) && #[trigger] leq(b, a) implies a
        == b by {
        lemma_at_most_antisymmetric(a, b);
    }
    assert forall|a: Seq<char>, b: Seq<char>, c: Seq<char>| #[trigger]
        leq(a, b) && #[trigger] leq(b, c) implies leq(a, c) by {
        lemma_at_most_transitive(a, b, c);
    }
    assert forall|a: Seq<char>, b: Seq<char>| #[trigger] leq(a, b) || #[trigger] leq(b, a) by {
        lemma_at_most_total(a, b);
    }
}

/// Sorting keeps exactly the names that there were, and puts them in order.
pub proof fn lemma_sorted_names(names: Seq<Seq<char>>)
    ensures
        sorted_by(sorted_names(names), name_order()),
        sorted_names(names).to_multiset() == names.to_multiset(),
        sorted_names(names).len() == names.len(),
{
    broadcast use vstd::seq_lib::group_to_multiset_ensures;

    lemma_name_order_total();
    names.lemma_sort_by_ensures(name_order());
    assert(sorted_names(names).to_multiset().len() == names.to_multiset().len());
}

/// What is in order and holds the same names is the sorted sequence.
pub proof fn lemma_sorted_names_unique(names: Seq<Seq<char>>, listed: Seq<Seq<char>>)
    requires
        sorted_by(listed, name_order()),
        listed.to_multiset() == names.to_multiset(),
    ensures
        listed == sorted_names(names),
{
    lemma_name_order_total();
    lemma_sorted_names(names);
    lemma_sorted_unique(listed, sorted_names(names), name_order());
}

/// Two listings of the same names are sorted into the same sequence.
pub proof fn lemma_sorting_forgets_order(a: Seq<Seq<char>>, b: Seq<Seq<char>>)
    requires
        a.to_multiset() == b.to_multiset(),
    ensures
        sorted_names(a) == sorted_names(b),
{
    lemma_sorted_names(a);
    lemma_sorted_names_unique(b, sorted_names(a));
}

/// Whether `a` comes before `b` or is `b`.
pub fn comes_first(a: &str, b: &str) -> (r: bool)
    ensures
        r == at_most(a@, b@),
{
    let left = chars_of(a);
    let right = chars_of(b);
    let n: usize = left.len();
    let m: usize = right.len();
    let mut i: usize = 0;
    assert(a@.skip(0) =~= a@);
    assert(b@.skip(0) =~= b@);
    while i < n && i < m
        invariant
            left@ == a@,
            right@ == b@,
            i <= n == left@.len(),
            i <= m == right@.len(),
            at_most(a@.skip(i as int), b@.skip(i as int)) == at_most(a@, b@),
        decreases n - i,
    {
        if left[i] != right[i] {
            return left[i] < right[i];
        }
        assert(a@.skip(i as int).drop_first() =~= a@.skip(i + 1));
        assert(b@.skip(i as int).drop_first() =~= b@.skip(i + 1));
        i = i + 1;
    }
    i == n
}

/// The names in ascending order.
pub fn sort_names(names: Vec<String>) -> (r: Vec<String>)
    ensures
        texts(r@) == sorted_names(texts(names@)),
{
    let mut listed: Vec<String> = Vec::new();
    let mut i: usize = 0;
    assert(texts(listed@) =~= texts(names@).take(0));
    while i < names.len()
        invariant
            i <= names@.len(),
            sorted_by(texts(listed@), name_order()),
            texts(listed@).to_multiset() == texts(names@).take(i as int).to_multiset(),
            listed@.len() == i,
        decreases names@.len() - i,
    {
        let name: String = names[i].clone();
        let mut at: usize = i;
        while at > 0 && !comes_first(listed[at - 1].as_str(), name.as_str())
            invariant
                at <= i == listed@.len(),
                sorted_by(texts(listed@), name_order()),
                forall|k: int|
                    at <= k < i ==> !#[trigger] at_most(texts(listed@)[k], name@),
            decreases at,
        {
            at = at - 1;
        }
        let ghost before = texts(listed@);
        listed.insert(at, name);
        proof {
            let now = texts(listed@);
            lemma_name_order_total();
            let leq = name_order();
            assert(now =~= before.insert(at as int, name@));
            assert forall|p: int, q: int| 0 <= p < q < now.len() implies #[trigger] leq(
                now[p],
                now[q],
            ) by {
                if p == at {
                    assert(!at_most(before[q - 1], name@));
                    assert(leq(before[q - 1], name@) || leq(name@, before[q - 1]));
                } else if q == at {
                    assert(leq(before[at - 1], name@));
                    if p < at - 1 {
                        assert(leq(before[p], before[at - 1]));
                    }
                } else {
                    let p0 = if p < at { p } else { p - 1 };
                    let q0 = if q < at { q } else { q - 1 };
                    assert(leq(before[p0], before[q0]));
                }
            }
            vstd::seq_lib::to_multiset_insert(before, at as int, name@);
            let taken = texts(names@).take(i + 1);
            assert(taken =~= texts(names@).take(i as int).push(name@));
            vstd::seq_lib::to_multiset_build(texts(names@).take(i as int), name@);
        }
        i = i + 1;
    }
    proof {
        assert(texts(names@).take(i as int) =~= texts(names@));
        lemma_sorted_names_unique(texts(names@), texts(listed@));
    }
    listed
}

} // verus!
