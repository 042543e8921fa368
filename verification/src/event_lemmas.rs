//! Facts about walks through a well-formed forest and about the
//! notifications built from them.

use crate::events::{entering_to, told_to, Notification, Signal};
use crate::model::{
    acyclic, ancestors, children_of, depth, descendants_from, has, headroom, is_ancestor,
    lemma_rank_of, parent_of, wf, InstanceId, InstanceView,
};
use vstd::prelude::*;

verus! {

/// Every entry of `ancestors(s, n)` is a node above `n`, nearer to the root
/// than `n`.
pub proof fn lemma_ancestors_are_above(s: Seq<InstanceView>, n: InstanceId, k: int)
    requires
        acyclic(s),
        has(s, n),
        0 <= k < ancestors(s, n).len(),
    ensures
        has(s, ancestors(s, n)[k]),
        depth(s, ancestors(s, n)[k]) < depth(s, n),
        is_ancestor(s, ancestors(s, n)[k], n),
    decreases depth(s, n),
{
    lemma_rank_of(s);
    match parent_of(s, n) {
        None => {},
        Some(p) => {
            assert(ancestors(s, n) == seq![p] + ancestors(s, p));
            if k > 0 {
                assert(ancestors(s, n)[k] == ancestors(s, p)[k - 1]);
                lemma_ancestors_are_above(s, p, k - 1);
            }
        },
    }
}

/// Every node above `n` is an entry of `ancestors(s, n)`.
pub proof fn lemma_above_is_listed(s: Seq<InstanceView>, a: InstanceId, n: InstanceId)
    requires
        acyclic(s),
        has(s, n),
        is_ancestor(s, a, n),
    ensures
        ancestors(s, n).contains(a),
    decreases depth(s, n),
{
    lemma_rank_of(s);
    match parent_of(s, n) {
        None => {},
        Some(p) => {
            let rest = ancestors(s, p);
            assert(ancestors(s, n) == seq![p] + rest);
            if p == a {
                assert(ancestors(s, n)[0] == a);
            } else {
                lemma_above_is_listed(s, a, p);
                let j = choose|j: int| 0 <= j < rest.len() && rest[j] == a;
                assert(ancestors(s, n)[j + 1] == a);
            }
        },
    }
}

/// Every entry of `descendants_from(s, n, i)` is a node below `n`, farther
/// from the root than `n`.
pub proof fn lemma_descendants_are_below(s: Seq<InstanceView>, n: InstanceId, i: nat, k: int)
    requires
        wf(s),
        has(s, n),
        0 <= k < descendants_from(s, n, i).len(),
    ensures
        has(s, descendants_from(s, n, i)[k]),
        depth(s, descendants_from(s, n, i)[k]) > depth(s, n),
        is_ancestor(s, n, descendants_from(s, n, i)[k]),
    decreases headroom(s, n), children_of(s, n).len() - i,
{
    lemma_rank_of(s);
    if i < children_of(s, n).len() {
        let c = children_of(s, n)[i as int];
        assert(has(s, c));
        assert(parent_of(s, c) == Some(n));
        let below = descendants_from(s, c, 0);
        let after = descendants_from(s, n, i + 1);
        assert(descendants_from(s, n, i) == seq![c] + below + after);
        if k == 0 {
        } else if k <= below.len() {
            assert(descendants_from(s, n, i)[k] == below[k - 1]);
            lemma_descendants_are_below(s, c, 0, k - 1);
            lemma_above_extends(s, n, c, below[k - 1]);
        } else {
            assert(descendants_from(s, n, i)[k] == after[k - 1 - below.len()]);
            lemma_descendants_are_below(s, n, i + 1, k - 1 - below.len());
        }
    }
}

/// What is above a node is above everything below that node.
pub proof fn lemma_above_extends(s: Seq<InstanceView>, a: InstanceId, b: InstanceId, d: InstanceId)
    requires
        acyclic(s),
        has(s, b),
        has(s, d),
        a == b || is_ancestor(s, a, b),
        is_ancestor(s, b, d),
    ensures
        is_ancestor(s, a, d),
    decreases depth(s, d),
{
    lemma_rank_of(s);
    match parent_of(s, d) {
        None => {},
        Some(p) => {
            if p != b {
                lemma_above_extends(s, a, b, p);
            }
        },
    }
}

/// The announcements for a first entrant come before those for the others.
pub proof fn lemma_entering_first(targets: Seq<InstanceId>, c: InstanceId, rest: Seq<InstanceId>)
    ensures
        entering_to(targets, seq![c] + rest) == told_to(targets, Signal::DescendantAdded, c)
            + entering_to(targets, rest),
    decreases rest.len(),
{
    let all = seq![c] + rest;
    if rest.len() == 0 {
        assert(all.drop_last() =~= Seq::<InstanceId>::empty());
        assert(all.last() == c);
        assert(entering_to(targets, all.drop_last()) =~= Seq::<Notification>::empty());
        assert(entering_to(targets, rest) =~= Seq::<Notification>::empty());
        assert(entering_to(targets, all) =~= told_to(targets, Signal::DescendantAdded, c)
            + entering_to(targets, rest));
    } else {
        assert(all.drop_last() =~= seq![c] + rest.drop_last());
        assert(all.last() == rest.last());
        lemma_entering_first(targets, c, rest.drop_last());
        assert(entering_to(targets, all) =~= told_to(targets, Signal::DescendantAdded, c)
            + entering_to(targets, rest));
    }
}

/// Every announcement of `entering_to` is a descendant-added, to one of the
/// targets, about one of the entrants.
pub proof fn lemma_entering_members(targets: Seq<InstanceId>, entrants: Seq<InstanceId>, k: int)
    requires
        0 <= k < entering_to(targets, entrants).len(),
    ensures
        entering_to(targets, entrants)[k].signal == Signal::DescendantAdded,
        targets.contains(entering_to(targets, entrants)[k].target),
        entering_to(targets, entrants)[k].subject matches Some(d) && entrants.contains(d),
    decreases entrants.len(),
{
    if entrants.len() > 0 {
        let before = entering_to(targets, entrants.drop_last());
        let last = told_to(targets, Signal::DescendantAdded, entrants.last());
        assert(entering_to(targets, entrants) == before + last);
        if k < before.len() {
            lemma_entering_members(targets, entrants.drop_last(), k);
            let d = before[k].subject.unwrap();
            let j = choose|j: int| 0 <= j < entrants.drop_last().len() && entrants.drop_last()[j] == d;
            assert(entrants[j] == d);
        } else {
            let m = k - before.len();
            assert(entering_to(targets, entrants)[k] == last[m]);
            assert(targets[m] == last[m].target);
            assert(entrants[entrants.len() - 1] == entrants.last());
        }
    }
}

} // verus!
