//! Proofs that the two structural steps of reparenting keep the invariant of
//! the hierarchy.

use crate::model::{
    attached, children_of, detached, has, is_ancestor, lemma_rank_of, links_agree,
    links_in_range, parent_of, rank_of, ranked, same_links, wf, InstanceId, InstanceView,
};
use vstd::prelude::*;

verus! {

/// Taking a value out of a sequence that lists nothing twice leaves exactly
/// the other values, still listed once each.
pub proof fn lemma_remove_value<A>(q: Seq<A>, v: A)
    requires
        q.no_duplicates(),
        q.contains(v),
    ensures
        q.remove_value(v).len() == q.len() - 1,
        q.remove_value(v).no_duplicates(),
        !q.remove_value(v).contains(v),
        forall|x: A| x != v ==> (q.remove_value(v).contains(x) <==> q.contains(x)),
        forall|k: int|
            0 <= k < q.remove_value(v).len() ==> q.contains(#[trigger] q.remove_value(v)[k]),
{
    q.index_of_first_ensures(v);
    let i = q.index_of_first(v).unwrap();
    let r = q.remove_value(v);
    assert(r == q.remove(i));
    q.remove_ensures(i);
    assert forall|k: int| 0 <= k < r.len() implies q.contains(#[trigger] r[k]) && r[k] != v by {
        if k < i {
            assert(r[k] == q[k]);
        } else {
            assert(r[k] == q[k + 1]);
        }
    }
    assert forall|a: int, b: int| 0 <= a < r.len() && 0 <= b < r.len() && a != b implies r[a]
        != r[b] by {
        let a0 = if a < i {
            a
        } else {
            a + 1
        };
        let b0 = if b < i {
            b
        } else {
            b + 1
        };
        assert(r[a] == q[a0] && r[b] == q[b0]);
    }
    assert forall|x: A| x != v implies (r.contains(x) <==> q.contains(x)) by {
        if q.contains(x) {
            let j = choose|j: int| 0 <= j < q.len() && q[j] == x;
            if j < i {
                assert(r[j] == x);
            } else {
                assert(r[j - 1] == q[j]);
            }
        }
        if r.contains(x) {
            let j = choose|j: int| 0 <= j < r.len() && r[j] == x;
            assert(q.contains(r[j]));
        }
    }
}

/// In a well-formed forest no node is its own parent.
pub proof fn lemma_parent_differs(s: Seq<InstanceView>, n: InstanceId)
    requires
        wf(s),
        has(s, n),
    ensures
        parent_of(s, n) != Some(n),
{
    lemma_rank_of(s);
}

/// A node that leaves its parent leaves a well-formed forest behind.
pub proof fn lemma_detached_wf(s: Seq<InstanceView>, c: InstanceId)
    requires
        wf(s),
        has(s, c),
    ensures
        wf(detached(s, c)),
        detached(s, c).len() == s.len(),
{
    let t = detached(s, c);
    match parent_of(s, c) {
        None => {},
        Some(p) => {
            lemma_parent_differs(s, c);
            assert(has(s, p));
            assert(children_of(s, p).contains(c));
            lemma_remove_value(children_of(s, p), c);
            assert(forall|n: InstanceId| has(s, n) ==> has(t, n));
            assert forall|n: InstanceId| has(t, n) implies parent_of(t, n) == (if n == c {
                None
            } else {
                parent_of(s, n)
            }) && children_of(t, n) == (if n == p {
                children_of(s, p).remove_value(c)
            } else {
                children_of(s, n)
            }) by {}
            assert forall|n: InstanceId, k: int|
                has(t, n) && 0 <= k < children_of(t, n).len() implies has(
                t,
                #[trigger] children_of(t, n)[k],
            ) && parent_of(t, children_of(t, n)[k]) == Some(n) by {
                let x = children_of(t, n)[k];
                assert(children_of(s, n).contains(x));
                let j = choose|j: int|
                    0 <= j < children_of(s, n).len() && children_of(s, n)[j] == x;
                assert(has(s, children_of(s, n)[j]));
                assert(parent_of(s, children_of(s, n)[j]) == Some(n));
                if x == c {
                    assert(n == p);
                    assert(children_of(t, n).contains(c));
                }
            }
            assert forall|n: InstanceId| has(t, n) implies (#[trigger] parent_of(t, n) matches Some(
                q,
            ) ==> has(t, q) && children_of(t, q).contains(n)) by {
                if let Some(q) = parent_of(t, n) {
                    assert(parent_of(s, n) == Some(q));
                    assert(children_of(s, q).contains(n));
                }
            }
            assert forall|n: InstanceId| has(t, n) implies (#[trigger] children_of(
                t,
                n,
            )).no_duplicates() by {
                assert(children_of(s, n).no_duplicates());
            }
            assert(links_in_range(t));
            assert(links_agree(t));
            lemma_rank_of(s);
            let (rank, bound) = rank_of(s);
            assert forall|n: InstanceId| has(t, n) implies (#[trigger] parent_of(t, n) matches Some(
                q,
            ) ==> has(t, q) && rank[q.index as int] < rank[n.index as int]) by {
                if let Some(q) = parent_of(t, n) {
                    assert(parent_of(s, n) == Some(q));
                }
            }
            assert(ranked(t, rank, bound));
        },
    }
}

/// A detached node that is attached under a node which is neither itself nor
/// below it extends a well-formed forest to a well-formed forest.
pub proof fn lemma_attached_wf(s: Seq<InstanceView>, p: InstanceId, c: InstanceId)
    requires
        wf(s),
        has(s, p),
        has(s, c),
        c != p,
        parent_of(s, c) is None,
        !is_ancestor(s, c, p),
    ensures
        wf(attached(s, p, c)),
        attached(s, p, c).len() == s.len(),
{
    let t = attached(s, p, c);
    assert(forall|n: InstanceId| has(s, n) ==> has(t, n));
    assert forall|n: InstanceId| has(t, n) implies parent_of(t, n) == (if n == c {
        Some(p)
    } else {
        parent_of(s, n)
    }) && children_of(t, n) == (if n == p {
        children_of(s, p).push(c)
    } else {
        children_of(s, n)
    }) by {}
    // c was no child of p before
    if children_of(s, p).contains(c) {
        let j = choose|j: int| 0 <= j < children_of(s, p).len() && children_of(s, p)[j] == c;
        assert(parent_of(s, children_of(s, p)[j]) == Some(p));
        assert(false);
    }
    assert forall|n: InstanceId, k: int|
        has(t, n) && 0 <= k < children_of(t, n).len() implies has(
        t,
        #[trigger] children_of(t, n)[k],
    ) && parent_of(t, children_of(t, n)[k]) == Some(n) by {
        let x = children_of(t, n)[k];
        if n == p && k == children_of(s, p).len() {
            assert(x == c);
        } else {
            assert(x == children_of(s, n)[k]);
            assert(has(s, children_of(s, n)[k]));
            assert(parent_of(s, children_of(s, n)[k]) == Some(n));
            assert(x != c);
        }
    }
    assert forall|n: InstanceId| has(t, n) implies (#[trigger] parent_of(t, n) matches Some(q)
        ==> has(t, q) && children_of(t, q).contains(n)) by {
        if let Some(q) = parent_of(t, n) {
            if n == c {
                assert(children_of(t, p)[children_of(s, p).len() as int] == c);
            } else {
                assert(parent_of(s, n) == Some(q));
                assert(children_of(s, q).contains(n));
                let j = choose|j: int|
                    0 <= j < children_of(s, q).len() && children_of(s, q)[j] == n;
                assert(children_of(t, q)[j] == n);
            }
        }
    }
    assert forall|n: InstanceId| has(t, n) implies (#[trigger] children_of(t, n)).no_duplicates() by {
        assert(children_of(s, n).no_duplicates());
        if n == p {
            let q = children_of(s, p);
            assert forall|a: int, b: int|
                0 <= a < q.push(c).len() && 0 <= b < q.push(c).len() && a != b implies q.push(
                c,
            )[a] != q.push(c)[b] by {
                if a == q.len() {
                    assert(q.contains(q[b]));
                } else if b == q.len() {
                    assert(q.contains(q[a]));
                }
            }
        }
    }
    assert(links_in_range(t));
    assert(links_agree(t));
    // a ranking of the new forest: the subtree of c is lifted above everything else
    lemma_rank_of(s);
    let (rank, bound) = rank_of(s);
    let lifted = Seq::new(
        s.len(),
        |i: int|
            if i == c.index || is_ancestor(s, c, InstanceId { index: i as usize }) {
                rank[i] + bound
            } else {
                rank[i]
            },
    );
    let top = bound + bound;
    assert forall|n: InstanceId| has(t, n) implies (#[trigger] parent_of(t, n) matches Some(q)
        ==> has(t, q) && lifted[q.index as int] < lifted[n.index as int]) by {
        if let Some(q) = parent_of(t, n) {
            assert(n == InstanceId { index: n.index as int as usize });
            assert(q == InstanceId { index: q.index as int as usize });
            if n == c {
                assert(q == p);
                assert(lifted[p.index as int] == rank[p.index as int]);
                assert(lifted[c.index as int] == rank[c.index as int] + bound);
            } else {
                assert(parent_of(s, n) == Some(q));
                assert(is_ancestor(s, c, n) == (q == c || is_ancestor(s, c, q)));
                assert(rank[q.index as int] < rank[n.index as int]);
            }
        }
    }
    assert(ranked(t, lifted, top));
}

/// A node whose name, tag or flag changes leaves the invariant as it was.
pub proof fn lemma_relabel_wf(s: Seq<InstanceView>, id: InstanceId, v: InstanceView)
    requires
        wf(s),
        has(s, id),
        same_links(s[id.index as int], v),
    ensures
        wf(s.update(id.index as int, v)),
{
    let t = s.update(id.index as int, v);
    assert forall|n: InstanceId| has(t, n) implies parent_of(t, n) == parent_of(s, n)
        && children_of(t, n) == children_of(s, n) by {}
    assert forall|n: InstanceId, k: int|
        has(t, n) && 0 <= k < children_of(t, n).len() implies has(
        t,
        #[trigger] children_of(t, n)[k],
    ) && parent_of(t, children_of(t, n)[k]) == Some(n) by {
        let x = children_of(s, n)[k];
        assert(has(s, x));
        assert(parent_of(s, x) == Some(n));
    }
    assert forall|n: InstanceId| has(t, n) implies (#[trigger] parent_of(t, n) matches Some(q)
        ==> has(t, q) && children_of(t, q).contains(n)) by {
        if let Some(q) = parent_of(t, n) {
            assert(parent_of(s, n) == Some(q));
            assert(children_of(s, q).contains(n));
        }
    }
    assert forall|n: InstanceId| has(t, n) implies (#[trigger] children_of(t, n)).no_duplicates() by {
        assert(children_of(s, n).no_duplicates());
    }
    lemma_rank_of(s);
    let (rank, bound) = rank_of(s);
    assert forall|n: InstanceId| has(t, n) implies (#[trigger] parent_of(t, n) matches Some(q)
        ==> has(t, q) && rank[q.index as int] < rank[n.index as int]) by {
        if let Some(q) = parent_of(t, n) {
            assert(parent_of(s, n) == Some(q));
        }
    }
    assert(ranked(t, rank, bound));
}

/// A fresh node added at the end extends a well-formed forest to a
/// well-formed forest.
pub proof fn lemma_pushed_wf(s: Seq<InstanceView>, v: InstanceView)
    requires
        wf(s),
        v.parent is None,
        v.children.len() == 0,
    ensures
        wf(s.push(v)),
{
    let t = s.push(v);
    let last = InstanceId { index: s.len() as usize };
    assert forall|n: InstanceId| has(t, n) && n.index != s.len() implies has(s, n) && parent_of(
        t,
        n,
    ) == parent_of(s, n) && children_of(t, n) == children_of(s, n) by {}
    assert forall|n: InstanceId, k: int|
        has(t, n) && 0 <= k < children_of(t, n).len() implies has(
        t,
        #[trigger] children_of(t, n)[k],
    ) && parent_of(t, children_of(t, n)[k]) == Some(n) by {
        let x = children_of(s, n)[k];
        assert(has(s, x));
        assert(parent_of(s, x) == Some(n));
    }
    assert forall|n: InstanceId| has(t, n) implies (#[trigger] parent_of(t, n) matches Some(q)
        ==> has(t, q) && children_of(t, q).contains(n)) by {
        if let Some(q) = parent_of(t, n) {
            assert(parent_of(s, n) == Some(q));
            assert(children_of(s, q).contains(n));
        }
    }
    assert forall|n: InstanceId| has(t, n) implies (#[trigger] children_of(t, n)).no_duplicates() by {
        if n.index != s.len() {
            assert(children_of(s, n).no_duplicates());
        }
    }
    lemma_rank_of(s);
    let (rank, bound) = rank_of(s);
    let rank2 = rank.push(0);
    let bound2 = bound + 1;
    assert forall|n: InstanceId| has(t, n) implies (#[trigger] parent_of(t, n) matches Some(q)
        ==> has(t, q) && rank2[q.index as int] < rank2[n.index as int]) by {
        if let Some(q) = parent_of(t, n) {
            assert(parent_of(s, n) == Some(q));
        }
    }
    assert(ranked(t, rank2, bound2));
}

} // verus!
