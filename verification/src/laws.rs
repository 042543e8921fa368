//! What holds of the reparenting protocol on every well-formed forest.

use crate::event_lemmas::{
    lemma_above_is_listed, lemma_ancestors_are_above, lemma_descendants_are_below,
    lemma_entering_first, lemma_entering_members,
};
use crate::events::{
    attach_notifications, entering_to, entrants, opening_calls, reparent_notifications, tells,
    told_to, upward, Call, Notification, Signal,
};
use crate::model::{
    ancestors, attached, can_set_parent_spec, children_of, depth, descendants, detached,
    has, is_ancestor, lemma_rank_of, parent_of, reparented, wf, InstanceId, InstanceView,
};
use crate::model_lemmas::{
    lemma_attached_wf, lemma_detached_wf, lemma_parent_differs, lemma_remove_value,
};
use vstd::prelude::*;

verus! {

/// `x` stands at exactly one position of `notes`.
pub open spec fn told_once(notes: Seq<Notification>, x: Notification) -> bool {
    exists|i: int|
        0 <= i < notes.len() && notes[i] == x && forall|j: int|
            0 <= j < notes.len() && notes[j] == x ==> j == i
}

/// Reparenting keeps the invariant of the hierarchy, whatever is asked.
pub proof fn law_reparenting_keeps_invariant(
    s: Seq<InstanceView>,
    node: InstanceId,
    new_parent: Option<InstanceId>,
)
    requires
        wf(s),
    ensures
        wf(reparented(s, node, new_parent)),
        reparented(s, node, new_parent).len() == s.len(),
{
    if can_set_parent_spec(s, node, new_parent) {
        lemma_detached_wf(s, node);
        if let Some(p) = new_parent {
            assert(detached(s, node) == s);
            lemma_attached_wf(s, p, node);
        }
    }
}

/// After a reparenting that is carried out, the new parent lists the node
/// exactly once, as its last child, and the node names the new parent.
pub proof fn law_attached_once(s: Seq<InstanceView>, c: InstanceId, p: InstanceId)
    requires
        wf(s),
        can_set_parent_spec(s, c, Some(p)),
    ensures
        parent_of(reparented(s, c, Some(p)), c) == Some(p),
        children_of(reparented(s, c, Some(p)), p) == children_of(s, p).push(c),
        !children_of(s, p).contains(c),
        children_of(reparented(s, c, Some(p)), p).no_duplicates(),
{
    let t = reparented(s, c, Some(p));
    assert(detached(s, c) == s);
    assert(t == attached(s, p, c));
    lemma_attached_wf(s, p, c);
    if children_of(s, p).contains(c) {
        let j = choose|j: int| 0 <= j < children_of(s, p).len() && children_of(s, p)[j] == c;
        assert(parent_of(s, children_of(s, p)[j]) == Some(p));
    }
    assert(has(t, p));
    assert(children_of(t, p).no_duplicates());
}

/// A node is not moved under a node below it: the call changes nothing and
/// tells nothing, so the node keeps the parent it had.
pub proof fn law_no_cycle(s: Seq<InstanceView>, a: InstanceId, b: InstanceId)
    requires
        wf(s),
        has(s, a),
        has(s, b),
        is_ancestor(s, a, b),
    ensures
        !can_set_parent_spec(s, a, Some(b)),
        reparented(s, a, Some(b)) == s,
        parent_of(reparented(s, a, Some(b)), a) == parent_of(s, a),
        reparent_notifications(s, a, Some(b)) == Seq::<Notification>::empty(),
{
}

/// Reparenting to nothing takes the node out of its old parent's children
/// exactly once, clears its back-reference and leaves every other list of
/// children as it was.
pub proof fn law_detached_once(s: Seq<InstanceView>, c: InstanceId)
    requires
        wf(s),
        has(s, c),
    ensures
        parent_of(reparented(s, c, None), c) is None,
        parent_of(s, c) matches Some(q) ==> {
            &&& children_of(s, q).contains(c)
            &&& children_of(reparented(s, c, None), q) == children_of(s, q).remove_value(c)
            &&& !children_of(reparented(s, c, None), q).contains(c)
            &&& children_of(reparented(s, c, None), q).len() == children_of(s, q).len() - 1
        },
        forall|n: InstanceId|
            has(s, n) && parent_of(s, c) != Some(n) ==> #[trigger] children_of(
                reparented(s, c, None),
                n,
            ) == children_of(s, n),
{
    let t = reparented(s, c, None);
    assert(t == detached(s, c));
    match parent_of(s, c) {
        None => {},
        Some(q) => {
            lemma_parent_differs(s, c);
            assert(has(s, q));
            assert(children_of(s, q).contains(c));
            lemma_remove_value(children_of(s, q), c);
        },
    }
}

/// No node stands in the children of two parents.
pub proof fn law_single_parent(s: Seq<InstanceView>, p1: InstanceId, p2: InstanceId, c: InstanceId)
    requires
        wf(s),
        has(s, p1),
        has(s, p2),
        children_of(s, p1).contains(c),
        children_of(s, p2).contains(c),
    ensures
        p1 == p2,
{
    let i = choose|i: int| 0 <= i < children_of(s, p1).len() && children_of(s, p1)[i] == c;
    let j = choose|j: int| 0 <= j < children_of(s, p2).len() && children_of(s, p2)[j] == c;
    assert(parent_of(s, children_of(s, p1)[i]) == Some(p1));
    assert(parent_of(s, children_of(s, p2)[j]) == Some(p2));
}

/// On attaching `c` under `p`, child-added and descendant-added about `c` are
/// told to `p` exactly once each, and descendant-added about `c` is told to
/// every node above `p`.
pub proof fn law_attach_cascade(s: Seq<InstanceView>, p: InstanceId, c: InstanceId)
    requires
        wf(s),
        has(s, p),
        has(s, c),
        parent_of(s, c) == Some(p),
    ensures
        told_once(
            attach_notifications(s, p, c),
            Notification { target: p, signal: Signal::ChildAdded, subject: Some(c) },
        ),
        told_once(
            attach_notifications(s, p, c),
            Notification { target: p, signal: Signal::DescendantAdded, subject: Some(c) },
        ),
        forall|a: InstanceId|
            is_ancestor(s, a, p) ==> attach_notifications(s, p, c).contains(
                Notification { target: a, signal: Signal::DescendantAdded, subject: Some(c) },
            ),
{
    lemma_rank_of(s);
    let targets = upward(s, p);
    let below = descendants(s, c);
    let first = told_to(targets, Signal::DescendantAdded, c);
    let later = entering_to(targets, below);
    let notes = attach_notifications(s, p, c);
    let added = Notification { target: p, signal: Signal::ChildAdded, subject: Some(c) };
    let entered = Notification { target: p, signal: Signal::DescendantAdded, subject: Some(c) };
    lemma_entering_first(targets, c, below);
    assert(entering_to(targets, entrants(s, c)) == first + later);
    assert(notes == seq![added] + (first + later));
    assert(notes.len() == 1 + first.len() + later.len());
    assert(first.len() == targets.len());
    assert(targets.len() == 1 + ancestors(s, p).len());
    assert forall|j: int| 1 <= j < 1 + first.len() implies notes[j] == first[j - 1] by {}
    assert forall|j: int| 1 + first.len() <= j < notes.len() implies notes[j] != added && notes[j]
        != entered by {
        let m = j - 1 - first.len();
        assert(notes[j] == later[m]);
        lemma_entering_members(targets, below, m);
        let d = later[m].subject.unwrap();
        let k = choose|k: int| 0 <= k < below.len() && below[k] == d;
        lemma_descendants_are_below(s, c, 0, k);
    }
    assert forall|j: int| 2 <= j < 1 + first.len() implies notes[j] != added && notes[j]
        != entered by {
        assert(notes[j] == first[j - 1]);
        assert(first[j - 1].target == targets[j - 1]);
        assert(targets[j - 1] == ancestors(s, p)[j - 2]);
        lemma_ancestors_are_above(s, p, j - 2);
    }
    assert(notes[0] == added);
    assert(notes[1] == first[0]);
    assert(first[0] == entered);
    assert forall|j: int| 0 <= j < notes.len() && notes[j] == added implies j == 0 by {
        if j == 1 {
            assert(notes[1].signal == Signal::DescendantAdded);
        }
    }
    assert forall|j: int| 0 <= j < notes.len() && notes[j] == entered implies j == 1 by {}
    assert(told_once(notes, added));
    assert(told_once(notes, entered));
    assert forall|a: InstanceId| is_ancestor(s, a, p) implies notes.contains(
        Notification { target: a, signal: Signal::DescendantAdded, subject: Some(c) },
    ) by {
        lemma_above_is_listed(s, a, p);
        let k = choose|k: int| 0 <= k < ancestors(s, p).len() && ancestors(s, p)[k] == a;
        assert(targets[k + 1] == a);
        assert(first[k + 1] == Notification {
            target: a,
            signal: Signal::DescendantAdded,
            subject: Some(c),
        });
        assert(notes[k + 2] == first[k + 1]);
    }
}

/// Attaching a node changes nothing above a node that is neither the
/// attached node nor below it.
pub proof fn lemma_attach_keeps_above(
    s: Seq<InstanceView>,
    p: InstanceId,
    c: InstanceId,
    a: InstanceId,
    n: InstanceId,
)
    requires
        wf(s),
        has(s, p),
        has(s, c),
        c != p,
        parent_of(s, c) is None,
        !is_ancestor(s, c, p),
        has(s, n),
        n != c,
        !is_ancestor(s, c, n),
    ensures
        is_ancestor(attached(s, p, c), a, n) == is_ancestor(s, a, n),
    decreases depth(s, n),
{
    lemma_rank_of(s);
    lemma_attached_wf(s, p, c);
    let t = attached(s, p, c);
    assert(has(t, n));
    assert(parent_of(t, n) == parent_of(s, n));
    match parent_of(s, n) {
        None => {},
        Some(q) => {
            lemma_attach_keeps_above(s, p, c, a, q);
        },
    }
}

/// What `set_parent(c, Some(p))` tells where it is carried out: child-added
/// and descendant-added about `c` go to `p` exactly once each, and
/// descendant-added about `c` goes to every node above `p`.
pub proof fn law_set_parent_cascade(s: Seq<InstanceView>, c: InstanceId, p: InstanceId)
    requires
        wf(s),
        can_set_parent_spec(s, c, Some(p)),
    ensures
        told_once(
            reparent_notifications(s, c, Some(p)),
            Notification { target: p, signal: Signal::ChildAdded, subject: Some(c) },
        ),
        told_once(
            reparent_notifications(s, c, Some(p)),
            Notification { target: p, signal: Signal::DescendantAdded, subject: Some(c) },
        ),
        forall|a: InstanceId|
            is_ancestor(s, a, p) ==> reparent_notifications(s, c, Some(p)).contains(
                Notification { target: a, signal: Signal::DescendantAdded, subject: Some(c) },
            ),
{
    let t = reparented(s, c, Some(p));
    assert(detached(s, c) == s);
    assert(t == attached(s, p, c));
    lemma_attached_wf(s, p, c);
    law_attach_cascade(t, p, c);
    let inner = attach_notifications(t, p, c);
    let changed = Notification { target: c, signal: Signal::ParentChanged, subject: Some(p) };
    let notes = reparent_notifications(s, c, Some(p));
    assert(notes =~= inner + seq![changed]);
    assert forall|x: Notification| x.signal != Signal::ParentChanged && told_once(inner, x)
        implies told_once(notes, x) by {
        let i = choose|i: int|
            0 <= i < inner.len() && inner[i] == x && forall|j: int|
                0 <= j < inner.len() && inner[j] == x ==> j == i;
        assert(notes[i] == x);
        assert forall|j: int| 0 <= j < notes.len() && notes[j] == x implies j == i by {
            if j < inner.len() {
                assert(notes[j] == inner[j]);
            }
        }
    }
    assert forall|a: InstanceId| is_ancestor(s, a, p) implies notes.contains(
        Notification { target: a, signal: Signal::DescendantAdded, subject: Some(c) },
    ) by {
        lemma_attach_keeps_above(s, p, c, a, p);
        let x = Notification { target: a, signal: Signal::DescendantAdded, subject: Some(c) };
        let k = choose|k: int| 0 <= k < inner.len() && inner[k] == x;
        assert(notes[k] == x);
    }
}

/// Taking a node out of its parent changes nothing above a node that is
/// neither the node taken out nor below it.
pub proof fn lemma_detach_keeps_above(
    s: Seq<InstanceView>,
    c: InstanceId,
    a: InstanceId,
    n: InstanceId,
)
    requires
        wf(s),
        has(s, c),
        has(s, n),
        n != c,
        !is_ancestor(s, c, n),
    ensures
        is_ancestor(detached(s, c), a, n) == is_ancestor(s, a, n),
    decreases depth(s, n),
{
    lemma_rank_of(s);
    lemma_detached_wf(s, c);
    let t = detached(s, c);
    assert(has(t, n));
    assert(parent_of(t, n) == parent_of(s, n));
    match parent_of(s, n) {
        None => {},
        Some(m) => {
            lemma_detach_keeps_above(s, c, a, m);
        },
    }
}

/// Whether `n` is the node `m` or a node above it.
pub open spec fn at_or_above(s: Seq<InstanceView>, n: InstanceId, m: Option<InstanceId>) -> bool {
    m matches Some(x) && has(s, x) && (n == x || is_ancestor(s, n, x))
}

/// Reparenting tells the node itself, its old parent, its new parent and the
/// nodes above these two, and nobody else: the listeners of every other node
/// are left as they were.
pub proof fn law_only_kin_told(
    s: Seq<InstanceView>,
    node: InstanceId,
    new_parent: Option<InstanceId>,
    n: InstanceId,
)
    requires
        wf(s),
        tells(reparent_notifications(s, node, new_parent), n),
    ensures
        n == node || at_or_above(s, n, parent_of(s, node)) || at_or_above(s, n, new_parent),
{
    lemma_rank_of(s);
    let notes = reparent_notifications(s, node, new_parent);
    let k = choose|k: int| 0 <= k < notes.len() && (#[trigger] notes[k]).target == n;
    let t = reparented(s, node, new_parent);
    law_reparenting_keeps_invariant(s, node, new_parent);
    match new_parent {
        Some(p) => {
            assert(detached(s, node) == s);
            assert(t == attached(s, p, node));
            let targets = upward(t, p);
            let inner = entering_to(targets, entrants(t, node));
            assert(notes =~= seq![
                Notification { target: p, signal: Signal::ChildAdded, subject: Some(node) },
            ] + inner + seq![
                Notification { target: node, signal: Signal::ParentChanged, subject: new_parent },
            ]);
            if 1 <= k < 1 + inner.len() {
                assert(notes[k] == inner[k - 1]);
                lemma_entering_members(targets, entrants(t, node), k - 1);
                let j = choose|j: int| 0 <= j < targets.len() && targets[j] == n;
                if j > 0 {
                    assert(targets[j] == ancestors(t, p)[j - 1]);
                    lemma_ancestors_are_above(t, p, j - 1);
                    lemma_attach_keeps_above(s, p, node, n, p);
                }
            }
        },
        None => {
            match parent_of(s, node) {
                None => {
                    assert(notes =~= seq![
                        Notification {
                            target: node,
                            signal: Signal::ParentChanged,
                            subject: new_parent,
                        },
                    ]);
                },
                Some(q) => {
                    assert(t == detached(s, node));
                    lemma_parent_differs(s, node);
                    assert(has(s, q));
                    let targets = upward(t, q);
                    let inner = told_to(targets, Signal::DescendantRemoved, node);
                    assert(notes =~= seq![
                        Notification { target: q, signal: Signal::ChildRemoved, subject: Some(node) },
                    ] + inner + seq![
                        Notification {
                            target: node,
                            signal: Signal::ParentChanged,
                            subject: new_parent,
                        },
                    ]);
                    if 1 <= k < 1 + inner.len() {
                        assert(notes[k] == inner[k - 1]);
                        assert(inner[k - 1].target == targets[k - 1]);
                        if k - 1 > 0 {
                            assert(targets[k - 1] == ancestors(t, q)[k - 2]);
                            lemma_ancestors_are_above(t, q, k - 2);
                            if is_ancestor(s, node, q) {
                                lemma_above_is_listed(s, node, q);
                                let j = choose|j: int|
                                    0 <= j < ancestors(s, q).len() && ancestors(s, q)[j] == node;
                                lemma_ancestors_are_above(s, q, j);
                            }
                            lemma_detach_keeps_above(s, node, n, q);
                        }
                    }
                },
            }
        },
    }
}

/// In the opening of a cascade every listener of the parent is called twice,
/// first with the first signal and at once with the second, and the listeners
/// are called in the order in which they were attached.
pub proof fn law_opening_order(
    target: InstanceId,
    count: nat,
    first: Signal,
    second: Signal,
    subject: InstanceId,
    listener: nat,
)
    requires
        listener < count,
    ensures
        opening_calls(target, count, first, second, subject).len() == 2 * count,
        opening_calls(target, count, first, second, subject)[(2 * listener) as int] == (Call {
            target,
            listener,
            signal: first,
            subject: Some(subject),
        }),
        opening_calls(target, count, first, second, subject)[(2 * listener + 1) as int] == (Call {
            target,
            listener,
            signal: second,
            subject: Some(subject),
        }),
        forall|i: int|
            0 <= i < 2 * count && (#[trigger] opening_calls(
                target,
                count,
                first,
                second,
                subject,
            )[i]).listener == listener ==> i == 2 * listener || i == 2 * listener + 1,
{
}

} // verus!
