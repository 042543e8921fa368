//! What a change of the hierarchy tells, to which node, in which order.

use crate::instance::Forest;
use crate::model::{
    ancestors, can_set_parent_spec, depth, descendants, descendants_from, detached, has,
    headroom, lemma_rank_of, parent_of, reparented, wf, InstanceId, InstanceView,
};
use vstd::prelude::*;

verus! {

/// The five things a listener can be told.
#[derive(Clone, Copy, PartialEq, Eq, Debug, Structural)]
pub enum Signal {
    ChildAdded,
    ChildRemoved,
    DescendantAdded,
    DescendantRemoved,
    ParentChanged,
}

/// One thing told to the listeners of one node.
#[derive(Clone, Copy, PartialEq, Eq, Debug, Structural)]
pub struct Notification {
    /// The node whose listeners are told.
    pub target: InstanceId,
    pub signal: Signal,
    /// The node that was added or removed; for `ParentChanged`, the new
    /// parent.
    pub subject: Option<InstanceId>,
}

/// `p` and then the nodes above it, nearest first.
pub open spec fn upward(s: Seq<InstanceView>, p: InstanceId) -> Seq<InstanceId> {
    seq![p] + ancestors(s, p)
}

/// `signal` about `subject`, told to each of `targets` in turn.
pub open spec fn told_to(targets: Seq<InstanceId>, signal: Signal, subject: InstanceId) -> Seq<
    Notification,
> {
    Seq::new(
        targets.len(),
        |i: int| Notification { target: targets[i], signal, subject: Some(subject) },
    )
}

/// Each of `entrants` in turn announced as a new descendant to each of
/// `targets`.
pub open spec fn entering_to(targets: Seq<InstanceId>, entrants: Seq<InstanceId>) -> Seq<
    Notification,
>
    decreases entrants.len(),
{
    if entrants.len() == 0 {
        Seq::empty()
    } else {
        entering_to(targets, entrants.drop_last()) + told_to(
            targets,
            Signal::DescendantAdded,
            entrants.last(),
        )
    }
}

/// The nodes that enter the subtrees above `c` when `c` is attached: `c`, then
/// everything below it.
pub open spec fn entrants(s: Seq<InstanceView>, c: InstanceId) -> Seq<InstanceId> {
    seq![c] + descendants(s, c)
}

/// What the attaching of `c` under `p` tells, over the forest in which `c` is
/// attached: child-added to `p`; then, for `c` and for each node below `c`,
/// descendant-added to `p` and to each node above `p`.
pub open spec fn attach_notifications(s: Seq<InstanceView>, p: InstanceId, c: InstanceId) -> Seq<
    Notification,
> {
    seq![Notification { target: p, signal: Signal::ChildAdded, subject: Some(c) }] + entering_to(
        upward(s, p),
        entrants(s, c),
    )
}

/// What the removal of `c` from `p` tells, over the forest in which `c` has
/// left: child-removed to `p`; then descendant-removed to `p` and to each node
/// above `p`, for `c` alone.
pub open spec fn detach_notifications(s: Seq<InstanceView>, p: InstanceId, c: InstanceId) -> Seq<
    Notification,
> {
    seq![Notification { target: p, signal: Signal::ChildRemoved, subject: Some(c) }] + told_to(
        upward(s, p),
        Signal::DescendantRemoved,
        c,
    )
}

/// What the removal part of `set_parent(node, ..)` tells.
pub open spec fn leaving_notifications(s: Seq<InstanceView>, node: InstanceId) -> Seq<
    Notification,
> {
    match parent_of(s, node) {
        Some(q) => detach_notifications(detached(s, node), q, node),
        None => Seq::empty(),
    }
}

/// What the attaching part of `set_parent(node, new_parent)` tells.
pub open spec fn arriving_notifications(
    s: Seq<InstanceView>,
    node: InstanceId,
    new_parent: Option<InstanceId>,
) -> Seq<Notification> {
    match new_parent {
        Some(p) => attach_notifications(reparented(s, node, new_parent), p, node),
        None => Seq::empty(),
    }
}

/// Everything that `set_parent(node, new_parent)` tells, in order: nothing
/// where the reparenting is refused; else the removal from the old parent, the
/// attaching to the new one, and parent-changed to `node` itself.
pub open spec fn reparent_notifications(
    s: Seq<InstanceView>,
    node: InstanceId,
    new_parent: Option<InstanceId>,
) -> Seq<Notification> {
    if !can_set_parent_spec(s, node, new_parent) {
        Seq::empty()
    } else {
        leaving_notifications(s, node) + arriving_notifications(s, node, new_parent)
            + seq![Notification { target: node, signal: Signal::ParentChanged, subject: new_parent }]
    }
}

/// Whether `notes` tells the listeners of `id` anything.
pub open spec fn tells(notes: Seq<Notification>, id: InstanceId) -> bool {
    exists|k: int| 0 <= k < notes.len() && (#[trigger] notes[k]).target == id
}

/// One call of one listener: which listener of which node was told what.
pub struct Call {
    /// The node that the listener is attached to.
    pub target: InstanceId,
    /// The position of the listener among the listeners of the node.
    pub listener: nat,
    pub signal: Signal,
    pub subject: Option<InstanceId>,
}

/// The calls by which each of the `count` listeners of `target` is told one
/// thing, in the order in which the listeners were attached.
pub open spec fn calls_to_all(
    target: InstanceId,
    count: nat,
    signal: Signal,
    subject: Option<InstanceId>,
) -> Seq<Call> {
    Seq::new(count, |i: int| Call { target, listener: i as nat, signal, subject })
}

/// The calls by which each of the `count` listeners of `target` is told two
/// things about `subject`, one listener hearing both before the next hears
/// either.
pub open spec fn opening_calls(
    target: InstanceId,
    count: nat,
    first: Signal,
    second: Signal,
    subject: InstanceId,
) -> Seq<Call> {
    Seq::new(
        2 * count,
        |i: int|
            Call {
                target,
                listener: (i / 2) as nat,
                signal: if i % 2 == 0 {
                    first
                } else {
                    second
                },
                subject: Some(subject),
            },
    )
}

/// The calls by which `notes` are told in turn, each to all listeners of its
/// target; `counts` says how many listeners each node has.
pub open spec fn calls_of(counts: Seq<nat>, notes: Seq<Notification>) -> Seq<Call>
    decreases notes.len(),
{
    if notes.len() == 0 {
        Seq::empty()
    } else {
        calls_of(counts, notes.drop_last()) + calls_to_all(
            notes.last().target,
            counts[notes.last().target.index as int],
            notes.last().signal,
            notes.last().subject,
        )
    }
}

/// The calls by which the notifications of a removal or of an attaching are
/// told: the first two, which go to the parent, as an opening; the others in
/// turn.
pub open spec fn cascade_calls(counts: Seq<nat>, notes: Seq<Notification>) -> Seq<Call> {
    if notes.len() < 2 {
        calls_of(counts, notes)
    } else {
        opening_calls(
            notes[0].target,
            counts[notes[0].target.index as int],
            notes[0].signal,
            notes[1].signal,
            notes[0].subject.unwrap(),
        ) + calls_of(counts, notes.skip(2))
    }
}

/// Every call that `set_parent(node, new_parent)` makes, in order.
pub open spec fn reparent_calls(
    s: Seq<InstanceView>,
    counts: Seq<nat>,
    node: InstanceId,
    new_parent: Option<InstanceId>,
) -> Seq<Call> {
    if !can_set_parent_spec(s, node, new_parent) {
        Seq::empty()
    } else {
        cascade_calls(counts, leaving_notifications(s, node)) + cascade_calls(
            counts,
            arriving_notifications(s, node, new_parent),
        ) + calls_to_all(node, counts[node.index as int], Signal::ParentChanged, new_parent)
    }
}

/// The services registered on a node after the registry on that node has
/// seen one notification: a child removed from the node drops the service that
/// has the child's name; nothing else changes anything.
pub open spec fn service_step(
    services: Map<Seq<char>, InstanceId>,
    s: Seq<InstanceView>,
    root: InstanceId,
    note: Notification,
) -> Map<Seq<char>, InstanceId> {
    if note.target == root && note.signal == Signal::ChildRemoved && note.subject is Some {
        services.remove(s[note.subject.unwrap().index as int].name)
    } else {
        services
    }
}

/// The services registered on `root` after the registry on it has seen
/// `notes` in turn.
pub open spec fn services_after(
    services: Map<Seq<char>, InstanceId>,
    s: Seq<InstanceView>,
    root: InstanceId,
    notes: Seq<Notification>,
) -> Map<Seq<char>, InstanceId>
    decreases notes.len(),
{
    if notes.len() == 0 {
        services
    } else {
        service_step(services_after(services, s, root, notes.drop_last()), s, root, notes.last())
    }
}

/// The services registered on each node after `notes` were told in the
/// forest `s`.
pub open spec fn services_told(
    tables: Seq<Map<Seq<char>, InstanceId>>,
    s: Seq<InstanceView>,
    notes: Seq<Notification>,
) -> Seq<Map<Seq<char>, InstanceId>> {
    Seq::new(
        tables.len(),
        |i: int| services_after(tables[i], s, InstanceId { index: i as usize }, notes),
    )
}

/// `p` and the nodes above it, nearest first.
pub fn upward_of(forest: &Forest, p: InstanceId) -> (chain: Vec<InstanceId>)
    requires
        forest.wf(),
        has(forest@, p),
    ensures
        chain@ == upward(forest@, p),
        forall|k: int| 0 <= k < chain@.len() ==> has(forest@, #[trigger] chain@[k]),
{
    let mut chain: Vec<InstanceId> = Vec::new();
    chain.push(p);
    let mut next = forest.node(p).parent();
    proof {
        lemma_rank_of(forest@);
        assert(next == parent_of(forest@, p));
    }
    while next.is_some()
        invariant
            forest.wf(),
            next matches Some(q) ==> has(forest@, q),
            upward(forest@, p) =~= chain@ + (match next {
                None => Seq::<InstanceId>::empty(),
                Some(q) => seq![q] + ancestors(forest@, q),
            }),
            forall|k: int| 0 <= k < chain@.len() ==> has(forest@, #[trigger] chain@[k]),
        decreases
                (match next {
                    None => 0,
                    Some(q) => depth(forest@, q) + 1,
                }),
    {
        let q = next.unwrap();
        chain.push(q);
        next = forest.node(q).parent();
        proof {
            lemma_rank_of(forest@);
            assert(next == parent_of(forest@, q));
        }
    }
    chain
}

/// Appends `signal` about `subject` for each of `targets` in turn.
pub fn tell_each(
    out: &mut Vec<Notification>,
    targets: &Vec<InstanceId>,
    signal: Signal,
    subject: InstanceId,
)
    ensures
        final(out)@ == old(out)@ + told_to(targets@, signal, subject),
{
    let n = targets.len();
    let mut i: usize = 0;
    while i < n
        invariant
            i <= n,
            n == targets@.len(),
            out@ =~= old(out)@ + told_to(targets@, signal, subject).take(i as int),
        decreases n - i,
    {
        out.push(Notification { target: targets[i], signal, subject: Some(subject) });
        i += 1;
    }
    assert(told_to(targets@, signal, subject).take(n as int) =~= told_to(
        targets@,
        signal,
        subject,
    ));
}

/// Appends every node below `n`, a parent before its children.
pub fn descendants_into(forest: &Forest, n: InstanceId, out: &mut Vec<InstanceId>)
    requires
        forest.wf(),
        has(forest@, n),
    ensures
        final(out)@ == old(out)@ + descendants(forest@, n),
        forall|k: int| 0 <= k < descendants(forest@, n).len() ==> has(
            forest@,
            #[trigger] descendants(forest@, n)[k],
        ),
    decreases headroom(forest@, n),
{
    let node = forest.node(n);
    let count = node.num_children();
    let mut i: usize = 0;
    while i < count
        invariant
            forest.wf(),
            has(forest@, n),
            node@ == forest@[n.index as int],
            count == node@.children.len(),
            i <= count,
            out@ + descendants_from(forest@, n, i as nat) =~= old(out)@ + descendants(forest@, n),
            old(out)@.len() <= out@.len(),
            forall|k: int| old(out)@.len() <= k < out@.len() ==> has(forest@, #[trigger] out@[k]),
        decreases count - i,
    {
        let c = node.children()[i];
        proof {
            lemma_rank_of(forest@);
            assert(c == crate::model::children_of(forest@, n)[i as int]);
            assert(has(forest@, c));
            assert(parent_of(forest@, c) == Some(n));
        }
        let ghost before = out@;
        out.push(c);
        descendants_into(forest, c, out);
        proof {
            assert(out@ =~= before + seq![c] + descendants(forest@, c));
            assert(descendants_from(forest@, n, i as nat) =~= seq![c] + descendants(forest@, c)
                + descendants_from(forest@, n, (i + 1) as nat));
        }
        i += 1;
    }
    proof {
        assert(descendants_from(forest@, n, count as nat) =~= Seq::<InstanceId>::empty());
        assert forall|k: int| 0 <= k < descendants(forest@, n).len() implies has(
            forest@,
            #[trigger] descendants(forest@, n)[k],
        ) by {
            assert(out@[old(out)@.len() + k] == descendants(forest@, n)[k]);
        }
    }
}

} // verus!
