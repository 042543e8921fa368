//! The mathematical model of the object hierarchy.
//!
//! A forest is a sequence of node records; a node is named by its position in
//! that sequence. Every contract of the hierarchy is stated over this model.

use vstd::prelude::*;

verus! {

/// The handle of a node: its position in the arena that owns it.
#[derive(Clone, Copy, PartialEq, Eq, Debug, Hash, Structural)]
pub struct InstanceId {
    pub index: usize,
}

/// What a node is, as a mathematical value.
pub struct InstanceView {
    /// The node this one is attached to, if any.
    pub parent: Option<InstanceId>,
    /// The attached nodes, in the order in which they were attached.
    pub children: Seq<InstanceId>,
    pub name: Seq<char>,
    /// The type tag that `is_a` compares against.
    pub class_name: Seq<char>,
    pub archivable: bool,
}

/// The name and the type tag that a fresh node carries.
pub open spec fn default_tag() -> Seq<char> {
    "Instance"@
}

/// The record of a fresh node: detached, childless, archivable.
pub open spec fn fresh_view() -> InstanceView {
    InstanceView {
        parent: None,
        children: Seq::empty(),
        name: default_tag(),
        class_name: default_tag(),
        archivable: true,
    }
}

/// Whether `id` names a node of the forest.
pub open spec fn has(s: Seq<InstanceView>, id: InstanceId) -> bool {
    id.index < s.len()
}

/// The node that `id` is attached to, if any.
pub open spec fn parent_of(s: Seq<InstanceView>, id: InstanceId) -> Option<InstanceId> {
    s[id.index as int].parent
}

/// The nodes attached to `id`, in the order in which they were attached.
pub open spec fn children_of(s: Seq<InstanceView>, id: InstanceId) -> Seq<InstanceId> {
    s[id.index as int].children
}

/// Every link of the forest names a node of the forest.
pub open spec fn links_in_range(s: Seq<InstanceView>) -> bool {
    &&& forall|n: InstanceId|
        has(s, n) ==> (#[trigger] parent_of(s, n) matches Some(p) ==> has(s, p))
    &&& forall|n: InstanceId, k: int|
        has(s, n) && 0 <= k < children_of(s, n).len() ==> has(
            s,
            #[trigger] children_of(s, n)[k],
        )
}

/// A parent's children are exactly the nodes whose back-reference is that
/// parent, and none of them is listed twice.
pub open spec fn links_agree(s: Seq<InstanceView>) -> bool {
    &&& forall|n: InstanceId, k: int|
        has(s, n) && 0 <= k < children_of(s, n).len() ==> parent_of(
            s,
            #[trigger] children_of(s, n)[k],
        ) == Some(n)
    &&& forall|n: InstanceId|
        has(s, n) ==> (#[trigger] parent_of(s, n) matches Some(p) ==> children_of(s, p).contains(n))
    &&& forall|n: InstanceId| has(s, n) ==> (#[trigger] children_of(s, n)).no_duplicates()
}

/// `rank` grows strictly from every parent to its children and stays under
/// `bound`.
pub open spec fn ranked(s: Seq<InstanceView>, rank: Seq<nat>, bound: nat) -> bool {
    &&& rank.len() == s.len()
    &&& forall|i: int| 0 <= i < s.len() ==> #[trigger] rank[i] < bound
    &&& forall|n: InstanceId|
        has(s, n) ==> (#[trigger] parent_of(s, n) matches Some(p) ==> has(s, p) && rank[p.index as int]
            < rank[n.index as int])
}

/// No node is its own ancestor: the nodes can be ranked.
pub open spec fn acyclic(s: Seq<InstanceView>) -> bool {
    exists|rank: Seq<nat>, bound: nat| ranked(s, rank, bound)
}

/// The invariant of the hierarchy.
pub open spec fn wf(s: Seq<InstanceView>) -> bool {
    &&& links_in_range(s)
    &&& links_agree(s)
    &&& acyclic(s)
}

/// Some ranking of an acyclic forest, and its bound.
pub open spec fn rank_of(s: Seq<InstanceView>) -> (Seq<nat>, nat) {
    choose|r: (Seq<nat>, nat)| ranked(s, r.0, r.1)
}

/// The ranking chosen for an acyclic forest is a ranking of it.
pub proof fn lemma_rank_of(s: Seq<InstanceView>)
    requires
        acyclic(s),
    ensures
        ranked(s, rank_of(s).0, rank_of(s).1),
{
    let (rank, bound) = choose|rank: Seq<nat>, bound: nat| ranked(s, rank, bound);
    assert(ranked(s, (rank, bound).0, (rank, bound).1));
}

/// The measure by which a walk towards the root ends.
pub open spec fn depth(s: Seq<InstanceView>, n: InstanceId) -> nat {
    rank_of(s).0[n.index as int]
}

/// The measure by which a walk into a subtree ends.
pub open spec fn headroom(s: Seq<InstanceView>, n: InstanceId) -> nat {
    (rank_of(s).1 - rank_of(s).0[n.index as int]) as nat
}

/// Whether `a` is met on the walk from `b` towards the root, `b` itself not
/// counted.
pub open spec fn is_ancestor(s: Seq<InstanceView>, a: InstanceId, b: InstanceId) -> bool
    decreases depth(s, b),
    when acyclic(s) && has(s, b)
    via is_ancestor_ends
{
    match parent_of(s, b) {
        None => false,
        Some(p) => p == a || is_ancestor(s, a, p),
    }
}

#[via_fn]
proof fn is_ancestor_ends(s: Seq<InstanceView>, a: InstanceId, b: InstanceId) {
    lemma_rank_of(s);
}

/// The nodes met on the walk from `n` towards the root, nearest first, `n`
/// itself not counted.
pub open spec fn ancestors(s: Seq<InstanceView>, n: InstanceId) -> Seq<InstanceId>
    decreases depth(s, n),
    when acyclic(s) && has(s, n)
    via ancestors_ends
{
    match parent_of(s, n) {
        None => Seq::empty(),
        Some(p) => seq![p] + ancestors(s, p),
    }
}

#[via_fn]
proof fn ancestors_ends(s: Seq<InstanceView>, n: InstanceId) {
    lemma_rank_of(s);
}

/// The nodes below the children of `n` from position `i` on, each child
/// followed by what is below it.
pub open spec fn descendants_from(s: Seq<InstanceView>, n: InstanceId, i: nat) -> Seq<InstanceId>
    decreases headroom(s, n), children_of(s, n).len() - i,
    when wf(s) && has(s, n)
    via descendants_from_ends
{
    if i >= children_of(s, n).len() {
        Seq::empty()
    } else {
        let c = children_of(s, n)[i as int];
        seq![c] + descendants_from(s, c, 0) + descendants_from(s, n, i + 1)
    }
}

#[via_fn]
proof fn descendants_from_ends(s: Seq<InstanceView>, n: InstanceId, i: nat) {
    lemma_rank_of(s);
    if i < children_of(s, n).len() {
        let c = children_of(s, n)[i as int];
        assert(parent_of(s, c) == Some(n));
        assert(has(s, c));
    }
}

/// Every node below `n`, a parent before its children, siblings in the order
/// in which they were attached.
pub open spec fn descendants(s: Seq<InstanceView>, n: InstanceId) -> Seq<InstanceId> {
    descendants_from(s, n, 0)
}

/// Whether the low-level attach accepts `child` under `parent`: they are two
/// nodes, `parent` is not below `child`, and `child` is detached.
pub open spec fn can_add_child_spec(
    s: Seq<InstanceView>,
    parent: InstanceId,
    child: InstanceId,
) -> bool {
    &&& has(s, parent)
    &&& has(s, child)
    &&& child != parent
    &&& !is_ancestor(s, child, parent)
    &&& parent_of(s, child) is None
}

/// Whether the reparenting of `node` to `new_parent` is carried out.
pub open spec fn can_set_parent_spec(
    s: Seq<InstanceView>,
    node: InstanceId,
    new_parent: Option<InstanceId>,
) -> bool {
    &&& has(s, node)
    &&& match new_parent {
        None => true,
        Some(p) => has(s, p) && !is_ancestor(s, node, p) && can_add_child_spec(s, p, node),
    }
}

/// The record `v` with another back-reference.
pub open spec fn with_parent(v: InstanceView, parent: Option<InstanceId>) -> InstanceView {
    InstanceView { parent, ..v }
}

/// The record `v` with other children.
pub open spec fn with_children(v: InstanceView, children: Seq<InstanceId>) -> InstanceView {
    InstanceView { children, ..v }
}

/// The forest in which `c` has left its parent, if it had one.
pub open spec fn detached(s: Seq<InstanceView>, c: InstanceId) -> Seq<InstanceView> {
    match parent_of(s, c) {
        None => s,
        Some(p) => s.update(
            p.index as int,
            with_children(s[p.index as int], children_of(s, p).remove_value(c)),
        ).update(c.index as int, with_parent(s[c.index as int], None)),
    }
}

/// The forest in which `c` has become the last child of `p`.
pub open spec fn attached(s: Seq<InstanceView>, p: InstanceId, c: InstanceId) -> Seq<
    InstanceView,
> {
    s.update(p.index as int, with_children(s[p.index as int], children_of(s, p).push(c))).update(
        c.index as int,
        with_parent(s[c.index as int], Some(p)),
    )
}

/// The forest after `set_parent(node, new_parent)`: unchanged where the
/// reparenting is refused.
pub open spec fn reparented(
    s: Seq<InstanceView>,
    node: InstanceId,
    new_parent: Option<InstanceId>,
) -> Seq<InstanceView> {
    if !can_set_parent_spec(s, node, new_parent) {
        s
    } else {
        match new_parent {
            None => detached(s, node),
            Some(p) => attached(detached(s, node), p, node),
        }
    }
}

/// The record of a copy of `v`: its name, tag and flag, no links.
pub open spec fn copy_view(v: InstanceView) -> InstanceView {
    InstanceView { parent: None, children: Seq::empty(), ..v }
}

/// The first of `kids`, from position `i` on, that is named `name`.
pub open spec fn first_named_from(
    s: Seq<InstanceView>,
    kids: Seq<InstanceId>,
    i: nat,
    name: Seq<char>,
) -> Option<InstanceId>
    decreases kids.len() - i,
{
    if i >= kids.len() {
        None
    } else if s[kids[i as int].index as int].name == name {
        Some(kids[i as int])
    } else {
        first_named_from(s, kids, i + 1, name)
    }
}

/// The first of `kids`, from position `i` on, whose type tag is `tag`.
pub open spec fn first_of_class_from(
    s: Seq<InstanceView>,
    kids: Seq<InstanceId>,
    i: nat,
    tag: Seq<char>,
) -> Option<InstanceId>
    decreases kids.len() - i,
{
    if i >= kids.len() {
        None
    } else if s[kids[i as int].index as int].class_name == tag {
        Some(kids[i as int])
    } else {
        first_of_class_from(s, kids, i + 1, tag)
    }
}

/// The first child of `parent`, in the order of attachment, that is named
/// `name`.
pub open spec fn first_child_named(
    s: Seq<InstanceView>,
    parent: InstanceId,
    name: Seq<char>,
) -> Option<InstanceId> {
    first_named_from(s, children_of(s, parent), 0, name)
}

/// The first child of `parent`, in the order of attachment, whose type tag is
/// `tag`.
pub open spec fn first_child_of_class(
    s: Seq<InstanceView>,
    parent: InstanceId,
    tag: Seq<char>,
) -> Option<InstanceId> {
    first_of_class_from(s, children_of(s, parent), 0, tag)
}

/// Whether `a` is a node above the node `b`.
pub open spec fn is_above(s: Seq<InstanceView>, a: InstanceId, b: InstanceId) -> bool {
    has(s, b) && is_ancestor(s, a, b)
}

/// Two records with the same parent and the same children.
pub open spec fn same_links(a: InstanceView, b: InstanceView) -> bool {
    a.parent == b.parent && a.children == b.children
}

} // verus!
