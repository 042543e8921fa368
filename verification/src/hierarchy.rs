//! The hierarchy: an arena of nodes together with the listeners attached to
//! them and the services registered on them, and the reparenting protocol
//! that is the only way to move a node.
//!
//! Nodes are never released: see `instance`. The registry of a data model is
//! the table of services on its root node; the protocol itself drops from it
//! the service of a child that leaves the root.
//!
//! The listeners of a node are an ordered list, `Hierarchy::listeners`. A
//! listener is attached behind the others and keeps its position; what calls
//! no listener leaves the lists as they are, and the protocol leaves the
//! listeners of every node that it tells nothing as they are. Of a listener
//! that is told something only its position is known afterwards: the
//! methods of `InstanceListener` may change it as they like.

use crate::events::{
    arriving_notifications, attach_notifications, calls_of, calls_to_all, cascade_calls,
    descendants_into, detach_notifications, entering_to, entrants, leaving_notifications,
    opening_calls, reparent_calls, reparent_notifications, services_told, tell_each, tells,
    told_to, upward, upward_of, Call, Notification, Signal,
};
use crate::instance::{Forest, Instance};
use crate::model::{
    attached, can_add_child_spec, can_set_parent_spec, children_of, copy_view, depth, descendants,
    detached, first_child_named, first_child_of_class, first_named_from, first_of_class_from,
    fresh_view, has, is_above, is_ancestor, lemma_rank_of, parent_of, reparented, same_links,
    InstanceId, InstanceView,
};
use crate::event_lemmas::lemma_entering_first;
use crate::model_lemmas::{lemma_attached_wf, lemma_detached_wf};
use crate::registry_laws::{lemma_services_reparented, services_reparented};
use crate::text::same_text;
use vstd::hash_map::StringHashMap;
use vstd::prelude::*;

verus! {

/// What can be attached to a node to be told of changes around it. Every
/// method does nothing unless an implementor says otherwise. The forest is
/// shown as it is once the change has been made; a listener cannot change it.
pub trait InstanceListener {
    fn on_child_added(&mut self, forest: &Forest, child: InstanceId)
        requires
            forest.wf(),
            has(forest@, child),
    {
    }

    fn on_child_removed(&mut self, forest: &Forest, child: InstanceId)
        requires
            forest.wf(),
            has(forest@, child),
    {
    }

    fn on_descendant_added(&mut self, forest: &Forest, descendant: InstanceId)
        requires
            forest.wf(),
            has(forest@, descendant),
    {
    }

    fn on_descendant_removed(&mut self, forest: &Forest, descendant: InstanceId)
        requires
            forest.wf(),
            has(forest@, descendant),
    {
    }

    fn on_parent_changed(&mut self, forest: &Forest, new_parent: Option<InstanceId>)
        requires
            forest.wf(),
            new_parent matches Some(p) ==> has(forest@, p),
    {
    }
}

/// One attached listener.
pub struct ListenerSlot {
    inner: Box<dyn InstanceListener>,
}

impl ListenerSlot {
    /// The slot that holds `listener` as it was handed over, before it has
    /// heard anything.
    ///
    /// Verus takes a boxed listener that is passed to a parameter as
    /// converted to the parameter's type, also where it has that type
    /// already, and does not know the conversion to change nothing. A caller
    /// that wants to name the slot it attached therefore binds the listener
    /// first, `let ghost given: Box<dyn InstanceListener> = listener;`, and
    /// speaks of `holding(given)`.
    pub closed spec fn holding(listener: Box<dyn InstanceListener>) -> ListenerSlot {
        ListenerSlot { inner: listener }
    }

    /// The slot that holds `listener`.
    fn new(listener: Box<dyn InstanceListener>) -> (slot: ListenerSlot)
        ensures
            slot == (ListenerSlot { inner: listener }),
    {
        ListenerSlot { inner: listener }
    }

    /// Tells the listener one thing and writes the call down. This is the
    /// only place where a listener is called and the only place where the
    /// journal grows.
    fn tell(
        &mut self,
        forest: &Forest,
        signal: Signal,
        subject: Option<InstanceId>,
        Ghost(target): Ghost<InstanceId>,
        Ghost(index): Ghost<nat>,
        journal: &mut Ghost<Seq<Call>>,
    )
        requires
            forest.wf(),
            subject matches Some(n) ==> has(forest@, n),
            signal != Signal::ParentChanged ==> subject is Some,
        ensures
            final(journal)@ == old(journal)@.push(Call { target, listener: index, signal, subject }),
    {
        proof {
            journal@ = journal@.push(Call { target, listener: index, signal, subject });
        }
        match signal {
            Signal::ChildAdded => self.inner.on_child_added(forest, subject.unwrap()),
            Signal::ChildRemoved => self.inner.on_child_removed(forest, subject.unwrap()),
            Signal::DescendantAdded => self.inner.on_descendant_added(forest, subject.unwrap()),
            Signal::DescendantRemoved => self.inner.on_descendant_removed(
                forest,
                subject.unwrap(),
            ),
            Signal::ParentChanged => self.inner.on_parent_changed(forest, subject),
        }
    }
}

/// Tells each of `slots`, the listeners of `target`, one thing, in order.
fn tell_all(
    slots: &mut Vec<ListenerSlot>,
    forest: &Forest,
    signal: Signal,
    subject: Option<InstanceId>,
    Ghost(target): Ghost<InstanceId>,
    journal: &mut Ghost<Seq<Call>>,
)
    requires
        forest.wf(),
        subject matches Some(n) ==> has(forest@, n),
        signal != Signal::ParentChanged ==> subject is Some,
    ensures
        final(slots)@.len() == old(slots)@.len(),
        final(journal)@ == old(journal)@ + calls_to_all(
            target,
            old(slots)@.len(),
            signal,
            subject,
        ),
{
    let n = slots.len();
    let mut i: usize = 0;
    while i < n
        invariant
            i <= n,
            slots@.len() == n,
            n == old(slots)@.len(),
            forest.wf(),
            subject matches Some(n) ==> has(forest@, n),
            signal != Signal::ParentChanged ==> subject is Some,
            journal@ =~= old(journal)@ + calls_to_all(target, n as nat, signal, subject).take(
                i as int,
            ),
        decreases n - i,
    {
        slots[i].tell(forest, signal, subject, Ghost(target), Ghost(i as nat), journal);
        i += 1;
    }
    assert(calls_to_all(target, n as nat, signal, subject).take(n as int) =~= calls_to_all(
        target,
        n as nat,
        signal,
        subject,
    ));
}

/// Tells each of `slots`, the listeners of `target`, two things about one
/// node, both to one listener before the next listener is told.
fn tell_all_twice(
    slots: &mut Vec<ListenerSlot>,
    forest: &Forest,
    first: Signal,
    second: Signal,
    subject: InstanceId,
    Ghost(target): Ghost<InstanceId>,
    journal: &mut Ghost<Seq<Call>>,
)
    requires
        forest.wf(),
        has(forest@, subject),
        first != Signal::ParentChanged,
        second != Signal::ParentChanged,
    ensures
        final(slots)@.len() == old(slots)@.len(),
        final(journal)@ == old(journal)@ + opening_calls(
            target,
            old(slots)@.len(),
            first,
            second,
            subject,
        ),
{
    let n = slots.len();
    let mut i: usize = 0;
    while i < n
        invariant
            i <= n,
            slots@.len() == n,
            n == old(slots)@.len(),
            forest.wf(),
            has(forest@, subject),
            journal@ =~= old(journal)@ + opening_calls(
                target,
                n as nat,
                first,
                second,
                subject,
            ).take(2 * i),
        decreases n - i,
    {
        slots[i].tell(forest, first, Some(subject), Ghost(target), Ghost(i as nat), journal);
        slots[i].tell(forest, second, Some(subject), Ghost(target), Ghost(i as nat), journal);
        i += 1;
    }
    assert(opening_calls(target, n as nat, first, second, subject).take(2 * n) =~= opening_calls(
        target,
        n as nat,
        first,
        second,
        subject,
    ));
}

/// Whether a notification names nodes of the forest only, and a subject
/// wherever its signal speaks of one.
pub open spec fn deliverable(s: Seq<InstanceView>, note: Notification) -> bool {
    &&& has(s, note.target)
    &&& note.subject matches Some(n) ==> has(s, n)
    &&& note.signal != Signal::ParentChanged ==> note.subject is Some
}

/// From `before` to `after` every node kept the number of its listeners, and
/// the listeners of a node that `notes` tells nothing stayed as they were.
pub open spec fn only_told_changed(
    before: Seq<Seq<ListenerSlot>>,
    after: Seq<Seq<ListenerSlot>>,
    notes: Seq<Notification>,
) -> bool {
    &&& after.len() == before.len()
    &&& forall|i: int| 0 <= i < before.len() ==> (#[trigger] after[i]).len() == before[i].len()
    &&& forall|n: InstanceId|
        n.index < before.len() && !tells(notes, n) ==> #[trigger] after[n.index as int]
            == before[n.index as int]
}

/// What held while `fewer` was told holds of `more`, if `more` tells every
/// node that `fewer` tells.
proof fn lemma_only_told_more(
    before: Seq<Seq<ListenerSlot>>,
    after: Seq<Seq<ListenerSlot>>,
    fewer: Seq<Notification>,
    more: Seq<Notification>,
)
    requires
        only_told_changed(before, after, fewer),
        forall|k: int| 0 <= k < fewer.len() ==> tells(more, (#[trigger] fewer[k]).target),
    ensures
        only_told_changed(before, after, more),
{
    assert forall|n: InstanceId| n.index < before.len() && !tells(more, n) implies #[trigger] after[n.index as int]
        == before[n.index as int] by {
        if tells(fewer, n) {
            let k = choose|k: int| 0 <= k < fewer.len() && (#[trigger] fewer[k]).target == n;
            assert(tells(more, fewer[k].target));
        }
    }
}

/// What held from `before` to `between` and from `between` to `after` holds
/// from `before` to `after`.
proof fn lemma_only_told_through(
    before: Seq<Seq<ListenerSlot>>,
    between: Seq<Seq<ListenerSlot>>,
    after: Seq<Seq<ListenerSlot>>,
    notes: Seq<Notification>,
)
    requires
        only_told_changed(before, between, notes),
        only_told_changed(between, after, notes),
    ensures
        only_told_changed(before, after, notes),
{
    assert forall|i: int| 0 <= i < before.len() implies (#[trigger] after[i]).len()
        == before[i].len() by {
        assert(between[i].len() == before[i].len());
    }
    assert forall|n: InstanceId| n.index < before.len() && !tells(notes, n) implies #[trigger] after[n.index as int]
        == before[n.index as int] by {
        assert(between[n.index as int] == before[n.index as int]);
    }
}

/// The arena of nodes with the listeners attached to each node.
pub struct Hierarchy {
    forest: Forest,
    listeners: Vec<Vec<ListenerSlot>>,
    /// The services registered on each node, by name. The registry of a
    /// data model is the table on its root.
    services: Vec<StringHashMap<InstanceId>>,
    /// Every call of a listener ever made, in order.
    journal: Ghost<Seq<Call>>,
}

impl View for Hierarchy {
    type V = Seq<InstanceView>;

    closed spec fn view(&self) -> Seq<InstanceView> {
        self.forest@
    }
}

impl Hierarchy {
    /// The invariant of the hierarchy holds, and every node has its list of
    /// listeners.
    pub closed spec fn wf(&self) -> bool {
        &&& self.forest.wf()
        &&& self.listeners@.len() == self.forest@.len()
        &&& self.services@.len() == self.forest@.len()
    }

    /// The listeners attached to each node, in the order in which they were
    /// attached. A listener that is told something may change; it keeps its
    /// position.
    pub closed spec fn listeners(&self) -> Seq<Seq<ListenerSlot>> {
        Seq::new(self.listeners@.len(), |i: int| self.listeners@[i]@)
    }

    /// How many listeners are attached to each node.
    pub open spec fn listener_counts(&self) -> Seq<nat> {
        Seq::new(self.listeners().len(), |i: int| self.listeners()[i].len())
    }

    /// Every call of a listener that this hierarchy ever made, in order.
    ///
    /// The journal is a ghost record. Each entry is written in
    /// `ListenerSlot::tell`, beside the call that it records, and what is
    /// proved of the journal is proved of the record. The methods of
    /// `InstanceListener` promise nothing that a contract could use, so no
    /// clause says that the call itself was made: that the record and the
    /// calls agree rests on that one function, and on running the hierarchy
    /// with a listener that writes down what it hears.
    pub closed spec fn journal(&self) -> Seq<Call> {
        self.journal@
    }

    /// The services registered on each node: name to node.
    pub closed spec fn services(&self) -> Seq<Map<Seq<char>, InstanceId>> {
        Seq::new(self.services@.len(), |i: int| self.services@[i]@)
    }

    /// A well-formed hierarchy holds a well-formed forest and counts the
    /// listeners of each of its nodes.
    pub proof fn lemma_wf(&self)
        requires
            self.wf(),
        ensures
            crate::model::wf(self@),
            self.listener_counts().len() == self@.len(),
            self.services().len() == self@.len(),
    {
    }

    pub fn new() -> (tree: Hierarchy)
        ensures
            tree.wf(),
            tree@ == Seq::<InstanceView>::empty(),
            tree.listeners() == Seq::<Seq<ListenerSlot>>::empty(),
            tree.listener_counts() == Seq::<nat>::empty(),
            tree.journal() == Seq::<Call>::empty(),
            tree.services() == Seq::<Map<Seq<char>, InstanceId>>::empty(),
    {
        let tree = Hierarchy {
            forest: Forest::new(),
            listeners: Vec::new(),
            services: Vec::new(),
            journal: Ghost(Seq::empty()),
        };
        assert(tree.services() =~= Seq::<Map<Seq<char>, InstanceId>>::empty());
        assert(tree.listeners() =~= Seq::<Seq<ListenerSlot>>::empty());
        assert(tree.listener_counts() =~= Seq::<nat>::empty());
        tree
    }

    /// The nodes alone, as listeners are shown them.
    pub fn forest(&self) -> (forest: &Forest)
        ensures
            forest@ == self@,
            self.wf() ==> forest.wf(),
    {
        &self.forest
    }

    pub fn len(&self) -> (count: usize)
        ensures
            count == self@.len(),
    {
        self.forest.len()
    }

    /// Whether `id` names a node of this hierarchy.
    pub fn contains(&self, id: InstanceId) -> (known: bool)
        ensures
            known == has(self@, id),
    {
        self.forest.contains(id)
    }

    pub fn node(&self, id: InstanceId) -> (node: &Instance)
        requires
            has(self@, id),
        ensures
            node@ == self@[id.index as int],
    {
        self.forest.node(id)
    }

    /// The node `id`, to rename it or to set its tag or flag.
    pub fn node_mut(&mut self, id: InstanceId) -> (node: &mut Instance)
        requires
            has(old(self)@, id),
        ensures
            node@ == old(self)@[id.index as int],
            final(self)@ == old(self)@.update(id.index as int, final(node)@),
            final(self).listeners() == old(self).listeners(),
            final(self).listener_counts() == old(self).listener_counts(),
            final(self).journal() == old(self).journal(),
            final(self).services() == old(self).services(),
            old(self).wf() && same_links(old(self)@[id.index as int], final(node)@)
                ==> final(self).wf(),
    {
        self.forest.node_mut(id)
    }

    /// How many listeners are attached to `id`.
    pub fn listener_count(&self, id: InstanceId) -> (count: usize)
        requires
            self.wf(),
            has(self@, id),
        ensures
            count == self.listener_counts()[id.index as int],
    {
        self.listeners[id.index].len()
    }

    /// The node registered on `holder` under `name`, if any.
    pub fn service(&self, holder: InstanceId, name: &str) -> (found: Option<InstanceId>)
        requires
            self.wf(),
        ensures
            found == (if has(self@, holder) && self.services()[holder.index as int].contains_key(
                name@,
            ) {
                Some(self.services()[holder.index as int][name@])
            } else {
                None
            }),
    {
        if !self.forest.contains(holder) {
            return None;
        }
        match self.services[holder.index].get(name) {
            Some(node) => Some(*node),
            None => None,
        }
    }

    /// Registers `node` on `holder` under `name`, in place of what stood
    /// there; a holder that is no node of the hierarchy holds nothing.
    pub fn set_service(&mut self, holder: InstanceId, name: &str, node: InstanceId)
        requires
            old(self).wf(),
        ensures
            final(self).wf(),
            final(self)@ == old(self)@,
            final(self).listeners() == old(self).listeners(),
            final(self).listener_counts() == old(self).listener_counts(),
            final(self).journal() == old(self).journal(),
            final(self).services() == (if has(old(self)@, holder) {
                old(self).services().update(
                    holder.index as int,
                    old(self).services()[holder.index as int].insert(name@, node),
                )
            } else {
                old(self).services()
            }),
    {
        if self.forest.contains(holder) {
            let ghost tables = self.services@;
            self.services[holder.index].insert(name.to_owned(), node);
            assert(self.services@ == tables.update(holder.index as int, self.services@[holder.index as int]));
            assert(self.services() =~= old(self).services().update(
                holder.index as int,
                old(self).services()[holder.index as int].insert(name@, node),
            ));
        }
    }

    /// Tells every listener of the target, in the order in which they were
    /// attached.
    fn deliver(&mut self, note: Notification)
        requires
            old(self).wf(),
            deliverable(old(self)@, note),
        ensures
            final(self).wf(),
            final(self)@ == old(self)@,
            final(self).listener_counts() == old(self).listener_counts(),
            final(self).journal() == old(self).journal() + calls_to_all(
                note.target,
                old(self).listener_counts()[note.target.index as int],
                note.signal,
                note.subject,
            ),
            final(self).services() == old(self).services(),
            only_told_changed(old(self).listeners(), final(self).listeners(), seq![note]),
    {
        let ghost before = self.listeners@;
        tell_all(
            &mut self.listeners[note.target.index],
            &self.forest,
            note.signal,
            note.subject,
            Ghost(note.target),
            &mut self.journal,
        );
        assert(self.listeners@ == before.update(note.target.index as int, self.listeners@[note.target.index as int]));
        assert(self.listener_counts() =~= old(self).listener_counts());
        assert(seq![note][0].target == note.target);
    }

    /// Tells every listener of `target` the two things that open a cascade,
    /// both to one listener before the next listener is told.
    fn deliver_opening(&mut self, target: InstanceId, first: Signal, second: Signal, subject: InstanceId)
        requires
            old(self).wf(),
            has(old(self)@, target),
            has(old(self)@, subject),
            first != Signal::ParentChanged,
            second != Signal::ParentChanged,
        ensures
            final(self).wf(),
            final(self)@ == old(self)@,
            final(self).listener_counts() == old(self).listener_counts(),
            final(self).journal() == old(self).journal() + opening_calls(
                target,
                old(self).listener_counts()[target.index as int],
                first,
                second,
                subject,
            ),
            final(self).services() == old(self).services(),
            only_told_changed(
                old(self).listeners(),
                final(self).listeners(),
                seq![Notification { target, signal: first, subject: Some(subject) }],
            ),
    {
        let ghost before = self.listeners@;
        tell_all_twice(
            &mut self.listeners[target.index],
            &self.forest,
            first,
            second,
            subject,
            Ghost(target),
            &mut self.journal,
        );
        assert(self.listeners@ == before.update(target.index as int, self.listeners@[target.index as int]));
        assert(self.listener_counts() =~= old(self).listener_counts());
        assert(seq![Notification { target, signal: first, subject: Some(subject) }][0].target
            == target);
    }

    /// Tells each notification from position `start` on, in turn.
    fn deliver_from(&mut self, notes: &Vec<Notification>, start: usize)
        requires
            old(self).wf(),
            start <= notes@.len(),
            forall|k: int| 0 <= k < notes@.len() ==> deliverable(old(self)@, #[trigger] notes@[k]),
        ensures
            final(self).wf(),
            final(self)@ == old(self)@,
            final(self).listener_counts() == old(self).listener_counts(),
            final(self).journal() == old(self).journal() + calls_of(
                old(self).listener_counts(),
                notes@.skip(start as int),
            ),
            final(self).services() == old(self).services(),
            only_told_changed(
                old(self).listeners(),
                final(self).listeners(),
                notes@.skip(start as int),
            ),
    {
        let n = notes.len();
        let mut i: usize = start;
        assert(notes@.subrange(start as int, start as int) =~= Seq::<Notification>::empty());
        while i < n
            invariant
                start <= i <= n,
                n == notes@.len(),
                self.wf(),
                self@ == old(self)@,
                self.listener_counts() == old(self).listener_counts(),
                self.services() == old(self).services(),
                forall|k: int| 0 <= k < notes@.len() ==> deliverable(self@, #[trigger] notes@[k]),
                self.journal() == old(self).journal() + calls_of(
                    old(self).listener_counts(),
                    notes@.subrange(start as int, i as int),
                ),
                only_told_changed(
                    old(self).listeners(),
                    self.listeners(),
                    notes@.subrange(start as int, i as int),
                ),
            decreases n - i,
        {
            proof {
                let next = notes@.subrange(start as int, i as int + 1);
                assert(next.drop_last() =~= notes@.subrange(start as int, i as int));
                assert(next.last() == notes@[i as int]);
            }
            let ghost between = self.listeners();
            self.deliver(notes[i]);
            proof {
                let so_far = notes@.subrange(start as int, i as int);
                let next = notes@.subrange(start as int, i as int + 1);
                assert forall|k: int| 0 <= k < so_far.len() implies tells(
                    next,
                    (#[trigger] so_far[k]).target,
                ) by {
                    assert(next[k].target == so_far[k].target);
                }
                assert(tells(next, seq![notes@[i as int]][0].target)) by {
                    assert(next[i - start].target == notes@[i as int].target);
                }
                lemma_only_told_more(old(self).listeners(), between, so_far, next);
                lemma_only_told_more(between, self.listeners(), seq![notes@[i as int]], next);
                lemma_only_told_through(old(self).listeners(), between, self.listeners(), next);
            }
            assert(self.journal() =~= old(self).journal() + calls_of(
                old(self).listener_counts(),
                notes@.subrange(start as int, i as int + 1),
            ));
            i += 1;
        }
        assert(notes@.subrange(start as int, n as int) =~= notes@.skip(start as int));
    }
}

impl Instance {
    /// Creates a node: detached, childless, named and tagged "Instance",
    /// archivable, with no listener.
    pub fn new(tree: &mut Hierarchy) -> (id: InstanceId)
        requires
            old(tree).wf(),
        ensures
            final(tree).wf(),
            id.index == old(tree)@.len(),
            final(tree)@ == old(tree)@.push(fresh_view()),
            final(tree).listeners() == old(tree).listeners().push(Seq::empty()),
            final(tree).listener_counts() == old(tree).listener_counts().push(0),
            final(tree).journal() == old(tree).journal(),
            final(tree).services() == old(tree).services().push(Map::empty()),
    {
        let id = tree.forest.push_fresh();
        tree.listeners.push(Vec::new());
        tree.services.push(StringHashMap::new());
        assert(tree.listeners() =~= old(tree).listeners().push(Seq::empty()));
        assert(tree.listener_counts() =~= old(tree).listener_counts().push(0));
        assert(tree.services() =~= old(tree).services().push(Map::empty()));
        id
    }

    /// Creates a detached node with the name, tag and flag of `source`; its
    /// children and its listeners are not copied.
    pub fn clone(tree: &mut Hierarchy, source: InstanceId) -> (id: InstanceId)
        requires
            old(tree).wf(),
            has(old(tree)@, source),
        ensures
            final(tree).wf(),
            id.index == old(tree)@.len(),
            final(tree)@ == old(tree)@.push(copy_view(old(tree)@[source.index as int])),
            final(tree).listeners() == old(tree).listeners().push(Seq::empty()),
            final(tree).listener_counts() == old(tree).listener_counts().push(0),
            final(tree).journal() == old(tree).journal(),
            final(tree).services() == old(tree).services().push(Map::empty()),
    {
        let id = tree.forest.push_copy(source);
        tree.listeners.push(Vec::new());
        tree.services.push(StringHashMap::new());
        assert(tree.listeners() =~= old(tree).listeners().push(Seq::empty()));
        assert(tree.listener_counts() =~= old(tree).listener_counts().push(0));
        assert(tree.services() =~= old(tree).services().push(Map::empty()));
        id
    }

    /// Attaches `listener` to `id`, behind the listeners already there: it
    /// stands at the position that was the count of the listeners of `id`, and
    /// under that position the journal names it. Every other listener stays
    /// where and as it was.
    pub fn add_listener(tree: &mut Hierarchy, id: InstanceId, listener: Box<dyn InstanceListener>)
        requires
            old(tree).wf(),
            has(old(tree)@, id),
        ensures
            final(tree).wf(),
            final(tree)@ == old(tree)@,
            final(tree).listeners() == old(tree).listeners().update(
                id.index as int,
                old(tree).listeners()[id.index as int].push(ListenerSlot::holding(listener)),
            ),
            final(tree).listener_counts() == old(tree).listener_counts().update(
                id.index as int,
                old(tree).listener_counts()[id.index as int] + 1,
            ),
            final(tree).journal() == old(tree).journal(),
            final(tree).services() == old(tree).services(),
    {
        let slot = ListenerSlot::new(listener);
        let ghost before = tree.listeners@;
        tree.listeners[id.index].push(slot);
        assert(tree.listeners@ == before.update(id.index as int, tree.listeners@[id.index as int]));
        assert(tree.listeners() =~= old(tree).listeners().update(
            id.index as int,
            old(tree).listeners()[id.index as int].push(ListenerSlot::holding(listener)),
        ));
        assert(tree.listener_counts() =~= old(tree).listener_counts().update(
            id.index as int,
            old(tree).listener_counts()[id.index as int] + 1,
        ));
    }

    /// The first child of `parent`, in the order of attachment, that is named
    /// `name`.
    pub fn find_first_child(forest: &Forest, parent: InstanceId, name: &str) -> (found: Option<
        InstanceId,
    >)
        requires
            forest.wf(),
            has(forest@, parent),
        ensures
            found == first_child_named(forest@, parent, name@),
    {
        let node = forest.node(parent);
        let n = node.num_children();
        let mut i: usize = 0;
        while i < n
            invariant
                i <= n,
                forest.wf(),
                has(forest@, parent),
                node@ == forest@[parent.index as int],
                n == node@.children.len(),
                first_child_named(forest@, parent, name@) == first_named_from(
                    forest@,
                    children_of(forest@, parent),
                    i as nat,
                    name@,
                ),
            decreases n - i,
        {
            let c = node.children()[i];
            assert(c == children_of(forest@, parent)[i as int]);
            assert(has(forest@, c));
            if same_text(forest.node(c).name(), name) {
                return Some(c);
            }
            i += 1;
        }
        None
    }

    /// The first child of `parent`, in the order of attachment, whose type tag
    /// is exactly `class_name`.
    pub fn find_first_child_of_type(forest: &Forest, parent: InstanceId, class_name: &str) -> (found:
        Option<InstanceId>)
        requires
            forest.wf(),
            has(forest@, parent),
        ensures
            found == first_child_of_class(forest@, parent, class_name@),
    {
        let node = forest.node(parent);
        let n = node.num_children();
        let mut i: usize = 0;
        while i < n
            invariant
                i <= n,
                forest.wf(),
                has(forest@, parent),
                node@ == forest@[parent.index as int],
                n == node@.children.len(),
                first_child_of_class(forest@, parent, class_name@) == first_of_class_from(
                    forest@,
                    children_of(forest@, parent),
                    i as nat,
                    class_name@,
                ),
            decreases n - i,
        {
            let c = node.children()[i];
            assert(c == children_of(forest@, parent)[i as int]);
            assert(has(forest@, c));
            if forest.node(c).is_a(class_name) {
                return Some(c);
            }
            i += 1;
        }
        None
    }

    /// Whether `instance_a` is met on the walk from `instance_b` towards the
    /// root.
    pub fn is_ancestor_of(forest: &Forest, instance_a: InstanceId, instance_b: InstanceId) -> (above:
        bool)
        requires
            forest.wf(),
        ensures
            above == is_above(forest@, instance_a, instance_b),
    {
        if !forest.contains(instance_b) {
            return false;
        }
        let mut current = forest.node(instance_b).parent();
        proof {
            lemma_rank_of(forest@);
            assert(current == parent_of(forest@, instance_b));
        }
        while current.is_some()
            invariant
                forest.wf(),
                has(forest@, instance_b),
                current matches Some(p) ==> has(forest@, p),
                is_ancestor(forest@, instance_a, instance_b) == (match current {
                    None => false,
                    Some(p) => p == instance_a || is_ancestor(forest@, instance_a, p),
                }),
            decreases
                    (match current {
                        None => 0,
                        Some(p) => depth(forest@, p) + 1,
                    }),
        {
            let p = current.unwrap();
            if p.index == instance_a.index {
                return true;
            }
            current = forest.node(p).parent();
            proof {
                lemma_rank_of(forest@);
                assert(current == parent_of(forest@, p));
            }
        }
        false
    }

    /// Whether the low-level attach accepts `child` under `parent`: they are
    /// two nodes, `parent` is not below `child`, and `child` has no parent, so
    /// that an attached node is moved by `set_parent` alone.
    pub fn can_add_child(forest: &Forest, parent: InstanceId, child: InstanceId) -> (accepted: bool)
        requires
            forest.wf(),
        ensures
            accepted == can_add_child_spec(forest@, parent, child),
    {
        if !forest.contains(parent) || !forest.contains(child) {
            return false;
        }
        !(child.index == parent.index || Self::is_ancestor_of(forest, child, parent)
            || forest.node(child).parent().is_some())
    }

    /// Whether `set_parent(instance, new_parent)` is carried out: `new_parent`
    /// is none, or it is not below `instance` and accepts it as a child.
    pub fn can_set_parent(forest: &Forest, instance: InstanceId, new_parent: Option<InstanceId>) -> (feasible:
        bool)
        requires
            forest.wf(),
        ensures
            feasible == can_set_parent_spec(forest@, instance, new_parent),
    {
        if !forest.contains(instance) {
            return false;
        }
        match new_parent {
            Some(parent) => {
                if !forest.contains(parent) {
                    return false;
                }
                if Self::is_ancestor_of(forest, instance, parent) {
                    return false;
                }
                Self::can_add_child(forest, parent, instance)
            },
            None => true,
        }
    }

    /// Who is told that a descendant was removed: `parent` and every node
    /// above it, for `instance` alone.
    pub(crate) fn notify_descendants_removed(forest: &Forest, parent: InstanceId, instance: InstanceId) -> (notes:
        Vec<Notification>)
        requires
            forest.wf(),
            has(forest@, parent),
            has(forest@, instance),
        ensures
            notes@ == told_to(upward(forest@, parent), Signal::DescendantRemoved, instance),
            forall|k: int| 0 <= k < notes@.len() ==> deliverable(forest@, #[trigger] notes@[k]),
    {
        let chain = upward_of(forest, parent);
        let mut notes: Vec<Notification> = Vec::new();
        tell_each(&mut notes, &chain, Signal::DescendantRemoved, instance);
        assert(notes@ =~= told_to(upward(forest@, parent), Signal::DescendantRemoved, instance));
        notes
    }

    /// Who is told that descendants were added: `parent` and every node above
    /// it, for `instance` and then for each node below `instance`.
    pub(crate) fn notify_descendants_added(forest: &Forest, parent: InstanceId, instance: InstanceId) -> (notes:
        Vec<Notification>)
        requires
            forest.wf(),
            has(forest@, parent),
            has(forest@, instance),
        ensures
            notes@ == entering_to(upward(forest@, parent), entrants(forest@, instance)),
            forall|k: int| 0 <= k < notes@.len() ==> deliverable(forest@, #[trigger] notes@[k]),
    {
        let chain = upward_of(forest, parent);
        let mut nodes: Vec<InstanceId> = Vec::new();
        nodes.push(instance);
        descendants_into(forest, instance, &mut nodes);
        assert(nodes@ =~= entrants(forest@, instance));
        assert forall|k: int| 0 <= k < nodes@.len() implies has(forest@, #[trigger] nodes@[k]) by {
            if k > 0 {
                assert(nodes@[k] == descendants(forest@, instance)[k - 1]);
            }
        }
        let mut notes: Vec<Notification> = Vec::new();
        let n = nodes.len();
        let mut i: usize = 0;
        while i < n
            invariant
                i <= n,
                n == nodes@.len(),
                notes@ == entering_to(chain@, nodes@.take(i as int)),
                forall|k: int| 0 <= k < nodes@.len() ==> has(forest@, #[trigger] nodes@[k]),
                forall|k: int| 0 <= k < chain@.len() ==> has(forest@, #[trigger] chain@[k]),
                forall|k: int| 0 <= k < notes@.len() ==> deliverable(forest@, #[trigger] notes@[k]),
            decreases n - i,
        {
            let ghost before = notes@;
            tell_each(&mut notes, &chain, Signal::DescendantAdded, nodes[i]);
            proof {
                let next = nodes@.take(i as int + 1);
                assert(next.drop_last() =~= nodes@.take(i as int));
                assert(next.last() == nodes@[i as int]);
                assert forall|k: int| 0 <= k < notes@.len() implies deliverable(
                    forest@,
                    #[trigger] notes@[k],
                ) by {
                    if k >= before.len() {
                        assert(notes@[k] == told_to(chain@, Signal::DescendantAdded, nodes@[i as int])[k
                            - before.len()]);
                    } else {
                        assert(notes@[k] == before[k]);
                    }
                }
            }
            i += 1;
        }
        assert(nodes@.take(n as int) =~= nodes@);
        notes
    }

    /// Takes `child` out of the children of `parent`, clears its
    /// back-reference, and tells it: child-removed to `parent`, then
    /// descendant-removed to `parent` and to every node above it. Each
    /// listener of `parent` hears both before the next listener hears either.
    /// The service registered on `parent` under the name of `child` is
    /// dropped.
    pub(crate) fn remove_child_internal(tree: &mut Hierarchy, parent: InstanceId, child: InstanceId) -> (notes:
        Vec<Notification>)
        requires
            old(tree).wf(),
            has(old(tree)@, child),
            parent_of(old(tree)@, child) == Some(parent),
        ensures
            final(tree).wf(),
            final(tree)@ == detached(old(tree)@, child),
            final(tree).listener_counts() == old(tree).listener_counts(),
            notes@ == detach_notifications(final(tree)@, parent, child),
            forall|k: int| 0 <= k < notes@.len() ==> deliverable(final(tree)@, #[trigger] notes@[k]),
            final(tree).journal() == old(tree).journal() + cascade_calls(
                old(tree).listener_counts(),
                notes@,
            ),
            final(tree).services() == old(tree).services().update(
                parent.index as int,
                old(tree).services()[parent.index as int].remove(old(tree)@[child.index as int].name),
            ),
            only_told_changed(old(tree).listeners(), final(tree).listeners(), notes@),
    {
        proof {
            lemma_detached_wf(tree@, child);
        }
        tree.forest.unlink(child);
        let mut notes: Vec<Notification> = Vec::new();
        notes.push(Notification { target: parent, signal: Signal::ChildRemoved, subject: Some(child) });
        let mut rest = Self::notify_descendants_removed(&tree.forest, parent, child);
        let ghost rest_view = rest@;
        notes.append(&mut rest);
        assert(notes@ =~= detach_notifications(tree@, parent, child));
        assert forall|k: int| 0 <= k < notes@.len() implies deliverable(tree@, #[trigger] notes@[k]) by {
            if k > 0 {
                assert(notes@[k] == rest_view[k - 1]);
            }
        }
        assert(notes@.len() >= 2 && notes@[0] == (Notification {
            target: parent,
            signal: Signal::ChildRemoved,
            subject: Some(child),
        }) && notes@[1] == (Notification {
            target: parent,
            signal: Signal::DescendantRemoved,
            subject: Some(child),
        })) by {
            assert(rest_view[0].target == upward(tree@, parent)[0]);
        }
        tree.deliver_opening(parent, Signal::ChildRemoved, Signal::DescendantRemoved, child);
        let ghost between = tree.listeners();
        tree.deliver_from(&notes, 2);
        proof {
            let rest = notes@.skip(2);
            assert forall|k: int| 0 <= k < rest.len() implies tells(
                notes@,
                (#[trigger] rest[k]).target,
            ) by {
                assert(notes@[k + 2].target == rest[k].target);
            }
            lemma_only_told_more(old(tree).listeners(), between, seq![notes@[0]], notes@);
            lemma_only_told_more(between, tree.listeners(), rest, notes@);
            lemma_only_told_through(old(tree).listeners(), between, tree.listeners(), notes@);
        }
        // the registry on the parent hears of the removal as its listeners do
        let ghost tables = tree.services@;
        tree.services[parent.index].remove(tree.forest.node(child).name());
        assert(tree.services@ == tables.update(parent.index as int, tree.services@[parent.index as int]));
        assert(tree.services() =~= old(tree).services().update(
            parent.index as int,
            old(tree).services()[parent.index as int].remove(old(tree)@[child.index as int].name),
        ));
        notes
    }

    /// Makes the detached node `child` the last child of `parent` and tells it:
    /// child-added to `parent`; then, for `child` and for each node below it,
    /// descendant-added to `parent` and to every node above it. Each listener
    /// of `parent` hears the first two before the next listener hears either.
    pub(crate) fn add_child_internal(tree: &mut Hierarchy, parent: InstanceId, child: InstanceId) -> (notes:
        Vec<Notification>)
        requires
            old(tree).wf(),
            can_add_child_spec(old(tree)@, parent, child),
        ensures
            final(tree).wf(),
            final(tree)@ == attached(old(tree)@, parent, child),
            final(tree).listener_counts() == old(tree).listener_counts(),
            notes@ == attach_notifications(final(tree)@, parent, child),
            forall|k: int| 0 <= k < notes@.len() ==> deliverable(final(tree)@, #[trigger] notes@[k]),
            final(tree).journal() == old(tree).journal() + cascade_calls(
                old(tree).listener_counts(),
                notes@,
            ),
            final(tree).services() == old(tree).services(),
            only_told_changed(old(tree).listeners(), final(tree).listeners(), notes@),
    {
        proof {
            lemma_attached_wf(tree@, parent, child);
        }
        tree.forest.link(parent, child);
        let mut notes: Vec<Notification> = Vec::new();
        notes.push(Notification { target: parent, signal: Signal::ChildAdded, subject: Some(child) });
        let mut rest = Self::notify_descendants_added(&tree.forest, parent, child);
        let ghost rest_view = rest@;
        notes.append(&mut rest);
        assert(notes@ =~= attach_notifications(tree@, parent, child));
        assert forall|k: int| 0 <= k < notes@.len() implies deliverable(tree@, #[trigger] notes@[k]) by {
            if k > 0 {
                assert(notes@[k] == rest_view[k - 1]);
            }
        }
        assert(notes@.len() >= 2 && notes@[0] == (Notification {
            target: parent,
            signal: Signal::ChildAdded,
            subject: Some(child),
        }) && notes@[1] == (Notification {
            target: parent,
            signal: Signal::DescendantAdded,
            subject: Some(child),
        })) by {
            lemma_entering_first(upward(tree@, parent), child, descendants(tree@, child));
            let opening = told_to(upward(tree@, parent), Signal::DescendantAdded, child);
            assert(opening[0].target == upward(tree@, parent)[0]);
            assert(rest_view[0] == opening[0]);
        }
        tree.deliver_opening(parent, Signal::ChildAdded, Signal::DescendantAdded, child);
        let ghost between = tree.listeners();
        tree.deliver_from(&notes, 2);
        proof {
            let rest = notes@.skip(2);
            assert forall|k: int| 0 <= k < rest.len() implies tells(
                notes@,
                (#[trigger] rest[k]).target,
            ) by {
                assert(notes@[k + 2].target == rest[k].target);
            }
            lemma_only_told_more(old(tree).listeners(), between, seq![notes@[0]], notes@);
            lemma_only_told_more(between, tree.listeners(), rest, notes@);
            lemma_only_told_through(old(tree).listeners(), between, tree.listeners(), notes@);
        }
        notes
    }

    /// The reparenting protocol. Where `can_set_parent` refuses, nothing
    /// happens and nothing is told. Else `instance` leaves its old parent, is
    /// bound to `new_parent`, joins its children, and the listeners of
    /// `instance` are told of the new parent. Returns what was told, in order.
    /// Each notification went to every listener of its target, in the order in
    /// which they were attached; the two notifications that open a removal or
    /// an attaching went to one listener of the parent before the next
    /// listener heard either. The services registered on the old parent have
    /// heard of the removal too: the one under the name of `instance` is
    /// dropped. No listener is attached or taken away, and the listeners of a
    /// node that was told nothing are as they were.
    pub fn set_parent(tree: &mut Hierarchy, instance: InstanceId, new_parent: Option<InstanceId>) -> (sent:
        Vec<Notification>)
        requires
            old(tree).wf(),
        ensures
            final(tree).wf(),
            final(tree)@ == reparented(old(tree)@, instance, new_parent),
            final(tree).listener_counts() == old(tree).listener_counts(),
            sent@ == reparent_notifications(old(tree)@, instance, new_parent),
            forall|k: int| 0 <= k < sent@.len() ==> deliverable(final(tree)@, #[trigger] sent@[k]),
            final(tree).journal() == old(tree).journal() + reparent_calls(
                old(tree)@,
                old(tree).listener_counts(),
                instance,
                new_parent,
            ),
            final(tree).services() == services_told(old(tree).services(), final(tree)@, sent@),
            only_told_changed(old(tree).listeners(), final(tree).listeners(), sent@),
    {
        let mut sent: Vec<Notification> = Vec::new();
        // every position in the arena is the index of a handle
        let size = tree.forest.len();
        proof {
            let tables = tree.services();
            assert(tables.len() == size);
            assert forall|i: int| 0 <= i < tables.len() implies services_reparented(
                tables[i],
                tree@,
                InstanceId { index: i as usize },
                instance,
                new_parent,
            ) == #[trigger] services_told(
                tables,
                reparented(tree@, instance, new_parent),
                reparent_notifications(tree@, instance, new_parent),
            )[i] by {
                lemma_services_reparented(
                    tables[i],
                    tree@,
                    InstanceId { index: i as usize },
                    instance,
                    new_parent,
                );
            }
        }
        if !Self::can_set_parent(&tree.forest, instance, new_parent) {
            assert(tree.services() =~= services_told(tree.services(), tree@, sent@));
            return sent;
        }
        let old_parent = tree.forest.node(instance).parent();
        assert(old_parent == parent_of(tree@, instance));
        if let Some(q) = old_parent {
            let mut notes = Self::remove_child_internal(tree, q, instance);
            sent.append(&mut notes);
        }
        let ghost left = (tree.listeners(), sent@);
        assert(only_told_changed(old(tree).listeners(), left.0, left.1));
        assert(tree@ == detached(old(tree)@, instance));
        assert(sent@ =~= leaving_notifications(old(tree)@, instance));
        if let Some(p) = new_parent {
            let ghost before = sent@;
            let ghost size = tree@.len();
            let mut notes = Self::add_child_internal(tree, p, instance);
            let ghost added = notes@;
            sent.append(&mut notes);
            proof {
                assert forall|k: int| 0 <= k < before.len() implies tells(
                    sent@,
                    (#[trigger] before[k]).target,
                ) by {
                    assert(sent@[k].target == before[k].target);
                }
                assert forall|k: int| 0 <= k < added.len() implies tells(
                    sent@,
                    (#[trigger] added[k]).target,
                ) by {
                    assert(sent@[before.len() + k].target == added[k].target);
                }
                lemma_only_told_more(old(tree).listeners(), left.0, before, sent@);
                lemma_only_told_more(left.0, tree.listeners(), added, sent@);
                lemma_only_told_through(old(tree).listeners(), left.0, tree.listeners(), sent@);
            }
            assert(tree@.len() == size) by {
                tree.lemma_wf();
                lemma_attached_wf(detached(old(tree)@, instance), p, instance);
            }
            assert forall|k: int| 0 <= k < sent@.len() implies deliverable(
                tree@,
                #[trigger] sent@[k],
            ) by {
                if k < before.len() {
                    assert(sent@[k] == before[k]);
                } else {
                    assert(sent@[k] == added[k - before.len()]);
                }
            }
        }
        assert(tree@ == reparented(old(tree)@, instance, new_parent));
        assert(sent@ =~= leaving_notifications(old(tree)@, instance) + arriving_notifications(
            old(tree)@,
            instance,
            new_parent,
        ));
        let note = Notification { target: instance, signal: Signal::ParentChanged, subject: new_parent };
        proof {
            tree.lemma_wf();
        }
        let ghost arrived = (tree.listeners(), sent@);
        assert(only_told_changed(old(tree).listeners(), arrived.0, arrived.1));
        tree.deliver(note);
        sent.push(note);
        assert(sent@ =~= reparent_notifications(old(tree)@, instance, new_parent));
        proof {
            assert forall|k: int| 0 <= k < arrived.1.len() implies tells(
                sent@,
                (#[trigger] arrived.1[k]).target,
            ) by {
                assert(sent@[k].target == arrived.1[k].target);
            }
            assert(tells(sent@, seq![note][0].target)) by {
                assert(sent@[arrived.1.len() as int].target == note.target);
            }
            lemma_only_told_more(old(tree).listeners(), arrived.0, arrived.1, sent@);
            lemma_only_told_more(arrived.0, tree.listeners(), seq![note], sent@);
            lemma_only_told_through(old(tree).listeners(), arrived.0, tree.listeners(), sent@);
        }
        proof {
            let tables = old(tree).services();
            let told = services_told(tables, tree@, sent@);
            assert forall|i: int| 0 <= i < tables.len() implies tree.services()[i] == told[i] by {
                let id = InstanceId { index: i as usize };
                assert(id.index == i);
                assert(parent_of(old(tree)@, instance) == Some(id) <==> (parent_of(
                    old(tree)@,
                    instance,
                ) matches Some(q) && q.index == i));
            }
            assert(tree.services() =~= told);
        }
        sent
    }
}

} // verus!
