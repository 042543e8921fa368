//! What holds of the root registry on every well-formed hierarchy.

use crate::datamodel::{guid_of, guid_of_from};
use crate::event_lemmas::lemma_entering_members;
use crate::table::{
    dropped, entered, law_dropped_gone, law_entered_found, lemma_position, lookup,
    names_distinct, position,
};
use crate::events::{
    arriving_notifications, entrants, leaving_notifications, reparent_notifications, service_step,
    services_after, services_told, told_to, upward, Notification, Signal,
};
use crate::model::{
    can_set_parent_spec, detached, has, parent_of, reparented, wf, InstanceId, InstanceView,
};
use crate::model_lemmas::{lemma_detached_wf, lemma_parent_differs};
use vstd::prelude::*;

verus! {

/// Whether a registry on `root` does nothing on a notification: it is not a
/// child removed from `root`.
pub open spec fn passes_by(root: InstanceId, note: Notification) -> bool {
    !(note.target == root && note.signal == Signal::ChildRemoved && note.subject is Some)
}

/// Notifications that pass the registry by leave the services as they were.
pub proof fn lemma_passing_notes(
    services: Map<Seq<char>, InstanceId>,
    s: Seq<InstanceView>,
    root: InstanceId,
    first: Seq<Notification>,
    rest: Seq<Notification>,
)
    requires
        forall|k: int| 0 <= k < rest.len() ==> passes_by(root, #[trigger] rest[k]),
    ensures
        services_after(services, s, root, first + rest) == services_after(services, s, root, first),
    decreases rest.len(),
{
    if rest.len() == 0 {
        assert(first + rest =~= first);
    } else {
        let all = first + rest;
        assert(all.drop_last() =~= first + rest.drop_last());
        assert(all.last() == rest[rest.len() - 1]);
        lemma_passing_notes(services, s, root, first, rest.drop_last());
    }
}

/// The services on `root` after `set_parent(node, new_parent)`: where the
/// reparenting takes `node` out of the children of `root`, the service that
/// has the name of `node` is dropped; else nothing changes.
pub open spec fn services_reparented(
    services: Map<Seq<char>, InstanceId>,
    s: Seq<InstanceView>,
    root: InstanceId,
    node: InstanceId,
    new_parent: Option<InstanceId>,
) -> Map<Seq<char>, InstanceId> {
    if can_set_parent_spec(s, node, new_parent) && parent_of(s, node) == Some(root) {
        services.remove(s[node.index as int].name)
    } else {
        services
    }
}

/// What the registry on `root` makes of everything that a reparenting tells.
pub proof fn lemma_services_reparented(
    services: Map<Seq<char>, InstanceId>,
    s: Seq<InstanceView>,
    root: InstanceId,
    node: InstanceId,
    new_parent: Option<InstanceId>,
)
    requires
        wf(s),
    ensures
        services_after(
            services,
            reparented(s, node, new_parent),
            root,
            reparent_notifications(s, node, new_parent),
        ) == services_reparented(services, s, root, node, new_parent),
{
    let t = reparented(s, node, new_parent);
    let notes = reparent_notifications(s, node, new_parent);
    let none = Seq::<Notification>::empty();
    if can_set_parent_spec(s, node, new_parent) {
        lemma_parent_differs(s, node);
        lemma_detached_wf(s, node);
        let leaving = leaving_notifications(s, node);
        let arriving = arriving_notifications(s, node, new_parent);
        let changed = Notification {
            target: node,
            signal: Signal::ParentChanged,
            subject: new_parent,
        };
        assert(t[node.index as int].name == s[node.index as int].name) by {
            if let Some(p) = new_parent {
                assert(detached(s, node) == s);
            }
        }
        let rest = arriving + seq![changed];
        assert(notes =~= leaving + rest);
        assert forall|k: int| 0 <= k < rest.len() implies passes_by(root, #[trigger] rest[k]) by {
            if k < arriving.len() {
                assert(rest[k] == arriving[k]);
                let p = new_parent.unwrap();
                if k > 0 {
                    lemma_entering_members(upward(t, p), entrants(t, node), k - 1);
                }
            }
        }
        lemma_passing_notes(services, t, root, leaving, rest);
        match parent_of(s, node) {
            None => {
                assert(leaving =~= none);
            },
            Some(q) => {
                assert(new_parent is None);
                let removed = Notification {
                    target: q,
                    signal: Signal::ChildRemoved,
                    subject: Some(node),
                };
                let upwards = told_to(upward(t, q), Signal::DescendantRemoved, node);
                assert(leaving =~= seq![removed] + upwards);
                assert forall|k: int| 0 <= k < upwards.len() implies passes_by(
                    root,
                    #[trigger] upwards[k],
                ) by {}
                lemma_passing_notes(services, t, root, seq![removed], upwards);
                let one = seq![removed];
                assert(one.drop_last() =~= none);
                assert(one.last() == removed);
                assert(services_after(services, t, root, one) == service_step(
                    services_after(services, t, root, one.drop_last()),
                    t,
                    root,
                    removed,
                ));
            },
        }
    } else {
        assert(notes =~= none);
    }
}

/// A service that was registered is found under its name.
pub proof fn law_service_found(services: Map<Seq<char>, InstanceId>, name: Seq<char>, n: InstanceId)
    ensures
        services.insert(name, n).contains_key(name),
        services.insert(name, n)[name] == n,
{
}

/// When a child of a node is detached from it, the service registered on
/// that node under the name of the child is dropped, and no other; the
/// services registered on every other node stay.
pub proof fn law_service_dropped(
    tables: Seq<Map<Seq<char>, InstanceId>>,
    s: Seq<InstanceView>,
    root: InstanceId,
    n: InstanceId,
)
    requires
        wf(s),
        tables.len() == s.len(),
        s.len() <= usize::MAX,
        has(s, root),
        has(s, n),
        parent_of(s, n) == Some(root),
    ensures
        services_told(
            tables,
            reparented(s, n, None),
            reparent_notifications(s, n, None),
        ) == tables.update(root.index as int, tables[root.index as int].remove(s[n.index as int].name)),
        !services_told(
            tables,
            reparented(s, n, None),
            reparent_notifications(s, n, None),
        )[root.index as int].contains_key(s[n.index as int].name),
{
    let after = services_told(tables, reparented(s, n, None), reparent_notifications(s, n, None));
    assert forall|i: int| 0 <= i < tables.len() implies after[i] == tables.update(
        root.index as int,
        tables[root.index as int].remove(s[n.index as int].name),
    )[i] by {
        let id = InstanceId { index: i as usize };
        assert(id.index == i);
        assert(id == root <==> i == root.index);
        lemma_services_reparented(tables[i], s, id, n, None);
    }
    assert(after =~= tables.update(
        root.index as int,
        tables[root.index as int].remove(s[n.index as int].name),
    ));
}

/// Attaching a node tells no registry to drop anything.
pub proof fn law_attaching_drops_nothing(
    tables: Seq<Map<Seq<char>, InstanceId>>,
    s: Seq<InstanceView>,
    node: InstanceId,
    p: InstanceId,
)
    requires
        wf(s),
    ensures
        services_told(
            tables,
            reparented(s, node, Some(p)),
            reparent_notifications(s, node, Some(p)),
        ) == tables,
{
    let after = services_told(
        tables,
        reparented(s, node, Some(p)),
        reparent_notifications(s, node, Some(p)),
    );
    assert forall|i: int| 0 <= i < tables.len() implies after[i] == tables[i] by {
        lemma_services_reparented(tables[i], s, InstanceId { index: i as usize }, node, Some(p));
    }
    assert(after =~= tables);
}

/// Where `guid_of_from` finds an id, it is that of the first entry for the
/// node.
pub proof fn lemma_guid_of(entries: Seq<(Seq<char>, InstanceId)>, node: InstanceId, i: nat)
    ensures
        match guid_of_from(entries, node, i) {
            Some(g) => exists|k: int|
                i <= k < entries.len() && entries[k].1 == node && entries[k].0 == g && forall|j: int|
                    i <= j < k ==> entries[j].1 != node,
            None => forall|j: int| i <= j < entries.len() ==> entries[j].1 != node,
        },
    decreases entries.len() - i,
{
    if i < entries.len() {
        if entries[i as int].1 == node {
            assert(i <= i < entries.len() && entries[i as int].1 == node);
        } else {
            lemma_guid_of(entries, node, i + 1);
            if let Some(g) = guid_of_from(entries, node, i + 1) {
                let k = choose|k: int|
                    i + 1 <= k < entries.len() && entries[k].1 == node && entries[k].0 == g
                        && forall|j: int| i + 1 <= j < k ==> entries[j].1 != node;
                assert(i <= k < entries.len() && entries[k].1 == node && entries[k].0 == g
                    && forall|j: int| i <= j < k ==> entries[j].1 != node);
            }
        }
    }
}

/// Registering keeps every id in one entry, and the node is found under the
/// id.
pub proof fn law_guid_found(entries: Seq<(Seq<char>, InstanceId)>, guid: Seq<char>, n: InstanceId)
    requires
        names_distinct(entries),
    ensures
        names_distinct(entered(entries, guid, n)),
        lookup(entered(entries, guid, n), guid) == Some(n),
{
    law_entered_found(entries, guid, n);
}

/// A node that stands under no other id is found to have the id it was
/// registered under.
pub proof fn law_guid_of_instance(
    entries: Seq<(Seq<char>, InstanceId)>,
    guid: Seq<char>,
    n: InstanceId,
)
    requires
        names_distinct(entries),
        forall|i: int| 0 <= i < entries.len() && entries[i].1 == n ==> entries[i].0 == guid,
    ensures
        guid_of(entered(entries, guid, n), n) == Some(guid),
{
    let after = entered(entries, guid, n);
    lemma_position(entries, guid, 0);
    lemma_guid_of(after, n, 0);
    match position(entries, guid) {
        Some(i) => {
            assert(after[i] == (guid, n));
        },
        None => {
            assert(after[entries.len() as int] == (guid, n));
        },
    }
    assert forall|k: int| 0 <= k < after.len() && after[k].1 == n implies after[k].0 == guid by {
        if k < entries.len() && after[k] == entries[k] {
        }
    }
}

/// An id that was removed is found no longer; the others are found as
/// before.
pub proof fn law_guid_removed(entries: Seq<(Seq<char>, InstanceId)>, guid: Seq<char>)
    requires
        names_distinct(entries),
    ensures
        names_distinct(dropped(entries, guid)),
        lookup(dropped(entries, guid), guid) is None,
        forall|other: Seq<char>|
            other != guid ==> #[trigger] lookup(dropped(entries, guid), other) == lookup(
                entries,
                other,
            ),
{
    law_dropped_gone(entries, guid);
}

} // verus!
