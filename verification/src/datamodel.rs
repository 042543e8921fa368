//! The root registry: the root node of a hierarchy together with the services
//! found by name and the nodes found by replication id.
//!
//! The services of a registry stand in the hierarchy, on the root node of the
//! registry. So whoever takes a child out of the root, by whatever call of
//! the reparenting protocol, drops the service that has the child's name.

use crate::events::{reparent_calls, reparent_notifications};
use crate::hierarchy::{only_told_changed, Hierarchy};
use crate::laws::law_reparenting_keeps_invariant;
use crate::registry_laws::law_attaching_drops_nothing;
use crate::instance::{Forest, Instance};
use crate::model::{
    depth, fresh_view, has, lemma_rank_of, parent_of, reparented, InstanceId, InstanceView,
};
use crate::table::{dropped, entered, lookup, names_distinct, NameTable};
use vstd::prelude::*;
use vstd::string::StringExecFns;

verus! {

/// The name and the type tag of the root node.
pub open spec fn root_tag() -> Seq<char> {
    "DataModel"@
}

/// The record of a fresh root node.
pub open spec fn root_view() -> InstanceView {
    InstanceView { name: root_tag(), class_name: root_tag(), ..fresh_view() }
}

/// The first id, in the order of first registration, under which `node`
/// stands, from position `i` on.
pub open spec fn guid_of_from(
    entries: Seq<(Seq<char>, InstanceId)>,
    node: InstanceId,
    i: nat,
) -> Option<Seq<char>>
    decreases entries.len() - i,
{
    if i >= entries.len() {
        None
    } else if entries[i as int].1 == node {
        Some(entries[i as int].0)
    } else {
        guid_of_from(entries, node, i + 1)
    }
}

/// The first id, in the order of first registration, under which `node`
/// stands.
pub open spec fn guid_of(entries: Seq<(Seq<char>, InstanceId)>, node: InstanceId) -> Option<
    Seq<char>,
> {
    guid_of_from(entries, node, 0)
}

/// The root of the instance tree and the table of replication ids. The
/// services are the ones that the hierarchy holds on the root node.
pub struct DataModel {
    instance: InstanceId,
    /// Replication id to node, in the order of first registration.
    guid_map: NameTable<InstanceId>,
}

impl DataModel {
    /// The root node.
    pub closed spec fn root(&self) -> InstanceId {
        self.instance
    }

    /// Service name to node: what `tree` holds on the root node.
    pub open spec fn services(&self, tree: &Hierarchy) -> Map<Seq<char>, InstanceId> {
        if has(tree@, self.root()) {
            tree.services()[self.root().index as int]
        } else {
            Map::empty()
        }
    }

    /// Replication id and node, in the order of first registration.
    pub closed spec fn guids(&self) -> Seq<(Seq<char>, InstanceId)> {
        self.guid_map@
    }

    /// No replication id is registered twice.
    pub open spec fn wf(&self) -> bool {
        names_distinct(self.guids())
    }

    /// Creates the root node, named and tagged "DataModel", and empty tables.
    pub fn new(tree: &mut Hierarchy) -> (registry: DataModel)
        requires
            old(tree).wf(),
        ensures
            final(tree).wf(),
            final(tree)@ == old(tree)@.push(root_view()),
            final(tree).listeners() == old(tree).listeners().push(Seq::empty()),
            final(tree).listener_counts() == old(tree).listener_counts().push(0),
            final(tree).journal() == old(tree).journal(),
            final(tree).services() == old(tree).services().push(Map::empty()),
            registry.root().index == old(tree)@.len(),
            registry.services(final(tree)) == Map::<Seq<char>, InstanceId>::empty(),
            registry.guids() == Seq::<(Seq<char>, InstanceId)>::empty(),
            registry.wf(),
    {
        proof {
            tree.lemma_wf();
        }
        let instance = Instance::new(tree);
        tree.node_mut(instance).set_name("DataModel");
        tree.node_mut(instance).set_class_name("DataModel");
        let registry = DataModel { instance, guid_map: NameTable::new() };
        proof {
            assert(tree@ =~= old(tree)@.push(root_view()));
        }
        registry
    }

    /// The root node.
    pub fn instance(&self) -> (root: InstanceId)
        ensures
            root == self.root(),
    {
        self.instance
    }

    /// The service registered under `service_name`, if any.
    pub fn get_service(&self, tree: &Hierarchy, service_name: &str) -> (service: Option<InstanceId>)
        requires
            tree.wf(),
        ensures
            service == (if self.services(tree).contains_key(service_name@) {
                Some(self.services(tree)[service_name@])
            } else {
                None
            }),
    {
        tree.service(self.instance, service_name)
    }

    /// Asks the reparenting protocol to put `service` under the root, then
    /// records it under `service_name`, in place of what stood there.
    pub fn register_service(&mut self, tree: &mut Hierarchy, service_name: &str, service: InstanceId)
        requires
            old(tree).wf(),
        ensures
            final(tree).wf(),
            final(tree)@ == reparented(old(tree)@, service, Some(old(self).root())),
            final(tree).listener_counts() == old(tree).listener_counts(),
            only_told_changed(
                old(tree).listeners(),
                final(tree).listeners(),
                reparent_notifications(old(tree)@, service, Some(old(self).root())),
            ),
            final(tree).journal() == old(tree).journal() + reparent_calls(
                old(tree)@,
                old(tree).listener_counts(),
                service,
                Some(old(self).root()),
            ),
            final(tree).services() == (if has(old(tree)@, old(self).root()) {
                old(tree).services().update(
                    old(self).root().index as int,
                    old(self).services(old(tree)).insert(service_name@, service),
                )
            } else {
                old(tree).services()
            }),
            final(self).root() == old(self).root(),
            final(self).guids() == old(self).guids(),
    {
        proof {
            tree.lemma_wf();
            law_attaching_drops_nothing(tree.services(), tree@, service, self.instance);
            law_reparenting_keeps_invariant(tree@, service, Some(self.instance));
        }
        let _sent = Instance::set_parent(tree, service, Some(self.instance));
        tree.set_service(self.instance, service_name, service);
    }

    /// The node registered under `guid`, if any.
    pub fn get_instance_by_guid(&self, guid: &str) -> (node: Option<InstanceId>)
        ensures
            node == lookup(self.guids(), guid@),
    {
        match self.guid_map.get(guid) {
            Some(node) => Some(*node),
            None => None,
        }
    }

    /// Registers `instance` under `guid`; an id already registered is given
    /// to `instance`.
    pub fn register_instance_guid(&mut self, instance: InstanceId, guid: String)
        requires
            old(self).wf(),
        ensures
            final(self).wf(),
            final(self).guids() == entered(old(self).guids(), guid@, instance),
            final(self).root() == old(self).root(),
    {
        self.guid_map.insert(guid, instance);
    }

    /// Forgets `guid`.
    pub fn remove_instance_guid(&mut self, guid: &str)
        requires
            old(self).wf(),
        ensures
            final(self).wf(),
            final(self).guids() == dropped(old(self).guids(), guid@),
            final(self).root() == old(self).root(),
    {
        self.guid_map.remove(guid);
    }

    /// The first id, in the order of first registration, under which
    /// `instance` stands.
    pub fn get_guid_for_instance(&self, instance: InstanceId) -> (guid: Option<String>)
        ensures
            match guid {
                Some(g) => guid_of(self.guids(), instance) == Some(g@),
                None => guid_of(self.guids(), instance) is None,
            },
    {
        let n = self.guid_map.len();
        let mut i: usize = 0;
        while i < n
            invariant
                i <= n,
                n == self.guids().len(),
                guid_of(self.guids(), instance) == guid_of_from(self.guids(), instance, i as nat),
            decreases n - i,
        {
            if self.guid_map.value_at(i).index == instance.index {
                return Some(String::from_str(self.guid_map.name_at(i)));
            }
            i += 1;
        }
        None
    }
}

/// Something that makes nodes from a type tag.
pub trait InstanceFactory {
    fn create_instance(&self, tree: &mut Hierarchy, class_name: &str) -> (created: Option<
        InstanceId,
    >)
        requires
            old(tree).wf(),
    ;
}

/// Makes a node from a type tag: no factory is set, so none is made.
pub fn create_instance(_class_name: &str) -> (created: Option<InstanceId>)
    ensures
        created is None,
{
    None
}

/// The way from a node to the registry it stands under.
pub trait DataModelInstanceExt {
    fn get_datamodel(forest: &Forest, node: InstanceId) -> (root: Option<InstanceId>)
        requires
            forest.wf(),
            has(forest@, node),
    ;
}

impl DataModelInstanceExt for Instance {
    /// Walks towards the root until a node tagged "DataModel" is met. The
    /// registry behind such a node cannot be had from the node, so nothing is
    /// returned either way.
    fn get_datamodel(forest: &Forest, node: InstanceId) -> (root: Option<InstanceId>)
        ensures
            root is None,
    {
        let mut current = forest.node(node).parent();
        proof {
            lemma_rank_of(forest@);
            assert(current == parent_of(forest@, node));
        }
        while current.is_some()
            invariant
                forest.wf(),
                current matches Some(p) ==> has(forest@, p),
            decreases
                    (match current {
                        None => 0,
                        Some(p) => depth(forest@, p) + 1,
                    }),
        {
            let parent = current.unwrap();
            if forest.node(parent).is_a("DataModel") {
                return None;
            }
            current = forest.node(parent).parent();
            proof {
                lemma_rank_of(forest@);
                assert(current == parent_of(forest@, parent));
            }
        }
        None
    }
}

} // verus!
