use rnr::events::{Notification, Signal};
use rnr::hierarchy::{Hierarchy, InstanceListener};
use rnr::instance::{Forest, Instance};
use rnr::model::InstanceId;
use rnr::reflection::{
    AccessType, FunctionBinding, OperationType, PropertyGetter, PropertySetter, PropertyType,
    PropertyValue, ReflectionFunction, ReflectionProperty,
};
use std::cell::RefCell;
use std::rc::Rc;

/// Writes down everything it is told, with the name it was given.
struct Recorder {
    tag: &'static str,
    log: Rc<RefCell<Vec<(&'static str, Signal, Option<InstanceId>)>>>,
}

impl InstanceListener for Recorder {
    fn on_child_added(&mut self, _forest: &Forest, child: InstanceId) {
        self.log.borrow_mut().push((self.tag, Signal::ChildAdded, Some(child)));
    }

    fn on_child_removed(&mut self, _forest: &Forest, child: InstanceId) {
        self.log.borrow_mut().push((self.tag, Signal::ChildRemoved, Some(child)));
    }

    fn on_descendant_added(&mut self, _forest: &Forest, descendant: InstanceId) {
        self.log.borrow_mut().push((self.tag, Signal::DescendantAdded, Some(descendant)));
    }

    fn on_descendant_removed(&mut self, _forest: &Forest, descendant: InstanceId) {
        self.log.borrow_mut().push((self.tag, Signal::DescendantRemoved, Some(descendant)));
    }

    fn on_parent_changed(&mut self, _forest: &Forest, new_parent: Option<InstanceId>) {
        self.log.borrow_mut().push((self.tag, Signal::ParentChanged, new_parent));
    }
}

/// Listens and does nothing.
struct Silent;

impl InstanceListener for Silent {}

fn note(target: InstanceId, signal: Signal, subject: Option<InstanceId>) -> Notification {
    Notification { target, signal, subject }
}

#[test]
fn test_instance_creation() {
    let mut tree = Hierarchy::new();
    let instance = Instance::new(&mut tree);
    assert_eq!(tree.node(instance).name(), "Instance");
    assert_eq!(tree.node(instance).class_name(), "Instance");
    assert!(tree.node(instance).archivable());
}

#[test]
fn test_parent_child_relationship() {
    let mut tree = Hierarchy::new();
    let parent = Instance::new(&mut tree);
    tree.node_mut(parent).set_name("Parent");

    let child = Instance::new(&mut tree);
    tree.node_mut(child).set_name("Child");

    Instance::set_parent(&mut tree, child, Some(parent));

    assert!(tree.node(parent).contains(&child));
    assert_eq!(tree.node(tree.node(child).parent().unwrap()).name(), "Parent");
    assert_eq!(tree.node(parent).num_children(), 1);
}

#[test]
fn test_prevent_cycles() {
    let mut tree = Hierarchy::new();
    let instance1 = Instance::new(&mut tree);
    let instance2 = Instance::new(&mut tree);

    Instance::set_parent(&mut tree, instance1, Some(instance2));
    // This should fail because it would create a cycle
    Instance::set_parent(&mut tree, instance2, Some(instance1));

    // instance2 should not have instance1 as parent due to cycle prevention
    assert!(
        tree.node(instance2).parent().is_none()
            || tree.node(instance2).parent().unwrap() != instance1
    );
}

#[test]
fn fresh_node_is_detached_and_childless() {
    let mut tree = Hierarchy::new();
    let node = Instance::new(&mut tree);
    assert_eq!(tree.node(node).parent(), None);
    assert_eq!(tree.node(node).num_children(), 0);
    assert!(tree.node(node).children().is_empty());
    assert_eq!(tree.listener_count(node), 0);
    assert_eq!(tree.len(), 1);
    assert!(tree.contains(node));
    assert!(!tree.contains(InstanceId { index: 1 }));
}

#[test]
fn attach_lists_child_once_and_binds_parent() {
    let mut tree = Hierarchy::new();
    let p = Instance::new(&mut tree);
    let c = Instance::new(&mut tree);
    assert!(Instance::can_set_parent(tree.forest(), c, Some(p)));
    Instance::set_parent(&mut tree, c, Some(p));
    assert_eq!(tree.node(c).parent(), Some(p));
    assert_eq!(tree.node(p).children().to_vec(), vec![c]);
    assert_eq!(tree.node(p).children().iter().filter(|x| **x == c).count(), 1);
}

#[test]
fn attaching_an_attached_node_is_refused() {
    let mut tree = Hierarchy::new();
    let p = Instance::new(&mut tree);
    let q = Instance::new(&mut tree);
    let c = Instance::new(&mut tree);
    Instance::set_parent(&mut tree, c, Some(p));
    assert!(!Instance::can_add_child(tree.forest(), q, c));
    assert!(!Instance::can_set_parent(tree.forest(), c, Some(q)));
    let sent = Instance::set_parent(&mut tree, c, Some(q));
    assert!(sent.is_empty());
    assert_eq!(tree.node(c).parent(), Some(p));
    assert_eq!(tree.node(q).num_children(), 0);
    assert_eq!(tree.node(p).children().to_vec(), vec![c]);
    // through the protocol: first out, then in
    Instance::set_parent(&mut tree, c, None);
    Instance::set_parent(&mut tree, c, Some(q));
    assert_eq!(tree.node(c).parent(), Some(q));
    assert_eq!(tree.node(p).num_children(), 0);
    assert_eq!(tree.node(q).children().to_vec(), vec![c]);
}

#[test]
fn a_node_is_not_its_own_parent() {
    let mut tree = Hierarchy::new();
    let a = Instance::new(&mut tree);
    assert!(!Instance::can_add_child(tree.forest(), a, a));
    assert!(!Instance::can_set_parent(tree.forest(), a, Some(a)));
    let sent = Instance::set_parent(&mut tree, a, Some(a));
    assert!(sent.is_empty());
    assert_eq!(tree.node(a).parent(), None);
    assert_eq!(tree.node(a).num_children(), 0);
}

#[test]
fn unknown_handles_are_refused() {
    let mut tree = Hierarchy::new();
    let a = Instance::new(&mut tree);
    let ghost = InstanceId { index: 7 };
    assert!(!Instance::can_set_parent(tree.forest(), ghost, None));
    assert!(!Instance::can_set_parent(tree.forest(), a, Some(ghost)));
    assert!(!Instance::can_add_child(tree.forest(), ghost, a));
    assert!(!Instance::is_ancestor_of(tree.forest(), a, ghost));
    assert!(Instance::set_parent(&mut tree, ghost, None).is_empty());
    assert!(Instance::set_parent(&mut tree, a, Some(ghost)).is_empty());
    assert_eq!(tree.node(a).parent(), None);
}

#[test]
fn detach_removes_child_and_clears_parent() {
    let mut tree = Hierarchy::new();
    let p = Instance::new(&mut tree);
    let a = Instance::new(&mut tree);
    let b = Instance::new(&mut tree);
    let c = Instance::new(&mut tree);
    Instance::set_parent(&mut tree, a, Some(p));
    Instance::set_parent(&mut tree, b, Some(p));
    Instance::set_parent(&mut tree, c, Some(p));
    assert_eq!(tree.node(p).children().to_vec(), vec![a, b, c]);
    let sent = Instance::set_parent(&mut tree, b, None);
    assert_eq!(tree.node(b).parent(), None);
    assert_eq!(tree.node(p).children().to_vec(), vec![a, c]);
    assert!(!tree.node(p).contains(&b));
    assert_eq!(
        sent,
        vec![
            note(p, Signal::ChildRemoved, Some(b)),
            note(p, Signal::DescendantRemoved, Some(b)),
            note(b, Signal::ParentChanged, None),
        ]
    );
}

#[test]
fn detaching_a_detached_node_tells_parent_changed_only() {
    let mut tree = Hierarchy::new();
    let a = Instance::new(&mut tree);
    let sent = Instance::set_parent(&mut tree, a, None);
    assert_eq!(sent, vec![note(a, Signal::ParentChanged, None)]);
    assert_eq!(tree.node(a).parent(), None);
}

#[test]
fn scenario_grandchild_cannot_adopt_root() {
    let mut tree = Hierarchy::new();
    let r = Instance::new(&mut tree);
    let a = Instance::new(&mut tree);
    let b = Instance::new(&mut tree);
    Instance::set_parent(&mut tree, a, Some(r));
    assert_eq!(tree.node(r).num_children(), 1);
    Instance::set_parent(&mut tree, b, Some(a));
    assert!(Instance::is_ancestor_of(tree.forest(), r, b));
    assert!(Instance::is_ancestor_of(tree.forest(), a, b));
    assert!(Instance::is_ancestor_of(tree.forest(), r, a));
    assert!(!Instance::is_ancestor_of(tree.forest(), b, r));
    assert!(!Instance::is_ancestor_of(tree.forest(), b, b));
    assert!(!Instance::can_set_parent(tree.forest(), r, Some(b)));
    let sent = Instance::set_parent(&mut tree, r, Some(b));
    assert!(sent.is_empty());
    assert_eq!(tree.node(r).parent(), None);
    assert_eq!(tree.node(b).num_children(), 0);
    assert_eq!(tree.node(r).children().to_vec(), vec![a]);
}

#[test]
fn scenario_clone_copies_labels_only() {
    let mut tree = Hierarchy::new();
    let original = Instance::new(&mut tree);
    tree.node_mut(original).set_name("Original");
    tree.node_mut(original).set_class_name("Part");
    tree.node_mut(original).set_archivable(false);
    Instance::add_listener(&mut tree, original, Box::new(Silent));
    let k1 = Instance::new(&mut tree);
    let k2 = Instance::new(&mut tree);
    Instance::set_parent(&mut tree, k1, Some(original));
    Instance::set_parent(&mut tree, k2, Some(original));
    assert_eq!(tree.node(original).num_children(), 2);

    let copy = Instance::clone(&mut tree, original);
    assert_ne!(copy, original);
    assert_eq!(tree.node(copy).num_children(), 0);
    assert_eq!(tree.node(copy).parent(), None);
    assert_eq!(tree.node(copy).name(), "Original");
    assert_eq!(tree.node(copy).class_name(), "Part");
    assert!(!tree.node(copy).archivable());
    assert_eq!(tree.listener_count(copy), 0);
    assert_eq!(tree.listener_count(original), 1);
    assert_eq!(tree.node(original).num_children(), 2);
}

#[test]
fn is_a_compares_the_exact_tag() {
    let mut tree = Hierarchy::new();
    let node = Instance::new(&mut tree);
    assert!(tree.node(node).is_a("Instance"));
    tree.node_mut(node).set_class_name("Script");
    assert!(tree.node(node).is_a("Script"));
    assert!(!tree.node(node).is_a("Instance"));
    assert!(!tree.node(node).is_a("script"));
    assert!(!tree.node(node).is_a("Scrip"));
    assert!(!tree.node(node).is_a("Scripts"));
    assert!(!tree.node(node).is_a(""));
}

#[test]
fn find_first_child_takes_the_first_match() {
    let mut tree = Hierarchy::new();
    let p = Instance::new(&mut tree);
    let a = Instance::new(&mut tree);
    let b = Instance::new(&mut tree);
    let c = Instance::new(&mut tree);
    tree.node_mut(a).set_name("Part");
    tree.node_mut(b).set_name("Wheel");
    tree.node_mut(c).set_name("Wheel");
    tree.node_mut(b).set_class_name("Mesh");
    tree.node_mut(c).set_class_name("Mesh");
    Instance::set_parent(&mut tree, a, Some(p));
    Instance::set_parent(&mut tree, b, Some(p));
    Instance::set_parent(&mut tree, c, Some(p));
    assert_eq!(Instance::find_first_child(tree.forest(), p, "Wheel"), Some(b));
    assert_eq!(Instance::find_first_child(tree.forest(), p, "Part"), Some(a));
    assert_eq!(Instance::find_first_child(tree.forest(), p, "Door"), None);
    assert_eq!(Instance::find_first_child(tree.forest(), a, "Wheel"), None);
    assert_eq!(Instance::find_first_child_of_type(tree.forest(), p, "Mesh"), Some(b));
    assert_eq!(Instance::find_first_child_of_type(tree.forest(), p, "Instance"), Some(a));
    assert_eq!(Instance::find_first_child_of_type(tree.forest(), p, "Light"), None);
    Instance::set_parent(&mut tree, b, None);
    assert_eq!(Instance::find_first_child(tree.forest(), p, "Wheel"), Some(c));
}

#[test]
fn attach_cascade_reaches_parent_and_every_ancestor() {
    let mut tree = Hierarchy::new();
    let root = Instance::new(&mut tree);
    let mid = Instance::new(&mut tree);
    let p = Instance::new(&mut tree);
    let other = Instance::new(&mut tree);
    let c = Instance::new(&mut tree);
    let d1 = Instance::new(&mut tree);
    let d2 = Instance::new(&mut tree);
    let e = Instance::new(&mut tree);
    Instance::set_parent(&mut tree, mid, Some(root));
    Instance::set_parent(&mut tree, p, Some(mid));
    Instance::set_parent(&mut tree, other, Some(mid));
    Instance::set_parent(&mut tree, d1, Some(c));
    Instance::set_parent(&mut tree, e, Some(d1));
    Instance::set_parent(&mut tree, d2, Some(c));

    let sent = Instance::set_parent(&mut tree, c, Some(p));
    let mut expected = vec![note(p, Signal::ChildAdded, Some(c))];
    for entrant in [c, d1, e, d2] {
        for target in [p, mid, root] {
            expected.push(note(target, Signal::DescendantAdded, Some(entrant)));
        }
    }
    expected.push(note(c, Signal::ParentChanged, Some(p)));
    assert_eq!(sent, expected);

    let about_c_to_p: Vec<&Notification> =
        sent.iter().filter(|n| n.target == p && n.subject == Some(c)).collect();
    assert_eq!(about_c_to_p.len(), 2);
    assert_eq!(about_c_to_p[0].signal, Signal::ChildAdded);
    assert_eq!(about_c_to_p[1].signal, Signal::DescendantAdded);
    assert!(sent.iter().all(|n| n.target != other));
}

#[test]
fn removal_cascade_is_shallower_than_attach_cascade() {
    let mut tree = Hierarchy::new();
    let root = Instance::new(&mut tree);
    let p = Instance::new(&mut tree);
    let c = Instance::new(&mut tree);
    let d = Instance::new(&mut tree);
    Instance::set_parent(&mut tree, p, Some(root));
    Instance::set_parent(&mut tree, d, Some(c));
    let attached = Instance::set_parent(&mut tree, c, Some(p));
    assert_eq!(
        attached,
        vec![
            note(p, Signal::ChildAdded, Some(c)),
            note(p, Signal::DescendantAdded, Some(c)),
            note(root, Signal::DescendantAdded, Some(c)),
            note(p, Signal::DescendantAdded, Some(d)),
            note(root, Signal::DescendantAdded, Some(d)),
            note(c, Signal::ParentChanged, Some(p)),
        ]
    );
    let removed = Instance::set_parent(&mut tree, c, None);
    assert_eq!(
        removed,
        vec![
            note(p, Signal::ChildRemoved, Some(c)),
            note(p, Signal::DescendantRemoved, Some(c)),
            note(root, Signal::DescendantRemoved, Some(c)),
            note(c, Signal::ParentChanged, None),
        ]
    );
    assert_eq!(tree.node(c).children().to_vec(), vec![d]);
}

#[test]
fn listeners_are_told_in_order_of_attachment() {
    let log = Rc::new(RefCell::new(Vec::new()));
    let mut tree = Hierarchy::new();
    let root = Instance::new(&mut tree);
    let p = Instance::new(&mut tree);
    let c = Instance::new(&mut tree);
    Instance::set_parent(&mut tree, p, Some(root));
    Instance::add_listener(&mut tree, root, Box::new(Recorder { tag: "root", log: log.clone() }));
    Instance::add_listener(&mut tree, p, Box::new(Recorder { tag: "p1", log: log.clone() }));
    Instance::add_listener(&mut tree, p, Box::new(Recorder { tag: "p2", log: log.clone() }));
    Instance::add_listener(&mut tree, c, Box::new(Recorder { tag: "c", log: log.clone() }));
    assert_eq!(tree.listener_count(p), 2);

    Instance::set_parent(&mut tree, c, Some(p));
    assert_eq!(
        *log.borrow(),
        vec![
            ("p1", Signal::ChildAdded, Some(c)),
            ("p1", Signal::DescendantAdded, Some(c)),
            ("p2", Signal::ChildAdded, Some(c)),
            ("p2", Signal::DescendantAdded, Some(c)),
            ("root", Signal::DescendantAdded, Some(c)),
            ("c", Signal::ParentChanged, Some(p)),
        ]
    );
    log.borrow_mut().clear();

    Instance::set_parent(&mut tree, c, None);
    assert_eq!(
        *log.borrow(),
        vec![
            ("p1", Signal::ChildRemoved, Some(c)),
            ("p1", Signal::DescendantRemoved, Some(c)),
            ("p2", Signal::ChildRemoved, Some(c)),
            ("p2", Signal::DescendantRemoved, Some(c)),
            ("root", Signal::DescendantRemoved, Some(c)),
            ("c", Signal::ParentChanged, None),
        ]
    );
    log.borrow_mut().clear();

    // a refused reparenting tells nothing
    Instance::set_parent(&mut tree, root, Some(p));
    assert!(log.borrow().is_empty());
    assert_eq!(tree.listener_count(p), 2);
}

#[test]
fn the_listener_handed_over_is_the_one_that_hears() {
    let log = Rc::new(RefCell::new(Vec::new()));
    let mut tree = Hierarchy::new();
    let p = Instance::new(&mut tree);
    let q = Instance::new(&mut tree);
    Instance::add_listener(&mut tree, p, Box::new(Recorder { tag: "first", log: log.clone() }));

    // what calls no listener leaves every listener where it is
    let c = Instance::new(&mut tree);
    let d = Instance::clone(&mut tree, c);
    tree.node_mut(p).set_name("P");
    tree.set_service(p, "S", c);
    Instance::add_listener(&mut tree, q, Box::new(Recorder { tag: "other", log: log.clone() }));
    Instance::add_listener(&mut tree, p, Box::new(Recorder { tag: "second", log: log.clone() }));
    assert_eq!(tree.listener_count(p), 2);
    assert_eq!(tree.listener_count(q), 1);
    assert_eq!(tree.listener_count(c), 0);
    assert_eq!(tree.listener_count(d), 0);
    assert!(log.borrow().is_empty());

    Instance::set_parent(&mut tree, c, Some(p));
    assert_eq!(
        *log.borrow(),
        vec![
            ("first", Signal::ChildAdded, Some(c)),
            ("first", Signal::DescendantAdded, Some(c)),
            ("second", Signal::ChildAdded, Some(c)),
            ("second", Signal::DescendantAdded, Some(c)),
        ]
    );
    log.borrow_mut().clear();

    // the listener of a node that is told nothing hears nothing
    Instance::set_parent(&mut tree, c, None);
    assert!(log.borrow().iter().all(|entry| entry.0 != "other"));
    assert_eq!(log.borrow().len(), 4);
    log.borrow_mut().clear();

    Instance::set_parent(&mut tree, d, Some(q));
    assert_eq!(
        *log.borrow(),
        vec![
            ("other", Signal::ChildAdded, Some(d)),
            ("other", Signal::DescendantAdded, Some(d)),
        ]
    );
}

/// Checks from inside a callback what the forest looks like.
struct Inspector {
    seen: Rc<RefCell<Vec<(String, Option<InstanceId>, usize)>>>,
}

impl InstanceListener for Inspector {
    fn on_child_added(&mut self, forest: &Forest, child: InstanceId) {
        let parent = forest.node(child).parent();
        let siblings = forest.node(parent.unwrap()).num_children();
        self.seen.borrow_mut().push((forest.node(child).name().to_string(), parent, siblings));
    }

    fn on_child_removed(&mut self, forest: &Forest, child: InstanceId) {
        let parent = forest.node(child).parent();
        self.seen.borrow_mut().push((forest.node(child).name().to_string(), parent, 0));
    }
}

#[test]
fn listeners_see_the_forest_after_the_change() {
    let seen = Rc::new(RefCell::new(Vec::new()));
    let mut tree = Hierarchy::new();
    let p = Instance::new(&mut tree);
    let c = Instance::new(&mut tree);
    tree.node_mut(c).set_name("Child");
    Instance::add_listener(&mut tree, p, Box::new(Inspector { seen: seen.clone() }));
    Instance::set_parent(&mut tree, c, Some(p));
    Instance::set_parent(&mut tree, c, None);
    assert_eq!(
        *seen.borrow(),
        vec![("Child".to_string(), Some(p), 1), ("Child".to_string(), None, 0)]
    );
}

#[test]
fn base_properties_are_name_parent_archivable() {
    let mut tree = Hierarchy::new();
    let p = Instance::new(&mut tree);
    let node = Instance::new(&mut tree);
    Instance::set_parent(&mut tree, node, Some(p));
    let properties = tree.node(node).get_properties();
    assert_eq!(properties.len(), 3);

    assert_eq!(properties[0].name, "Name");
    assert_eq!(properties[0].description, "This is the name of this Instance.");
    assert_eq!(properties[0].access, AccessType::Unspecified);
    assert_eq!(properties[0].operation, OperationType::ReadWrite);
    assert_eq!(properties[0].property_type, PropertyType::String);
    assert_eq!(properties[0].getter, Some(PropertyGetter::Name));
    assert_eq!(properties[0].setter, Some(PropertySetter::Name));

    assert_eq!(properties[1].name, "Parent");
    assert_eq!(properties[1].description, "This is the parent of this Instance.");
    assert_eq!(properties[1].operation, OperationType::Read);
    assert_eq!(properties[1].property_type, PropertyType::Instance);
    assert_eq!(properties[1].getter, Some(PropertyGetter::Parent));
    assert_eq!(properties[1].setter, None);

    assert_eq!(properties[2].name, "Archivable");
    assert_eq!(
        properties[2].description,
        "This determines whether this Instance may be saved or replicated."
    );
    assert_eq!(properties[2].operation, OperationType::ReadWrite);
    assert_eq!(properties[2].property_type, PropertyType::Bool);
    assert_eq!(properties[2].getter, Some(PropertyGetter::Archivable));
    assert_eq!(properties[2].setter, Some(PropertySetter::Archivable));

    assert_eq!(
        properties[0].read(tree.node(node)),
        Some(PropertyValue::Text("Instance".to_string()))
    );
    assert_eq!(properties[1].read(tree.node(node)), Some(PropertyValue::Node(Some(p))));
    assert_eq!(properties[2].read(tree.node(node)), Some(PropertyValue::Bool(true)));

    assert!(properties[0].write(tree.node_mut(node), &PropertyValue::Text("Door".to_string())));
    assert_eq!(tree.node(node).name(), "Door");
    assert!(properties[2].write(tree.node_mut(node), &PropertyValue::Bool(false)));
    assert!(!tree.node(node).archivable());
    // the parent is read only, and a value of the wrong type is not written
    assert!(!properties[1].write(tree.node_mut(node), &PropertyValue::Node(None)));
    assert!(!properties[0].write(tree.node_mut(node), &PropertyValue::Bool(true)));
    assert!(!properties[2].write(tree.node_mut(node), &PropertyValue::Text("x".to_string())));
    assert_eq!(tree.node(node).name(), "Door");
    assert_eq!(tree.node(node).parent(), Some(p));
}

#[test]
fn base_functions_are_is_a_clone_destroy() {
    let mut tree = Hierarchy::new();
    let node = Instance::new(&mut tree);
    let functions = tree.node(node).get_functions();
    assert_eq!(functions.len(), 3);
    assert_eq!(functions[0].name, "IsA");
    assert_eq!(
        functions[0].description,
        "Returns true if the Instance is of the specified class."
    );
    assert_eq!(functions[0].function, FunctionBinding::IsA);
    assert_eq!(functions[1].name, "Clone");
    assert_eq!(functions[1].description, "Creates a copy of this Instance.");
    assert_eq!(functions[1].function, FunctionBinding::Clone);
    assert_eq!(functions[2].name, "Destroy");
    assert_eq!(functions[2].description, "Removes this Instance from the game.");
    assert_eq!(functions[2].function, FunctionBinding::Destroy);
}

#[test]
fn descriptors_are_built_from_their_parts() {
    let bare = ReflectionProperty::new(
        "Size",
        "How big it is.",
        AccessType::Read,
        OperationType::Read,
        PropertyType::Vector3,
    );
    assert_eq!(bare.name, "Size");
    assert_eq!(bare.description, "How big it is.");
    assert_eq!(bare.access, AccessType::Read);
    assert_eq!(bare.property_type, PropertyType::Vector3);
    assert_eq!(bare.getter, None);
    assert_eq!(bare.setter, None);
    let mut tree = Hierarchy::new();
    let node = Instance::new(&mut tree);
    assert_eq!(bare.read(tree.node(node)), None);
    let bound = bare.with_getter(PropertyGetter::Name).with_setter(PropertySetter::Name);
    assert_eq!(bound.getter, Some(PropertyGetter::Name));
    assert_eq!(bound.setter, Some(PropertySetter::Name));
    assert_eq!(bound.name, "Size");

    let function = ReflectionFunction::new("Destroy", "Takes it away.", FunctionBinding::Destroy);
    assert_eq!(function.name, "Destroy");
    assert_eq!(function.description, "Takes it away.");
    assert_eq!(function.function, FunctionBinding::Destroy);
}

#[test]
fn a_node_stands_under_one_parent_only() {
    let mut tree = Hierarchy::new();
    let nodes: Vec<InstanceId> = (0..6).map(|_| Instance::new(&mut tree)).collect();
    let moves = [
        (1, Some(0)),
        (2, Some(0)),
        (3, Some(1)),
        (3, Some(2)),
        (1, None),
        (1, Some(3)),
        (0, Some(3)),
        (4, Some(4)),
        (4, Some(5)),
        (5, Some(4)),
        (2, None),
        (2, Some(4)),
        (0, Some(2)),
    ];
    for (child, parent) in moves {
        Instance::set_parent(&mut tree, nodes[child], parent.map(|p: usize| nodes[p]));
        for node in &nodes {
            let holders: Vec<&InstanceId> = nodes
                .iter()
                .filter(|p| tree.node(**p).children().iter().filter(|c| *c == node).count() > 0)
                .collect();
            match tree.node(*node).parent() {
                Some(parent) => {
                    assert_eq!(holders, vec![&parent]);
                    assert_eq!(
                        tree.node(parent).children().iter().filter(|c| *c == node).count(),
                        1
                    );
                }
                None => assert!(holders.is_empty()),
            }
            assert!(!Instance::is_ancestor_of(tree.forest(), *node, *node));
        }
    }
    assert_eq!(tree.node(nodes[3]).parent(), Some(nodes[1]));
    assert_eq!(tree.node(nodes[1]).parent(), None);
    assert_eq!(tree.node(nodes[0]).parent(), Some(nodes[3]));
    assert_eq!(tree.node(nodes[2]).parent(), Some(nodes[4]));
    assert_eq!(tree.node(nodes[4]).parent(), Some(nodes[5]));
}
