use rnr::datamodel::{create_instance, DataModel, DataModelInstanceExt};
use rnr::hierarchy::Hierarchy;
use rnr::instance::Instance;
use rnr::script::Script;
use rnr::world::{add, LoadProgress, WorldConfig, WorldLoadState, LOAD_PROGRESS_MAX};

#[test]
fn test_datamodel_creation() {
    let mut tree = Hierarchy::new();
    let datamodel = DataModel::new(&mut tree);
    assert_eq!(tree.node(datamodel.instance()).name(), "DataModel");
    assert_eq!(tree.node(datamodel.instance()).class_name(), "DataModel");
}

#[test]
fn test_service_registration() {
    let mut tree = Hierarchy::new();
    let mut datamodel = DataModel::new(&mut tree);
    let service = Instance::new(&mut tree);
    tree.node_mut(service).set_name("TestService");

    datamodel.register_service(&mut tree, "TestService", service);

    assert!(datamodel.get_service(&tree, "TestService").is_some());
    assert_eq!(tree.node(datamodel.get_service(&tree, "TestService").unwrap()).name(), "TestService");
}

#[test]
fn test_guid_registration() {
    let mut tree = Hierarchy::new();
    let mut datamodel = DataModel::new(&mut tree);
    let instance = Instance::new(&mut tree);

    datamodel.register_instance_guid(instance, "test-guid".to_string());

    assert!(datamodel.get_instance_by_guid("test-guid").is_some());
    assert_eq!(datamodel.get_guid_for_instance(instance), Some("test-guid".to_string()));
}

#[test]
fn lib_it_works() {
    assert_eq!(2 + 2, 4);
}

#[test]
fn registered_service_is_found_and_dropped_on_detach() {
    let mut tree = Hierarchy::new();
    let mut datamodel = DataModel::new(&mut tree);
    let n = Instance::new(&mut tree);
    tree.node_mut(n).set_name("X");
    assert_eq!(datamodel.get_service(&tree, "X"), None);

    datamodel.register_service(&mut tree, "X", n);
    assert_eq!(datamodel.get_service(&tree, "X"), Some(n));
    assert_eq!(tree.node(n).parent(), Some(datamodel.instance()));
    assert!(tree.node(datamodel.instance()).contains(&n));

    Instance::set_parent(&mut tree, n, None);
    assert_eq!(datamodel.get_service(&tree, "X"), None);
    assert_eq!(tree.node(n).parent(), None);
}

#[test]
fn service_is_dropped_by_the_name_of_the_removed_child() {
    let mut tree = Hierarchy::new();
    let mut datamodel = DataModel::new(&mut tree);
    let lights = Instance::new(&mut tree);
    tree.node_mut(lights).set_name("Lighting");
    let other = Instance::new(&mut tree);
    tree.node_mut(other).set_name("Other");
    datamodel.register_service(&mut tree, "Lighting", lights);
    datamodel.register_service(&mut tree, "Players", other);

    // the child named "Other" leaves: the entry "Players" stays, for no
    // entry has the name of the child
    Instance::set_parent(&mut tree, other, None);
    assert_eq!(datamodel.get_service(&tree, "Players"), Some(other));
    assert_eq!(datamodel.get_service(&tree, "Lighting"), Some(lights));

    // a child that is renamed to "Lighting" and leaves drops that entry
    Instance::set_parent(&mut tree, other, Some(datamodel.instance()));
    tree.node_mut(other).set_name("Lighting");
    Instance::set_parent(&mut tree, other, None);
    assert_eq!(datamodel.get_service(&tree, "Lighting"), None);
    assert_eq!(datamodel.get_service(&tree, "Players"), Some(other));
    assert_eq!(tree.node(lights).parent(), Some(datamodel.instance()));
}

#[test]
fn removal_below_the_root_drops_nothing() {
    let mut tree = Hierarchy::new();
    let mut datamodel = DataModel::new(&mut tree);
    let service = Instance::new(&mut tree);
    tree.node_mut(service).set_name("Lighting");
    datamodel.register_service(&mut tree, "Lighting", service);
    let lamp = Instance::new(&mut tree);
    tree.node_mut(lamp).set_name("Lighting");
    Instance::set_parent(&mut tree, lamp, Some(service));
    Instance::set_parent(&mut tree, lamp, None);
    assert_eq!(datamodel.get_service(&tree, "Lighting"), Some(service));
}

#[test]
fn registering_a_name_again_overwrites_without_detaching() {
    let mut tree = Hierarchy::new();
    let mut datamodel = DataModel::new(&mut tree);
    let first = Instance::new(&mut tree);
    let second = Instance::new(&mut tree);
    datamodel.register_service(&mut tree, "Sound", first);
    datamodel.register_service(&mut tree, "Sound", second);
    assert_eq!(datamodel.get_service(&tree, "Sound"), Some(second));
    assert_eq!(tree.node(first).parent(), Some(datamodel.instance()));
    assert_eq!(tree.node(second).parent(), Some(datamodel.instance()));
    assert_eq!(tree.node(datamodel.instance()).children().to_vec(), vec![first, second]);
}

#[test]
fn registering_an_attached_node_records_it_where_it_is() {
    let mut tree = Hierarchy::new();
    let mut datamodel = DataModel::new(&mut tree);
    let holder = Instance::new(&mut tree);
    let service = Instance::new(&mut tree);
    Instance::set_parent(&mut tree, service, Some(holder));
    datamodel.register_service(&mut tree, "Chat", service);
    assert_eq!(datamodel.get_service(&tree, "Chat"), Some(service));
    assert_eq!(tree.node(service).parent(), Some(holder));
    assert_eq!(tree.node(datamodel.instance()).num_children(), 0);
}

#[test]
fn guid_round_trip() {
    let mut tree = Hierarchy::new();
    let mut datamodel = DataModel::new(&mut tree);
    let n = Instance::new(&mut tree);
    assert_eq!(datamodel.get_instance_by_guid("g1"), None);
    assert_eq!(datamodel.get_guid_for_instance(n), None);

    datamodel.register_instance_guid(n, "g1".to_string());
    assert_eq!(datamodel.get_instance_by_guid("g1"), Some(n));
    assert_eq!(datamodel.get_guid_for_instance(n), Some("g1".to_string()));

    datamodel.remove_instance_guid("g1");
    assert_eq!(datamodel.get_instance_by_guid("g1"), None);
    assert_eq!(datamodel.get_guid_for_instance(n), None);
    // removing what is not there changes nothing
    datamodel.remove_instance_guid("g1");
    assert_eq!(datamodel.get_instance_by_guid("g1"), None);
}

#[test]
fn last_writer_wins_on_guid_collision() {
    let mut tree = Hierarchy::new();
    let mut datamodel = DataModel::new(&mut tree);
    let a = Instance::new(&mut tree);
    let b = Instance::new(&mut tree);
    datamodel.register_instance_guid(a, "g".to_string());
    datamodel.register_instance_guid(b, "h".to_string());
    datamodel.register_instance_guid(b, "g".to_string());
    assert_eq!(datamodel.get_instance_by_guid("g"), Some(b));
    assert_eq!(datamodel.get_instance_by_guid("h"), Some(b));
    assert_eq!(datamodel.get_guid_for_instance(a), None);
    // the id that was registered first is the one that is found
    assert_eq!(datamodel.get_guid_for_instance(b), Some("g".to_string()));
    datamodel.remove_instance_guid("g");
    assert_eq!(datamodel.get_guid_for_instance(b), Some("h".to_string()));
}

#[test]
fn no_factory_makes_no_instance() {
    assert_eq!(create_instance("Part"), None);
    assert_eq!(create_instance(""), None);
}

#[test]
fn the_registry_cannot_be_had_from_a_node() {
    let mut tree = Hierarchy::new();
    let mut datamodel = DataModel::new(&mut tree);
    let service = Instance::new(&mut tree);
    datamodel.register_service(&mut tree, "Chat", service);
    assert_eq!(<Instance as DataModelInstanceExt>::get_datamodel(tree.forest(), service), None);
    assert_eq!(
        <Instance as DataModelInstanceExt>::get_datamodel(tree.forest(), datamodel.instance()),
        None
    );
}

#[test]
fn loading_goes_through_its_stages() {
    let mut progress = LoadProgress::begin();
    assert_eq!(progress.load_state, WorldLoadState::LoadingDataModel);
    assert_eq!(progress.load_progress, 0);
    assert_eq!(progress.max_load_progress, LOAD_PROGRESS_MAX);
    assert_eq!(LOAD_PROGRESS_MAX, 100);
    progress = progress.enter(WorldLoadState::LoadingDataModel);
    assert_eq!(progress.load_progress, 50);
    let mut expected = vec![
        (WorldLoadState::LoadingDataModelProperties, 75),
        (WorldLoadState::LoadingMakeJoints, 90),
        (WorldLoadState::Finished, 100),
    ];
    expected.reverse();
    while !progress.is_finished() {
        let next = progress.next_state();
        progress = progress.enter(next);
        let (state, percent) = expected.pop().unwrap();
        assert_eq!(progress.load_state, state);
        assert_eq!(progress.load_progress, percent);
    }
    assert!(expected.is_empty());
    assert_eq!(progress.next_state(), WorldLoadState::Finished);
}

#[test]
fn world_config_holds_its_values() {
    let config = WorldConfig {
        enable_rendering: true,
        enable_networking: false,
        enable_physics: true,
        enable_input: false,
        target_fps: 60,
        viewport_width: 800,
        viewport_height: 600,
    };
    let copy = config;
    assert!(copy.enable_rendering && !copy.enable_networking);
    assert_eq!((copy.target_fps, copy.viewport_width, copy.viewport_height), (60, 800, 600));
    assert_eq!(add(u64::MAX - 1, 1), u64::MAX);
}

#[test]
fn every_detach_from_the_root_is_seen_by_the_registry() {
    let mut tree = Hierarchy::new();
    let mut datamodel = DataModel::new(&mut tree);
    let n = Instance::new(&mut tree);
    tree.node_mut(n).set_name("X");
    let other = Instance::new(&mut tree);
    datamodel.register_service(&mut tree, "X", n);
    datamodel.register_service(&mut tree, "Y", other);

    let sent = Instance::set_parent(&mut tree, other, None);
    assert_eq!(sent.len(), 3);
    assert_eq!(datamodel.get_service(&tree, "X"), Some(n));
    assert_eq!(datamodel.get_service(&tree, "Y"), Some(other));

    let sent = Instance::set_parent(&mut tree, n, None);
    assert_eq!(sent.len(), 3);
    assert_eq!(tree.node(n).parent(), None);
    assert_eq!(datamodel.get_service(&tree, "X"), None);
    assert_eq!(datamodel.get_service(&tree, "Y"), Some(other));

    // a refused reparenting tells nothing and drops nothing
    let sent = Instance::set_parent(&mut tree, datamodel.instance(), Some(datamodel.instance()));
    assert!(sent.is_empty());
    assert_eq!(datamodel.get_service(&tree, "Y"), Some(other));
}

#[test]
fn a_destroyed_script_is_no_service_any_more() {
    let mut tree = Hierarchy::new();
    let mut datamodel = DataModel::new(&mut tree);
    let mut script = Script::new(&mut tree, "print(1)".to_string());
    datamodel.register_service(&mut tree, "Script", script.instance());
    assert_eq!(datamodel.get_service(&tree, "Script"), Some(script.instance()));
    let (result, _sent) = script.call_script_method(&mut tree, "Destroy");
    assert_eq!(result, Ok(None));
    assert_eq!(tree.node(script.instance()).parent(), None);
    assert_eq!(datamodel.get_service(&tree, "Script"), None);
}

#[test]
fn two_registries_keep_their_own_services() {
    let mut tree = Hierarchy::new();
    let mut first = DataModel::new(&mut tree);
    let mut second = DataModel::new(&mut tree);
    let a = Instance::new(&mut tree);
    tree.node_mut(a).set_name("Chat");
    let b = Instance::new(&mut tree);
    tree.node_mut(b).set_name("Chat");
    first.register_service(&mut tree, "Chat", a);
    second.register_service(&mut tree, "Chat", b);
    assert_eq!(first.get_service(&tree, "Chat"), Some(a));
    assert_eq!(second.get_service(&tree, "Chat"), Some(b));
    Instance::set_parent(&mut tree, b, None);
    assert_eq!(first.get_service(&tree, "Chat"), Some(a));
    assert_eq!(second.get_service(&tree, "Chat"), None);
}
