use rnr::bridge::{
    InstanceBridge, NullScriptingBridge, ScriptError, ScriptHandle, ScriptingBridge,
};
use rnr::hierarchy::Hierarchy;
use rnr::instance::Instance;
use rnr::script::ScriptState;

#[test]
fn test_instance_bridge() {
    let mut tree = Hierarchy::new();
    let mut bridge = InstanceBridge::new();
    let instance = Instance::new(&mut tree);

    let id = bridge.register_instance(instance);
    assert!(bridge.get_instance(id).is_some());
    assert_eq!(bridge.get_instance(id + 1), None);

    bridge.unregister_instance(id);
    assert!(bridge.get_instance(id).is_none());
}

#[test]
fn test_null_bridge() {
    let mut bridge = NullScriptingBridge;

    // Should initialize without error
    assert!(bridge.initialize().is_ok());

    // All operations should fail gracefully
    assert!(bridge.load_script("test", "print('hello')").is_err());

    // Should not panic on shutdown
    bridge.shutdown();
}

#[test]
fn the_disabled_bridge_says_that_scripting_is_disabled() {
    let mut bridge = NullScriptingBridge;
    let disabled = ScriptError::RuntimeError("Scripting is disabled".to_string());
    assert_eq!(bridge.load_script("a", "b"), Err(ScriptError::RuntimeError("Scripting is disabled".to_string())));
    let handle = ScriptHandle { id: 1, name: "a".to_string() };
    assert_eq!(bridge.execute_script(&handle), Err(ScriptError::RuntimeError("Scripting is disabled".to_string())));
    assert_eq!(bridge.refuse(), disabled);
    assert_eq!(disabled.message(), "Runtime error: Scripting is disabled");
}

#[test]
fn script_errors_are_written_out() {
    assert_eq!(
        ScriptError::PropertyNotFound("Size".to_string()).message(),
        "Property 'Size' not found"
    );
    assert_eq!(ScriptError::MethodNotFound("Fly".to_string()).message(), "Method 'Fly' not found");
    assert_eq!(
        ScriptError::InvalidArguments("two needed".to_string()).message(),
        "Invalid arguments: two needed"
    );
    assert_eq!(
        ScriptError::TypeMismatch("Expected string for Name".to_string()).message(),
        "Type mismatch: Expected string for Name"
    );
    assert_eq!(ScriptError::RuntimeError(String::new()).message(), "Runtime error: ");
}

#[test]
fn numbers_are_given_in_order_from_one() {
    let mut tree = Hierarchy::new();
    let a = Instance::new(&mut tree);
    let b = Instance::new(&mut tree);
    let mut bridge = InstanceBridge::default();
    assert_eq!(bridge.get_instance(1), None);
    assert_eq!(bridge.register_instance(a), 1);
    assert_eq!(bridge.register_instance(b), 2);
    assert_eq!(bridge.register_instance(a), 3);
    assert_eq!(bridge.get_instance(1), Some(a));
    assert_eq!(bridge.get_instance(2), Some(b));
    assert_eq!(bridge.get_instance(3), Some(a));
    bridge.unregister_instance(2);
    bridge.unregister_instance(9);
    assert_eq!(bridge.get_instance(2), None);
    assert_eq!(bridge.get_instance(1), Some(a));
    // a number that was given is not given again
    assert_eq!(bridge.register_instance(b), 4);
}

#[test]
fn only_a_paused_script_can_resume() {
    assert!(ScriptState::Paused.can_resume());
    assert!(!ScriptState::Stopped.can_resume());
    assert!(!ScriptState::Running.can_resume());
    assert!(!ScriptState::Error("boom".to_string()).can_resume());
}
