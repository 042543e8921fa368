use rnr::bridge::{NullScriptingBridge, ScriptError, ScriptHandle, ScriptingBridge};
use rnr::context::ScriptContext;
use rnr::hierarchy::Hierarchy;
use rnr::script::{Script, ScriptState};
use rnr::table::NameTable;
use rnr::world::add;

/// An engine that loads everything but scripts whose source is "bad", and
/// writes down what it ran.
struct FakeBridge {
    next_id: u64,
    ran: Vec<String>,
    stopped: bool,
}

impl FakeBridge {
    fn new() -> Self {
        FakeBridge { next_id: 1, ran: Vec::new(), stopped: false }
    }
}

impl ScriptingBridge for FakeBridge {
    fn initialize(&mut self) -> Result<(), ScriptError> {
        Ok(())
    }

    fn load_script(&mut self, name: &str, source: &str) -> Result<ScriptHandle, ScriptError> {
        if source == "bad" {
            return Err(ScriptError::InvalidArguments("bad source".to_string()));
        }
        let handle = ScriptHandle { id: self.next_id, name: name.to_string() };
        self.next_id += 1;
        Ok(handle)
    }

    fn execute_script(&mut self, handle: &ScriptHandle) -> Result<(), ScriptError> {
        if handle.name == "Script_Broken" {
            return Err(ScriptError::RuntimeError("boom".to_string()));
        }
        self.ran.push(format!("{}#{}", handle.name, handle.id));
        Ok(())
    }

    fn shutdown(&mut self) {
        self.stopped = true;
    }
}

/// An engine that does not start.
struct DeadBridge;

impl ScriptingBridge for DeadBridge {
    fn initialize(&mut self) -> Result<(), ScriptError> {
        Err(ScriptError::RuntimeError("no engine".to_string()))
    }

    fn load_script(&mut self, _name: &str, _source: &str) -> Result<ScriptHandle, ScriptError> {
        Err(ScriptError::RuntimeError("no engine".to_string()))
    }

    fn execute_script(&mut self, _handle: &ScriptHandle) -> Result<(), ScriptError> {
        Err(ScriptError::RuntimeError("no engine".to_string()))
    }

    fn shutdown(&mut self) {}
}

#[test]
fn test_script_context_creation() {
    let bridge = Box::new(NullScriptingBridge);
    let context = ScriptContext::new(*bridge);

    assert!(!context.is_running());
    assert!(context.loaded_scripts().is_empty());
}

#[test]
fn test_script_context_lifecycle() {
    let bridge = Box::new(NullScriptingBridge);
    let mut context = ScriptContext::new(*bridge);

    // Initialize
    context.initialize().unwrap();
    assert!(context.is_running());

    // Load script (should fail with null bridge)
    assert!(context.load_script("test", "print('hello')").is_err());

    // Shutdown
    context.shutdown();
    assert!(!context.is_running());
}

#[test]
fn test_script_execution() {
    let mut tree = Hierarchy::new();
    let bridge = Box::new(NullScriptingBridge);
    let mut context = ScriptContext::new(*bridge);
    context.initialize().unwrap();

    let mut script = Script::new(&mut tree, "test".to_string());

    // Without proper context, execution should fail
    assert!(script.compile(tree.forest(), &mut context).is_err());
    assert!(script.execute(tree.forest(), &mut context).is_err());
}

#[test]
fn a_context_that_does_not_start_is_not_running() {
    let mut context = ScriptContext::new(DeadBridge);
    assert_eq!(context.initialize(), Err(ScriptError::RuntimeError("no engine".to_string())));
    assert!(!context.is_running());
    assert_eq!(context.started(Ok(())), Ok(()));
    assert!(context.is_running());
    assert_eq!(
        context.started(Err(ScriptError::RuntimeError("late".to_string()))),
        Err(ScriptError::RuntimeError("late".to_string()))
    );
    assert!(context.is_running());
}

#[test]
fn scripts_are_loaded_run_and_unloaded_by_name() {
    let mut context = ScriptContext::new(FakeBridge::new());
    assert_eq!(context.initialize(), Ok(()));
    assert_eq!(
        context.execute_script("a"),
        Err(ScriptError::RuntimeError("Script 'a' not found".to_string()))
    );
    assert_eq!(context.load_script("a", "print(1)"), Ok(()));
    assert_eq!(context.load_script("b", "print(2)"), Ok(()));
    assert_eq!(
        context.load_script("c", "bad"),
        Err(ScriptError::InvalidArguments("bad source".to_string()))
    );
    assert_eq!(context.loaded_scripts(), vec!["a".to_string(), "b".to_string()]);
    // a name that is loaded again keeps its place and gets the new handle
    assert_eq!(context.load_script("a", "print(3)"), Ok(()));
    assert_eq!(context.loaded_scripts(), vec!["a".to_string(), "b".to_string()]);
    assert_eq!(context.execute_script("a"), Ok(()));
    assert_eq!(context.execute_script("b"), Ok(()));
    assert_eq!(context.bridge().ran, vec!["a#3".to_string(), "b#2".to_string()]);
    assert_eq!(context.reload_all_scripts(), Ok(()));
    assert_eq!(
        context.bridge().ran,
        vec!["a#3".to_string(), "b#2".to_string(), "a#3".to_string(), "b#2".to_string()]
    );
    context.unload_script("a");
    context.unload_script("zzz");
    assert_eq!(context.loaded_scripts(), vec!["b".to_string()]);
    assert_eq!(
        context.execute_script("a"),
        Err(ScriptError::RuntimeError("Script 'a' not found".to_string()))
    );
    context.bridge_mut().ran.clear();
    assert_eq!(context.execute_script("b"), Ok(()));
    assert_eq!(context.bridge().ran, vec!["b#2".to_string()]);
    context.shutdown();
    assert!(context.bridge().stopped);
    assert!(!context.is_running());
    assert_eq!(context.loaded_scripts(), vec!["b".to_string()]);
}

#[test]
fn reloading_stops_at_the_first_script_that_fails() {
    let mut context = ScriptContext::new(FakeBridge::new());
    assert_eq!(context.reload_all_scripts(), Ok(()));
    assert_eq!(context.record_loaded("x", Ok(ScriptHandle { id: 7, name: "x".to_string() })), Ok(()));
    assert_eq!(
        context.record_loaded("y", Ok(ScriptHandle { id: 8, name: "Script_Broken".to_string() })),
        Ok(())
    );
    assert_eq!(context.record_loaded("z", Ok(ScriptHandle { id: 9, name: "z".to_string() })), Ok(()));
    assert_eq!(
        context.record_loaded("w", Err(ScriptError::TypeMismatch("no".to_string()))),
        Err(ScriptError::TypeMismatch("no".to_string()))
    );
    assert_eq!(context.loaded_scripts(), vec!["x".to_string(), "y".to_string(), "z".to_string()]);
    assert_eq!(context.reload_all_scripts(), Err(ScriptError::RuntimeError("boom".to_string())));
    assert_eq!(context.bridge().ran, vec!["x#7".to_string()]);
}

#[test]
fn a_script_is_compiled_and_run_in_a_context() {
    let mut tree = Hierarchy::new();
    let mut context = ScriptContext::new(FakeBridge::new());
    let mut script = Script::new(&mut tree, "print(1)".to_string());
    tree.node_mut(script.instance()).set_name("Door");

    assert_eq!(
        script.execute(tree.forest(), &mut context),
        Err(ScriptError::RuntimeError("Script 'Script_Door' not found".to_string()))
    );
    assert_eq!(*script.state(), ScriptState::Stopped);
    script.pause();
    assert_eq!(script.compile(tree.forest(), &mut context), Ok(()));
    assert_eq!(*script.state(), ScriptState::Stopped);
    assert_eq!(context.loaded_scripts(), vec!["Script_Door".to_string()]);
    assert_eq!(script.execute(tree.forest(), &mut context), Ok(()));
    assert_eq!(*script.state(), ScriptState::Running);
    assert_eq!(context.bridge().ran, vec!["Script_Door#1".to_string()]);

    script.set_source("bad".to_string());
    script.executed();
    assert_eq!(
        script.compile(tree.forest(), &mut context),
        Err(ScriptError::InvalidArguments("bad source".to_string()))
    );
    assert_eq!(*script.state(), ScriptState::Running);

    tree.node_mut(script.instance()).set_name("Broken");
    script.set_source("ok".to_string());
    assert_eq!(script.compile(tree.forest(), &mut context), Ok(()));
    assert_eq!(
        script.execute(tree.forest(), &mut context),
        Err(ScriptError::RuntimeError("boom".to_string()))
    );
    assert_eq!(*script.state(), ScriptState::Stopped);
    assert_eq!(
        Script::no_context(),
        ScriptError::RuntimeError("No script context set".to_string())
    );
}

#[test]
fn a_name_table_keeps_the_order_of_first_entry() {
    let mut table: NameTable<u32> = NameTable::new();
    assert_eq!(table.len(), 0);
    assert_eq!(table.get("a"), None);
    table.insert("a".to_string(), 1);
    table.insert("b".to_string(), 2);
    table.insert("a".to_string(), 3);
    assert_eq!(table.len(), 2);
    assert_eq!(table.get("a"), Some(&3));
    assert_eq!(table.get("b"), Some(&2));
    assert_eq!(table.position_of("a"), Some(0));
    assert_eq!(table.position_of("b"), Some(1));
    assert_eq!(table.position_of("c"), None);
    assert_eq!(table.name_at(1), "b");
    assert_eq!(*table.value_at(0), 3);
    table.remove("a");
    table.remove("zzz");
    assert_eq!(table.len(), 1);
    assert_eq!(table.get("a"), None);
    assert_eq!(table.position_of("b"), Some(0));
}

#[test]
fn lib_it_works_world() {
    let result = add(2, 2);
    assert_eq!(result, 4);
}
