//! What scripts and the engine exchange: script handles, script errors, the
//! bridge that stands in where scripting is off, and the table that gives
//! nodes the numbers scripts know them by.

use crate::model::InstanceId;
use std::collections::HashMap;
use vstd::prelude::*;
use vstd::std_specs::hash::*;
use vstd::string::StringExecFns;

verus! {

broadcast use vstd::std_specs::hash::group_hash_axioms;

/// What can go wrong when a script reaches into the engine.
#[derive(Debug, PartialEq, Eq)]
pub enum ScriptError {
    PropertyNotFound(String),
    MethodNotFound(String),
    InvalidArguments(String),
    TypeMismatch(String),
    RuntimeError(String),
}

/// The text of an error, as a mathematical value.
pub open spec fn error_text(error: ScriptError) -> Seq<char> {
    match error {
        ScriptError::PropertyNotFound(name) => "Property '"@ + name@ + "' not found"@,
        ScriptError::MethodNotFound(name) => "Method '"@ + name@ + "' not found"@,
        ScriptError::InvalidArguments(msg) => "Invalid arguments: "@ + msg@,
        ScriptError::TypeMismatch(msg) => "Type mismatch: "@ + msg@,
        ScriptError::RuntimeError(msg) => "Runtime error: "@ + msg@,
    }
}

impl ScriptError {
    /// The error written out.
    pub fn message(&self) -> (text: String)
        ensures
            text@ == error_text(*self),
    {
        match self {
            ScriptError::PropertyNotFound(name) => String::from_str("Property '").concat(
                name.as_str(),
            ).concat("' not found"),
            ScriptError::MethodNotFound(name) => String::from_str("Method '").concat(
                name.as_str(),
            ).concat("' not found"),
            ScriptError::InvalidArguments(msg) => String::from_str("Invalid arguments: ").concat(
                msg.as_str(),
            ),
            ScriptError::TypeMismatch(msg) => String::from_str("Type mismatch: ").concat(
                msg.as_str(),
            ),
            ScriptError::RuntimeError(msg) => String::from_str("Runtime error: ").concat(
                msg.as_str(),
            ),
        }
    }
}

/// A loaded script.
#[derive(Debug, Hash, PartialEq, Eq)]
pub struct ScriptHandle {
    pub id: u64,
    pub name: String,
}

/// What every operation of the disabled bridge answers.
pub open spec fn disabled_text() -> Seq<char> {
    "Scripting is disabled"@
}

/// Whether `error` is the answer of the disabled bridge.
pub open spec fn is_disabled(error: ScriptError) -> bool {
    error matches ScriptError::RuntimeError(msg) && msg@ == disabled_text()
}

/// What a script context needs of a scripting engine: to start, to load and
/// to run scripts, and to stop.
pub trait ScriptingBridge {
    /// Starts the engine.
    fn initialize(&mut self) -> Result<(), ScriptError>;

    /// Loads and compiles a script.
    fn load_script(&mut self, name: &str, source: &str) -> Result<ScriptHandle, ScriptError>;

    /// Runs a loaded script.
    fn execute_script(&mut self, handle: &ScriptHandle) -> Result<(), ScriptError>;

    /// Stops the engine.
    fn shutdown(&mut self);
}

/// The bridge that stands in where scripting is off: it starts and stops
/// without complaint and refuses everything else.
pub struct NullScriptingBridge;

impl NullScriptingBridge {
    /// What the bridge answers to everything but starting and stopping.
    pub fn refuse(&self) -> (error: ScriptError)
        ensures
            is_disabled(error),
    {
        ScriptError::RuntimeError(String::from_str("Scripting is disabled"))
    }
}

impl ScriptingBridge for NullScriptingBridge {
    fn initialize(&mut self) -> (started: Result<(), ScriptError>)
        ensures
            started is Ok,
    {
        Ok(())
    }

    fn load_script(&mut self, _name: &str, _source: &str) -> (loaded: Result<
        ScriptHandle,
        ScriptError,
    >)
        ensures
            loaded matches Err(error) && is_disabled(error),
    {
        Err(self.refuse())
    }

    fn execute_script(&mut self, _handle: &ScriptHandle) -> (done: Result<(), ScriptError>)
        ensures
            done matches Err(error) && is_disabled(error),
    {
        Err(self.refuse())
    }

    fn shutdown(&mut self) {
    }
}

/// The nodes that scripts can reach, each under the number it was given.
pub struct InstanceBridge {
    registered_instances: HashMap<u64, InstanceId>,
    next_id: u64,
}

impl InstanceBridge {
    /// Number to node.
    pub closed spec fn registered(&self) -> Map<u64, InstanceId> {
        self.registered_instances@
    }

    /// The number that the next node gets.
    pub closed spec fn next(&self) -> u64 {
        self.next_id
    }

    /// No node was given the next number or one beyond it.
    pub open spec fn wf(&self) -> bool {
        forall|id: u64| self.registered().contains_key(id) ==> id < self.next()
    }

    pub fn new() -> (bridge: Self)
        ensures
            bridge.registered() == Map::<u64, InstanceId>::empty(),
            bridge.next() == 1,
            bridge.wf(),
    {
        Self { registered_instances: HashMap::new(), next_id: 1 }
    }

    /// Gives `instance` the next number and returns it.
    pub fn register_instance(&mut self, instance: InstanceId) -> (id: u64)
        requires
            old(self).wf(),
            old(self).next() < u64::MAX,
        ensures
            final(self).wf(),
            id == old(self).next(),
            final(self).next() == id + 1,
            !old(self).registered().contains_key(id),
            final(self).registered() == old(self).registered().insert(id, instance),
    {
        let id = self.next_id;
        self.next_id += 1;
        self.registered_instances.insert(id, instance);
        proof {
            assert forall|k: u64| self.registered().contains_key(k) implies k < self.next() by {
                if k != id {
                    assert(old(self).registered().contains_key(k));
                }
            }
            if old(self).registered().contains_key(id) {
                assert(id < old(self).next());
            }
        }
        id
    }

    /// The node with the number `id`, if any.
    pub fn get_instance(&self, id: u64) -> (instance: Option<InstanceId>)
        ensures
            instance == (if self.registered().contains_key(id) {
                Some(self.registered()[id])
            } else {
                None
            }),
    {
        match self.registered_instances.get(&id) {
            Some(instance) => Some(*instance),
            None => None,
        }
    }

    /// Forgets the number `id`.
    pub fn unregister_instance(&mut self, id: u64)
        ensures
            final(self).registered() == old(self).registered().remove(id),
            final(self).next() == old(self).next(),
            old(self).wf() ==> final(self).wf(),
    {
        self.registered_instances.remove(&id);
        proof {
            if old(self).wf() {
                assert forall|k: u64| self.registered().contains_key(k) implies k < self.next() by {
                    assert(old(self).registered().contains_key(k));
                }
            }
        }
    }
}

impl Default for InstanceBridge {
    fn default() -> (bridge: Self)
        ensures
            bridge.registered() == Map::<u64, InstanceId>::empty(),
            bridge.next() == 1,
    {
        Self::new()
    }
}

} // verus!
