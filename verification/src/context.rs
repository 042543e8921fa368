//! Script contexts: a scripting engine behind a bridge, and the scripts
//! that were loaded into it.

use crate::bridge::{ScriptError, ScriptHandle, ScriptingBridge};
use crate::table::{dropped, entered, lookup, names_distinct, NameTable};
use vstd::prelude::*;
use vstd::string::StringExecFns;

verus! {

/// What is answered when a script is to run that was not loaded.
pub open spec fn not_found_text(name: Seq<char>) -> Seq<char> {
    "Script '"@ + name + "' not found"@
}

/// One thing that a context asks of its engine.
pub enum Request {
    Initialize,
    Load { name: Seq<char>, source: Seq<char> },
    Execute { handle: ScriptHandle },
    Shutdown,
}

/// The requests by which the first `count` of `loaded` are run in turn.
pub open spec fn executions(loaded: Seq<(Seq<char>, ScriptHandle)>, count: int) -> Seq<Request> {
    Seq::new(count as nat, |i: int| Request::Execute { handle: loaded[i].1 })
}

/// A scripting engine and the scripts loaded into it, in the order in which
/// their names were first loaded.
pub struct ScriptContext<B: ScriptingBridge> {
    bridge: B,
    loaded_scripts: NameTable<ScriptHandle>,
    is_running: bool,
    /// Everything that the context has asked of the engine, in order.
    asked: Ghost<Seq<Request>>,
}

impl<B: ScriptingBridge> ScriptContext<B> {
    /// The loaded scripts: name and handle.
    pub closed spec fn loaded(&self) -> Seq<(Seq<char>, ScriptHandle)> {
        self.loaded_scripts@
    }

    /// Whether the engine was started and not stopped since.
    pub closed spec fn running(&self) -> bool {
        self.is_running
    }

    /// The engine behind the context.
    pub closed spec fn engine(&self) -> B {
        self.bridge
    }

    /// Everything that the context has asked of the engine, in order.
    pub closed spec fn asked(&self) -> Seq<Request> {
        self.asked@
    }

    /// No script name is loaded twice.
    pub open spec fn wf(&self) -> bool {
        names_distinct(self.loaded())
    }

    /// A context on `bridge`, not started, with nothing loaded.
    pub fn new(bridge: B) -> (context: Self)
        ensures
            context.wf(),
            context.loaded() == Seq::<(Seq<char>, ScriptHandle)>::empty(),
            !context.running(),
            context.engine() == bridge,
            context.asked() == Seq::<Request>::empty(),
    {
        Self {
            bridge,
            loaded_scripts: NameTable::new(),
            is_running: false,
            asked: Ghost(Seq::empty()),
        }
    }

    /// The engine behind the context.
    pub fn bridge(&self) -> (bridge: &B)
        ensures
            *bridge == self.engine(),
    {
        &self.bridge
    }

    /// The engine behind the context, for what the context does not do
    /// itself. What is asked of the engine through this reference is not
    /// written down as asked by the context.
    pub fn bridge_mut(&mut self) -> (bridge: &mut B)
        ensures
            *bridge == old(self).engine(),
            final(self).engine() == *final(bridge),
            final(self).loaded() == old(self).loaded(),
            final(self).running() == old(self).running(),
            final(self).asked() == old(self).asked(),
    {
        &mut self.bridge
    }

    /// Takes note of how the engine has started: a context whose engine has
    /// started is running.
    pub fn started(&mut self, outcome: Result<(), ScriptError>) -> (done: Result<(), ScriptError>)
        ensures
            match outcome {
                Ok(_) => done is Ok,
                Err(error) => done == Err::<(), ScriptError>(error),
            },
            final(self).loaded() == old(self).loaded(),
            final(self).running() == (outcome is Ok || old(self).running()),
            final(self).asked() == old(self).asked(),
            final(self).engine() == old(self).engine(),
    {
        match outcome {
            Ok(()) => {
                self.is_running = true;
                Ok(())
            },
            Err(error) => Err(error),
        }
    }

    /// Asks the engine to start and hands on its answer; the context is
    /// running if the engine has started.
    pub fn initialize(&mut self) -> (done: Result<(), ScriptError>)
        ensures
            final(self).asked() == old(self).asked().push(Request::Initialize),
            final(self).loaded() == old(self).loaded(),
            final(self).running() == (done is Ok || old(self).running()),
    {
        let outcome = self.bridge.initialize();
        proof {
            self.asked@ = self.asked@.push(Request::Initialize);
        }
        self.started(outcome)
    }

    /// Takes note of how the engine has loaded the script `name`: a script
    /// that was loaded is entered under its name, in place of what stood
    /// there.
    pub fn record_loaded(&mut self, name: &str, outcome: Result<ScriptHandle, ScriptError>) -> (done:
        Result<(), ScriptError>)
        requires
            old(self).wf(),
        ensures
            final(self).wf(),
            final(self).running() == old(self).running(),
            final(self).asked() == old(self).asked(),
            final(self).engine() == old(self).engine(),
            match outcome {
                Ok(handle) => done is Ok && final(self).loaded() == entered(
                    old(self).loaded(),
                    name@,
                    handle,
                ),
                Err(error) => done == Err::<(), ScriptError>(error) && final(self).loaded() == old(self).loaded(),
            },
    {
        match outcome {
            Ok(handle) => {
                self.loaded_scripts.insert(String::from_str(name), handle);
                Ok(())
            },
            Err(error) => Err(error),
        }
    }

    /// Asks the engine to load `source` under `name`, enters what was loaded
    /// and hands on what went wrong.
    pub fn load_script(&mut self, name: &str, source: &str) -> (done: Result<(), ScriptError>)
        requires
            old(self).wf(),
        ensures
            final(self).wf(),
            final(self).running() == old(self).running(),
            final(self).asked() == old(self).asked().push(
                Request::Load { name: name@, source: source@ },
            ),
            match done {
                Ok(()) => exists|handle: ScriptHandle|
                    final(self).loaded() == entered(old(self).loaded(), name@, handle),
                Err(_) => final(self).loaded() == old(self).loaded(),
            },
    {
        let outcome = self.bridge.load_script(name, source);
        proof {
            self.asked@ = self.asked@.push(Request::Load { name: name@, source: source@ });
        }
        self.record_loaded(name, outcome)
    }

    /// The error for a script that is to run and was not loaded.
    pub fn not_found(name: &str) -> (error: ScriptError)
        ensures
            error matches ScriptError::RuntimeError(text) && text@ == not_found_text(name@),
    {
        ScriptError::RuntimeError(String::from_str("Script '").concat(name).concat("' not found"))
    }

    /// Asks the engine to run the script loaded under `name` and hands on its
    /// answer; a script that was not loaded is not found, and the engine is
    /// not asked.
    pub fn execute_script(&mut self, name: &str) -> (done: Result<(), ScriptError>)
        ensures
            final(self).loaded() == old(self).loaded(),
            final(self).running() == old(self).running(),
            match lookup(old(self).loaded(), name@) {
                Some(handle) => final(self).asked() == old(self).asked().push(
                    Request::Execute { handle },
                ),
                None => final(self).asked() == old(self).asked() && final(self).engine() == old(self).engine() && (done matches Err(ScriptError::RuntimeError(text)) && text@
                    == not_found_text(name@)),
            },
    {
        match self.loaded_scripts.get(name) {
            Some(handle) => {
                proof {
                    self.asked@ = self.asked@.push(Request::Execute { handle: *handle });
                }
                self.bridge.execute_script(handle)
            },
            None => Err(Self::not_found(name)),
        }
    }

    pub fn is_running(&self) -> (running: bool)
        ensures
            running == self.running(),
    {
        self.is_running
    }

    /// Asks the engine to stop; the context is running no longer.
    pub fn shutdown(&mut self)
        ensures
            final(self).asked() == old(self).asked().push(Request::Shutdown),
            final(self).loaded() == old(self).loaded(),
            !final(self).running(),
    {
        self.is_running = false;
        self.bridge.shutdown();
        proof {
            self.asked@ = self.asked@.push(Request::Shutdown);
        }
    }

    /// The names of the loaded scripts, in the order in which they were first
    /// loaded.
    pub fn loaded_scripts(&self) -> (names: Vec<String>)
        ensures
            names@.len() == self.loaded().len(),
            forall|i: int| 0 <= i < names@.len() ==> (#[trigger] names@[i])@ == self.loaded()[i].0,
    {
        let mut names: Vec<String> = Vec::new();
        let n = self.loaded_scripts.len();
        let mut i: usize = 0;
        while i < n
            invariant
                i <= n,
                n == self.loaded().len(),
                names@.len() == i,
                forall|k: int| 0 <= k < i ==> (#[trigger] names@[k])@ == self.loaded()[k].0,
            decreases n - i,
        {
            names.push(String::from_str(self.loaded_scripts.name_at(i)));
            i += 1;
        }
        names
    }

    /// Forgets the script loaded under `name`.
    pub fn unload_script(&mut self, name: &str)
        requires
            old(self).wf(),
        ensures
            final(self).wf(),
            final(self).running() == old(self).running(),
            final(self).loaded() == dropped(old(self).loaded(), name@),
            final(self).asked() == old(self).asked(),
            final(self).engine() == old(self).engine(),
    {
        self.loaded_scripts.remove(name);
    }

    /// Asks the engine to run every loaded script again, in the order in
    /// which they were first loaded. All were run if it succeeds; else it
    /// stops behind the first that fails and hands on what went wrong.
    pub fn reload_all_scripts(&mut self) -> (done: Result<(), ScriptError>)
        ensures
            final(self).loaded() == old(self).loaded(),
            final(self).running() == old(self).running(),
            match done {
                Ok(()) => final(self).asked() == old(self).asked() + executions(
                    old(self).loaded(),
                    old(self).loaded().len() as int,
                ),
                Err(_) => exists|count: int|
                    1 <= count <= old(self).loaded().len() && final(self).asked() == old(self).asked() + #[trigger] executions(old(self).loaded(), count),
            },
    {
        let n = self.loaded_scripts.len();
        let mut i: usize = 0;
        assert(self.asked() =~= old(self).asked() + executions(self.loaded(), 0));
        while i < n
            invariant
                i <= n,
                n == self.loaded().len(),
                self.loaded() == old(self).loaded(),
                self.running() == old(self).running(),
                self.asked() == old(self).asked() + executions(self.loaded(), i as int),
            decreases n - i,
        {
            let handle = self.loaded_scripts.value_at(i);
            proof {
                self.asked@ = self.asked@.push(Request::Execute { handle: *handle });
                assert(self.asked() =~= old(self).asked() + executions(
                    self.loaded(),
                    i as int + 1,
                ));
            }
            let outcome = self.bridge.execute_script(handle);
            if let Err(error) = outcome {
                return Err(error);
            }
            i += 1;
        }
        Ok(())
    }
}

} // verus!
