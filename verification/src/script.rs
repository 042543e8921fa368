//! Scripts as nodes of the hierarchy: their source, where they stand in their
//! run, and what they offer to the scripts themselves.

use crate::bridge::{ScriptError, ScriptHandle, ScriptingBridge};
use crate::context::{not_found_text, Request, ScriptContext};
use crate::hierarchy::{only_told_changed, Hierarchy};
use crate::instance::{Forest, Instance};
use crate::model::{fresh_view, has, reparented, InstanceId, InstanceView};
use crate::reflection::{PropertyValue, PropertyValueView};
use crate::table::{entered, lookup};
use crate::text::same_text;
use vstd::prelude::*;
use vstd::string::StringExecFns;

verus! {

/// The state of a script.
#[derive(Debug, PartialEq, Eq)]
pub enum ScriptState {
    Stopped,
    Running,
    Paused,
    Error(String),
}

impl ScriptState {
    /// Whether the script can be resumed: only a paused script can.
    pub fn can_resume(&self) -> (paused: bool)
        ensures
            paused == (*self is Paused),
    {
        match self {
            ScriptState::Paused => true,
            _ => false,
        }
    }
}

/// The name and the type tag of the node of a script.
pub open spec fn script_tag() -> Seq<char> {
    "Script"@
}

/// The record of the node of a fresh script.
pub open spec fn script_view() -> InstanceView {
    InstanceView { name: script_tag(), class_name: script_tag(), ..fresh_view() }
}

/// The name under which the script of a node named `name` is loaded.
pub open spec fn load_name(name: Seq<char>) -> Seq<char> {
    "Script_"@ + name
}

/// The properties that a script offers.
#[derive(Debug, Clone, Copy, PartialEq, Eq, Structural)]
pub enum ScriptProperty {
    Name,
    Source,
    Disabled,
    LinkedSource,
}

/// The property that `name` names, if any.
pub open spec fn property_named(name: Seq<char>) -> Option<ScriptProperty> {
    if name == "Name"@ {
        Some(ScriptProperty::Name)
    } else if name == "Source"@ {
        Some(ScriptProperty::Source)
    } else if name == "Disabled"@ {
        Some(ScriptProperty::Disabled)
    } else if name == "LinkedSource"@ {
        Some(ScriptProperty::LinkedSource)
    } else {
        None
    }
}

/// The methods that a script offers.
#[derive(Debug, Clone, Copy, PartialEq, Eq, Structural)]
pub enum ScriptMethod {
    Clone,
    Destroy,
}

/// The method that `name` names, if any.
pub open spec fn method_named(name: Seq<char>) -> Option<ScriptMethod> {
    if name == "Clone"@ {
        Some(ScriptMethod::Clone)
    } else if name == "Destroy"@ {
        Some(ScriptMethod::Destroy)
    } else {
        None
    }
}

/// A script: a node, a source, and where the script stands in its run.
pub struct Script {
    instance: InstanceId,
    source: String,
    compiled_bytecode: Option<Vec<u8>>,
    state: ScriptState,
    error_message: Option<String>,
}

/// A script as a mathematical value.
pub struct ScriptView {
    pub instance: InstanceId,
    pub source: Seq<char>,
    pub compiled: bool,
    pub state: ScriptState,
    pub error_message: Option<Seq<char>>,
}

impl View for Script {
    type V = ScriptView;

    closed spec fn view(&self) -> ScriptView {
        ScriptView {
            instance: self.instance,
            source: self.source@,
            compiled: self.compiled_bytecode is Some,
            state: self.state,
            error_message: match self.error_message {
                Some(text) => Some(text@),
                None => None,
            },
        }
    }
}

fn property_of(name: &str) -> (property: Option<ScriptProperty>)
    ensures
        property == property_named(name@),
{
    if same_text(name, "Name") {
        Some(ScriptProperty::Name)
    } else if same_text(name, "Source") {
        Some(ScriptProperty::Source)
    } else if same_text(name, "Disabled") {
        Some(ScriptProperty::Disabled)
    } else if same_text(name, "LinkedSource") {
        Some(ScriptProperty::LinkedSource)
    } else {
        None
    }
}

fn method_of(name: &str) -> (method: Option<ScriptMethod>)
    ensures
        method == method_named(name@),
{
    if same_text(name, "Clone") {
        Some(ScriptMethod::Clone)
    } else if same_text(name, "Destroy") {
        Some(ScriptMethod::Destroy)
    } else {
        None
    }
}

impl Script {
    /// Creates a stopped script of `source` and its node, named and tagged
    /// "Script".
    pub fn new(tree: &mut Hierarchy, source: String) -> (script: Script)
        requires
            old(tree).wf(),
        ensures
            final(tree).wf(),
            final(tree)@ == old(tree)@.push(script_view()),
            final(tree).listeners() == old(tree).listeners().push(Seq::empty()),
            final(tree).listener_counts() == old(tree).listener_counts().push(0),
            final(tree).journal() == old(tree).journal(),
            final(tree).services() == old(tree).services().push(Map::empty()),
            script@ == (ScriptView {
                instance: InstanceId { index: old(tree)@.len() as usize },
                source: source@,
                compiled: false,
                state: ScriptState::Stopped,
                error_message: None,
            }),
    {
        let instance = Instance::new(tree);
        tree.node_mut(instance).set_name("Script");
        tree.node_mut(instance).set_class_name("Script");
        assert(tree@ =~= old(tree)@.push(script_view()));
        Script {
            instance,
            source,
            compiled_bytecode: None,
            state: ScriptState::Stopped,
            error_message: None,
        }
    }

    /// The node of the script.
    pub fn instance(&self) -> (node: InstanceId)
        ensures
            node == self@.instance,
    {
        self.instance
    }

    pub fn source(&self) -> (source: &str)
        ensures
            source@ == self@.source,
    {
        self.source.as_str()
    }

    /// Gives the script a new source: what was compiled is no longer good,
    /// and the script is stopped.
    pub fn set_source(&mut self, source: String)
        ensures
            final(self)@ == (ScriptView {
                source: source@,
                compiled: false,
                state: ScriptState::Stopped,
                ..old(self)@
            }),
    {
        self.source = source;
        self.compiled_bytecode = None;
        self.state = ScriptState::Stopped;
    }

    /// The name under which the script is loaded into a context: "Script_"
    /// and the name of its node.
    pub fn script_name(&self, forest: &Forest) -> (name: String)
        requires
            has(forest@, self@.instance),
        ensures
            name@ == load_name(forest@[self@.instance.index as int].name),
    {
        String::from_str("Script_").concat(forest.node(self.instance).name())
    }

    /// The error for a script that is to be compiled or run and has no
    /// context.
    pub fn no_context() -> (error: ScriptError)
        ensures
            error matches ScriptError::RuntimeError(text) && text@ == "No script context set"@,
    {
        ScriptError::RuntimeError(String::from_str("No script context set"))
    }

    /// Asks `context` to load the source of the script under the name of the
    /// script. A script that was loaded stands stopped; else the script stays
    /// as it is and what went wrong is handed on.
    pub fn compile<B: ScriptingBridge>(&mut self, forest: &Forest, context: &mut ScriptContext<B>) -> (done:
        Result<(), ScriptError>)
        requires
            has(forest@, old(self)@.instance),
            old(context).wf(),
        ensures
            final(context).wf(),
            final(context).running() == old(context).running(),
            final(context).asked() == old(context).asked().push(
                Request::Load {
                    name: load_name(forest@[old(self)@.instance.index as int].name),
                    source: old(self)@.source,
                },
            ),
            match done {
                Ok(()) => final(self)@ == (ScriptView { state: ScriptState::Stopped, ..old(self)@ })
                    && exists|handle: ScriptHandle|
                    final(context).loaded() == entered(
                        old(context).loaded(),
                        load_name(forest@[old(self)@.instance.index as int].name),
                        handle,
                    ),
                Err(_) => final(self)@ == old(self)@ && final(context).loaded() == old(context).loaded(),
            },
    {
        let name = self.script_name(forest);
        match context.load_script(name.as_str(), self.source.as_str()) {
            Ok(()) => {
                self.compiled();
                Ok(())
            },
            Err(error) => Err(error),
        }
    }

    /// Asks `context` to run the script under the name of the script. A
    /// script that has run stands running; else the script stays as it is and
    /// what went wrong is handed on. A script that was not loaded into
    /// `context` is not found, and the engine is not asked.
    pub fn execute<B: ScriptingBridge>(&mut self, forest: &Forest, context: &mut ScriptContext<B>) -> (done:
        Result<(), ScriptError>)
        requires
            has(forest@, old(self)@.instance),
        ensures
            final(context).loaded() == old(context).loaded(),
            final(context).running() == old(context).running(),
            match done {
                Ok(()) => final(self)@ == (ScriptView { state: ScriptState::Running, ..old(self)@ }),
                Err(_) => final(self)@ == old(self)@,
            },
            match lookup(
                old(context).loaded(),
                load_name(forest@[old(self)@.instance.index as int].name),
            ) {
                Some(handle) => final(context).asked() == old(context).asked().push(
                    Request::Execute { handle },
                ),
                None => final(context).asked() == old(context).asked() && (done matches Err(
                    ScriptError::RuntimeError(text),
                ) && text@ == not_found_text(
                    load_name(forest@[old(self)@.instance.index as int].name),
                )),
            },
    {
        let name = self.script_name(forest);
        match context.execute_script(name.as_str()) {
            Ok(()) => {
                self.executed();
                Ok(())
            },
            Err(error) => Err(error),
        }
    }

    /// The context has compiled the script: it stands stopped.
    pub fn compiled(&mut self)
        ensures
            final(self)@ == (ScriptView { state: ScriptState::Stopped, ..old(self)@ }),
    {
        self.state = ScriptState::Stopped;
    }

    /// The context has run the script: it stands running.
    pub fn executed(&mut self)
        ensures
            final(self)@ == (ScriptView { state: ScriptState::Running, ..old(self)@ }),
    {
        self.state = ScriptState::Running;
    }

    pub fn pause(&mut self)
        ensures
            final(self)@ == (ScriptView { state: ScriptState::Paused, ..old(self)@ }),
    {
        self.state = ScriptState::Paused;
    }

    /// Lets a paused script run on; a script that is not paused stays as it
    /// is.
    pub fn resume(&mut self) -> (resumed: Result<(), ScriptError>)
        ensures
            old(self)@.state is Paused ==> resumed is Ok && final(self)@ == (ScriptView {
                state: ScriptState::Running,
                ..old(self)@
            }),
            !(old(self)@.state is Paused) ==> final(self)@ == old(self)@ && (resumed matches Err(
                ScriptError::RuntimeError(text),
            ) && text@ == "Script is not paused"@),
    {
        if self.state.can_resume() {
            self.state = ScriptState::Running;
            Ok(())
        } else {
            Err(ScriptError::RuntimeError(String::from_str("Script is not paused")))
        }
    }

    pub fn stop(&mut self)
        ensures
            final(self)@ == (ScriptView { state: ScriptState::Stopped, ..old(self)@ }),
    {
        self.state = ScriptState::Stopped;
    }

    pub fn state(&self) -> (state: &ScriptState)
        ensures
            *state == self@.state,
    {
        &self.state
    }

    pub fn error_message(&self) -> (message: Option<&str>)
        ensures
            match message {
                Some(text) => self@.error_message == Some(text@),
                None => self@.error_message is None,
            },
    {
        match &self.error_message {
            Some(text) => Some(text.as_str()),
            None => None,
        }
    }

    /// Whether the script is disabled: its node is not archivable.
    pub fn disabled(&self, forest: &Forest) -> (disabled: bool)
        requires
            has(forest@, self@.instance),
        ensures
            disabled == !forest@[self@.instance.index as int].archivable,
    {
        !forest.node(self.instance).archivable()
    }

    /// Disables or enables the script; a script that is disabled is stopped.
    pub fn set_disabled(&mut self, tree: &mut Hierarchy, disabled: bool)
        requires
            old(tree).wf(),
            has(old(tree)@, old(self)@.instance),
        ensures
            final(tree).wf(),
            final(tree).listeners() == old(tree).listeners(),
            final(tree).listener_counts() == old(tree).listener_counts(),
            final(tree).journal() == old(tree).journal(),
            final(tree).services() == old(tree).services(),
            final(tree)@ == old(tree)@.update(
                old(self)@.instance.index as int,
                InstanceView { archivable: !disabled, ..old(tree)@[old(self)@.instance.index as int] },
            ),
            final(self)@ == (if disabled {
                ScriptView { state: ScriptState::Stopped, ..old(self)@ }
            } else {
                old(self)@
            }),
    {
        tree.node_mut(self.instance).set_archivable(!disabled);
        if disabled {
            self.stop();
        }
    }

    /// A copy of the script with a fresh node that has the name of the node
    /// of this script: the same source, stopped.
    pub fn clone_script(&self, tree: &mut Hierarchy) -> (copy: Script)
        requires
            old(tree).wf(),
            has(old(tree)@, self@.instance),
        ensures
            final(tree).wf(),
            final(tree).listeners() == old(tree).listeners().push(Seq::empty()),
            final(tree).listener_counts() == old(tree).listener_counts().push(0),
            final(tree)@ == old(tree)@.push(
                InstanceView { name: old(tree)@[self@.instance.index as int].name, ..fresh_view() },
            ),
            final(tree).journal() == old(tree).journal(),
            final(tree).services() == old(tree).services().push(Map::empty()),
            copy@ == (ScriptView {
                instance: InstanceId { index: old(tree)@.len() as usize },
                source: self@.source,
                compiled: self@.compiled,
                state: ScriptState::Stopped,
                error_message: None,
            }),
    {
        let instance = Instance::new(tree);
        let name = String::from_str(tree.node(self.instance).name());
        tree.node_mut(instance).set_name(name.as_str());
        assert(tree@ =~= old(tree)@.push(
            InstanceView { name: old(tree)@[self@.instance.index as int].name, ..fresh_view() },
        ));
        let compiled_bytecode = match &self.compiled_bytecode {
            Some(bytes) => Some(bytes.clone()),
            None => None,
        };
        Script {
            instance,
            source: self.source.clone(),
            compiled_bytecode,
            state: ScriptState::Stopped,
            error_message: None,
        }
    }

    /// The class that scripts know a script by.
    pub fn script_class_name(&self) -> (name: &'static str)
        ensures
            name@ == script_tag(),
    {
        "Script"
    }

    /// The value of the property `name`: the name of the node, the source,
    /// whether the script is disabled, or the empty linked source; nothing for
    /// any other name.
    pub fn get_script_property(&self, forest: &Forest, name: &str) -> (value: Option<PropertyValue>)
        requires
            has(forest@, self@.instance),
        ensures
            match property_named(name@) {
                Some(ScriptProperty::Name) => value matches Some(v) && v@ == PropertyValueView::Text(
                    forest@[self@.instance.index as int].name,
                ),
                Some(ScriptProperty::Source) => value matches Some(v) && v@
                    == PropertyValueView::Text(self@.source),
                Some(ScriptProperty::Disabled) => value matches Some(v) && v@
                    == PropertyValueView::Bool(!forest@[self@.instance.index as int].archivable),
                Some(ScriptProperty::LinkedSource) => value matches Some(v) && v@
                    == PropertyValueView::Text(Seq::empty()),
                None => value is None,
            },
    {
        match property_of(name) {
            Some(ScriptProperty::Name) => Some(
                PropertyValue::Text(String::from_str(forest.node(self.instance).name())),
            ),
            Some(ScriptProperty::Source) => Some(PropertyValue::Text(self.source.clone())),
            Some(ScriptProperty::Disabled) => Some(PropertyValue::Bool(self.disabled(forest))),
            Some(ScriptProperty::LinkedSource) => Some(PropertyValue::Text(String::new())),
            None => None,
        }
    }

    /// Sets the property `name`. The name and the source take text, the
    /// disabled flag takes a boolean; a value of another type is a type
    /// mismatch and changes nothing. Every other name, the linked source too,
    /// is a property that is not found.
    pub fn set_script_property(&mut self, tree: &mut Hierarchy, name: &str, value: PropertyValue) -> (done:
        Result<(), ScriptError>)
        requires
            old(tree).wf(),
            has(old(tree)@, old(self)@.instance),
        ensures
            final(tree).wf(),
            final(tree).listeners() == old(tree).listeners(),
            final(tree).listener_counts() == old(tree).listener_counts(),
            final(tree).journal() == old(tree).journal(),
            final(tree).services() == old(tree).services(),
            set_outcome(old(self)@, old(tree)@, name@, value@, final(self)@, final(tree)@, done),
    {
        let ghost node = tree@[self@.instance.index as int];
        match property_of(name) {
            Some(ScriptProperty::Name) => {
                match value {
                    PropertyValue::Text(text) => {
                        tree.node_mut(self.instance).set_name(text.as_str());
                        Ok(())
                    },
                    _ => Err(
                        ScriptError::TypeMismatch(String::from_str("Expected string for Name")),
                    ),
                }
            },
            Some(ScriptProperty::Source) => {
                match value {
                    PropertyValue::Text(text) => {
                        self.set_source(text);
                        Ok(())
                    },
                    _ => Err(
                        ScriptError::TypeMismatch(String::from_str("Expected string for Source")),
                    ),
                }
            },
            Some(ScriptProperty::Disabled) => {
                match value {
                    PropertyValue::Bool(disabled) => {
                        self.set_disabled(tree, disabled);
                        Ok(())
                    },
                    _ => Err(
                        ScriptError::TypeMismatch(String::from_str("Expected bool for Disabled")),
                    ),
                }
            },
            _ => Err(ScriptError::PropertyNotFound(String::from_str(name))),
        }
    }

    /// Calls the method `name`: "Clone" gives the node of the script,
    /// "Destroy" takes the node out of its parent and gives nothing; any other
    /// name is a method that is not found. Returns the result and what the
    /// call told the listeners of the hierarchy; a registry on the parent has
    /// heard it too.
    pub fn call_script_method(&mut self, tree: &mut Hierarchy, name: &str) -> (done: (
        Result<Option<InstanceId>, ScriptError>,
        Vec<crate::events::Notification>,
    ))
        requires
            old(tree).wf(),
        ensures
            final(tree).wf(),
            final(tree).listener_counts() == old(tree).listener_counts(),
            final(self)@ == old(self)@,
            match method_named(name@) {
                Some(ScriptMethod::Clone) => final(tree)@ == old(tree)@ && done.0 == Ok::<
                    Option<InstanceId>,
                    ScriptError,
                >(Some(old(self)@.instance)) && done.1@.len() == 0 && final(tree).journal() == old(tree).journal()
                    && final(tree).services() == old(tree).services() && final(tree).listeners()
                    == old(tree).listeners(),
                Some(ScriptMethod::Destroy) => final(tree)@ == reparented(
                    old(tree)@,
                    old(self)@.instance,
                    None,
                ) && done.0 == Ok::<Option<InstanceId>, ScriptError>(None) && done.1@
                    == crate::events::reparent_notifications(old(tree)@, old(self)@.instance, None)
                    && final(tree).journal() == old(tree).journal() + crate::events::reparent_calls(
                    old(tree)@,
                    old(tree).listener_counts(),
                    old(self)@.instance,
                    None,
                ) && final(tree).services() == crate::events::services_told(
                    old(tree).services(),
                    final(tree)@,
                    done.1@,
                ) && only_told_changed(old(tree).listeners(), final(tree).listeners(), done.1@),
                None => final(tree)@ == old(tree)@ && done.1@.len() == 0 && final(tree).journal()
                    == old(tree).journal() && final(tree).services() == old(tree).services()
                    && final(tree).listeners() == old(tree).listeners() && (done.0 matches Err(
                    ScriptError::MethodNotFound(text),
                ) && text@ == name@),
            },
    {
        match method_of(name) {
            Some(ScriptMethod::Clone) => (Ok(Some(self.instance)), Vec::new()),
            Some(ScriptMethod::Destroy) => {
                let sent = Instance::set_parent(tree, self.instance, None);
                (Ok(None), sent)
            },
            None => (Err(ScriptError::MethodNotFound(String::from_str(name))), Vec::new()),
        }
    }
}

/// What `set_script_property` does and answers.
pub open spec fn set_outcome(
    before: ScriptView,
    s: Seq<InstanceView>,
    name: Seq<char>,
    value: PropertyValueView,
    after: ScriptView,
    t: Seq<InstanceView>,
    done: Result<(), ScriptError>,
) -> bool {
    let at = before.instance.index as int;
    match property_named(name) {
        Some(ScriptProperty::Name) => if value is Text {
            &&& done is Ok
            &&& after == before
            &&& t == s.update(at, InstanceView { name: value->Text_0, ..s[at] })
        } else {
            &&& after == before
            &&& t == s
            &&& done matches Err(ScriptError::TypeMismatch(text)) && text@
                == "Expected string for Name"@
        },
        Some(ScriptProperty::Source) => if value is Text {
            &&& done is Ok
            &&& t == s
            &&& after == (ScriptView {
                source: value->Text_0,
                compiled: false,
                state: ScriptState::Stopped,
                ..before
            })
        } else {
            &&& after == before
            &&& t == s
            &&& done matches Err(ScriptError::TypeMismatch(text)) && text@
                == "Expected string for Source"@
        },
        Some(ScriptProperty::Disabled) => if value is Bool {
            &&& done is Ok
            &&& t == s.update(at, InstanceView { archivable: !value->Bool_0, ..s[at] })
            &&& after == (if value->Bool_0 {
                ScriptView { state: ScriptState::Stopped, ..before }
            } else {
                before
            })
        } else {
            &&& after == before
            &&& t == s
            &&& done matches Err(ScriptError::TypeMismatch(text)) && text@
                == "Expected bool for Disabled"@
        },
        _ => {
            &&& after == before
            &&& t == s
            &&& done matches Err(ScriptError::PropertyNotFound(text)) && text@ == name
        },
    }
}

/// `scripts` without every entry that is `script`, the others in their
/// order.
pub open spec fn without(scripts: Seq<InstanceId>, script: InstanceId) -> Seq<InstanceId>
    decreases scripts.len(),
{
    if scripts.len() == 0 {
        Seq::empty()
    } else if scripts.last() != script {
        without(scripts.drop_last(), script).push(scripts.last())
    } else {
        without(scripts.drop_last(), script)
    }
}

/// The scripts of a data model, in the order in which they were added.
pub struct ScriptService {
    instance: InstanceId,
    scripts: Vec<InstanceId>,
}

/// The name and the type tag of the node of the script service.
pub open spec fn script_service_tag() -> Seq<char> {
    "ScriptService"@
}

impl ScriptService {
    /// The node of the service.
    pub closed spec fn node(&self) -> InstanceId {
        self.instance
    }

    /// The nodes of the scripts, in the order in which they were added.
    pub closed spec fn listed(&self) -> Seq<InstanceId> {
        self.scripts@
    }

    /// Creates the service and its node, named and tagged "ScriptService".
    pub fn new(tree: &mut Hierarchy) -> (service: ScriptService)
        requires
            old(tree).wf(),
        ensures
            final(tree).wf(),
            final(tree)@ == old(tree)@.push(
                InstanceView {
                    name: script_service_tag(),
                    class_name: script_service_tag(),
                    ..fresh_view()
                },
            ),
            final(tree).listeners() == old(tree).listeners().push(Seq::empty()),
            final(tree).listener_counts() == old(tree).listener_counts().push(0),
            final(tree).journal() == old(tree).journal(),
            final(tree).services() == old(tree).services().push(Map::empty()),
            service.node().index == old(tree)@.len(),
            service.listed() == Seq::<InstanceId>::empty(),
    {
        let instance = Instance::new(tree);
        tree.node_mut(instance).set_name("ScriptService");
        tree.node_mut(instance).set_class_name("ScriptService");
        assert(tree@ =~= old(tree)@.push(
            InstanceView {
                name: script_service_tag(),
                class_name: script_service_tag(),
                ..fresh_view()
            },
        ));
        ScriptService { instance, scripts: Vec::new() }
    }

    pub fn instance(&self) -> (node: InstanceId)
        ensures
            node == self.node(),
    {
        self.instance
    }

    /// Adds the script whose node is `script`.
    pub fn add_script(&mut self, script: InstanceId)
        ensures
            final(self).listed() == old(self).listed().push(script),
            final(self).node() == old(self).node(),
    {
        self.scripts.push(script);
    }

    /// Takes out every entry for the script whose node is `script`.
    pub fn remove_script(&mut self, script: InstanceId)
        ensures
            final(self).listed() == without(old(self).listed(), script),
            final(self).node() == old(self).node(),
    {
        let mut kept: Vec<InstanceId> = Vec::new();
        let n = self.scripts.len();
        let mut i: usize = 0;
        while i < n
            invariant
                i <= n,
                n == self.scripts@.len(),
                self.scripts@ == old(self).scripts@,
                kept@ == without(self.scripts@.take(i as int), script),
            decreases n - i,
        {
            let other = self.scripts[i];
            proof {
                let next = self.scripts@.take(i as int + 1);
                assert(next.drop_last() =~= self.scripts@.take(i as int));
                assert(next.last() == other);
            }
            if other.index != script.index {
                kept.push(other);
            }
            i += 1;
        }
        assert(self.scripts@.take(n as int) =~= self.scripts@);
        self.scripts = kept;
    }

    /// The nodes of the scripts, in the order in which they were added.
    pub fn scripts(&self) -> (scripts: &[InstanceId])
        ensures
            scripts@ == self.listed(),
    {
        self.scripts.as_slice()
    }
}

} // verus!
