//! Descriptors of what a node offers to scripting and tooling: properties
//! that can be read and written, functions that can be called.

use crate::instance::Instance;
use crate::model::{InstanceId, InstanceView};
use vstd::prelude::*;

verus! {

/// The type of the value behind a property.
#[derive(Debug, Clone, Copy, PartialEq, Eq, Structural)]
pub enum PropertyType {
    Bool,
    Int,
    Float,
    String,
    Instance,
    Vector2,
    Vector3,
    CFrame,
}

/// Who may reach a property.
#[derive(Debug, Clone, Copy, PartialEq, Eq, Structural)]
pub enum AccessType {
    Unspecified,
    Read,
    Write,
    ReadWrite,
}

/// What can be done with a property.
#[derive(Debug, Clone, Copy, PartialEq, Eq, Structural)]
pub enum OperationType {
    Read,
    ReadWrite,
}

/// What a getter is bound to.
#[derive(Debug, Clone, Copy, PartialEq, Eq, Structural)]
pub enum PropertyGetter {
    Name,
    Parent,
    Archivable,
}

/// What a setter is bound to.
#[derive(Debug, Clone, Copy, PartialEq, Eq, Structural)]
pub enum PropertySetter {
    Name,
    Archivable,
}

/// What a reflected function is bound to.
#[derive(Debug, Clone, Copy, PartialEq, Eq, Structural)]
pub enum FunctionBinding {
    IsA,
    Clone,
    Destroy,
}

/// A value read from or written to a property.
#[derive(Debug, PartialEq, Eq)]
pub enum PropertyValue {
    Bool(bool),
    Text(String),
    Node(Option<InstanceId>),
}

/// A property value as a mathematical value.
pub enum PropertyValueView {
    Bool(bool),
    Text(Seq<char>),
    Node(Option<InstanceId>),
}

impl View for PropertyValue {
    type V = PropertyValueView;

    open spec fn view(&self) -> PropertyValueView {
        match self {
            PropertyValue::Bool(b) => PropertyValueView::Bool(*b),
            PropertyValue::Text(s) => PropertyValueView::Text(s@),
            PropertyValue::Node(n) => PropertyValueView::Node(*n),
        }
    }
}

/// What `getter` reads from a node.
pub open spec fn read_of(getter: PropertyGetter, node: InstanceView) -> PropertyValueView {
    match getter {
        PropertyGetter::Name => PropertyValueView::Text(node.name),
        PropertyGetter::Parent => PropertyValueView::Node(node.parent),
        PropertyGetter::Archivable => PropertyValueView::Bool(node.archivable),
    }
}

/// Whether `setter` takes `value`: a name is text, a flag is a boolean.
pub open spec fn accepts(setter: PropertySetter, value: PropertyValueView) -> bool {
    match setter {
        PropertySetter::Name => value is Text,
        PropertySetter::Archivable => value is Bool,
    }
}

/// The node after `setter` has written `value`, which it accepts.
pub open spec fn written(
    setter: PropertySetter,
    node: InstanceView,
    value: PropertyValueView,
) -> InstanceView {
    match setter {
        PropertySetter::Name => InstanceView { name: value->Text_0, ..node },
        PropertySetter::Archivable => InstanceView { archivable: value->Bool_0, ..node },
    }
}

/// A reflected property.
pub struct ReflectionProperty {
    pub name: String,
    pub description: String,
    pub access: AccessType,
    pub operation: OperationType,
    pub property_type: PropertyType,
    pub getter: Option<PropertyGetter>,
    pub setter: Option<PropertySetter>,
}

/// A reflected property as a mathematical value.
pub struct PropertyView {
    pub name: Seq<char>,
    pub description: Seq<char>,
    pub access: AccessType,
    pub operation: OperationType,
    pub property_type: PropertyType,
    pub getter: Option<PropertyGetter>,
    pub setter: Option<PropertySetter>,
}

impl View for ReflectionProperty {
    type V = PropertyView;

    open spec fn view(&self) -> PropertyView {
        PropertyView {
            name: self.name@,
            description: self.description@,
            access: self.access,
            operation: self.operation,
            property_type: self.property_type,
            getter: self.getter,
            setter: self.setter,
        }
    }
}

impl ReflectionProperty {
    /// A descriptor bound to nothing yet.
    pub fn new(
        name: &str,
        description: &str,
        access: AccessType,
        operation: OperationType,
        property_type: PropertyType,
    ) -> (property: Self)
        ensures
            property@ == (PropertyView {
                name: name@,
                description: description@,
                access,
                operation,
                property_type,
                getter: None,
                setter: None,
            }),
    {
        Self {
            name: name.to_owned(),
            description: description.to_owned(),
            access,
            operation,
            property_type,
            getter: None,
            setter: None,
        }
    }

    pub fn with_getter(self, getter: PropertyGetter) -> (property: Self)
        ensures
            property@ == (PropertyView { getter: Some(getter), ..self@ }),
    {
        let mut property = self;
        property.getter = Some(getter);
        property
    }

    pub fn with_setter(self, setter: PropertySetter) -> (property: Self)
        ensures
            property@ == (PropertyView { setter: Some(setter), ..self@ }),
    {
        let mut property = self;
        property.setter = Some(setter);
        property
    }

    /// Calls the getter on `node`: nothing where no getter is bound.
    pub fn read(&self, node: &Instance) -> (value: Option<PropertyValue>)
        ensures
            match self.getter {
                None => value is None,
                Some(getter) => value matches Some(v) && v@ == read_of(getter, node@),
            },
    {
        match self.getter {
            None => None,
            Some(PropertyGetter::Name) => Some(PropertyValue::Text(node.name().to_owned())),
            Some(PropertyGetter::Parent) => Some(PropertyValue::Node(node.parent())),
            Some(PropertyGetter::Archivable) => Some(PropertyValue::Bool(node.archivable())),
        }
    }

    /// Calls the setter on `node`. Returns whether the value was written:
    /// nothing is written where no setter is bound or the value is of another
    /// type than the setter takes.
    pub fn write(&self, node: &mut Instance, value: &PropertyValue) -> (done: bool)
        ensures
            done == (self.setter matches Some(setter) && accepts(setter, value@)),
            done ==> final(node)@ == written(self.setter.unwrap(), old(node)@, value@),
            !done ==> final(node)@ == old(node)@,
    {
        match self.setter {
            None => false,
            Some(PropertySetter::Name) => match value {
                PropertyValue::Text(name) => {
                    node.set_name(name.as_str());
                    true
                },
                _ => false,
            },
            Some(PropertySetter::Archivable) => match value {
                PropertyValue::Bool(flag) => {
                    node.set_archivable(*flag);
                    true
                },
                _ => false,
            },
        }
    }
}

/// A reflected function.
pub struct ReflectionFunction {
    pub name: String,
    pub description: String,
    pub function: FunctionBinding,
}

/// A reflected function as a mathematical value.
pub struct FunctionView {
    pub name: Seq<char>,
    pub description: Seq<char>,
    pub function: FunctionBinding,
}

impl View for ReflectionFunction {
    type V = FunctionView;

    open spec fn view(&self) -> FunctionView {
        FunctionView { name: self.name@, description: self.description@, function: self.function }
    }
}

impl ReflectionFunction {
    pub fn new(name: &str, description: &str, function: FunctionBinding) -> (reflected: Self)
        ensures
            reflected@ == (FunctionView { name: name@, description: description@, function }),
    {
        Self { name: name.to_owned(), description: description.to_owned(), function }
    }
}

/// The descriptor of the name: text, read and written.
pub open spec fn name_property() -> PropertyView {
    PropertyView {
        name: "Name"@,
        description: "This is the name of this Instance."@,
        access: AccessType::Unspecified,
        operation: OperationType::ReadWrite,
        property_type: PropertyType::String,
        getter: Some(PropertyGetter::Name),
        setter: Some(PropertySetter::Name),
    }
}

/// The descriptor of the parent: a node reference, read only.
pub open spec fn parent_property() -> PropertyView {
    PropertyView {
        name: "Parent"@,
        description: "This is the parent of this Instance."@,
        access: AccessType::Unspecified,
        operation: OperationType::Read,
        property_type: PropertyType::Instance,
        getter: Some(PropertyGetter::Parent),
        setter: None,
    }
}

/// The descriptor of the archivable flag: a boolean, read and written.
pub open spec fn archivable_property() -> PropertyView {
    PropertyView {
        name: "Archivable"@,
        description: "This determines whether this Instance may be saved or replicated."@,
        access: AccessType::Unspecified,
        operation: OperationType::ReadWrite,
        property_type: PropertyType::Bool,
        getter: Some(PropertyGetter::Archivable),
        setter: Some(PropertySetter::Archivable),
    }
}

/// The descriptors of the functions every node offers.
pub open spec fn base_functions() -> Seq<FunctionView> {
    seq![
        FunctionView {
            name: "IsA"@,
            description: "Returns true if the Instance is of the specified class."@,
            function: FunctionBinding::IsA,
        },
        FunctionView {
            name: "Clone"@,
            description: "Creates a copy of this Instance."@,
            function: FunctionBinding::Clone,
        },
        FunctionView {
            name: "Destroy"@,
            description: "Removes this Instance from the game."@,
            function: FunctionBinding::Destroy,
        },
    ]
}

impl Instance {
    /// The descriptors of the properties of this node, built anew on every
    /// call: name, parent, archivable flag, then what `add_properties` adds.
    pub fn get_properties(&self) -> (properties: Vec<ReflectionProperty>)
        ensures
            properties@.len() == 3,
            properties@[0]@ == name_property(),
            properties@[1]@ == parent_property(),
            properties@[2]@ == archivable_property(),
    {
        let mut properties: Vec<ReflectionProperty> = Vec::new();
        let name_prop = ReflectionProperty::new(
            "Name",
            "This is the name of this Instance.",
            AccessType::Unspecified,
            OperationType::ReadWrite,
            PropertyType::String,
        ).with_getter(PropertyGetter::Name).with_setter(PropertySetter::Name);
        let parent_prop = ReflectionProperty::new(
            "Parent",
            "This is the parent of this Instance.",
            AccessType::Unspecified,
            OperationType::Read,
            PropertyType::Instance,
        ).with_getter(PropertyGetter::Parent);
        let archivable_prop = ReflectionProperty::new(
            "Archivable",
            "This determines whether this Instance may be saved or replicated.",
            AccessType::Unspecified,
            OperationType::ReadWrite,
            PropertyType::Bool,
        ).with_getter(PropertyGetter::Archivable).with_setter(PropertySetter::Archivable);
        properties.push(name_prop);
        properties.push(parent_prop);
        properties.push(archivable_prop);
        self.add_properties(&mut properties);
        properties
    }

    /// The descriptors of the functions of this node, built anew on every
    /// call: IsA, Clone, Destroy, then what `add_functions` adds.
    pub fn get_functions(&self) -> (functions: Vec<ReflectionFunction>)
        ensures
            functions@.len() == 3,
            forall|i: int| 0 <= i < 3 ==> (#[trigger] functions@[i])@ == base_functions()[i],
    {
        let mut functions: Vec<ReflectionFunction> = Vec::new();
        let is_a_func = ReflectionFunction::new(
            "IsA",
            "Returns true if the Instance is of the specified class.",
            FunctionBinding::IsA,
        );
        let clone_func = ReflectionFunction::new(
            "Clone",
            "Creates a copy of this Instance.",
            FunctionBinding::Clone,
        );
        let destroy_func = ReflectionFunction::new(
            "Destroy",
            "Removes this Instance from the game.",
            FunctionBinding::Destroy,
        );
        functions.push(is_a_func);
        functions.push(clone_func);
        functions.push(destroy_func);
        self.add_functions(&mut functions);
        functions
    }

    /// What the kind of this node adds to its properties: nothing.
    fn add_properties(&self, properties: &mut Vec<ReflectionProperty>)
        ensures
            final(properties)@ == old(properties)@,
    {
    }

    /// What the kind of this node adds to its functions: nothing.
    fn add_functions(&self, functions: &mut Vec<ReflectionFunction>)
        ensures
            final(functions)@ == old(functions)@,
    {
    }
}

} // verus!
