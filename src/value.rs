//! The two value models: values as read from the engine, and values as the host sees them.
use vstd::prelude::*;

verus! {

/// A persistent reference into an engine's heap, together with the engine instance
/// that owns it. `slot` names the rooted engine value in the caller's handle table.
#[derive(Clone, Copy, Debug, PartialEq, Eq, Structural)]
pub struct Handle {
    pub instance: u64,
    pub slot: u64,
}

/// A value as read from the engine.
///
/// Composite values, functions and values of other types carry the slot of a rooted
/// reference to them. Arrays and objects list what was read of them: elements in index
/// order, own enumerable properties as (name, value) pairs in the engine's order.
#[derive(Debug, PartialEq)]
pub enum EngineValue {
    /// `null` or `undefined`.
    Null,
    Boolean(bool),
    /// A number, as the bits of its double.
    Number(u64),
    String(String),
    Function(u64),
    Array(u64, Vec<EngineValue>),
    Object(u64, Vec<(EngineValue, EngineValue)>),
    /// A value with no host counterpart, with the engine's name for its type.
    Other(u64, String),
}

/// A value as the host sees it.
#[derive(Debug, PartialEq)]
pub enum HostValue {
    /// The host's "no value".
    Nothing,
    Boolean(bool),
    Integer(i64),
    /// A double, as its bits.
    Double(u64),
    Text(String),
    Sequence(Vec<HostValue>),
    /// Entries in the order in which they are set on the host mapping.
    Mapping(Vec<(HostValue, HostValue)>),
    Function(JsFunction),
    Object(JsObject),
    Array(JsArray),
    Value(JsValue),
}

/// A host handle to an engine function, which the host can call.
#[derive(Clone, Copy, Debug, PartialEq, Eq, Structural)]
pub struct JsFunction {
    pub handle: Handle,
}

/// A host handle to an engine object.
#[derive(Clone, Copy, Debug, PartialEq, Eq, Structural)]
pub struct JsObject {
    pub handle: Handle,
}

/// A host handle to an engine array.
#[derive(Clone, Copy, Debug, PartialEq, Eq, Structural)]
pub struct JsArray {
    pub handle: Handle,
}

/// A host handle to an engine value of another type, with the engine's name for that
/// type, which its representation shows.
#[derive(Debug, PartialEq)]
pub struct JsValue {
    pub handle: Handle,
    pub type_repr: String,
}

/// The shape of an engine value to be made from a host value.
///
/// Arrays and objects are new engine values; `Existing` names the slot of a rooted
/// engine value that is passed back as it is.
#[derive(Debug, PartialEq)]
pub enum EngineTemplate {
    Null,
    Boolean(bool),
    /// A number, as the bits of its double.
    Number(u64),
    String(String),
    /// A new array with these elements, set by index.
    Array(Vec<EngineTemplate>),
    /// A new object with these properties, assigned in order.
    Object(Vec<(EngineTemplate, EngineTemplate)>),
    Existing(u64),
}

/// Why a host value has no engine counterpart.
#[derive(Clone, Copy, Debug, PartialEq, Eq, Structural)]
pub enum ConversionError {
    /// An integer that no double equals.
    InexactInteger(i64),
    /// A handle that belongs to another engine instance than the one addressed.
    ForeignHandle(u64),
}

/// What the engine's type predicates say of a value. A value may satisfy several.
#[derive(Clone, Copy, Debug, PartialEq, Eq, Structural)]
pub struct TypeProbe {
    pub is_null_or_undefined: bool,
    pub is_string: bool,
    pub is_boolean: bool,
    pub is_number: bool,
    pub is_function: bool,
    pub is_array: bool,
    pub is_object: bool,
}

/// The kind of an engine value, which decides its host counterpart.
#[derive(Clone, Copy, Debug, PartialEq, Eq, Structural)]
pub enum ValueKind {
    Null,
    String,
    Boolean,
    Number,
    Function,
    Array,
    Object,
    Other,
}

/// The kind of a value: the first predicate that holds, in the order null or undefined,
/// string, boolean, number, function, array, object; `Other` when none does.
pub open spec fn kind_of(p: TypeProbe) -> ValueKind {
    if p.is_null_or_undefined {
        ValueKind::Null
    } else if p.is_string {
        ValueKind::String
    } else if p.is_boolean {
        ValueKind::Boolean
    } else if p.is_number {
        ValueKind::Number
    } else if p.is_function {
        ValueKind::Function
    } else if p.is_array {
        ValueKind::Array
    } else if p.is_object {
        ValueKind::Object
    } else {
        ValueKind::Other
    }
}

/// Classifies an engine value by its predicates, first match first.
pub fn classify(p: &TypeProbe) -> (r: ValueKind)
    ensures
        r == kind_of(*p),
{
    if p.is_null_or_undefined {
        ValueKind::Null
    } else if p.is_string {
        ValueKind::String
    } else if p.is_boolean {
        ValueKind::Boolean
    } else if p.is_number {
        ValueKind::Number
    } else if p.is_function {
        ValueKind::Function
    } else if p.is_array {
        ValueKind::Array
    } else if p.is_object {
        ValueKind::Object
    } else {
        ValueKind::Other
    }
}

} // verus!
