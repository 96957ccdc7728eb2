//! The interface model that the generators read: types, literals, FFI types
//! and the parts of a component interface that naming depends on.

use vstd::prelude::*;
use vstd::string::StringExecFns;

verus! {

/// How an object type is implemented on the native side.
#[derive(Clone, Copy, Debug, PartialEq, Eq, Structural)]
pub enum ObjectImpl {
    Struct,
    Trait,
    CallbackTrait,
}

impl ObjectImpl {
    /// Whether foreign code may implement the object (it is a callback trait).
    pub fn has_callback_interface(&self) -> (r: bool)
        ensures
            r == (*self is CallbackTrait),
    {
        match self {
            ObjectImpl::CallbackTrait => true,
            _ => false,
        }
    }
}

/// What an external type is on its own side.
#[derive(Clone, Copy, Debug, PartialEq, Eq, Structural)]
pub enum ExternalKind {
    Interface,
    Trait,
    DataClass,
}

/// A type of the interface description.
#[derive(Debug)]
pub enum Type {
    UInt8,
    Int8,
    UInt16,
    Int16,
    UInt32,
    Int32,
    UInt64,
    Int64,
    Float32,
    Float64,
    Boolean,
    String,
    Bytes,
    Timestamp,
    Duration,
    Enum { module: String, name: String },
    Record { module: String, name: String },
    Object { module: String, name: String, imp: ObjectImpl },
    CallbackInterface { module: String, name: String },
    Optional { inner_type: Box<Type> },
    Sequence { inner_type: Box<Type> },
    Mapping { key_type: Box<Type>, value_type: Box<Type> },
    External { module: String, name: String, namespace: String, kind: ExternalKind },
    Custom { module: String, name: String, builtin: Box<Type> },
}

impl Type {
    /// A copy of this type.
    pub fn duplicate(&self) -> (r: Type)
        ensures
            r == *self,
        decreases self,
    {
        match self {
            Type::UInt8 => Type::UInt8,
            Type::Int8 => Type::Int8,
            Type::UInt16 => Type::UInt16,
            Type::Int16 => Type::Int16,
            Type::UInt32 => Type::UInt32,
            Type::Int32 => Type::Int32,
            Type::UInt64 => Type::UInt64,
            Type::Int64 => Type::Int64,
            Type::Float32 => Type::Float32,
            Type::Float64 => Type::Float64,
            Type::Boolean => Type::Boolean,
            Type::String => Type::String,
            Type::Bytes => Type::Bytes,
            Type::Timestamp => Type::Timestamp,
            Type::Duration => Type::Duration,
            Type::Enum { module, name } => Type::Enum {
                module: module.clone(),
                name: name.clone(),
            },
            Type::Record { module, name } => Type::Record {
                module: module.clone(),
                name: name.clone(),
            },
            Type::Object { module, name, imp } => Type::Object {
                module: module.clone(),
                name: name.clone(),
                imp: *imp,
            },
            Type::CallbackInterface { module, name } => Type::CallbackInterface {
                module: module.clone(),
                name: name.clone(),
            },
            Type::Optional { inner_type } => Type::Optional {
                inner_type: Box::new((**inner_type).duplicate()),
            },
            Type::Sequence { inner_type } => Type::Sequence {
                inner_type: Box::new((**inner_type).duplicate()),
            },
            Type::Mapping { key_type, value_type } => Type::Mapping {
                key_type: Box::new((**key_type).duplicate()),
                value_type: Box::new((**value_type).duplicate()),
            },
            Type::External { module, name, namespace, kind } => Type::External {
                module: module.clone(),
                name: name.clone(),
                namespace: namespace.clone(),
                kind: *kind,
            },
            Type::Custom { module, name, builtin } => Type::Custom {
                module: module.clone(),
                name: name.clone(),
                builtin: Box::new((**builtin).duplicate()),
            },
        }
    }
}

/// The radix a numeric literal was written in.
#[derive(Clone, Copy, Debug, PartialEq, Eq, Structural)]
pub enum Radix {
    Decimal,
    Octal,
    Hexadecimal,
}

/// A literal value of the interface description, as found in defaults.
#[derive(Debug)]
pub enum Literal {
    Boolean(bool),
    String(String),
    UInt(u64, Radix, Type),
    Int(i64, Radix, Type),
    Float(String, Type),
    Enum(String, Type),
    EmptySequence,
    EmptyMap,
    Null,
    NonNull { inner: Box<Literal> },
}

/// A low-level type of the native call boundary.
#[derive(Debug)]
pub enum FfiType {
    UInt8,
    Int8,
    UInt16,
    Int16,
    UInt32,
    Int32,
    UInt64,
    Int64,
    Float32,
    Float64,
    RustArcPtr(String),
    RustBuffer(Option<String>),
    ForeignBytes,
    Callback(String),
    Struct(String),
    Handle,
    RustCallStatus,
    Reference(Box<FfiType>),
    VoidPointer,
}

} // verus!

verus! {

/// An object declared by a component.
pub struct Object {
    pub name: String,
    pub imp: ObjectImpl,
}

impl Object {
    pub fn has_callback_interface(&self) -> (r: bool)
        ensures
            r == (self.imp is CallbackTrait),
    {
        self.imp.has_callback_interface()
    }
}

/// A variant of an enum or error.
pub struct Variant {
    pub name: String,
}

/// An enum declared by a component, with the discriminant of each variant.
pub struct Enum {
    pub name: String,
    pub variants: Vec<Variant>,
    pub discriminants: Vec<Literal>,
    pub discr_type: Option<Type>,
}

/// What the generators read of one component's interface.
pub struct ComponentInterface {
    pub namespace: String,
    pub crate_name: String,
    /// Every type the component uses, in declaration order.
    pub types: Vec<Type>,
    /// The names of the types that are thrown as errors.
    pub error_names: Vec<String>,
}

impl ComponentInterface {
    pub open spec fn is_error_name(&self, nm: Seq<char>) -> bool {
        exists|i: int| 0 <= i < self.error_names@.len() && #[trigger] self.error_names@[i]@ == nm
    }

    /// Whether `nm` names a type that is thrown as an error.
    pub fn is_name_used_as_error(&self, nm: &str) -> (r: bool)
        ensures
            r == self.is_error_name(nm@),
    {
        let target = String::from_str(nm);
        let mut i: usize = 0;
        while i < self.error_names.len()
            invariant
                target@ == nm@,
                i <= self.error_names@.len(),
                forall|j: int| 0 <= j < i ==> #[trigger] self.error_names@[j]@ != nm@,
            decreases self.error_names@.len() - i,
        {
            if self.error_names[i] == target {
                return true;
            }
            i = i + 1;
        }
        false
    }
}

} // verus!
