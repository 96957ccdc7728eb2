//! One generation strategy per interface type: its Java label, its canonical
//! name, its literals, its converter and its start-up hook.

use vstd::prelude::*;
use vstd::string::StringExecFns;
use crate::config::{crate_name_of, crate_of, Config};
use crate::error::GenerationError;
use crate::literal::{primitive_literal_spec, render_primitive_literal};
use crate::model::{ComponentInterface, Literal, ObjectImpl, Type, Variant};
use crate::naming::{class_name_of, shouty_snake_of, JavaCodeOracle};
use crate::text::{join2, join3};

verus! {

/// The strategy of a primitive type other than bytes.
#[derive(Clone, Copy, Debug, PartialEq, Eq, Structural)]
pub enum PrimitiveCodeType {
    Boolean,
    String,
    Int8,
    UInt8,
    Int16,
    UInt16,
    Int32,
    UInt32,
    Int64,
    UInt64,
    Float32,
    Float64,
    Timestamp,
    Duration,
}

/// The strategy of byte strings.
#[derive(Clone, Copy, Debug, PartialEq, Eq, Structural)]
pub struct BytesCodeType;

/// The strategy of an enum.
pub struct EnumCodeType {
    pub id: String,
}

/// The strategy of a record.
pub struct RecordCodeType {
    pub id: String,
}

/// The strategy of an object.
pub struct ObjectCodeType {
    pub name: String,
    pub imp: ObjectImpl,
}

/// The strategy of a callback interface.
pub struct CallbackInterfaceCodeType {
    pub id: String,
}

/// The strategy of an optional value.
pub struct OptionalCodeType {
    pub inner: Type,
}

/// The strategy of a sequence.
pub struct SequenceCodeType {
    pub inner: Type,
}

/// The strategy of a map.
pub struct MapCodeType {
    pub key: Type,
    pub value: Type,
}

/// The strategy of a type that another crate defines.
pub struct ExternalCodeType {
    pub name: String,
    pub module: String,
    pub namespace: String,
}

/// The strategy of a custom type.
pub struct CustomCodeType {
    pub name: String,
}

impl EnumCodeType {
    pub fn new(id: String) -> (r: Self)
        ensures
            r.id == id,
    {
        EnumCodeType { id }
    }
}

impl RecordCodeType {
    pub fn new(id: String) -> (r: Self)
        ensures
            r.id == id,
    {
        RecordCodeType { id }
    }
}

impl ObjectCodeType {
    pub fn new(name: String, imp: ObjectImpl) -> (r: Self)
        ensures
            r.name == name,
            r.imp == imp,
    {
        ObjectCodeType { name, imp }
    }
}

impl CallbackInterfaceCodeType {
    pub fn new(id: String) -> (r: Self)
        ensures
            r.id == id,
    {
        CallbackInterfaceCodeType { id }
    }
}

impl OptionalCodeType {
    pub fn new(inner: Type) -> (r: Self)
        ensures
            r.inner == inner,
    {
        OptionalCodeType { inner }
    }

    pub fn inner(&self) -> (r: &Type)
        ensures
            *r == self.inner,
    {
        &self.inner
    }
}

impl SequenceCodeType {
    pub fn new(inner: Type) -> (r: Self)
        ensures
            r.inner == inner,
    {
        SequenceCodeType { inner }
    }

    pub fn inner(&self) -> (r: &Type)
        ensures
            *r == self.inner,
    {
        &self.inner
    }
}

impl MapCodeType {
    pub fn new(key: Type, value: Type) -> (r: Self)
        ensures
            r.key == key,
            r.value == value,
    {
        MapCodeType { key, value }
    }

    pub fn key(&self) -> (r: &Type)
        ensures
            *r == self.key,
    {
        &self.key
    }

    pub fn value(&self) -> (r: &Type)
        ensures
            *r == self.value,
    {
        &self.value
    }
}

impl ExternalCodeType {
    pub fn new(name: String, module: String, namespace: String) -> (r: Self)
        ensures
            r.name == name,
            r.module == module,
            r.namespace == namespace,
    {
        ExternalCodeType { name, module, namespace }
    }
}

impl CustomCodeType {
    pub fn new(name: String) -> (r: Self)
        ensures
            r.name == name,
    {
        CustomCodeType { name }
    }
}

/// The generation strategy bound to one interface type.
pub enum CodeType {
    Primitive(PrimitiveCodeType),
    Bytes(BytesCodeType),
    Enum(EnumCodeType),
    Record(RecordCodeType),
    Object(ObjectCodeType),
    CallbackInterface(CallbackInterfaceCodeType),
    Optional(OptionalCodeType),
    Sequence(SequenceCodeType),
    Mapping(MapCodeType),
    External(ExternalCodeType),
    Custom(CustomCodeType),
}

/// The strategy that each type resolves to.
pub open spec fn code_type_of(t: Type) -> CodeType {
    match t {
        Type::Boolean => CodeType::Primitive(PrimitiveCodeType::Boolean),
        Type::String => CodeType::Primitive(PrimitiveCodeType::String),
        Type::Int8 => CodeType::Primitive(PrimitiveCodeType::Int8),
        Type::UInt8 => CodeType::Primitive(PrimitiveCodeType::UInt8),
        Type::Int16 => CodeType::Primitive(PrimitiveCodeType::Int16),
        Type::UInt16 => CodeType::Primitive(PrimitiveCodeType::UInt16),
        Type::Int32 => CodeType::Primitive(PrimitiveCodeType::Int32),
        Type::UInt32 => CodeType::Primitive(PrimitiveCodeType::UInt32),
        Type::Int64 => CodeType::Primitive(PrimitiveCodeType::Int64),
        Type::UInt64 => CodeType::Primitive(PrimitiveCodeType::UInt64),
        Type::Float32 => CodeType::Primitive(PrimitiveCodeType::Float32),
        Type::Float64 => CodeType::Primitive(PrimitiveCodeType::Float64),
        Type::Timestamp => CodeType::Primitive(PrimitiveCodeType::Timestamp),
        Type::Duration => CodeType::Primitive(PrimitiveCodeType::Duration),
        Type::Bytes => CodeType::Bytes(BytesCodeType),
        Type::Enum { name, .. } => CodeType::Enum(EnumCodeType { id: name }),
        Type::Record { name, .. } => CodeType::Record(RecordCodeType { id: name }),
        Type::Object { name, imp, .. } => CodeType::Object(ObjectCodeType { name, imp }),
        Type::CallbackInterface { name, .. } => CodeType::CallbackInterface(
            CallbackInterfaceCodeType { id: name },
        ),
        Type::Optional { inner_type } => CodeType::Optional(OptionalCodeType { inner: *inner_type }),
        Type::Sequence { inner_type } => CodeType::Sequence(SequenceCodeType { inner: *inner_type }),
        Type::Mapping { key_type, value_type } => CodeType::Mapping(
            MapCodeType { key: *key_type, value: *value_type },
        ),
        Type::External { module, name, namespace, .. } => CodeType::External(
            ExternalCodeType { name, module, namespace },
        ),
        Type::Custom { name, .. } => CodeType::Custom(CustomCodeType { name }),
    }
}

/// The Java label of a primitive.
pub open spec fn primitive_label(p: PrimitiveCodeType) -> Seq<char> {
    match p {
        PrimitiveCodeType::Boolean => "Boolean"@,
        PrimitiveCodeType::String => "String"@,
        PrimitiveCodeType::Int8 | PrimitiveCodeType::UInt8 => "Byte"@,
        PrimitiveCodeType::Int16 | PrimitiveCodeType::UInt16 => "Short"@,
        PrimitiveCodeType::Int32 | PrimitiveCodeType::UInt32 => "Integer"@,
        PrimitiveCodeType::Int64 | PrimitiveCodeType::UInt64 => "Long"@,
        PrimitiveCodeType::Float32 => "Float"@,
        PrimitiveCodeType::Float64 => "Double"@,
        PrimitiveCodeType::Timestamp => "java.time.Instant"@,
        PrimitiveCodeType::Duration => "java.time.Duration"@,
    }
}

/// The canonical name of a primitive. Java carries unsigned values in signed
/// types, so the label is shared; the canonical name is not.
pub open spec fn primitive_canonical(p: PrimitiveCodeType) -> Seq<char> {
    match p {
        PrimitiveCodeType::Boolean => "Boolean"@,
        PrimitiveCodeType::String => "String"@,
        PrimitiveCodeType::Int8 => "Byte"@,
        PrimitiveCodeType::UInt8 => "UByte"@,
        PrimitiveCodeType::Int16 => "Short"@,
        PrimitiveCodeType::UInt16 => "UShort"@,
        PrimitiveCodeType::Int32 => "Integer"@,
        PrimitiveCodeType::UInt32 => "UInteger"@,
        PrimitiveCodeType::Int64 => "Long"@,
        PrimitiveCodeType::UInt64 => "ULong"@,
        PrimitiveCodeType::Float32 => "Float"@,
        PrimitiveCodeType::Float64 => "Double"@,
        PrimitiveCodeType::Timestamp => "Timestamp"@,
        PrimitiveCodeType::Duration => "Duration"@,
    }
}

/// The canonical name of a type: a tag word followed by what identifies the
/// type within its kind.
///
/// Distinct types of one component get distinct names as long as no type name
/// of the component is a proper prefix of another (see
/// `lemma_canonical_name_injective`). Without that, `Map<A, Boolean>` with
/// `Boolean` an enum, and `Map<AType, Boolean>` with the primitive `Boolean`,
/// would both be `MapTypeATypeBoolean`.
pub open spec fn canonical_of(t: Type) -> Seq<char>
    decreases t,
{
    match t {
        Type::Optional { inner_type } => "Optional"@ + canonical_of(*inner_type),
        Type::Sequence { inner_type } => "Sequence"@ + canonical_of(*inner_type),
        Type::Mapping { key_type, value_type } => "Map"@ + canonical_of(*key_type) + canonical_of(
            *value_type,
        ),
        _ => leaf_canonical_spec(code_type_of(t)),
    }
}

/// The canonical name of a strategy that wraps no other type.
pub open spec fn leaf_canonical_spec(ct: CodeType) -> Seq<char> {
    match ct {
        CodeType::Primitive(p) => primitive_canonical(p),
        CodeType::Bytes(_) => "ByteArray"@,
        CodeType::Enum(e) => "Type"@ + e.id@,
        CodeType::Record(r) => "Type"@ + r.id@,
        CodeType::Object(o) => "Type"@ + o.name@,
        CodeType::CallbackInterface(c) => "Type"@ + c.id@,
        CodeType::External(x) => "Type"@ + x.name@,
        CodeType::Custom(c) => "Type"@ + c.name@,
        _ => Seq::empty(),
    }
}

/// The Java label of a type.
pub open spec fn label_of(ci: &ComponentInterface, config: &Config, t: Type) -> Seq<char>
    decreases t,
{
    match t {
        Type::Optional { inner_type } => label_of(ci, config, *inner_type),
        Type::Sequence { inner_type } => "List<"@ + label_of(ci, config, *inner_type) + ">"@,
        Type::Mapping { key_type, value_type } => "Map<"@ + label_of(ci, config, *key_type) + ", "@
            + label_of(ci, config, *value_type) + ">"@,
        _ => leaf_label_spec(ci, config, code_type_of(t)),
    }
}

/// The Java label of a strategy that wraps no other type.
pub open spec fn leaf_label_spec(ci: &ComponentInterface, config: &Config, ct: CodeType) -> Seq<
    char,
> {
    match ct {
        CodeType::Primitive(p) => primitive_label(p),
        CodeType::Bytes(_) => "byte[]"@,
        CodeType::Enum(e) => qualified_spec(config, ci, e.id@, class_name_of(ci, e.id@)),
        CodeType::Record(r) => qualified_spec(config, ci, r.id@, class_name_of(ci, r.id@)),
        CodeType::Object(o) => qualified_spec(config, ci, o.name@, class_name_of(ci, o.name@)),
        CodeType::CallbackInterface(c) => qualified_spec(
            config,
            ci,
            c.id@,
            class_name_of(ci, c.id@),
        ),
        CodeType::External(x) => config.external_package_spec(x.module@, x.namespace@) + "."@
            + class_name_of(ci, x.name@),
        CodeType::Custom(c) => qualified_spec(config, ci, c.name@, class_name_of(ci, c.name@)),
        _ => Seq::empty(),
    }
}

/// How a literal is written for a type, or why it cannot be.
pub open spec fn literal_of(
    ci: &ComponentInterface,
    config: &Config,
    t: Type,
    lit: Literal,
) -> Result<Seq<char>, GenerationError>
    decreases lit,
{
    match t {
        Type::Optional { inner_type } => match lit {
            Literal::Null => Ok("null"@),
            Literal::NonNull { inner } => literal_of(ci, config, *inner_type, *inner),
            _ => Err(GenerationError::LiteralTypeMismatch),
        },
        Type::Sequence { .. } => match lit {
            Literal::EmptySequence => Ok("List.of()"@),
            _ => Err(GenerationError::LiteralTypeMismatch),
        },
        Type::Mapping { .. } => match lit {
            Literal::EmptyMap => Ok("Map.of()"@),
            _ => Err(GenerationError::LiteralTypeMismatch),
        },
        _ => leaf_literal_spec(ci, config, code_type_of(t), lit),
    }
}

/// How a literal is written for a strategy that wraps no other type.
pub open spec fn leaf_literal_spec(
    ci: &ComponentInterface,
    config: &Config,
    ct: CodeType,
    lit: Literal,
) -> Result<Seq<char>, GenerationError> {
    match ct {
        CodeType::Primitive(p) => if p is Timestamp || p is Duration {
            Err(GenerationError::LiteralTypeMismatch)
        } else {
            primitive_literal_spec(lit)
        },
        CodeType::Bytes(_) => primitive_literal_spec(lit),
        CodeType::Enum(_) => match lit {
            Literal::Enum(v, _) => Ok(leaf_label_spec(ci, config, ct) + "."@ + shouty_snake_of(v@)),
            _ => Err(GenerationError::LiteralTypeMismatch),
        },
        _ => Err(GenerationError::LiteralTypeMismatch),
    }
}

/// The name of a type that has one.
pub open spec fn name_of_type(t: Type) -> Option<Seq<char>> {
    match t {
        Type::Enum { name, .. } => Some(name@),
        Type::Record { name, .. } => Some(name@),
        Type::Object { name, .. } => Some(name@),
        Type::CallbackInterface { name, .. } => Some(name@),
        Type::External { name, .. } => Some(name@),
        Type::Custom { name, .. } => Some(name@),
        _ => None,
    }
}

/// The module that a named type comes from.
pub open spec fn module_of_type(t: Type) -> Seq<char> {
    match t {
        Type::Enum { module, .. } => module@,
        Type::Record { module, .. } => module@,
        Type::Object { module, .. } => module@,
        Type::CallbackInterface { module, .. } => module@,
        Type::External { module, .. } => module@,
        Type::Custom { module, .. } => module@,
        _ => Seq::empty(),
    }
}

/// The module of the first type of `types` named `nm`.
pub open spec fn module_of_named(types: Seq<Type>, nm: Seq<char>) -> Option<Seq<char>>
    decreases types.len(),
{
    if types.len() == 0 {
        None
    } else if name_of_type(types[0]) == Some(nm) {
        Some(module_of_type(types[0]))
    } else {
        module_of_named(types.drop_first(), nm)
    }
}

/// `display`, qualified by the external package when the component's type
/// named `nm` comes from another crate.
pub open spec fn qualified_spec(
    config: &Config,
    ci: &ComponentInterface,
    nm: Seq<char>,
    display: Seq<char>,
) -> Seq<char> {
    match module_of_named(ci.types@, nm) {
        Some(module) => if crate_of(module) != ci.crate_name@ {
            config.external_package_spec(module, crate_of(module)) + "."@ + display
        } else {
            display
        },
        None => display,
    }
}

/// Qualifies `display` with the package of the crate that defines the type
/// named `nm`, when that crate is not the component's own.
pub fn potentially_add_external_package(
    config: &Config,
    ci: &ComponentInterface,
    nm: &str,
    display_name: String,
) -> (r: String)
    ensures
        r@ == qualified_spec(config, ci, nm@, display_name@),
{
    let target = String::from_str(nm);
    let mut i: usize = 0;
    proof {
        assert(ci.types@.skip(0) == ci.types@);
    }
    while i < ci.types.len()
        invariant
            target@ == nm@,
            i <= ci.types@.len(),
            module_of_named(ci.types@, nm@) == module_of_named(
                ci.types@.skip(i as int),
                nm@,
            ),
        decreases ci.types@.len() - i,
    {
        proof {
            assert(ci.types@.skip(i as int).drop_first() == ci.types@.skip(i + 1));
            assert(ci.types@.skip(i as int)[0] == ci.types@[i as int]);
        }
        let found = match &ci.types[i] {
            Type::Enum { module, name } => if *name == target {
                Some(module)
            } else {
                None
            },
            Type::Record { module, name } => if *name == target {
                Some(module)
            } else {
                None
            },
            Type::Object { module, name, .. } => if *name == target {
                Some(module)
            } else {
                None
            },
            Type::CallbackInterface { module, name } => if *name == target {
                Some(module)
            } else {
                None
            },
            Type::External { module, name, .. } => if *name == target {
                Some(module)
            } else {
                None
            },
            Type::Custom { module, name, .. } => if *name == target {
                Some(module)
            } else {
                None
            },
            _ => None,
        };
        if let Some(module) = found {
            let crate_name = crate_name_of(module.as_str());
            if crate_name == ci.crate_name {
                return display_name;
            }
            let package = config.external_type_package_name(module.as_str(), crate_name.as_str());
            return join3(package.as_str(), ".", display_name.as_str());
        }
        i = i + 1;
    }
    display_name
}

impl PrimitiveCodeType {
    pub fn label(&self) -> (r: String)
        ensures
            r@ == primitive_label(*self),
    {
        match self {
            PrimitiveCodeType::Boolean => String::from_str("Boolean"),
            PrimitiveCodeType::String => String::from_str("String"),
            PrimitiveCodeType::Int8 | PrimitiveCodeType::UInt8 => String::from_str("Byte"),
            PrimitiveCodeType::Int16 | PrimitiveCodeType::UInt16 => String::from_str("Short"),
            PrimitiveCodeType::Int32 | PrimitiveCodeType::UInt32 => String::from_str("Integer"),
            PrimitiveCodeType::Int64 | PrimitiveCodeType::UInt64 => String::from_str("Long"),
            PrimitiveCodeType::Float32 => String::from_str("Float"),
            PrimitiveCodeType::Float64 => String::from_str("Double"),
            PrimitiveCodeType::Timestamp => String::from_str("java.time.Instant"),
            PrimitiveCodeType::Duration => String::from_str("java.time.Duration"),
        }
    }

    pub fn canonical_name(&self) -> (r: String)
        ensures
            r@ == primitive_canonical(*self),
    {
        match self {
            PrimitiveCodeType::Boolean => String::from_str("Boolean"),
            PrimitiveCodeType::String => String::from_str("String"),
            PrimitiveCodeType::Int8 => String::from_str("Byte"),
            PrimitiveCodeType::UInt8 => String::from_str("UByte"),
            PrimitiveCodeType::Int16 => String::from_str("Short"),
            PrimitiveCodeType::UInt16 => String::from_str("UShort"),
            PrimitiveCodeType::Int32 => String::from_str("Integer"),
            PrimitiveCodeType::UInt32 => String::from_str("UInteger"),
            PrimitiveCodeType::Int64 => String::from_str("Long"),
            PrimitiveCodeType::UInt64 => String::from_str("ULong"),
            PrimitiveCodeType::Float32 => String::from_str("Float"),
            PrimitiveCodeType::Float64 => String::from_str("Double"),
            PrimitiveCodeType::Timestamp => String::from_str("Timestamp"),
            PrimitiveCodeType::Duration => String::from_str("Duration"),
        }
    }
}

impl CodeType {
    /// Whether the strategy wraps no other type.
    pub open spec fn is_leaf(&self) -> bool {
        !(*self is Optional || *self is Sequence || *self is Mapping)
    }

    pub open spec fn label_spec(&self, ci: &ComponentInterface, config: &Config) -> Seq<char> {
        match self {
            CodeType::Optional(o) => label_of(ci, config, o.inner),
            CodeType::Sequence(q) => "List<"@ + label_of(ci, config, q.inner) + ">"@,
            CodeType::Mapping(m) => "Map<"@ + label_of(ci, config, m.key) + ", "@ + label_of(
                ci,
                config,
                m.value,
            ) + ">"@,
            _ => leaf_label_spec(ci, config, *self),
        }
    }

    pub open spec fn canonical_spec(&self) -> Seq<char> {
        match self {
            CodeType::Optional(o) => "Optional"@ + canonical_of(o.inner),
            CodeType::Sequence(q) => "Sequence"@ + canonical_of(q.inner),
            CodeType::Mapping(m) => "Map"@ + canonical_of(m.key) + canonical_of(m.value),
            _ => leaf_canonical_spec(*self),
        }
    }

    pub open spec fn literal_spec(
        &self,
        lit: Literal,
        ci: &ComponentInterface,
        config: &Config,
    ) -> Result<Seq<char>, GenerationError> {
        match self {
            CodeType::Optional(o) => match lit {
                Literal::Null => Ok("null"@),
                Literal::NonNull { inner } => literal_of(ci, config, o.inner, *inner),
                _ => Err(GenerationError::LiteralTypeMismatch),
            },
            CodeType::Sequence(_) => match lit {
                Literal::EmptySequence => Ok("List.of()"@),
                _ => Err(GenerationError::LiteralTypeMismatch),
            },
            CodeType::Mapping(_) => match lit {
                Literal::EmptyMap => Ok("Map.of()"@),
                _ => Err(GenerationError::LiteralTypeMismatch),
            },
            _ => leaf_literal_spec(ci, config, *self, lit),
        }
    }

    /// The name of the converter object: `FfiConverter` and the canonical name.
    pub open spec fn converter_spec(&self) -> Seq<char> {
        "FfiConverter"@ + self.canonical_spec()
    }

    pub open spec fn instance_spec(&self, config: &Config, ci: &ComponentInterface) -> Seq<char> {
        let local = self.converter_spec() + ".INSTANCE"@;
        match self {
            CodeType::Enum(e) => qualified_spec(config, ci, e.id@, local),
            CodeType::Record(r) => qualified_spec(config, ci, r.id@, local),
            CodeType::Object(o) => qualified_spec(config, ci, o.name@, local),
            CodeType::CallbackInterface(c) => qualified_spec(config, ci, c.id@, local),
            CodeType::Custom(c) => qualified_spec(config, ci, c.name@, local),
            CodeType::External(x) => config.external_package_spec(x.module@, x.namespace@) + "."@
                + local,
            _ => local,
        }
    }

    pub open spec fn initialization_spec(&self) -> Option<Seq<char>> {
        match self {
            CodeType::Object(o) => if o.imp is CallbackTrait {
                Some("UniffiCallbackInterface"@ + o.name@ + ".INSTANCE.register"@)
            } else {
                None
            },
            CodeType::CallbackInterface(c) => Some(
                "UniffiCallbackInterface"@ + c.id@ + ".INSTANCE.register"@,
            ),
            _ => None,
        }
    }

    fn leaf_label(&self, ci: &ComponentInterface, config: &Config) -> (r: String)
        requires
            self.is_leaf(),
        ensures
            r@ == leaf_label_spec(ci, config, *self),
    {
        let oracle = JavaCodeOracle;
        match self {
            CodeType::Primitive(p) => p.label(),
            CodeType::Bytes(_) => String::from_str("byte[]"),
            CodeType::Enum(e) => potentially_add_external_package(
                config,
                ci,
                e.id.as_str(),
                oracle.class_name(ci, e.id.as_str()),
            ),
            CodeType::Record(r) => potentially_add_external_package(
                config,
                ci,
                r.id.as_str(),
                oracle.class_name(ci, r.id.as_str()),
            ),
            CodeType::Object(o) => potentially_add_external_package(
                config,
                ci,
                o.name.as_str(),
                oracle.class_name(ci, o.name.as_str()),
            ),
            CodeType::CallbackInterface(c) => potentially_add_external_package(
                config,
                ci,
                c.id.as_str(),
                oracle.class_name(ci, c.id.as_str()),
            ),
            CodeType::External(x) => {
                let package = config.external_type_package_name(
                    x.module.as_str(),
                    x.namespace.as_str(),
                );
                let class = oracle.class_name(ci, x.name.as_str());
                join3(package.as_str(), ".", class.as_str())
            },
            CodeType::Custom(c) => potentially_add_external_package(
                config,
                ci,
                c.name.as_str(),
                oracle.class_name(ci, c.name.as_str()),
            ),
            _ => String::new(),
        }
    }

    fn leaf_canonical(&self) -> (r: String)
        requires
            self.is_leaf(),
        ensures
            r@ == leaf_canonical_spec(*self),
    {
        match self {
            CodeType::Primitive(p) => p.canonical_name(),
            CodeType::Bytes(_) => String::from_str("ByteArray"),
            CodeType::Enum(e) => join2("Type", e.id.as_str()),
            CodeType::Record(r) => join2("Type", r.id.as_str()),
            CodeType::Object(o) => join2("Type", o.name.as_str()),
            CodeType::CallbackInterface(c) => join2("Type", c.id.as_str()),
            CodeType::External(x) => join2("Type", x.name.as_str()),
            CodeType::Custom(c) => join2("Type", c.name.as_str()),
            _ => String::new(),
        }
    }

    fn leaf_literal(&self, lit: &Literal, ci: &ComponentInterface, config: &Config) -> (r: Result<
        String,
        GenerationError,
    >)
        requires
            self.is_leaf(),
        ensures
            r matches Ok(s) ==> leaf_literal_spec(ci, config, *self, *lit) == Ok::<
                Seq<char>,
                GenerationError,
            >(s@),
            r matches Err(e) ==> leaf_literal_spec(ci, config, *self, *lit) == Err::<
                Seq<char>,
                GenerationError,
            >(e),
    {
        match self {
            CodeType::Primitive(p) => match p {
                PrimitiveCodeType::Timestamp | PrimitiveCodeType::Duration => Err(
                    GenerationError::LiteralTypeMismatch,
                ),
                _ => render_primitive_literal(lit),
            },
            CodeType::Bytes(_) => render_primitive_literal(lit),
            CodeType::Enum(_) => match lit {
                Literal::Enum(v, _) => {
                    let label = self.leaf_label(ci, config);
                    let variant = JavaCodeOracle.enum_variant_name(v.as_str());
                    Ok(join3(label.as_str(), ".", variant.as_str()))
                },
                _ => Err(GenerationError::LiteralTypeMismatch),
            },
            _ => Err(GenerationError::LiteralTypeMismatch),
        }
    }

    /// The Java label used to reference the type in signatures and declarations.
    pub fn type_label(&self, ci: &ComponentInterface, config: &Config) -> (r: String)
        ensures
            r@ == self.label_spec(ci, config),
    {
        match self {
            CodeType::Optional(o) => type_label_of(&o.inner, ci, config),
            CodeType::Sequence(q) => {
                let inner = type_label_of(&q.inner, ci, config);
                join3("List<", inner.as_str(), ">")
            },
            CodeType::Mapping(m) => {
                let key = type_label_of(&m.key, ci, config);
                let value = type_label_of(&m.value, ci, config);
                join3("Map<", key.as_str(), ", ").concat(value.as_str()).concat(">")
            },
            _ => self.leaf_label(ci, config),
        }
    }

    /// A name for the type that can be part of another identifier, unique
    /// among the types of one component when no type name of it is a proper
    /// prefix of another (see `canonical_of`).
    pub fn canonical_name(&self) -> (r: String)
        ensures
            r@ == self.canonical_spec(),
    {
        match self {
            CodeType::Optional(o) => {
                let inner = canonical_name_of(&o.inner);
                join2("Optional", inner.as_str())
            },
            CodeType::Sequence(q) => {
                let inner = canonical_name_of(&q.inner);
                join2("Sequence", inner.as_str())
            },
            CodeType::Mapping(m) => {
                let key = canonical_name_of(&m.key);
                let value = canonical_name_of(&m.value);
                join3("Map", key.as_str(), value.as_str())
            },
            _ => self.leaf_canonical(),
        }
    }

    /// The Java rendering of a literal of this type; fails when the literal
    /// does not fit the type.
    pub fn literal(&self, lit: &Literal, ci: &ComponentInterface, config: &Config) -> (r: Result<
        String,
        GenerationError,
    >)
        ensures
            r matches Ok(s) ==> self.literal_spec(*lit, ci, config) == Ok::<
                Seq<char>,
                GenerationError,
            >(s@),
            r matches Err(e) ==> self.literal_spec(*lit, ci, config) == Err::<
                Seq<char>,
                GenerationError,
            >(e),
    {
        match self {
            CodeType::Optional(o) => match lit {
                Literal::Null => Ok(String::from_str("null")),
                Literal::NonNull { inner } => literal_for_type(&o.inner, &**inner, ci, config),
                _ => Err(GenerationError::LiteralTypeMismatch),
            },
            CodeType::Sequence(_) => match lit {
                Literal::EmptySequence => Ok(String::from_str("List.of()")),
                _ => Err(GenerationError::LiteralTypeMismatch),
            },
            CodeType::Mapping(_) => match lit {
                Literal::EmptyMap => Ok(String::from_str("Map.of()")),
                _ => Err(GenerationError::LiteralTypeMismatch),
            },
            _ => self.leaf_literal(lit, ci, config),
        }
    }

    /// The name of the object holding the lower, write, lift and read methods.
    pub fn ffi_converter_name(&self) -> (r: String)
        ensures
            r@ == self.converter_spec(),
    {
        let canonical = self.canonical_name();
        join2("FfiConverter", canonical.as_str())
    }

    /// The converter instance, qualified by package when the type belongs to
    /// another crate.
    pub fn ffi_converter_instance(&self, config: &Config, ci: &ComponentInterface) -> (r: String)
        ensures
            r@ == self.instance_spec(config, ci),
    {
        let local = self.ffi_converter_name().concat(".INSTANCE");
        match self {
            CodeType::Enum(e) => potentially_add_external_package(config, ci, e.id.as_str(), local),
            CodeType::Record(r) => potentially_add_external_package(
                config,
                ci,
                r.id.as_str(),
                local,
            ),
            CodeType::Object(o) => potentially_add_external_package(
                config,
                ci,
                o.name.as_str(),
                local,
            ),
            CodeType::CallbackInterface(c) => potentially_add_external_package(
                config,
                ci,
                c.id.as_str(),
                local,
            ),
            CodeType::Custom(c) => potentially_add_external_package(
                config,
                ci,
                c.name.as_str(),
                local,
            ),
            CodeType::External(x) => {
                let package = config.external_type_package_name(
                    x.module.as_str(),
                    x.namespace.as_str(),
                );
                join3(package.as_str(), ".", local.as_str())
            },
            _ => local,
        }
    }

    /// Classes the type needs imported; none of the strategies needs any.
    pub fn imports(&self) -> (r: Option<Vec<String>>)
        ensures
            r is None,
    {
        None
    }

    /// The registration hook to run at start-up, for the types that foreign
    /// code implements.
    pub fn initialization_fn(&self) -> (r: Option<String>)
        ensures
            r matches Some(s) ==> self.initialization_spec() == Some(s@),
            r is None ==> self.initialization_spec() is None,
    {
        match self {
            CodeType::Object(o) => {
                if o.imp.has_callback_interface() {
                    Some(join3("UniffiCallbackInterface", o.name.as_str(), ".INSTANCE.register"))
                } else {
                    None
                }
            },
            CodeType::CallbackInterface(c) => Some(
                join3("UniffiCallbackInterface", c.id.as_str(), ".INSTANCE.register"),
            ),
            _ => None,
        }
    }
}

impl JavaCodeOracle {
    /// The strategy of a type. Every type has one.
    pub fn find(&self, t: &Type) -> (r: CodeType)
        ensures
            r == code_type_of(*t),
    {
        match t {
            Type::Boolean => CodeType::Primitive(PrimitiveCodeType::Boolean),
            Type::String => CodeType::Primitive(PrimitiveCodeType::String),
            Type::Int8 => CodeType::Primitive(PrimitiveCodeType::Int8),
            Type::UInt8 => CodeType::Primitive(PrimitiveCodeType::UInt8),
            Type::Int16 => CodeType::Primitive(PrimitiveCodeType::Int16),
            Type::UInt16 => CodeType::Primitive(PrimitiveCodeType::UInt16),
            Type::Int32 => CodeType::Primitive(PrimitiveCodeType::Int32),
            Type::UInt32 => CodeType::Primitive(PrimitiveCodeType::UInt32),
            Type::Int64 => CodeType::Primitive(PrimitiveCodeType::Int64),
            Type::UInt64 => CodeType::Primitive(PrimitiveCodeType::UInt64),
            Type::Float32 => CodeType::Primitive(PrimitiveCodeType::Float32),
            Type::Float64 => CodeType::Primitive(PrimitiveCodeType::Float64),
            Type::Timestamp => CodeType::Primitive(PrimitiveCodeType::Timestamp),
            Type::Duration => CodeType::Primitive(PrimitiveCodeType::Duration),
            Type::Bytes => CodeType::Bytes(BytesCodeType),
            Type::Enum { name, .. } => CodeType::Enum(EnumCodeType::new(name.clone())),
            Type::Record { name, .. } => CodeType::Record(RecordCodeType::new(name.clone())),
            Type::Object { name, imp, .. } => CodeType::Object(
                ObjectCodeType::new(name.clone(), *imp),
            ),
            Type::CallbackInterface { name, .. } => CodeType::CallbackInterface(
                CallbackInterfaceCodeType::new(name.clone()),
            ),
            Type::Optional { inner_type } => CodeType::Optional(
                OptionalCodeType::new((**inner_type).duplicate()),
            ),
            Type::Sequence { inner_type } => CodeType::Sequence(
                SequenceCodeType::new((**inner_type).duplicate()),
            ),
            Type::Mapping { key_type, value_type } => CodeType::Mapping(
                MapCodeType::new((**key_type).duplicate(), (**value_type).duplicate()),
            ),
            Type::External { module, name, namespace, .. } => CodeType::External(
                ExternalCodeType::new(name.clone(), module.clone(), namespace.clone()),
            ),
            Type::Custom { name, .. } => CodeType::Custom(CustomCodeType::new(name.clone())),
        }
    }
}

/// The Java label of a type.
pub fn type_label_of(t: &Type, ci: &ComponentInterface, config: &Config) -> (r: String)
    ensures
        r@ == label_of(ci, config, *t),
    decreases t,
{
    match t {
        Type::Optional { inner_type } => type_label_of(&**inner_type, ci, config),
        Type::Sequence { inner_type } => {
            let inner = type_label_of(&**inner_type, ci, config);
            join3("List<", inner.as_str(), ">")
        },
        Type::Mapping { key_type, value_type } => {
            let key = type_label_of(&**key_type, ci, config);
            let value = type_label_of(&**value_type, ci, config);
            join3("Map<", key.as_str(), ", ").concat(value.as_str()).concat(">")
        },
        _ => JavaCodeOracle.find(t).leaf_label(ci, config),
    }
}

/// The canonical name of a type; unique within a component whose type names
/// are not proper prefixes of one another (see `canonical_of`).
pub fn canonical_name_of(t: &Type) -> (r: String)
    ensures
        r@ == canonical_of(*t),
    decreases t,
{
    match t {
        Type::Optional { inner_type } => {
            let inner = canonical_name_of(&**inner_type);
            join2("Optional", inner.as_str())
        },
        Type::Sequence { inner_type } => {
            let inner = canonical_name_of(&**inner_type);
            join2("Sequence", inner.as_str())
        },
        Type::Mapping { key_type, value_type } => {
            let key = canonical_name_of(&**key_type);
            let value = canonical_name_of(&**value_type);
            join3("Map", key.as_str(), value.as_str())
        },
        _ => JavaCodeOracle.find(t).leaf_canonical(),
    }
}

/// The Java rendering of a literal for a type.
pub fn literal_for_type(t: &Type, lit: &Literal, ci: &ComponentInterface, config: &Config) -> (r:
    Result<String, GenerationError>)
    ensures
        r matches Ok(s) ==> literal_of(ci, config, *t, *lit) == Ok::<Seq<char>, GenerationError>(
            s@,
        ),
        r matches Err(e) ==> literal_of(ci, config, *t, *lit) == Err::<Seq<char>, GenerationError>(
            e,
        ),
    decreases lit,
{
    match t {
        Type::Optional { inner_type } => match lit {
            Literal::Null => Ok(String::from_str("null")),
            Literal::NonNull { inner } => literal_for_type(&**inner_type, &**inner, ci, config),
            _ => Err(GenerationError::LiteralTypeMismatch),
        },
        Type::Sequence { .. } => match lit {
            Literal::EmptySequence => Ok(String::from_str("List.of()")),
            _ => Err(GenerationError::LiteralTypeMismatch),
        },
        Type::Mapping { .. } => match lit {
            Literal::EmptyMap => Ok(String::from_str("Map.of()")),
            _ => Err(GenerationError::LiteralTypeMismatch),
        },
        _ => JavaCodeOracle.find(t).leaf_literal(lit, ci, config),
    }
}

/// The named types that a type is built from.
pub open spec fn named_parts(t: Type) -> Set<Type>
    decreases t,
{
    match t {
        Type::Optional { inner_type } => named_parts(*inner_type),
        Type::Sequence { inner_type } => named_parts(*inner_type),
        Type::Mapping { key_type, value_type } => named_parts(*key_type).union(
            named_parts(*value_type),
        ),
        _ => if name_of_type(t) is Some {
            set![t]
        } else {
            Set::empty()
        },
    }
}

/// Named types as one component holds them: a name stands for one type, and
/// no name is a proper prefix of another.
pub open spec fn names_distinct(s: Set<Type>) -> bool {
    forall|a: Type, b: Type|
        #![trigger s.contains(a), s.contains(b)]
        s.contains(a) && s.contains(b) ==> {
            let na = name_of_type(a)->0;
            let nb = name_of_type(b)->0;
            &&& (na == nb ==> a == b)
            &&& !(na.len() < nb.len() && nb.subrange(0, na.len() as int) == na)
        }
}

/// The first two characters of a type's canonical name.
pub open spec fn head2(t: Type) -> (char, char) {
    match t {
        Type::Boolean => ('B', 'o'),
        Type::String => ('S', 't'),
        Type::Int8 => ('B', 'y'),
        Type::UInt8 => ('U', 'B'),
        Type::Int16 => ('S', 'h'),
        Type::UInt16 => ('U', 'S'),
        Type::Int32 => ('I', 'n'),
        Type::UInt32 => ('U', 'I'),
        Type::Int64 => ('L', 'o'),
        Type::UInt64 => ('U', 'L'),
        Type::Float32 => ('F', 'l'),
        Type::Float64 => ('D', 'o'),
        Type::Timestamp => ('T', 'i'),
        Type::Duration => ('D', 'u'),
        Type::Bytes => ('B', 'y'),
        Type::Optional { .. } => ('O', 'p'),
        Type::Sequence { .. } => ('S', 'e'),
        Type::Mapping { .. } => ('M', 'a'),
        _ => ('T', 'y'),
    }
}

/// A character that a canonical name can start with.
pub open spec fn tag_initial(c: char) -> bool {
    c == 'B' || c == 'S' || c == 'U' || c == 'I' || c == 'L' || c == 'F' || c == 'D' || c == 'T'
        || c == 'O' || c == 'M'
}

/// What may follow a canonical name inside another: nothing, or another one.
pub open spec fn fits_after(r: Seq<char>) -> bool {
    r.len() == 0 || tag_initial(r[0])
}

proof fn lemma_head2(t: Type)
    ensures
        canonical_of(t).len() >= 3,
        canonical_of(t)[0] == head2(t).0,
        canonical_of(t)[1] == head2(t).1,
        tag_initial(head2(t).0),
        t is Int8 ==> canonical_of(t) == "Byte"@,
        t is Bytes ==> canonical_of(t) == "ByteArray"@,
        name_of_type(t) is Some ==> canonical_of(t) == "Type"@ + name_of_type(t)->0,
{
    reveal_strlit("Boolean");
    reveal_strlit("String");
    reveal_strlit("Byte");
    reveal_strlit("UByte");
    reveal_strlit("Short");
    reveal_strlit("UShort");
    reveal_strlit("Integer");
    reveal_strlit("UInteger");
    reveal_strlit("Long");
    reveal_strlit("ULong");
    reveal_strlit("Float");
    reveal_strlit("Double");
    reveal_strlit("Timestamp");
    reveal_strlit("Duration");
    reveal_strlit("ByteArray");
    reveal_strlit("Optional");
    reveal_strlit("Sequence");
    reveal_strlit("Map");
    reveal_strlit("Type");
}

proof fn lemma_strip(a: Seq<char>, b: Seq<char>, c: Seq<char>)
    requires
        a + b == a + c,
    ensures
        b == c,
{
    assert(b =~= (a + b).subrange(a.len() as int, (a + b).len() as int));
    assert(c =~= (a + c).subrange(a.len() as int, (a + c).len() as int));
}

/// A canonical name followed by what fits after it is read back one way only.
proof fn lemma_canonical_unique_prefix(
    s: Set<Type>,
    t1: Type,
    t2: Type,
    r1: Seq<char>,
    r2: Seq<char>,
)
    requires
        names_distinct(s),
        named_parts(t1).subset_of(s),
        named_parts(t2).subset_of(s),
        fits_after(r1),
        fits_after(r2),
        canonical_of(t1) + r1 == canonical_of(t2) + r2,
    ensures
        t1 == t2,
        r1 == r2,
    decreases t1,
{
    let c1 = canonical_of(t1);
    let c2 = canonical_of(t2);
    lemma_head2(t1);
    lemma_head2(t2);
    assert((c1 + r1)[0] == c1[0]);
    assert((c2 + r2)[0] == c2[0]);
    assert((c1 + r1)[1] == c1[1]);
    assert((c2 + r2)[1] == c2[1]);
    assert(head2(t1) == head2(t2));
    reveal_strlit("Optional");
    reveal_strlit("Sequence");
    reveal_strlit("Map");
    reveal_strlit("Type");
    match t1 {
        Type::Optional { inner_type: i1 } => {
            let i2 = *t2->Optional_inner_type;
            assert(c1 + r1 =~= "Optional"@ + (canonical_of(*i1) + r1));
            assert(c2 + r2 =~= "Optional"@ + (canonical_of(i2) + r2));
            lemma_strip("Optional"@, canonical_of(*i1) + r1, canonical_of(i2) + r2);
            lemma_canonical_unique_prefix(s, *i1, i2, r1, r2);
        },
        Type::Sequence { inner_type: i1 } => {
            let i2 = *t2->Sequence_inner_type;
            assert(c1 + r1 =~= "Sequence"@ + (canonical_of(*i1) + r1));
            assert(c2 + r2 =~= "Sequence"@ + (canonical_of(i2) + r2));
            lemma_strip("Sequence"@, canonical_of(*i1) + r1, canonical_of(i2) + r2);
            lemma_canonical_unique_prefix(s, *i1, i2, r1, r2);
        },
        Type::Mapping { key_type: k1, value_type: v1 } => {
            let k2 = *t2->Mapping_key_type;
            let v2 = *t2->Mapping_value_type;
            lemma_head2(*v1);
            lemma_head2(v2);
            let rest1 = canonical_of(*v1) + r1;
            let rest2 = canonical_of(v2) + r2;
            assert(c1 + r1 =~= "Map"@ + (canonical_of(*k1) + rest1));
            assert(c2 + r2 =~= "Map"@ + (canonical_of(k2) + rest2));
            lemma_strip("Map"@, canonical_of(*k1) + rest1, canonical_of(k2) + rest2);
            assert(rest1[0] == canonical_of(*v1)[0]);
            assert(rest2[0] == canonical_of(v2)[0]);
            lemma_canonical_unique_prefix(s, *k1, k2, rest1, rest2);
            lemma_canonical_unique_prefix(s, *v1, v2, r1, r2);
        },
        _ => {
            if name_of_type(t1) is Some {
                let n1 = name_of_type(t1)->0;
                assert(name_of_type(t2) is Some);
                let n2 = name_of_type(t2)->0;
                assert(s.contains(t1));
                assert(s.contains(t2));
                assert(c1 + r1 =~= "Type"@ + (n1 + r1));
                assert(c2 + r2 =~= "Type"@ + (n2 + r2));
                lemma_strip("Type"@, n1 + r1, n2 + r2);
                if n1.len() < n2.len() {
                    assert(n2.subrange(0, n1.len() as int) =~= n1) by {
                        assert forall|i: int| 0 <= i < n1.len() implies n2[i] == n1[i] by {
                            assert((n1 + r1)[i] == (n2 + r2)[i]);
                        }
                    }
                } else if n2.len() < n1.len() {
                    assert(n1.subrange(0, n2.len() as int) =~= n2) by {
                        assert forall|i: int| 0 <= i < n2.len() implies n2[i] == n1[i] by {
                            assert((n1 + r1)[i] == (n2 + r2)[i]);
                        }
                    }
                } else {
                    assert(n1 =~= n2) by {
                        assert forall|i: int| 0 <= i < n1.len() implies n2[i] == n1[i] by {
                            assert((n1 + r1)[i] == (n2 + r2)[i]);
                        }
                    }
                    lemma_strip(n1, r1, r2);
                }
            } else if t1 is Int8 && t2 is Bytes {
                reveal_strlit("Byte");
                reveal_strlit("ByteArray");
                if r1.len() > 0 {
                    assert((c1 + r1)[4] == r1[0]);
                    assert((c2 + r2)[4] == 'A');
                }
            } else if t1 is Bytes && t2 is Int8 {
                reveal_strlit("Byte");
                reveal_strlit("ByteArray");
                if r2.len() > 0 {
                    assert((c2 + r2)[4] == r2[0]);
                    assert((c1 + r1)[4] == 'A');
                }
            } else {
                assert(t1 == t2);
                lemma_strip(c1, r1, r2);
            }
        },
    }
}

/// Two different types of one component have different canonical names,
/// where one component holds each named type once and no type name of it is
/// a proper prefix of another.
pub proof fn lemma_canonical_name_injective(t1: Type, t2: Type)
    requires
        names_distinct(named_parts(t1).union(named_parts(t2))),
        t1 != t2,
    ensures
        canonical_of(t1) != canonical_of(t2),
{
    if canonical_of(t1) == canonical_of(t2) {
        let e = Seq::<char>::empty();
        assert(canonical_of(t1) + e =~= canonical_of(t2) + e);
        lemma_canonical_unique_prefix(named_parts(t1).union(named_parts(t2)), t1, t2, e, e);
    }
}

/// Every type resolves to a strategy, and that strategy's label, canonical
/// name and literals are those of the type.
pub proof fn lemma_strategy_of_every_type(
    t: Type,
    ci: &ComponentInterface,
    config: &Config,
    lit: Literal,
)
    ensures
        code_type_of(t).canonical_spec() == canonical_of(t),
        code_type_of(t).label_spec(ci, config) == label_of(ci, config, t),
        code_type_of(t).literal_spec(lit, ci, config) == literal_of(ci, config, t, lit),
{
}

/// The strategy of one variant of an error enum, which Java declares as a class.
pub struct VariantCodeType {
    pub v: Variant,
}

impl VariantCodeType {
    pub fn type_label(&self, ci: &ComponentInterface, config: &Config) -> (r: String)
        ensures
            r@ == qualified_spec(config, ci, self.v.name@, class_name_of(ci, self.v.name@)),
    {
        potentially_add_external_package(
            config,
            ci,
            self.v.name.as_str(),
            JavaCodeOracle.class_name(ci, self.v.name.as_str()),
        )
    }

    pub fn canonical_name(&self) -> (r: String)
        ensures
            r@ == self.v.name@,
    {
        self.v.name.clone()
    }
}

/// A fixed-width integer or float type.
pub open spec fn numeric_type(t: Type) -> bool {
    t is Int8 || t is UInt8 || t is Int16 || t is UInt16 || t is Int32 || t is UInt32 || t is Int64
        || t is UInt64 || t is Float32 || t is Float64
}

/// A number literal whose own type is numeric, or optional numeric.
pub open spec fn numeric_literal(lit: Literal) -> bool {
    let own = match lit {
        Literal::Int(_, _, t) => t,
        Literal::UInt(_, _, t) => t,
        Literal::Float(_, t) => t,
        _ => Type::Boolean,
    };
    numeric_type(own) || (own matches Type::Optional { inner_type } && numeric_type(*inner_type))
}

/// A number literal renders, and renders to the same text, against every
/// numeric type in every component and configuration: the text is a function
/// of the literal alone, so rendering it twice gives the same text.
pub proof fn lemma_numeric_literal_stable(
    lit: Literal,
    t1: Type,
    ci1: &ComponentInterface,
    config1: &Config,
    t2: Type,
    ci2: &ComponentInterface,
    config2: &Config,
)
    requires
        numeric_literal(lit),
        numeric_type(t1),
        numeric_type(t2),
    ensures
        literal_of(ci1, config1, t1, lit) is Ok,
        literal_of(ci1, config1, t1, lit) == primitive_literal_spec(lit),
        literal_of(ci1, config1, t1, lit) == literal_of(ci2, config2, t2, lit),
{
}

} // verus!
