use uniffi_bindgen_java::code_type::{
    canonical_name_of, type_label_of, CodeType, MapCodeType, OptionalCodeType, SequenceCodeType,
    VariantCodeType,
};
use uniffi_bindgen_java::config::Config;
use uniffi_bindgen_java::error::GenerationError;
use uniffi_bindgen_java::filters;
use uniffi_bindgen_java::literal::render_primitive_literal;
use uniffi_bindgen_java::model::{
    ComponentInterface, Enum, ExternalKind, Literal, ObjectImpl, Radix, Type, Variant,
};
use uniffi_bindgen_java::naming::JavaCodeOracle;

fn ci() -> ComponentInterface {
    ComponentInterface {
        namespace: "example".to_string(),
        crate_name: "example".to_string(),
        types: Vec::new(),
        error_names: Vec::new(),
    }
}

fn named(kind: &str, name: &str) -> Type {
    let module = "example".to_string();
    let name = name.to_string();
    match kind {
        "enum" => Type::Enum { module, name },
        "record" => Type::Record { module, name },
        "object" => Type::Object { module, name, imp: ObjectImpl::Struct },
        "callback" => Type::CallbackInterface { module, name },
        _ => Type::Custom { module, name, builtin: Box::new(Type::String) },
    }
}

fn optional(t: Type) -> Type {
    Type::Optional { inner_type: Box::new(t) }
}

fn sequence(t: Type) -> Type {
    Type::Sequence { inner_type: Box::new(t) }
}

fn mapping(k: Type, v: Type) -> Type {
    Type::Mapping { key_type: Box::new(k), value_type: Box::new(v) }
}

fn all_types() -> Vec<Type> {
    vec![
        Type::UInt8,
        Type::Int8,
        Type::UInt16,
        Type::Int16,
        Type::UInt32,
        Type::Int32,
        Type::UInt64,
        Type::Int64,
        Type::Float32,
        Type::Float64,
        Type::Boolean,
        Type::String,
        Type::Bytes,
        Type::Timestamp,
        Type::Duration,
        named("enum", "color"),
        named("record", "point"),
        named("object", "counter"),
        named("callback", "listener"),
        optional(Type::Int32),
        sequence(Type::String),
        mapping(Type::String, Type::Int64),
        Type::External {
            module: "other".to_string(),
            name: "remote".to_string(),
            namespace: "other".to_string(),
            kind: ExternalKind::Interface,
        },
        named("custom", "url"),
    ]
}

#[test]
fn every_type_resolves_to_a_strategy() {
    let config = Config::default();
    let ci = ci();
    for t in all_types() {
        let ct = JavaCodeOracle.find(&t);
        assert!(!ct.canonical_name().is_empty());
        assert!(!ct.type_label(&ci, &config).is_empty());
        assert!(ct.imports().is_none());
    }
}

#[test]
fn canonical_names_are_distinct() {
    let names: Vec<String> = all_types().iter().map(canonical_name_of).collect();
    for (i, a) in names.iter().enumerate() {
        for (j, b) in names.iter().enumerate() {
            if i != j {
                assert_ne!(a, b);
            }
        }
    }
}

#[test]
fn canonical_names_of_compounds() {
    assert_eq!(
        canonical_name_of(&optional(sequence(Type::Int32))),
        "OptionalSequenceInteger"
    );
    assert_eq!(
        canonical_name_of(&mapping(Type::String, named("record", "A"))),
        "MapStringTypeA"
    );
    assert_eq!(canonical_name_of(&Type::UInt8), "UByte");
    assert_eq!(canonical_name_of(&Type::Int8), "Byte");
    assert_eq!(canonical_name_of(&Type::Bytes), "ByteArray");
    assert_eq!(filters::canonical_name(&named("enum", "Color")), "TypeColor");
}

#[test]
fn type_labels() {
    let config = Config::default();
    let ci = ci();
    assert_eq!(type_label_of(&mapping(Type::String, Type::Int64), &ci, &config), "Map<String, Long>");
    assert_eq!(type_label_of(&sequence(Type::Bytes), &ci, &config), "List<byte[]>");
    assert_eq!(type_label_of(&optional(Type::Boolean), &ci, &config), "Boolean");
    assert_eq!(type_label_of(&Type::UInt32, &ci, &config), "Integer");
    assert_eq!(type_label_of(&Type::Timestamp, &ci, &config), "java.time.Instant");
    assert_eq!(filters::type_label(&named("record", "point_two"), &ci, &config), "PointTwo");
}

#[test]
fn converter_names_and_methods() {
    let config = Config::default();
    let ci = ci();
    assert_eq!(filters::ffi_converter_name(&Type::Int32), "FfiConverterInteger");
    assert_eq!(
        filters::ffi_converter_instance(&sequence(Type::String), &config, &ci),
        "FfiConverterSequenceString.INSTANCE"
    );
    assert_eq!(filters::lower_fn(&Type::Int32, &config, &ci), "FfiConverterInteger.INSTANCE.lower");
    assert_eq!(filters::lift_fn(&Type::Int32, &config, &ci), "FfiConverterInteger.INSTANCE.lift");
    assert_eq!(filters::read_fn(&Type::Int32, &config, &ci), "FfiConverterInteger.INSTANCE.read");
    assert_eq!(filters::write_fn(&Type::Int32, &config, &ci), "FfiConverterInteger.INSTANCE.write");
    assert_eq!(
        filters::allocation_size_fn(&Type::Int32, &config, &ci),
        "FfiConverterInteger.INSTANCE.allocationSize"
    );
}

#[test]
fn initialization_hooks() {
    let foreign = Type::Object {
        module: "example".to_string(),
        name: "Foo".to_string(),
        imp: ObjectImpl::CallbackTrait,
    };
    assert_eq!(
        JavaCodeOracle.find(&foreign).initialization_fn(),
        Some("UniffiCallbackInterfaceFoo.INSTANCE.register".to_string())
    );
    assert_eq!(
        JavaCodeOracle.find(&named("callback", "Bar")).initialization_fn(),
        Some("UniffiCallbackInterfaceBar.INSTANCE.register".to_string())
    );
    assert_eq!(JavaCodeOracle.find(&named("object", "Baz")).initialization_fn(), None);
    assert_eq!(JavaCodeOracle.find(&Type::Int32).initialization_fn(), None);
}

#[test]
fn literal_widening_distinguishes_signedness() {
    let signed = render_primitive_literal(&Literal::Int(42, Radix::Decimal, Type::Int64)).unwrap();
    let unsigned = render_primitive_literal(&Literal::Int(42, Radix::Decimal, Type::UInt64)).unwrap();
    assert_eq!(signed, "42L");
    assert_eq!(unsigned, "Long.parseUnsignedLong(42)");
    assert_ne!(signed, unsigned);
    let again = render_primitive_literal(&Literal::Int(42, Radix::Decimal, Type::Int64)).unwrap();
    assert_eq!(signed, again);
}

#[test]
fn integer_literal_forms() {
    let r = |l: Literal| render_primitive_literal(&l).unwrap();
    assert_eq!(r(Literal::Int(-1, Radix::Hexadecimal, Type::Int32)), "0xffffffffffffffff");
    assert_eq!(r(Literal::UInt(255, Radix::Octal, Type::UInt8)), "Integer.parseUnsignedInt(0xff)");
    assert_eq!(r(Literal::Int(i64::MIN, Radix::Decimal, Type::Int64)), "-9223372036854775808L");
    assert_eq!(r(Literal::UInt(u64::MAX, Radix::Decimal, Type::UInt64)), "Long.parseUnsignedLong(18446744073709551615)");
    assert_eq!(r(Literal::Int(0, Radix::Decimal, Type::Int16)), "0");
    assert_eq!(r(Literal::Int(7, Radix::Decimal, Type::Optional { inner_type: Box::new(Type::Int64) })), "7L");
    assert_eq!(r(Literal::Float("1.5".to_string(), Type::Float32)), "1.5f");
    assert_eq!(r(Literal::Float("2.25".to_string(), Type::Float64)), "2.25");
    assert_eq!(r(Literal::Boolean(true)), "true");
    assert_eq!(r(Literal::Boolean(false)), "false");
    assert_eq!(r(Literal::String("hi".to_string())), "\"hi\"");
}

#[test]
fn number_for_non_numeric_type_is_rejected() {
    assert_eq!(
        render_primitive_literal(&Literal::Int(1, Radix::Decimal, Type::String)),
        Err(GenerationError::LiteralTypeMismatch)
    );
}

#[test]
fn compound_literals() {
    let config = Config::default();
    let ci = ci();
    let opt = JavaCodeOracle.find(&optional(Type::Int32));
    assert_eq!(opt.literal(&Literal::Null, &ci, &config), Ok("null".to_string()));
    let inner = Literal::NonNull { inner: Box::new(Literal::Int(5, Radix::Decimal, Type::Int32)) };
    assert_eq!(opt.literal(&inner, &ci, &config), Ok("5".to_string()));
    let seq = JavaCodeOracle.find(&sequence(Type::Int32));
    assert_eq!(seq.literal(&Literal::EmptySequence, &ci, &config), Ok("List.of()".to_string()));
    let map = JavaCodeOracle.find(&mapping(Type::String, Type::Int32));
    assert_eq!(map.literal(&Literal::EmptyMap, &ci, &config), Ok("Map.of()".to_string()));
    assert_eq!(
        map.literal(&Literal::EmptySequence, &ci, &config),
        Err(GenerationError::LiteralTypeMismatch)
    );
    assert_eq!(
        filters::render_literal(&Literal::EmptyMap, &sequence(Type::Int32), &ci, &config),
        Err(GenerationError::LiteralTypeMismatch)
    );
}

#[test]
fn enum_literals() {
    let config = Config::default();
    let ci = ci();
    let color = named("enum", "color");
    let lit = Literal::Enum("dark_red".to_string(), named("enum", "color"));
    assert_eq!(
        filters::render_literal(&lit, &color, &ci, &config),
        Ok("Color.DARK_RED".to_string())
    );
    assert_eq!(
        filters::render_literal(&Literal::Boolean(true), &color, &ci, &config),
        Err(GenerationError::LiteralTypeMismatch)
    );
    let record = named("record", "point");
    assert_eq!(
        filters::render_literal(&Literal::Null, &record, &ci, &config),
        Err(GenerationError::LiteralTypeMismatch)
    );
}

#[test]
fn enum_discriminants() {
    let e = Enum {
        name: "Level".to_string(),
        variants: vec![Variant { name: "Low".to_string() }, Variant { name: "High".to_string() }],
        discriminants: vec![
            Literal::UInt(3, Radix::Decimal, Type::UInt8),
            Literal::Float("1.0".to_string(), Type::Float64),
        ],
        discr_type: Some(Type::UInt8),
    };
    assert_eq!(filters::variant_discr_literal(&e, 0), Ok("3u".to_string()));
    assert_eq!(filters::variant_discr_literal(&e, 1), Err(GenerationError::NonIntegerDiscriminant));
    let signed = Enum {
        name: "Delta".to_string(),
        variants: vec![Variant { name: "Down".to_string() }],
        discriminants: vec![Literal::Int(-2, Radix::Decimal, Type::Int32)],
        discr_type: Some(Type::Int32),
    };
    assert_eq!(filters::variant_discr_literal(&signed, 0), Ok("-2".to_string()));
    let untyped = Enum {
        name: "Plain".to_string(),
        variants: vec![Variant { name: "A".to_string() }],
        discriminants: vec![Literal::UInt(0, Radix::Decimal, Type::UInt8)],
        discr_type: None,
    };
    assert_eq!(filters::variant_discr_literal(&untyped, 0), Err(GenerationError::MissingDiscriminantType));
    assert_eq!(
        filters::int_literal(&Some(Type::String), "1".to_string()),
        Err(GenerationError::NonIntegerDiscriminant)
    );
}

#[test]
fn external_types_are_qualified() {
    let mut config = Config::default();
    config.external_packages.push(("other".to_string(), "org.other".to_string()));
    let mine = ComponentInterface {
        namespace: "mine".to_string(),
        crate_name: "mine".to_string(),
        types: vec![Type::Record { module: "other::types".to_string(), name: "thing".to_string() }],
        error_names: Vec::new(),
    };
    let record = Type::Record { module: "other::types".to_string(), name: "thing".to_string() };
    assert_eq!(type_label_of(&record, &mine, &config), "org.other.Thing");
    assert_eq!(
        JavaCodeOracle.find(&record).ffi_converter_instance(&config, &mine),
        "org.other.FfiConverterTypething.INSTANCE"
    );
    let ext = Type::External {
        module: "far::x".to_string(),
        name: "gadget".to_string(),
        namespace: "far_ns".to_string(),
        kind: ExternalKind::Interface,
    };
    assert_eq!(type_label_of(&ext, &mine, &config), "uniffi.far_ns.Gadget");
    let local = Type::Record { module: "mine".to_string(), name: "local".to_string() };
    assert_eq!(type_label_of(&local, &mine, &config), "Local");
    let v = VariantCodeType { v: Variant { name: "thing".to_string() } };
    assert_eq!(v.type_label(&mine, &config), "org.other.Thing");
    assert_eq!(v.canonical_name(), "thing");
}

#[test]
fn strategy_constructors_keep_their_fields() {
    let m = MapCodeType::new(Type::String, Type::Int32);
    assert!(matches!(m.key(), Type::String));
    assert!(matches!(m.value(), Type::Int32));
    assert!(matches!(OptionalCodeType::new(Type::Boolean).inner(), Type::Boolean));
    assert!(matches!(SequenceCodeType::new(Type::Bytes).inner(), Type::Bytes));
    let ct = CodeType::Mapping(m);
    assert_eq!(ct.canonical_name(), "MapStringInteger");
}

#[test]
fn numeric_literal_renders_alike_for_every_numeric_type() {
    let config = Config::default();
    let ci = ci();
    let lit = Literal::Int(12, Radix::Decimal, Type::Int64);
    for t in [Type::Int8, Type::UInt32, Type::Float64, Type::Int64] {
        let first = filters::render_literal(&lit, &t, &ci, &config);
        let second = filters::render_literal(&lit, &t, &ci, &config);
        assert_eq!(first, Ok("12L".to_string()));
        assert_eq!(first, second);
    }
}
