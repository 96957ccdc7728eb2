use uniffi_bindgen_java::config::Config;
use uniffi_bindgen_java::error::GenerationError;
use uniffi_bindgen_java::filters;
use uniffi_bindgen_java::model::{ComponentInterface, FfiType, ObjectImpl, Type};
use uniffi_bindgen_java::naming::JavaCodeOracle;
use uniffi_bindgen_java::partition::{first_declaration, package_directory, partition_document, split_on};
use uniffi_bindgen_java::render::{generate_bindings, ImportRequirement, JavaWrapper, TypeRenderer};

fn ci(types: Vec<Type>) -> ComponentInterface {
    ComponentInterface {
        namespace: "example".to_string(),
        crate_name: "example".to_string(),
        types,
        error_names: Vec::new(),
    }
}

fn rendered(imports: &[ImportRequirement]) -> Vec<String> {
    imports.iter().map(|i| i.render()).collect()
}

#[test]
fn repeated_import_appears_once() {
    let config = Config::default();
    let ci = ci(Vec::new());
    let mut r = TypeRenderer::new(&config, &ci);
    assert_eq!(r.add_import("java.util.List"), "");
    assert_eq!(r.add_import("java.util.List"), "");
    assert_eq!(rendered(&r.into_imports()), vec!["import java.util.List;".to_string()]);
}

#[test]
fn include_once_is_true_only_the_first_time() {
    let config = Config::default();
    let ci = ci(Vec::new());
    let mut r = TypeRenderer::new(&config, &ci);
    assert!(r.include_once_check("Helpers"));
    assert!(r.include_once_check("Other"));
    assert!(!r.include_once_check("Helpers"));
    assert!(!r.include_once_check("Helpers"));
    assert!(!r.include_once_check("Other"));
}

#[test]
fn imports_come_out_sorted() {
    let config = Config::default();
    let ci = ci(Vec::new());
    let mut r = TypeRenderer::new(&config, &ci);
    r.add_import_as("z.Thing", "ZThing");
    r.add_import("java.util.Map");
    r.add_import("com.sun.jna.Pointer");
    r.add_import_as("a.Thing", "AThing");
    r.add_import("java.util.List");
    r.add_import_as("a.Thing", "AThing");
    assert_eq!(
        rendered(&r.into_imports()),
        vec![
            "import com.sun.jna.Pointer;".to_string(),
            "import java.util.List;".to_string(),
            "import java.util.Map;".to_string(),
            "import a.Thing as AThing;".to_string(),
            "import z.Thing as ZThing;".to_string(),
        ]
    );
}

#[test]
fn document_has_package_imports_and_code() {
    let config = Config {
        package_name: Some("org.example".to_string()),
        ..Config::default()
    };
    let ci = ci(Vec::new());
    let mut r = TypeRenderer::new(&config, &ci);
    r.add_import("java.util.List");
    r.add_import("java.nio.ByteBuffer");
    let doc = generate_bindings(&config, &ci, r, "class A {}\n".to_string());
    assert_eq!(
        doc,
        "package org.example;\n\nimport java.nio.ByteBuffer;\nimport java.util.List;\n\nclass A {}\n"
    );
}

#[test]
fn wrapper_lists_initialization_hooks_and_imports() {
    let config = Config::default();
    let ci = ci(vec![
        Type::Object { module: "example".to_string(), name: "Foo".to_string(), imp: ObjectImpl::CallbackTrait },
        Type::Record { module: "example".to_string(), name: "Point".to_string() },
        Type::CallbackInterface { module: "example".to_string(), name: "Bar".to_string() },
    ]);
    let mut r = TypeRenderer::new(&config, &ci);
    r.add_import("java.util.List");
    let w = JavaWrapper::new(&config, &ci, r, String::new());
    assert_eq!(
        w.initialization_fns(),
        vec![
            "UniffiCallbackInterfaceFoo.INSTANCE.register".to_string(),
            "UniffiCallbackInterfaceBar.INSTANCE.register".to_string(),
        ]
    );
    assert_eq!(rendered(&w.imports()), vec!["import java.util.List;".to_string()]);
    assert_eq!(w.render(), "package uniffi;\n\nimport java.util.List;\n\n");
}

#[test]
fn partition_two_declarations() {
    let doc = "package p;\nclass A {}\npackage p;\ninterface B {}\n";
    let part = partition_document(doc, "p");
    let files: Vec<(String, String)> =
        part.files.iter().map(|f| (f.class_name.clone(), f.text.clone())).collect();
    assert_eq!(
        files,
        vec![
            ("A".to_string(), "package p;\n\nclass A {}\n".to_string()),
            ("B".to_string(), "package p;\n\ninterface B {}\n".to_string()),
        ]
    );
    assert_eq!(part.files[0].file_name(), "A.java");
    assert!(part.unmatched.is_empty());
}

#[test]
fn partition_without_declaration_emits_nothing() {
    let part = partition_document("package p;\n// nothing here\n", "p");
    assert!(part.files.is_empty());
    assert_eq!(part.unmatched, vec!["\n// nothing here\n".to_string()]);
    assert!(partition_document("", "p").files.is_empty());
}

#[test]
fn declaration_modifiers() {
    assert_eq!(first_declaration("public final class Foo extends Bar {"), Some("Foo".to_string()));
    assert_eq!(first_declaration("// c\npublic sealed interface Shape permits X {"), Some("Shape".to_string()));
    assert_eq!(first_declaration("public abstract static class Y_1 {"), Some("Y_1".to_string()));
    assert_eq!(first_declaration("enum Color {"), Some("Color".to_string()));
    assert_eq!(first_declaration("record Pair(int a) {"), Some("Pair".to_string()));
    assert_eq!(first_declaration("static public class X {"), None);
    assert_eq!(first_declaration("  class Indented {"), None);
    assert_eq!(first_declaration("classy Foo"), None);
    assert_eq!(first_declaration("class {"), None);
    assert_eq!(first_declaration("x class Late\nclass Early {"), Some("Early".to_string()));
}

#[test]
fn split_keeps_empty_pieces() {
    assert_eq!(split_on("aXXbXX", "XX"), vec!["a".to_string(), "b".to_string(), String::new()]);
    assert_eq!(split_on("abc", "XX"), vec!["abc".to_string()]);
    assert_eq!(split_on("XXX", "XX"), vec![String::new(), "X".to_string()]);
}

#[test]
fn package_directory_uses_slashes() {
    assert_eq!(package_directory("uniffi.my_lib"), "uniffi/my_lib");
    assert_eq!(package_directory("plain"), "plain");
}

#[test]
fn ffi_labels() {
    let o = JavaCodeOracle;
    assert_eq!(o.ffi_type_label(&FfiType::UInt32), Ok("Integer".to_string()));
    assert_eq!(o.ffi_type_label(&FfiType::Handle), Ok("Long".to_string()));
    assert_eq!(o.ffi_type_label(&FfiType::RustBuffer(Some("Foo".to_string()))), Ok("RustBufferFoo".to_string()));
    assert_eq!(o.ffi_type_label(&FfiType::Callback("on_done".to_string())), Ok("UniffiOnDone".to_string()));
    assert_eq!(
        o.ffi_type_label(&FfiType::Reference(Box::new(FfiType::Int32))),
        Ok("IntegerByReference".to_string())
    );
    assert_eq!(
        o.ffi_type_label(&FfiType::Reference(Box::new(FfiType::RustArcPtr("x".to_string())))),
        Ok("PointerByReference".to_string())
    );
    assert_eq!(
        o.ffi_type_label(&FfiType::Reference(Box::new(FfiType::Callback("cb".to_string())))),
        Err(GenerationError::UnsupportedFfiRepresentation)
    );
    assert_eq!(
        o.ffi_type_label_by_reference(&FfiType::Struct("foo".to_string())),
        Ok("UniffiFoo".to_string())
    );
}

#[test]
fn ffi_by_value_and_struct_field_labels() {
    assert_eq!(filters::ffi_type_name_by_value(&FfiType::RustBuffer(None)), Ok("RustBuffer.ByValue".to_string()));
    assert_eq!(
        filters::ffi_type_name_by_value(&FfiType::Struct("foo_bar".to_string())),
        Ok("UniffiFooBar.UniffiByValue".to_string())
    );
    assert_eq!(filters::ffi_type_name_by_value(&FfiType::Int8), Ok("Byte".to_string()));
    assert_eq!(
        filters::ffi_type_name_for_ffi_struct(&FfiType::Callback("on_done".to_string())),
        Ok("UniffiOnDone".to_string())
    );
    assert_eq!(
        filters::ffi_type_name_for_ffi_struct(&FfiType::ForeignBytes),
        Ok("ForeignBytes.ByValue".to_string())
    );
}

#[test]
fn ffi_default_values() {
    assert_eq!(filters::ffi_default_value(FfiType::Int16), Ok("(short)0".to_string()));
    assert_eq!(filters::ffi_default_value(FfiType::UInt8), Ok("(byte)0".to_string()));
    assert_eq!(filters::ffi_default_value(FfiType::UInt64), Ok("0L".to_string()));
    assert_eq!(filters::ffi_default_value(FfiType::Float32), Ok("0.0f".to_string()));
    assert_eq!(filters::ffi_default_value(FfiType::RustBuffer(None)), Ok("new RustBuffer.ByValue()".to_string()));
    assert_eq!(
        filters::ffi_default_value(FfiType::RustCallStatus),
        Ok("new UniffiRustCallStatus.ByValue()".to_string())
    );
    assert_eq!(filters::ffi_default_value(FfiType::Callback("c".to_string())), Ok("null".to_string()));
    assert_eq!(filters::ffi_default_value(FfiType::Handle), Err(GenerationError::UnsupportedFfiRepresentation));
}

#[test]
fn repeated_hook_is_listed_once() {
    let config = Config::default();
    let ci = ci(vec![
        Type::CallbackInterface { module: "example".to_string(), name: "Bar".to_string() },
        Type::CallbackInterface { module: "example".to_string(), name: "Bar".to_string() },
    ]);
    let r = TypeRenderer::new(&config, &ci);
    let w = JavaWrapper::new(&config, &ci, r, String::new());
    assert_eq!(
        w.initialization_fns(),
        vec!["UniffiCallbackInterfaceBar.INSTANCE.register".to_string()]
    );
}
