use uniffi_bindgen_java::filters;
use uniffi_bindgen_java::model::{ComponentInterface, ExternalKind, Object, ObjectImpl, Type, Variant};
use uniffi_bindgen_java::naming::JavaCodeOracle;

fn component(errors: &[&str]) -> ComponentInterface {
    ComponentInterface {
        namespace: "example".to_string(),
        crate_name: "example".to_string(),
        types: Vec::new(),
        error_names: errors.iter().map(|e| e.to_string()).collect(),
    }
}

#[test]
fn error_type_class_name_uses_exception() {
    let ci = component(&["my_error"]);
    assert_eq!(JavaCodeOracle.class_name(&ci, "my_error"), "MyException");
}

#[test]
fn non_error_type_keeps_error_suffix() {
    let ci = component(&[]);
    assert_eq!(JavaCodeOracle.class_name(&ci, "my_error"), "MyError");
    assert_eq!(JavaCodeOracle.class_name(&ci, "person_record"), "PersonRecord");
}

#[test]
fn error_type_without_suffix_is_only_camel_cased() {
    let ci = component(&["failure"]);
    assert_eq!(JavaCodeOracle.class_name(&ci, "failure"), "Failure");
}

#[test]
fn convert_error_suffix_cases() {
    let o = JavaCodeOracle;
    assert_eq!(o.convert_error_suffix("FooError"), "FooException");
    assert_eq!(o.convert_error_suffix("Error"), "Exception");
    assert_eq!(o.convert_error_suffix("Foo"), "Foo");
    assert_eq!(o.convert_error_suffix("ErrorFoo"), "ErrorFoo");
    assert_eq!(o.convert_error_suffix(""), "");
}

#[test]
fn function_variable_and_getter_names() {
    let o = JavaCodeOracle;
    assert_eq!(o.fn_name("do_thing"), "doThing");
    assert_eq!(o.var_name("first_name"), "firstName");
    assert_eq!(o.getter_name("first_name"), "getFirstName");
}

#[test]
fn enum_variant_name_is_shouty() {
    assert_eq!(JavaCodeOracle.enum_variant_name("MyVariant"), "MY_VARIANT");
    let v = Variant { name: "other_case".to_string() };
    assert_eq!(filters::variant_name(&v), "OTHER_CASE");
}

#[test]
fn error_variant_name_converts_suffix() {
    let v = Variant { name: "io_error".to_string() };
    assert_eq!(filters::error_variant_name(&v), "IoException");
}

#[test]
fn ffi_callback_and_struct_names_share_prefix() {
    assert_eq!(JavaCodeOracle.ffi_callback_name("callback_fn"), "UniffiCallbackFn");
    assert_eq!(JavaCodeOracle.ffi_struct_name("vtable_struct"), "UniffiVtableStruct");
    assert_eq!(filters::ffi_callback_name("on_done"), "UniffiOnDone");
    assert_eq!(filters::ffi_struct_name("on_done"), "UniffiOnDone");
}

#[test]
fn object_names_depend_on_callback_support() {
    let ci = component(&[]);
    let plain = Object { name: "counter".to_string(), imp: ObjectImpl::Struct };
    assert_eq!(
        JavaCodeOracle.object_names(&ci, &plain),
        ("CounterInterface".to_string(), "Counter".to_string())
    );
    let foreign = Object { name: "counter".to_string(), imp: ObjectImpl::CallbackTrait };
    assert_eq!(
        filters::object_names(&foreign, &ci),
        ("Counter".to_string(), "CounterImpl".to_string())
    );
}

#[test]
fn unquote_strips_backticks_at_both_ends() {
    assert_eq!(filters::unquote("`type`"), "type");
    assert_eq!(filters::unquote("``a`b``"), "a`b");
    assert_eq!(filters::unquote("plain"), "plain");
    assert_eq!(filters::unquote("```"), "");
}

#[test]
fn async_lambdas() {
    assert_eq!(
        filters::async_poll("poll_fn"),
        "{ future, callback, continuation -> UniffiLib.INSTANCE.poll_fn(future, callback, continuation) }"
    );
    assert_eq!(
        filters::async_free("free_fn"),
        "{ future -> UniffiLib.INSTANCE.free_fn(future) }"
    );
    let ci = component(&[]);
    assert_eq!(
        filters::async_complete("complete_fn", None, &ci),
        "{ future, continuation -> UniffiLib.INSTANCE.complete_fn(future, continuation) }"
    );
}

#[test]
fn async_complete_converts_external_data_class_buffers() {
    let ci = component(&[]);
    let t = Type::External {
        module: "other".to_string(),
        name: "remote_data".to_string(),
        namespace: "other".to_string(),
        kind: ExternalKind::DataClass,
    };
    assert_eq!(
        filters::async_complete("complete_fn", Some(&t), &ci),
        "{ future, continuation -> UniffiLib.INSTANCE.complete_fn(future, continuation).let { RustBufferRemoteData.create(it.capacity.toULong(), it.len.toULong(), it.data) } }"
    );
}

#[test]
fn docstring_is_wrapped_and_indented() {
    assert_eq!(
        filters::docstring("Hello\nWorld", &4),
        "    /**\n     * Hello\n     * World\n     */"
    );
    assert_eq!(
        filters::docstring("    Indented\n    text", &0),
        "/**\n * Indented\n * text\n */"
    );
    assert_eq!(filters::docstring("One", &-3), "/**\n * One\n */");
}

#[test]
fn doc_comment_block_and_spaces() {
    assert_eq!(filters::doc_comment(" * x"), "/**\n * x\n */");
    assert_eq!(filters::spaces(3), "   ");
    assert_eq!(filters::spaces(0), "");
}

#[test]
fn reserved_words_are_escaped() {
    let o = JavaCodeOracle;
    assert_eq!(o.var_name("class"), "class_");
    assert_eq!(o.fn_name("new"), "new_");
    assert_eq!(filters::var_name("null"), "null_");
    assert_eq!(filters::fn_name("do_it"), "doIt");
    assert_eq!(o.var_name("classes"), "classes");
}
