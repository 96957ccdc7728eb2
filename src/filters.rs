//! The helpers that templates call while rendering a component.

use vstd::prelude::*;
use vstd::string::StringExecFns;
use crate::code_type::{canonical_name_of, canonical_of, code_type_of, label_of, literal_for_type, literal_of, type_label_of};
use crate::config::Config;
use crate::error::GenerationError;
use crate::ffi::{by_value_spec, default_value_spec, matches_spec, struct_field_spec};
use crate::literal::{integer_text, signed_integer_text, unsigned_integer_text};
use crate::model::{ComponentInterface, Enum, ExternalKind, FfiType, Literal, Object, Radix, Type, Variant};
use crate::naming::{
    class_name_of, error_suffix_converted, escaped, ffi_prefixed_name, lower_camel_of, shouty_snake_of,
    upper_camel, upper_camel_of, JavaCodeOracle,
};
use crate::text::{chars_of, join3, push_char};

verus! {

/// The Java label of a type.
pub fn type_label(t: &Type, ci: &ComponentInterface, config: &Config) -> (r: String)
    ensures
        r@ == label_of(ci, config, *t),
{
    type_label_of(t, ci, config)
}

/// The canonical name of a type; unique within a component whose type names
/// are not proper prefixes of one another (see `code_type::canonical_of`).
pub fn canonical_name(t: &Type) -> (r: String)
    ensures
        r@ == canonical_of(*t),
{
    canonical_name_of(t)
}

/// The name of a type's converter object.
pub fn ffi_converter_name(t: &Type) -> (r: String)
    ensures
        r@ == code_type_of(*t).converter_spec(),
{
    JavaCodeOracle.find(t).ffi_converter_name()
}

/// A type's converter instance, qualified when the type belongs to another crate.
pub fn ffi_converter_instance(t: &Type, config: &Config, ci: &ComponentInterface) -> (r: String)
    ensures
        r@ == code_type_of(*t).instance_spec(config, ci),
{
    JavaCodeOracle.find(t).ffi_converter_instance(config, ci)
}

/// The converter method `method` of a type.
pub open spec fn converter_method(
    t: Type,
    config: &Config,
    ci: &ComponentInterface,
    method: Seq<char>,
) -> Seq<char> {
    code_type_of(t).instance_spec(config, ci) + "."@ + method
}

pub fn lower_fn(t: &Type, config: &Config, ci: &ComponentInterface) -> (r: String)
    ensures
        r@ == converter_method(*t, config, ci, "lower"@),
{
    join3(ffi_converter_instance(t, config, ci).as_str(), ".", "lower")
}

pub fn allocation_size_fn(t: &Type, config: &Config, ci: &ComponentInterface) -> (r: String)
    ensures
        r@ == converter_method(*t, config, ci, "allocationSize"@),
{
    join3(ffi_converter_instance(t, config, ci).as_str(), ".", "allocationSize")
}

pub fn write_fn(t: &Type, config: &Config, ci: &ComponentInterface) -> (r: String)
    ensures
        r@ == converter_method(*t, config, ci, "write"@),
{
    join3(ffi_converter_instance(t, config, ci).as_str(), ".", "write")
}

pub fn lift_fn(t: &Type, config: &Config, ci: &ComponentInterface) -> (r: String)
    ensures
        r@ == converter_method(*t, config, ci, "lift"@),
{
    join3(ffi_converter_instance(t, config, ci).as_str(), ".", "lift")
}

pub fn read_fn(t: &Type, config: &Config, ci: &ComponentInterface) -> (r: String)
    ensures
        r@ == converter_method(*t, config, ci, "read"@),
{
    join3(ffi_converter_instance(t, config, ci).as_str(), ".", "read")
}

/// The Java rendering of a literal for a type; fails when it does not fit.
pub fn render_literal(
    literal: &Literal,
    t: &Type,
    ci: &ComponentInterface,
    config: &Config,
) -> (r: Result<String, GenerationError>)
    ensures
        matches_spec(r, literal_of(ci, config, *t, *literal)),
{
    literal_for_type(t, literal, ci, config)
}

/// An enum discriminant written for the enum's declared integer type: as
/// is for a signed type, with a `u` for an unsigned one.
pub open spec fn int_literal_spec(t: Option<Type>, base10: Seq<char>) -> Result<
    Seq<char>,
    GenerationError,
> {
    match t {
        Some(ty) => if ty is Int8 || ty is Int16 || ty is Int32 || ty is Int64 {
            Ok(base10)
        } else if ty is UInt8 || ty is UInt16 || ty is UInt32 || ty is UInt64 {
            Ok(base10 + "u"@)
        } else {
            Err(GenerationError::NonIntegerDiscriminant)
        },
        None => Err(GenerationError::MissingDiscriminantType),
    }
}

pub fn int_literal(t: &Option<Type>, base10: String) -> (r: Result<String, GenerationError>)
    ensures
        matches_spec(r, int_literal_spec(*t, base10@)),
{
    match t {
        Some(ty) => match ty {
            Type::Int8 | Type::Int16 | Type::Int32 | Type::Int64 => Ok(base10),
            Type::UInt8 | Type::UInt16 | Type::UInt32 | Type::UInt64 => Ok(base10.concat("u")),
            _ => Err(GenerationError::NonIntegerDiscriminant),
        },
        None => Err(GenerationError::MissingDiscriminantType),
    }
}

/// The discriminant of variant `index` of an enum, as a Java literal.
pub open spec fn discr_literal_spec(e: Enum, index: int) -> Result<Seq<char>, GenerationError> {
    match e.discriminants@[index] {
        Literal::UInt(v, _, _) => int_literal_spec(e.discr_type, integer_text(v as int, Radix::Decimal)),
        Literal::Int(v, _, _) => int_literal_spec(e.discr_type, integer_text(v as int, Radix::Decimal)),
        _ => Err(GenerationError::NonIntegerDiscriminant),
    }
}

pub fn variant_discr_literal(e: &Enum, index: usize) -> (r: Result<String, GenerationError>)
    requires
        index < e.discriminants@.len(),
    ensures
        matches_spec(r, discr_literal_spec(*e, index as int)),
{
    match &e.discriminants[index] {
        Literal::UInt(v, _, _) => int_literal(&e.discr_type, unsigned_integer_text(*v, Radix::Decimal)),
        Literal::Int(v, _, _) => int_literal(&e.discr_type, signed_integer_text(*v, Radix::Decimal)),
        _ => Err(GenerationError::NonIntegerDiscriminant),
    }
}

pub fn ffi_type_name_by_value(t: &FfiType) -> (r: Result<String, GenerationError>)
    ensures
        matches_spec(r, by_value_spec(*t)),
{
    JavaCodeOracle.ffi_type_label_by_value(t)
}

pub fn ffi_type_name_for_ffi_struct(t: &FfiType) -> (r: Result<String, GenerationError>)
    ensures
        matches_spec(r, struct_field_spec(*t)),
{
    JavaCodeOracle.ffi_type_label_for_ffi_struct(t)
}

pub fn ffi_default_value(t: FfiType) -> (r: Result<String, GenerationError>)
    ensures
        matches_spec(r, default_value_spec(t)),
{
    JavaCodeOracle.ffi_default_value(&t)
}

/// The idiomatic Java rendering of a class name.
pub fn class_name(nm: &str, ci: &ComponentInterface) -> (r: String)
    ensures
        r@ == class_name_of(ci, nm@),
{
    JavaCodeOracle.class_name(ci, nm)
}

/// The idiomatic Java rendering of a function name.
pub fn fn_name(nm: &str) -> (r: String)
    ensures
        r@ == escaped(lower_camel_of(nm@)),
{
    JavaCodeOracle.fn_name(nm)
}

/// The idiomatic Java rendering of a variable name.
pub fn var_name(nm: &str) -> (r: String)
    ensures
        r@ == escaped(lower_camel_of(nm@)),
{
    JavaCodeOracle.var_name(nm)
}

/// The idiomatic Java getter name.
pub fn getter_name(nm: &str) -> (r: String)
    ensures
        r@ == "get"@ + upper_camel_of(nm@),
{
    JavaCodeOracle.getter_name(nm)
}

/// The name of an enum variant.
pub fn variant_name(v: &Variant) -> (r: String)
    ensures
        r@ == shouty_snake_of(v.name@),
{
    JavaCodeOracle.enum_variant_name(v.name.as_str())
}

/// The class name of an error variant: upper camel case, `Error` made `Exception`.
pub fn error_variant_name(v: &Variant) -> (r: String)
    ensures
        r@ == error_suffix_converted(upper_camel_of(v.name@)),
{
    let name = upper_camel(v.name.as_str());
    JavaCodeOracle.convert_error_suffix(name.as_str())
}

/// The Java name of a native callback function type.
pub fn ffi_callback_name(nm: &str) -> (r: String)
    ensures
        r@ == ffi_prefixed_name(nm@),
{
    JavaCodeOracle.ffi_callback_name(nm)
}

/// The Java name of a native struct.
pub fn ffi_struct_name(nm: &str) -> (r: String)
    ensures
        r@ == ffi_prefixed_name(nm@),
{
    JavaCodeOracle.ffi_struct_name(nm)
}

/// The interface name and the class name of an object.
pub fn object_names(obj: &Object, ci: &ComponentInterface) -> (r: (String, String))
    ensures
        obj.imp is CallbackTrait ==> r.0@ == class_name_of(ci, obj.name@) && r.1@ == class_name_of(
            ci,
            obj.name@,
        ) + "Impl"@,
        !(obj.imp is CallbackTrait) ==> r.0@ == class_name_of(ci, obj.name@) + "Interface"@ && r.1@
            == class_name_of(ci, obj.name@),
{
    JavaCodeOracle.object_names(ci, obj)
}

/// The lambda that polls an async call's future through `ffi_func`.
pub fn async_poll(ffi_func: &str) -> (r: String)
    ensures
        r@ == "{ future, callback, continuation -> UniffiLib.INSTANCE."@ + ffi_func@
            + "(future, callback, continuation) }"@,
{
    join3(
        "{ future, callback, continuation -> UniffiLib.INSTANCE.",
        ffi_func,
        "(future, callback, continuation) }",
    )
}

/// The call that completes an async call through `ffi_func`; a data class of
/// another crate comes back in that crate's buffer type.
pub open spec fn async_complete_call(
    ffi_func: Seq<char>,
    return_type: Option<Type>,
    ci: &ComponentInterface,
) -> Seq<char> {
    let call = "UniffiLib.INSTANCE."@ + ffi_func + "(future, continuation)"@;
    match return_type {
        Some(Type::External { name, kind: ExternalKind::DataClass, .. }) => call
            + ".let { RustBuffer"@ + class_name_of(ci, name@)
            + ".create(it.capacity.toULong(), it.len.toULong(), it.data) }"@,
        _ => call,
    }
}

/// The lambda that completes an async call.
pub fn async_complete(ffi_func: &str, return_type: Option<&Type>, ci: &ComponentInterface) -> (r:
    String)
    ensures
        r@ == "{ future, continuation -> "@ + async_complete_call(
            ffi_func@,
            match return_type {
                Some(t) => Some(*t),
                None => None,
            },
            ci,
        ) + " }"@,
{
    let call = join3("UniffiLib.INSTANCE.", ffi_func, "(future, continuation)");
    let call = match return_type {
        Some(Type::External { name, kind: ExternalKind::DataClass, .. }) => {
            let suffix = JavaCodeOracle.class_name(ci, name.as_str());
            join3(call.as_str(), ".let { RustBuffer", suffix.as_str()).concat(
                ".create(it.capacity.toULong(), it.len.toULong(), it.data) }",
            )
        },
        _ => call,
    };
    join3("{ future, continuation -> ", call.as_str(), " }")
}

/// The lambda that frees an async call's future through `ffi_func`.
pub fn async_free(ffi_func: &str) -> (r: String)
    ensures
        r@ == "{ future -> UniffiLib.INSTANCE."@ + ffi_func@ + "(future) }"@,
{
    join3("{ future -> UniffiLib.INSTANCE.", ffi_func, "(future) }")
}

/// `s` without the backticks at either end.
pub open spec fn without_backticks(s: Seq<char>) -> Seq<char>
    decreases s.len(),
{
    if s.len() > 0 && s[0] == '`' {
        without_backticks(s.drop_first())
    } else if s.len() > 0 && s.last() == '`' {
        without_backticks(s.drop_last())
    } else {
        s
    }
}

/// Removes the backticks put around names, to show a name to a user.
pub fn unquote(nm: &str) -> (r: String)
    ensures
        r@ == without_backticks(nm@),
{
    let cs = chars_of(nm);
    let mut lo: usize = 0;
    let mut hi: usize = cs.len();
    proof {
        assert(nm@.subrange(0, nm@.len() as int) == nm@);
    }
    while lo < hi && cs[lo] == '`'
        invariant
            cs@ == nm@,
            lo <= hi == cs@.len(),
            without_backticks(nm@) == without_backticks(nm@.subrange(lo as int, hi as int)),
        decreases hi - lo,
    {
        proof {
            assert(nm@.subrange(lo as int, hi as int).drop_first() == nm@.subrange(lo + 1, hi as int));
        }
        lo = lo + 1;
    }
    while hi > lo && cs[hi - 1] == '`'
        invariant
            cs@ == nm@,
            lo <= hi <= cs@.len(),
            lo == hi || cs@[lo as int] != '`',
            without_backticks(nm@) == without_backticks(nm@.subrange(lo as int, hi as int)),
        decreases hi - lo,
    {
        proof {
            assert(nm@.subrange(lo as int, hi as int).drop_last() == nm@.subrange(lo as int, hi - 1));
        }
        hi = hi - 1;
    }
    let mut out = String::new();
    let mut i: usize = lo;
    while i < hi
        invariant
            cs@ == nm@,
            lo <= i <= hi <= cs@.len(),
            out@ == nm@.subrange(lo as int, i as int),
        decreases hi - i,
    {
        push_char(&mut out, cs[i]);
        proof {
            assert(nm@.subrange(lo as int, i + 1) == nm@.subrange(lo as int, i as int).push(cs@[i as int]));
        }
        i = i + 1;
    }
    out
}

/// What `textwrap::indent` makes of a text and a prefix.
pub uninterp spec fn indented(s: Seq<char>, prefix: Seq<char>) -> Seq<char>;

/// What `textwrap::dedent` makes of a text.
pub uninterp spec fn dedented(s: Seq<char>) -> Seq<char>;

/// Relies on `textwrap::indent`, which puts the prefix before each line (its
/// trimmed form before blank lines); the result depends on its arguments alone.
#[verifier::external_body]
fn indent(s: &str, prefix: &str) -> (r: String)
    ensures
        r@ == indented(s@, prefix@),
{
    textwrap::indent(s, prefix)
}

/// Relies on `textwrap::dedent`, which removes the white space that all
/// non-blank lines share at their start; the result depends on the text alone.
#[verifier::external_body]
fn dedent(s: &str) -> (r: String)
    ensures
        r@ == dedented(s@),
{
    textwrap::dedent(s)
}

/// `n` spaces.
pub open spec fn spaces_of(n: nat) -> Seq<char> {
    Seq::new(n, |i: int| ' ')
}

/// A Javadoc comment around lines that already carry their ` * ` prefix.
pub open spec fn comment_block(middle: Seq<char>) -> Seq<char> {
    "/**\n"@ + middle + "\n */"@
}

/// Wraps prefixed lines in a Javadoc comment.
pub fn doc_comment(middle: &str) -> (r: String)
    ensures
        r@ == comment_block(middle@),
{
    join3("/**\n", middle, "\n */")
}

/// A string of `n` spaces.
pub fn spaces(n: usize) -> (r: String)
    ensures
        r@ == spaces_of(n as nat),
{
    let mut out = String::new();
    let mut i: usize = 0;
    while i < n
        invariant
            i <= n,
            out@ == spaces_of(i as nat),
        decreases n - i,
    {
        push_char(&mut out, ' ');
        proof {
            assert(out@ =~= spaces_of((i + 1) as nat));
        }
        i = i + 1;
    }
    out
}

/// The idiomatic Java rendering of a docstring: dedented, each line behind
/// ` * ` inside a Javadoc comment, the whole indented by `spaces` spaces (none
/// when negative).
pub fn docstring(text: &str, spaces_count: &i32) -> (r: String)
    ensures
        r@ == indented(
            comment_block(indented(dedented(text@), " * "@)),
            spaces_of(
                if *spaces_count < 0 {
                    0
                } else {
                    *spaces_count as nat
                },
            ),
        ),
{
    let middle = indent(dedent(text).as_str(), " * ");
    let wrapped = doc_comment(middle.as_str());
    let n: usize = if *spaces_count < 0 {
        0
    } else {
        *spaces_count as usize
    };
    indent(wrapped.as_str(), spaces(n).as_str())
}

} // verus!
