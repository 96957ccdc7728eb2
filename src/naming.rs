//! Idiomatic Java names for interface identifiers.

use heck::{ToLowerCamelCase, ToShoutySnakeCase, ToUpperCamelCase};
use vstd::prelude::*;
use vstd::string::StringExecFns;
use vstd::string::StrSliceExecFns;
use crate::model::{ComponentInterface, Object};
use crate::text::{join2, str_eq};

verus! {

/// What heck's upper camel case conversion makes of a string.
pub uninterp spec fn upper_camel_of(s: Seq<char>) -> Seq<char>;

/// What heck's lower camel case conversion makes of a string.
pub uninterp spec fn lower_camel_of(s: Seq<char>) -> Seq<char>;

/// What heck's shouty snake case conversion makes of a string.
pub uninterp spec fn shouty_snake_of(s: Seq<char>) -> Seq<char>;

/// Relies on heck's `ToUpperCamelCase::to_upper_camel_case`, whose result
/// depends on the characters of its input alone.
#[verifier::external_body]
pub(crate) fn upper_camel(s: &str) -> (r: String)
    ensures
        r@ == upper_camel_of(s@),
{
    s.to_upper_camel_case()
}

/// Relies on heck's `ToLowerCamelCase::to_lower_camel_case`, whose result
/// depends on the characters of its input alone.
#[verifier::external_body]
fn lower_camel(s: &str) -> (r: String)
    ensures
        r@ == lower_camel_of(s@),
{
    s.to_lower_camel_case()
}

/// Relies on heck's `ToShoutySnakeCase::to_shouty_snake_case`, whose result
/// depends on the characters of its input alone.
#[verifier::external_body]
fn shouty_snake(s: &str) -> (r: String)
    ensures
        r@ == shouty_snake_of(s@),
{
    s.to_shouty_snake_case()
}

pub open spec fn ends_with(s: Seq<char>, suffix: Seq<char>) -> bool {
    suffix.len() <= s.len() && s.subrange(s.len() - suffix.len(), s.len() as int) == suffix
}

/// A trailing `Error` becomes `Exception`; any other name is kept.
pub open spec fn error_suffix_converted(nm: Seq<char>) -> Seq<char> {
    if ends_with(nm, "Error"@) {
        nm.subrange(0, nm.len() - "Error"@.len()) + "Exception"@
    } else {
        nm
    }
}

/// The Java class name of a type: upper camel case, with the error suffix
/// rewritten for the types that are thrown.
pub open spec fn class_name_of(ci: &ComponentInterface, nm: Seq<char>) -> Seq<char> {
    if ci.is_error_name(nm) {
        error_suffix_converted(upper_camel_of(nm))
    } else {
        upper_camel_of(nm)
    }
}

/// The name that native callback and struct declarations get.
pub open spec fn ffi_prefixed_name(nm: Seq<char>) -> Seq<char> {
    "Uniffi"@ + upper_camel_of(nm)
}

/// A Java keyword or literal, which cannot name a method or variable.
pub open spec fn java_reserved(s: Seq<char>) -> bool {
    s == "abstract"@
        || s == "assert"@
        || s == "boolean"@
        || s == "break"@
        || s == "byte"@
        || s == "case"@
        || s == "catch"@
        || s == "char"@
        || s == "class"@
        || s == "const"@
        || s == "continue"@
        || s == "default"@
        || s == "do"@
        || s == "double"@
        || s == "else"@
        || s == "enum"@
        || s == "extends"@
        || s == "final"@
        || s == "finally"@
        || s == "float"@
        || s == "for"@
        || s == "goto"@
        || s == "if"@
        || s == "implements"@
        || s == "import"@
        || s == "instanceof"@
        || s == "int"@
        || s == "interface"@
        || s == "long"@
        || s == "native"@
        || s == "new"@
        || s == "package"@
        || s == "private"@
        || s == "protected"@
        || s == "public"@
        || s == "return"@
        || s == "short"@
        || s == "static"@
        || s == "strictfp"@
        || s == "super"@
        || s == "switch"@
        || s == "synchronized"@
        || s == "this"@
        || s == "throw"@
        || s == "throws"@
        || s == "transient"@
        || s == "try"@
        || s == "void"@
        || s == "volatile"@
        || s == "while"@
        || s == "true"@
        || s == "false"@
        || s == "null"@
        || s == "_"@
}

/// A name made usable as a Java identifier: a reserved word gets a trailing
/// underscore, any other name is kept.
pub open spec fn escaped(s: Seq<char>) -> Seq<char> {
    if java_reserved(s) {
        s + "_"@
    } else {
        s
    }
}

/// Whether `s` is a Java keyword or literal.
pub fn is_java_reserved(s: &str) -> (r: bool)
    ensures
        r == java_reserved(s@),
{
    str_eq(s, "abstract")
        || str_eq(s, "assert")
        || str_eq(s, "boolean")
        || str_eq(s, "break")
        || str_eq(s, "byte")
        || str_eq(s, "case")
        || str_eq(s, "catch")
        || str_eq(s, "char")
        || str_eq(s, "class")
        || str_eq(s, "const")
        || str_eq(s, "continue")
        || str_eq(s, "default")
        || str_eq(s, "do")
        || str_eq(s, "double")
        || str_eq(s, "else")
        || str_eq(s, "enum")
        || str_eq(s, "extends")
        || str_eq(s, "final")
        || str_eq(s, "finally")
        || str_eq(s, "float")
        || str_eq(s, "for")
        || str_eq(s, "goto")
        || str_eq(s, "if")
        || str_eq(s, "implements")
        || str_eq(s, "import")
        || str_eq(s, "instanceof")
        || str_eq(s, "int")
        || str_eq(s, "interface")
        || str_eq(s, "long")
        || str_eq(s, "native")
        || str_eq(s, "new")
        || str_eq(s, "package")
        || str_eq(s, "private")
        || str_eq(s, "protected")
        || str_eq(s, "public")
        || str_eq(s, "return")
        || str_eq(s, "short")
        || str_eq(s, "static")
        || str_eq(s, "strictfp")
        || str_eq(s, "super")
        || str_eq(s, "switch")
        || str_eq(s, "synchronized")
        || str_eq(s, "this")
        || str_eq(s, "throw")
        || str_eq(s, "throws")
        || str_eq(s, "transient")
        || str_eq(s, "try")
        || str_eq(s, "void")
        || str_eq(s, "volatile")
        || str_eq(s, "while")
        || str_eq(s, "true")
        || str_eq(s, "false")
        || str_eq(s, "null")
        || str_eq(s, "_")
}

/// Escapes a Java reserved word with a trailing underscore.
pub fn escape_reserved(s: &str) -> (r: String)
    ensures
        r@ == escaped(s@),
{
    if is_java_reserved(s) {
        join2(s, "_")
    } else {
        String::from_str(s)
    }
}

/// An escaped name is never a reserved word: no reserved word longer than one
/// character ends in an underscore.
pub proof fn lemma_escaped_not_reserved(s: Seq<char>)
    ensures
        !java_reserved(escaped(s)),
{
    reveal_strlit("abstract");
    reveal_strlit("assert");
    reveal_strlit("boolean");
    reveal_strlit("break");
    reveal_strlit("byte");
    reveal_strlit("case");
    reveal_strlit("catch");
    reveal_strlit("char");
    reveal_strlit("class");
    reveal_strlit("const");
    reveal_strlit("continue");
    reveal_strlit("default");
    reveal_strlit("do");
    reveal_strlit("double");
    reveal_strlit("else");
    reveal_strlit("enum");
    reveal_strlit("extends");
    reveal_strlit("final");
    reveal_strlit("finally");
    reveal_strlit("float");
    reveal_strlit("for");
    reveal_strlit("goto");
    reveal_strlit("if");
    reveal_strlit("implements");
    reveal_strlit("import");
    reveal_strlit("instanceof");
    reveal_strlit("int");
    reveal_strlit("interface");
    reveal_strlit("long");
    reveal_strlit("native");
    reveal_strlit("new");
    reveal_strlit("package");
    reveal_strlit("private");
    reveal_strlit("protected");
    reveal_strlit("public");
    reveal_strlit("return");
    reveal_strlit("short");
    reveal_strlit("static");
    reveal_strlit("strictfp");
    reveal_strlit("super");
    reveal_strlit("switch");
    reveal_strlit("synchronized");
    reveal_strlit("this");
    reveal_strlit("throw");
    reveal_strlit("throws");
    reveal_strlit("transient");
    reveal_strlit("try");
    reveal_strlit("void");
    reveal_strlit("volatile");
    reveal_strlit("while");
    reveal_strlit("true");
    reveal_strlit("false");
    reveal_strlit("null");
    reveal_strlit("_");
    if java_reserved(s) {
        let e = s + "_"@;
        assert(s.len() >= 1);
        assert(e.len() >= 2);
        assert(e.last() == '_');
    }
}

/// Turns interface identifiers into Java names.
#[derive(Clone, Copy)]
pub struct JavaCodeOracle;

impl JavaCodeOracle {
    /// The idiomatic Java rendering of a class name (for enums, records, errors, etc).
    pub fn class_name(&self, ci: &ComponentInterface, nm: &str) -> (r: String)
        ensures
            r@ == class_name_of(ci, nm@),
    {
        let name = upper_camel(nm);
        if ci.is_name_used_as_error(nm) {
            self.convert_error_suffix(name.as_str())
        } else {
            name
        }
    }

    /// Rewrites a trailing `Error` to `Exception`.
    pub fn convert_error_suffix(&self, nm: &str) -> (r: String)
        ensures
            r@ == error_suffix_converted(nm@),
    {
        proof {
            reveal_strlit("Error");
        }
        let n = nm.unicode_len();
        if n >= 5 && str_eq(nm.substring_char(n - 5, n), "Error") {
            join2(nm.substring_char(0, n - 5), "Exception")
        } else {
            String::from_str(nm)
        }
    }

    /// The idiomatic Java rendering of a function name; a reserved word gets
    /// a trailing underscore.
    pub fn fn_name(&self, nm: &str) -> (r: String)
        ensures
            r@ == escaped(lower_camel_of(nm@)),
    {
        let camel = lower_camel(nm);
        escape_reserved(camel.as_str())
    }

    /// The idiomatic Java rendering of a variable name; a reserved word gets
    /// a trailing underscore.
    pub fn var_name(&self, nm: &str) -> (r: String)
        ensures
            r@ == escaped(lower_camel_of(nm@)),
    {
        let camel = lower_camel(nm);
        escape_reserved(camel.as_str())
    }

    /// The idiomatic getter name for a variable.
    pub fn getter_name(&self, nm: &str) -> (r: String)
        ensures
            r@ == "get"@ + upper_camel_of(nm@),
    {
        let camel = upper_camel(nm);
        join2("get", camel.as_str())
    }

    /// The idiomatic Java rendering of an enum variant.
    pub fn enum_variant_name(&self, nm: &str) -> (r: String)
        ensures
            r@ == shouty_snake_of(nm@),
    {
        shouty_snake(nm)
    }

    /// The Java name of a native callback function type.
    pub fn ffi_callback_name(&self, nm: &str) -> (r: String)
        ensures
            r@ == ffi_prefixed_name(nm@),
    {
        let camel = upper_camel(nm);
        join2("Uniffi", camel.as_str())
    }

    /// The Java name of a native struct.
    pub fn ffi_struct_name(&self, nm: &str) -> (r: String)
        ensures
            r@ == ffi_prefixed_name(nm@),
    {
        let camel = upper_camel(nm);
        join2("Uniffi", camel.as_str())
    }

    /// The interface name and the class name of an object.
    ///
    /// An object that foreign code may implement is named by its interface, and
    /// its class takes an `Impl` suffix; otherwise the class keeps the name and
    /// the interface takes an `Interface` suffix.
    pub fn object_names(&self, ci: &ComponentInterface, obj: &Object) -> (r: (String, String))
        ensures
            obj.imp is CallbackTrait ==> r.0@ == class_name_of(ci, obj.name@) && r.1@
                == class_name_of(ci, obj.name@) + "Impl"@,
            !(obj.imp is CallbackTrait) ==> r.0@ == class_name_of(ci, obj.name@) + "Interface"@
                && r.1@ == class_name_of(ci, obj.name@),
    {
        let class_name = self.class_name(ci, obj.name.as_str());
        if obj.has_callback_interface() {
            let impl_name = join2(class_name.as_str(), "Impl");
            (class_name, impl_name)
        } else {
            (join2(class_name.as_str(), "Interface"), class_name)
        }
    }
}

/// A thrown type whose name ends in `Error` gets that suffix replaced by
/// `Exception`; a name without the suffix is left as it is.
pub proof fn lemma_error_class_name(ci: &ComponentInterface, nm: Seq<char>, s: Seq<char>)
    ensures
        ci.is_error_name(nm) && ends_with(upper_camel_of(nm), "Error"@) ==> class_name_of(ci, nm)
            == upper_camel_of(nm).subrange(0, upper_camel_of(nm).len() - 5) + "Exception"@,
        !ends_with(upper_camel_of(nm), "Error"@) ==> class_name_of(ci, nm) == upper_camel_of(nm),
        !ends_with(s, "Error"@) ==> error_suffix_converted(s) == s,
        ends_with(s, "Error"@) ==> ends_with(error_suffix_converted(s), "Exception"@),
{
    reveal_strlit("Error");
    reveal_strlit("Exception");
    if ends_with(s, "Error"@) {
        let r = error_suffix_converted(s);
        let p = s.subrange(0, s.len() - 5);
        assert(r.subrange(r.len() - 9, r.len() as int) =~= "Exception"@);
    }
}

} // verus!
