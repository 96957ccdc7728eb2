//! Java renderings of the native call boundary's types, for JNA.

use vstd::prelude::*;
use vstd::string::StringExecFns;
use crate::error::GenerationError;
use crate::model::FfiType;
use crate::naming::{ffi_prefixed_name, JavaCodeOracle};
use crate::text::join2;

verus! {

/// The Java type of an FFI type that is not a reference. Unsigned widths use
/// the signed type of the same width.
pub open spec fn base_label(t: FfiType) -> Seq<char> {
    match t {
        FfiType::Int8 | FfiType::UInt8 => "Byte"@,
        FfiType::Int16 | FfiType::UInt16 => "Short"@,
        FfiType::Int32 | FfiType::UInt32 => "Integer"@,
        FfiType::Int64 | FfiType::UInt64 | FfiType::Handle => "Long"@,
        FfiType::Float32 => "Float"@,
        FfiType::Float64 => "Double"@,
        FfiType::RustArcPtr(_) | FfiType::VoidPointer => "Pointer"@,
        FfiType::RustBuffer(suffix) => "RustBuffer"@ + match suffix {
            Some(s) => s@,
            None => Seq::empty(),
        },
        FfiType::RustCallStatus => "UniffiRustCallStatus.ByValue"@,
        FfiType::ForeignBytes => "ForeignBytes.ByValue"@,
        FfiType::Callback(name) => ffi_prefixed_name(name@),
        FfiType::Struct(name) => ffi_prefixed_name(name@),
        FfiType::Reference(_) => Seq::empty(),
    }
}

pub open spec fn is_numeric(t: FfiType) -> bool {
    t is Int8 || t is UInt8 || t is Int16 || t is UInt16 || t is Int32 || t is UInt32 || t is Int64
        || t is UInt64 || t is Float32 || t is Float64
}

/// The Java type of a pointer to an FFI value, for the kinds that have one.
pub open spec fn by_reference_spec(t: FfiType) -> Result<Seq<char>, GenerationError> {
    if is_numeric(t) {
        Ok(base_label(t) + "ByReference"@)
    } else if t is RustArcPtr {
        Ok("PointerByReference"@)
    } else if t is RustBuffer || t is Struct {
        Ok(base_label(t))
    } else {
        Err(GenerationError::UnsupportedFfiRepresentation)
    }
}

/// The Java type of an FFI type.
pub open spec fn label_spec(t: FfiType) -> Result<Seq<char>, GenerationError> {
    match t {
        FfiType::Reference(inner) => by_reference_spec(*inner),
        _ => Ok(base_label(t)),
    }
}

/// The Java type of an FFI value passed by value.
pub open spec fn by_value_spec(t: FfiType) -> Result<Seq<char>, GenerationError> {
    match t {
        FfiType::RustBuffer(_) => Ok(base_label(t) + ".ByValue"@),
        FfiType::Struct(name) => Ok(ffi_prefixed_name(name@) + ".UniffiByValue"@),
        _ => label_spec(t),
    }
}

/// The Java type of an FFI value held in a native struct field.
pub open spec fn struct_field_spec(t: FfiType) -> Result<Seq<char>, GenerationError> {
    match t {
        FfiType::Callback(name) => Ok(ffi_prefixed_name(name@)),
        _ => by_value_spec(t),
    }
}

/// The zero value of an FFI type, for the kinds that have one.
pub open spec fn default_value_spec(t: FfiType) -> Result<Seq<char>, GenerationError> {
    match t {
        FfiType::UInt8 | FfiType::Int8 => Ok("(byte)0"@),
        FfiType::UInt16 | FfiType::Int16 => Ok("(short)0"@),
        FfiType::UInt32 | FfiType::Int32 => Ok("0"@),
        FfiType::UInt64 | FfiType::Int64 => Ok("0L"@),
        FfiType::Float32 => Ok("0.0f"@),
        FfiType::Float64 => Ok("0.0"@),
        FfiType::RustArcPtr(_) => Ok("Pointer.NULL"@),
        FfiType::RustBuffer(_) => Ok("new RustBuffer.ByValue()"@),
        FfiType::Callback(_) => Ok("null"@),
        FfiType::RustCallStatus => Ok("new UniffiRustCallStatus.ByValue()"@),
        _ => Err(GenerationError::UnsupportedFfiRepresentation),
    }
}

pub open spec fn matches_spec(r: Result<String, GenerationError>, s: Result<Seq<char>, GenerationError>) -> bool {
    match r {
        Ok(v) => s == Ok::<Seq<char>, GenerationError>(v@),
        Err(e) => s == Err::<Seq<char>, GenerationError>(e),
    }
}

impl JavaCodeOracle {
    fn ffi_base_label(&self, t: &FfiType) -> (r: String)
        requires
            !(*t is Reference),
        ensures
            r@ == base_label(*t),
    {
        match t {
            FfiType::Int8 | FfiType::UInt8 => String::from_str("Byte"),
            FfiType::Int16 | FfiType::UInt16 => String::from_str("Short"),
            FfiType::Int32 | FfiType::UInt32 => String::from_str("Integer"),
            FfiType::Int64 | FfiType::UInt64 | FfiType::Handle => String::from_str("Long"),
            FfiType::Float32 => String::from_str("Float"),
            FfiType::Float64 => String::from_str("Double"),
            FfiType::RustArcPtr(_) | FfiType::VoidPointer => String::from_str("Pointer"),
            FfiType::RustBuffer(suffix) => match suffix {
                Some(s) => join2("RustBuffer", s.as_str()),
                None => String::from_str("RustBuffer"),
            },
            FfiType::RustCallStatus => String::from_str("UniffiRustCallStatus.ByValue"),
            FfiType::ForeignBytes => String::from_str("ForeignBytes.ByValue"),
            FfiType::Callback(name) => self.ffi_callback_name(name.as_str()),
            FfiType::Struct(name) => self.ffi_struct_name(name.as_str()),
            FfiType::Reference(_) => String::new(),
        }
    }

    /// The Java type of a pointer to an FFI value; fails for the kinds that
    /// cannot be referenced.
    pub fn ffi_type_label_by_reference(&self, t: &FfiType) -> (r: Result<String, GenerationError>)
        ensures
            matches_spec(r, by_reference_spec(*t)),
    {
        match t {
            FfiType::Int8 | FfiType::UInt8 | FfiType::Int16 | FfiType::UInt16 | FfiType::Int32
            | FfiType::UInt32 | FfiType::Int64 | FfiType::UInt64 | FfiType::Float32
            | FfiType::Float64 => Ok(self.ffi_base_label(t).concat("ByReference")),
            FfiType::RustArcPtr(_) => Ok(String::from_str("PointerByReference")),
            FfiType::RustBuffer(_) | FfiType::Struct(_) => Ok(self.ffi_base_label(t)),
            _ => Err(GenerationError::UnsupportedFfiRepresentation),
        }
    }

    /// The Java type of an FFI type.
    pub fn ffi_type_label(&self, t: &FfiType) -> (r: Result<String, GenerationError>)
        ensures
            matches_spec(r, label_spec(*t)),
    {
        match t {
            FfiType::Reference(inner) => self.ffi_type_label_by_reference(&**inner),
            _ => Ok(self.ffi_base_label(t)),
        }
    }

    /// The Java type of an FFI value passed by value.
    pub fn ffi_type_label_by_value(&self, t: &FfiType) -> (r: Result<String, GenerationError>)
        ensures
            matches_spec(r, by_value_spec(*t)),
    {
        match t {
            FfiType::RustBuffer(_) => Ok(self.ffi_base_label(t).concat(".ByValue")),
            FfiType::Struct(name) => Ok(
                self.ffi_struct_name(name.as_str()).concat(".UniffiByValue"),
            ),
            _ => self.ffi_type_label(t),
        }
    }

    /// The Java type of an FFI value inside a native struct. Callbacks are
    /// nullable function pointers there, so that every field has a default.
    pub fn ffi_type_label_for_ffi_struct(&self, t: &FfiType) -> (r: Result<String, GenerationError>)
        ensures
            matches_spec(r, struct_field_spec(*t)),
    {
        match t {
            FfiType::Callback(name) => Ok(self.ffi_callback_name(name.as_str())),
            _ => self.ffi_type_label_by_value(t),
        }
    }

    /// The value that fills an FFI slot by default: on the error path of a
    /// call and in native structs.
    pub fn ffi_default_value(&self, t: &FfiType) -> (r: Result<String, GenerationError>)
        ensures
            matches_spec(r, default_value_spec(*t)),
    {
        match t {
            FfiType::UInt8 | FfiType::Int8 => Ok(String::from_str("(byte)0")),
            FfiType::UInt16 | FfiType::Int16 => Ok(String::from_str("(short)0")),
            FfiType::UInt32 | FfiType::Int32 => Ok(String::from_str("0")),
            FfiType::UInt64 | FfiType::Int64 => Ok(String::from_str("0L")),
            FfiType::Float32 => Ok(String::from_str("0.0f")),
            FfiType::Float64 => Ok(String::from_str("0.0")),
            FfiType::RustArcPtr(_) => Ok(String::from_str("Pointer.NULL")),
            FfiType::RustBuffer(_) => Ok(String::from_str("new RustBuffer.ByValue()")),
            FfiType::Callback(_) => Ok(String::from_str("null")),
            FfiType::RustCallStatus => Ok(String::from_str("new UniffiRustCallStatus.ByValue()")),
            _ => Err(GenerationError::UnsupportedFfiRepresentation),
        }
    }
}

} // verus!
