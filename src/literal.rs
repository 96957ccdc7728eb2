//! Java renderings of numbers and of the literals of primitive types.

use vstd::prelude::*;
use vstd::string::StringExecFns;
use vstd::string::StrSliceExecFns;
use crate::error::GenerationError;
use crate::model::{Literal, Radix, Type};
use crate::text::{join2, join3, push_char};

verus! {

/// The character of digit `d` in base 16 (and below).
pub open spec fn digit_char(d: nat) -> char {
    "0123456789abcdef"@[d as int]
}

/// The decimal digits of `n`, without leading zeros.
pub open spec fn dec_digits(n: nat) -> Seq<char>
    decreases n,
{
    if n < 10 {
        seq![digit_char(n)]
    } else {
        dec_digits(n / 10).push(digit_char(n % 10))
    }
}

/// The lowercase hexadecimal digits of `n`, without leading zeros.
pub open spec fn hex_digits(n: nat) -> Seq<char>
    decreases n,
{
    if n < 16 {
        seq![digit_char(n)]
    } else {
        hex_digits(n / 16).push(digit_char(n % 16))
    }
}

/// A signed integer in decimal, with a leading `-` when negative.
pub open spec fn signed_decimal(i: int) -> Seq<char> {
    if i < 0 {
        "-"@ + dec_digits((-i) as nat)
    } else {
        dec_digits(i as nat)
    }
}

/// The 64-bit two's complement bits of `i`, as a natural number.
pub open spec fn bits64(i: int) -> nat {
    if i < 0 {
        (i + 0x1_0000_0000_0000_0000) as nat
    } else {
        i as nat
    }
}

/// How the digits of an integer literal are written for its radix. Octal
/// literals are written in hexadecimal, which Java reads without ambiguity.
pub open spec fn integer_text(i: int, radix: Radix) -> Seq<char> {
    match radix {
        Radix::Decimal => signed_decimal(i),
        _ => "0x"@ + hex_digits(bits64(i)),
    }
}

/// A number written for a Java type: the digits, with what the type needs
/// around them. An optional type is looked through once.
pub open spec fn typed_number_spec(t: Type, num: Seq<char>) -> Result<Seq<char>, GenerationError> {
    let u = match t {
        Type::Optional { inner_type } => *inner_type,
        _ => t,
    };
    match u {
        Type::Int8 | Type::Int16 | Type::Int32 | Type::Float64 => Ok(num),
        Type::Int64 => Ok(num + "L"@),
        Type::UInt8 | Type::UInt16 | Type::UInt32 => Ok("Integer.parseUnsignedInt("@ + num + ")"@),
        Type::UInt64 => Ok("Long.parseUnsignedLong("@ + num + ")"@),
        Type::Float32 => Ok(num + "f"@),
        _ => Err(GenerationError::LiteralTypeMismatch),
    }
}

/// The rendering of a literal of a primitive type.
pub open spec fn primitive_literal_spec(lit: Literal) -> Result<Seq<char>, GenerationError> {
    match lit {
        Literal::Boolean(b) => Ok(
            if b {
                "true"@
            } else {
                "false"@
            },
        ),
        Literal::String(s) => Ok("\""@ + s@ + "\""@),
        Literal::Int(i, radix, t) => typed_number_spec(t, integer_text(i as int, radix)),
        Literal::UInt(u, radix, t) => typed_number_spec(t, integer_text(u as int, radix)),
        Literal::Float(s, t) => typed_number_spec(t, s@),
        _ => Err(GenerationError::LiteralTypeMismatch),
    }
}

fn digit(d: u64) -> (c: char)
    requires
        d < 16,
    ensures
        c == digit_char(d as nat),
{
    proof {
        reveal_strlit("0123456789abcdef");
    }
    "0123456789abcdef".get_char(d as usize)
}

/// Appends the decimal digits of `n`.
pub fn push_decimal(out: &mut String, n: u64)
    ensures
        final(out)@ == old(out)@ + dec_digits(n as nat),
    decreases n,
{
    proof {
        reveal_strlit("0123456789abcdef");
    }
    if n >= 10 {
        push_decimal(out, n / 10);
    }
    let c = digit(n % 10);
    push_char(out, c);
}

/// Appends the hexadecimal digits of `n`.
pub fn push_hex(out: &mut String, n: u64)
    ensures
        final(out)@ == old(out)@ + hex_digits(n as nat),
    decreases n,
{
    proof {
        reveal_strlit("0123456789abcdef");
    }
    if n >= 16 {
        push_hex(out, n / 16);
    }
    let c = digit(n % 16);
    push_char(out, c);
}

/// The digits of a signed integer literal in the form its radix asks for.
pub fn signed_integer_text(i: i64, radix: Radix) -> (r: String)
    ensures
        r@ == integer_text(i as int, radix),
{
    let mut out = String::new();
    match radix {
        Radix::Decimal => {
            if i < 0 {
                out.append("-");
                let magnitude: u64 = ((-(i + 1)) as u64) + 1;
                push_decimal(&mut out, magnitude);
            } else {
                push_decimal(&mut out, i as u64);
            }
        },
        _ => {
            out.append("0x");
            let bits: u64 = if i < 0 {
                u64::MAX - ((-(i + 1)) as u64)
            } else {
                i as u64
            };
            push_hex(&mut out, bits);
        },
    }
    out
}

/// The digits of an unsigned integer literal in the form its radix asks for.
pub fn unsigned_integer_text(u: u64, radix: Radix) -> (r: String)
    ensures
        r@ == integer_text(u as int, radix),
{
    let mut out = String::new();
    match radix {
        Radix::Decimal => {
            push_decimal(&mut out, u);
        },
        _ => {
            out.append("0x");
            push_hex(&mut out, u);
        },
    }
    out
}

/// Writes `num` as a number of type `t`; fails for a type that is not numeric.
pub fn typed_number(t: &Type, num: &str) -> (r: Result<String, GenerationError>)
    ensures
        r matches Ok(s) ==> typed_number_spec(*t, num@) == Ok::<Seq<char>, GenerationError>(s@),
        r matches Err(e) ==> typed_number_spec(*t, num@) == Err::<Seq<char>, GenerationError>(e),
{
    let u = match t {
        Type::Optional { inner_type } => &**inner_type,
        _ => t,
    };
    match u {
        Type::Int8 | Type::Int16 | Type::Int32 | Type::Float64 => Ok(String::from_str(num)),
        Type::Int64 => Ok(join2(num, "L")),
        Type::UInt8 | Type::UInt16 | Type::UInt32 => Ok(join3("Integer.parseUnsignedInt(", num, ")")),
        Type::UInt64 => Ok(join3("Long.parseUnsignedLong(", num, ")")),
        Type::Float32 => Ok(join2(num, "f")),
        _ => Err(GenerationError::LiteralTypeMismatch),
    }
}

/// Renders a literal of a primitive type.
pub fn render_primitive_literal(lit: &Literal) -> (r: Result<String, GenerationError>)
    ensures
        r matches Ok(s) ==> primitive_literal_spec(*lit) == Ok::<Seq<char>, GenerationError>(s@),
        r matches Err(e) ==> primitive_literal_spec(*lit) == Err::<Seq<char>, GenerationError>(e),
{
    match lit {
        Literal::Boolean(b) => {
            if *b {
                Ok(String::from_str("true"))
            } else {
                Ok(String::from_str("false"))
            }
        },
        Literal::String(s) => Ok(join3("\"", s.as_str(), "\"")),
        Literal::Int(i, radix, t) => {
            let digits = signed_integer_text(*i, *radix);
            typed_number(t, digits.as_str())
        },
        Literal::UInt(u, radix, t) => {
            let digits = unsigned_integer_text(*u, *radix);
            typed_number(t, digits.as_str())
        },
        Literal::Float(s, t) => typed_number(t, s.as_str()),
        _ => Err(GenerationError::LiteralTypeMismatch),
    }
}

/// An integer literal renders differently for a 64-bit signed type and for
/// its unsigned counterpart: the signed form ends in `L`, the unsigned one is
/// parsed as unsigned.
pub proof fn lemma_signedness_distinguished(v: i64, u: u64, radix: Radix)
    ensures
        primitive_literal_spec(Literal::Int(v, radix, Type::Int64)) == Ok::<
            Seq<char>,
            GenerationError,
        >(integer_text(v as int, radix) + "L"@),
        primitive_literal_spec(Literal::Int(v, radix, Type::UInt64)) == Ok::<
            Seq<char>,
            GenerationError,
        >("Long.parseUnsignedLong("@ + integer_text(v as int, radix) + ")"@),
        integer_text(v as int, radix) + "L"@ != "Long.parseUnsignedLong("@ + integer_text(
            v as int,
            radix,
        ) + ")"@,
        primitive_literal_spec(Literal::UInt(u, radix, Type::Int64)) == Ok::<
            Seq<char>,
            GenerationError,
        >(integer_text(u as int, radix) + "L"@),
        primitive_literal_spec(Literal::UInt(u, radix, Type::UInt64)) == Ok::<
            Seq<char>,
            GenerationError,
        >("Long.parseUnsignedLong("@ + integer_text(u as int, radix) + ")"@),
        integer_text(u as int, radix) + "L"@ != "Long.parseUnsignedLong("@ + integer_text(
            u as int,
            radix,
        ) + ")"@,
{
    reveal_strlit("L");
    reveal_strlit(")");
    let a = integer_text(v as int, radix) + "L"@;
    let b = "Long.parseUnsignedLong("@ + integer_text(v as int, radix) + ")"@;
    assert(a.last() == 'L');
    assert(b.last() == ')');
    let c = integer_text(u as int, radix) + "L"@;
    let d = "Long.parseUnsignedLong("@ + integer_text(u as int, radix) + ")"@;
    assert(c.last() == 'L');
    assert(d.last() == ')');
}

} // verus!
