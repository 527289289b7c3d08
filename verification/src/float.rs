//! The float type's methods over the IEEE 754 bit representation that the
//! value model carries: negation (a sign-bit flip) and the NaN and infinity
//! classification predicates, which are pure bit patterns.  Float
//! arithmetic itself has no place in the verified library and lives with
//! the embedder.

use vstd::prelude::*;
use vstd::string::StringExecFns;
use crate::value::Value;
use crate::errors::CrushError;
use crate::registry::{MethodMap, Method};

verus! {

/// The sign bit of an IEEE 754 double.
pub open spec fn f64_sign_mask() -> u64 {
    0x8000_0000_0000_0000
}

/// An IEEE 754 double is NaN when its exponent bits are all ones and its
/// mantissa is non-zero.
pub open spec fn f64_bits_nan(bits: u64) -> bool {
    (bits >> 52) & 0x7FF == 0x7FF && bits & 0xF_FFFF_FFFF_FFFF != 0
}

/// An IEEE 754 double is infinite when its exponent bits are all ones and
/// its mantissa is zero.
pub open spec fn f64_bits_infinite(bits: u64) -> bool {
    (bits >> 52) & 0x7FF == 0x7FF && bits & 0xF_FFFF_FFFF_FFFF == 0
}

/// How float negation resolves: no argument, and the result is the
/// receiver with its sign bit flipped.
pub open spec fn neg_post(this: Value, args: Seq<Value>, r: Result<Value, CrushError>) -> bool {
    if args.len() != 0 {
        r == Err::<Value, CrushError>(CrushError::ArityError)
    } else if !(this is Float) {
        r == Err::<Value, CrushError>(CrushError::ThisError)
    } else {
        r == Ok::<Value, CrushError>(Value::Float(this->Float_0 ^ f64_sign_mask()))
    }
}

/// Negates this float: IEEE 754 negation flips exactly the sign bit.
pub fn neg(this: &Value, args: &Vec<Value>) -> (r: Result<Value, CrushError>)
    ensures
        neg_post(*this, args@, r),
{
    if args.len() != 0 {
        return Err(CrushError::ArityError);
    }
    match this {
        Value::Float(bits) => Ok(Value::Float(*bits ^ 0x8000_0000_0000_0000u64)),
        _ => Err(CrushError::ThisError),
    }
}

pub open spec fn is_nan_post(this: Value, args: Seq<Value>, r: Result<Value, CrushError>) -> bool {
    if args.len() != 0 {
        r == Err::<Value, CrushError>(CrushError::ArityError)
    } else if !(this is Float) {
        r == Err::<Value, CrushError>(CrushError::ThisError)
    } else {
        r == Ok::<Value, CrushError>(Value::Bool(f64_bits_nan(this->Float_0)))
    }
}

/// True when this float is NaN.
pub fn is_nan(this: &Value, args: &Vec<Value>) -> (r: Result<Value, CrushError>)
    ensures
        is_nan_post(*this, args@, r),
{
    if args.len() != 0 {
        return Err(CrushError::ArityError);
    }
    match this {
        Value::Float(bits) => {
            let b = *bits;
            Ok(Value::Bool((b >> 52u64) & 0x7FFu64 == 0x7FFu64 && b & 0xF_FFFF_FFFF_FFFFu64
                != 0u64))
        },
        _ => Err(CrushError::ThisError),
    }
}

pub open spec fn is_infinite_post(
    this: Value,
    args: Seq<Value>,
    r: Result<Value, CrushError>,
) -> bool {
    if args.len() != 0 {
        r == Err::<Value, CrushError>(CrushError::ArityError)
    } else if !(this is Float) {
        r == Err::<Value, CrushError>(CrushError::ThisError)
    } else {
        r == Ok::<Value, CrushError>(Value::Bool(f64_bits_infinite(this->Float_0)))
    }
}

/// True when this float is positive or negative infinity.
pub fn is_infinite(this: &Value, args: &Vec<Value>) -> (r: Result<Value, CrushError>)
    ensures
        is_infinite_post(*this, args@, r),
{
    if args.len() != 0 {
        return Err(CrushError::ArityError);
    }
    match this {
        Value::Float(bits) => {
            let b = *bits;
            Ok(Value::Bool((b >> 52u64) & 0x7FFu64 == 0x7FFu64 && b & 0xF_FFFF_FFFF_FFFFu64
                == 0u64))
        },
        _ => Err(CrushError::ThisError),
    }
}

/// The full path of a method of the float type.
pub fn full(name: &'static str) -> (r: Vec<&'static str>)
    ensures
        r@.len() == 4,
        r@[0]@ == "global"@,
        r@[1]@ == "types"@,
        r@[2]@ == "float"@,
        r@[3]@ == name@,
{
    let mut v: Vec<&'static str> = Vec::new();
    v.push("global");
    v.push("types");
    v.push("float");
    v.push(name);
    v
}

/// The float type's method table, in declaration order.  The arithmetic
/// entries compute on floating point, which the verified library does not
/// hold; the embedder runs them.
pub fn methods() -> (m: MethodMap)
    ensures
        m.entries@.len() == 7,
        m.entries@[0].0@ == "__add__"@ && m.entries@[0].1 == Method::FloatAdd,
        m.entries@[1].0@ == "__sub__"@ && m.entries@[1].1 == Method::FloatSub,
        m.entries@[2].0@ == "__mul__"@ && m.entries@[2].1 == Method::FloatMul,
        m.entries@[3].0@ == "__div__"@ && m.entries@[3].1 == Method::FloatDiv,
        m.entries@[4].0@ == "__neg__"@ && m.entries@[4].1 == Method::FloatNeg,
        m.entries@[5].0@ == "is_finite"@ && m.entries@[5].1 == Method::FloatIsInfinite,
        m.entries@[6].0@ == "is_nan"@ && m.entries@[6].1 == Method::FloatIsNan,
{
    let mut m = MethodMap::new();
    m.declare(String::from_str("__add__"), Method::FloatAdd);
    m.declare(String::from_str("__sub__"), Method::FloatSub);
    m.declare(String::from_str("__mul__"), Method::FloatMul);
    m.declare(String::from_str("__div__"), Method::FloatDiv);
    m.declare(String::from_str("__neg__"), Method::FloatNeg);
    m.declare(String::from_str("is_finite"), Method::FloatIsInfinite);
    m.declare(String::from_str("is_nan"), Method::FloatIsNan);
    m
}

} // verus!
