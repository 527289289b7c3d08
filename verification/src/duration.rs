//! The duration type's operator table and operations: addition with a
//! duration or a timestamp, subtraction, integer-scaled multiplication and
//! division, negation, and construction from calendar units.

use vstd::prelude::*;
use vstd::string::StringExecFns;
use crate::value::{Value, ValueType, Duration};
use crate::errors::CrushError;
use crate::binary_op::{Arm, OpKind, dispatch, dispatch_req, dispatch_post};
use crate::registry::{MethodMap, Method};

verus! {

pub open spec fn spec_add_arms() -> Seq<Arm> {
    seq![
        Arm { input: ValueType::Duration, output: ValueType::Duration, op: OpKind::DurPlusDur },
        Arm { input: ValueType::Time, output: ValueType::Time, op: OpKind::TimePlusDur },
    ]
}

pub open spec fn spec_sub_arms() -> Seq<Arm> {
    seq![Arm { input: ValueType::Duration, output: ValueType::Duration, op: OpKind::DurMinusDur }]
}

pub open spec fn spec_mul_arms() -> Seq<Arm> {
    seq![Arm { input: ValueType::Integer, output: ValueType::Duration, op: OpKind::DurTimesInt }]
}

pub open spec fn spec_div_arms() -> Seq<Arm> {
    seq![Arm { input: ValueType::Integer, output: ValueType::Duration, op: OpKind::DurDivInt }]
}

fn add_arms() -> (r: Vec<Arm>)
    ensures
        r@ == spec_add_arms(),
{
    let mut v: Vec<Arm> = Vec::new();
    v.push(Arm { input: ValueType::Duration, output: ValueType::Duration, op: OpKind::DurPlusDur });
    v.push(Arm { input: ValueType::Time, output: ValueType::Time, op: OpKind::TimePlusDur });
    proof {
        assert(v@ =~= spec_add_arms());
    }
    v
}

fn sub_arms() -> (r: Vec<Arm>)
    ensures
        r@ == spec_sub_arms(),
{
    let mut v: Vec<Arm> = Vec::new();
    v.push(
        Arm { input: ValueType::Duration, output: ValueType::Duration, op: OpKind::DurMinusDur },
    );
    proof {
        assert(v@ =~= spec_sub_arms());
    }
    v
}

fn mul_arms() -> (r: Vec<Arm>)
    ensures
        r@ == spec_mul_arms(),
{
    let mut v: Vec<Arm> = Vec::new();
    v.push(Arm { input: ValueType::Integer, output: ValueType::Duration, op: OpKind::DurTimesInt });
    proof {
        assert(v@ =~= spec_mul_arms());
    }
    v
}

fn div_arms() -> (r: Vec<Arm>)
    ensures
        r@ == spec_div_arms(),
{
    let mut v: Vec<Arm> = Vec::new();
    v.push(Arm { input: ValueType::Integer, output: ValueType::Duration, op: OpKind::DurDivInt });
    proof {
        assert(v@ =~= spec_div_arms());
    }
    v
}

/// Duration + (duration | timestamp): another duration gives their sum; a
/// timestamp gives the timestamp shifted by this duration.
pub fn add(this: &Value, args: &Vec<Value>) -> (r: Result<Value, CrushError>)
    requires
        dispatch_req(spec_add_arms(), ValueType::Duration, *this, args@),
    ensures
        dispatch_post(spec_add_arms(), ValueType::Duration, *this, args@, r),
{
    let arms = add_arms();
    dispatch(&arms, ValueType::Duration, this, args)
}

/// Duration - duration.
pub fn sub(this: &Value, args: &Vec<Value>) -> (r: Result<Value, CrushError>)
    requires
        dispatch_req(spec_sub_arms(), ValueType::Duration, *this, args@),
    ensures
        dispatch_post(spec_sub_arms(), ValueType::Duration, *this, args@, r),
{
    let arms = sub_arms();
    dispatch(&arms, ValueType::Duration, this, args)
}

/// Duration * integer factor, the factor coerced to 32-bit signed.
pub fn mul(this: &Value, args: &Vec<Value>) -> (r: Result<Value, CrushError>)
    requires
        dispatch_req(spec_mul_arms(), ValueType::Duration, *this, args@),
    ensures
        dispatch_post(spec_mul_arms(), ValueType::Duration, *this, args@, r),
{
    let arms = mul_arms();
    dispatch(&arms, ValueType::Duration, this, args)
}

/// Duration / integer divisor, the divisor coerced to 32-bit signed.
pub fn div(this: &Value, args: &Vec<Value>) -> (r: Result<Value, CrushError>)
    requires
        dispatch_req(spec_div_arms(), ValueType::Duration, *this, args@),
    ensures
        dispatch_post(spec_div_arms(), ValueType::Duration, *this, args@, r),
{
    let arms = div_arms();
    dispatch(&arms, ValueType::Duration, this, args)
}

/// How negation resolves: it takes no argument and negates the receiver.
pub open spec fn neg_post(this: Value, args: Seq<Value>, r: Result<Value, CrushError>) -> bool {
    if args.len() != 0 {
        r == Err::<Value, CrushError>(CrushError::ArityError)
    } else if !(this is Duration) {
        r == Err::<Value, CrushError>(CrushError::ThisError)
    } else {
        r == Ok::<Value, CrushError>(
            Value::Duration(Duration { nanos: (-this->Duration_0.nanos) as i128 }),
        )
    }
}

/// Negates this duration.
pub fn neg(this: &Value, args: &Vec<Value>) -> (r: Result<Value, CrushError>)
    requires
        (args@.len() == 0 && *this is Duration) ==> this->Duration_0.nanos != i128::MIN,
    ensures
        neg_post(*this, args@, r),
{
    if args.len() != 0 {
        return Err(CrushError::ArityError);
    }
    match this {
        Value::Duration(d) => Ok(Value::Duration(Duration { nanos: -d.nanos })),
        _ => Err(CrushError::ThisError),
    }
}

/// The full path of a method of the duration type.
pub fn full(name: &'static str) -> (r: Vec<&'static str>)
    ensures
        r@.len() == 4,
        r@[0]@ == "global"@,
        r@[1]@ == "types"@,
        r@[2]@ == "duration"@,
        r@[3]@ == name@,
{
    let mut v: Vec<&'static str> = Vec::new();
    v.push("global");
    v.push("types");
    v.push("duration");
    v.push(name);
    v
}

fn str_eq(a: &str, b: &str) -> (r: bool)
    ensures
        r == (a@ == b@),
{
    let sa = a.to_owned();
    let sb = b.to_owned();
    sa == sb
}

/// Nanoseconds per unit of time, by the unit's name in singular or
/// plural; an unknown name has none.
pub open spec fn unit_nanos(u: Seq<char>) -> Option<int> {
    if u == "nanosecond"@ || u == "nanoseconds"@ {
        Some(1int)
    } else if u == "microsecond"@ || u == "microseconds"@ {
        Some(1000int)
    } else if u == "millisecond"@ || u == "milliseconds"@ {
        Some(1_000_000int)
    } else if u == "second"@ || u == "seconds"@ {
        Some(1_000_000_000int)
    } else if u == "minute"@ || u == "minutes"@ {
        Some(60_000_000_000int)
    } else if u == "hour"@ || u == "hours"@ {
        Some(3_600_000_000_000int)
    } else if u == "day"@ || u == "days"@ {
        Some(86_400_000_000_000int)
    } else if u == "year"@ || u == "years"@ {
        Some(31_536_000_000_000_000int)
    } else {
        None
    }
}

/// A duration of `amount` units, for a unit named in singular or plural;
/// an unknown unit name is invalid data.
pub fn to_duration(amount: i64, unit: &str) -> (r: Result<Duration, CrushError>)
    ensures
        match unit_nanos(unit@) {
            Some(f) => r == Ok::<Duration, CrushError>(
                Duration { nanos: (f * amount) as i128 },
            ),
            None => r == Err::<Duration, CrushError>(CrushError::InvalidArgument),
        },
{
    let a = amount as i128;
    if str_eq(unit, "nanosecond") || str_eq(unit, "nanoseconds") {
        Ok(Duration { nanos: a })
    } else if str_eq(unit, "microsecond") || str_eq(unit, "microseconds") {
        Ok(Duration { nanos: 1000 * a })
    } else if str_eq(unit, "millisecond") || str_eq(unit, "milliseconds") {
        Ok(Duration { nanos: 1_000_000 * a })
    } else if str_eq(unit, "second") || str_eq(unit, "seconds") {
        Ok(Duration { nanos: 1_000_000_000 * a })
    } else if str_eq(unit, "minute") || str_eq(unit, "minutes") {
        Ok(Duration { nanos: 60_000_000_000 * a })
    } else if str_eq(unit, "hour") || str_eq(unit, "hours") {
        Ok(Duration { nanos: 3_600_000_000_000 * a })
    } else if str_eq(unit, "day") || str_eq(unit, "days") {
        Ok(Duration { nanos: 86_400_000_000_000 * a })
    } else if str_eq(unit, "year") || str_eq(unit, "years") {
        Ok(Duration { nanos: 31_536_000_000_000_000 * a })
    } else {
        Err(CrushError::InvalidArgument)
    }
}

/// A duration summed from calendar units, at nanosecond resolution.
pub fn new(
    nanoseconds: i64,
    microseconds: i64,
    milliseconds: i64,
    seconds: i64,
    minutes: i64,
    hours: i64,
    days: i64,
) -> (d: Duration)
    ensures
        d.nanos as int == nanoseconds + 1000 * microseconds + 1_000_000 * milliseconds
            + 1_000_000_000 * seconds + 60_000_000_000 * minutes + 3_600_000_000_000 * hours
            + 86_400_000_000_000 * days,
{
    let n: i128 = (nanoseconds as i128) + 1000 * (microseconds as i128) + 1_000_000 * (
    milliseconds as i128) + 1_000_000_000 * (seconds as i128) + 60_000_000_000 * (minutes as i128)
        + 3_600_000_000_000 * (hours as i128) + 86_400_000_000_000 * (days as i128);
    Duration { nanos: n }
}

/// The duration type's method table, in declaration order.
pub fn methods() -> (m: MethodMap)
    ensures
        m.entries@.len() == 6,
        m.entries@[0].0@ == "__add__"@ && m.entries@[0].1 == Method::DurAdd,
        m.entries@[1].0@ == "__sub__"@ && m.entries@[1].1 == Method::DurSub,
        m.entries@[2].0@ == "__mul__"@ && m.entries@[2].1 == Method::DurMul,
        m.entries@[3].0@ == "__div__"@ && m.entries@[3].1 == Method::DurDiv,
        m.entries@[4].0@ == "new"@ && m.entries@[4].1 == Method::DurNew,
        m.entries@[5].0@ == "__neg__"@ && m.entries@[5].1 == Method::DurNeg,
{
    let mut m = MethodMap::new();
    m.declare(String::from_str("__add__"), Method::DurAdd);
    m.declare(String::from_str("__sub__"), Method::DurSub);
    m.declare(String::from_str("__mul__"), Method::DurMul);
    m.declare(String::from_str("__div__"), Method::DurDiv);
    m.declare(String::from_str("new"), Method::DurNew);
    m.declare(String::from_str("__neg__"), Method::DurNeg);
    m
}

} // verus!
