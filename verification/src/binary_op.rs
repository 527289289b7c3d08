//! Generic binary-operator dispatch: one argument is demanded, then the
//! declared arms are tried in order and the first whose accepted input type
//! equals the argument's runtime type is applied.  Each receiver type
//! declares its own ordered arm table, so one operator can accept several
//! compatible argument types while rejecting everything else.

use vstd::prelude::*;
use vstd::pervasive::unreached;
use crate::value::{Value, ValueType, Duration, Time, spec_value_type};
use crate::errors::CrushError;

verus! {

/// The concrete operations the arms of this library apply.
#[derive(Clone, Copy, Debug, PartialEq, Eq, Structural)]
pub enum OpKind {
    DurPlusDur,
    TimePlusDur,
    DurMinusDur,
    DurTimesInt,
    DurDivInt,
}

/// One declared dispatch arm: accepted input type, result type, operation.
#[derive(Clone, Copy, Debug, PartialEq, Eq, Structural)]
pub struct Arm {
    pub input: ValueType,
    pub output: ValueType,
    pub op: OpKind,
}

/// Index of the first arm accepting input type `t`, or -1 when none does.
pub open spec fn first_arm(arms: Seq<Arm>, t: ValueType) -> int
    decreases arms,
{
    if arms.len() == 0 {
        -1
    } else if arms[0].input == t {
        0
    } else {
        let r = first_arm(arms.skip(1), t);
        if r < 0 {
            -1
        } else {
            r + 1
        }
    }
}

proof fn lemma_first_arm_found(arms: Seq<Arm>, t: ValueType, i: int)
    requires
        0 <= i < arms.len(),
        arms[i].input == t,
        forall|j: int| 0 <= j < i ==> (#[trigger] arms[j]).input != t,
    ensures
        first_arm(arms, t) == i,
    decreases i,
{
    if i > 0 {
        assert forall|j: int| 0 <= j < i - 1 implies (#[trigger] arms.skip(1)[j]).input != t by {
            assert(arms.skip(1)[j] == arms[j + 1]);
        }
        assert(arms.skip(1)[i - 1] == arms[i]);
        lemma_first_arm_found(arms.skip(1), t, i - 1);
    }
}

proof fn lemma_first_arm_none(arms: Seq<Arm>, t: ValueType)
    requires
        forall|j: int| 0 <= j < arms.len() ==> (#[trigger] arms[j]).input != t,
    ensures
        first_arm(arms, t) == -1,
    decreases arms,
{
    if arms.len() > 0 {
        assert forall|j: int| 0 <= j < arms.skip(1).len() implies (#[trigger] arms.skip(
            1,
        )[j]).input != t by {
            assert(arms.skip(1)[j] == arms[j + 1]);
        }
        lemma_first_arm_none(arms.skip(1), t);
    }
}

/// An arm table accepts a type exactly when some declared arm's input type
/// equals it; the match, when there is one, is the earliest accepting arm.
pub proof fn lemma_first_arm_complete(arms: Seq<Arm>, t: ValueType)
    ensures
        (first_arm(arms, t) >= 0) <==> (exists|i: int|
            0 <= i < arms.len() && (#[trigger] arms[i]).input == t),
        first_arm(arms, t) >= 0 ==> 0 <= first_arm(arms, t) < arms.len() && arms[first_arm(
            arms,
            t,
        )].input == t && (forall|j: int|
            0 <= j < first_arm(arms, t) ==> (#[trigger] arms[j]).input != t),
    decreases arms,
{
    if arms.len() > 0 {
        lemma_first_arm_complete(arms.skip(1), t);
        if arms[0].input != t {
            let r = first_arm(arms.skip(1), t);
            if r >= 0 {
                assert(arms.skip(1)[r] == arms[r + 1]);
                assert forall|j: int| 0 <= j < r + 1 implies (#[trigger] arms[j]).input != t by {
                    if j > 0 {
                        assert(arms.skip(1)[j - 1] == arms[j]);
                    }
                }
            } else {
                if exists|i: int| 0 <= i < arms.len() && (#[trigger] arms[i]).input == t {
                    let i = choose|i: int| 0 <= i < arms.len() && (#[trigger] arms[i]).input == t;
                    assert(i > 0);
                    assert(arms.skip(1)[i - 1] == arms[i]);
                }
            }
        }
    }
}

/// For every receiver of the owning type and exactly one argument: when
/// some declared arm accepts the argument's runtime type, dispatch returns
/// the earliest such arm's operation applied to the receiver and the
/// argument, wrapped as that arm's result type; when no declared arm
/// accepts it, dispatch fails with a type-mismatch error.
pub proof fn lemma_dispatch_applies_declared_arm(
    arms: Seq<Arm>,
    recv: ValueType,
    this: Value,
    args: Seq<Value>,
    r: Result<Value, CrushError>,
)
    requires
        dispatch_post(arms, recv, this, args, r),
        args.len() == 1,
        spec_value_type(this) == recv,
    ensures
        (exists|i: int|
            0 <= i < arms.len() && (#[trigger] arms[i]).input == spec_value_type(args[0])) ==> r
            == Ok::<Value, CrushError>(
            op_result(arms[first_arm(arms, spec_value_type(args[0]))].op, this, args[0]),
        ),
        !(exists|i: int|
            0 <= i < arms.len() && (#[trigger] arms[i]).input == spec_value_type(args[0])) ==> r
            == Err::<Value, CrushError>(CrushError::TypeError),
{
    lemma_first_arm_complete(arms, spec_value_type(args[0]));
}

/// Demands exactly one argument, then selects the first declared arm whose
/// accepted input type equals the argument's runtime type.
pub fn select_arm(arms: &Vec<Arm>, args: &Vec<Value>) -> (r: Result<usize, CrushError>)
    ensures
        args@.len() != 1 ==> r == Err::<usize, CrushError>(CrushError::ArityError),
        args@.len() == 1 ==> match r {
            Ok(i) => 0 <= i < arms@.len() && first_arm(arms@, spec_value_type(args@[0]))
                == i as int,
            Err(e) => e == CrushError::TypeError && first_arm(arms@, spec_value_type(args@[0]))
                == -1,
        },
{
    if args.len() != 1 {
        return Err(CrushError::ArityError);
    }
    let t = args[0].value_type();
    let mut i: usize = 0;
    while i < arms.len()
        invariant
            i <= arms@.len(),
            args@.len() == 1,
            t == spec_value_type(args@[0]),
            forall|j: int| 0 <= j < i ==> (#[trigger] arms@[j]).input != t,
        decreases arms@.len() - i,
    {
        if arms[i].input == t {
            proof {
                lemma_first_arm_found(arms@, t, i as int);
            }
            return Ok(i);
        }
        i = i + 1;
    }
    proof {
        lemma_first_arm_none(arms@, t);
    }
    Err(CrushError::TypeError)
}

/// Coercion of an integer operand to a 32-bit signed scale factor:
/// two's-complement truncation to the low 32 bits.
pub open spec fn trunc_i32(x: int) -> int {
    let m = x % 0x1_0000_0000;
    if m >= 0x8000_0000 {
        m - 0x1_0000_0000
    } else {
        m
    }
}

/// Signed division rounded toward zero, as machine division is.
pub open spec fn tz_div(a: int, b: int) -> int {
    let q = iabs(a) / iabs(b);
    if (a < 0) != (b < 0) {
        -q
    } else {
        q
    }
}

pub open spec fn iabs(x: int) -> int {
    if x < 0 {
        -x
    } else {
        x
    }
}

pub open spec fn i128_range(x: int) -> bool {
    -0x8000_0000_0000_0000_0000_0000_0000_0000 <= x <= 0x7FFF_FFFF_FFFF_FFFF_FFFF_FFFF_FFFF_FFFF
}

pub open spec fn i64_range_op(x: int) -> bool {
    -0x8000_0000_0000_0000 <= x <= 0x7FFF_FFFF_FFFF_FFFF
}

/// Whether an arm's operation is defined on the given receiver and
/// argument: the operand shapes match the arm and the machine result does
/// not overflow (a scale factor of zero cannot divide).
pub open spec fn op_defined(op: OpKind, this: Value, arg: Value) -> bool {
    match op {
        OpKind::DurPlusDur => this matches Value::Duration(a) && (arg matches Value::Duration(b)
            && i128_range(a.nanos + b.nanos)),
        OpKind::TimePlusDur => this matches Value::Duration(a) && (arg matches Value::Time(t)
            && i64_range_op(t.nanos + a.nanos)),
        OpKind::DurMinusDur => this matches Value::Duration(a) && (arg matches Value::Duration(b)
            && i128_range(a.nanos - b.nanos)),
        OpKind::DurTimesInt => this matches Value::Duration(a) && (arg matches Value::Integer(k)
            && i128_range(a.nanos * trunc_i32(k as int))),
        OpKind::DurDivInt => this matches Value::Duration(a) && (arg matches Value::Integer(k)
            && a.nanos != i128::MIN && trunc_i32(k as int) != 0),
    }
}

/// The value an arm's operation produces, wrapped as the arm's result type.
pub open spec fn op_result(op: OpKind, this: Value, arg: Value) -> Value {
    match op {
        OpKind::DurPlusDur => Value::Duration(
            Duration { nanos: (this->Duration_0.nanos + arg->Duration_0.nanos) as i128 },
        ),
        OpKind::TimePlusDur => Value::Time(
            Time { nanos: (arg->Time_0.nanos + this->Duration_0.nanos) as i64 },
        ),
        OpKind::DurMinusDur => Value::Duration(
            Duration { nanos: (this->Duration_0.nanos - arg->Duration_0.nanos) as i128 },
        ),
        OpKind::DurTimesInt => Value::Duration(
            Duration { nanos: (this->Duration_0.nanos * trunc_i32(arg->Integer_0 as int)) as i128 },
        ),
        OpKind::DurDivInt => Value::Duration(
            Duration {
                nanos: tz_div(this->Duration_0.nanos as int, trunc_i32(arg->Integer_0 as int)) as i128,
            },
        ),
    }
}

/// Truncates an integer operand to a 32-bit signed scale factor.
fn trunc32(x: i128) -> (k: i32)
    ensures
        k as int == trunc_i32(x as int),
{
    let m: i128 = if x >= 0 {
        x % 0x1_0000_0000i128
    } else if x == i128::MIN {
        proof {
            vstd::arithmetic::div_mod::lemma_fundamental_div_mod_converse(
                x as int,
                0x1_0000_0000,
                -0x8000_0000_0000_0000_0000_0000,
                0,
            );
        }
        0
    } else {
        let y: i128 = (-x) % 0x1_0000_0000i128;
        proof {
            vstd::arithmetic::div_mod::lemma_fundamental_div_mod(-(x as int), 0x1_0000_0000);
            if y == 0 {
                vstd::arithmetic::div_mod::lemma_fundamental_div_mod_converse(
                    x as int,
                    0x1_0000_0000,
                    -((-(x as int)) / 0x1_0000_0000),
                    0,
                );
            } else {
                vstd::arithmetic::div_mod::lemma_fundamental_div_mod_converse(
                    x as int,
                    0x1_0000_0000,
                    -((-(x as int)) / 0x1_0000_0000) - 1,
                    0x1_0000_0000 - (y as int),
                );
            }
        }
        if y == 0 {
            0
        } else {
            0x1_0000_0000i128 - y
        }
    };
    if m >= 0x8000_0000i128 {
        (m - 0x1_0000_0000i128) as i32
    } else {
        m as i32
    }
}

/// Applies one arm's operation; the caller has already matched the arm.
fn apply_op(op: OpKind, this: &Value, arg: &Value) -> (r: Value)
    requires
        op_defined(op, *this, *arg),
    ensures
        r == op_result(op, *this, *arg),
{
    match op {
        OpKind::DurPlusDur => {
            let (a, b) = match (this, arg) {
                (Value::Duration(a), Value::Duration(b)) => (a.nanos, b.nanos),
                _ => unreached(),
            };
            Value::Duration(Duration { nanos: a + b })
        },
        OpKind::TimePlusDur => {
            let (a, t) = match (this, arg) {
                (Value::Duration(a), Value::Time(t)) => (a.nanos, t.nanos),
                _ => unreached(),
            };
            let shifted: i128 = (t as i128) + a;
            Value::Time(Time { nanos: shifted as i64 })
        },
        OpKind::DurMinusDur => {
            let (a, b) = match (this, arg) {
                (Value::Duration(a), Value::Duration(b)) => (a.nanos, b.nanos),
                _ => unreached(),
            };
            Value::Duration(Duration { nanos: a - b })
        },
        OpKind::DurTimesInt => {
            let (a, k) = match (this, arg) {
                (Value::Duration(a), Value::Integer(k)) => (a.nanos, *k),
                _ => unreached(),
            };
            let f = trunc32(k);
            Value::Duration(Duration { nanos: a * (f as i128) })
        },
        OpKind::DurDivInt => {
            let (a, k) = match (this, arg) {
                (Value::Duration(a), Value::Integer(k)) => (a.nanos, *k),
                _ => unreached(),
            };
            let f = trunc32(k);
            let fi: i128 = f as i128;
            let an: i128 = if a < 0 {
                -a
            } else {
                a
            };
            let ak: i128 = if fi < 0 {
                -fi
            } else {
                fi
            };
            let q0: i128 = an / ak;
            proof {
                assert(q0 <= an) by (nonlinear_arith)
                    requires
                        an >= 0,
                        ak >= 1,
                        q0 == an / ak,
                ;
            }
            let q: i128 = if (a < 0) != (f < 0) {
                -q0
            } else {
                q0
            };
            Value::Duration(Duration { nanos: q })
        },
    }
}

/// How the generic dispatch resolves: a wrong argument count is an arity
/// error; a receiver that is not of the owning type is a receiver error;
/// an argument matching no declared arm is a type-mismatch error; else the
/// first matching arm's operation, applied.
pub open spec fn dispatch_post(
    arms: Seq<Arm>,
    recv: ValueType,
    this: Value,
    args: Seq<Value>,
    r: Result<Value, CrushError>,
) -> bool {
    if args.len() != 1 {
        r == Err::<Value, CrushError>(CrushError::ArityError)
    } else if spec_value_type(this) != recv {
        r == Err::<Value, CrushError>(CrushError::ThisError)
    } else {
        let i = first_arm(arms, spec_value_type(args[0]));
        if i < 0 {
            r == Err::<Value, CrushError>(CrushError::TypeError)
        } else {
            r == Ok::<Value, CrushError>(op_result(arms[i].op, this, args[0]))
        }
    }
}

/// The condition under which the matched arm's operation is defined.
pub open spec fn dispatch_req(
    arms: Seq<Arm>,
    recv: ValueType,
    this: Value,
    args: Seq<Value>,
) -> bool {
    (args.len() == 1 && spec_value_type(this) == recv && first_arm(
        arms,
        spec_value_type(args[0]),
    ) >= 0) ==> op_defined(arms[first_arm(arms, spec_value_type(args[0]))].op, this, args[0])
}

/// The generic binary-operator dispatch: argument count, receiver type,
/// then declared-order first-compatible-arm matching.
pub fn dispatch(arms: &Vec<Arm>, recv: ValueType, this: &Value, args: &Vec<Value>) -> (r: Result<
    Value,
    CrushError,
>)
    requires
        dispatch_req(arms@, recv, *this, args@),
    ensures
        dispatch_post(arms@, recv, *this, args@, r),
{
    if args.len() != 1 {
        return Err(CrushError::ArityError);
    }
    let tt = this.value_type();
    if tt != recv {
        return Err(CrushError::ThisError);
    }
    match select_arm(arms, args) {
        Ok(i) => Ok(apply_op(arms[i].op, this, &args[0])),
        Err(e) => Err(e),
    }
}

} // verus!
