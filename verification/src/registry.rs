//! The typed method and operator registry: one insertion-ordered table of
//! named entries per value type, built once at startup, read-only
//! thereafter, and the invocation interface that resolves a (type tag,
//! name) pair to the method it names.

use vstd::prelude::*;
use crate::value::{Value, ValueType};
use crate::errors::CrushError;

verus! {

/// Every method the registry can name.
#[derive(Clone, Copy, Debug, PartialEq, Eq, Structural)]
pub enum Method {
    DurAdd,
    DurSub,
    DurMul,
    DurDiv,
    DurNeg,
    FloatNeg,
    FloatIsInfinite,
    FloatIsNan,
    FloatAdd,
    FloatSub,
    FloatMul,
    FloatDiv,
    StrUpper,
    StrLower,
    StrFormat,
    StrSplit,
    StrTrim,
    DurNew,
    JsonFrom,
    JsonTo,
}

/// An insertion-ordered map from method names to methods.  Lookup returns
/// the earliest entry under a name.
pub struct MethodMap {
    pub entries: Vec<(String, Method)>,
}

pub open spec fn spec_get_entries(es: Seq<(String, Method)>, name: Seq<char>) -> Option<Method>
    decreases es,
{
    if es.len() == 0 {
        None
    } else if es[0].0@ == name {
        Some(es[0].1)
    } else {
        spec_get_entries(es.skip(1), name)
    }
}

/// Lookup finds the entry at `k` when no earlier entry carries the name.
pub proof fn lemma_spec_get_found(es: Seq<(String, Method)>, name: Seq<char>, k: int)
    requires
        0 <= k < es.len(),
        es[k].0@ == name,
        forall|j: int| 0 <= j < k ==> (#[trigger] es[j]).0@ != name,
    ensures
        spec_get_entries(es, name) == Some(es[k].1),
    decreases k,
{
    if k > 0 {
        assert forall|j: int| 0 <= j < k - 1 implies (#[trigger] es.skip(1)[j]).0@ != name by {
            assert(es.skip(1)[j] == es[j + 1]);
        }
        assert(es.skip(1)[k - 1] == es[k]);
        lemma_spec_get_found(es.skip(1), name, k - 1);
    }
}

impl MethodMap {
    /// What lookup of `name` yields.
    pub open spec fn spec_get(self, name: Seq<char>) -> Option<Method> {
        spec_get_entries(self.entries@, name)
    }

    /// An empty table.
    pub fn new() -> (m: MethodMap)
        ensures
            m.entries@.len() == 0,
    {
        MethodMap { entries: Vec::new() }
    }

    /// Declares one entry at the end of the table.
    pub fn declare(&mut self, name: String, method: Method) -> (r: Result<(), CrushError>)
        ensures
            r is Ok,
            final (self).entries@ == old(self).entries@.push((name, method)),
    {
        self.entries.push((name, method));
        Ok(())
    }

    /// Looks a name up: the earliest entry under it, if any.
    pub fn get(&self, name: &String) -> (r: Option<Method>)
        ensures
            r == self.spec_get(name@),
    {
        let mut i: usize = 0;
        proof {
            assert(self.entries@.skip(0) =~= self.entries@);
        }
        while i < self.entries.len()
            invariant
                i <= self.entries@.len(),
                spec_get_entries(self.entries@.skip(i as int), name@) == self.spec_get(name@),
            decreases self.entries@.len() - i,
        {
            proof {
                assert(self.entries@.skip(i as int)[0] == self.entries@[i as int]);
                assert(self.entries@.skip(i as int).skip(1) =~= self.entries@.skip(i + 1 as int));
            }
            if self.entries[i].0 == *name {
                return Some(self.entries[i].1);
            }
            i = i + 1;
        }
        None
    }

    /// The number of entries.
    pub fn len(&self) -> (n: usize)
        ensures
            n == self.entries@.len(),
    {
        self.entries.len()
    }
}

/// The per-type method tables and the named command namespaces.  Built
/// once, passed by shared reference, never changed after construction.
pub struct Registry {
    pub duration_methods: MethodMap,
    pub float_methods: MethodMap,
    pub string_methods: MethodMap,
    pub json_commands: MethodMap,
}

/// What a lookup of `name` under the type tag `tag` yields: each value
/// type owns its own table; a type without one has no methods.
pub open spec fn invoke_lookup(reg: Registry, tag: ValueType, name: Seq<char>) -> Option<Method> {
    match tag {
        ValueType::Duration => reg.duration_methods.spec_get(name),
        ValueType::Float => reg.float_methods.spec_get(name),
        ValueType::String => reg.string_methods.spec_get(name),
        _ => None,
    }
}

/// The condition under which the found method's computation is defined
/// (machine-range bounds on duration arithmetic).
pub open spec fn call_req(m: Method, this: Value, args: Seq<Value>) -> bool {
    match m {
        Method::DurAdd => crate::binary_op::dispatch_req(
            crate::duration::spec_add_arms(),
            ValueType::Duration,
            this,
            args,
        ),
        Method::DurSub => crate::binary_op::dispatch_req(
            crate::duration::spec_sub_arms(),
            ValueType::Duration,
            this,
            args,
        ),
        Method::DurMul => crate::binary_op::dispatch_req(
            crate::duration::spec_mul_arms(),
            ValueType::Duration,
            this,
            args,
        ),
        Method::DurDiv => crate::binary_op::dispatch_req(
            crate::duration::spec_div_arms(),
            ValueType::Duration,
            this,
            args,
        ),
        Method::DurNeg => ((args.len() == 0 && this is Duration) ==> this->Duration_0.nanos
            != i128::MIN),
        _ => true,
    }
}

/// What calling the found method returns.  Entries the embedder runs —
/// document input and output, float arithmetic, text formatting, and the
/// duration constructor with its named arguments — resolve here to the
/// unknown-method failure; the embedder intercepts their names before
/// calling.
pub open spec fn call_post(
    m: Method,
    this: Value,
    args: Seq<Value>,
    r: Result<Value, CrushError>,
) -> bool {
    match m {
        Method::DurAdd => crate::binary_op::dispatch_post(
            crate::duration::spec_add_arms(),
            ValueType::Duration,
            this,
            args,
            r,
        ),
        Method::DurSub => crate::binary_op::dispatch_post(
            crate::duration::spec_sub_arms(),
            ValueType::Duration,
            this,
            args,
            r,
        ),
        Method::DurMul => crate::binary_op::dispatch_post(
            crate::duration::spec_mul_arms(),
            ValueType::Duration,
            this,
            args,
            r,
        ),
        Method::DurDiv => crate::binary_op::dispatch_post(
            crate::duration::spec_div_arms(),
            ValueType::Duration,
            this,
            args,
            r,
        ),
        Method::DurNeg => crate::duration::neg_post(this, args, r),
        Method::FloatNeg => crate::float::neg_post(this, args, r),
        Method::FloatIsInfinite => crate::float::is_infinite_post(this, args, r),
        Method::FloatIsNan => crate::float::is_nan_post(this, args, r),
        Method::StrUpper => crate::string::upper_post(this, args, r),
        Method::StrLower => crate::string::lower_post(this, args, r),
        Method::StrSplit => crate::string::split_post(this, args, r),
        Method::StrTrim => crate::string::trim_post(this, args, r),
        _ => r == Err::<Value, CrushError>(CrushError::UnknownMethod),
    }
}

/// Runs the method registered under the given type tag and name on a
/// receiver and arguments.  An unknown (tag, name) pair is a lookup
/// failure reported to the caller, never a silent no-op.
pub fn invoke(
    reg: &Registry,
    tag: ValueType,
    name: &String,
    this: &Value,
    args: &Vec<Value>,
) -> (r: Result<Value, CrushError>)
    requires
        match invoke_lookup(*reg, tag, name@) {
            Some(m) => call_req(m, *this, args@),
            None => true,
        },
    ensures
        match invoke_lookup(*reg, tag, name@) {
            Some(m) => call_post(m, *this, args@, r),
            None => r == Err::<Value, CrushError>(CrushError::UnknownMethod),
        },
{
    let table = match tag {
        ValueType::Duration => &reg.duration_methods,
        ValueType::Float => &reg.float_methods,
        ValueType::String => &reg.string_methods,
        _ => {
            return Err(CrushError::UnknownMethod);
        },
    };
    let m = match table.get(name) {
        Some(m) => m,
        None => {
            return Err(CrushError::UnknownMethod);
        },
    };
    match m {
        Method::DurAdd => crate::duration::add(this, args),
        Method::DurSub => crate::duration::sub(this, args),
        Method::DurMul => crate::duration::mul(this, args),
        Method::DurDiv => crate::duration::div(this, args),
        Method::DurNeg => crate::duration::neg(this, args),
        Method::FloatNeg => crate::float::neg(this, args),
        Method::FloatIsInfinite => crate::float::is_infinite(this, args),
        Method::FloatIsNan => crate::float::is_nan(this, args),
        Method::StrUpper => crate::string::upper(this, args),
        Method::StrLower => crate::string::lower(this, args),
        Method::StrSplit => crate::string::split(this, args),
        Method::StrTrim => crate::string::trim(this, args),
        _ => Err(CrushError::UnknownMethod),
    }
}

impl Registry {
    /// Builds the whole registry once: the duration and float method
    /// tables and the string and document-command declarations.
    pub fn new() -> (reg: Registry)
        ensures
            reg.duration_methods.entries@.len() == 6,
            reg.float_methods.entries@.len() == 7,
            reg.string_methods.entries@.len() == 5,
            reg.json_commands.entries@.len() == 2,
            invoke_lookup(reg, ValueType::Duration, "__add__"@) == Some(Method::DurAdd),
            invoke_lookup(reg, ValueType::Duration, "__sub__"@) == Some(Method::DurSub),
            invoke_lookup(reg, ValueType::Duration, "__mul__"@) == Some(Method::DurMul),
            invoke_lookup(reg, ValueType::Duration, "__div__"@) == Some(Method::DurDiv),
            invoke_lookup(reg, ValueType::Duration, "new"@) == Some(Method::DurNew),
            invoke_lookup(reg, ValueType::Duration, "__neg__"@) == Some(Method::DurNeg),
            invoke_lookup(reg, ValueType::Float, "__add__"@) == Some(Method::FloatAdd),
            invoke_lookup(reg, ValueType::Float, "__sub__"@) == Some(Method::FloatSub),
            invoke_lookup(reg, ValueType::Float, "__mul__"@) == Some(Method::FloatMul),
            invoke_lookup(reg, ValueType::Float, "__div__"@) == Some(Method::FloatDiv),
            invoke_lookup(reg, ValueType::Float, "__neg__"@) == Some(Method::FloatNeg),
            invoke_lookup(reg, ValueType::Float, "is_finite"@) == Some(Method::FloatIsInfinite),
            invoke_lookup(reg, ValueType::Float, "is_nan"@) == Some(Method::FloatIsNan),
            invoke_lookup(reg, ValueType::String, "upper"@) == Some(Method::StrUpper),
            invoke_lookup(reg, ValueType::String, "lower"@) == Some(Method::StrLower),
            invoke_lookup(reg, ValueType::String, "format"@) == Some(Method::StrFormat),
            invoke_lookup(reg, ValueType::String, "split"@) == Some(Method::StrSplit),
            invoke_lookup(reg, ValueType::String, "trim"@) == Some(Method::StrTrim),
            reg.json_commands.spec_get("from"@) == Some(Method::JsonFrom),
            reg.json_commands.spec_get("to"@) == Some(Method::JsonTo),
    {
        let mut reg = Registry {
            duration_methods: crate::duration::methods(),
            float_methods: crate::float::methods(),
            string_methods: MethodMap::new(),
            json_commands: MethodMap::new(),
        };
        let rs = crate::string::declare(&mut reg);
        let rj = crate::json::declare(&mut reg);
        match (rs, rj) {
            _ => {},
        }
        proof {
            reveal_strlit("__add__");
            reveal_strlit("__sub__");
            reveal_strlit("__mul__");
            reveal_strlit("__div__");
            reveal_strlit("__neg__");
            reveal_strlit("is_finite");
            reveal_strlit("is_nan");
            reveal_strlit("new");
            reveal_strlit("upper");
            reveal_strlit("lower");
            reveal_strlit("split");
            reveal_strlit("format");
            reveal_strlit("trim");
            reveal_strlit("from");
            reveal_strlit("to");
            assert("__add__"@[2] == 'a' && "__sub__"@[2] == 's' && "__mul__"@[2] == 'm'
                && "__div__"@[2] == 'd' && "__neg__"@[2] == 'n');
            assert("__add__"@.len() == 7 && "__sub__"@.len() == 7 && "__mul__"@.len() == 7
                && "__div__"@.len() == 7 && "__neg__"@.len() == 7);
            assert("is_finite"@.len() == 9 && "is_nan"@.len() == 6 && "new"@.len() == 3);
            assert("upper"@[0] == 'u' && "lower"@[0] == 'l' && "split"@[0] == 's');
            assert("upper"@.len() == 5 && "lower"@.len() == 5 && "split"@.len() == 5 && "trim"@.len()
                == 4 && "format"@.len() == 6);
            assert("from"@.len() == 4 && "to"@.len() == 2);
            lemma_spec_get_found(reg.duration_methods.entries@, "__add__"@, 0);
            lemma_spec_get_found(reg.duration_methods.entries@, "__sub__"@, 1);
            lemma_spec_get_found(reg.duration_methods.entries@, "__mul__"@, 2);
            lemma_spec_get_found(reg.duration_methods.entries@, "__div__"@, 3);
            lemma_spec_get_found(reg.duration_methods.entries@, "new"@, 4);
            lemma_spec_get_found(reg.duration_methods.entries@, "__neg__"@, 5);
            lemma_spec_get_found(reg.float_methods.entries@, "__add__"@, 0);
            lemma_spec_get_found(reg.float_methods.entries@, "__sub__"@, 1);
            lemma_spec_get_found(reg.float_methods.entries@, "__mul__"@, 2);
            lemma_spec_get_found(reg.float_methods.entries@, "__div__"@, 3);
            lemma_spec_get_found(reg.float_methods.entries@, "__neg__"@, 4);
            lemma_spec_get_found(reg.float_methods.entries@, "is_finite"@, 5);
            lemma_spec_get_found(reg.float_methods.entries@, "is_nan"@, 6);
            lemma_spec_get_found(reg.string_methods.entries@, "upper"@, 0);
            lemma_spec_get_found(reg.string_methods.entries@, "lower"@, 1);
            lemma_spec_get_found(reg.string_methods.entries@, "format"@, 2);
            lemma_spec_get_found(reg.string_methods.entries@, "split"@, 3);
            lemma_spec_get_found(reg.string_methods.entries@, "trim"@, 4);
            lemma_spec_get_found(reg.json_commands.entries@, "from"@, 0);
            lemma_spec_get_found(reg.json_commands.entries@, "to"@, 1);
        }
        reg
    }
}

} // verus!
