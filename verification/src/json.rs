//! Structural codec: bidirectional, lossy conversion between the runtime
//! value model and a generic interchange tree (null/bool/number/string/
//! array/object).  Decoding unifies heterogeneous arrays (homogeneous list,
//! struct-array-as-table, or mixed `Any` list); encoding drops sub-second
//! duration precision and inherited struct fields, and rejects values the
//! interchange format cannot represent.

use vstd::prelude::*;
use vstd::pervasive::unreached;
use crate::value::{
    Value, ValueType, ColumnType, Row, Table, List, Struct, col_sig, struct_sig, spec_value_type,
    materialized, seq_materialized, mat_ok, mat_rel, lemma_seq_materialized_index,
    lemma_rows_materialized_index, lemma_fields_materialized_index,
};
use crate::errors::CrushError;
use crate::registry::{Registry, Method};
use vstd::string::StringExecFns;

verus! {

/// The interchange tree.  A number is one of: a non-negative integer, a
/// negative integer, or a floating-point value carried by its bit pattern.
pub enum Json {
    Null,
    Bool(bool),
    NumU(u64),
    NumI(i64),
    NumF(u64),
    String(String),
    Array(Vec<Json>),
    Object(Vec<(String, Json)>),
}

// ------------------------------------------------------------------
// Decoding: interchange tree -> value.
// ------------------------------------------------------------------
/// All decoded elements share one runtime type.
pub open spec fn all_same_type(ds: Seq<Value>) -> bool {
    forall|i: int| 0 <= i < ds.len() ==> spec_value_type(#[trigger] ds[i]) == spec_value_type(ds[0])
}

/// All decoded elements are structs sharing the local signature `sig`.
pub open spec fn all_structs_share(ds: Seq<Value>, sig: Seq<(Seq<char>, ValueType)>) -> bool {
    forall|i: int|
        0 <= i < ds.len() ==> ((#[trigger] ds[i]) matches Value::Struct(st) && struct_sig(st) == sig)
}

/// `r` is the row holding exactly the local field values of the struct `sv`.
pub open spec fn row_of_struct(sv: Value, r: Row) -> bool {
    sv matches Value::Struct(st) && r.cells@.len() == st.fields@.len() && (forall|k: int|
        0 <= k < r.cells@.len() ==> #[trigger] r.cells@[k] == st.fields@[k].1)
}

/// How an array's decoded elements `ds` classify into the result `v`:
/// no elements at all give the empty value; mixed element types give an
/// `Any`-typed list; structs sharing one local signature become a table
/// with that signature as schema; any other single type gives a list of
/// that type.
pub open spec fn classify(ds: Seq<Value>, v: Value) -> bool {
    if ds.len() == 0 {
        v == Value::Empty
    } else if !all_same_type(ds) {
        v matches Value::List(l) && l.element_type == ValueType::Any && l.elements@ == ds
    } else {
        match ds[0] {
            Value::Struct(st0) => if all_structs_share(ds, struct_sig(st0)) {
                v matches Value::Table(t) && col_sig(t.types@) == struct_sig(st0) && t.rows@.len()
                    == ds.len() && (forall|i: int|
                    0 <= i < ds.len() ==> row_of_struct(ds[i], #[trigger] t.rows@[i]))
            } else {
                v matches Value::List(l) && l.element_type == ValueType::Struct && l.elements@
                    == ds
            },
            _ => v matches Value::List(l) && l.element_type == spec_value_type(ds[0])
                && l.elements@ == ds,
        }
    }
}

/// How an interchange tree decodes into a value.
pub open spec fn decodes_to(j: Json, v: Value) -> bool
    decreases j,
{
    match j {
        Json::Null => v == Value::Empty,
        Json::Bool(b) => v == Value::Bool(b),
        Json::NumU(u) => v == Value::Integer(u as i128),
        Json::NumI(i) => v == Value::Integer(i as i128),
        Json::NumF(bits) => v == Value::Float(bits),
        Json::String(s) => v matches Value::String(t) && t@ == s@,
        Json::Array(arr) => exists|ds: Seq<Value>|
            #![trigger ds.len()]
            ds.len() == arr@.len() && (forall|i: int|
                0 <= i < arr@.len() ==> decodes_to(#[trigger] arr@[i], ds[i])) && classify(ds, v),
        Json::Object(o) => v matches Value::Struct(st) && st.parent is None && st.fields@.len()
            == o@.len() && (forall|i: int|
            0 <= i < o@.len() ==> (#[trigger] st.fields@[i]).0@ == o@[i].0@ && decodes_to(
                o@[i].1,
                st.fields@[i].1,
            )),
    }
}

/// Compares two column schemas by name and cell type.
fn sig_eq(a: &Vec<ColumnType>, b: &Vec<ColumnType>) -> (r: bool)
    ensures
        r == (col_sig(a@) == col_sig(b@)),
{
    if a.len() != b.len() {
        proof {
            assert(col_sig(a@).len() != col_sig(b@).len());
        }
        return false;
    }
    let mut i: usize = 0;
    while i < a.len()
        invariant
            i <= a@.len(),
            a@.len() == b@.len(),
            forall|j: int| 0 <= j < i ==> col_sig(a@)[j] == col_sig(b@)[j],
        decreases a@.len() - i,
    {
        let names_equal = a[i].name == b[i].name;
        let types_equal = a[i].cell_type == b[i].cell_type;
        if !(names_equal && types_equal) {
            proof {
                assert(col_sig(a@)[i as int] != col_sig(b@)[i as int]);
            }
            return false;
        }
        proof {
            assert(col_sig(a@)[i as int] == col_sig(b@)[i as int]);
        }
        i = i + 1;
    }
    proof {
        assert(col_sig(a@) =~= col_sig(b@));
    }
    true
}

/// Decodes an interchange tree into a runtime value.  Null becomes the
/// empty value; numbers become integers where they are integral, floats
/// otherwise; arrays classify into empty/table/list; objects become structs
/// with no parent.  Decoding never fails.
#[verifier::loop_isolation(false)]
pub fn from_json(json_value: &Json) -> (v: Value)
    ensures
        decodes_to(*json_value, v),
    decreases json_value,
{
    match json_value {
        Json::Null => Value::Empty,
        Json::Bool(b) => Value::Bool(*b),
        Json::NumU(u) => Value::Integer(*u as i128),
        Json::NumI(i) => Value::Integer(*i as i128),
        Json::NumF(bits) => Value::Float(*bits),
        Json::String(s) => Value::String(s.clone()),
        Json::Object(o) => {
            let mut fields: Vec<(String, Value)> = Vec::new();
            let mut i: usize = 0;
            while i < o.len()
                invariant
                    i <= o@.len(),
                    fields@.len() == i,
                    forall|k: int|
                        0 <= k < i ==> (#[trigger] fields@[k]).0@ == o@[k].0@ && decodes_to(
                            o@[k].1,
                            fields@[k].1,
                        ),
                decreases o@.len() - i,
            {
                let name = o[i].0.clone();
                proof {
                    assert(decreases_to!(*json_value => o@[i as int].1));
                }
                let dv = from_json(&o[i].1);
                fields.push((name, dv));
                i = i + 1;
            }
            Value::Struct(Struct { fields, parent: None })
        },
        Json::Array(arr) => {
            let mut ds: Vec<Value> = Vec::new();
            let mut i: usize = 0;
            while i < arr.len()
                invariant
                    i <= arr@.len(),
                    ds@.len() == i,
                    forall|k: int| 0 <= k < i ==> decodes_to(#[trigger] arr@[k], ds@[k]),
                decreases arr@.len() - i,
            {
                proof {
                    assert(decreases_to!(*json_value => arr@[i as int]));
                }
                let dv = from_json(&arr[i]);
                ds.push(dv);
                i = i + 1;
            }
            let ghost dsg = ds@;
            if ds.len() == 0 {
                let v = Value::Empty;
                proof {
                    assert(dsg.len() == arr@.len());
                    assert(classify(dsg, v));
                }
                v
            } else {
                let t0 = ds[0].value_type();
                let mut same = true;
                let mut k: usize = 1;
                while k < ds.len()
                    invariant
                        1 <= k <= ds@.len(),
                        ds@ == dsg,
                        dsg.len() > 0,
                        t0 == spec_value_type(dsg[0]),
                        same <==> (forall|q: int|
                            0 <= q < k ==> spec_value_type(#[trigger] dsg[q]) == spec_value_type(
                                dsg[0],
                            )),
                    decreases ds@.len() - k,
                {
                    let tk = ds[k].value_type();
                    if tk != t0 {
                        same = false;
                    }
                    k = k + 1;
                }
                if !same {
                    let v = Value::List(List { element_type: ValueType::Any, elements: ds });
                    proof {
                        assert(!all_same_type(dsg));
                        assert(dsg.len() == arr@.len());
                        assert(classify(dsg, v));
                    }
                    v
                } else if t0 == ValueType::Struct {
                    let sig0: Vec<ColumnType> = match &ds[0] {
                        Value::Struct(st) => st.local_signature(),
                        _ => unreached(),
                    };
                    let ghost st0 = dsg[0]->Struct_0;
                    let mut allsig = true;
                    let mut k2: usize = 1;
                    while k2 < ds.len()
                        invariant
                            1 <= k2 <= ds@.len(),
                            ds@ == dsg,
                            dsg.len() > 0,
                            all_same_type(dsg),
                            spec_value_type(dsg[0]) == ValueType::Struct,
                            st0 == dsg[0]->Struct_0,
                            col_sig(sig0@) == struct_sig(st0),
                            allsig <==> (forall|q: int|
                                0 <= q < k2 ==> ((#[trigger] dsg[q]) matches Value::Struct(stq)
                                    && struct_sig(stq) == struct_sig(st0))),
                        decreases ds@.len() - k2,
                    {
                        let ok = match &ds[k2] {
                            Value::Struct(st) => {
                                let sk = st.local_signature();
                                sig_eq(&sig0, &sk)
                            },
                            _ => unreached(),
                        };
                        if !ok {
                            allsig = false;
                        }
                        k2 = k2 + 1;
                    }
                    if allsig {
                        let mut rows: Vec<Row> = Vec::new();
                        let dslen: usize = ds.len();
                        let mut q: usize = 0;
                        while ds.len() > 0
                            invariant
                                q <= dsg.len(),
                                dsg.len() == dslen,
                                ds@ == dsg.skip(q as int),
                                rows@.len() == q,
                                all_structs_share(dsg, struct_sig(st0)),
                                forall|x: int|
                                    0 <= x < q ==> row_of_struct(dsg[x], #[trigger] rows@[x]),
                            decreases ds@.len(),
                        {
                            let d = ds.remove(0);
                            proof {
                                assert(ds@ =~= dsg.skip(q + 1 as int));
                                assert(d == dsg[q as int]);
                            }
                            match d {
                                Value::Struct(st) => {
                                    rows.push(st.to_row());
                                },
                                _ => unreached(),
                            }
                            q = q + 1;
                        }
                        let v = Value::Table(Table { types: sig0, rows });
                        proof {
                            assert(dsg.len() == arr@.len());
                            assert(classify(dsg, v));
                        }
                        v
                    } else {
                        let v = Value::List(
                            List { element_type: ValueType::Struct, elements: ds },
                        );
                        proof {
                            assert(!all_structs_share(dsg, struct_sig(st0)));
                            assert(dsg.len() == arr@.len());
                            assert(classify(dsg, v));
                        }
                        v
                    }
                } else {
                    let v = Value::List(List { element_type: t0, elements: ds });
                    proof {
                        assert(dsg.len() == arr@.len());
                        assert(classify(dsg, v));
                    }
                    v
                }
            }
        },
    }
}

// ------------------------------------------------------------------
// Encoding: value -> interchange tree.
// ------------------------------------------------------------------
/// The whole number of seconds in `nanos` nanoseconds, rounded toward zero.
pub open spec fn dur_secs(nanos: int) -> int {
    if nanos >= 0 {
        nanos / 1_000_000_000
    } else {
        -((-nanos) / 1_000_000_000)
    }
}

/// `n` fits the interchange format's signed 64-bit number range.
pub open spec fn i64_range(n: int) -> bool {
    -0x8000_0000_0000_0000 <= n < 0x8000_0000_0000_0000
}

/// The text that the timestamp `nanos` nanoseconds after the Unix epoch
/// renders to: date, time and offset, UTC.
pub uninterp spec fn rfc3339_of(nanos: int) -> Seq<char>;

/// Relies on chrono's `DateTime::<Utc>::from_timestamp_nanos` (total over
/// all `i64` values) and `DateTime::to_rfc3339`: the date-time-offset text
/// of the given instant, a function of the argument alone.
#[verifier::external_body]
fn format_rfc3339(nanos: i64) -> (r: String)
    ensures
        r@ == rfc3339_of(nanos as int),
{
    chrono::DateTime::<chrono::Utc>::from_timestamp_nanos(nanos).to_rfc3339()
}

/// `r` is the interchange number for the integer `n`: non-negative values
/// as the unsigned variant, negative ones as the signed variant.
pub open spec fn int_result(n: int, r: Json) -> bool {
    if n >= 0 {
        r matches Json::NumU(u) && u == n
    } else {
        r matches Json::NumI(x) && x == n
    }
}

/// The first `ncols` cells of the row (or all of them, if fewer) encode.
pub open spec fn row_encode_ok(r: Row, ncols: int) -> bool
    decreases r,
{
    forall|q: int| 0 <= q < ncols && q < r.cells@.len() ==> encode_ok(#[trigger] r.cells@[q])
}

/// Whether a materialized value has an interchange mapping: callables,
/// the empty value and out-of-range integers do not; containers do when
/// all their parts do.
pub open spec fn encode_ok(v: Value) -> bool
    decreases v,
{
    match v {
        Value::Empty => false,
        Value::Command(_) => false,
        Value::BinaryStream(_) => false,
        Value::TableStream(_) => false,
        Value::Integer(i) => i64_range(i as int),
        Value::Duration(d) => i64_range(dur_secs(d.nanos as int)),
        Value::List(l) => forall|i: int|
            0 <= i < l.elements@.len() ==> encode_ok(#[trigger] l.elements@[i]),
        Value::Table(t) => forall|i: int|
            0 <= i < t.rows@.len() ==> row_encode_ok(#[trigger] t.rows@[i], t.types@.len() as int),
        Value::Struct(st) => forall|i: int|
            0 <= i < st.fields@.len() ==> encode_ok((#[trigger] st.fields@[i]).1),
        _ => true,
    }
}

/// `r` is the object encoding of `row` under the schema `types`: one entry
/// per column (the shorter of schema and row bounds the count), keyed by
/// the column name.
pub open spec fn row_encodes_to(row: Row, types: Seq<ColumnType>, r: Json) -> bool
    decreases row,
{
    r matches Json::Object(o) && o@.len() == vstd::math::min(
        types.len() as int,
        row.cells@.len() as int,
    ) && (forall|k: int|
        0 <= k < o@.len() ==> (#[trigger] o@[k]).0@ == types[k].name@ && encodes_to(
            row.cells@[k],
            o@[k].1,
        ))
}

/// How a materialized, encodable value maps to its interchange tree.
pub open spec fn encodes_to(v: Value, r: Json) -> bool
    decreases v,
{
    match v {
        Value::Bool(b) => r == Json::Bool(b),
        Value::Float(bits) => r == Json::NumF(bits),
        Value::String(s) => r matches Json::String(t) && t@ == s@,
        Value::File(p) => r matches Json::String(t) && t@ == p@,
        Value::Integer(i) => int_result(i as int, r),
        Value::Duration(d) => int_result(dur_secs(d.nanos as int), r),
        Value::Time(t) => r matches Json::String(s) && s@ == rfc3339_of(t.nanos as int),
        Value::Binary(b) => r matches Json::Array(a) && a@.len() == b@.len() && (forall|i: int|
            0 <= i < b@.len() ==> ((#[trigger] a@[i]) matches Json::NumU(u) && u == b@[i])),
        Value::List(l) => r matches Json::Array(a) && a@.len() == l.elements@.len() && (forall|
            i: int,
        |
            0 <= i < a@.len() ==> encodes_to(l.elements@[i], #[trigger] a@[i])),
        Value::Table(t) => r matches Json::Array(a) && a@.len() == t.rows@.len() && (forall|i: int|
            0 <= i < a@.len() ==> row_encodes_to(t.rows@[i], t.types@, #[trigger] a@[i])),
        Value::Struct(st) => r matches Json::Object(o) && o@.len() == st.fields@.len() && (forall|
            k: int,
        |
            0 <= k < o@.len() ==> (#[trigger] o@[k]).0@ == st.fields@[k].0@ && encodes_to(
                st.fields@[k].1,
                o@[k].1,
            )),
        _ => false,
    }
}

/// The failure reported for a value with no interchange mapping: the first
/// one met in encoding order.
pub open spec fn first_err(v: Value) -> CrushError
    decreases v,
{
    match v {
        Value::Empty => CrushError::Unsupported(ValueType::Empty),
        Value::Command(_) => CrushError::Unsupported(ValueType::Command),
        Value::BinaryStream(_) => CrushError::Unsupported(ValueType::BinaryStream),
        Value::TableStream(_) => CrushError::Unsupported(ValueType::TableStream),
        Value::List(l) => seq_first_err(l.elements@),
        Value::Table(t) => rows_first_err(t.rows@, t.types@.len() as int),
        Value::Struct(st) => fields_first_err(st.fields@),
        _ => CrushError::InvalidData,
    }
}

pub open spec fn seq_first_err(s: Seq<Value>) -> CrushError
    decreases s,
{
    if s.len() == 0 {
        CrushError::InvalidData
    } else if !encode_ok(s[0]) {
        first_err(s[0])
    } else {
        seq_first_err(s.skip(1))
    }
}

pub open spec fn seq_first_err_upto(s: Seq<Value>, n: int) -> CrushError
    decreases s,
{
    if s.len() == 0 || n <= 0 {
        CrushError::InvalidData
    } else if !encode_ok(s[0]) {
        first_err(s[0])
    } else {
        seq_first_err_upto(s.skip(1), n - 1)
    }
}

pub open spec fn rows_first_err(rs: Seq<Row>, ncols: int) -> CrushError
    decreases rs,
{
    if rs.len() == 0 {
        CrushError::InvalidData
    } else if !row_encode_ok(rs[0], ncols) {
        seq_first_err_upto(rs[0].cells@, ncols)
    } else {
        rows_first_err(rs.skip(1), ncols)
    }
}

pub open spec fn fields_first_err(fs: Seq<(String, Value)>) -> CrushError
    decreases fs,
{
    if fs.len() == 0 {
        CrushError::InvalidData
    } else if !encode_ok(fs[0].1) {
        first_err(fs[0].1)
    } else {
        fields_first_err(fs.skip(1))
    }
}

proof fn lemma_seq_first_err(s: Seq<Value>, k: int)
    requires
        0 <= k < s.len(),
        forall|j: int| 0 <= j < k ==> encode_ok(#[trigger] s[j]),
        !encode_ok(s[k]),
    ensures
        seq_first_err(s) == first_err(s[k]),
    decreases k,
{
    if k > 0 {
        assert forall|j: int| 0 <= j < k - 1 implies encode_ok(#[trigger] s.skip(1)[j]) by {
            assert(s.skip(1)[j] == s[j + 1]);
        }
        assert(s.skip(1)[k - 1] == s[k]);
        lemma_seq_first_err(s.skip(1), k - 1);
    }
}

proof fn lemma_seq_first_err_upto(s: Seq<Value>, n: int, k: int)
    requires
        0 <= k < s.len(),
        k < n,
        forall|j: int| 0 <= j < k ==> encode_ok(#[trigger] s[j]),
        !encode_ok(s[k]),
    ensures
        seq_first_err_upto(s, n) == first_err(s[k]),
    decreases k,
{
    if k > 0 {
        assert forall|j: int| 0 <= j < k - 1 implies encode_ok(#[trigger] s.skip(1)[j]) by {
            assert(s.skip(1)[j] == s[j + 1]);
        }
        assert(s.skip(1)[k - 1] == s[k]);
        lemma_seq_first_err_upto(s.skip(1), n - 1, k - 1);
    }
}

proof fn lemma_rows_first_err(rs: Seq<Row>, ncols: int, i: int, k: int)
    requires
        0 <= i < rs.len(),
        forall|j: int| 0 <= j < i ==> row_encode_ok(#[trigger] rs[j], ncols),
        0 <= k < rs[i].cells@.len(),
        k < ncols,
        forall|j: int| 0 <= j < k ==> encode_ok(#[trigger] rs[i].cells@[j]),
        !encode_ok(rs[i].cells@[k]),
    ensures
        rows_first_err(rs, ncols) == first_err(rs[i].cells@[k]),
        !row_encode_ok(rs[i], ncols),
    decreases i,
{
    assert(!row_encode_ok(rs[i], ncols));
    if i == 0 {
        lemma_seq_first_err_upto(rs[0].cells@, ncols, k);
    } else {
        assert forall|j: int| 0 <= j < i - 1 implies row_encode_ok(#[trigger] rs.skip(1)[j], ncols) by {
            assert(rs.skip(1)[j] == rs[j + 1]);
        }
        assert(rs.skip(1)[i - 1] == rs[i]);
        lemma_rows_first_err(rs.skip(1), ncols, i - 1, k);
        assert(row_encode_ok(rs[0], ncols));
    }
}

proof fn lemma_fields_first_err(fs: Seq<(String, Value)>, k: int)
    requires
        0 <= k < fs.len(),
        forall|j: int| 0 <= j < k ==> encode_ok((#[trigger] fs[j]).1),
        !encode_ok(fs[k].1),
    ensures
        fields_first_err(fs) == first_err(fs[k].1),
    decreases k,
{
    if k > 0 {
        assert forall|j: int| 0 <= j < k - 1 implies encode_ok((#[trigger] fs.skip(1)[j]).1) by {
            assert(fs.skip(1)[j] == fs[j + 1]);
        }
        assert(fs.skip(1)[k - 1] == fs[k]);
        lemma_fields_first_err(fs.skip(1), k - 1);
    }
}

/// Encodes one materialized value; containers abort with the first failing
/// part's error.
#[verifier::loop_isolation(false)]
fn encode_value(v: &Value) -> (r: Result<Json, CrushError>)
    requires
        materialized(*v),
    ensures
        encode_ok(*v) <==> r is Ok,
        (r matches Ok(j) ==> encodes_to(*v, j)),
        (r matches Err(e) ==> e == first_err(*v)),
    decreases v,
{
    match v {
        Value::File(p) => Ok(Json::String(p.clone())),
        Value::String(s) => Ok(Json::String(s.clone())),
        Value::Integer(i) => {
            let iv: i128 = *i;
            if iv > 0x7FFF_FFFF_FFFF_FFFFi128 || iv < -0x8000_0000_0000_0000i128 {
                Err(CrushError::InvalidData)
            } else if iv >= 0 {
                Ok(Json::NumU(iv as u64))
            } else {
                Ok(Json::NumI(iv as i64))
            }
        },
        Value::Bool(b) => Ok(Json::Bool(*b)),
        Value::Float(bits) => Ok(Json::NumF(*bits)),
        Value::Duration(d) => {
            let n: i128 = d.nanos;
            if n == i128::MIN {
                return Err(CrushError::InvalidData);
            }
            let secs: i128 = if n >= 0 {
                n / 1_000_000_000i128
            } else {
                -((-n) / 1_000_000_000i128)
            };
            if secs > 0x7FFF_FFFF_FFFF_FFFFi128 || secs < -0x8000_0000_0000_0000i128 {
                Err(CrushError::InvalidData)
            } else if secs >= 0 {
                Ok(Json::NumU(secs as u64))
            } else {
                Ok(Json::NumI(secs as i64))
            }
        },
        Value::Time(t) => Ok(Json::String(format_rfc3339(t.nanos))),
        Value::Binary(b) => {
            let mut out: Vec<Json> = Vec::new();
            let mut i: usize = 0;
            while i < b.len()
                invariant
                    i <= b@.len(),
                    out@.len() == i,
                    forall|q: int|
                        0 <= q < i ==> ((#[trigger] out@[q]) matches Json::NumU(u) && u == b@[q]),
                decreases b@.len() - i,
            {
                out.push(Json::NumU(b[i] as u64));
                i = i + 1;
            }
            Ok(Json::Array(out))
        },
        Value::List(l) => {
            let mut out: Vec<Json> = Vec::new();
            let mut k: usize = 0;
            proof {
                lemma_seq_materialized_index(l.elements@);
            }
            while k < l.elements.len()
                invariant
                    k <= l.elements@.len(),
                    out@.len() == k,
                    forall|i: int| 0 <= i < l.elements@.len() ==> materialized(#[trigger] l.elements@[i]),
                    forall|j: int|
                        0 <= j < k ==> encode_ok(#[trigger] l.elements@[j]) && encodes_to(
                            l.elements@[j],
                            out@[j],
                        ),
                decreases l.elements@.len() - k,
            {
                proof {
                    assert(decreases_to!(*v => l.elements@[k as int]));
                }
                match encode_value(&l.elements[k]) {
                    Ok(j) => {
                        out.push(j);
                    },
                    Err(e) => {
                        proof {
                            assert(!encode_ok(l.elements@[k as int]));
                            assert(!encode_ok(*v));
                            lemma_seq_first_err(l.elements@, k as int);
                        }
                        return Err(e);
                    },
                }
                k = k + 1;
            }
            Ok(Json::Array(out))
        },
        Value::Struct(st) => {
            let mut out: Vec<(String, Json)> = Vec::new();
            let mut k: usize = 0;
            proof {
                lemma_fields_materialized_index(st.fields@);
            }
            while k < st.fields.len()
                invariant
                    k <= st.fields@.len(),
                    out@.len() == k,
                    forall|i: int|
                        0 <= i < st.fields@.len() ==> materialized((#[trigger] st.fields@[i]).1),
                    forall|j: int|
                        0 <= j < k ==> encode_ok((#[trigger] st.fields@[j]).1) && out@[j].0@
                            == st.fields@[j].0@ && encodes_to(st.fields@[j].1, out@[j].1),
                decreases st.fields@.len() - k,
            {
                let name = st.fields[k].0.clone();
                proof {
                    assert(decreases_to!(*v => st.fields@[k as int].1));
                }
                match encode_value(&st.fields[k].1) {
                    Ok(j) => {
                        out.push((name, j));
                    },
                    Err(e) => {
                        proof {
                            assert(!encode_ok(st.fields@[k as int].1));
                            assert(!encode_ok(*v));
                            lemma_fields_first_err(st.fields@, k as int);
                        }
                        return Err(e);
                    },
                }
                k = k + 1;
            }
            Ok(Json::Object(out))
        },
        Value::Table(t) => {
            let mut rows_out: Vec<Json> = Vec::new();
            let mut i: usize = 0;
            proof {
                lemma_rows_materialized_index(t.rows@);
            }
            while i < t.rows.len()
                invariant
                    i <= t.rows@.len(),
                    rows_out@.len() == i,
                    forall|q: int|
                        0 <= q < t.rows@.len() ==> seq_materialized(#[trigger] t.rows@[q].cells@),
                    forall|j: int|
                        0 <= j < i ==> row_encode_ok(#[trigger] t.rows@[j], t.types@.len() as int)
                            && row_encodes_to(t.rows@[j], t.types@, rows_out@[j]),
                decreases t.rows@.len() - i,
            {
                let row = &t.rows[i];
                let mut obj: Vec<(String, Json)> = Vec::new();
                let mut k: usize = 0;
                proof {
                    lemma_seq_materialized_index(row.cells@);
                }
                while k < t.types.len() && k < row.cells.len()
                    invariant
                        k <= t.types@.len(),
                        k <= row.cells@.len(),
                        obj@.len() == k,
                        row == t.rows@[i as int],
                        i < t.rows@.len(),
                        forall|q: int| 0 <= q < row.cells@.len() ==> materialized(#[trigger] row.cells@[q]),
                        forall|q: int|
                            0 <= q < k ==> encode_ok(#[trigger] row.cells@[q]) && obj@[q].0@
                                == t.types@[q].name@ && encodes_to(row.cells@[q], obj@[q].1),
                    decreases t.types@.len() - k,
                {
                    let name = t.types[k].name.clone();
                    proof {
                        assert(decreases_to!(*v => t.rows@[i as int].cells@[k as int]));
                    }
                    match encode_value(&row.cells[k]) {
                        Ok(j) => {
                            obj.push((name, j));
                        },
                        Err(e) => {
                            proof {
                                assert(!encode_ok(row.cells@[k as int]));
                                lemma_rows_first_err(
                                    t.rows@,
                                    t.types@.len() as int,
                                    i as int,
                                    k as int,
                                );
                                assert(!row_encode_ok(t.rows@[i as int], t.types@.len() as int));
                                assert(!encode_ok(*v));
                            }
                            return Err(e);
                        },
                    }
                    k = k + 1;
                }
                proof {
                    assert forall|q: int|
                        0 <= q < t.types@.len() && q < row.cells@.len() implies encode_ok(
                        #[trigger] row.cells@[q],
                    ) by {}
                    assert(obj@.len() == vstd::math::min(
                        t.types@.len() as int,
                        row.cells@.len() as int,
                    ));
                    assert(row_encode_ok(t.rows@[i as int], t.types@.len() as int));
                    assert forall|q: int| 0 <= q < obj@.len() implies (#[trigger] obj@[q]).0@
                        == t.types@[q].name@ && encodes_to(row.cells@[q], obj@[q].1) by {
                        assert(encode_ok(row.cells@[q]) && obj@[q].0@ == t.types@[q].name@
                            && encodes_to(row.cells@[q], obj@[q].1));
                    }
                    assert(*row == t.rows@[i as int]);
                    assert(row_encodes_to(t.rows@[i as int], t.types@, Json::Object(obj)));
                }
                rows_out.push(Json::Object(obj));
                i = i + 1;
            }
            Ok(Json::Array(rows_out))
        },
        Value::Empty => Err(CrushError::Unsupported(ValueType::Empty)),
        Value::Command(_) => Err(CrushError::Unsupported(ValueType::Command)),
        Value::BinaryStream(_) => unreached(),
        Value::TableStream(_) => unreached(),
    }
}

/// Serializes one value to an interchange tree, materializing it first.
/// Fails exactly where the materialized value has a part with no
/// interchange mapping, with the first such part's error.
pub fn to_json(value: Value) -> (r: Result<Json, CrushError>)
    requires
        mat_ok(value),
    ensures
        materialized(value) ==> ((encode_ok(value) <==> r is Ok) && (r matches Ok(j)
            ==> encodes_to(value, j)) && (r matches Err(e) ==> e == first_err(value))),
        exists|m: Value|
            #![trigger mat_rel(value, m)]
            mat_rel(value, m) && materialized(m) && (encode_ok(m) <==> r is Ok) && (r matches Ok(j)
                ==> encodes_to(m, j)) && (r matches Err(e) ==> e == first_err(m)),
{
    let ghost value0 = value;
    let m = value.materialize();
    let ghost mg = m;
    let r = encode_value(&m);
    proof {
        assert(mat_rel(value0, mg));
        if materialized(value0) {
            assert(mg == value0);
        }
    }
    r
}

/// Registers the document commands under their namespace: `from` parses a
/// document into a value, `to` serializes a value to a document.  The
/// embedder runs them, since they read and write.
pub fn declare(reg: &mut Registry) -> (r: Result<(), CrushError>)
    ensures
        r is Ok,
        final (reg).json_commands.entries@.len() == old(reg).json_commands.entries@.len() + 2,
        forall|i: int|
            0 <= i < old(reg).json_commands.entries@.len() ==> final (reg).json_commands.entries@[i] == old(reg).json_commands.entries@[i],
        ({
            let n = old(reg).json_commands.entries@.len() as int;
            let es = final (reg).json_commands.entries@;
            es[n].0@ == "from"@ && es[n].1 == Method::JsonFrom && es[n + 1].0@ == "to"@ && es[n
                + 1].1 == Method::JsonTo
        }),
        final (reg).duration_methods == old(reg).duration_methods,
        final (reg).float_methods == old(reg).float_methods,
        final (reg).string_methods == old(reg).string_methods,
{
    let r1 = reg.json_commands.declare(String::from_str("from"), Method::JsonFrom);
    let r2 = reg.json_commands.declare(String::from_str("to"), Method::JsonTo);
    match (r1, r2) {
        _ => {},
    }
    Ok(())
}

// ------------------------------------------------------------------
// Laws of decode unification.
// ------------------------------------------------------------------
/// Decoding an array whose elements all decode to struct values sharing one
/// identical local signature yields a table whose row count equals the
/// array length and whose column schema equals that signature.
pub proof fn lemma_decode_unification(j: Json, v: Value, sig: Seq<(Seq<char>, ValueType)>)
    requires
        j matches Json::Array(arr) && arr@.len() > 0,
        decodes_to(j, v),
        forall|i: int, w: Value|
            0 <= i < (j->Array_0)@.len() && #[trigger] decodes_to((j->Array_0)@[i], w) ==> (w matches Value::Struct(st)
                && struct_sig(st) == sig),
    ensures
        v matches Value::Table(t) && t.rows@.len() == (j->Array_0)@.len() && col_sig(t.types@)
            == sig,
{
    let arr = j->Array_0;
    let ds = choose|ds: Seq<Value>|
        #![trigger ds.len()]
        ds.len() == arr@.len() && (forall|i: int|
            0 <= i < arr@.len() ==> decodes_to(#[trigger] arr@[i], ds[i])) && classify(ds, v);
    assert forall|i: int| 0 <= i < ds.len() implies (#[trigger] ds[i]) matches Value::Struct(st)
        && struct_sig(st) == sig by {
        assert(decodes_to(arr@[i], ds[i]));
    }
    assert(all_same_type(ds));
    assert(ds[0] matches Value::Struct(st0) && struct_sig(st0) == sig);
    assert(all_structs_share(ds, struct_sig(ds[0]->Struct_0)));
}

/// Decoding an array that mixes struct and non-struct elements yields an
/// `Any`-typed list of the elements, not a table.
pub proof fn lemma_decode_mixed(j: Json, v: Value, i1: int, i2: int)
    requires
        j matches Json::Array(arr),
        decodes_to(j, v),
        0 <= i1 < (j->Array_0)@.len(),
        0 <= i2 < (j->Array_0)@.len(),
        forall|w: Value| #[trigger] decodes_to((j->Array_0)@[i1], w) ==> w is Struct,
        forall|w: Value| #[trigger] decodes_to((j->Array_0)@[i2], w) ==> !(w is Struct),
    ensures
        v matches Value::List(l) && l.element_type == ValueType::Any && l.elements@.len() == (
        j->Array_0)@.len(),
{
    let arr = j->Array_0;
    let ds = choose|ds: Seq<Value>|
        #![trigger ds.len()]
        ds.len() == arr@.len() && (forall|i: int|
            0 <= i < arr@.len() ==> decodes_to(#[trigger] arr@[i], ds[i])) && classify(ds, v);
    assert(decodes_to(arr@[i1], ds[i1]));
    assert(decodes_to(arr@[i2], ds[i2]));
    assert(spec_value_type(ds[i1]) == ValueType::Struct);
    assert(spec_value_type(ds[i2]) != ValueType::Struct);
    assert(!all_same_type(ds));
}

} // verus!
