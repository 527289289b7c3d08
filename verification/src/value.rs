//! The runtime value model: a closed tagged union over scalars, durations,
//! timestamps, lists, tables, structs with field inheritance, callables and
//! unmaterialized stream variants, plus the type tags used as registry keys.

use vstd::prelude::*;
use vstd::string::StringExecFns;

verus! {

/// Runtime type tag of a value, used as a registry key.  Lookup is by tag
/// equality, never by structural matching.
#[derive(Clone, Copy, Debug, PartialEq, Eq, Structural, Hash)]
pub enum ValueType {
    Empty,
    Bool,
    Integer,
    Float,
    String,
    Binary,
    Duration,
    Time,
    List,
    Table,
    Struct,
    Command,
    BinaryStream,
    TableStream,
    File,
    Any,
}

/// A signed span of time with sub-second resolution, counted in nanoseconds.
#[derive(Clone, Copy, Debug, PartialEq, Eq, Structural)]
pub struct Duration {
    pub nanos: i128,
}

/// An absolute timestamp: nanoseconds since the Unix epoch, UTC.
#[derive(Clone, Copy, Debug, PartialEq, Eq, Structural)]
pub struct Time {
    pub nanos: i64,
}

/// One column of a table schema: a name and the cell type.
pub struct ColumnType {
    pub name: String,
    pub cell_type: ValueType,
}

/// One table row; its arity matches the owning table's column count.
pub struct Row {
    pub cells: Vec<Value>,
}

/// An ordered column schema and the rows that share it.
pub struct Table {
    pub types: Vec<ColumnType>,
    pub rows: Vec<Row>,
}

/// A sequence of elements bounded by a declared element type; a declared
/// type of `Any` bounds nothing.
pub struct List {
    pub element_type: ValueType,
    pub elements: Vec<Value>,
}

/// An ordered name-to-value mapping with an optional parent whose fields are
/// inherited.  `fields` holds only the struct's own (local) fields.
pub struct Struct {
    pub fields: Vec<(String, Value)>,
    pub parent: Option<Box<Struct>>,
}

/// A callable; opaque to the codec, which refuses to encode it.
pub struct Command {
    pub name: String,
}

/// Unmaterialized byte data: a cursor over the bytes not yet pulled.
pub struct BinaryStream {
    pub bytes: Vec<u8>,
    pub next: usize,
}

/// Unmaterialized row data: a cursor over the rows not yet pulled.
pub struct TableStream {
    pub types: Vec<ColumnType>,
    pub rows: Vec<Row>,
    pub next: usize,
}

/// A runtime value.
pub enum Value {
    Empty,
    Bool(bool),
    Integer(i128),
    Float(u64),
    String(String),
    Binary(Vec<u8>),
    Duration(Duration),
    Time(Time),
    List(List),
    Table(Table),
    Struct(Struct),
    Command(Command),
    BinaryStream(BinaryStream),
    TableStream(TableStream),
    File(String),
}

pub open spec fn spec_value_type(v: Value) -> ValueType {
    match v {
        Value::Empty => ValueType::Empty,
        Value::Bool(_) => ValueType::Bool,
        Value::Integer(_) => ValueType::Integer,
        Value::Float(_) => ValueType::Float,
        Value::String(_) => ValueType::String,
        Value::Binary(_) => ValueType::Binary,
        Value::Duration(_) => ValueType::Duration,
        Value::Time(_) => ValueType::Time,
        Value::List(_) => ValueType::List,
        Value::Table(_) => ValueType::Table,
        Value::Struct(_) => ValueType::Struct,
        Value::Command(_) => ValueType::Command,
        Value::BinaryStream(_) => ValueType::BinaryStream,
        Value::TableStream(_) => ValueType::TableStream,
        Value::File(_) => ValueType::File,
    }
}

/// The name of a runtime type, as failures and listings render it.
pub open spec fn type_name_of(t: ValueType) -> Seq<char> {
    match t {
        ValueType::Empty => "empty"@,
        ValueType::Bool => "bool"@,
        ValueType::Integer => "integer"@,
        ValueType::Float => "float"@,
        ValueType::String => "string"@,
        ValueType::Binary => "binary"@,
        ValueType::Duration => "duration"@,
        ValueType::Time => "time"@,
        ValueType::List => "list"@,
        ValueType::Table => "table"@,
        ValueType::Struct => "struct"@,
        ValueType::Command => "command"@,
        ValueType::BinaryStream => "binary_stream"@,
        ValueType::TableStream => "table_stream"@,
        ValueType::File => "file"@,
        ValueType::Any => "any"@,
    }
}

impl ValueType {
    /// The name of this type, as failures and listings render it.
    pub fn name_text(&self) -> (r: String)
        ensures
            r@ == type_name_of(*self),
    {
        match self {
            ValueType::Empty => String::from_str("empty"),
            ValueType::Bool => String::from_str("bool"),
            ValueType::Integer => String::from_str("integer"),
            ValueType::Float => String::from_str("float"),
            ValueType::String => String::from_str("string"),
            ValueType::Binary => String::from_str("binary"),
            ValueType::Duration => String::from_str("duration"),
            ValueType::Time => String::from_str("time"),
            ValueType::List => String::from_str("list"),
            ValueType::Table => String::from_str("table"),
            ValueType::Struct => String::from_str("struct"),
            ValueType::Command => String::from_str("command"),
            ValueType::BinaryStream => String::from_str("binary_stream"),
            ValueType::TableStream => String::from_str("table_stream"),
            ValueType::File => String::from_str("file"),
            ValueType::Any => String::from_str("any"),
        }
    }
}

/// The column schema of a table, at the level of views.
pub open spec fn col_sig(types: Seq<ColumnType>) -> Seq<(Seq<char>, ValueType)> {
    Seq::new(types.len(), |i: int| (types[i].name@, types[i].cell_type))
}

/// The local signature of a struct: its own field names and their types.
pub open spec fn struct_sig(st: Struct) -> Seq<(Seq<char>, ValueType)> {
    Seq::new(st.fields@.len(), |i: int| (st.fields@[i].0@, spec_value_type(st.fields@[i].1)))
}

/// All fields of a struct: inherited ones first, then its own.  On a name
/// clash the later (own) entry takes precedence for lookups.
pub open spec fn full_fields(st: Struct) -> Seq<(String, Value)>
    decreases st,
{
    match st.parent {
        Some(p) => full_fields(*p) + st.fields@,
        None => st.fields@,
    }
}

/// Holds when no unmaterialized stream variant occurs anywhere in the value.
pub open spec fn materialized(v: Value) -> bool
    decreases v,
{
    match v {
        Value::List(l) => seq_materialized(l.elements@),
        Value::Table(t) => rows_materialized(t.rows@),
        Value::Struct(st) => struct_materialized(st),
        Value::BinaryStream(_) => false,
        Value::TableStream(_) => false,
        _ => true,
    }
}

pub open spec fn seq_materialized(s: Seq<Value>) -> bool
    decreases s,
{
    s.len() == 0 || (materialized(s[0]) && seq_materialized(s.skip(1)))
}

pub open spec fn rows_materialized(rs: Seq<Row>) -> bool
    decreases rs,
{
    rs.len() == 0 || (seq_materialized(rs[0].cells@) && rows_materialized(rs.skip(1)))
}

pub open spec fn struct_materialized(st: Struct) -> bool
    decreases st,
{
    fields_materialized(st.fields@) && match st.parent {
        Some(p) => struct_materialized(*p),
        None => true,
    }
}

pub open spec fn fields_materialized(fs: Seq<(String, Value)>) -> bool
    decreases fs,
{
    fs.len() == 0 || (materialized(fs[0].1) && fields_materialized(fs.skip(1)))
}

/// Holds when materializing the value's top level yields a value with no
/// stream variant left anywhere: either the value is already materialized,
/// or it is a stream whose pending content is.
pub open spec fn mat_ok(v: Value) -> bool {
    match v {
        Value::BinaryStream(_) => true,
        Value::TableStream(ts) => ts.next <= ts.rows@.len() && rows_materialized(
            ts.rows@.skip(ts.next as int),
        ),
        _ => materialized(v),
    }
}

/// How a value relates to its materialized form: a stream becomes the
/// concrete value of its pending content; everything else is unchanged.
pub open spec fn mat_rel(v: Value, m: Value) -> bool {
    match v {
        Value::BinaryStream(bs) => m matches Value::Binary(b) && b@ == bs.bytes@.skip(
            if bs.next <= bs.bytes@.len() {
                bs.next as int
            } else {
                bs.bytes@.len() as int
            },
        ),
        Value::TableStream(ts) => m matches Value::Table(t) && t.types == ts.types && t.rows@
            == ts.rows@.skip(
            if ts.next <= ts.rows@.len() {
                ts.next as int
            } else {
                ts.rows@.len() as int
            },
        ),
        _ => m == v,
    }
}

pub proof fn lemma_seq_materialized_index(s: Seq<Value>)
    ensures
        seq_materialized(s) <==> (forall|i: int| 0 <= i < s.len() ==> materialized(#[trigger] s[i])),
    decreases s,
{
    if s.len() > 0 {
        lemma_seq_materialized_index(s.skip(1));
        assert forall|i: int| 0 <= i < s.len() && seq_materialized(s) implies materialized(
            #[trigger] s[i],
        ) by {
            if i > 0 {
                assert(s.skip(1)[i - 1] == s[i]);
            }
        }
        if forall|i: int| 0 <= i < s.len() ==> materialized(#[trigger] s[i]) {
            assert forall|i: int| 0 <= i < s.skip(1).len() implies materialized(
                #[trigger] s.skip(1)[i],
            ) by {
                assert(s.skip(1)[i] == s[i + 1]);
            }
        }
    }
}

pub proof fn lemma_rows_materialized_index(rs: Seq<Row>)
    ensures
        rows_materialized(rs) <==> (forall|i: int|
            0 <= i < rs.len() ==> seq_materialized(#[trigger] rs[i].cells@)),
    decreases rs,
{
    if rs.len() > 0 {
        lemma_rows_materialized_index(rs.skip(1));
        assert forall|i: int| 0 <= i < rs.len() && rows_materialized(rs) implies seq_materialized(
            #[trigger] rs[i].cells@,
        ) by {
            if i > 0 {
                assert(rs.skip(1)[i - 1] == rs[i]);
            }
        }
        if forall|i: int| 0 <= i < rs.len() ==> seq_materialized(#[trigger] rs[i].cells@) {
            assert forall|i: int| 0 <= i < rs.skip(1).len() implies seq_materialized(
                #[trigger] rs.skip(1)[i].cells@,
            ) by {
                assert(rs.skip(1)[i] == rs[i + 1]);
            }
        }
    }
}

pub proof fn lemma_fields_materialized_index(fs: Seq<(String, Value)>)
    ensures
        fields_materialized(fs) <==> (forall|i: int|
            0 <= i < fs.len() ==> materialized(#[trigger] fs[i].1)),
    decreases fs,
{
    if fs.len() > 0 {
        lemma_fields_materialized_index(fs.skip(1));
        assert forall|i: int| 0 <= i < fs.len() && fields_materialized(fs) implies materialized(
            #[trigger] fs[i].1,
        ) by {
            if i > 0 {
                assert(fs.skip(1)[i - 1] == fs[i]);
            }
        }
        if forall|i: int| 0 <= i < fs.len() ==> materialized(#[trigger] fs[i].1) {
            assert forall|i: int| 0 <= i < fs.skip(1).len() implies materialized(
                #[trigger] fs.skip(1)[i].1,
            ) by {
                assert(fs.skip(1)[i] == fs[i + 1]);
            }
        }
    }
}

impl Value {
    /// The runtime type tag of this value.
    pub fn value_type(&self) -> (t: ValueType)
        ensures
            t == spec_value_type(*self),
    {
        match self {
            Value::Empty => ValueType::Empty,
            Value::Bool(_) => ValueType::Bool,
            Value::Integer(_) => ValueType::Integer,
            Value::Float(_) => ValueType::Float,
            Value::String(_) => ValueType::String,
            Value::Binary(_) => ValueType::Binary,
            Value::Duration(_) => ValueType::Duration,
            Value::Time(_) => ValueType::Time,
            Value::List(_) => ValueType::List,
            Value::Table(_) => ValueType::Table,
            Value::Struct(_) => ValueType::Struct,
            Value::Command(_) => ValueType::Command,
            Value::BinaryStream(_) => ValueType::BinaryStream,
            Value::TableStream(_) => ValueType::TableStream,
            Value::File(_) => ValueType::File,
        }
    }

    /// Converts a stream variant into the concrete value of its pending
    /// content; any other value is returned unchanged.  Every boundary that
    /// needs a concrete value calls this first.
    pub fn materialize(self) -> (m: Value)
        ensures
            mat_rel(self, m),
            mat_ok(self) ==> materialized(m),
    {
        match self {
            Value::BinaryStream(bs) => {
                let mut bytes = bs.bytes;
                let at = if bs.next <= bytes.len() {
                    bs.next
                } else {
                    bytes.len()
                };
                let pending = bytes.split_off(at);
                Value::Binary(pending)
            },
            Value::TableStream(ts) => {
                let mut rows = ts.rows;
                let at = if ts.next <= rows.len() {
                    ts.next
                } else {
                    rows.len()
                };
                let pending = rows.split_off(at);
                proof {
                    if ts.next <= ts.rows@.len() {
                        lemma_rows_materialized_index(ts.rows@.skip(ts.next as int));
                        lemma_rows_materialized_index(pending@);
                    }
                }
                Value::Table(Table { types: ts.types, rows: pending })
            },
            v => v,
        }
    }
}

impl Value {
    /// True when no unmaterialized stream variant occurs anywhere in this
    /// value.
    #[verifier::loop_isolation(false)]
    pub fn is_materialized(&self) -> (r: bool)
        ensures
            r == materialized(*self),
        decreases self,
    {
        match self {
            Value::List(l) => {
                let mut ok = true;
                let mut k: usize = 0;
                while k < l.elements.len()
                    invariant
                        k <= l.elements@.len(),
                        ok <==> (forall|j: int|
                            0 <= j < k ==> materialized(#[trigger] l.elements@[j])),
                    decreases l.elements@.len() - k,
                {
                    proof {
                        assert(decreases_to!(*self => l.elements@[k as int]));
                    }
                    if !l.elements[k].is_materialized() {
                        ok = false;
                    }
                    k = k + 1;
                }
                proof {
                    lemma_seq_materialized_index(l.elements@);
                }
                ok
            },
            Value::Table(t) => {
                let mut ok = true;
                let mut i: usize = 0;
                while i < t.rows.len()
                    invariant
                        i <= t.rows@.len(),
                        ok <==> (forall|j: int|
                            0 <= j < i ==> seq_materialized(#[trigger] t.rows@[j].cells@)),
                    decreases t.rows@.len() - i,
                {
                    let row = &t.rows[i];
                    let mut k: usize = 0;
                    let mut row_ok = true;
                    while k < row.cells.len()
                        invariant
                            k <= row.cells@.len(),
                            row == t.rows@[i as int],
                            i < t.rows@.len(),
                            row_ok <==> (forall|j: int|
                                0 <= j < k ==> materialized(#[trigger] row.cells@[j])),
                        decreases row.cells@.len() - k,
                    {
                        proof {
                            assert(decreases_to!(*self => t.rows@[i as int].cells@[k as int]));
                        }
                        if !row.cells[k].is_materialized() {
                            row_ok = false;
                        }
                        k = k + 1;
                    }
                    proof {
                        lemma_seq_materialized_index(row.cells@);
                    }
                    if !row_ok {
                        ok = false;
                    }
                    i = i + 1;
                }
                proof {
                    lemma_rows_materialized_index(t.rows@);
                }
                ok
            },
            Value::Struct(st) => st.fields_materialized_check(),
            Value::BinaryStream(_) => false,
            Value::TableStream(_) => false,
            _ => true,
        }
    }

    /// True when materializing this value yields a fully concrete one: it
    /// is already materialized, or it is a stream whose pending content is.
    #[verifier::loop_isolation(false)]
    pub fn can_materialize(&self) -> (r: bool)
        ensures
            r == mat_ok(*self),
    {
        match self {
            Value::BinaryStream(_) => true,
            Value::TableStream(ts) => {
                if ts.next > ts.rows.len() {
                    return false;
                }
                let mut i: usize = ts.next;
                let mut ok = true;
                while i < ts.rows.len()
                    invariant
                        ts.next <= i <= ts.rows@.len(),
                        ok <==> (forall|j: int|
                            ts.next <= j < i ==> seq_materialized(#[trigger] ts.rows@[j].cells@)),
                    decreases ts.rows@.len() - i,
                {
                    let row = &ts.rows[i];
                    let mut k: usize = 0;
                    let mut row_ok = true;
                    while k < row.cells.len()
                        invariant
                            k <= row.cells@.len(),
                            row == ts.rows@[i as int],
                            i < ts.rows@.len(),
                            row_ok <==> (forall|j: int|
                                0 <= j < k ==> materialized(#[trigger] row.cells@[j])),
                        decreases row.cells@.len() - k,
                    {
                        proof {
                            assert(decreases_to!(*self => ts.rows@[i as int].cells@[k as int]));
                        }
                        if !row.cells[k].is_materialized() {
                            row_ok = false;
                        }
                        k = k + 1;
                    }
                    proof {
                        lemma_seq_materialized_index(row.cells@);
                    }
                    if !row_ok {
                        ok = false;
                    }
                    i = i + 1;
                }
                proof {
                    lemma_rows_materialized_index(ts.rows@.skip(ts.next as int));
                    assert forall|j: int| 0 <= j < ts.rows@.skip(ts.next as int).len() && ok
                        implies seq_materialized(
                        #[trigger] ts.rows@.skip(ts.next as int)[j].cells@,
                    ) by {
                        assert(ts.rows@.skip(ts.next as int)[j] == ts.rows@[j + ts.next]);
                    }
                    if rows_materialized(ts.rows@.skip(ts.next as int)) && !ok {
                        let j = choose|j: int|
                            ts.next <= j < ts.rows@.len() && !seq_materialized(
                                #[trigger] ts.rows@[j].cells@,
                            );
                        assert(ts.rows@.skip(ts.next as int)[j - ts.next] == ts.rows@[j]);
                    }
                }
                ok
            },
            _ => self.is_materialized(),
        }
    }
}

impl Struct {
    /// True when every local field, and the whole parent chain, is
    /// materialized.
    #[verifier::loop_isolation(false)]
    fn fields_materialized_check(&self) -> (r: bool)
        ensures
            r == struct_materialized(*self),
        decreases self,
    {
        let mut ok = true;
        let mut k: usize = 0;
        while k < self.fields.len()
            invariant
                k <= self.fields@.len(),
                ok <==> (forall|j: int|
                    0 <= j < k ==> materialized((#[trigger] self.fields@[j]).1)),
            decreases self.fields@.len() - k,
        {
            proof {
                assert(decreases_to!(*self => self.fields@[k as int].1));
            }
            if !self.fields[k].1.is_materialized() {
                ok = false;
            }
            k = k + 1;
        }
        proof {
            lemma_fields_materialized_index(self.fields@);
        }
        match &self.parent {
            Some(p) => ok && p.fields_materialized_check(),
            None => ok,
        }
    }
}

impl List {
    /// A list with the given declared element type and elements.
    pub fn new(element_type: ValueType, elements: Vec<Value>) -> (l: List)
        ensures
            l.element_type == element_type,
            l.elements == elements,
    {
        List { element_type, elements }
    }

    /// Hands the elements out, consuming the list.
    pub fn dump(self) -> (r: Vec<Value>)
        ensures
            r == self.elements,
    {
        self.elements
    }
}

impl Table {
    /// A table with the given column schema and rows.
    pub fn new(types: Vec<ColumnType>, rows: Vec<Row>) -> (t: Table)
        ensures
            t.types == types,
            t.rows == rows,
    {
        Table { types, rows }
    }
}

impl Row {
    /// Rebuilds a struct from this row's positional values and a column
    /// schema, pairing values with column names; the shorter side bounds the
    /// field count.  The struct has no parent.
    pub fn into_struct(self, types: &Vec<ColumnType>) -> (st: Struct)
        ensures
            st.parent is None,
            st.fields@.len() == vstd::math::min(types@.len() as int, self.cells@.len() as int),
            forall|k: int|
                0 <= k < st.fields@.len() ==> (#[trigger] st.fields@[k]).0@ == types@[k].name@
                    && st.fields@[k].1 == self.cells@[k],
    {
        let mut cells = self.cells;
        let mut fields: Vec<(String, Value)> = Vec::new();
        let ghost cells0 = cells@;
        let mut k: usize = 0;
        while k < types.len() && cells.len() > 0
            invariant
                0 <= k <= types@.len(),
                k <= cells0.len(),
                cells@ == cells0.skip(k as int),
                fields@.len() == k,
                forall|j: int|
                    0 <= j < k ==> (#[trigger] fields@[j]).0@ == types@[j].name@ && fields@[j].1
                        == cells0[j],
            decreases types@.len() - k,
        {
            let name = types[k].name.clone();
            let v = cells.remove(0);
            proof {
                assert(cells@ =~= cells0.skip(k + 1 as int));
                assert(v == cells0[k as int]);
            }
            fields.push((name, v));
            k = k + 1;
        }
        Struct { fields, parent: None }
    }
}

impl Struct {
    /// A struct with the given local fields and optional parent.
    pub fn new(fields: Vec<(String, Value)>, parent: Option<Box<Struct>>) -> (st: Struct)
        ensures
            st.fields == fields,
            st.parent == parent,
    {
        Struct { fields, parent }
    }

    /// The struct's own column list: one entry per local field.
    pub fn local_signature(&self) -> (sig: Vec<ColumnType>)
        ensures
            col_sig(sig@) == struct_sig(*self),
    {
        let mut sig: Vec<ColumnType> = Vec::new();
        let mut i: usize = 0;
        while i < self.fields.len()
            invariant
                i <= self.fields@.len(),
                sig@.len() == i,
                forall|j: int|
                    0 <= j < i ==> (#[trigger] sig@[j]).name@ == self.fields@[j].0@
                        && sig@[j].cell_type == spec_value_type(self.fields@[j].1),
            decreases self.fields@.len() - i,
        {
            let name = self.fields[i].0.clone();
            let cell_type = self.fields[i].1.value_type();
            sig.push(ColumnType { name, cell_type });
            i = i + 1;
        }
        proof {
            assert(col_sig(sig@) =~= struct_sig(*self));
        }
        sig
    }

    /// The struct's own fields, in declared order.
    pub fn local_elements(self) -> (r: Vec<(String, Value)>)
        ensures
            r@ == self.fields@,
    {
        self.fields
    }

    /// All fields including inherited ones: the parent chain's fields first,
    /// then this struct's own.
    pub fn full_elements(self) -> (r: Vec<(String, Value)>)
        ensures
            r@ == full_fields(self),
        decreases self,
    {
        let Struct { fields, parent } = self;
        match parent {
            Some(p) => {
                let mut r = (*p).full_elements();
                let mut own = fields;
                r.append(&mut own);
                r
            },
            None => fields,
        }
    }

    /// This struct's local field values as a table row, in declared order.
    pub fn to_row(self) -> (r: Row)
        ensures
            r.cells@.len() == self.fields@.len(),
            forall|k: int| 0 <= k < self.fields@.len() ==> r.cells@[k] == self.fields@[k].1,
    {
        let mut fields = self.fields;
        let ghost fields0 = fields@;
        let flen: usize = fields.len();
        let mut cells: Vec<Value> = Vec::new();
        let mut k: usize = 0;
        while fields.len() > 0
            invariant
                0 <= k <= fields0.len(),
                fields0.len() == flen,
                fields@ == fields0.skip(k as int),
                cells@.len() == k,
                forall|j: int| 0 <= j < k ==> cells@[j] == fields0[j].1,
            decreases fields@.len(),
        {
            let f = fields.remove(0);
            proof {
                assert(fields@ =~= fields0.skip(k + 1 as int));
                assert(f == fields0[k as int]);
            }
            cells.push(f.1);
            k = k + 1;
        }
        Row { cells }
    }
}

} // verus!
