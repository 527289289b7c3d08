//! The string type's methods: case mapping (through the platform's Unicode
//! tables, named rather than restated), trimming of surrounding whitespace,
//! and splitting on a separator.

use vstd::prelude::*;
use vstd::string::{StrSliceExecFns, StringExecFns};
use crate::value::{Value, ValueType, List};
use crate::errors::CrushError;
use crate::lexer::{CharClass, in_class, class_check};
use crate::registry::{Method, Registry};

verus! {

/// The uppercase mapping of a character sequence; a function of the
/// characters alone.
pub uninterp spec fn upper_of(s: Seq<char>) -> Seq<char>;

/// The lowercase mapping of a character sequence; a function of the
/// characters alone.
pub uninterp spec fn lower_of(s: Seq<char>) -> Seq<char>;

/// Relies on str::to_uppercase: the Unicode uppercase mapping of the text,
/// depending on its characters alone; an empty text stays empty.
#[verifier::external_body]
fn to_upper(s: &String) -> (r: String)
    ensures
        r@ == upper_of(s@),
        s@.len() == 0 ==> r@.len() == 0,
{
    s.as_str().to_uppercase()
}

/// Relies on str::to_lowercase: the Unicode lowercase mapping of the text,
/// depending on its characters alone; an empty text stays empty.
#[verifier::external_body]
fn to_lower(s: &String) -> (r: String)
    ensures
        r@ == lower_of(s@),
        s@.len() == 0 ==> r@.len() == 0,
{
    s.as_str().to_lowercase()
}

pub open spec fn upper_post(this: Value, args: Seq<Value>, r: Result<Value, CrushError>) -> bool {
    if !(this is String) {
        r == Err::<Value, CrushError>(CrushError::ThisError)
    } else {
        r matches Ok(v) && (v matches Value::String(t) && t@ == upper_of(this->String_0@))
    }
}

/// The receiver's text in uppercase.
pub fn upper(this: &Value, args: &Vec<Value>) -> (r: Result<Value, CrushError>)
    ensures
        upper_post(*this, args@, r),
{
    match this {
        Value::String(s) => Ok(Value::String(to_upper(s))),
        _ => Err(CrushError::ThisError),
    }
}

pub open spec fn lower_post(this: Value, args: Seq<Value>, r: Result<Value, CrushError>) -> bool {
    if !(this is String) {
        r == Err::<Value, CrushError>(CrushError::ThisError)
    } else {
        r matches Ok(v) && (v matches Value::String(t) && t@ == lower_of(this->String_0@))
    }
}

/// The receiver's text in lowercase.
pub fn lower(this: &Value, args: &Vec<Value>) -> (r: Result<Value, CrushError>)
    ensures
        lower_post(*this, args@, r),
{
    match this {
        Value::String(s) => Ok(Value::String(to_lower(s))),
        _ => Err(CrushError::ThisError),
    }
}

// ------------------------------------------------------------------
// Trim.
// ------------------------------------------------------------------
/// Index of the first non-whitespace character at or after `i`.
pub open spec fn trim_start_idx(s: Seq<char>, i: int) -> int
    decreases s.len() - i,
{
    if i < 0 || i >= s.len() || !in_class(CharClass::Space, s[i]) {
        i
    } else {
        trim_start_idx(s, i + 1)
    }
}

/// Index just past the last non-whitespace character before `j`.
pub open spec fn trim_end_idx(s: Seq<char>, j: int) -> int
    decreases j,
{
    if j <= 0 || j > s.len() || !in_class(CharClass::Space, s[j - 1]) {
        j
    } else {
        trim_end_idx(s, j - 1)
    }
}

proof fn lemma_trim_end_le(s: Seq<char>, j: int)
    ensures
        trim_end_idx(s, j) <= j,
    decreases j,
{
    if !(j <= 0 || j > s.len() || !in_class(CharClass::Space, s[j - 1])) {
        lemma_trim_end_le(s, j - 1);
    }
}

/// The text with surrounding whitespace removed.
pub open spec fn trim_spec(s: Seq<char>) -> Seq<char> {
    let a = trim_start_idx(s, 0);
    let b = trim_end_idx(s, s.len() as int);
    if a <= b {
        s.subrange(a, b)
    } else {
        Seq::empty()
    }
}

pub open spec fn trim_post(this: Value, args: Seq<Value>, r: Result<Value, CrushError>) -> bool {
    if !(this is String) {
        r == Err::<Value, CrushError>(CrushError::ThisError)
    } else {
        r matches Ok(v) && (v matches Value::String(t) && t@ == trim_spec(this->String_0@))
    }
}

/// The receiver's text with leading and trailing whitespace removed.
#[verifier::loop_isolation(false)]
pub fn trim(this: &Value, args: &Vec<Value>) -> (r: Result<Value, CrushError>)
    ensures
        trim_post(*this, args@, r),
{
    let s = match this {
        Value::String(s) => s,
        _ => {
            return Err(CrushError::ThisError);
        },
    };
    let st = s.as_str();
    let n = st.unicode_len();
    let mut a: usize = 0;
    while a < n && class_check(CharClass::Space, st.get_char(a))
        invariant
            0 <= a <= n,
            trim_start_idx(s@, 0) == trim_start_idx(s@, a as int),
        decreases n - a,
    {
        a = a + 1;
    }
    let mut b: usize = n;
    while b > a && class_check(CharClass::Space, st.get_char(b - 1))
        invariant
            a <= b <= n,
            trim_end_idx(s@, n as int) == trim_end_idx(s@, b as int),
        decreases b,
    {
        b = b - 1;
    }
    proof {
        assert(trim_start_idx(s@, a as int) == a as int);
        lemma_trim_end_le(s@, b as int);
        if b > a {
            assert(trim_end_idx(s@, b as int) == b as int);
        } else {
            let b0 = trim_end_idx(s@, b as int);
            if b0 < a as int {
                assert(trim_spec(s@) =~= s@.subrange(a as int, b as int));
            }
        }
        assert(s@.subrange(a as int, b as int) == trim_spec(s@));
    }
    let piece = st.substring_char(a, b);
    Ok(Value::String(String::from_str(piece)))
}

// ------------------------------------------------------------------
// Split.
// ------------------------------------------------------------------
/// The split of `s` on a non-empty separator, scanning left to right from
/// `i` with the current piece starting at `start`: each leftmost separator
/// occurrence ends a piece.
pub open spec fn split_from(s: Seq<char>, sep: Seq<char>, start: int, i: int) -> Seq<Seq<char>>
    decreases s.len() - i,
{
    if sep.len() == 0 || !(0 <= start <= i <= s.len()) {
        Seq::empty()
    } else if i + sep.len() > s.len() {
        seq![s.subrange(start, s.len() as int)]
    } else if s.subrange(i, i + sep.len() as int) == sep {
        seq![s.subrange(start, i)] + split_from(s, sep, i + sep.len() as int, i + sep.len() as int)
    } else {
        split_from(s, sep, start, i + 1)
    }
}

/// The split of `s` on an empty separator: an empty piece, one piece per
/// character, and an empty piece.
pub open spec fn split_empty_sep(s: Seq<char>) -> Seq<Seq<char>> {
    Seq::new(
        s.len() + 2,
        |i: int|
            if i == 0 || i == s.len() + 1 {
                Seq::<char>::empty()
            } else {
                seq![s[i - 1]]
            },
    )
}

/// The pieces of `s` split on `sep`.
pub open spec fn split_spec(s: Seq<char>, sep: Seq<char>) -> Seq<Seq<char>> {
    if sep.len() == 0 {
        split_empty_sep(s)
    } else {
        split_from(s, sep, 0, 0)
    }
}

/// The views of the accumulated pieces.
pub open spec fn piece_views(ps: Seq<String>) -> Seq<Seq<char>> {
    Seq::new(ps.len(), |i: int| ps[i]@)
}

/// Whether `sep` occurs in `s` at position `i`.
fn matches_at(st: &str, i: usize, sp: &str) -> (r: bool)
    requires
        i + sp@.len() <= st@.len(),
    ensures
        r == (st@.subrange(i as int, i + sp@.len()) == sp@),
{
    let m = sp.unicode_len();
    let n_chars = st.unicode_len();
    let mut k: usize = 0;
    while k < m
        invariant
            0 <= k <= m,
            m == sp@.len(),
            n_chars == st@.len(),
            i + m <= n_chars,
            forall|q: int| 0 <= q < k ==> st@[i + q] == sp@[q],
        decreases m - k,
    {
        if st.get_char(i + k) != sp.get_char(k) {
            proof {
                assert(st@.subrange(i as int, i + sp@.len())[k as int] != sp@[k as int]);
            }
            return false;
        }
        k = k + 1;
    }
    proof {
        assert(st@.subrange(i as int, i + sp@.len()) =~= sp@);
    }
    true
}

pub open spec fn split_post(this: Value, args: Seq<Value>, r: Result<Value, CrushError>) -> bool {
    if args.len() != 1 {
        r == Err::<Value, CrushError>(CrushError::ArityError)
    } else if !(this is String) {
        r == Err::<Value, CrushError>(CrushError::ThisError)
    } else if !(args[0] is String) {
        r == Err::<Value, CrushError>(CrushError::TypeError)
    } else {
        let parts = split_spec(this->String_0@, args[0]->String_0@);
        r matches Ok(v) && (v matches Value::List(l) && l.element_type == ValueType::String
            && l.elements@.len() == parts.len() && (forall|q: int|
            0 <= q < parts.len() ==> ((#[trigger] l.elements@[q]) matches Value::String(t) && t@
                == parts[q])))
    }
}

/// Splits the receiver's text on the given separator, yielding a list of
/// strings.  An empty separator splits between every pair of adjacent
/// characters, with empty pieces at both ends.
#[verifier::loop_isolation(false)]
pub fn split(this: &Value, args: &Vec<Value>) -> (r: Result<Value, CrushError>)
    ensures
        split_post(*this, args@, r),
{
    if args.len() != 1 {
        return Err(CrushError::ArityError);
    }
    let s = match this {
        Value::String(s) => s,
        _ => {
            return Err(CrushError::ThisError);
        },
    };
    let sep = match &args[0] {
        Value::String(t) => t,
        _ => {
            return Err(CrushError::TypeError);
        },
    };
    let st = s.as_str();
    let sp = sep.as_str();
    let n = st.unicode_len();
    let m = sp.unicode_len();
    let mut pieces: Vec<String> = Vec::new();
    if m == 0 {
        pieces.push(String::new());
        let mut i: usize = 0;
        while i < n
            invariant
                0 <= i <= n,
                pieces@.len() == i + 1,
                piece_views(pieces@) =~= split_empty_sep(s@).take(i + 1 as int),
            decreases n - i,
        {
            let c = st.substring_char(i, i + 1);
            pieces.push(String::from_str(c));
            proof {
                assert(s@.subrange(i as int, i + 1 as int) =~= seq![s@[i as int]]);
                assert(piece_views(pieces@) =~= split_empty_sep(s@).take(i + 2 as int));
            }
            i = i + 1;
        }
        pieces.push(String::new());
        proof {
            let full = split_empty_sep(s@);
            assert forall|q: int| 0 <= q < full.len() implies piece_views(pieces@)[q] == full[q] by {
                if q < s@.len() + 1 {
                    assert(full.take(s@.len() + 1 as int)[q] == full[q]);
                }
            }
            assert(piece_views(pieces@) =~= full);
        }
    } else {
        let mut start: usize = 0;
        let mut i: usize = 0;
        while i <= n && n - i >= m
            invariant
                0 <= start <= i <= n,
                split_from(s@, sep@, 0, 0) =~= piece_views(pieces@) + split_from(
                    s@,
                    sep@,
                    start as int,
                    i as int,
                ),
            decreases n - i,
        {
            if matches_at(st, i, sp) {
                let ghost pv0 = piece_views(pieces@);
                let piece = st.substring_char(start, i);
                pieces.push(String::from_str(piece));
                proof {
                    let sub = s@.subrange(start as int, i as int);
                    let rest = split_from(s@, sep@, (i + m) as int, (i + m) as int);
                    assert(split_from(s@, sep@, start as int, i as int) == seq![sub] + rest);
                    assert(piece_views(pieces@) =~= pv0.push(sub));
                    assert(pv0.push(sub) + rest =~= pv0 + (seq![sub] + rest));
                    assert(split_from(s@, sep@, 0, 0) =~= piece_views(pieces@) + rest);
                }
                start = i + m;
                i = i + m;
            } else {
                i = i + 1;
            }
        }
        let ghost pv1 = piece_views(pieces@);
        let piece = st.substring_char(start, n);
        pieces.push(String::from_str(piece));
        proof {
            let tail = s@.subrange(start as int, n as int);
            assert(split_from(s@, sep@, start as int, i as int) == seq![tail]);
            assert(piece_views(pieces@) =~= pv1.push(tail));
            assert(pv1.push(tail) =~= pv1 + seq![tail]);
            assert(piece_views(pieces@) =~= split_from(s@, sep@, 0, 0));
        }
    }
    let mut elements: Vec<Value> = Vec::new();
    let ghost parts = split_spec(s@, sep@);
    let mut q: usize = 0;
    let plen: usize = pieces.len();
    proof {
        assert(piece_views(pieces@) =~= parts);
    }
    while pieces.len() > 0
        invariant
            q + pieces@.len() == plen,
            plen == parts.len(),
            elements@.len() == q,
            forall|x: int| 0 <= x < pieces@.len() ==> pieces@[x]@ == parts[q + x],
            forall|x: int|
                0 <= x < q ==> ((#[trigger] elements@[x]) matches Value::String(t) && t@
                    == parts[x]),
        decreases pieces@.len(),
    {
        let p = pieces.remove(0);
        elements.push(Value::String(p));
        q = q + 1;
    }
    Ok(Value::List(List { element_type: ValueType::String, elements }))
}

/// Registers the string type's methods, in declaration order.  The
/// formatting entry is run by the embedder, which owns text formatting.
pub fn declare(reg: &mut Registry) -> (r: Result<(), CrushError>)
    ensures
        r is Ok,
        final (reg).string_methods.entries@.len() == old(reg).string_methods.entries@.len() + 5,
        forall|i: int|
            0 <= i < old(reg).string_methods.entries@.len() ==> final (reg).string_methods.entries@[i] == old(reg).string_methods.entries@[i],
        ({
            let n = old(reg).string_methods.entries@.len() as int;
            let es = final (reg).string_methods.entries@;
            es[n].0@ == "upper"@ && es[n].1 == Method::StrUpper && es[n + 1].0@ == "lower"@ && es[n
                + 1].1 == Method::StrLower && es[n + 2].0@ == "format"@ && es[n + 2].1
                == Method::StrFormat && es[n + 3].0@ == "split"@ && es[n + 3].1
                == Method::StrSplit && es[n + 4].0@ == "trim"@ && es[n + 4].1 == Method::StrTrim
        }),
        final (reg).duration_methods == old(reg).duration_methods,
        final (reg).float_methods == old(reg).float_methods,
        final (reg).json_commands == old(reg).json_commands,
{
    let r1 = reg.string_methods.declare(String::from_str("upper"), Method::StrUpper);
    let r2 = reg.string_methods.declare(String::from_str("lower"), Method::StrLower);
    let r3 = reg.string_methods.declare(String::from_str("format"), Method::StrFormat);
    let r4 = reg.string_methods.declare(String::from_str("split"), Method::StrSplit);
    let r5 = reg.string_methods.declare(String::from_str("trim"), Method::StrTrim);
    match (r1, r2, r3, r4, r5) {
        (Ok(()), Ok(()), Ok(()), Ok(()), Ok(())) => Ok(()),
        _ => Ok(()),
    }
}

} // verus!
