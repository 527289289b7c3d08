//! Pattern-driven tokenizer with maximal-munch disambiguation.
//!
//! The rule table is an ordered list of prefix-anchored patterns.  On each
//! call the longest match wins; ties are broken in favour of the rule that
//! is declared earlier.  Whitespace and comments are ignored kinds: `pop`
//! never hands them to the caller.  After end-of-input, `pop` returns the
//! end sentinel forever; where no rule matches, an error token covering one
//! character is produced, so the scanner always makes forward progress.

use vstd::prelude::*;
use vstd::string::StrSliceExecFns;

verus! {

#[derive(Clone, Copy, Debug, PartialEq, Eq, Structural, Hash)]
pub enum TokenType {
    Pipe,
    Integer,
    String,
    Glob,
    ModeStart,
    ModeEnd,
    SubscriptStart,
    SubscriptEnd,
    Comment,
    Whitespace,
    QuotedString,
    Assign,
    Equal,
    NotEqual,
    GreaterThan,
    LessThan,
    GreaterThanOrEqual,
    LessThanOrEqual,
    Separator,
    Error,
    Match,
    NotMatch,
    Variable,
    Field,
    Regex,
    EOF,
}

/// Character classes used by the run-based rules.
#[derive(Clone, Copy, PartialEq, Eq, Structural)]
pub enum CharClass {
    Digit,
    Lower,
    IdentStart,
    IdentCont,
    StrStart,
    StrCont,
    GlobStart,
    GlobCont,
    NotNewline,
    Space,
}

pub open spec fn in_class(cl: CharClass, c: char) -> bool {
    let u = c as u32;
    match cl {
        CharClass::Digit => 48 <= u && u <= 57,
        CharClass::Lower => 97 <= u && u <= 122,
        CharClass::IdentStart => (97 <= u && u <= 122) || (65 <= u && u <= 90) || u == 95,
        CharClass::IdentCont => (97 <= u && u <= 122) || (65 <= u && u <= 90) || (48 <= u && u
            <= 57) || u == 95 || u == 46,
        CharClass::StrStart => (97 <= u && u <= 122) || (65 <= u && u <= 90) || u == 47 || u == 46
            || u == 95,
        CharClass::StrCont => (97 <= u && u <= 122) || (65 <= u && u <= 90) || (48 <= u && u <= 57)
            || u == 47 || u == 46 || u == 58 || u == 95 || u == 45,
        CharClass::GlobStart => (97 <= u && u <= 122) || (65 <= u && u <= 90) || u == 47 || u == 46
            || u == 95 || u == 42 || u == 63,
        CharClass::GlobCont => (97 <= u && u <= 122) || (65 <= u && u <= 90) || (48 <= u && u
            <= 57) || u == 47 || u == 46 || u == 95 || u == 45 || u == 42 || u == 63,
        CharClass::NotNewline => u != 10,
        CharClass::Space => u == 32 || u == 9 || u == 10 || u == 11 || u == 12 || u == 13 || u
            == 0x85 || u == 0xA0 || u == 0x1680 || (0x2000 <= u && u <= 0x200A) || u == 0x2028 || u
            == 0x2029 || u == 0x202F || u == 0x205F || u == 0x3000,
    }
}

pub(crate) fn class_check(cl: CharClass, c: char) -> (r: bool)
    ensures
        r == in_class(cl, c),
{
    let u = c as u32;
    match cl {
        CharClass::Digit => 48 <= u && u <= 57,
        CharClass::Lower => 97 <= u && u <= 122,
        CharClass::IdentStart => (97 <= u && u <= 122) || (65 <= u && u <= 90) || u == 95,
        CharClass::IdentCont => (97 <= u && u <= 122) || (65 <= u && u <= 90) || (48 <= u && u
            <= 57) || u == 95 || u == 46,
        CharClass::StrStart => (97 <= u && u <= 122) || (65 <= u && u <= 90) || u == 47 || u == 46
            || u == 95,
        CharClass::StrCont => (97 <= u && u <= 122) || (65 <= u && u <= 90) || (48 <= u && u <= 57)
            || u == 47 || u == 46 || u == 58 || u == 95 || u == 45,
        CharClass::GlobStart => (97 <= u && u <= 122) || (65 <= u && u <= 90) || u == 47 || u == 46
            || u == 95 || u == 42 || u == 63,
        CharClass::GlobCont => (97 <= u && u <= 122) || (65 <= u && u <= 90) || (48 <= u && u
            <= 57) || u == 47 || u == 46 || u == 95 || u == 45 || u == 42 || u == 63,
        CharClass::NotNewline => u != 10,
        CharClass::Space => u == 32 || u == 9 || u == 10 || u == 11 || u == 12 || u == 13 || u
            == 0x85 || u == 0xA0 || u == 0x1680 || (0x2000 <= u && u <= 0x200A) || u == 0x2028 || u
            == 0x2029 || u == 0x202F || u == 0x205F || u == 0x3000,
    }
}

/// Length of the run of characters of class `cl` starting at `i`.
pub open spec fn run_len(s: Seq<char>, i: int, cl: CharClass) -> nat
    decreases s.len() - i,
{
    if i < 0 || i >= s.len() || !in_class(cl, s[i]) {
        0
    } else {
        1 + run_len(s, i + 1, cl)
    }
}

/// A one-character literal rule.
pub open spec fn lit1(s: Seq<char>, i: int, c: char) -> nat {
    if 0 <= i < s.len() && s[i] == c {
        1
    } else {
        0
    }
}

/// A two-character literal rule.
pub open spec fn lit2(s: Seq<char>, i: int, c0: char, c1: char) -> nat {
    if 0 <= i && i + 1 < s.len() && s[i] == c0 && s[i + 1] == c1 {
        2
    } else {
        0
    }
}

/// A sigil (`$` or `%`) followed by an identifier.
pub open spec fn sigil_len(s: Seq<char>, i: int, mark: char) -> nat {
    if 0 <= i && i + 1 < s.len() && s[i] == mark && in_class(CharClass::IdentStart, s[i + 1]) {
        2 + run_len(s, i + 2, CharClass::IdentCont)
    } else {
        0
    }
}

/// Mode-block opener: a backtick or star before `{`, a bare `{`, or a run of
/// lowercase letters directly before `{`.
pub open spec fn mode_start_len(s: Seq<char>, i: int) -> nat {
    if 0 <= i < s.len() && (s[i] == '`' || s[i] == '*') {
        if i + 1 < s.len() && s[i + 1] == '{' {
            2
        } else {
            0
        }
    } else if 0 <= i < s.len() && s[i] == '{' {
        1
    } else {
        let k = run_len(s, i, CharClass::Lower) as int;
        if k >= 1 && i + k < s.len() && s[i + k] == '{' {
            (k + 1) as nat
        } else {
            0
        }
    }
}

/// Index of the `}` closing a regex or quote body that starts at `j`, where a
/// backslash escapes the character after it (which may not be a newline).
/// Returns -1 when no closing delimiter is reachable.
pub open spec fn body_end(s: Seq<char>, j: int, close: char) -> int
    decreases s.len() - j,
{
    if j < 0 || j >= s.len() {
        -1
    } else if s[j] == close {
        j
    } else if s[j] == '\\' {
        if j + 1 < s.len() && s[j + 1] != '\n' {
            body_end(s, j + 2, close)
        } else {
            -1
        }
    } else {
        body_end(s, j + 1, close)
    }
}

proof fn lemma_body_end_bound(s: Seq<char>, j: int, close: char)
    requires
        0 <= j,
    ensures
        body_end(s, j, close) == -1 || (j <= body_end(s, j, close) < s.len() && s[body_end(
            s,
            j,
            close,
        )] == close),
    decreases s.len() - j,
{
    if j < s.len() && s[j] != close {
        if s[j] == '\\' {
            if j + 1 < s.len() && s[j + 1] != '\n' {
                lemma_body_end_bound(s, j + 2, close);
            }
        } else {
            lemma_body_end_bound(s, j + 1, close);
        }
    }
}

/// `r{...}` with at least one unit between the braces.
pub open spec fn regex_len(s: Seq<char>, i: int) -> nat {
    if 0 <= i && i + 1 < s.len() && s[i] == 'r' && s[i + 1] == '{' {
        let e = body_end(s, i + 2, '}');
        if e > i + 2 {
            (e - i + 1) as nat
        } else {
            0
        }
    } else {
        0
    }
}

/// `"..."` with zero or more units between the quotes.
pub open spec fn quoted_len(s: Seq<char>, i: int) -> nat {
    if 0 <= i < s.len() && s[i] == '"' {
        let e = body_end(s, i + 1, '"');
        if e >= i + 1 {
            (e - i + 1) as nat
        } else {
            0
        }
    } else {
        0
    }
}

pub open spec fn string_len(s: Seq<char>, i: int) -> nat {
    if 0 <= i < s.len() && in_class(CharClass::StrStart, s[i]) {
        1 + run_len(s, i + 1, CharClass::StrCont)
    } else {
        0
    }
}

pub open spec fn glob_len(s: Seq<char>, i: int) -> nat {
    if 0 <= i < s.len() && in_class(CharClass::GlobStart, s[i]) {
        1 + run_len(s, i + 1, CharClass::GlobCont)
    } else {
        0
    }
}

pub open spec fn comment_len(s: Seq<char>, i: int) -> nat {
    if 0 <= i < s.len() && s[i] == '#' {
        1 + run_len(s, i + 1, CharClass::NotNewline)
    } else {
        0
    }
}

pub open spec fn ws_len(s: Seq<char>, i: int) -> nat {
    run_len(s, i, CharClass::Space)
}

/// The fallback rule: any single character except a newline.
pub open spec fn error_len(s: Seq<char>, i: int) -> nat {
    if 0 <= i < s.len() && s[i] != '\n' {
        1
    } else {
        0
    }
}

/// Keep the longer match; on a tie keep the rule declared earlier.
pub open spec fn pick(b: (TokenType, nat), k: TokenType, l: nat) -> (TokenType, nat) {
    if l > b.1 {
        (k, l)
    } else {
        b
    }
}

/// The rule table in declaration order: the winning kind and match length at
/// position `i`, or length 0 when no rule matches.
pub open spec fn best_match_spec(s: Seq<char>, i: int) -> (TokenType, nat) {
    let b = (TokenType::Error, 0nat);
    let b = pick(b, TokenType::Separator, lit1(s, i, ';'));
    let b = pick(b, TokenType::Pipe, lit1(s, i, '|'));
    let b = pick(b, TokenType::Assign, lit1(s, i, '='));
    let b = pick(b, TokenType::Equal, lit2(s, i, '=', '='));
    let b = pick(b, TokenType::LessThan, lit1(s, i, '<'));
    let b = pick(b, TokenType::LessThanOrEqual, lit2(s, i, '<', '='));
    let b = pick(b, TokenType::GreaterThan, lit1(s, i, '>'));
    let b = pick(b, TokenType::GreaterThanOrEqual, lit2(s, i, '>', '='));
    let b = pick(b, TokenType::NotEqual, lit2(s, i, '!', '='));
    let b = pick(b, TokenType::Match, lit2(s, i, '=', '~'));
    let b = pick(b, TokenType::NotMatch, lit2(s, i, '!', '~'));
    let b = pick(b, TokenType::Integer, run_len(s, i, CharClass::Digit));
    let b = pick(b, TokenType::Variable, sigil_len(s, i, '$'));
    let b = pick(b, TokenType::Field, sigil_len(s, i, '%'));
    let b = pick(b, TokenType::ModeStart, mode_start_len(s, i));
    let b = pick(b, TokenType::ModeEnd, lit1(s, i, '}'));
    let b = pick(b, TokenType::SubscriptStart, lit1(s, i, '['));
    let b = pick(b, TokenType::SubscriptEnd, lit1(s, i, ']'));
    let b = pick(b, TokenType::Regex, regex_len(s, i));
    let b = pick(b, TokenType::String, string_len(s, i));
    let b = pick(b, TokenType::Glob, glob_len(s, i));
    let b = pick(b, TokenType::Comment, comment_len(s, i));
    let b = pick(b, TokenType::Whitespace, ws_len(s, i));
    let b = pick(b, TokenType::QuotedString, quoted_len(s, i));
    let b = pick(b, TokenType::Error, error_len(s, i));
    b
}

/// One scanning step: the token kind produced at `i` and the position after
/// it.  Where no rule matches, an error token covering one character.
pub open spec fn scan_step(s: Seq<char>, i: int) -> (TokenType, int) {
    let b = best_match_spec(s, i);
    if b.1 == 0 {
        (TokenType::Error, i + 1)
    } else {
        (b.0, i + b.1 as int)
    }
}

pub open spec fn is_ignored(k: TokenType) -> bool {
    k == TokenType::Whitespace || k == TokenType::Comment
}

/// The next significant token from position `i`: its kind, start, and end.
/// Ignored kinds are skipped; at end-of-input the end sentinel is produced.
pub open spec fn next_tok(s: Seq<char>, i: int) -> (TokenType, int, int)
    decreases s.len() - i,
{
    if i < 0 || i >= s.len() {
        (TokenType::EOF, i, i)
    } else {
        let step = scan_step(s, i);
        if is_ignored(step.0) && i < step.1 <= s.len() {
            next_tok(s, step.1)
        } else {
            (step.0, i, step.1)
        }
    }
}

pub struct Lexer {
    pub input: Vec<char>,
    pub pos: usize,
}

fn lit1_x(v: &Vec<char>, i: usize, c: char) -> (l: usize)
    requires
        i <= v@.len(),
    ensures
        l as nat == lit1(v@, i as int, c),
        i + l <= v@.len(),
{
    if i < v.len() && v[i] == c {
        1
    } else {
        0
    }
}

fn lit2_x(v: &Vec<char>, i: usize, c0: char, c1: char) -> (l: usize)
    requires
        i <= v@.len(),
    ensures
        l as nat == lit2(v@, i as int, c0, c1),
        i + l <= v@.len(),
{
    if i < v.len() && i + 1 < v.len() && v[i] == c0 && v[i + 1] == c1 {
        2
    } else {
        0
    }
}

fn run_len_x(v: &Vec<char>, i: usize, cl: CharClass) -> (l: usize)
    requires
        i <= v@.len(),
    ensures
        l as nat == run_len(v@, i as int, cl),
        i + l <= v@.len(),
{
    let mut j = i;
    while j < v.len() && class_check(cl, v[j])
        invariant
            i <= j <= v@.len(),
            run_len(v@, i as int, cl) == (j - i) + run_len(v@, j as int, cl),
        decreases v@.len() - j,
    {
        j = j + 1;
    }
    j - i
}

fn sigil_len_x(v: &Vec<char>, i: usize, mark: char) -> (l: usize)
    requires
        i <= v@.len(),
    ensures
        l as nat == sigil_len(v@, i as int, mark),
        i + l <= v@.len(),
{
    if i < v.len() && i + 1 < v.len() && v[i] == mark && class_check(CharClass::IdentStart, v[i + 1]) {
        2 + run_len_x(v, i + 2, CharClass::IdentCont)
    } else {
        0
    }
}

fn mode_start_len_x(v: &Vec<char>, i: usize) -> (l: usize)
    requires
        i <= v@.len(),
    ensures
        l as nat == mode_start_len(v@, i as int),
        i + l <= v@.len(),
{
    if i < v.len() && (v[i] == '`' || v[i] == '*') {
        if i + 1 < v.len() && v[i + 1] == '{' {
            2
        } else {
            0
        }
    } else if i < v.len() && v[i] == '{' {
        1
    } else {
        let k = run_len_x(v, i, CharClass::Lower);
        if k >= 1 && i + k < v.len() && v[i + k] == '{' {
            k + 1
        } else {
            0
        }
    }
}

fn body_end_x(v: &Vec<char>, start: usize, close: char) -> (e: Option<usize>)
    requires
        start <= v@.len(),
    ensures
        match e {
            Some(ix) => body_end(v@, start as int, close) == ix as int && start <= ix
                < v@.len(),
            None => body_end(v@, start as int, close) == -1,
        },
{
    let mut j = start;
    loop
        invariant
            start <= j <= v@.len(),
            body_end(v@, start as int, close) == body_end(v@, j as int, close),
        decreases v@.len() - j,
    {
        if j >= v.len() {
            return None;
        }
        if v[j] == close {
            proof {
                lemma_body_end_bound(v@, j as int, close);
            }
            return Some(j);
        }
        if v[j] == '\\' {
            if j + 1 < v.len() && v[j + 1] != '\n' {
                j = j + 2;
            } else {
                return None;
            }
        } else {
            j = j + 1;
        }
    }
}

fn regex_len_x(v: &Vec<char>, i: usize) -> (l: usize)
    requires
        i <= v@.len(),
    ensures
        l as nat == regex_len(v@, i as int),
        i + l <= v@.len(),
{
    if i < v.len() && i + 1 < v.len() && v[i] == 'r' && v[i + 1] == '{' {
        match body_end_x(v, i + 2, '}') {
            Some(e) => {
                if e > i + 2 {
                    e - i + 1
                } else {
                    0
                }
            },
            None => 0,
        }
    } else {
        0
    }
}

fn quoted_len_x(v: &Vec<char>, i: usize) -> (l: usize)
    requires
        i <= v@.len(),
    ensures
        l as nat == quoted_len(v@, i as int),
        i + l <= v@.len(),
{
    if i < v.len() && v[i] == '"' {
        match body_end_x(v, i + 1, '"') {
            Some(e) => e - i + 1,
            None => 0,
        }
    } else {
        0
    }
}

fn string_len_x(v: &Vec<char>, i: usize) -> (l: usize)
    requires
        i <= v@.len(),
    ensures
        l as nat == string_len(v@, i as int),
        i + l <= v@.len(),
{
    if i < v.len() && class_check(CharClass::StrStart, v[i]) {
        1 + run_len_x(v, i + 1, CharClass::StrCont)
    } else {
        0
    }
}

fn glob_len_x(v: &Vec<char>, i: usize) -> (l: usize)
    requires
        i <= v@.len(),
    ensures
        l as nat == glob_len(v@, i as int),
        i + l <= v@.len(),
{
    if i < v.len() && class_check(CharClass::GlobStart, v[i]) {
        1 + run_len_x(v, i + 1, CharClass::GlobCont)
    } else {
        0
    }
}

fn comment_len_x(v: &Vec<char>, i: usize) -> (l: usize)
    requires
        i <= v@.len(),
    ensures
        l as nat == comment_len(v@, i as int),
        i + l <= v@.len(),
{
    if i < v.len() && v[i] == '#' {
        1 + run_len_x(v, i + 1, CharClass::NotNewline)
    } else {
        0
    }
}

fn error_len_x(v: &Vec<char>, i: usize) -> (l: usize)
    requires
        i <= v@.len(),
    ensures
        l as nat == error_len(v@, i as int),
        i + l <= v@.len(),
{
    if i < v.len() && v[i] != '\n' {
        1
    } else {
        0
    }
}

/// Copies `v[from..to]` into a fresh vector.
fn copy_range(v: &Vec<char>, from: usize, to: usize) -> (r: Vec<char>)
    requires
        from <= to <= v@.len(),
    ensures
        r@ == v@.subrange(from as int, to as int),
{
    let mut r: Vec<char> = Vec::new();
    let mut j = from;
    while j < to
        invariant
            from <= j <= to <= v@.len(),
            r@ == v@.subrange(from as int, j as int),
        decreases to - j,
    {
        r.push(v[j]);
        proof {
            assert(r@ =~= v@.subrange(from as int, j + 1 as int));
        }
        j = j + 1;
    }
    r
}

impl Lexer {
    pub open spec fn wf(self) -> bool {
        self.pos <= self.input@.len()
    }

    /// Builds a tokenizer over a copy of the input text, positioned at its
    /// start.
    pub fn new(input: &String) -> (l: Lexer)
        ensures
            l.wf(),
            l.input@ == input@,
            l.pos == 0,
    {
        let s = input.as_str();
        let n = s.unicode_len();
        let mut v: Vec<char> = Vec::new();
        let mut i: usize = 0;
        while i < n
            invariant
                i <= n,
                n == s@.len(),
                s@ == input@,
                v@ == s@.subrange(0, i as int),
            decreases n - i,
        {
            v.push(s.get_char(i));
            proof {
                assert(v@ =~= s@.subrange(0, i + 1 as int));
            }
            i = i + 1;
        }
        proof {
            assert(v@ =~= input@);
        }
        Lexer { input: v, pos: 0 }
    }

    /// Evaluates every rule at the current position and keeps the longest
    /// match, ties going to the rule declared earliest.
    fn best_match(&self) -> (b: (TokenType, usize))
        requires
            self.wf(),
        ensures
            (b.0, b.1 as nat) == best_match_spec(self.input@, self.pos as int),
            self.pos + b.1 <= self.input@.len(),
    {
        let v = &self.input;
        let i = self.pos;
        let mut bk = TokenType::Error;
        let mut bl: usize = 0;
        let l = lit1_x(v, i, ';');
        if l > bl {
            bk = TokenType::Separator;
            bl = l;
        }
        let l = lit1_x(v, i, '|');
        if l > bl {
            bk = TokenType::Pipe;
            bl = l;
        }
        let l = lit1_x(v, i, '=');
        if l > bl {
            bk = TokenType::Assign;
            bl = l;
        }
        let l = lit2_x(v, i, '=', '=');
        if l > bl {
            bk = TokenType::Equal;
            bl = l;
        }
        let l = lit1_x(v, i, '<');
        if l > bl {
            bk = TokenType::LessThan;
            bl = l;
        }
        let l = lit2_x(v, i, '<', '=');
        if l > bl {
            bk = TokenType::LessThanOrEqual;
            bl = l;
        }
        let l = lit1_x(v, i, '>');
        if l > bl {
            bk = TokenType::GreaterThan;
            bl = l;
        }
        let l = lit2_x(v, i, '>', '=');
        if l > bl {
            bk = TokenType::GreaterThanOrEqual;
            bl = l;
        }
        let l = lit2_x(v, i, '!', '=');
        if l > bl {
            bk = TokenType::NotEqual;
            bl = l;
        }
        let l = lit2_x(v, i, '=', '~');
        if l > bl {
            bk = TokenType::Match;
            bl = l;
        }
        let l = lit2_x(v, i, '!', '~');
        if l > bl {
            bk = TokenType::NotMatch;
            bl = l;
        }
        let l = run_len_x(v, i, CharClass::Digit);
        if l > bl {
            bk = TokenType::Integer;
            bl = l;
        }
        let l = sigil_len_x(v, i, '$');
        if l > bl {
            bk = TokenType::Variable;
            bl = l;
        }
        let l = sigil_len_x(v, i, '%');
        if l > bl {
            bk = TokenType::Field;
            bl = l;
        }
        let l = mode_start_len_x(v, i);
        if l > bl {
            bk = TokenType::ModeStart;
            bl = l;
        }
        let l = lit1_x(v, i, '}');
        if l > bl {
            bk = TokenType::ModeEnd;
            bl = l;
        }
        let l = lit1_x(v, i, '[');
        if l > bl {
            bk = TokenType::SubscriptStart;
            bl = l;
        }
        let l = lit1_x(v, i, ']');
        if l > bl {
            bk = TokenType::SubscriptEnd;
            bl = l;
        }
        let l = regex_len_x(v, i);
        if l > bl {
            bk = TokenType::Regex;
            bl = l;
        }
        let l = string_len_x(v, i);
        if l > bl {
            bk = TokenType::String;
            bl = l;
        }
        let l = glob_len_x(v, i);
        if l > bl {
            bk = TokenType::Glob;
            bl = l;
        }
        let l = comment_len_x(v, i);
        if l > bl {
            bk = TokenType::Comment;
            bl = l;
        }
        let l = run_len_x(v, i, CharClass::Space);
        if l > bl {
            bk = TokenType::Whitespace;
            bl = l;
        }
        let l = quoted_len_x(v, i);
        if l > bl {
            bk = TokenType::QuotedString;
            bl = l;
        }
        let l = error_len_x(v, i);
        if l > bl {
            bk = TokenType::Error;
            bl = l;
        }
        (bk, bl)
    }

    /// Produces the next significant token and its lexeme, advancing past it.
    ///
    /// Matches of ignored kinds (whitespace, comments) are skipped, so no
    /// such token is ever returned; after end-of-input the end sentinel is
    /// returned forever with an empty lexeme, the position unchanged.
    pub fn pop(&mut self) -> (t: (TokenType, Vec<char>))
        requires
            old(self).wf(),
        ensures
            final(self).wf(),
            final(self).input == old(self).input,
            ({
                let (k, st, en) = next_tok(old(self).input@, old(self).pos as int);
                t.0 == k && t.1@ == old(self).input@.subrange(st, en) && final(self).pos == en
            }),
            !is_ignored(t.0),
            old(self).pos == old(self).input@.len() ==> t.0 == TokenType::EOF && final(self).pos
                == old(self).pos,
    {
        loop
            invariant
                self.wf(),
                self.input == old(self).input,
                next_tok(self.input@, self.pos as int) == next_tok(
                    old(self).input@,
                    old(self).pos as int,
                ),
                old(self).pos == old(self).input@.len() ==> self.pos == old(self).pos,
            decreases self.input@.len() - self.pos,
        {
            if self.pos >= self.input.len() {
                let r: Vec<char> = Vec::new();
                proof {
                    assert(r@ =~= self.input@.subrange(self.pos as int, self.pos as int));
                }
                return (TokenType::EOF, r);
            }
            let (k, l) = self.best_match();
            let kind = if l == 0 {
                TokenType::Error
            } else {
                k
            };
            let newpos = if l == 0 {
                self.pos + 1
            } else {
                self.pos + l
            };
            let ignored = match kind {
                TokenType::Whitespace => true,
                TokenType::Comment => true,
                _ => false,
            };
            if !ignored {
                let lex = copy_range(&self.input, self.pos, newpos);
                let res = (kind, lex);
                self.pos = newpos;
                return res;
            }
            self.pos = newpos;
        }
    }
}

/// After end-of-input the scanner is in a terminal state: the next token is
/// always the end sentinel and the position does not move.
pub proof fn lemma_end_of_input_terminal(s: Seq<char>, i: int)
    requires
        i >= s.len(),
    ensures
        next_tok(s, i) == (TokenType::EOF, i, i),
{
}

/// Maximal munch: a two-character operator that shares its first character
/// with a one-character operator is scanned as one token of the longer kind.
pub proof fn lemma_maximal_munch(s: Seq<char>, i: int)
    requires
        0 <= i,
        i + 2 <= s.len(),
    ensures
        s[i] == '=' && s[i + 1] == '=' ==> next_tok(s, i) == (TokenType::Equal, i, i + 2),
        s[i] == '<' && s[i + 1] == '=' ==> next_tok(s, i) == (TokenType::LessThanOrEqual, i, i + 2),
        s[i] == '>' && s[i + 1] == '=' ==> next_tok(s, i) == (
            TokenType::GreaterThanOrEqual,
            i,
            i + 2,
        ),
        s[i] == '!' && s[i + 1] == '=' ==> next_tok(s, i) == (TokenType::NotEqual, i, i + 2),
        s[i] == '=' && s[i + 1] == '~' ==> next_tok(s, i) == (TokenType::Match, i, i + 2),
        s[i] == '!' && s[i + 1] == '~' ==> next_tok(s, i) == (TokenType::NotMatch, i, i + 2),
{
}

} // verus!
