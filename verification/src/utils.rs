//! Character classes, substrings and diagnostics.

use std::rc::Rc;
use vstd::prelude::*;
use vstd::string::*;

verus! {

/// Whether `c` is a decimal digit.
pub open spec fn digit(c: char) -> bool {
    '0' <= c && c <= '9'
}

/// Whether `c` is an ASCII letter or an underscore.
pub open spec fn alpha(c: char) -> bool {
    ('a' <= c && c <= 'z') || ('A' <= c && c <= 'Z') || c == '_'
}

/// Whether `c` is a decimal digit.
pub fn is_digit(c: char) -> (r: bool)
    ensures
        r == digit(c),
{
    c >= '0' && c <= '9'
}

/// Whether `c` can begin a name: an ASCII letter or an underscore.
pub fn is_alpha(c: char) -> (r: bool)
    ensures
        r == alpha(c),
{
    (c >= 'a' && c <= 'z') || (c >= 'A' && c <= 'Z') || c == '_'
}

/// Whether `c` can stand inside a name.
pub fn is_alphanumeric(c: char) -> (r: bool)
    ensures
        r == (alpha(c) || digit(c)),
{
    is_alpha(c) || is_digit(c)
}

/// The characters of `string` from position `a` up to `b`, counted in
/// characters and cut off at the end of the text.
pub open spec fn slice(s: Seq<char>, a: int, b: int) -> Seq<char> {
    if a >= b || a >= s.len() {
        Seq::empty()
    } else if b >= s.len() {
        s.subrange(a, s.len() as int)
    } else {
        s.subrange(a, b)
    }
}

/// The characters of `string` from position `a` up to `b`.
pub fn substring(string: &String, a: usize, b: usize) -> (r: String)
    ensures
        r@ == slice(string@, a as int, b as int),
{
    let text = string.as_str();
    let n = text.unicode_len();
    if a >= b || a >= n {
        String::new()
    } else if b >= n {
        String::from_str(text.substring_char(a, n))
    } else {
        String::from_str(text.substring_char(a, b))
    }
}

/// Another handle on the same shared value.
///
/// Trusted: `Rc::clone` of std, which hands out a second pointer to the same
/// allocation, so what it points to is the value that `r` points to.
#[verifier::external_body]
pub(crate) fn share<T>(r: &Rc<T>) -> (res: Rc<T>)
    ensures
        res == *r,
{
    Rc::clone(r)
}

/// Which part of the system speaks in a diagnostic.
#[derive(Clone, Copy, Debug, PartialEq, Eq, Structural)]
pub enum Severity {
    /// A lexical error, labelled "error".
    Error,
    /// An execution error, labelled "runtime error".
    RuntimeError,
}

/// A diagnostic as contracts see it.
pub struct Report {
    pub severity: Severity,
    pub source: Seq<char>,
    pub message: Seq<char>,
    pub pos: int,
    pub len: int,
    pub line: int,
}

/// What a report needs: a message anchored to a span of the source text.
#[derive(Debug)]
pub struct Diagnostic {
    pub severity: Severity,
    pub source: Rc<String>,
    pub message: String,
    /// Column of the span's first character within its line.
    pub pos: usize,
    /// Length of the span in characters.
    pub len: usize,
    /// Zero-based line number.
    pub line: usize,
}

impl View for Diagnostic {
    type V = Report;

    open spec fn view(&self) -> Report {
        Report {
            severity: self.severity,
            source: self.source@,
            message: self.message@,
            pos: self.pos as int,
            len: self.len as int,
            line: self.line as int,
        }
    }
}

/// The diagnostics as contracts see them.
pub open spec fn accounts(ds: Seq<Diagnostic>) -> Seq<Report> {
    ds.map_values(|d: Diagnostic| d@)
}

impl Diagnostic {
    /// Whether this diagnostic carries exactly the given parts.
    pub open spec fn is(
        self,
        severity: Severity,
        source: Rc<String>,
        message: Seq<char>,
        pos: usize,
        len: usize,
        line: usize,
    ) -> bool {
        &&& self.severity == severity
        &&& self.source == source
        &&& self.message@ == message
        &&& self.pos == pos
        &&& self.len == len
        &&& self.line == line
    }

    /// The label that opens the printed report.
    pub fn label(&self) -> (r: &'static str)
        ensures
            self.severity == Severity::Error ==> r@ == "error"@,
            self.severity == Severity::RuntimeError ==> r@ == "runtime error"@,
    {
        match self.severity {
            Severity::Error => "error",
            Severity::RuntimeError => "runtime error",
        }
    }
}

/// A diagnostic of the given severity about a span of `source`.
pub fn report(source: &Rc<String>, msg: &str, severity: Severity, pos: usize, len: usize, line: usize) -> (r: Diagnostic)
    ensures
        r.is(severity, *source, msg@, pos, len, line),
{
    Diagnostic { severity, source: share(source), message: String::from_str(msg), pos, len, line }
}

/// A lexical error about a span of `source`.
pub fn error(source: &Rc<String>, msg: &str, pos: usize, len: usize, line: usize) -> (r: Diagnostic)
    ensures
        r.is(Severity::Error, *source, msg@, pos, len, line),
{
    report(source, msg, Severity::Error, pos, len, line)
}

/// An execution error about a span of `source`.
pub fn runtime_error(source: &Rc<String>, msg: &str, pos: usize, len: usize, line: usize) -> (r: Diagnostic)
    ensures
        r.is(Severity::RuntimeError, *source, msg@, pos, len, line),
{
    report(source, msg, Severity::RuntimeError, pos, len, line)
}

/// The lines shown around line `line` of a text of `count` lines: at most
/// five, the reported line in the middle where the text allows it.
pub open spec fn window_of(count: int, line: int) -> (int, int) {
    if count < 5 {
        (0, count)
    } else if line <= 2 {
        (0, 5)
    } else if line >= count - 3 {
        (count - 5, count)
    } else {
        (line - 2, line + 3)
    }
}

/// First and one-past-last line of the excerpt of a report.
pub fn window(count: usize, line: usize) -> (r: (usize, usize))
    ensures
        (r.0 as int, r.1 as int) == window_of(count as int, line as int),
        r.0 <= r.1 <= count,
        r.1 - r.0 <= 5,
{
    if count < 5 {
        (0, count)
    } else if line <= 2 {
        (0, 5)
    } else if line >= count - 3 {
        (count - 5, count)
    } else {
        (line - 2, line + 3)
    }
}

/// The least number of decimal places, at least one, whose power of ten
/// reaches `n`.
pub open spec fn places(n: nat) -> nat
    decreases n,
{
    if n <= 10 {
        1
    } else {
        1 + places((n + 9) / 10)
    }
}

/// Width of the line-number column of an excerpt that ends before line `last`.
pub fn number_width(last: usize) -> (r: usize)
    ensures
        r == places(last as nat),
{
    let mut rest: usize = last;
    let mut width: usize = 1;
    while rest > 10
        invariant
            width >= 1,
            width + rest <= last + 1,
            places(last as nat) == width - 1 + places(rest as nat),
        decreases rest,
    {
        rest = rest / 10 + (if rest % 10 == 0 { 0 } else { 1 });
        width = width + 1;
    }
    width
}

} // verus!
