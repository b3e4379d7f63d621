//! The scanner: from source text to code.

use crate::tokens::{bindings, shapes, Code, Kind, Label, Shape, Token, TokenShape, TokenType};
use crate::utils::{
    accounts, alpha, digit, error, is_alpha, is_digit, share, slice, substring, Diagnostic, Report, Severity,
};
use std::rc::Rc;
use vstd::prelude::*;
use vstd::string::*;

verus! {

/// Where a quoted run that is read from `at` stops: at the first `ch` that no
/// backslash stands before, or at the end of the text. `escaped` says whether
/// the character before `at` was such a backslash.
pub open spec fn quoted_end(s: Seq<char>, at: int, ch: char, escaped: bool) -> int
    decreases s.len() - at,
{
    if at < 0 || at >= s.len() {
        s.len() as int
    } else if s[at] == ch && !escaped {
        at
    } else {
        quoted_end(s, at + 1, ch, s[at] == '\\' && !escaped)
    }
}

/// Where a run of digits (or, with `names`, of letters, digits and
/// underscores) that is read from `at` stops.
pub open spec fn run_end(s: Seq<char>, at: int, names: bool) -> int
    decreases s.len() - at,
{
    if at < 0 || at >= s.len() {
        s.len() as int
    } else if digit(s[at]) || (names && alpha(s[at])) {
        run_end(s, at + 1, names)
    } else {
        at
    }
}

/// The first `}` from `at` on, or the end of the text.
pub open spec fn block_end(s: Seq<char>, at: int) -> int
    decreases s.len() - at,
{
    if at < 0 || at >= s.len() {
        s.len() as int
    } else if s[at] == '}' {
        at
    } else {
        block_end(s, at + 1)
    }
}

/// The number that a run of decimal digits writes.
pub open spec fn number_of(s: Seq<char>) -> nat
    decreases s.len(),
{
    if s.len() == 0 {
        0
    } else {
        number_of(s.drop_last()) * 10 + (s.last() as nat - '0' as nat) as nat
    }
}

/// The operator that a punctuation mark stands for.
pub open spec fn operator_of(c: char) -> Option<TokenType> {
    if c == ',' {
        Some(TokenType::Comma)
    } else if c == '.' {
        Some(TokenType::Dot)
    } else if c == ';' {
        Some(TokenType::Semicolon)
    } else if c == '@' {
        Some(TokenType::At)
    } else if c == '?' {
        Some(TokenType::Question)
    } else if c == '~' {
        Some(TokenType::Tilde)
    } else if c == '=' {
        Some(TokenType::Equal)
    } else if c == '*' {
        Some(TokenType::Star)
    } else if c == '%' {
        Some(TokenType::Mod)
    } else if c == '^' {
        Some(TokenType::Jump)
    } else if c == ':' {
        Some(TokenType::Colon)
    } else if c == '+' {
        Some(TokenType::Plus)
    } else if c == '|' {
        Some(TokenType::Or)
    } else if c == '&' {
        Some(TokenType::And)
    } else if c == '-' {
        Some(TokenType::Minus)
    } else if c == '!' {
        Some(TokenType::Bang)
    } else if c == '<' {
        Some(TokenType::Less)
    } else if c == '>' {
        Some(TokenType::Greater)
    } else if c == '/' {
        Some(TokenType::Slash)
    } else if c == '#' {
        Some(TokenType::Hash)
    } else if c == '$' {
        Some(TokenType::Print)
    } else {
        None
    }
}

/// The end functions stay within the text.
pub proof fn ends_are_bounded(s: Seq<char>, at: int, ch: char, escaped: bool, names: bool)
    requires
        0 <= at <= s.len(),
    ensures
        at <= quoted_end(s, at, ch, escaped) <= s.len(),
        at <= run_end(s, at, names) <= s.len(),
        at <= block_end(s, at) <= s.len(),
    decreases s.len() - at,
{
    if at < s.len() {
        ends_are_bounded(s, at + 1, ch, s[at] == '\\' && !escaped, names);
    }
}

/// The state of a pass as contracts see it.
pub struct Pass {
    /// The position of the next character to read.
    pub curr: int,
    /// The zero-based number of the line that `curr` is on.
    pub line: int,
    /// Where that line begins.
    pub line_start: int,
    pub tokens: Seq<TokenShape>,
    pub labels: Seq<(Seq<char>, int)>,
    pub errors: Seq<Report>,
}

/// What a scan gives: the code and what was wrong with the text.
pub struct Lexed {
    pub code: Shape,
    pub errors: Seq<Report>,
}

/// The column of position `at` in the line that begins at `line_start`; zero
/// for a position on an earlier line.
pub open spec fn column(at: int, line_start: int) -> int {
    if at >= line_start {
        at - line_start
    } else {
        0
    }
}

impl Pass {
    /// The state before anything is read.
    pub open spec fn start() -> Pass {
        Pass { curr: 0, line: 0, line_start: 0, tokens: Seq::empty(), labels: Seq::empty(), errors: Seq::empty() }
    }

    /// This state after the character at `curr` is read, inside a literal or
    /// a block: a line feed begins a new line.
    pub open spec fn read(self, text: Seq<char>) -> Pass {
        if 0 <= self.curr < text.len() && text[self.curr] == '\n' {
            Pass { curr: self.curr + 1, line: self.line + 1, line_start: self.curr + 1, ..self }
        } else {
            Pass { curr: self.curr + 1, ..self }
        }
    }

    /// This state after all characters before `to` are read.
    pub open spec fn read_to(self, text: Seq<char>, to: int) -> Pass
        decreases to - self.curr,
    {
        if self.curr >= to {
            self
        } else {
            self.read(text).read_to(text, to)
        }
    }

    /// This state with one more token, whose lexeme began at `from` and ends
    /// before `curr`.
    pub open spec fn with_token(self, text: Seq<char>, kind: Kind, from: int) -> Pass {
        Pass {
            tokens: self.tokens.push(
                TokenShape {
                    source: text,
                    kind,
                    lexeme: slice(text, from, self.curr),
                    pos: column(from, self.line_start),
                    end: column(self.curr, self.line_start),
                    line: self.line,
                },
            ),
            ..self
        }
    }

    /// This state with one more error, about the lexeme that began at `from`
    /// and ends before `curr`.
    pub open spec fn with_error(self, text: Seq<char>, message: Seq<char>, from: int) -> Pass {
        Pass {
            errors: self.errors.push(
                Report {
                    severity: Severity::Error,
                    source: text,
                    message,
                    pos: column(from, self.line_start),
                    len: self.curr - from,
                    line: self.line,
                },
            ),
            ..self
        }
    }
}

/// The state after a quoted run that began at `at` with its opening mark:
/// with `closed`, at its closing mark `ch`, the state goes on behind it;
/// else the text is read to its end and an error is added.
pub open spec fn lex_quoted(text: Seq<char>, p: Pass, ch: char) -> Pass {
    let at = p.curr;
    let e = quoted_end(text, at + 1, ch, false);
    let r = (Pass { curr: at + 1, ..p }).read_to(text, e);
    if e < text.len() {
        Pass { curr: e + 1, ..r }
    } else {
        r.with_error(text, "Unterminated string"@, at)
    }
}

/// The state after a number that begins at `p.curr`.
pub open spec fn lex_number(text: Seq<char>, p: Pass) -> Pass {
    let at = p.curr;
    let d = run_end(text, at + 1, false);
    if d < text.len() && text[d] == '.' {
        if d + 1 < text.len() && digit(text[d + 1]) {
            (Pass { curr: run_end(text, d + 1, false), ..p }).with_token(text, Kind::Float, at)
        } else {
            (Pass { curr: d + 1, ..p }).with_error(text, "Expecting digits after decimal point"@, at).with_token(
                text,
                Kind::Float,
                at,
            )
        }
    } else {
        let r = Pass { curr: d, ..p };
        let n = number_of(slice(text, at, d));
        if n <= i64::MAX {
            r.with_token(text, Kind::Int(n as i64), at)
        } else {
            r.with_error(text, "Integer literal out of range"@, at)
        }
    }
}

/// The state after the lexeme that begins at `p.curr` is read.
pub open spec fn lex_one(text: Seq<char>, p: Pass) -> Pass
    decreases text.len(), 0int, 0int,
{
    let at = p.curr;
    let c = text[at];
    let q = Pass { curr: at + 1, ..p };
    if operator_of(c) is Some {
        q.with_token(text, Kind::Operator(operator_of(c)->Some_0), at)
    } else if c == '"' {
        let e = quoted_end(text, at + 1, '"', false);
        let r = lex_quoted(text, p, '"');
        if e < text.len() {
            r.with_token(text, Kind::Text(slice(text, at + 1, e)), at)
        } else {
            r
        }
    } else if c == '[' {
        let e = quoted_end(text, at + 1, ']', false);
        let r = lex_quoted(text, p, ']');
        if e >= text.len() {
            r
        } else if r.tokens.len() == 0 {
            r.with_error(text, "Label before any token"@, at)
        } else {
            Pass { labels: r.labels.push((slice(text, at + 1, e), r.tokens.len() - 1)), ..r }
        }
    } else if c == ' ' || c == '\r' || c == '\t' {
        q
    } else if c == '\n' {
        Pass { line: p.line + 1, line_start: at + 1, ..q }
    } else if c == '{' {
        let e = block_end(text, at + 1);
        let r = q.read_to(text, e);
        let inner = slice(text, at + 1, e);
        if e >= text.len() {
            r.with_error(text, "Unterminated code block"@, at)
        } else if inner.len() < text.len() {
            let nested = lex_text(inner);
            (Pass { curr: e + 1, errors: r.errors + nested.errors, ..r }).with_token(
                text,
                Kind::Block(nested.code),
                e + 1,
            )
        } else {
            r
        }
    } else if digit(c) {
        lex_number(text, p)
    } else if alpha(c) {
        (Pass { curr: run_end(text, at + 1, true), ..p }).with_token(text, Kind::Identifier, at)
    } else {
        q.with_error(text, "Unexpected character"@, at)
    }
}

/// The state after the rest of the text is read, lexeme by lexeme.
pub open spec fn lex_all(text: Seq<char>, p: Pass) -> Pass
    decreases text.len(), 1int, text.len() - p.curr,
{
    if p.curr < 0 || p.curr >= text.len() {
        p
    } else {
        let n = lex_one(text, p);
        if p.curr < n.curr <= text.len() {
            lex_all(text, n)
        } else {
            n
        }
    }
}

/// The closing token of the code of `text`, whose last line is `line`.
pub open spec fn closing(text: Seq<char>, line: int) -> TokenShape {
    TokenShape { source: text, kind: Kind::End, lexeme: Seq::empty(), pos: 0, end: 1, line }
}

/// Every token of `code` refers to `text` as its source.
pub open spec fn scanned_from(code: &Code, text: Seq<char>) -> bool {
    forall|k: int| 0 <= k < code.tokens@.len() ==> (#[trigger] code.tokens@[k]).source@ == text
}

/// What scanning `text` gives.
pub open spec fn lex_text(text: Seq<char>) -> Lexed
    decreases text.len(), 2int, 0int,
{
    let p = lex_all(text, Pass::start());
    Lexed { code: Shape { tokens: p.tokens.push(closing(text, p.line)), labels: p.labels }, errors: p.errors }
}

/// The operator token of a punctuation mark.
pub fn operator(c: char) -> (r: Option<TokenType>)
    ensures
        r == operator_of(c),
{
    match c {
        ',' => Some(TokenType::Comma),
        '.' => Some(TokenType::Dot),
        ';' => Some(TokenType::Semicolon),
        '@' => Some(TokenType::At),
        '?' => Some(TokenType::Question),
        '~' => Some(TokenType::Tilde),
        '=' => Some(TokenType::Equal),
        '*' => Some(TokenType::Star),
        '%' => Some(TokenType::Mod),
        '^' => Some(TokenType::Jump),
        ':' => Some(TokenType::Colon),
        '+' => Some(TokenType::Plus),
        '|' => Some(TokenType::Or),
        '&' => Some(TokenType::And),
        '-' => Some(TokenType::Minus),
        '!' => Some(TokenType::Bang),
        '<' => Some(TokenType::Less),
        '>' => Some(TokenType::Greater),
        '/' => Some(TokenType::Slash),
        '#' => Some(TokenType::Hash),
        '$' => Some(TokenType::Print),
        _ => None,
    }
}

/// The number that the digits of `text` write, if it fits.
pub fn parse_int(text: &str) -> (r: Option<i64>)
    requires
        forall|k: int| 0 <= k < text@.len() ==> digit(#[trigger] text@[k]),
    ensures
        number_of(text@) <= i64::MAX ==> r == Some(number_of(text@) as i64),
        number_of(text@) > i64::MAX ==> r is None,
{
    let n = text.unicode_len();
    let mut k: usize = 0;
    let mut value: i64 = 0;
    while k < n
        invariant
            k <= n,
            n == text@.len(),
            value >= 0,
            value == number_of(text@.subrange(0, k as int)),
            forall|m: int| 0 <= m < text@.len() ==> digit(#[trigger] text@[m]),
        decreases n - k,
    {
        let c = text.get_char(k);
        let d: i64 = (c as u32 - '0' as u32) as i64;
        proof {
            assert(text@.subrange(0, k + 1).drop_last() == text@.subrange(0, k as int));
            assert(text@.subrange(0, k + 1).last() == c);
            number_grows(text@, k + 1, n as int);
        }
        if value > (i64::MAX - d) / 10 {
            assert(number_of(text@.subrange(0, k + 1)) > i64::MAX);
            assert(text@.subrange(0, n as int) == text@);
            return None;
        }
        value = value * 10 + d;
        k = k + 1;
    }
    assert(text@.subrange(0, n as int) == text@);
    Some(value)
}

/// A longer run of digits writes no smaller number.
pub proof fn number_grows(s: Seq<char>, a: int, b: int)
    requires
        0 <= a <= b <= s.len(),
        forall|m: int| 0 <= m < s.len() ==> digit(#[trigger] s[m]),
    ensures
        number_of(s.subrange(0, a)) <= number_of(s.subrange(0, b)),
    decreases b - a,
{
    if a < b {
        number_grows(s, a, b - 1);
        assert(s.subrange(0, b).drop_last() == s.subrange(0, b - 1));
        assert(s.subrange(0, b).last() == s[b - 1]);
    }
}

/// The state of one pass over a source text.
pub struct Scanner {
    pub source: Rc<String>,
    pub tokens: Vec<Token>,
    pub labels: Vec<Label>,
    /// What was reported, in the order of the text.
    pub errors: Vec<Diagnostic>,
    /// Where the current line begins.
    pub line_start: usize,
    /// Where the current lexeme begins.
    pub start: usize,
    /// The next character to read.
    pub curr: usize,
    /// Zero-based number of the current line.
    pub line: usize,
    pub had_error: bool,
    /// The number of characters of the text.
    pub len: usize,
}

impl View for Scanner {
    type V = Pass;

    open spec fn view(&self) -> Pass {
        Pass {
            curr: self.curr as int,
            line: self.line as int,
            line_start: self.line_start as int,
            tokens: shapes(self.tokens@),
            labels: bindings(self.labels@),
            errors: accounts(self.errors@),
        }
    }
}

impl Scanner {
    /// The text that is scanned.
    pub open spec fn text(&self) -> Seq<char> {
        self.source@
    }

    /// What holds between any two steps of a pass.
    pub open spec fn inv(&self) -> bool {
        &&& self.start <= self.curr <= self.source@.len()
        &&& self.len == self.source@.len()
        &&& self.line <= self.curr
        &&& self.line_start <= self.curr
        &&& self.had_error == (self.errors@.len() > 0)
        &&& forall|k: int| 0 <= k < self.tokens@.len() ==> !((#[trigger] self.tokens@[k]).type_ is EOF)
        &&& forall|k: int| 0 <= k < self.tokens@.len() ==> (#[trigger] self.tokens@[k]).source == self.source
        &&& forall|j: int| 0 <= j < self.labels@.len() ==> (#[trigger] self.labels@[j]).index < self.tokens@.len()
    }

    /// A scanner at the beginning of `source`.
    pub fn new(source: &String) -> (r: Scanner)
        ensures
            r.inv(),
            r.text() == source@,
            r@ == Pass::start(),
            !r.had_error,
    {
        let len = source.as_str().unicode_len();
        let r = Scanner {
            len,
            source: Rc::new(source.clone()),
            tokens: Vec::new(),
            labels: Vec::new(),
            errors: Vec::new(),
            line_start: 0,
            start: 0,
            curr: 0,
            line: 0,
            had_error: false,
        };
        proof {
            assert(r@.tokens =~= Seq::<TokenShape>::empty());
            assert(r@.labels =~= Seq::<(Seq<char>, int)>::empty());
            assert(r@.errors =~= Seq::<Report>::empty());
        }
        r
    }

    fn is_at_end(&self) -> (r: bool)
        ensures
            r == (self.curr >= self.len),
    {
        self.curr >= self.len
    }

    fn advance(&mut self) -> (c: char)
        requires
            old(self).inv(),
            old(self).curr < old(self).source@.len(),
        ensures
            final(self).inv(),
            c == old(self).source@[old(self).curr as int],
            *final(self) == (Scanner { curr: (old(self).curr + 1) as usize, ..*old(self) }),
    {
        let c = self.source.as_str().get_char(self.curr);
        self.curr += 1;
        c
    }

    /// Reads the next character inside a literal or a block.
    fn read(&mut self) -> (c: char)
        requires
            old(self).inv(),
            old(self).curr < old(self).source@.len(),
        ensures
            final(self).inv(),
            c == old(self).source@[old(self).curr as int],
            final(self)@ == old(self)@.read(old(self).source@),
            final(self).curr == old(self).curr + 1,
            final(self).source == old(self).source,
            final(self).start == old(self).start,
            final(self).tokens == old(self).tokens,
            final(self).labels == old(self).labels,
            final(self).errors == old(self).errors,
    {
        let c = self.advance();
        if c == '\n' {
            self.line += 1;
            self.line_start = self.curr;
        }
        c
    }

    fn get_substring(&self) -> (r: String)
        ensures
            r@ == slice(self.source@, self.start as int, self.curr as int),
    {
        substring(&self.source, self.start, self.curr)
    }

    /// The column of position `at` within the line that the scanner stands
    /// on.
    fn column(&self, at: usize) -> (r: usize)
        ensures
            r == column(at as int, self.line_start as int),
    {
        if at >= self.line_start {
            at - self.line_start
        } else {
            0
        }
    }

    fn add_token(&mut self, type_: TokenType)
        requires
            old(self).inv(),
            !(type_ is EOF),
        ensures
            final(self).inv(),
            final(self)@ == old(self)@.with_token(old(self).source@, type_.kind(), old(self).start as int),
            final(self).tokens@.len() == old(self).tokens@.len() + 1,
            final(self).tokens@.drop_last() == old(self).tokens@,
            final(self).tokens@.last().source == old(self).source,
            final(self).tokens@.last().type_ == type_,
            final(self).tokens@.last().lexeme@ == slice(
                old(self).source@,
                old(self).start as int,
                old(self).curr as int,
            ),
            final(self).tokens@.last().pos == column(old(self).start as int, old(self).line_start as int),
            final(self).tokens@.last().end == column(old(self).curr as int, old(self).line_start as int),
            final(self).tokens@.last().line == old(self).line,
            *final(self) == (Scanner { tokens: final(self).tokens, ..*old(self) }),
    {
        let lexeme = self.get_substring();
        let pos = self.column(self.start);
        let end = self.column(self.curr);
        let token = Token::new(share(&self.source), type_, lexeme, pos, end, self.line);
        self.tokens.push(token);
        proof {
            assert(self@.tokens =~= old(self)@.tokens.push(token.shape()));
            assert(self.tokens@.drop_last() =~= old(self).tokens@);
        }
    }

    fn peek(&self) -> (c: char)
        requires
            self.inv(),
        ensures
            self.curr < self.source@.len() ==> c == self.source@[self.curr as int],
            self.curr >= self.source@.len() ==> c == '\0',
    {
        if self.is_at_end() {
            '\0'
        } else {
            self.source.as_str().get_char(self.curr)
        }
    }

    fn error(&mut self, msg: &str)
        requires
            old(self).inv(),
        ensures
            final(self).inv(),
            final(self)@ == old(self)@.with_error(old(self).source@, msg@, old(self).start as int),
            *final(self) == (Scanner { errors: final(self).errors, had_error: true, ..*old(self) }),
    {
        let pos = self.column(self.start);
        let report = error(&self.source, msg, pos, self.curr - self.start, self.line);
        self.errors.push(report);
        self.had_error = true;
        proof {
            assert(self@.errors =~= old(self)@.errors.push(report@));
        }
    }

    /// Reads on to the closing `ch` of a quoted run whose opening mark was
    /// read. Returns whether it was found; if not, the text is read to its
    /// end and an error is recorded.
    fn string(&mut self, ch: char) -> (closed: bool)
        requires
            old(self).inv(),
            old(self).start + 1 == old(self).curr,
            ch != '\n',
        ensures
            final(self).inv(),
            closed == (quoted_end(old(self).source@, old(self).curr as int, ch, false) < old(self).source@.len()),
            closed ==> final(self).curr == quoted_end(old(self).source@, old(self).curr as int, ch, false) + 1,
            final(self)@ == lex_quoted(
                old(self).source@,
                Pass { curr: old(self).start as int, ..old(self)@ },
                ch,
            ),
            final(self).curr >= old(self).curr,
            final(self).source == old(self).source,
            final(self).start == old(self).start,
            final(self).tokens == old(self).tokens,
            final(self).labels == old(self).labels,
    {
        let ghost end = quoted_end(self.source@, self.curr as int, ch, false);
        proof {
            ends_are_bounded(self.source@, self.curr as int, ch, false, false);
        }
        let mut back_slash = false;
        loop
            invariant
                self.inv(),
                old(self).curr <= self.curr <= end <= self.source@.len(),
                self.source == old(self).source,
                self.start == old(self).start,
                self.tokens == old(self).tokens,
                self.labels == old(self).labels,
                self.errors == old(self).errors,
                self.had_error == old(self).had_error,
                quoted_end(self.source@, self.curr as int, ch, back_slash) == end,
                self@.read_to(self.source@, end) == old(self)@.read_to(self.source@, end),
            ensures
                self.inv(),
                self.source == old(self).source,
                self.start == old(self).start,
                self.tokens == old(self).tokens,
                self.labels == old(self).labels,
                self.errors == old(self).errors,
                self.had_error == old(self).had_error,
                self.curr == end,
                self@ == old(self)@.read_to(self.source@, end),
            decreases self.source@.len() - self.curr,
        {
            let c = self.peek();
            if self.is_at_end() || (c == ch && !back_slash) {
                break ;
            }
            proof {
                ends_are_bounded(self.source@, self.curr + 1, ch, c == '\\' && !back_slash, false);
            }
            let old_backslash = back_slash;
            back_slash = false;
            self.read();
            if c == '\\' {
                if !old_backslash {
                    back_slash = true;
                }
            }
        }
        if self.is_at_end() {
            self.error("Unterminated string");
            return false;
        }
        self.advance();
        true
    }

    /// Reads on while digits follow (or, with `names`, letters, digits and
    /// underscores).
    fn run(&mut self, names: bool)
        requires
            old(self).inv(),
        ensures
            final(self).inv(),
            final(self).curr == run_end(old(self).source@, old(self).curr as int, names),
            final(self).curr >= old(self).curr,
            *final(self) == (Scanner { curr: final(self).curr, ..*old(self) }),
            forall|k: int| old(self).curr <= k < final(self).curr ==> digit(#[trigger] old(self).source@[k]) || (names
                && alpha(old(self).source@[k])),
    {
        loop
            invariant
                self.inv(),
                old(self).curr <= self.curr,
                *self == (Scanner { curr: self.curr, ..*old(self) }),
                run_end(self.source@, self.curr as int, names) == run_end(
                    old(self).source@,
                    old(self).curr as int,
                    names,
                ),
                forall|k: int| old(self).curr <= k < self.curr ==> digit(#[trigger] old(self).source@[k]) || (names
                    && alpha(old(self).source@[k])),
            ensures
                self.inv(),
                old(self).curr <= self.curr,
                *self == (Scanner { curr: self.curr, ..*old(self) }),
                self.curr == run_end(old(self).source@, old(self).curr as int, names),
                forall|k: int| old(self).curr <= k < self.curr ==> digit(#[trigger] old(self).source@[k]) || (names
                    && alpha(old(self).source@[k])),
            decreases self.source@.len() - self.curr,
        {
            if self.is_at_end() {
                break ;
            }
            let c = self.peek();
            if !(is_digit(c) || (names && is_alpha(c))) {
                break ;
            }
            self.advance();
        }
    }

    /// Reads the rest of a number whose first digit was read, and adds its
    /// token: an `Int`, or a `Float` where a decimal point follows.
    fn number(&mut self)
        requires
            old(self).inv(),
            old(self).start + 1 == old(self).curr,
            digit(old(self).source@[old(self).start as int]),
        ensures
            final(self).inv(),
            final(self).curr >= old(self).curr,
            final(self).source == old(self).source,
            final(self)@ == lex_number(old(self).source@, Pass { curr: old(self).start as int, ..old(self)@ }),
    {
        self.run(false);
        let c = self.peek();
        if c == '.' && !self.is_at_end() {
            self.advance();
            if is_digit(self.peek()) && !self.is_at_end() {
                self.run(false);
            } else {
                self.error("Expecting digits after decimal point");
            }
            self.add_token(TokenType::Float);
        } else {
            let digits = self.get_substring();
            match parse_int(digits.as_str()) {
                Some(parsed) => self.add_token(TokenType::Int(parsed)),
                None => self.error("Integer literal out of range"),
            }
        }
    }

    /// Reads on to the next `}`. Returns whether one was found.
    fn block(&mut self) -> (closed: bool)
        requires
            old(self).inv(),
        ensures
            final(self).inv(),
            closed == (block_end(old(self).source@, old(self).curr as int) < old(self).source@.len()),
            final(self).curr == block_end(old(self).source@, old(self).curr as int),
            final(self)@ == old(self)@.read_to(old(self).source@, final(self).curr as int),
            final(self).curr >= old(self).curr,
            final(self).source == old(self).source,
            final(self).start == old(self).start,
            final(self).tokens == old(self).tokens,
            final(self).labels == old(self).labels,
            final(self).errors == old(self).errors,
    {
        let ghost end = block_end(self.source@, self.curr as int);
        proof {
            ends_are_bounded(self.source@, self.curr as int, ' ', false, false);
        }
        loop
            invariant
                self.inv(),
                old(self).curr <= self.curr <= end <= self.source@.len(),
                self.source == old(self).source,
                self.start == old(self).start,
                self.tokens == old(self).tokens,
                self.labels == old(self).labels,
                self.errors == old(self).errors,
                block_end(self.source@, self.curr as int) == end,
                self@.read_to(self.source@, end) == old(self)@.read_to(self.source@, end),
            ensures
                self.inv(),
                self.source == old(self).source,
                self.start == old(self).start,
                self.tokens == old(self).tokens,
                self.labels == old(self).labels,
                self.errors == old(self).errors,
                self.curr == end,
                self@ == old(self)@.read_to(self.source@, end),
            decreases self.source@.len() - self.curr,
        {
            let c = self.peek();
            if self.is_at_end() || c == '}' {
                break ;
            }
            proof {
                ends_are_bounded(self.source@, self.curr + 1, ' ', false, false);
            }
            self.read();
        }
        !self.is_at_end()
    }

    /// Scans the block whose braces were read, and adds its token and its
    /// errors.
    fn nested(&mut self)
        requires
            old(self).inv(),
            old(self).start + 2 <= old(self).curr,
        ensures
            final(self).inv(),
            final(self).curr == old(self).curr,
            final(self).source == old(self).source,
            slice(old(self).source@, old(self).start + 1, old(self).curr - 1).len() < old(self).source@.len(),
            final(self).tokens@.len() == old(self).tokens@.len() + 1,
            final(self).tokens@.drop_last() == old(self).tokens@,
            final(self).tokens@.last().source == old(self).source,
            final(self).tokens@.last().type_ matches TokenType::Code(c) && c.well_formed() && scanned_from(
                &*c,
                slice(old(self).source@, old(self).start + 1, old(self).curr - 1),
            ),
            final(self)@ == ({
                let nested = lex_text(slice(old(self).source@, old(self).start + 1, old(self).curr - 1));
                (Pass { errors: old(self)@.errors + nested.errors, ..old(self)@ }).with_token(
                    old(self).source@,
                    Kind::Block(nested.code),
                    old(self).curr as int,
                )
            }),
        decreases old(self).source@.len(), 0int, 0int,
    {
        let source = substring(&self.source, self.start + 1, self.curr - 1);
        let mut scanner = Scanner::new(&source);
        let code = scanner.scan_tokens();
        let ghost before = self@.errors;
        let mut k: usize = 0;
        while k < scanner.errors.len()
            invariant
                self.inv(),
                k <= scanner.errors@.len(),
                *self == (Scanner { errors: self.errors, had_error: self.had_error, ..*old(self) }),
                self@.errors == before + accounts(scanner.errors@).subrange(0, k as int),
            decreases scanner.errors@.len() - k,
        {
            let e = &scanner.errors[k];
            let copy = Diagnostic {
                severity: e.severity,
                source: share(&e.source),
                message: e.message.clone(),
                pos: e.pos,
                len: e.len,
                line: e.line,
            };
            let ghost sofar = self@.errors;
            self.errors.push(copy);
            self.had_error = true;
            proof {
                assert(self@.errors =~= sofar.push(copy@));
                assert(copy@ == accounts(scanner.errors@)[k as int]);
                assert(self@.errors =~= before + accounts(scanner.errors@).subrange(0, k + 1));
            }
            k = k + 1;
        }
        proof {
            assert(accounts(scanner.errors@).subrange(0, k as int) =~= accounts(scanner.errors@));
        }
        self.start = self.curr;
        self.add_token(TokenType::Code(Rc::new(code)));
    }

    /// Reads one lexeme from the current position and records what it is: a
    /// token, a label, an error, or nothing for white space.
    fn scan_token(&mut self)
        requires
            old(self).inv(),
            old(self).start == old(self).curr,
            old(self).curr < old(self).source@.len(),
        ensures
            final(self).inv(),
            final(self).curr > old(self).curr,
            final(self).source == old(self).source,
            final(self)@ == lex_one(old(self).source@, old(self)@),
        decreases old(self).source@.len(), 0int, 1int,
    {
        let c = self.advance();
        if let Some(op) = operator(c) {
            self.add_token(op);
        } else if c == '"' {
            if self.string('"') {
                let text = substring(&self.source, self.start + 1, self.curr - 1);
                self.add_token(TokenType::String(Rc::new(text)));
            }
        } else if c == '[' {
            if self.string(']') {
                let name = substring(&self.source, self.start + 1, self.curr - 1);
                if self.tokens.len() == 0 {
                    self.error("Label before any token");
                } else {
                    let label = Label { name, index: self.tokens.len() - 1 };
                    let ghost before = self@.labels;
                    self.labels.push(label);
                    proof {
                        assert(self@.labels =~= before.push((label.name@, label.index as int)));
                    }
                }
            }
        } else if c == ' ' || c == '\r' || c == '\t' {
        } else if c == '\n' {
            self.line += 1;
            self.line_start = self.curr;
        } else if c == '{' {
            if !self.block() {
                self.error("Unterminated code block");
                return ;
            }
            self.advance();
            self.nested();
        } else if is_digit(c) {
            self.number();
        } else if is_alpha(c) {
            self.run(true);
            self.add_token(TokenType::Identifier);
        } else {
            self.error("Unexpected character");
        }
    }

    /// Scans the rest of the text and returns the code of all that was
    /// scanned. Afterwards `had_error` and `errors` say what was wrong with
    /// the text, blocks nested in it included.
    pub fn scan_tokens(&mut self) -> (code: Code)
        requires
            old(self).inv(),
        ensures
            final(self).inv(),
            final(self).text() == old(self).text(),
            final(self)@ == lex_all(old(self).text(), old(self)@),
            final(self).had_error == (final(self)@.errors.len() > 0),
            code.well_formed(),
            scanned_from(&code, old(self).text()),
            code.shape() == (Shape {
                tokens: final(self)@.tokens.push(closing(old(self).text(), final(self)@.line)),
                labels: final(self)@.labels,
            }),
            old(self)@ == Pass::start() ==> code.shape() == lex_text(old(self).text()).code && final(self)@.errors
                == lex_text(old(self).text()).errors,
        decreases old(self).source@.len(), 1int, 0int,
    {
        while !self.is_at_end()
            invariant
                self.inv(),
                self.source == old(self).source,
                lex_all(self.source@, self@) == lex_all(self.source@, old(self)@),
            decreases self.source@.len() - self.curr,
        {
            self.start = self.curr;
            self.scan_token();
        }
        let mut tokens: Vec<Token> = Vec::new();
        let mut i: usize = 0;
        while i < self.tokens.len()
            invariant
                i <= self.tokens@.len(),
                tokens@ == self.tokens@.subrange(0, i as int),
            decreases self.tokens@.len() - i,
        {
            tokens.push(self.tokens[i].duplicate());
            i = i + 1;
        }
        assert(tokens@ == self.tokens@);
        let mut labels: Vec<Label> = Vec::new();
        i = 0;
        while i < self.labels.len()
            invariant
                i <= self.labels@.len(),
                labels@ == self.labels@.subrange(0, i as int),
            decreases self.labels@.len() - i,
        {
            labels.push(self.labels[i].duplicate());
            i = i + 1;
        }
        assert(labels@ == self.labels@);
        let last = Token::new(share(&self.source), TokenType::EOF, String::new(), 0, 1, self.line);
        tokens.push(last);
        let code = Code::new(tokens, labels);
        proof {
            code.shape_of_tokens();
            assert(last.shape() == closing(self.source@, self@.line));
            assert(shapes(code.tokens@) =~= self@.tokens.push(closing(self.source@, self@.line)));
        }
        code
    }
}

} // verus!
