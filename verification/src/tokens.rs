//! Tokens and code.

use crate::utils::share;
use std::rc::Rc;
use vstd::prelude::*;

verus! {

/// The variants of a token.
#[derive(Debug)]
pub enum TokenType {
    Comma,
    Dot,
    Minus,
    Plus,
    Semicolon,
    Slash,
    Star,
    Colon,
    At,
    Mod,
    Tilde,
    Bang,
    Question,
    Print,
    Equal,
    Greater,
    Less,
    Hash,
    And,
    Or,
    Jump,
    Identifier,
    /// A text literal, without its quotes.
    String(Rc<String>),
    Int(i64),
    /// A literal with a decimal point; its digits are the token's lexeme.
    Float,
    /// A nested block, scanned on its own.
    Code(Rc<Code>),
    EOF,
}

/// One lexical unit with its place in the source text.
#[derive(Debug)]
pub struct Token {
    pub source: Rc<String>,
    pub type_: TokenType,
    pub lexeme: String,
    pub pos: usize,
    pub end: usize,
    pub line: usize,
}

/// A label: a name bound to the index of a token.
#[derive(Debug)]
pub struct Label {
    pub name: String,
    pub index: usize,
}

/// A program fragment: its tokens and its labels.
#[derive(Debug)]
pub struct Code {
    pub tokens: Vec<Token>,
    pub labels: Vec<Label>,
}

/// The index bound to `name` among the first `upto` labels; where a name was
/// bound more than once, the last binding counts.
pub open spec fn find_label(labels: Seq<Label>, name: Seq<char>, upto: int) -> Option<usize>
    decreases upto,
{
    if upto <= 0 || upto > labels.len() {
        None
    } else if labels[upto - 1].name@ == name {
        Some(labels[upto - 1].index)
    } else {
        find_label(labels, name, upto - 1)
    }
}

/// What `find_label` gives depends only on the labels it looks at.
pub proof fn find_label_prefix(a: Seq<Label>, b: Seq<Label>, name: Seq<char>, upto: int)
    requires
        0 <= upto <= a.len(),
        upto <= b.len(),
        forall|k: int| 0 <= k < upto ==> a[k] == b[k],
    ensures
        find_label(a, name, upto) == find_label(b, name, upto),
    decreases upto,
{
    if upto > 0 {
        find_label_prefix(a, b, name, upto - 1);
    }
}

impl TokenType {
    /// A copy of this variant; a text or a nested block is shared, not copied.
    pub fn duplicate(&self) -> (r: TokenType)
        ensures
            r == *self,
    {
        match self {
            TokenType::Comma => TokenType::Comma,
            TokenType::Dot => TokenType::Dot,
            TokenType::Minus => TokenType::Minus,
            TokenType::Plus => TokenType::Plus,
            TokenType::Semicolon => TokenType::Semicolon,
            TokenType::Slash => TokenType::Slash,
            TokenType::Star => TokenType::Star,
            TokenType::Colon => TokenType::Colon,
            TokenType::At => TokenType::At,
            TokenType::Mod => TokenType::Mod,
            TokenType::Tilde => TokenType::Tilde,
            TokenType::Bang => TokenType::Bang,
            TokenType::Question => TokenType::Question,
            TokenType::Print => TokenType::Print,
            TokenType::Equal => TokenType::Equal,
            TokenType::Greater => TokenType::Greater,
            TokenType::Less => TokenType::Less,
            TokenType::Hash => TokenType::Hash,
            TokenType::And => TokenType::And,
            TokenType::Or => TokenType::Or,
            TokenType::Jump => TokenType::Jump,
            TokenType::Identifier => TokenType::Identifier,
            TokenType::String(s) => TokenType::String(share(s)),
            TokenType::Int(v) => TokenType::Int(*v),
            TokenType::Float => TokenType::Float,
            TokenType::Code(c) => TokenType::Code(share(c)),
            TokenType::EOF => TokenType::EOF,
        }
    }
}

impl Token {
    /// A token of the given parts.
    pub fn new(source: Rc<String>, type_: TokenType, lexeme: String, pos: usize, end: usize, line: usize) -> (r: Token)
        ensures
            r == (Token { source, type_, lexeme, pos, end, line }),
    {
        Token { source, type_, lexeme, pos, end, line }
    }

    /// The number of characters that the token spans.
    pub open spec fn span(&self) -> usize {
        if self.end >= self.pos {
            (self.end - self.pos) as usize
        } else {
            0
        }
    }

    /// The same token again; its source text and a nested block are shared.
    pub fn duplicate(&self) -> (r: Token)
        ensures
            r == *self,
    {
        Token {
            source: share(&self.source),
            type_: self.type_.duplicate(),
            lexeme: self.lexeme.clone(),
            pos: self.pos,
            end: self.end,
            line: self.line,
        }
    }
}

impl Label {
    /// The same label again.
    pub fn duplicate(&self) -> (r: Label)
        ensures
            r == *self,
    {
        Label { name: self.name.clone(), index: self.index }
    }
}

/// Why two fragments cannot be joined.
#[derive(Clone, Copy, Debug, PartialEq, Eq, Structural)]
pub enum JoinError {
    /// Both fragments bind the same label name: that of the right
    /// fragment's label at this place, the first of which this is so.
    Conflict(usize),
    /// A label of the right fragment would leave the range of indices.
    Range,
}

impl Code {
    /// A code of the given tokens and labels.
    pub fn new(tokens: Vec<Token>, labels: Vec<Label>) -> (r: Code)
        ensures
            r.tokens == tokens,
            r.labels == labels,
    {
        Code { tokens, labels }
    }

    /// The index bound to `name`, if any.
    pub open spec fn label(&self, name: Seq<char>) -> Option<usize> {
        find_label(self.labels@, name, self.labels@.len() as int)
    }

    /// The tokens without the closing one.
    pub open spec fn body(&self) -> Seq<Token> {
        if self.tokens@.len() > 0 {
            self.tokens@.drop_last()
        } else {
            self.tokens@
        }
    }

    /// Some label of `other` bears a name that this fragment binds too.
    pub open spec fn conflicts(&self, other: &Code) -> bool {
        exists|j: int| 0 <= j < other.labels@.len() && self.label(#[trigger] other.labels@[j].name@) is Some
    }

    /// The place, from `from` on, of the first label of `other` whose name
    /// this fragment binds too; the number of `other`'s labels if there is
    /// none.
    pub open spec fn first_conflict(&self, other: &Code, from: int) -> int
        decreases other.labels@.len() - from,
    {
        if from < 0 || from >= other.labels@.len() {
            other.labels@.len() as int
        } else if self.label(other.labels@[from].name@) is Some {
            from
        } else {
            self.first_conflict(other, from + 1)
        }
    }

    /// Some label of `other`, moved behind this fragment's body, would not fit.
    pub open spec fn overflows(&self, other: &Code) -> bool {
        exists|j: int| 0 <= j < other.labels@.len() && (#[trigger] other.labels@[j]).index + self.body().len() > usize::MAX
    }

    /// A fragment ends in its one closing token, and its labels point into it.
    pub open spec fn well_formed(&self) -> bool {
        &&& self.tokens@.len() > 0
        &&& self.tokens@.last().type_ is EOF
        &&& forall|k: int| 0 <= k < self.tokens@.len() - 1 ==> !((#[trigger] self.tokens@[k]).type_ is EOF)
        &&& forall|j: int| 0 <= j < self.labels@.len() ==> (#[trigger] self.labels@[j]).index < self.tokens@.len()
    }

    /// The index bound to `name`.
    pub fn lookup(&self, name: &String) -> (r: Option<usize>)
        ensures
            r == self.label(name@),
    {
        let mut k: usize = self.labels.len();
        while k > 0
            invariant
                k <= self.labels@.len(),
                self.label(name@) == find_label(self.labels@, name@, k as int),
            decreases k,
        {
            k = k - 1;
            if self.labels[k].name == *name {
                return Some(self.labels[k].index);
            }
        }
        None
    }

    /// This fragment followed by `other`: its tokens without the closing one,
    /// then all of `other`'s; its labels, then `other`'s moved by the length
    /// of its body.
    pub fn concat(&self, other: &Code) -> (r: Result<Code, JoinError>)
        ensures
            self.conflicts(other) ==> r == Err::<Code, JoinError>(
                JoinError::Conflict(self.first_conflict(other, 0) as usize),
            ) && 0 <= self.first_conflict(other, 0) < other.labels@.len(),
            r matches Err(JoinError::Conflict(j)) ==> self.conflicts(other) && j == self.first_conflict(other, 0),
            !self.conflicts(other) && self.overflows(other) ==> r == Err::<Code, JoinError>(JoinError::Range),
            !self.conflicts(other) && !self.overflows(other) ==> r is Ok && joined(self, other, &r->Ok_0),
            self.well_formed() && other.well_formed() && r is Ok ==> (r->Ok_0).well_formed(),
    {
        let shift: usize = if self.tokens.len() > 0 { self.tokens.len() - 1 } else { 0 };
        let mut j: usize = 0;
        while j < other.labels.len()
            invariant
                j <= other.labels@.len(),
                forall|m: int| 0 <= m < j ==> self.label(#[trigger] other.labels@[m].name@) is None,
                self.first_conflict(other, 0) == self.first_conflict(other, j as int),
            decreases other.labels@.len() - j,
        {
            if self.lookup(&other.labels[j].name).is_some() {
                return Err(JoinError::Conflict(j));
            }
            j = j + 1;
        }
        let mut tokens: Vec<Token> = Vec::new();
        let mut i: usize = 0;
        while i < shift
            invariant
                i <= shift,
                shift == self.body().len(),
                tokens@ == self.body().subrange(0, i as int),
            decreases shift - i,
        {
            tokens.push(self.tokens[i].duplicate());
            i = i + 1;
        }
        assert(tokens@ == self.body());
        i = 0;
        while i < other.tokens.len()
            invariant
                i <= other.tokens@.len(),
                tokens@ == self.body() + other.tokens@.subrange(0, i as int),
            decreases other.tokens@.len() - i,
        {
            tokens.push(other.tokens[i].duplicate());
            i = i + 1;
        }
        assert(tokens@ == self.body() + other.tokens@);
        let mut labels: Vec<Label> = Vec::new();
        i = 0;
        while i < self.labels.len()
            invariant
                i <= self.labels@.len(),
                labels@ == self.labels@.subrange(0, i as int),
            decreases self.labels@.len() - i,
        {
            labels.push(self.labels[i].duplicate());
            i = i + 1;
        }
        assert(labels@ == self.labels@);
        j = 0;
        while j < other.labels.len()
            invariant
                j <= other.labels@.len(),
                shift == self.body().len(),
                !self.conflicts(other),
                labels@.len() == self.labels@.len() + j,
                tokens@ == self.body() + other.tokens@,
                self.well_formed() && other.well_formed() ==> forall|m: int|
                    0 <= m < labels@.len() ==> (#[trigger] labels@[m]).index < tokens@.len(),
                forall|m: int| 0 <= m < j ==> (#[trigger] other.labels@[m]).index + shift <= usize::MAX,
                forall|name: Seq<char>| #[trigger]
                    find_label(labels@, name, labels@.len() as int) == (match find_label(
                        other.labels@,
                        name,
                        j as int,
                    ) {
                        Some(k) => Some((k + shift) as usize),
                        None => self.label(name),
                    }),
            decreases other.labels@.len() - j,
        {
            let at: usize = other.labels[j].index;
            if at > usize::MAX - shift {
                return Err(JoinError::Range);
            }
            let ghost before = labels@;
            labels.push(Label { name: other.labels[j].name.clone(), index: at + shift });
            proof {
                assert forall|name: Seq<char>| #[trigger]
                    find_label(labels@, name, labels@.len() as int) == (match find_label(
                        other.labels@,
                        name,
                        j + 1,
                    ) {
                        Some(k) => Some((k + shift) as usize),
                        None => self.label(name),
                    }) by {
                    find_label_prefix(labels@, before, name, before.len() as int);
                }
            }
            j = j + 1;
        }
        Ok(Code { tokens, labels })
    }
}

/// `whole` is `left` followed by `right`.
pub open spec fn joined(left: &Code, right: &Code, whole: &Code) -> bool {
    &&& whole.tokens@ == left.body() + right.tokens@
    &&& forall|name: Seq<char>| #[trigger]
        whole.label(name) == (match right.label(name) {
            Some(k) => Some((k + left.body().len()) as usize),
            None => left.label(name),
        })
}

/// What a token is, as contracts see it.
pub enum Kind {
    Operator(TokenType),
    Identifier,
    Text(Seq<char>),
    Int(i64),
    Float,
    Block(Shape),
    End,
}

/// A token as contracts see it.
pub struct TokenShape {
    /// The whole text that the token was scanned from.
    pub source: Seq<char>,
    pub kind: Kind,
    pub lexeme: Seq<char>,
    pub pos: int,
    pub end: int,
    pub line: int,
}

/// A code as contracts see it: its tokens, and its labels as pairs of a name
/// and an index, in the order they were bound.
pub struct Shape {
    pub tokens: Seq<TokenShape>,
    pub labels: Seq<(Seq<char>, int)>,
}

impl TokenType {
    /// This variant as contracts see it.
    pub open spec fn kind(&self) -> Kind
        decreases self,
    {
        match self {
            TokenType::Identifier => Kind::Identifier,
            TokenType::String(s) => Kind::Text(s@),
            TokenType::Int(v) => Kind::Int(*v),
            TokenType::Float => Kind::Float,
            TokenType::Code(c) => Kind::Block(c.shape()),
            TokenType::EOF => Kind::End,
            op => Kind::Operator(*op),
        }
    }
}

impl Token {
    /// This token as contracts see it.
    pub open spec fn shape(&self) -> TokenShape
        decreases self,
    {
        TokenShape {
            source: self.source@,
            kind: self.type_.kind(),
            lexeme: self.lexeme@,
            pos: self.pos as int,
            end: self.end as int,
            line: self.line as int,
        }
    }
}

/// The tokens as contracts see them.
pub open spec fn shapes(ts: Seq<Token>) -> Seq<TokenShape> {
    ts.map_values(|t: Token| t.shape())
}

/// The labels as pairs of a name and an index.
pub open spec fn bindings(ls: Seq<Label>) -> Seq<(Seq<char>, int)> {
    ls.map_values(|l: Label| (l.name@, l.index as int))
}

impl Code {
    /// This code as contracts see it.
    pub open spec fn shape(&self) -> Shape
        decreases self,
    {
        Shape {
            tokens: Seq::new(
                self.tokens@.len(),
                |k: int|
                    if 0 <= k < self.tokens.len() {
                        self.tokens[k].shape()
                    } else {
                        arbitrary()
                    },
            ),
            labels: bindings(self.labels@),
        }
    }

    /// The shape of a code is made of the shapes of its tokens.
    pub proof fn shape_of_tokens(&self)
        ensures
            self.shape().tokens == shapes(self.tokens@),
    {
        assert(self.shape().tokens =~= shapes(self.tokens@));
    }
}

} // verus!
