//! The execution engine: one instruction at a time on two stacks.
//!
//! The engine never calls itself and never prints. An instruction that runs
//! other code, prints, or needs floating-point work hands that back to its
//! caller as a `Step`; the caller does it and goes on where the step says.

use crate::scanner::{lex_text, scanned_from, Scanner};
use crate::tokens::{joined, Code, JoinError, Token, TokenType};
use crate::utils::{accounts, runtime_error, share, Diagnostic, Severity};
use crate::value::{
    decimal, int_binary, int_result, int_text, join, jump_target, landing, printed, text_binary,
    text_result, views, Object, Value,
};
use std::rc::Rc;
use vstd::prelude::*;
use vstd::string::*;

verus! {

/// Why an instruction failed.
#[derive(Clone, Copy, Debug, PartialEq, Eq, Structural)]
pub enum Fault {
    EmptyPrimary,
    EmptySecondary,
    PeekEmpty,
    Operand,
    DivideByZero,
    UnknownLabel,
    LabelConflict,
    LabelRange,
    FunctionName,
    FunctionBody,
    UndefinedFunction,
    Answer,
}

impl Fault {
    /// The message of the diagnostic; a fault about a label adds the label's
    /// name to it, see `naming`.
    pub open spec fn message(self) -> Seq<char> {
        match self {
            Fault::EmptyPrimary => "Popped empty primary stack"@,
            Fault::EmptySecondary => "Popped empty secondary stack"@,
            Fault::PeekEmpty => "Peeked empty primary stack"@,
            Fault::Operand => "Cannot perform this operation on these types"@,
            Fault::DivideByZero => "Division by zero"@,
            Fault::UnknownLabel => "Unknown label"@,
            Fault::LabelConflict => "Label conflicts between concatenated code objects"@,
            Fault::LabelRange => "Label out of range in concatenated code objects"@,
            Fault::FunctionName => "Expecting string as function name"@,
            Fault::FunctionBody => "Expecting code object as function body"@,
            Fault::UndefinedFunction => "Undefined function"@,
            Fault::Answer => "Unexpected result of a floating-point operation"@,
        }
    }

    /// The message of the diagnostic.
    pub fn text(&self) -> (r: &'static str)
        ensures
            r@ == self.message(),
    {
        match self {
            Fault::EmptyPrimary => "Popped empty primary stack",
            Fault::EmptySecondary => "Popped empty secondary stack",
            Fault::PeekEmpty => "Peeked empty primary stack",
            Fault::Operand => "Cannot perform this operation on these types",
            Fault::DivideByZero => "Division by zero",
            Fault::UnknownLabel => "Unknown label",
            Fault::LabelConflict => "Label conflicts between concatenated code objects",
            Fault::LabelRange => "Label out of range in concatenated code objects",
            Fault::FunctionName => "Expecting string as function name",
            Fault::FunctionBody => "Expecting code object as function body",
            Fault::UndefinedFunction => "Undefined function",
            Fault::Answer => "Unexpected result of a floating-point operation",
        }
    }
}

/// A number handed to the host for floating-point work.
#[derive(Clone, Copy, Debug, PartialEq, Eq, Structural)]
pub enum Number {
    Int(i64),
    Float(u64),
}

/// Floating-point work that an instruction leaves to the host. The host
/// answers with a value, and `resume` goes on from it.
#[derive(Debug)]
pub enum FloatWork {
    /// Read the literal; the answer is a `Float`.
    Literal(String),
    /// Apply the instruction's arithmetic operator, an `Int` operand promoted
    /// first; the answer is a `Float`.
    Arith(Number, Number),
    /// Apply the instruction's comparison, an `Int` operand promoted first;
    /// the answer is `Int` one or zero.
    Compare(Number, Number),
    /// Round toward zero; the answer is an `Int`, which is pushed.
    Truncate(u64),
    /// Round toward zero; the answer is an `Int`, by which the engine jumps.
    Offset(u64),
    /// Write the number as text; the answer is a `String`, which is printed.
    Show(u64),
    /// Write the number as text; the answer is a `String`, which is put
    /// behind the given text.
    Prepend(Rc<String>, u64),
    /// Write the number as text; the answer is a `String`, which is put
    /// before the given text.
    Append(u64, Rc<String>),
}

/// What the caller of the engine does after an instruction.
#[derive(Debug)]
pub enum Step {
    /// Go on in the same code at this index.
    Goto(usize),
    /// The code has ended.
    Done,
    /// Run this code to its end, then go on at this index; a failure in it
    /// ends the whole run.
    Call(Rc<Code>, usize),
    /// Print this line, then go on at this index.
    Print(String, usize),
    /// Do this work and hand the answer to `resume`.
    Float(FloatWork),
    /// The run has failed with this report.
    Fail(Diagnostic),
    /// The run has failed: a text turned into code held these lexical errors.
    Rejected(Vec<Diagnostic>),
}

/// A named function.
#[derive(Debug)]
pub struct Function {
    pub name: Rc<String>,
    pub body: Rc<Code>,
}

/// The runtime state: two stacks and the functions.
#[derive(Debug)]
pub struct Interpreter {
    pub st_stack: Vec<Object>,
    pub nd_stack: Vec<Object>,
    /// The definitions; where a name stands twice, the last one counts.
    pub functions: Vec<Function>,
}

/// The runtime state as contracts see it.
pub struct Machine {
    pub st: Seq<Value>,
    pub nd: Seq<Value>,
    pub functions: Map<Seq<char>, Rc<Code>>,
}

/// The body of the last of the first `upto` definitions that bears `name`.
pub open spec fn find_function(fs: Seq<Function>, name: Seq<char>, upto: int) -> Option<Rc<Code>>
    decreases upto,
{
    if upto <= 0 || upto > fs.len() {
        None
    } else if fs[upto - 1].name@ == name {
        Some(fs[upto - 1].body)
    } else {
        find_function(fs, name, upto - 1)
    }
}

/// What `find_function` gives depends only on the definitions it looks at.
pub proof fn find_function_prefix(a: Seq<Function>, b: Seq<Function>, name: Seq<char>, upto: int)
    requires
        0 <= upto <= a.len(),
        upto <= b.len(),
        forall|k: int| 0 <= k < upto ==> a[k] == b[k],
    ensures
        find_function(a, name, upto) == find_function(b, name, upto),
    decreases upto,
{
    if upto > 0 {
        find_function_prefix(a, b, name, upto - 1);
    }
}

/// Putting another body in the place of the last definition of a name
/// changes what that name is bound to, and nothing else.
pub proof fn redefined(old_fs: Seq<Function>, new_fs: Seq<Function>, k: int, n: Seq<char>, upto: int)
    requires
        0 <= k < old_fs.len(),
        new_fs.len() == old_fs.len(),
        forall|j: int| 0 <= j < old_fs.len() && j != k ==> new_fs[j] == old_fs[j],
        new_fs[k].name@ == old_fs[k].name@,
        forall|j: int| k < j < old_fs.len() ==> (#[trigger] old_fs[j]).name@ != old_fs[k].name@,
        0 <= upto <= old_fs.len(),
    ensures
        find_function(new_fs, n, upto) == (if n == old_fs[k].name@ && upto > k {
            Some(new_fs[k].body)
        } else {
            find_function(old_fs, n, upto)
        }),
    decreases upto,
{
    if upto > 0 {
        redefined(old_fs, new_fs, k, n, upto - 1);
    }
}

/// The function table that a list of definitions amounts to.
pub open spec fn table(fs: Seq<Function>) -> Map<Seq<char>, Rc<Code>> {
    Map::new(
        |n: Seq<char>| find_function(fs, n, fs.len() as int) is Some,
        |n: Seq<char>| find_function(fs, n, fs.len() as int)->Some_0,
    )
}

impl View for Interpreter {
    type V = Machine;

    open spec fn view(&self) -> Machine {
        Machine { st: views(self.st_stack@), nd: views(self.nd_stack@), functions: table(self.functions@) }
    }
}

impl Machine {
    /// This state with `v` on top of the primary stack.
    pub open spec fn push(self, v: Value) -> Machine {
        Machine { st: self.st.push(v), ..self }
    }

    /// This state without the top `n` values of the primary stack.
    pub open spec fn drop(self, n: int) -> Machine {
        Machine { st: self.st.subrange(0, self.st.len() - n), ..self }
    }

    /// The value `depth` places below the top of the primary stack.
    pub open spec fn top(self, depth: int) -> Value {
        self.st[self.st.len() - 1 - depth]
    }
}

/// `d` reports `fault` at `tok`.
pub open spec fn reports(d: Diagnostic, tok: Token, fault: Fault) -> bool {
    d.is(Severity::RuntimeError, tok.source, fault.message(), tok.pos, tok.span(), tok.line)
}

/// The message of a fault about the label `name`: it quotes the name.
pub open spec fn naming(fault: Fault, name: Seq<char>) -> Seq<char> {
    match fault {
        Fault::UnknownLabel => "Unknown label \""@ + name + "\""@,
        Fault::LabelConflict => "Label \""@ + name + "\" conflicts between concatenated code objects"@,
        _ => fault.message(),
    }
}

/// `step` is the failure `fault` about the label `name`, reported at `tok`.
pub open spec fn failed_naming(step: Step, tok: Token, fault: Fault, name: Seq<char>) -> bool {
    step matches Step::Fail(d) && d.is(
        Severity::RuntimeError,
        tok.source,
        naming(fault, name),
        tok.pos,
        tok.span(),
        tok.line,
    )
}

/// `step` is the failure `fault` reported at `tok`.
pub open spec fn failed(step: Step, tok: Token, fault: Fault) -> bool {
    step matches Step::Fail(d) && reports(d, tok, fault)
}

/// The state `post` is `m` with some code on top that is `x` followed by `y`.
pub open spec fn pushed_join(m: Machine, x: Rc<Code>, y: Rc<Code>, post: Machine) -> bool {
    &&& post.st.len() == m.st.len() + 1
    &&& post.drop(1) == m
    &&& post.top(0) matches Value::Code(c) && joined(&*x, &*y, &*c) && (x.well_formed() && y.well_formed()
        ==> c.well_formed())
}

/// Whether `v` is an `Int` or a `Float`.
pub open spec fn is_number(v: Value) -> bool {
    v is Int || v is Float
}

/// The number that `v` is.
pub open spec fn number(v: Value) -> Number {
    match v {
        Value::Int(x) => Number::Int(x),
        Value::Float(x) => Number::Float(x),
        _ => Number::Int(0),
    }
}

/// Whether `op` is `=`, `>` or `<`.
pub open spec fn is_comparison(op: TokenType) -> bool {
    op is Equal || op is Greater || op is Less
}

/// Whether `op` is `+`, `-`, `*`, `/` or `%`.
pub open spec fn is_arithmetic(op: TokenType) -> bool {
    op is Plus || op is Minus || op is Star || op is Slash || op is Mod
}

/// Whether `op` takes two operands and leaves one value.
pub open spec fn is_binary(op: TokenType) -> bool {
    is_arithmetic(op) || is_comparison(op) || op is And || op is Or
}

/// What a binary operator at `tok` makes of `a` and `b`, taken from a stack
/// that is left as `m`: the state `post` and the step `step`.
pub open spec fn combined(m: Machine, tok: Token, a: Value, b: Value, next: usize, post: Machine, step: Step) -> bool {
    let op = tok.type_;
    match (a, b) {
        (Value::Int(x), Value::Int(y)) => match int_result(op, x, y) {
            Some(v) => post == m.push(Value::Int(v)) && step == Step::Goto(next),
            None => (failed(step, tok, Fault::DivideByZero) && post == m),
        },
        (Value::Text(s), Value::Text(t)) => if op is Plus {
            post == m.push(Value::Text(s + t)) && step == Step::Goto(next)
        } else {
            match text_result(op, s, t) {
                Some(v) => post == m.push(Value::Int(v)) && step == Step::Goto(next),
                None => (failed(step, tok, Fault::Operand) && post == m),
            }
        },
        (Value::Int(x), Value::Text(t)) => if op is Plus {
            post == m.push(Value::Text(decimal(x as int) + t)) && step == Step::Goto(next)
        } else {
            (failed(step, tok, Fault::Operand) && post == m)
        },
        (Value::Text(s), Value::Int(y)) => if op is Plus {
            post == m.push(Value::Text(s + decimal(y as int))) && step == Step::Goto(next)
        } else {
            (failed(step, tok, Fault::Operand) && post == m)
        },
        (Value::Float(x), Value::Text(t)) => if op is Plus {
            post == m && (step matches Step::Float(FloatWork::Append(f, s)) && f == x && s@ == t)
        } else {
            (failed(step, tok, Fault::Operand) && post == m)
        },
        (Value::Text(s), Value::Float(y)) => if op is Plus {
            post == m && (step matches Step::Float(FloatWork::Prepend(t, f)) && f == y && t@ == s)
        } else {
            (failed(step, tok, Fault::Operand) && post == m)
        },
        (Value::Code(x), Value::Code(y)) => if op is Plus {
            if x.conflicts(&*y) {
                (failed_naming(
                    step,
                    tok,
                    Fault::LabelConflict,
                    y.labels@[x.first_conflict(&*y, 0)].name@,
                ) && post == m)
            } else if x.overflows(&*y) {
                (failed(step, tok, Fault::LabelRange) && post == m)
            } else {
                pushed_join(m, x, y, post) && step == Step::Goto(next)
            }
        } else {
            (failed(step, tok, Fault::Operand) && post == m)
        },
        _ => if is_number(a) && is_number(b) && is_comparison(op) {
            post == m && step == Step::Float(FloatWork::Compare(number(a), number(b)))
        } else if is_number(a) && is_number(b) && is_arithmetic(op) {
            post == m && step == Step::Float(FloatWork::Arith(number(a), number(b)))
        } else {
            (failed(step, tok, Fault::Operand) && post == m)
        },
    }
}

/// What a transfer at index `i` to `target` does, the operands taken from a
/// stack that is left as `m`.
pub open spec fn transferred(m: Machine, code: &Code, i: usize, target: Value, post: Machine, step: Step) -> bool {
    let tok = code.tokens@[i as int];
    &&& post == m
    &&& match target {
        Value::Int(n) => step == Step::Goto(landing(i as int, n as int, code.tokens@.len() as int) as usize),
        Value::Float(f) => step == Step::Float(FloatWork::Offset(f)),
        Value::Text(t) => match code.label(t) {
            Some(k) => step == Step::Goto(k),
            None => failed_naming(step, tok, Fault::UnknownLabel, t),
        },
        Value::Code(c) => step == Step::Call(c, (i + 1) as usize),
    }
}

/// The state `post` is `m` with the code that `text` scans to on top: a
/// well-formed code of the shape that scanning gives, whose tokens refer to
/// `text` as their source.
pub open spec fn pushed_scan(m: Machine, text: Seq<char>, post: Machine) -> bool {
    &&& post.st.len() == m.st.len() + 1
    &&& post.drop(1) == m
    &&& post.top(0) matches Value::Code(c) && c.shape() == lex_text(text).code && c.well_formed() && scanned_from(
        &*c,
        text,
    )
}

/// What `~` makes of `v`, taken from a stack that is left as `m`: the
/// complement of an integer; the code that a text scans to, or the errors
/// found in it; a `Float` goes to the host.
pub open spec fn transformed(m: Machine, tok: Token, v: Value, next: usize, post: Machine, step: Step) -> bool {
    match v {
        Value::Int(x) => post == m.push(Value::Int(!x)) && step == Step::Goto(next),
        Value::Float(f) => post == m && step == Step::Float(FloatWork::Truncate(f)),
        Value::Text(t) => if lex_text(t).errors.len() > 0 {
            post == m && (step matches Step::Rejected(errors) && accounts(errors@) == lex_text(t).errors)
        } else {
            pushed_scan(m, t, post) && step == Step::Goto(next)
        },
        Value::Code(_) => failed(step, tok, Fault::Operand) && post == m,
    }
}

/// What a stack instruction at `tok` does: `@` drops the top of the secondary
/// stack, `#` swaps the stacks, `,` and `;` move a value from one stack to
/// the other, `.` doubles the top of the primary stack.
pub open spec fn shuffled(pre: Machine, tok: Token, next: usize, post: Machine, step: Step) -> bool {
    match tok.type_ {
        TokenType::At => if pre.nd.len() == 0 {
            (failed(step, tok, Fault::EmptySecondary) && post == pre)
        } else {
            post == (Machine { nd: pre.nd.drop_last(), ..pre }) && step == Step::Goto(next)
        },
        TokenType::Hash => post == (Machine { st: pre.nd, nd: pre.st, ..pre }) && step == Step::Goto(next),
        TokenType::Comma => if pre.st.len() == 0 {
            (failed(step, tok, Fault::EmptyPrimary) && post == pre)
        } else {
            post == (Machine { nd: pre.nd.push(pre.top(0)), ..pre.drop(1) }) && step == Step::Goto(next)
        },
        TokenType::Semicolon => if pre.nd.len() == 0 {
            (failed(step, tok, Fault::EmptySecondary) && post == pre)
        } else {
            post == (Machine { st: pre.st.push(pre.nd.last()), nd: pre.nd.drop_last(), ..pre }) && step
                == Step::Goto(next)
        },
        _ => if pre.st.len() == 0 {
            (failed(step, tok, Fault::PeekEmpty) && post == pre)
        } else {
            post == pre.push(pre.top(0)) && step == Step::Goto(next)
        },
    }
}

/// What an instruction on one operand does: `$` prints it, `!` turns it into
/// one or zero, `~` transforms it.
pub open spec fn applied(pre: Machine, tok: Token, next: usize, post: Machine, step: Step) -> bool {
    if pre.st.len() == 0 {
        (failed(step, tok, Fault::EmptyPrimary) && post == pre)
    } else {
        match tok.type_ {
            TokenType::Print => post == pre.drop(1) && match pre.top(0) {
                Value::Float(f) => step == Step::Float(FloatWork::Show(f)),
                v => step matches Step::Print(s, n) && Some(s@) == printed(v) && n == next,
            },
            TokenType::Bang => post == pre.drop(1).push(Value::flag(pre.top(0).truthy())) && step == Step::Goto(
                next,
            ),
            _ => transformed(pre.drop(1), tok, pre.top(0), next, post, step),
        }
    }
}

/// What `^` and `?` at index `i` do: `^` takes a target and goes there; `?`
/// takes a target and, below it, a condition, and goes there only if the
/// condition is true.
pub open spec fn jumped(pre: Machine, code: &Code, i: usize, post: Machine, step: Step) -> bool {
    let tok = code.tokens@[i as int];
    if tok.type_ is Jump {
        if pre.st.len() == 0 {
            (failed(step, tok, Fault::EmptyPrimary) && post == pre)
        } else {
            transferred(pre.drop(1), code, i, pre.top(0), post, step)
        }
    } else {
        if pre.st.len() < 2 {
            (failed(step, tok, Fault::EmptyPrimary) && post == pre)
        } else if pre.top(1).truthy() {
            transferred(pre.drop(2), code, i, pre.top(0), post, step)
        } else {
            post == pre.drop(2) && step == Step::Goto((i + 1) as usize)
        }
    }
}

/// What `:` and a name do: `:` takes a name and, below it, a body, and binds
/// the one to the other; a name calls what it is bound to.
pub open spec fn bound(pre: Machine, tok: Token, next: usize, post: Machine, step: Step) -> bool {
    if tok.type_ is Colon {
        if pre.st.len() < 2 {
            (failed(step, tok, Fault::EmptyPrimary) && post == pre)
        } else {
            match (pre.top(0), pre.top(1)) {
                (Value::Text(name), Value::Code(body)) => post == (Machine {
                    functions: pre.functions.insert(name, body),
                    ..pre.drop(2)
                }) && step == Step::Goto(next),
                (Value::Text(_), _) => failed(step, tok, Fault::FunctionBody) && post == pre.drop(2),
                _ => failed(step, tok, Fault::FunctionName) && post == pre.drop(2),
            }
        }
    } else {
        if pre.functions.contains_key(tok.lexeme@) {
            post == pre && step == Step::Call(pre.functions[tok.lexeme@], next)
        } else {
            (failed(step, tok, Fault::UndefinedFunction) && post == pre)
        }
    }
}

/// What a binary operator does: it takes the right operand and, below it, the
/// left one.
pub open spec fn operated(pre: Machine, tok: Token, next: usize, post: Machine, step: Step) -> bool {
    if pre.st.len() < 2 {
        (failed(step, tok, Fault::EmptyPrimary) && post == pre)
    } else {
        combined(pre.drop(2), tok, pre.top(1), pre.top(0), next, post, step)
    }
}

/// The instruction at index `i` of `code`, run in state `pre`, leaves state
/// `post` and asks for `step`.
pub open spec fn stepped(pre: Machine, code: &Code, i: usize, post: Machine, step: Step) -> bool {
    if i >= code.tokens@.len() {
        step == Step::Done && post == pre
    } else {
        let tok = code.tokens@[i as int];
        let next = (i + 1) as usize;
        match tok.type_ {
            TokenType::EOF => step == Step::Done && post == pre,
            TokenType::Int(v) => post == pre.push(Value::Int(v)) && step == Step::Goto(next),
            TokenType::String(s) => post == pre.push(Value::Text(s@)) && step == Step::Goto(next),
            TokenType::Code(c) => post == pre.push(Value::Code(c)) && step == Step::Goto(next),
            TokenType::Float => post == pre && (step matches Step::Float(FloatWork::Literal(t)) && t@
                == tok.lexeme@),
            TokenType::At | TokenType::Hash | TokenType::Comma | TokenType::Semicolon | TokenType::Dot => shuffled(
                pre,
                tok,
                next,
                post,
                step,
            ),
            TokenType::Print | TokenType::Bang | TokenType::Tilde => applied(pre, tok, next, post, step),
            TokenType::Jump | TokenType::Question => jumped(pre, code, i, post, step),
            TokenType::Colon | TokenType::Identifier => bound(pre, tok, next, post, step),
            _ => operated(pre, tok, next, post, step),
        }
    }
}

/// What the engine makes of the host's `answer` to `work`, asked for by the
/// instruction at index `i`.
pub open spec fn resumed(pre: Machine, code: &Code, i: usize, work: FloatWork, answer: Value, post: Machine, step: Step) -> bool {
    if i >= code.tokens@.len() {
        step == Step::Done && post == pre
    } else {
        let tok = code.tokens@[i as int];
        let next = (i + 1) as usize;
        match (work, answer) {
            (FloatWork::Literal(_), Value::Float(f)) => post == pre.push(answer) && step == Step::Goto(next),
            (FloatWork::Arith(_, _), Value::Float(f)) => post == pre.push(answer) && step == Step::Goto(next),
            (FloatWork::Compare(_, _), Value::Int(x)) => post == pre.push(Value::flag(x != 0)) && step
                == Step::Goto(next),
            (FloatWork::Truncate(_), Value::Int(x)) => post == pre.push(answer) && step == Step::Goto(next),
            (FloatWork::Offset(_), Value::Int(x)) => post == pre && step == Step::Goto(
                landing(i as int, x as int, code.tokens@.len() as int) as usize,
            ),
            (FloatWork::Show(_), Value::Text(t)) => post == pre && (step matches Step::Print(s, n) && s@ == t && n
                == next),
            (FloatWork::Prepend(s, _), Value::Text(t)) => post == pre.push(Value::Text(s@ + t)) && step
                == Step::Goto(next),
            (FloatWork::Append(_, s), Value::Text(t)) => post == pre.push(Value::Text(t + s@)) && step
                == Step::Goto(next),
            _ => (failed(step, tok, Fault::Answer) && post == pre),
        }
    }
}

/// Pushing and dropping undo each other.
pub proof fn push_then_drop(m: Machine, v: Value)
    ensures
        m.push(v).drop(1) == m,
        m.push(v).top(0) == v,
        m.push(v).st.len() == m.st.len() + 1,
{
    assert(m.push(v).st.subrange(0, m.push(v).st.len() - 1) =~= m.st);
}

/// The report of `fault` at `tok`.
pub fn diagnose(tok: &Token, fault: Fault) -> (d: Diagnostic)
    ensures
        reports(d, *tok, fault),
{
    let len: usize = if tok.end >= tok.pos { tok.end - tok.pos } else { 0 };
    runtime_error(&tok.source, fault.text(), tok.pos, len, tok.line)
}

fn fail(tok: &Token, fault: Fault) -> (step: Step)
    ensures
        failed(step, *tok, fault),
{
    Step::Fail(diagnose(tok, fault))
}

fn fail_naming(tok: &Token, fault: Fault, name: &str) -> (step: Step)
    ensures
        failed_naming(step, *tok, fault, name@),
{
    let message = match fault {
        Fault::UnknownLabel => join(join("Unknown label \"", name).as_str(), "\""),
        Fault::LabelConflict => join(
            join("Label \"", name).as_str(),
            "\" conflicts between concatenated code objects",
        ),
        _ => String::from_str(fault.text()),
    };
    let len: usize = if tok.end >= tok.pos { tok.end - tok.pos } else { 0 };
    Step::Fail(runtime_error(&tok.source, message.as_str(), tok.pos, len, tok.line))
}

fn comparison(op: &TokenType) -> (r: bool)
    ensures
        r == is_comparison(*op),
{
    match op {
        TokenType::Equal => true,
        TokenType::Greater => true,
        TokenType::Less => true,
        _ => false,
    }
}

fn arithmetic(op: &TokenType) -> (r: bool)
    ensures
        r == is_arithmetic(*op),
{
    match op {
        TokenType::Plus => true,
        TokenType::Minus => true,
        TokenType::Star => true,
        TokenType::Slash => true,
        TokenType::Mod => true,
        _ => false,
    }
}

fn plus(op: &TokenType) -> (r: bool)
    ensures
        r == (*op is Plus),
{
    match op {
        TokenType::Plus => true,
        _ => false,
    }
}

impl Interpreter {
    /// A state with empty stacks and no functions.
    pub fn new() -> (r: Interpreter)
        ensures
            r@.st == Seq::<Value>::empty(),
            r@.nd == Seq::<Value>::empty(),
            r@.functions == Map::<Seq<char>, Rc<Code>>::empty(),
    {
        let r = Interpreter { st_stack: Vec::new(), nd_stack: Vec::new(), functions: Vec::new() };
        proof {
            assert(r@.st =~= Seq::<Value>::empty());
            assert(r@.nd =~= Seq::<Value>::empty());
            assert(r@.functions =~= Map::<Seq<char>, Rc<Code>>::empty());
        }
        r
    }

    /// Puts `o` on the primary stack.
    pub fn push(&mut self, o: Object)
        ensures
            final(self)@ == old(self)@.push(o@),
    {
        self.st_stack.push(o);
        proof {
            assert(self@.st =~= old(self)@.st.push(o@));
        }
    }

    /// Puts `o` on the secondary stack.
    pub fn push_nd(&mut self, o: Object)
        ensures
            final(self)@ == (Machine { nd: old(self)@.nd.push(o@), ..old(self)@ }),
    {
        self.nd_stack.push(o);
        proof {
            assert(self@.nd =~= old(self)@.nd.push(o@));
        }
    }

    /// Takes the top of the primary stack, or reports at `tok` that it is
    /// empty.
    pub fn checked_pop(&mut self, tok: &Token) -> (r: Result<Object, Diagnostic>)
        ensures
            old(self)@.st.len() == 0 ==> (r matches Err(d) && reports(d, *tok, Fault::EmptyPrimary)) && final(self)@
                == old(self)@,
            old(self)@.st.len() > 0 ==> (r matches Ok(o) && o@ == old(self)@.top(0)) && final(self)@ == old(self)@.drop(1),
    {
        match self.st_stack.pop() {
            Some(popped) => {
                proof {
                    assert(self@.st =~= old(self)@.st.subrange(0, old(self)@.st.len() - 1));
                }
                Ok(popped)
            },
            None => Err(diagnose(tok, Fault::EmptyPrimary)),
        }
    }

    /// Takes the top of the secondary stack, or reports at `tok` that it is
    /// empty.
    pub fn checked_pop_nd(&mut self, tok: &Token) -> (r: Result<Object, Diagnostic>)
        ensures
            old(self)@.nd.len() == 0 ==> (r matches Err(d) && reports(d, *tok, Fault::EmptySecondary)) && final(self)@ == old(self)@,
            old(self)@.nd.len() > 0 ==> (r matches Ok(o) && o@ == old(self)@.nd.last()) && final(self)@ == (Machine {
                nd: old(self)@.nd.drop_last(),
                ..old(self)@
            }),
    {
        match self.nd_stack.pop() {
            Some(popped) => {
                proof {
                    assert(self@.nd =~= old(self)@.nd.drop_last());
                }
                Ok(popped)
            },
            None => Err(diagnose(tok, Fault::EmptySecondary)),
        }
    }

    /// Where the definition of `name` that counts stands.
    fn position(&self, name: &String) -> (r: Option<usize>)
        ensures
            r matches Some(k) ==> {
                &&& k < self.functions@.len()
                &&& self.functions@[k as int].name@ == name@
                &&& forall|j: int| k < j < self.functions@.len() ==> (#[trigger] self.functions@[j]).name@ != name@
                &&& self@.functions.contains_key(name@)
                &&& self@.functions[name@] == self.functions@[k as int].body
            },
            r is None ==> !self@.functions.contains_key(name@),
    {
        let mut k: usize = self.functions.len();
        while k > 0
            invariant
                k <= self.functions@.len(),
                forall|j: int| k <= j < self.functions@.len() ==> (#[trigger] self.functions@[j]).name@ != name@,
                find_function(self.functions@, name@, self.functions@.len() as int) == find_function(
                    self.functions@,
                    name@,
                    k as int,
                ),
            decreases k,
        {
            k = k - 1;
            if *self.functions[k].name == *name {
                return Some(k);
            }
        }
        None
    }

    /// Binds `name` to `body`, in place of what it was bound to.
    pub fn define(&mut self, name: Rc<String>, body: Rc<Code>)
        ensures
            final(self)@ == (Machine { functions: old(self)@.functions.insert(name@, body), ..old(self)@ }),
    {
        let ghost before = self.functions@;
        match self.position(&name) {
            Some(k) => {
                self.functions.set(k, Function { name, body });
                proof {
                    assert forall|n: Seq<char>|
                        find_function(self.functions@, n, self.functions@.len() as int) == (if n == name@ {
                            Some(body)
                        } else {
                            find_function(before, n, before.len() as int)
                        }) by {
                        redefined(before, self.functions@, k as int, n, before.len() as int);
                    }
                }
            },
            None => {
                self.functions.push(Function { name, body });
                proof {
                    assert forall|n: Seq<char>|
                        find_function(self.functions@, n, self.functions@.len() as int) == (if n == name@ {
                            Some(body)
                        } else {
                            find_function(before, n, before.len() as int)
                        }) by {
                        find_function_prefix(self.functions@, before, n, before.len() as int);
                    }
                }
            },
        }
        proof {
            assert(self@.functions =~= old(self)@.functions.insert(name@, body));
        }
    }

    /// The body that `name` is bound to.
    pub fn function(&self, name: &String) -> (r: Option<Rc<Code>>)
        ensures
            self@.functions.contains_key(name@) ==> r == Some(self@.functions[name@]),
            !self@.functions.contains_key(name@) ==> r is None,
    {
        match self.position(name) {
            Some(k) => Some(share(&self.functions[k].body)),
            None => None,
        }
    }

    /// Applies the binary operator at `tok` to `a` and `b`.
    fn combine(&mut self, tok: &Token, a: Object, b: Object, next: usize) -> (step: Step)
        ensures
            combined(old(self)@, *tok, a@, b@, next, final(self)@, step),
    {
        let op = &tok.type_;
        match (a, b) {
            (Object::Int(x), Object::Int(y)) => match int_binary(op, x, y) {
                Some(v) => {
                    self.push(Object::Int(v));
                    Step::Goto(next)
                },
                None => fail(tok, Fault::DivideByZero),
            },
            (Object::String(s), Object::String(t)) => {
                if plus(op) {
                    self.push(Object::String(Rc::new(join(s.as_str(), t.as_str()))));
                    Step::Goto(next)
                } else {
                    match text_binary(op, &s, &t) {
                        Some(v) => {
                            self.push(Object::Int(v));
                            Step::Goto(next)
                        },
                        None => fail(tok, Fault::Operand),
                    }
                }
            },
            (Object::Int(x), Object::String(t)) => {
                if plus(op) {
                    self.push(Object::String(Rc::new(join(int_text(x).as_str(), t.as_str()))));
                    Step::Goto(next)
                } else {
                    fail(tok, Fault::Operand)
                }
            },
            (Object::String(s), Object::Int(y)) => {
                if plus(op) {
                    self.push(Object::String(Rc::new(join(s.as_str(), int_text(y).as_str()))));
                    Step::Goto(next)
                } else {
                    fail(tok, Fault::Operand)
                }
            },
            (Object::Float(x), Object::String(t)) => {
                if plus(op) {
                    Step::Float(FloatWork::Append(x, t))
                } else {
                    fail(tok, Fault::Operand)
                }
            },
            (Object::String(s), Object::Float(y)) => {
                if plus(op) {
                    Step::Float(FloatWork::Prepend(s, y))
                } else {
                    fail(tok, Fault::Operand)
                }
            },
            (Object::Code(x), Object::Code(y)) => {
                if plus(op) {
                    match x.concat(&y) {
                        Ok(c) => {
                            let ghost m = self@;
                            let o = Object::Code(Rc::new(c));
                            self.push(o);
                            proof {
                                push_then_drop(m, o@);
                            }
                            Step::Goto(next)
                        },
                        Err(JoinError::Conflict(j)) => fail_naming(
                            tok,
                            Fault::LabelConflict,
                            y.labels[j].name.as_str(),
                        ),
                        Err(JoinError::Range) => fail(tok, Fault::LabelRange),
                    }
                } else {
                    fail(tok, Fault::Operand)
                }
            },
            (Object::Int(x), Object::Float(y)) => self.mixed(tok, Number::Int(x), Number::Float(y)),
            (Object::Float(x), Object::Int(y)) => self.mixed(tok, Number::Float(x), Number::Int(y)),
            (Object::Float(x), Object::Float(y)) => self.mixed(tok, Number::Float(x), Number::Float(y)),
            _ => fail(tok, Fault::Operand),
        }
    }

    /// Hands two numbers, one of them a `Float`, to the host.
    fn mixed(&self, tok: &Token, a: Number, b: Number) -> (step: Step)
        ensures
            is_comparison(tok.type_) ==> step == Step::Float(FloatWork::Compare(a, b)),
            !is_comparison(tok.type_) && is_arithmetic(tok.type_) ==> step == Step::Float(FloatWork::Arith(a, b)),
            !is_comparison(tok.type_) && !is_arithmetic(tok.type_) ==> failed(step, *tok, Fault::Operand),
    {
        if comparison(&tok.type_) {
            Step::Float(FloatWork::Compare(a, b))
        } else if arithmetic(&tok.type_) {
            Step::Float(FloatWork::Arith(a, b))
        } else {
            fail(tok, Fault::Operand)
        }
    }

    /// Goes where `target` says.
    fn transfer(&self, code: &Code, i: usize, target: Object) -> (step: Step)
        requires
            i < code.tokens@.len(),
        ensures
            transferred(self@, code, i, target@, self@, step),
    {
        let len = code.tokens.len();
        match target {
            Object::Int(n) => Step::Goto(jump_target(i, n, len)),
            Object::Float(f) => Step::Float(FloatWork::Offset(f)),
            Object::String(t) => match code.lookup(&t) {
                Some(k) => Step::Goto(k),
                None => fail_naming(&code.tokens[i], Fault::UnknownLabel, t.as_str()),
            },
            Object::Code(c) => Step::Call(c, i + 1),
        }
    }

    /// Applies `~` to `v`.
    fn transform(&mut self, tok: &Token, v: Object, next: usize) -> (step: Step)
        ensures
            transformed(old(self)@, *tok, v@, next, final(self)@, step),
    {
        match v {
            Object::Int(x) => {
                self.push(Object::Int(!x));
                Step::Goto(next)
            },
            Object::Float(f) => Step::Float(FloatWork::Truncate(f)),
            Object::String(t) => {
                let mut scanner = Scanner::new(&t);
                let code = scanner.scan_tokens();
                if scanner.had_error {
                    Step::Rejected(scanner.errors)
                } else {
                    let ghost m = self@;
                    let o = Object::Code(Rc::new(code));
                    self.push(o);
                    proof {
                        push_then_drop(m, o@);
                    }
                    Step::Goto(next)
                }
            },
            Object::Code(_) => fail(tok, Fault::Operand),
        }
    }

    /// Runs a stack instruction.
    fn shuffle(&mut self, tok: &Token, next: usize) -> (step: Step)
        ensures
            shuffled(old(self)@, *tok, next, final(self)@, step),
    {
        match &tok.type_ {
            TokenType::At => match self.checked_pop_nd(tok) {
                Ok(_) => Step::Goto(next),
                Err(d) => Step::Fail(d),
            },
            TokenType::Hash => {
                core::mem::swap(&mut self.st_stack, &mut self.nd_stack);
                Step::Goto(next)
            },
            TokenType::Comma => match self.checked_pop(tok) {
                Ok(popped) => {
                    self.push_nd(popped);
                    Step::Goto(next)
                },
                Err(d) => Step::Fail(d),
            },
            TokenType::Semicolon => match self.checked_pop_nd(tok) {
                Ok(popped) => {
                    self.push(popped);
                    Step::Goto(next)
                },
                Err(d) => Step::Fail(d),
            },
            _ => {
                if self.st_stack.len() == 0 {
                    fail(tok, Fault::PeekEmpty)
                } else {
                    let copy = self.st_stack[self.st_stack.len() - 1].duplicate();
                    self.push(copy);
                    Step::Goto(next)
                }
            },
        }
    }

    /// Runs an instruction on one operand.
    fn apply(&mut self, tok: &Token, next: usize) -> (step: Step)
        ensures
            applied(old(self)@, *tok, next, final(self)@, step),
    {
        match self.checked_pop(tok) {
            Ok(popped) => match &tok.type_ {
                TokenType::Print => match popped {
                    Object::Int(x) => Step::Print(int_text(x), next),
                    Object::Float(f) => Step::Float(FloatWork::Show(f)),
                    Object::String(s) => Step::Print(String::from_str(s.as_str()), next),
                    Object::Code(_) => Step::Print(String::from_str("<Code object>"), next),
                },
                TokenType::Bang => {
                    self.push(Object::Int(if popped.is_truthy() { 1 } else { 0 }));
                    Step::Goto(next)
                },
                _ => self.transform(tok, popped, next),
            },
            Err(d) => Step::Fail(d),
        }
    }

    /// Runs `^` or `?`.
    fn jump(&mut self, code: &Code, i: usize) -> (step: Step)
        requires
            i < code.tokens@.len(),
            i < usize::MAX,
        ensures
            jumped(old(self)@, code, i, final(self)@, step),
    {
        let tok = &code.tokens[i];
        match &tok.type_ {
            TokenType::Jump => match self.checked_pop(tok) {
                Ok(target) => self.transfer(code, i, target),
                Err(d) => Step::Fail(d),
            },
            _ => {
                if self.st_stack.len() < 2 {
                    return fail(tok, Fault::EmptyPrimary);
                }
                let (target, condition) = self.pop_two();
                if condition.is_truthy() {
                    self.transfer(code, i, target)
                } else {
                    Step::Goto(i + 1)
                }
            },
        }
    }

    /// Runs `:` or a name.
    fn bind(&mut self, tok: &Token, next: usize) -> (step: Step)
        ensures
            bound(old(self)@, *tok, next, final(self)@, step),
    {
        match &tok.type_ {
            TokenType::Colon => {
                if self.st_stack.len() < 2 {
                    return fail(tok, Fault::EmptyPrimary);
                }
                let (name, body) = self.pop_two();
                match name {
                    Object::String(n) => match body {
                        Object::Code(c) => {
                            self.define(n, c);
                            Step::Goto(next)
                        },
                        _ => fail(tok, Fault::FunctionBody),
                    },
                    _ => fail(tok, Fault::FunctionName),
                }
            },
            _ => match self.function(&tok.lexeme) {
                Some(body) => Step::Call(body, next),
                None => fail(tok, Fault::UndefinedFunction),
            },
        }
    }

    /// Runs a binary operator.
    fn operate(&mut self, tok: &Token, next: usize) -> (step: Step)
        ensures
            operated(old(self)@, *tok, next, final(self)@, step),
    {
        if self.st_stack.len() < 2 {
            return fail(tok, Fault::EmptyPrimary);
        }
        let (b, a) = self.pop_two();
        self.combine(tok, a, b, next)
    }

    /// Runs the instruction at index `i` of `code` and says what comes next.
    pub fn execute(&mut self, code: &Code, i: usize) -> (step: Step)
        ensures
            stepped(old(self)@, code, i, final(self)@, step),
    {
        if i >= code.tokens.len() {
            return Step::Done;
        }
        let tok = &code.tokens[i];
        let next: usize = i + 1;
        match &tok.type_ {
            TokenType::EOF => Step::Done,
            TokenType::Int(v) => {
                self.push(Object::Int(*v));
                Step::Goto(next)
            },
            TokenType::String(s) => {
                self.push(Object::String(share(s)));
                Step::Goto(next)
            },
            TokenType::Code(c) => {
                self.push(Object::Code(share(c)));
                Step::Goto(next)
            },
            TokenType::Float => Step::Float(FloatWork::Literal(tok.lexeme.clone())),
            TokenType::At | TokenType::Hash | TokenType::Comma | TokenType::Semicolon | TokenType::Dot => self.shuffle(
                tok,
                next,
            ),
            TokenType::Print | TokenType::Bang | TokenType::Tilde => self.apply(tok, next),
            TokenType::Jump | TokenType::Question => self.jump(code, i),
            TokenType::Colon | TokenType::Identifier => self.bind(tok, next),
            _ => self.operate(tok, next),
        }
    }

    /// Takes the two topmost values of the primary stack, the top first.
    fn pop_two(&mut self) -> (r: (Object, Object))
        requires
            old(self)@.st.len() >= 2,
        ensures
            r.0@ == old(self)@.top(0),
            r.1@ == old(self)@.top(1),
            final(self)@ == old(self)@.drop(2),
    {
        let first = self.st_stack.pop().unwrap();
        let second = self.st_stack.pop().unwrap();
        proof {
            assert(self@.st =~= old(self)@.st.subrange(0, old(self)@.st.len() - 2));
        }
        (first, second)
    }

    /// Goes on from the host's `answer` to `work`, which the instruction at
    /// index `i` asked for.
    pub fn resume(&mut self, code: &Code, i: usize, work: FloatWork, answer: Object) -> (step: Step)
        ensures
            resumed(old(self)@, code, i, work, answer@, final(self)@, step),
    {
        if i >= code.tokens.len() {
            return Step::Done;
        }
        let tok = &code.tokens[i];
        let next: usize = i + 1;
        match (work, answer) {
            (FloatWork::Literal(_), Object::Float(f)) => {
                self.push(Object::Float(f));
                Step::Goto(next)
            },
            (FloatWork::Arith(_, _), Object::Float(f)) => {
                self.push(Object::Float(f));
                Step::Goto(next)
            },
            (FloatWork::Compare(_, _), Object::Int(x)) => {
                self.push(Object::Int(if x != 0 { 1 } else { 0 }));
                Step::Goto(next)
            },
            (FloatWork::Truncate(_), Object::Int(x)) => {
                self.push(Object::Int(x));
                Step::Goto(next)
            },
            (FloatWork::Offset(_), Object::Int(x)) => Step::Goto(jump_target(i, x, code.tokens.len())),
            (FloatWork::Show(_), Object::String(t)) => Step::Print(String::from_str(t.as_str()), next),
            (FloatWork::Prepend(s, _), Object::String(t)) => {
                self.push(Object::String(Rc::new(join(s.as_str(), t.as_str()))));
                Step::Goto(next)
            },
            (FloatWork::Append(_, s), Object::String(t)) => {
                self.push(Object::String(Rc::new(join(t.as_str(), s.as_str()))));
                Step::Goto(next)
            },
            _ => fail(tok, Fault::Answer),
        }
    }
}

} // verus!
