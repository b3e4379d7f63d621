//! What holds of every run of the engine.

use crate::engine::{failed, failed_naming, stepped, Fault, Machine, Step};
use crate::tokens::{find_label, joined, Code, Label};
use crate::value::{landing, remainder, wrap, Value};
use std::rc::Rc;
use vstd::prelude::*;

verus! {

/// `%` on two integers, the divisor not zero, leaves the remainder of the
/// division that rounds toward zero, and execution goes on with the next
/// instruction.
pub proof fn remainder_truncates(pre: Machine, code: &Code, i: usize, post: Machine, step: Step, a: i64, b: i64)
    requires
        stepped(pre, code, i, post, step),
        i < code.tokens@.len(),
        code.tokens@[i as int].type_ is Mod,
        pre.st.len() >= 2,
        pre.top(1) == Value::Int(a),
        pre.top(0) == Value::Int(b),
        b != 0,
    ensures
        post == pre.drop(2).push(Value::Int(wrap(remainder(a as int, b as int)))),
        step == Step::Goto((i + 1) as usize),
        remainder(a as int, b as int) == a - b * crate::value::quotient(a as int, b as int),
        i64::MIN <= remainder(a as int, b as int) <= i64::MAX,
{
    let x = a as int;
    let y = b as int;
    if x >= 0 && y > 0 {
        vstd::arithmetic::div_mod::lemma_fundamental_div_mod(x, y);
        vstd::arithmetic::div_mod::lemma_mod_bound(x, y);
    } else if x < 0 && y < 0 {
        vstd::arithmetic::div_mod::lemma_fundamental_div_mod(-x, -y);
        vstd::arithmetic::div_mod::lemma_mod_bound(-x, -y);
        assert(y * ((-x) / (-y)) == -((-y) * ((-x) / (-y)))) by (nonlinear_arith);
    } else if x < 0 {
        vstd::arithmetic::div_mod::lemma_fundamental_div_mod(-x, y);
        vstd::arithmetic::div_mod::lemma_mod_bound(-x, y);
        assert(y * (-((-x) / y)) == -(y * ((-x) / y))) by (nonlinear_arith);
    } else {
        vstd::arithmetic::div_mod::lemma_fundamental_div_mod(x, -y);
        vstd::arithmetic::div_mod::lemma_mod_bound(x, -y);
        assert(y * (-(x / (-y))) == (-y) * (x / (-y))) by (nonlinear_arith);
    }
}

/// `+` on two integers wraps around: one more than the greatest integer is
/// the least one.
pub proof fn sum_wraps(pre: Machine, code: &Code, i: usize, post: Machine, step: Step, a: i64, b: i64)
    requires
        stepped(pre, code, i, post, step),
        i < code.tokens@.len(),
        code.tokens@[i as int].type_ is Plus,
        pre.st.len() >= 2,
        pre.top(1) == Value::Int(a),
        pre.top(0) == Value::Int(b),
    ensures
        post == pre.drop(2).push(Value::Int(wrap(a + b))),
        step == Step::Goto((i + 1) as usize),
        i64::MIN <= a + b <= i64::MAX ==> wrap(a + b) == a + b,
        a == i64::MAX && b == 1 ==> wrap(a + b) == i64::MIN,
{
}

/// A label found among the first `upto` labels is the name of one of them.
pub proof fn found_label_is_bound(labels: Seq<Label>, name: Seq<char>, upto: int) -> (j: int)
    requires
        find_label(labels, name, upto) is Some,
    ensures
        0 <= j < labels.len(),
        labels[j].name@ == name,
    decreases upto,
{
    if labels[upto - 1].name@ == name {
        upto - 1
    } else {
        found_label_is_bound(labels, name, upto - 1)
    }
}

/// Joining keeps the labels of the right part in place: where `x` has `n`
/// tokens, its closing one included, a label of `y` is found in `x` followed
/// by `y` at its index in `y` plus `n - 1`.
pub proof fn labels_are_stable(x: &Code, y: &Code, whole: &Code, name: Seq<char>)
    requires
        joined(x, y, whole),
        x.tokens@.len() > 0,
        y.label(name) is Some,
    ensures
        whole.label(name) is Some,
        whole.label(name)->Some_0 == (y.label(name)->Some_0 + (x.tokens@.len() - 1)) as usize,
{
    assert(whole.label(name) == (match y.label(name) {
        Some(k) => Some((k + x.body().len()) as usize),
        None => x.label(name),
    }));
}

/// Two codes that bind the same name conflict, so joining them is refused.
pub proof fn shared_label_conflicts(x: &Code, y: &Code, name: Seq<char>)
    requires
        x.label(name) is Some,
        y.label(name) is Some,
    ensures
        x.conflicts(y),
{
    let j = found_label_is_bound(y.labels@, name, y.labels@.len() as int);
    assert(x.label(y.labels@[j].name@) is Some);
}

/// `+` on two codes that bind the same name fails, and the report names the
/// first label of the right code that the left code binds too.
pub proof fn shared_label_fails(pre: Machine, code: &Code, i: usize, post: Machine, step: Step, x: Rc<Code>, y: Rc<Code>, name: Seq<char>)
    requires
        stepped(pre, code, i, post, step),
        i < code.tokens@.len(),
        code.tokens@[i as int].type_ is Plus,
        pre.st.len() >= 2,
        pre.top(1) == Value::Code(x),
        pre.top(0) == Value::Code(y),
        x.label(name) is Some,
        y.label(name) is Some,
    ensures
        failed_naming(
            step,
            code.tokens@[i as int],
            Fault::LabelConflict,
            y.labels@[x.first_conflict(&*y, 0)].name@,
        ),
{
    shared_label_conflicts(&*x, &*y, name);
}

/// A jump by the whole length of the code comes back to where it stands, so
/// a jump at index 0 by the length returns to index 0.
pub proof fn jump_wraps_around(pre: Machine, code: &Code, i: usize, post: Machine, step: Step)
    requires
        stepped(pre, code, i, post, step),
        i < code.tokens@.len(),
        code.tokens@[i as int].type_ is Jump,
        pre.st.len() >= 1,
        pre.top(0) matches Value::Int(n) && n == code.tokens@.len(),
    ensures
        step == Step::Goto(i),
        post == pre.drop(1),
        i == 0 ==> step == Step::Goto(0),
{
    let len = code.tokens@.len() as int;
    vstd::arithmetic::div_mod::lemma_fundamental_div_mod_converse(i + len, len, 1, i as int);
}

/// `?` whose condition is zero goes on with the next instruction; `?` whose
/// condition is another integer goes `offset` places on from where it
/// stands, around the end of the code. Either way it takes its two operands
/// and nothing else.
pub proof fn conditional_jump(pre: Machine, code: &Code, i: usize, post: Machine, step: Step, condition: i64, offset: i64)
    requires
        stepped(pre, code, i, post, step),
        i < code.tokens@.len(),
        code.tokens@[i as int].type_ is Question,
        pre.st.len() >= 2,
        pre.top(1) == Value::Int(condition),
        pre.top(0) == Value::Int(offset),
    ensures
        post == pre.drop(2),
        condition == 0 ==> step == Step::Goto((i + 1) as usize),
        condition != 0 ==> step == Step::Goto(((i + offset) % (code.tokens@.len() as int)) as usize),
{
}

/// A name that `:` has bound calls the body it was bound to, and execution
/// then goes on behind the name.
pub proof fn defined_function_is_called(
    pre: Machine,
    code: &Code,
    i: usize,
    mid: Machine,
    first: Step,
    later: Machine,
    other: &Code,
    j: usize,
    post: Machine,
    second: Step,
    name: Seq<char>,
    body: Rc<Code>,
)
    requires
        stepped(pre, code, i, mid, first),
        i < code.tokens@.len(),
        code.tokens@[i as int].type_ is Colon,
        pre.st.len() >= 2,
        pre.top(0) == Value::Text(name),
        pre.top(1) == Value::Code(body),
        later.functions == mid.functions,
        stepped(later, other, j, post, second),
        j < other.tokens@.len(),
        other.tokens@[j as int].type_ is Identifier,
        other.tokens@[j as int].lexeme@ == name,
    ensures
        first == Step::Goto((i + 1) as usize),
        second == Step::Call(body, (j + 1) as usize),
        post == later,
{
}

/// A jump to a label that the code does not bind, a name that nothing is
/// bound to, and an instruction that finds its stack empty each fail, with
/// a report at the instruction and nothing printed; the report of an unknown
/// label names it.
pub proof fn failures_halt(pre: Machine, code: &Code, i: usize, post: Machine, step: Step)
    requires
        stepped(pre, code, i, post, step),
        i < code.tokens@.len(),
    ensures
        ({
            let tok = code.tokens@[i as int];
            &&& tok.type_ is Jump && pre.st.len() >= 1 && pre.top(0) is Text && code.label(pre.top(0)->Text_0) is None
                ==> failed_naming(step, tok, Fault::UnknownLabel, pre.top(0)->Text_0)
            &&& tok.type_ is Identifier && !pre.functions.contains_key(tok.lexeme@) ==> failed(
                step,
                tok,
                Fault::UndefinedFunction,
            )
            &&& (tok.type_ is Comma || tok.type_ is Print || tok.type_ is Bang || tok.type_ is Tilde || tok.type_ is Jump)
                && pre.st.len() == 0 ==> failed(step, tok, Fault::EmptyPrimary)
            &&& (tok.type_ is Semicolon || tok.type_ is At) && pre.nd.len() == 0 ==> failed(
                step,
                tok,
                Fault::EmptySecondary,
            )
            &&& (tok.type_ is Question || tok.type_ is Colon || crate::engine::is_binary(tok.type_)) && pre.st.len() < 2
                ==> failed(step, tok, Fault::EmptyPrimary)
            &&& tok.type_ is Dot && pre.st.len() == 0 ==> failed(step, tok, Fault::PeekEmpty)
        }),
{
}

} // verus!
