//! Runtime values and the operations on integers and texts.

use crate::tokens::{Code, TokenType};
use crate::utils::share;
use std::rc::Rc;
use vstd::prelude::*;
use vstd::string::*;

verus! {

/// A runtime value. A `Float` holds the bit pattern of its binary64 number;
/// what such a number adds up to or looks like in print is left to the host.
#[derive(Debug)]
pub enum Object {
    Int(i64),
    Float(u64),
    /// A text, shared by all that hold it.
    String(Rc<String>),
    Code(Rc<Code>),
}

/// A value as contracts see it.
pub enum Value {
    Int(i64),
    Float(u64),
    Text(Seq<char>),
    Code(Rc<Code>),
}

impl View for Object {
    type V = Value;

    open spec fn view(&self) -> Value {
        match self {
            Object::Int(x) => Value::Int(*x),
            Object::Float(x) => Value::Float(*x),
            Object::String(x) => Value::Text(x@),
            Object::Code(x) => Value::Code(*x),
        }
    }
}

/// The values of a stack, bottom first.
pub open spec fn views(s: Seq<Object>) -> Seq<Value> {
    s.map_values(|o: Object| o@)
}

impl Value {
    /// Zero of either sign is false; every other number, text and code is
    /// true.
    pub open spec fn truthy(self) -> bool {
        match self {
            Value::Int(x) => x != 0,
            Value::Float(x) => x != 0 && x != 0x8000_0000_0000_0000u64,
            _ => true,
        }
    }

    /// One for true, zero for false.
    pub open spec fn flag(b: bool) -> Value {
        Value::Int(if b { 1i64 } else { 0i64 })
    }
}

/// The decimal digit for `d`.
pub open spec fn digit_of(d: int) -> char {
    if d == 0 {
        '0'
    } else if d == 1 {
        '1'
    } else if d == 2 {
        '2'
    } else if d == 3 {
        '3'
    } else if d == 4 {
        '4'
    } else if d == 5 {
        '5'
    } else if d == 6 {
        '6'
    } else if d == 7 {
        '7'
    } else if d == 8 {
        '8'
    } else {
        '9'
    }
}

/// The decimal digits of `n`, without leading zeros.
pub open spec fn digits(n: nat) -> Seq<char>
    decreases n,
{
    if n < 10 {
        seq![digit_of(n as int)]
    } else {
        digits(n / 10).push(digit_of((n % 10) as int))
    }
}

/// How an integer is written: its digits, after a minus sign if it is
/// negative.
pub open spec fn decimal(x: int) -> Seq<char> {
    if x < 0 {
        seq!['-'] + digits((-x) as nat)
    } else {
        digits(x as nat)
    }
}

/// Whether text `a` comes before text `b`: at the first place where they
/// differ `a` has the smaller character, or `a` ends there and `b` goes on.
pub open spec fn precedes(a: Seq<char>, b: Seq<char>) -> bool
    decreases a.len(),
{
    if b.len() == 0 {
        false
    } else if a.len() == 0 {
        true
    } else if a[0] != b[0] {
        (a[0] as u32) < (b[0] as u32)
    } else {
        precedes(a.drop_first(), b.drop_first())
    }
}

/// `n` brought into the range of `i64` by adding or taking a multiple of
/// 2^64.
pub open spec fn wrap(n: int) -> i64 {
    let m = n % 0x1_0000_0000_0000_0000;
    if m > i64::MAX {
        (m - 0x1_0000_0000_0000_0000) as i64
    } else {
        m as i64
    }
}

/// The quotient of `a` by `b` rounded toward zero.
pub open spec fn quotient(a: int, b: int) -> int
    recommends
        b != 0,
{
    if a >= 0 && b > 0 {
        a / b
    } else if a < 0 && b < 0 {
        (-a) / (-b)
    } else if a < 0 {
        -((-a) / b)
    } else {
        -(a / (-b))
    }
}

/// What `a` leaves over `b` times the quotient rounded toward zero: it has
/// the sign of `a`.
pub open spec fn remainder(a: int, b: int) -> int
    recommends
        b != 0,
{
    if a >= 0 && b > 0 {
        a % b
    } else if a < 0 && b < 0 {
        -((-a) % (-b))
    } else if a < 0 {
        -((-a) % b)
    } else {
        a % (-b)
    }
}

/// What an operator makes of two integers: the wrapped sum, difference or
/// product, the quotient or remainder unless the divisor is zero, the bitwise
/// meet or join, or one or zero for a comparison.
pub open spec fn int_result(op: TokenType, x: i64, y: i64) -> Option<i64> {
    match op {
        TokenType::Plus => Some(wrap(x + y)),
        TokenType::Minus => Some(wrap(x - y)),
        TokenType::Star => Some(wrap(x * y)),
        TokenType::Slash => if y == 0 {
            None
        } else {
            Some(wrap(quotient(x as int, y as int)))
        },
        TokenType::Mod => if y == 0 {
            None
        } else {
            Some(wrap(remainder(x as int, y as int)))
        },
        TokenType::And => Some(x & y),
        TokenType::Or => Some(x | y),
        TokenType::Equal => Some(if x == y { 1i64 } else { 0i64 }),
        TokenType::Greater => Some(if x > y { 1i64 } else { 0i64 }),
        TokenType::Less => Some(if x < y { 1i64 } else { 0i64 }),
        _ => None,
    }
}

/// Applies a binary operator to two integers.
pub fn int_binary(op: &TokenType, x: i64, y: i64) -> (r: Option<i64>)
    ensures
        r == int_result(*op, x, y),
{
    match op {
        TokenType::Plus => Some(x.wrapping_add(y)),
        TokenType::Minus => Some(x.wrapping_sub(y)),
        TokenType::Star => Some(x.wrapping_mul(y)),
        TokenType::Slash => {
            if y == 0 {
                None
            } else {
                match x.checked_div(y) {
                    Some(q) => Some(q),
                    None => Some(i64::MIN),
                }
            }
        },
        TokenType::Mod => {
            if y == 0 {
                None
            } else {
                match x.checked_rem(y) {
                    Some(q) => Some(q),
                    None => Some(0),
                }
            }
        },
        TokenType::And => Some(x & y),
        TokenType::Or => Some(x | y),
        TokenType::Equal => Some(if x == y { 1 } else { 0 }),
        TokenType::Greater => Some(if x > y { 1 } else { 0 }),
        TokenType::Less => Some(if x < y { 1 } else { 0 }),
        _ => None,
    }
}

/// What a comparison makes of two texts.
pub open spec fn text_result(op: TokenType, a: Seq<char>, b: Seq<char>) -> Option<i64> {
    match op {
        TokenType::Equal => Some(if a == b { 1i64 } else { 0i64 }),
        TokenType::Greater => Some(if precedes(b, a) { 1i64 } else { 0i64 }),
        TokenType::Less => Some(if precedes(a, b) { 1i64 } else { 0i64 }),
        _ => None,
    }
}

/// Applies a comparison to two texts.
pub fn text_binary(op: &TokenType, a: &String, b: &String) -> (r: Option<i64>)
    ensures
        r == text_result(*op, a@, b@),
{
    match op {
        TokenType::Equal => Some(if *a == *b { 1 } else { 0 }),
        TokenType::Greater => Some(if text_less(b.as_str(), a.as_str()) { 1 } else { 0 }),
        TokenType::Less => Some(if text_less(a.as_str(), b.as_str()) { 1 } else { 0 }),
        _ => None,
    }
}

/// The decimal form of an integer.
///
/// Trusted: `i64::to_string` of std, which writes the digits of the number
/// in base ten without leading zeros, after a minus sign if it is negative.
#[verifier::external_body]
pub(crate) fn int_text(x: i64) -> (r: String)
    ensures
        r@ == decimal(x as int),
{
    x.to_string()
}

/// Whether `a` sorts before `b`.
///
/// Trusted: the `<` of std on `str`, which orders texts lexicographically by
/// their bytes, and so by their characters' code points.
#[verifier::external_body]
pub(crate) fn text_less(a: &str, b: &str) -> (r: bool)
    ensures
        r == precedes(a@, b@),
{
    a < b
}

/// `a` followed by `b`.
pub fn join(a: &str, b: &str) -> (r: String)
    ensures
        r@ == a@ + b@,
{
    let mut r = String::from_str(a);
    r.append(b);
    r
}

impl Object {
    /// Whether the value counts as true.
    pub fn is_truthy(&self) -> (r: bool)
        ensures
            r == self@.truthy(),
    {
        match self {
            Object::Int(x) => *x != 0,
            Object::Float(x) => *x != 0 && *x != 0x8000_0000_0000_0000u64,
            Object::String(_) => true,
            Object::Code(_) => true,
        }
    }

    /// The line that printing this value writes, but for a `Float`, whose
    /// digits the host has to supply.
    pub fn print(&self) -> (r: Option<String>)
        ensures
            printed(self@) matches Some(t) ==> r is Some && r->Some_0@ == t,
            printed(self@) is None ==> r is None,
    {
        match self {
            Object::Int(x) => Some(int_text(*x)),
            Object::Float(_) => None,
            Object::String(x) => Some(String::from_str(x.as_str())),
            Object::Code(_) => Some(String::from_str("<Code object>")),
        }
    }

    /// The same value again; a text or a code value is shared, not copied.
    pub fn duplicate(&self) -> (r: Object)
        ensures
            r == *self,
    {
        match self {
            Object::Int(x) => Object::Int(*x),
            Object::Float(x) => Object::Float(*x),
            Object::String(x) => Object::String(share(x)),
            Object::Code(x) => Object::Code(share(x)),
        }
    }
}

/// What printing a value writes: an integer in decimal, a text as it is, a
/// code value as a fixed placeholder.
pub open spec fn printed(v: Value) -> Option<Seq<char>> {
    match v {
        Value::Int(x) => Some(decimal(x as int)),
        Value::Float(_) => None,
        Value::Text(t) => Some(t),
        Value::Code(_) => Some("<Code object>"@),
    }
}

/// Where a jump by `offset` from index `i` lands in a sequence of `len`
/// tokens: offsets wrap around both ends.
pub open spec fn landing(i: int, offset: int, len: int) -> int
    recommends
        len > 0,
{
    (i + offset) % len
}

/// The index that a jump by `offset` from `i` leads to.
pub fn jump_target(i: usize, offset: i64, len: usize) -> (r: usize)
    requires
        i < len,
    ensures
        r == landing(i as int, offset as int, len as int),
        r < len,
{
    let l: u128 = len as u128;
    let base: u128 = i as u128;
    if offset >= 0 {
        ((base + offset as u128) % l) as usize
    } else {
        let m: u128 = (-(offset as i128)) as u128;
        let back: u128 = m % l;
        proof {
            let q = (m / l) as int;
            assert(m == q * l + back) by {
                vstd::arithmetic::div_mod::lemma_fundamental_div_mod(m as int, l as int);
            }
            let t: int = if base >= back { base - back } else { base + l - back };
            let k: int = if base >= back { -q } else { -q - 1 };
            assert(i + offset == k * l + t) by (nonlinear_arith)
                requires
                    m == q * l + back,
                    offset == -m,
                    i == base,
                    t == (if base >= back { base - back } else { base + l - back }),
                    k == (if base >= back { -q } else { -q - 1 }),
            ;
            vstd::arithmetic::div_mod::lemma_fundamental_div_mod_converse(i + offset, l as int, k, t);
        }
        if base >= back {
            (base - back) as usize
        } else {
            (base + l - back) as usize
        }
    }
}

} // verus!
