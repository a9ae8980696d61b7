//! The values of the language, and the operations on them.
//!
//! A number is an IEEE-754 single, kept as its bit pattern. The library never computes with
//! one: where an operation needs the float unit, it hands out a `FloatTask`, and what is left
//! to do once the host has answered is a `Pending`.

use crate::opcode::OpCode;
use crate::span::{decimal_text, push_decimal};
use vstd::prelude::*;
use vstd::std_specs::convert::FromSpecImpl;
use vstd::string::*;

verus! {

/// A value: nothing, a truth value, an integer, a number by its bits, or a text.
#[derive(Debug)]
pub enum Value {
    Nil,
    Bool(bool),
    Int(i32),
    Float(u32),
    String(String),
}

/// A `Value` with its text as a sequence of characters.
pub enum ValueView {
    Nil,
    Bool(bool),
    Int(i32),
    Float(u32),
    String(Seq<char>),
}

impl View for Value {
    type V = ValueView;

    open spec fn view(&self) -> ValueView {
        match self {
            Value::Nil => ValueView::Nil,
            Value::Bool(b) => ValueView::Bool(*b),
            Value::Int(i) => ValueView::Int(*i),
            Value::Float(bits) => ValueView::Float(*bits),
            Value::String(s) => ValueView::String(s@),
        }
    }
}

impl DeepView for Value {
    type V = ValueView;

    open spec fn deep_view(&self) -> ValueView {
        self@
    }
}

impl Clone for Value {
    fn clone(&self) -> (copy: Self)
        ensures
            copy@ == self@,
    {
        match self {
            Value::Nil => Value::Nil,
            Value::Bool(b) => Value::Bool(*b),
            Value::Int(i) => Value::Int(*i),
            Value::Float(bits) => Value::Float(*bits),
            Value::String(s) => Value::String(s.clone()),
        }
    }
}

impl FromSpecImpl<i32> for Value {
    open spec fn obeys_from_spec() -> bool {
        true
    }

    open spec fn from_spec(v: i32) -> Value {
        Value::Int(v)
    }
}

impl From<i32> for Value {
    fn from(v: i32) -> (value: Self) {
        Value::Int(v)
    }
}

impl FromSpecImpl<bool> for Value {
    open spec fn obeys_from_spec() -> bool {
        true
    }

    open spec fn from_spec(v: bool) -> Value {
        Value::Bool(v)
    }
}

impl From<bool> for Value {
    fn from(v: bool) -> (value: Self) {
        Value::Bool(v)
    }
}

/// The four operations of arithmetic.
#[derive(Clone, Copy, Debug, PartialEq, Eq, Structural)]
pub enum ArithOp {
    Add,
    Sub,
    Mul,
    Div,
}

/// Work for the float unit of the host. `Parse` asks for the bits of the single nearest to a
/// decimal literal, `Negate` and `Arith` for the bits of a result, `Equal` and `Greater` for
/// the truth of a comparison, `Text` for the way a number is written out.
#[derive(Debug)]
pub enum FloatTask {
    Parse(String),
    Negate(u32),
    Arith(ArithOp, u32, u32),
    Equal(u32, u32),
    Greater(u32, u32),
    Text(u32),
}

/// A `FloatTask` with its text as a sequence of characters.
pub enum FloatTaskView {
    Parse(Seq<char>),
    Negate(u32),
    Arith(ArithOp, u32, u32),
    Equal(u32, u32),
    Greater(u32, u32),
    Text(u32),
}

impl View for FloatTask {
    type V = FloatTaskView;

    open spec fn view(&self) -> FloatTaskView {
        match self {
            FloatTask::Parse(s) => FloatTaskView::Parse(s@),
            FloatTask::Negate(a) => FloatTaskView::Negate(*a),
            FloatTask::Arith(op, a, b) => FloatTaskView::Arith(*op, *a, *b),
            FloatTask::Equal(a, b) => FloatTaskView::Equal(*a, *b),
            FloatTask::Greater(a, b) => FloatTaskView::Greater(*a, *b),
            FloatTask::Text(a) => FloatTaskView::Text(*a),
        }
    }
}

/// What the host answers to a `FloatTask`.
#[derive(Debug)]
pub enum FloatAnswer {
    Bits(u32),
    Truth(bool),
    Text(String),
}

/// A `FloatAnswer` with its text as a sequence of characters.
pub enum FloatAnswerView {
    Bits(u32),
    Truth(bool),
    Text(Seq<char>),
}

impl View for FloatAnswer {
    type V = FloatAnswerView;

    open spec fn view(&self) -> FloatAnswerView {
        match self {
            FloatAnswer::Bits(a) => FloatAnswerView::Bits(*a),
            FloatAnswer::Truth(t) => FloatAnswerView::Truth(*t),
            FloatAnswer::Text(s) => FloatAnswerView::Text(s@),
        }
    }
}

/// What is left to do with the answer to a `FloatTask`: take the bits as a number, take the
/// truth as a truth value, or put the text behind, or in front of, a text at hand.
#[derive(Debug)]
pub enum Pending {
    Number,
    Truth,
    After(String),
    Before(String),
}

/// A `Pending` with its text as a sequence of characters.
pub enum PendingView {
    Number,
    Truth,
    After(Seq<char>),
    Before(Seq<char>),
}

impl View for Pending {
    type V = PendingView;

    open spec fn view(&self) -> PendingView {
        match self {
            Pending::Number => PendingView::Number,
            Pending::Truth => PendingView::Truth,
            Pending::After(s) => PendingView::After(s@),
            Pending::Before(s) => PendingView::Before(s@),
        }
    }
}

impl PendingView {
    /// Whether `answer` is of the form that this pending work waits for.
    pub open spec fn accepts(self, answer: FloatAnswerView) -> bool {
        match self {
            PendingView::Number => answer is Bits,
            PendingView::Truth => answer is Truth,
            PendingView::After(_) | PendingView::Before(_) => answer is Text,
        }
    }

    /// The value that `answer` completes this pending work to.
    pub open spec fn finish(self, answer: FloatAnswerView) -> ValueView {
        match (self, answer) {
            (PendingView::Number, FloatAnswerView::Bits(bits)) => ValueView::Float(bits),
            (PendingView::Truth, FloatAnswerView::Truth(t)) => ValueView::Bool(t),
            (PendingView::After(left), FloatAnswerView::Text(s)) => ValueView::String(left + s),
            (PendingView::Before(right), FloatAnswerView::Text(s)) => ValueView::String(s + right),
            _ => ValueView::Nil,
        }
    }
}

impl Pending {
    /// Whether `answer` is of the form that this pending work waits for.
    pub fn accepts(&self, answer: &FloatAnswer) -> (yes: bool)
        ensures
            yes == self@.accepts(answer@),
    {
        match (self, answer) {
            (Pending::Number, FloatAnswer::Bits(_)) => true,
            (Pending::Truth, FloatAnswer::Truth(_)) => true,
            (Pending::After(_), FloatAnswer::Text(_)) => true,
            (Pending::Before(_), FloatAnswer::Text(_)) => true,
            _ => false,
        }
    }

    /// Completes the pending work with the host's answer.
    pub fn finish(self, answer: FloatAnswer) -> (value: Value)
        requires
            self@.accepts(answer@),
        ensures
            value@ == self@.finish(answer@),
    {
        match (self, answer) {
            (Pending::Number, FloatAnswer::Bits(bits)) => Value::Float(bits),
            (Pending::Truth, FloatAnswer::Truth(t)) => Value::Bool(t),
            (Pending::After(left), FloatAnswer::Text(s)) => Value::String(left.concat(s.as_str())),
            (Pending::Before(right), FloatAnswer::Text(s)) => Value::String(
                s.concat(right.as_str()),
            ),
            _ => Value::Nil,
        }
    }
}

/// The outcome of an operation on values: the result, or the task that the float unit has
/// to carry out first, with what is left to do then. The result `Nil` says that the operands
/// do not admit the operation.
#[derive(Debug)]
pub enum Evaluated {
    Done(Value),
    Ask(FloatTask, Pending),
}

/// An `Evaluated` with its texts as sequences of characters.
pub enum EvaluatedView {
    Done(ValueView),
    Ask(FloatTaskView, PendingView),
}

impl View for Evaluated {
    type V = EvaluatedView;

    open spec fn view(&self) -> EvaluatedView {
        match self {
            Evaluated::Done(v) => EvaluatedView::Done(v@),
            Evaluated::Ask(task, rest) => EvaluatedView::Ask(task@, rest@),
        }
    }
}

/// Whether `i` is the value of an `i32`.
pub open spec fn fits_i32(i: int) -> bool {
    i32::MIN <= i <= i32::MAX
}

/// The integer `i` as a value, where it is the value of an `i32`; `Nil` where it is not.
pub open spec fn int_value(i: int) -> ValueView {
    if fits_i32(i) {
        ValueView::Int(i as i32)
    } else {
        ValueView::Nil
    }
}

/// The quotient of `a` by `b`, rounded towards zero.
pub open spec fn truncated_quotient(a: int, b: int) -> int
    recommends
        b != 0,
{
    if (a >= 0) == (b > 0) {
        if a >= 0 {
            a / b
        } else {
            (-a) / (-b)
        }
    } else if a >= 0 {
        -(a / (-b))
    } else {
        -((-a) / b)
    }
}

/// The integer `i` in decimal, with `-` in front where it is negative.
pub open spec fn int_text(i: int) -> Seq<char> {
    if i < 0 {
        "-"@ + decimal_text((-i) as nat)
    } else {
        decimal_text(i as nat)
    }
}

impl ValueView {
    /// `Bool(false)` and `Nil` count as false; every other value counts as true.
    pub open spec fn truthy(self) -> bool {
        match self {
            ValueView::Bool(b) => b,
            ValueView::Nil => false,
            _ => true,
        }
    }

    /// The sum of two integers, of two numbers, or the two texts joined; a text and a number
    /// are joined with the number written out. An integer sum that overflows is `Nil`.
    pub open spec fn add(self, other: ValueView) -> EvaluatedView {
        match (self, other) {
            (ValueView::Int(a), ValueView::Int(b)) => EvaluatedView::Done(int_value(a + b)),
            (ValueView::Float(a), ValueView::Float(b)) => EvaluatedView::Ask(
                FloatTaskView::Arith(ArithOp::Add, a, b),
                PendingView::Number,
            ),
            (ValueView::String(s), ValueView::Float(b)) => EvaluatedView::Ask(
                FloatTaskView::Text(b),
                PendingView::After(s),
            ),
            (ValueView::Float(a), ValueView::String(s)) => EvaluatedView::Ask(
                FloatTaskView::Text(a),
                PendingView::Before(s),
            ),
            (ValueView::String(s), ValueView::String(t)) => EvaluatedView::Done(
                ValueView::String(s + t),
            ),
            _ => EvaluatedView::Done(ValueView::Nil),
        }
    }

    /// Subtraction, multiplication or division (`op`) of two integers or of two numbers. An
    /// integer result that overflows, and an integer quotient by zero, is `Nil`; integer
    /// division rounds towards zero.
    pub open spec fn arith(self, op: ArithOp, other: ValueView) -> EvaluatedView {
        match (self, other) {
            (ValueView::Int(a), ValueView::Int(b)) => EvaluatedView::Done(
                match op {
                    ArithOp::Add => int_value(a + b),
                    ArithOp::Sub => int_value(a - b),
                    ArithOp::Mul => int_value(a * b),
                    ArithOp::Div => if b == 0 {
                        ValueView::Nil
                    } else {
                        int_value(truncated_quotient(a as int, b as int))
                    },
                },
            ),
            (ValueView::Float(a), ValueView::Float(b)) => EvaluatedView::Ask(
                FloatTaskView::Arith(op, a, b),
                PendingView::Number,
            ),
            _ => EvaluatedView::Done(ValueView::Nil),
        }
    }

    /// Whether two values of one variant are equal. Values of different variants are not
    /// compared: the result is `Nil`.
    pub open spec fn eq(self, other: ValueView) -> EvaluatedView {
        match (self, other) {
            (ValueView::Int(a), ValueView::Int(b)) => EvaluatedView::Done(ValueView::Bool(a == b)),
            (ValueView::Float(a), ValueView::Float(b)) => EvaluatedView::Ask(
                FloatTaskView::Equal(a, b),
                PendingView::Truth,
            ),
            (ValueView::String(s), ValueView::String(t)) => EvaluatedView::Done(
                ValueView::Bool(s == t),
            ),
            (ValueView::Bool(a), ValueView::Bool(b)) => EvaluatedView::Done(ValueView::Bool(a == b)),
            (ValueView::Nil, ValueView::Nil) => EvaluatedView::Done(ValueView::Bool(true)),
            _ => EvaluatedView::Done(ValueView::Nil),
        }
    }

    /// Whether `self` is greater than `other`, for two integers, two numbers or two truth
    /// values (true is greater than false); `Nil` for every other pair.
    pub open spec fn greater(self, other: ValueView) -> EvaluatedView {
        match (self, other) {
            (ValueView::Int(a), ValueView::Int(b)) => EvaluatedView::Done(ValueView::Bool(a > b)),
            (ValueView::Float(a), ValueView::Float(b)) => EvaluatedView::Ask(
                FloatTaskView::Greater(a, b),
                PendingView::Truth,
            ),
            (ValueView::Bool(a), ValueView::Bool(b)) => EvaluatedView::Done(
                ValueView::Bool(a && !b),
            ),
            _ => EvaluatedView::Done(ValueView::Nil),
        }
    }

    /// Whether both values count as true.
    pub open spec fn and(self, other: ValueView) -> ValueView {
        ValueView::Bool(self.truthy() && other.truthy())
    }

    /// Whether one of the values counts as true.
    pub open spec fn or(self, other: ValueView) -> ValueView {
        ValueView::Bool(self.truthy() || other.truthy())
    }

    /// How the value is written out: `Nil`, `true` or `false`, an integer in decimal, a text
    /// as it is. The float unit writes out a number, so there is none for it here.
    pub open spec fn text(self) -> Option<Seq<char>> {
        match self {
            ValueView::Nil => Some("Nil"@),
            ValueView::Bool(b) => Some(
                if b {
                    "true"@
                } else {
                    "false"@
                },
            ),
            ValueView::Int(i) => Some(int_text(i as int)),
            ValueView::Float(_) => None,
            ValueView::String(s) => Some(s),
        }
    }

    /// The value that a literal instruction stands for.
    pub open spec fn of_literal(op: OpCode) -> Option<ValueView> {
        match op {
            OpCode::NIL => Some(ValueView::Nil),
            OpCode::TRUE => Some(ValueView::Bool(true)),
            OpCode::FALSE => Some(ValueView::Bool(false)),
            _ => None,
        }
    }
}

fn int_result(r: Option<i32>) -> (value: Value)
    ensures
        value@ == (match r {
            Some(i) => ValueView::Int(i),
            None => ValueView::Nil,
        }),
{
    match r {
        Some(i) => Value::Int(i),
        None => Value::Nil,
    }
}

fn join(left: &String, right: &str) -> (joined: String)
    ensures
        joined@ == left@ + right@,
{
    let mut s = left.clone();
    s.append(right);
    s
}

impl Value {
    /// Whether the value counts as true.
    pub fn truthy(&self) -> (yes: bool)
        ensures
            yes == self@.truthy(),
    {
        match self {
            Value::Bool(b) => *b,
            Value::Nil => false,
            _ => true,
        }
    }

    pub fn add(&self, other: Self) -> (res: Evaluated)
        ensures
            res@ == self@.add(other@),
    {
        match (self, other) {
            (Value::Int(v1), Value::Int(v2)) => Evaluated::Done(int_result(v1.checked_add(v2))),
            (Value::Float(v1), Value::Float(v2)) => Evaluated::Ask(
                FloatTask::Arith(ArithOp::Add, *v1, v2),
                Pending::Number,
            ),
            (Value::String(v1), Value::Float(v2)) => Evaluated::Ask(
                FloatTask::Text(v2),
                Pending::After(v1.clone()),
            ),
            (Value::Float(v1), Value::String(v2)) => Evaluated::Ask(
                FloatTask::Text(*v1),
                Pending::Before(v2),
            ),
            (Value::String(s1), Value::String(s2)) => Evaluated::Done(
                Value::String(join(s1, s2.as_str())),
            ),
            _ => Evaluated::Done(Value::Nil),
        }
    }

    pub fn sub(&self, other: Self) -> (res: Evaluated)
        ensures
            res@ == self@.arith(ArithOp::Sub, other@),
    {
        match (self, other) {
            (Value::Int(v1), Value::Int(v2)) => Evaluated::Done(int_result(v1.checked_sub(v2))),
            (Value::Float(v1), Value::Float(v2)) => Evaluated::Ask(
                FloatTask::Arith(ArithOp::Sub, *v1, v2),
                Pending::Number,
            ),
            _ => Evaluated::Done(Value::Nil),
        }
    }

    pub fn mul(&self, other: Self) -> (res: Evaluated)
        ensures
            res@ == self@.arith(ArithOp::Mul, other@),
    {
        match (self, other) {
            (Value::Int(v1), Value::Int(v2)) => Evaluated::Done(int_result(v1.checked_mul(v2))),
            (Value::Float(v1), Value::Float(v2)) => Evaluated::Ask(
                FloatTask::Arith(ArithOp::Mul, *v1, v2),
                Pending::Number,
            ),
            _ => Evaluated::Done(Value::Nil),
        }
    }

    pub fn div(&self, other: Self) -> (res: Evaluated)
        ensures
            res@ == self@.arith(ArithOp::Div, other@),
    {
        match (self, other) {
            (Value::Int(v1), Value::Int(v2)) => Evaluated::Done(int_quotient(*v1, v2)),
            (Value::Float(v1), Value::Float(v2)) => Evaluated::Ask(
                FloatTask::Arith(ArithOp::Div, *v1, v2),
                Pending::Number,
            ),
            _ => Evaluated::Done(Value::Nil),
        }
    }

    pub fn eq(&self, other: Self) -> (res: Evaluated)
        ensures
            res@ == self@.eq(other@),
    {
        match (self, other) {
            (Value::Int(v1), Value::Int(v2)) => Evaluated::Done(Value::Bool(*v1 == v2)),
            (Value::Float(v1), Value::Float(v2)) => Evaluated::Ask(
                FloatTask::Equal(*v1, v2),
                Pending::Truth,
            ),
            (Value::String(v1), Value::String(v2)) => Evaluated::Done(Value::Bool(*v1 == v2)),
            (Value::Bool(v1), Value::Bool(v2)) => Evaluated::Done(Value::Bool(*v1 == v2)),
            (Value::Nil, Value::Nil) => Evaluated::Done(Value::Bool(true)),
            _ => Evaluated::Done(Value::Nil),
        }
    }

    pub fn greater(&self, other: Self) -> (res: Evaluated)
        ensures
            res@ == self@.greater(other@),
    {
        match (self, other) {
            (Value::Int(v1), Value::Int(v2)) => Evaluated::Done(Value::Bool(*v1 > v2)),
            (Value::Float(v1), Value::Float(v2)) => Evaluated::Ask(
                FloatTask::Greater(*v1, v2),
                Pending::Truth,
            ),
            (Value::Bool(v1), Value::Bool(v2)) => Evaluated::Done(Value::Bool(*v1 && !v2)),
            _ => Evaluated::Done(Value::Nil),
        }
    }

    pub fn and(&self, other: Self) -> (res: Value)
        ensures
            res@ == self@.and(other@),
    {
        Value::Bool(self.truthy() && other.truthy())
    }

    pub fn or(&self, other: Self) -> (res: Value)
        ensures
            res@ == self@.or(other@),
    {
        Value::Bool(self.truthy() || other.truthy())
    }

    /// How the value is written out; nothing for a number.
    pub fn to_text(&self) -> (text: Option<String>)
        ensures
            text is Some <==> self@.text() is Some,
            text is Some ==> text->0@ == self@.text()->0,
    {
        match self {
            Value::Nil => Some(String::from_str("Nil")),
            Value::Bool(b) => Some(
                if *b {
                    String::from_str("true")
                } else {
                    String::from_str("false")
                },
            ),
            Value::Int(i) => {
                let mut s = String::new();
                if *i < 0 {
                    s.append("-");
                    // the magnitude of the least integer is one more than the greatest
                    let magnitude: u32 = if *i == i32::MIN {
                        0x8000_0000u32
                    } else {
                        (-*i) as u32
                    };
                    push_decimal(&mut s, magnitude);
                    assert(s@ =~= int_text(*i as int));
                } else {
                    push_decimal(&mut s, *i as u32);
                    assert(s@ =~= int_text(*i as int));
                }
                Some(s)
            },
            Value::Float(_) => None,
            Value::String(s) => Some(s.clone()),
        }
    }

    /// The value that a literal instruction stands for; nothing for any other instruction.
    pub fn of_literal(op: OpCode) -> (value: Option<Value>)
        ensures
            value is Some <==> ValueView::of_literal(op) is Some,
            value is Some ==> value->0@ == ValueView::of_literal(op)->0,
    {
        match op {
            OpCode::NIL => Some(Value::Nil),
            OpCode::TRUE => Some(Value::Bool(true)),
            OpCode::FALSE => Some(Value::Bool(false)),
            _ => None,
        }
    }
}

/// The quotient of two integers, rounded towards zero; `Nil` for a divisor of zero and for
/// the one quotient that overflows.
fn int_quotient(a: i32, b: i32) -> (value: Value)
    ensures
        value@ == (if b == 0 {
            ValueView::Nil
        } else {
            int_value(truncated_quotient(a as int, b as int))
        }),
{
    if b == 0 {
        Value::Nil
    } else if a == i32::MIN && b == -1 {
        proof {
            quotient_is_bounded(a as int, b as int);
        }
        Value::Nil
    } else {
        let a_wide: i64 = a as i64;
        let b_wide: i64 = b as i64;
        let q: i64 = if (a_wide >= 0) == (b_wide > 0) {
            if a_wide >= 0 {
                a_wide / b_wide
            } else {
                (-a_wide) / (-b_wide)
            }
        } else if a_wide >= 0 {
            -(a_wide / (-b_wide))
        } else {
            -((-a_wide) / b_wide)
        };
        proof {
            quotient_is_bounded(a as int, b as int);
            assert(q == truncated_quotient(a as int, b as int));
        }
        Value::Int(q as i32)
    }
}

/// The magnitude of a quotient rounded towards zero is that of the dividend where the
/// divisor is 1 or -1, and less than it, unless both are zero, for every other divisor.
pub proof fn quotient_is_bounded(a: int, b: int)
    requires
        b != 0,
    ensures
        ({
            let q = truncated_quotient(a, b);
            let m = if a >= 0 {
                a
            } else {
                -a
            };
            &&& -m <= q <= m
            &&& (b == 1 ==> q == a)
            &&& (b == -1 ==> q == -a)
            &&& (b != 1 && b != -1 && a != 0 ==> -m < q < m)
        }),
{
    let m = if a >= 0 {
        a
    } else {
        -a
    };
    let d = if b > 0 {
        b
    } else {
        -b
    };
    assert(0 <= m / d <= m && (d == 1 ==> m / d == m) && (d >= 2 && m > 0 ==> m / d < m))
        by (nonlinear_arith)
        requires
            m >= 0,
            d >= 1,
    ;
}

} // verus!
