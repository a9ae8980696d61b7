//! The stack machine.
//!
//! The machine runs one instruction at a time. Printing and the arithmetic of numbers are the
//! host's: a step that prints hands the line out, and a step that needs the float unit hands
//! out the task and waits for the answer.

use crate::chunk::{Chunk, Constant, ConstantView, runnable};
use crate::errors::{RTError, RuntimeError, RuntimeErrorView};
use crate::opcode::{ConstIdx, OpCode};
use crate::stack::{Stack, STACK_MAX, StackError};
use crate::value::{
    Evaluated, EvaluatedView, FloatAnswer, FloatAnswerView, FloatTask, FloatTaskView, Pending,
    PendingView, Value, ValueView,
};
use crate::value::ArithOp;
use crate::var_store::VarStore;
use vstd::prelude::*;
use vstd::string::*;

verus! {

/// What the host has to do after a step: nothing, stop, print a line, or answer a task.
#[derive(Debug)]
pub enum Action {
    Continue,
    Halt,
    Print(String),
    Float(FloatTask),
}

/// An `Action` with its texts as sequences of characters.
pub enum ActionView {
    Continue,
    Halt,
    Print(Seq<char>),
    Float(FloatTaskView),
}

impl View for Action {
    type V = ActionView;

    open spec fn view(&self) -> ActionView {
        match self {
            Action::Continue => ActionView::Continue,
            Action::Halt => ActionView::Halt,
            Action::Print(s) => ActionView::Print(s@),
            Action::Float(task) => ActionView::Float(task@),
        }
    }
}

/// What the machine waits for: nothing, an answer that completes a value to push, or the
/// text of a number to print.
#[derive(Debug)]
pub enum Waiting {
    Nothing,
    Push(Pending),
    Print,
}

/// A `Waiting` with its texts as sequences of characters.
pub enum WaitingView {
    Nothing,
    Push(PendingView),
    Print,
}

impl View for Waiting {
    type V = WaitingView;

    open spec fn view(&self) -> WaitingView {
        match self {
            Waiting::Nothing => WaitingView::Nothing,
            Waiting::Push(p) => WaitingView::Push(p@),
            Waiting::Print => WaitingView::Print,
        }
    }
}

impl WaitingView {
    /// Whether `answer` is of the form waited for.
    pub open spec fn accepts(self, answer: FloatAnswerView) -> bool {
        match self {
            WaitingView::Nothing => false,
            WaitingView::Push(p) => p.accepts(answer),
            WaitingView::Print => answer is Text,
        }
    }
}

/// The state of a machine: the instructions and constants of the chunk it has loaded, the
/// index of the next instruction, the operand stack from the bottom up, the globals, and what
/// it waits for.
pub struct Machine {
    pub ops: Seq<OpCode>,
    pub consts: Seq<ConstantView>,
    pub ip: int,
    pub stack: Seq<ValueView>,
    pub globals: Map<Seq<char>, ValueView>,
    pub waiting: WaitingView,
}

/// A state and what the move into it gave: the host's next action, or the error that stopped
/// the machine.
pub struct Stepped {
    pub next: Machine,
    pub result: Result<ActionView, RuntimeErrorView>,
}

/// What a binary instruction makes of the operands `a` (pushed first) and `b`. `LESS` is
/// `GREATER` with the operands exchanged.
pub open spec fn binary_result(op: OpCode, a: ValueView, b: ValueView) -> EvaluatedView {
    match op {
        OpCode::ADD => a.add(b),
        OpCode::SUB => a.arith(ArithOp::Sub, b),
        OpCode::MUL => a.arith(ArithOp::Mul, b),
        OpCode::DIV => a.arith(ArithOp::Div, b),
        OpCode::EQUAL => a.eq(b),
        OpCode::GREATER => a.greater(b),
        OpCode::LESS => b.greater(a),
        OpCode::AND => EvaluatedView::Done(a.and(b)),
        OpCode::OR => EvaluatedView::Done(a.or(b)),
        _ => EvaluatedView::Done(ValueView::Nil),
    }
}

/// What a unary instruction makes of its operand: `NEGATE` is defined on integers (but for
/// the least one), numbers and `Nil`, `NOT` on truth values and `Nil`. `Nil` as the result of
/// anything but `NEGATE` on `Nil` says that the operand is not admitted.
pub open spec fn unary_result(op: OpCode, v: ValueView) -> Option<EvaluatedView> {
    match op {
        OpCode::NEGATE => match v {
            ValueView::Int(i) => if i == i32::MIN {
                None
            } else {
                Some(EvaluatedView::Done(ValueView::Int((-i) as i32)))
            },
            ValueView::Float(bits) => Some(
                EvaluatedView::Ask(FloatTaskView::Negate(bits), PendingView::Number),
            ),
            ValueView::Nil => Some(EvaluatedView::Done(ValueView::Nil)),
            _ => None,
        },
        OpCode::NOT => match v {
            ValueView::Bool(b) => Some(EvaluatedView::Done(ValueView::Bool(!b))),
            ValueView::Nil => Some(EvaluatedView::Done(ValueView::Bool(true))),
            _ => None,
        },
        _ => None,
    }
}

impl Machine {
    /// The machine can take a step: it waits for nothing, the chunk can be run, and the next
    /// instruction is one of it.
    pub open spec fn ready(self) -> bool {
        &&& self.waiting is Nothing
        &&& self.wf()
    }

    /// The chunk can be run, and the next instruction is one of it.
    pub open spec fn wf(self) -> bool {
        &&& runnable(self.ops, self.consts)
        &&& 0 <= self.ip < self.ops.len()
    }

    /// Stopped by `error`.
    pub open spec fn fail(self, error: RuntimeErrorView) -> Stepped {
        Stepped { next: self, result: Err(error) }
    }

    /// On to the next instruction with `v` pushed; stopped where the stack is full.
    pub open spec fn push_next(self, v: ValueView) -> Stepped {
        if self.stack.len() >= STACK_MAX {
            self.fail(RuntimeErrorView::StackError(StackError::Overflow))
        } else {
            Stepped {
                next: Machine { stack: self.stack.push(v), ip: self.ip + 1, ..self },
                result: Ok(ActionView::Continue),
            }
        }
    }

    /// On to the next instruction.
    pub open spec fn advance(self) -> Stepped {
        Stepped { next: Machine { ip: self.ip + 1, ..self }, result: Ok(ActionView::Continue) }
    }

    /// At the next instruction, waiting for the answer to `task`.
    pub open spec fn ask(self, task: FloatTaskView, waiting: WaitingView) -> Stepped {
        Stepped {
            next: Machine { waiting, ip: self.ip + 1, ..self },
            result: Ok(ActionView::Float(task)),
        }
    }

    /// The name of a global: the text of constant `k`.
    pub open spec fn name(self, k: ConstIdx) -> Seq<char> {
        self.consts[k as int]->Text_0
    }

    /// A unary instruction: the operand is taken off the stack, and the result pushed.
    pub open spec fn unary(self, op: OpCode) -> Stepped {
        if self.stack.len() == 0 {
            self.fail(RuntimeErrorView::StackError(StackError::Underflow))
        } else {
            let v = self.stack.last();
            let rest = Machine { stack: self.stack.drop_last(), ..self };
            match unary_result(op, v) {
                None => rest.fail(RuntimeErrorView::IllegalUnaryOp(op, v)),
                Some(EvaluatedView::Done(r)) => rest.push_next(r),
                Some(EvaluatedView::Ask(task, rest_of)) => rest.ask(task, WaitingView::Push(rest_of)),
            }
        }
    }

    /// A binary instruction: both operands are taken off the stack, and the result pushed.
    pub open spec fn binary(self, op: OpCode) -> Stepped {
        if self.stack.len() == 0 {
            self.fail(RuntimeErrorView::StackError(StackError::Underflow))
        } else if self.stack.len() == 1 {
            (Machine { stack: self.stack.drop_last(), ..self }).fail(
                RuntimeErrorView::StackError(StackError::Underflow),
            )
        } else {
            let b = self.stack.last();
            let a = self.stack[self.stack.len() - 2];
            let rest = Machine { stack: self.stack.drop_last().drop_last(), ..self };
            match binary_result(op, a, b) {
                EvaluatedView::Done(ValueView::Nil) => rest.fail(RuntimeErrorView::IllegalOp(op, a, b)),
                EvaluatedView::Done(r) => rest.push_next(r),
                EvaluatedView::Ask(task, rest_of) => rest.ask(task, WaitingView::Push(rest_of)),
            }
        }
    }

    /// One instruction.
    ///
    /// A constant is pushed: a text as it is, a number once the float unit has parsed it.
    /// `PRINT` takes the top value off and hands its text out, for a number once the float
    /// unit has written it out. `JUMP_IF_FALSE` leaves the value it tests on the stack. A
    /// local is the stack slot of its number, counted from the bottom. `RETURN` halts, and
    /// the machine stays at it.
    pub open spec fn step(self) -> Stepped {
        let underflow = self.fail(RuntimeErrorView::StackError(StackError::Underflow));
        match self.ops[self.ip] {
            OpCode::RETURN => Stepped { next: self, result: Ok(ActionView::Halt) },
            OpCode::CONSTANT(k) => match self.consts[k as int] {
                ConstantView::Text(s) => self.push_next(ValueView::String(s)),
                ConstantView::Number(s) => self.ask(
                    FloatTaskView::Parse(s),
                    WaitingView::Push(PendingView::Number),
                ),
            },
            OpCode::NEGATE => self.unary(OpCode::NEGATE),
            OpCode::NOT => self.unary(OpCode::NOT),
            OpCode::NIL => self.push_next(ValueView::Nil),
            OpCode::TRUE => self.push_next(ValueView::Bool(true)),
            OpCode::FALSE => self.push_next(ValueView::Bool(false)),
            OpCode::ADD => self.binary(OpCode::ADD),
            OpCode::SUB => self.binary(OpCode::SUB),
            OpCode::MUL => self.binary(OpCode::MUL),
            OpCode::DIV => self.binary(OpCode::DIV),
            OpCode::LESS => self.binary(OpCode::LESS),
            OpCode::GREATER => self.binary(OpCode::GREATER),
            OpCode::EQUAL => self.binary(OpCode::EQUAL),
            OpCode::AND => self.binary(OpCode::AND),
            OpCode::OR => self.binary(OpCode::OR),
            OpCode::PRINT => if self.stack.len() == 0 {
                underflow
            } else {
                let rest = Machine { stack: self.stack.drop_last(), ..self };
                match self.stack.last() {
                    ValueView::Float(bits) => rest.ask(FloatTaskView::Text(bits), WaitingView::Print),
                    v => Stepped {
                        next: Machine { ip: self.ip + 1, ..rest },
                        result: Ok(ActionView::Print(v.text()->0)),
                    },
                }
            },
            OpCode::POP => if self.stack.len() == 0 {
                underflow
            } else {
                (Machine { stack: self.stack.drop_last(), ..self }).advance()
            },
            OpCode::DEFINE_GLOBAL(k) => if self.stack.len() == 0 {
                underflow
            } else {
                (Machine {
                    stack: self.stack.drop_last(),
                    globals: self.globals.insert(self.name(k), self.stack.last()),
                    ..self
                }).advance()
            },
            OpCode::GET_GLOBAL(k) => if self.globals.contains_key(self.name(k)) {
                self.push_next(self.globals[self.name(k)])
            } else {
                self.fail(RuntimeErrorView::UnknownVariable(self.name(k)))
            },
            OpCode::SET_GLOBAL(k) => if !self.globals.contains_key(self.name(k)) {
                self.fail(RuntimeErrorView::UnknownVariable(self.name(k)))
            } else if self.stack.len() == 0 {
                underflow
            } else {
                (Machine {
                    globals: self.globals.insert(self.name(k), self.stack.last()),
                    ..self
                }).advance()
            },
            OpCode::GET_LOCAL(slot) => if slot < self.stack.len() {
                self.push_next(self.stack[slot as int])
            } else {
                underflow
            },
            OpCode::SET_LOCAL(slot) => if self.stack.len() == 0 || slot >= self.stack.len() {
                underflow
            } else {
                (Machine { stack: self.stack.update(slot as int, self.stack.last()), ..self }).advance()
            },
            OpCode::JUMP_IF_FALSE(addr) => if self.stack.len() == 0 {
                underflow
            } else if !self.stack.last().truthy() {
                Stepped {
                    next: Machine { ip: addr as int, ..self },
                    result: Ok(ActionView::Continue),
                }
            } else {
                self.advance()
            },
            OpCode::JUMP(addr) => Stepped {
                next: Machine { ip: addr as int, ..self },
                result: Ok(ActionView::Continue),
            },
        }
    }

    /// The move that the host's answer allows: the value is completed and pushed (the
    /// machine stops where the stack is full), or the text of the number handed out for
    /// printing. The machine then waits for nothing.
    pub open spec fn resume(self, answer: FloatAnswerView) -> Stepped {
        let woken = Machine { waiting: WaitingView::Nothing, ..self };
        match self.waiting {
            WaitingView::Push(p) => if self.stack.len() >= STACK_MAX {
                woken.fail(RuntimeErrorView::StackError(StackError::Overflow))
            } else {
                Stepped {
                    next: Machine { stack: self.stack.push(p.finish(answer)), ..woken },
                    result: Ok(ActionView::Continue),
                }
            },
            WaitingView::Print => Stepped {
                next: woken,
                result: Ok(ActionView::Print(answer->Text_0)),
            },
            WaitingView::Nothing => Stepped { next: self, result: Ok(ActionView::Continue) },
        }
    }

    /// Steps until the host has something to do or an error stops the machine, but no more
    /// than `fuel` steps.
    pub open spec fn run(self, fuel: nat) -> Stepped
        decreases fuel,
    {
        if fuel == 0 {
            Stepped { next: self, result: Ok(ActionView::Continue) }
        } else {
            let s = self.step();
            if s.result == Ok::<ActionView, RuntimeErrorView>(ActionView::Continue) {
                s.next.run((fuel - 1) as nat)
            } else {
                s
            }
        }
    }
}

/// A step of a machine that is ready leaves the chunk loaded and the next instruction inside
/// it; the machine waits for something exactly where the step asked the float unit; and a
/// stack of no more than `STACK_MAX` values stays one.
pub proof fn step_stays_inside(m: Machine)
    requires
        m.ready(),
    ensures
        m.step().next.wf(),
        m.step().next.ops == m.ops,
        m.step().next.consts == m.consts,
        m.step().next.waiting is Nothing <==> !(m.step().result matches Ok(ActionView::Float(_))),
        m.stack.len() <= STACK_MAX ==> m.step().next.stack.len() <= STACK_MAX,
{
    let op = m.ops[m.ip];
    assert(crate::chunk::op_fits(op, m.ops.len() as int, m.consts));
    if m.ip == m.ops.len() - 1 {
        assert(op == OpCode::RETURN);
    }
}

/// The move after an answer leaves the chunk loaded and the next instruction inside it, and
/// the machine waits for nothing.
pub proof fn resume_stays_inside(m: Machine, answer: FloatAnswerView)
    requires
        m.wf(),
        m.waiting.accepts(answer),
    ensures
        m.resume(answer).next.ready(),
        m.resume(answer).next.ops == m.ops,
        m.resume(answer).next.consts == m.consts,
        m.stack.len() <= STACK_MAX ==> m.resume(answer).next.stack.len() <= STACK_MAX,
{
}

/// Short circuit of `and`: at a `JUMP_IF_FALSE` with a value on top that counts as false,
/// the step leads to the jump's target and changes nothing else. What stands between the
/// jump and its target is not run, and the value stays on the stack.
pub proof fn false_jumps(m: Machine, target: u16)
    requires
        0 <= m.ip < m.ops.len(),
        m.ops[m.ip] == OpCode::JUMP_IF_FALSE(target),
        m.stack.len() > 0,
        !m.stack.last().truthy(),
    ensures
        m.step() == (Stepped {
            next: Machine { ip: target as int, ..m },
            result: Ok(ActionView::Continue),
        }),
{
}

/// Short circuit of `or`: at a `JUMP_IF_FALSE` that a `JUMP` follows, with a value on top
/// that counts as true, two steps lead to the target of the `JUMP` and change nothing else.
/// What stands between the jumps and that target is not run, and the value stays on the
/// stack.
pub proof fn true_jumps(m: Machine, to_operand: u16, target: u16)
    requires
        0 <= m.ip,
        m.ip + 1 < m.ops.len(),
        m.ops[m.ip] == OpCode::JUMP_IF_FALSE(to_operand),
        m.ops[m.ip + 1] == OpCode::JUMP(target),
        m.stack.len() > 0,
        m.stack.last().truthy(),
    ensures
        m.step().result == Ok::<ActionView, RuntimeErrorView>(ActionView::Continue),
        m.step().next.step() == (Stepped {
            next: Machine { ip: target as int, ..m },
            result: Ok(ActionView::Continue),
        }),
{
}

/// A value that is bound to a global and read back by the same name is on the stack again:
/// `DEFINE_GLOBAL` and then `GET_GLOBAL` of one name leave the stack as it was.
pub proof fn global_gives_back(m: Machine, k: ConstIdx, again: ConstIdx)
    requires
        0 <= m.ip,
        m.ip + 1 < m.ops.len(),
        m.ops[m.ip] == OpCode::DEFINE_GLOBAL(k),
        m.ops[m.ip + 1] == OpCode::GET_GLOBAL(again),
        m.name(k) == m.name(again),
        0 < m.stack.len() <= STACK_MAX,
    ensures
        m.step().result == Ok::<ActionView, RuntimeErrorView>(ActionView::Continue),
        m.step().next.step() == (Stepped {
            next: Machine {
                ip: m.ip + 2,
                globals: m.globals.insert(m.name(k), m.stack.last()),
                ..m
            },
            result: Ok(ActionView::Continue),
        }),
{
    let bound = m.step().next;
    assert(bound.stack.push(m.stack.last()) =~= m.stack);
}

/// A value that is bound to a global and printed by that name is printed as it would have
/// been printed itself: `DEFINE_GLOBAL`, `GET_GLOBAL` of the same name and `PRINT` hand out
/// what `PRINT` alone hands out for the same stack, and leave the stack as `PRINT` alone
/// leaves it.
pub proof fn bound_value_is_printed(m: Machine, k: ConstIdx, again: ConstIdx, direct: Machine)
    requires
        0 <= m.ip,
        m.ip + 2 < m.ops.len(),
        m.ops[m.ip] == OpCode::DEFINE_GLOBAL(k),
        m.ops[m.ip + 1] == OpCode::GET_GLOBAL(again),
        m.ops[m.ip + 2] == OpCode::PRINT,
        m.name(k) == m.name(again),
        0 < m.stack.len() <= STACK_MAX,
        0 <= direct.ip < direct.ops.len(),
        direct.ops[direct.ip] == OpCode::PRINT,
        direct.stack == m.stack,
        direct.waiting == m.waiting,
    ensures
        m.step().result == Ok::<ActionView, RuntimeErrorView>(ActionView::Continue),
        m.step().next.step().result == Ok::<ActionView, RuntimeErrorView>(ActionView::Continue),
        m.step().next.step().next.step().result == direct.step().result,
        m.step().next.step().next.step().next.stack == direct.step().next.stack,
        m.step().next.step().next.step().next.waiting == direct.step().next.waiting,
{
    global_gives_back(m, k, again);
}

/// A local that has just been declared is the top of the stack: `GET_LOCAL` of the top slot
/// pushes the value that is on top.
pub proof fn local_gives_back(m: Machine, slot: ConstIdx)
    requires
        0 <= m.ip < m.ops.len(),
        m.ops[m.ip] == OpCode::GET_LOCAL(slot),
        slot == m.stack.len() - 1,
        m.stack.len() < STACK_MAX,
    ensures
        m.step() == (Stepped {
            next: Machine { ip: m.ip + 1, stack: m.stack.push(m.stack.last()), ..m },
            result: Ok(ActionView::Continue),
        }),
{
}

/// What the next instruction pushes without the float unit, where it is a literal: the value
/// that `NIL`, `TRUE` or `FALSE` stands for, or the text of a constant.
pub open spec fn pushed_literal(m: Machine) -> Option<ValueView> {
    match m.ops[m.ip] {
        OpCode::CONSTANT(k) => match m.consts[k as int] {
            ConstantView::Text(s) => Some(ValueView::String(s)),
            ConstantView::Number(_) => None,
        },
        op => ValueView::of_literal(op),
    }
}

/// A literal that is printed: the instruction that pushes its value, and `PRINT` behind it,
/// hand out the text of the value, and the stack is as it was.
pub proof fn literal_is_printed(m: Machine)
    requires
        0 <= m.ip,
        m.ip + 1 < m.ops.len(),
        pushed_literal(m) is Some,
        m.ops[m.ip + 1] == OpCode::PRINT,
        m.stack.len() < STACK_MAX,
    ensures
        m.step().result == Ok::<ActionView, RuntimeErrorView>(ActionView::Continue),
        pushed_literal(m)->0.text() is Some,
        m.step().next.step() == (Stepped {
            next: Machine { ip: m.ip + 2, ..m },
            result: Ok(ActionView::Print(pushed_literal(m)->0.text()->0)),
        }),
{
    let v = pushed_literal(m)->0;
    assert(m.step() == m.push_next(v));
    assert(m.stack.push(v).drop_last() =~= m.stack);
}

/// A number that is printed: the float unit is asked for the number that the literal
/// stands for, and, behind `PRINT`, for the text of what it gave; that text is handed out,
/// and the stack is as it was.
pub proof fn number_is_printed(m: Machine, k: ConstIdx, bits: u32, text: Seq<char>)
    requires
        0 <= m.ip,
        m.ip + 1 < m.ops.len(),
        m.ops[m.ip] == OpCode::CONSTANT(k),
        m.consts[k as int] is Number,
        m.ops[m.ip + 1] == OpCode::PRINT,
        m.stack.len() < STACK_MAX,
        m.waiting is Nothing,
    ensures
        m.step().result == Ok::<ActionView, RuntimeErrorView>(
            ActionView::Float(FloatTaskView::Parse(m.consts[k as int]->Number_0)),
        ),
        m.step().next.resume(FloatAnswerView::Bits(bits)).result == Ok::<
            ActionView,
            RuntimeErrorView,
        >(ActionView::Continue),
        m.step().next.resume(FloatAnswerView::Bits(bits)).next.step().result == Ok::<
            ActionView,
            RuntimeErrorView,
        >(ActionView::Float(FloatTaskView::Text(bits))),
        m.step().next.resume(FloatAnswerView::Bits(bits)).next.step().next.resume(
            FloatAnswerView::Text(text),
        ) == (Stepped { next: Machine { ip: m.ip + 2, ..m }, result: Ok(ActionView::Print(text)) }),
{
    let pushed = m.step().next.resume(FloatAnswerView::Bits(bits)).next;
    assert(pushed.stack == m.stack.push(ValueView::Float(bits)));
    assert(pushed.stack.drop_last() =~= m.stack);
}

/// A run from a machine that is ready leaves the chunk loaded and the next instruction
/// inside it, and the machine waits for something exactly where the run asked the float
/// unit.
pub proof fn run_stays_inside(m: Machine, fuel: nat)
    requires
        m.ready(),
    ensures
        m.run(fuel).next.wf(),
        m.run(fuel).next.ops == m.ops,
        m.run(fuel).next.consts == m.consts,
        m.run(fuel).next.waiting is Nothing <==> !(m.run(fuel).result matches Ok(
            ActionView::Float(_),
        )),
        m.stack.len() <= STACK_MAX ==> m.run(fuel).next.stack.len() <= STACK_MAX,
    decreases fuel,
{
    if fuel > 0 {
        step_stays_inside(m);
        let s = m.step();
        if s.result == Ok::<ActionView, RuntimeErrorView>(ActionView::Continue) {
            run_stays_inside(s.next, (fuel - 1) as nat);
        }
    }
}

/// The outcome of an exec move, with its texts as sequences of characters.
pub open spec fn outcome(res: RTError<Action>) -> Result<ActionView, RuntimeErrorView> {
    match res {
        Ok(action) => Ok(action@),
        Err(error) => Err(error@),
    }
}

fn stack_pop(stack: &mut Stack) -> (res: RTError<Value>)
    ensures
        old(stack)@.len() > 0 ==> res is Ok && res->Ok_0@ == old(stack)@.last() && final(stack)@
            == old(stack)@.drop_last(),
        old(stack)@.len() == 0 ==> res is Err && res->Err_0@ == RuntimeErrorView::StackError(
            StackError::Underflow,
        ) && final(stack)@ == old(stack)@,
{
    match stack.pop() {
        Ok(v) => Ok(v),
        Err(e) => Err(RuntimeError::StackError(e)),
    }
}

fn stack_push(val: Value, stack: &mut Stack) -> (res: RTError<()>)
    ensures
        old(stack)@.len() < STACK_MAX ==> res is Ok && final(stack)@ == old(stack)@.push(val@),
        old(stack)@.len() >= STACK_MAX ==> res is Err && res->Err_0@
            == RuntimeErrorView::StackError(StackError::Overflow) && final(stack)@ == old(stack)@,
{
    match stack.push(val) {
        Ok(()) => Ok(()),
        Err(e) => Err(RuntimeError::StackError(e)),
    }
}

/// A stack machine with its operand stack and its globals. A chunk is loaded into it, run,
/// and unloaded again; the stack and the globals stay.
pub struct VM {
    chunk: Option<Chunk>,
    ip: usize,
    stack: Stack,
    globals: VarStore,
    debug: bool,
    waiting: Waiting,
}

impl View for VM {
    type V = Machine;

    closed spec fn view(&self) -> Machine {
        Machine {
            ops: match self.chunk {
                Some(chunk) => chunk.ops(),
                None => Seq::empty(),
            },
            consts: match self.chunk {
                Some(chunk) => chunk.consts(),
                None => Seq::empty(),
            },
            ip: self.ip as int,
            stack: self.stack@,
            globals: self.globals@,
            waiting: self.waiting@,
        }
    }
}

impl VM {
    /// The stack holds no more than `STACK_MAX` values.
    pub closed spec fn inv(&self) -> bool {
        self.stack.wf()
    }

    /// The stack of a machine never holds more than `STACK_MAX` values.
    pub proof fn stack_is_bounded(&self)
        requires
            self.inv(),
        ensures
            self@.stack.len() <= STACK_MAX,
    {
    }

    /// Whether a chunk is loaded.
    pub closed spec fn loaded(&self) -> bool {
        self.chunk is Some
    }

    /// The loaded chunk.
    pub closed spec fn chunk(&self) -> Chunk
        recommends
            self.loaded(),
    {
        self.chunk->0
    }

    /// A machine with an empty stack, no global and no chunk.
    pub fn init(debug: bool) -> (vm: Self)
        ensures
            vm.inv(),
            !vm.loaded(),
            vm@.stack == Seq::<ValueView>::empty(),
            vm@.globals == Map::<Seq<char>, ValueView>::empty(),
            vm@.waiting is Nothing,
            vm.debug_spec() == debug,
    {
        VM {
            chunk: None,
            ip: 0,
            stack: Stack::init(),
            globals: VarStore::new(),
            debug,
            waiting: Waiting::Nothing,
        }
    }

    /// Whether the machine was made for debugging.
    pub closed spec fn debug_spec(&self) -> bool {
        self.debug
    }

    /// Whether the machine was made for debugging.
    pub fn debug(&self) -> (yes: bool)
        ensures
            yes == self.debug_spec(),
    {
        self.debug
    }

    /// Whether the machine can take a step.
    pub fn is_ready(&self) -> (yes: bool)
        ensures
            yes == self@.ready(),
    {
        match &self.chunk {
            Some(chunk) => {
                match self.waiting {
                    Waiting::Nothing => self.ip < chunk.count() && chunk.is_executable(),
                    _ => false,
                }
            },
            None => false,
        }
    }

    /// Whether the machine can go on once the host has answered.
    pub fn is_sound(&self) -> (yes: bool)
        ensures
            yes == self@.wf(),
    {
        match &self.chunk {
            Some(chunk) => self.ip < chunk.count() && chunk.is_executable(),
            None => false,
        }
    }

    /// Whether the machine waits for `answer`.
    pub fn awaits(&self, answer: &FloatAnswer) -> (yes: bool)
        ensures
            yes == self@.waiting.accepts(answer@),
    {
        match &self.waiting {
            Waiting::Nothing => false,
            Waiting::Push(p) => p.accepts(answer),
            Waiting::Print => match answer {
                FloatAnswer::Text(_) => true,
                _ => false,
            },
        }
    }

    /// Whether the machine waits for nothing.
    pub fn waits_for_nothing(&self) -> (yes: bool)
        ensures
            yes == (self@.waiting is Nothing),
    {
        match &self.waiting {
            Waiting::Nothing => true,
            _ => false,
        }
    }

    /// The number of values on the stack.
    pub fn stack_depth(&self) -> (n: usize)
        ensures
            n == self@.stack.len(),
            self.inv() ==> n <= STACK_MAX,
    {
        self.stack.top()
    }

    /// The value in stack slot `slot`, counted from the bottom.
    pub fn stack_value(&self, slot: usize) -> (val: Option<&Value>)
        ensures
            slot < self@.stack.len() ==> val is Some && val->0@ == self@.stack[slot as int],
            slot >= self@.stack.len() ==> val is None,
    {
        self.stack.peek_at(slot)
    }

    /// What the global `name` is bound to, if it is bound.
    pub fn global(&self, name: &str) -> (val: Option<&Value>)
        requires
            self.inv(),
        ensures
            val is Some <==> self@.globals.contains_key(name@),
            val is Some ==> val->0@ == self@.globals[name@],
    {
        self.globals.get(name)
    }

    /// Loads `chunk`, to be run from its first instruction.
    pub fn load_chunk(&mut self, chunk: Chunk)
        ensures
            old(self).inv() ==> final(self).inv(),
            final(self).loaded(),
            final(self).chunk() == chunk,
            final(self)@ == (Machine {
                ops: chunk.ops(),
                consts: chunk.consts(),
                ip: 0,
                waiting: WaitingView::Nothing,
                ..old(self)@
            }),
    {
        self.ip = 0;
        self.waiting = Waiting::Nothing;
        self.chunk = Some(chunk);
    }

    /// Takes the loaded chunk out.
    pub fn unload_chunk(&mut self) -> (chunk: Chunk)
        requires
            old(self).loaded(),
        ensures
            chunk == old(self).chunk(),
            old(self).inv() ==> final(self).inv(),
            !final(self).loaded(),
            final(self)@.stack == old(self)@.stack,
            final(self)@.globals == old(self)@.globals,
    {
        let chunk = self.chunk.take();
        chunk.unwrap()
    }

    /// The instruction to run next.
    fn read_byte(&self) -> (op: OpCode)
        requires
            self@.wf(),
        ensures
            op == self@.ops[self@.ip],
            self.loaded(),
            self@.ops.len() <= usize::MAX,
    {
        match &self.chunk {
            Some(chunk) => {
                let _ = chunk.count();
                match chunk.read_op(self.ip) {
                    Some(op) => *op,
                    None => OpCode::RETURN,
                }
            },
            None => OpCode::RETURN,
        }
    }

    /// The constant `k` of the loaded chunk.
    fn read_const(&self, k: ConstIdx) -> (val: Constant)
        requires
            self.loaded(),
            k < self@.consts.len(),
        ensures
            val@ == self@.consts[k as int],
    {
        match &self.chunk {
            Some(chunk) => chunk.read_const(k).clone(),
            None => Constant::Text(String::new()),
        }
    }

    /// The name of a global: the text of constant `k`.
    fn _read_ident(&self, k: ConstIdx) -> (name: String)
        requires
            self.loaded(),
            k < self@.consts.len(),
            self@.consts[k as int] is Text,
        ensures
            name@ == self@.name(k),
    {
        match self.read_const(k) {
            Constant::Text(s) => s,
            Constant::Number(s) => s,
        }
    }

    /// Pushes `val` and goes on to the next instruction.
    fn push_next(&mut self, val: Value) -> (res: RTError<Action>)
        requires
            old(self)@.ip < usize::MAX,
        ensures
            old(self).inv() ==> final(self).inv(),
            final(self).loaded() == old(self).loaded(),
            final(self).chunk() == old(self).chunk(),
            final(self)@ == old(self)@.push_next(val@).next,
            outcome(res) == old(self)@.push_next(val@).result,
    {
        match stack_push(val, &mut self.stack) {
            Ok(()) => {
                self.ip = self.ip + 1;
                Ok(Action::Continue)
            },
            Err(e) => Err(e),
        }
    }

    /// Settles what an instruction made of its operands.
    fn settle(&mut self, made: Evaluated) -> (res: RTError<Action>)
        requires
            old(self)@.ip < usize::MAX,
            !(made@ matches EvaluatedView::Done(ValueView::Nil)),
        ensures
            old(self).inv() ==> final(self).inv(),
            final(self).loaded() == old(self).loaded(),
            final(self).chunk() == old(self).chunk(),
            final(self)@ == (match made@ {
                EvaluatedView::Done(r) => old(self)@.push_next(r),
                EvaluatedView::Ask(task, rest) => old(self)@.ask(task, WaitingView::Push(rest)),
            }).next,
            outcome(res) == (match made@ {
                EvaluatedView::Done(r) => old(self)@.push_next(r),
                EvaluatedView::Ask(task, rest) => old(self)@.ask(task, WaitingView::Push(rest)),
            }).result,
    {
        match made {
            Evaluated::Done(r) => self.push_next(r),
            Evaluated::Ask(task, rest) => {
                self.waiting = Waiting::Push(rest);
                self.ip = self.ip + 1;
                Ok(Action::Float(task))
            },
        }
    }

    fn exec_unary(&mut self, op: OpCode) -> (res: RTError<Action>)
        requires
            old(self)@.ip < usize::MAX,
            op == OpCode::NEGATE || op == OpCode::NOT,
        ensures
            old(self).inv() ==> final(self).inv(),
            final(self).loaded() == old(self).loaded(),
            final(self).chunk() == old(self).chunk(),
            final(self)@ == old(self)@.unary(op).next,
            outcome(res) == old(self)@.unary(op).result,
    {
        let unary_inp = stack_pop(&mut self.stack)?;
        let made: Option<Evaluated> = match op {
            OpCode::NEGATE => match &unary_inp {
                Value::Int(v) => if *v == i32::MIN {
                    None
                } else {
                    Some(Evaluated::Done(Value::Int(-*v)))
                },
                Value::Float(v) => Some(Evaluated::Ask(FloatTask::Negate(*v), Pending::Number)),
                Value::Nil => Some(Evaluated::Done(Value::Nil)),
                _ => None,
            },
            _ => match &unary_inp {
                Value::Bool(b) => Some(Evaluated::Done(Value::Bool(!*b))),
                Value::Nil => Some(Evaluated::Done(Value::Bool(true))),
                _ => None,
            },
        };
        match made {
            None => Err(RuntimeError::IllegalUnaryOp(op, unary_inp)),
            Some(Evaluated::Done(r)) => self.push_next(r),
            Some(made) => self.settle(made),
        }
    }

    fn exec_binary(&mut self, op: OpCode) -> (res: RTError<Action>)
        requires
            old(self)@.ip < usize::MAX,
        ensures
            old(self).inv() ==> final(self).inv(),
            final(self).loaded() == old(self).loaded(),
            final(self).chunk() == old(self).chunk(),
            final(self)@ == old(self)@.binary(op).next,
            outcome(res) == old(self)@.binary(op).result,
    {
        let v2 = stack_pop(&mut self.stack)?;
        let v1 = stack_pop(&mut self.stack)?;
        let left = v1.clone();
        let right = v2.clone();
        let made = match op {
            OpCode::ADD => v1.add(v2),
            OpCode::SUB => v1.sub(v2),
            OpCode::MUL => v1.mul(v2),
            OpCode::DIV => v1.div(v2),
            OpCode::EQUAL => v1.eq(v2),
            OpCode::GREATER => v1.greater(v2),
            OpCode::LESS => v2.greater(v1),
            OpCode::AND => Evaluated::Done(v1.and(v2)),
            OpCode::OR => Evaluated::Done(v1.or(v2)),
            _ => Evaluated::Done(Value::Nil),
        };
        match made {
            Evaluated::Done(Value::Nil) => Err(RuntimeError::IllegalOp(op, left, right)),
            made => self.settle(made),
        }
    }

    /// Runs one instruction.
    pub fn step(&mut self) -> (res: RTError<Action>)
        requires
            old(self).inv(),
            old(self)@.ready(),
        ensures
            final(self).inv(),
            final(self)@ == old(self)@.step().next,
            outcome(res) == old(self)@.step().result,
            final(self)@.wf(),
            final(self).loaded(),
            final(self).chunk() == old(self).chunk(),
    {
        proof {
            step_stays_inside(self@);
        }
        let op = self.read_byte();
        assert(crate::chunk::op_fits(op, self@.ops.len() as int, self@.consts));
        match op {
            OpCode::RETURN => Ok(Action::Halt),
            OpCode::CONSTANT(idx) => {
                match self.read_const(idx) {
                    Constant::Text(s) => self.push_next(Value::String(s)),
                    Constant::Number(s) => {
                        self.waiting = Waiting::Push(Pending::Number);
                        self.ip = self.ip + 1;
                        Ok(Action::Float(FloatTask::Parse(s)))
                    },
                }
            },
            OpCode::NEGATE | OpCode::NOT => self.exec_unary(op),
            OpCode::NIL => self.push_next(Value::Nil),
            OpCode::TRUE => self.push_next(Value::Bool(true)),
            OpCode::FALSE => self.push_next(Value::Bool(false)),
            OpCode::ADD
            | OpCode::SUB
            | OpCode::MUL
            | OpCode::DIV
            | OpCode::LESS
            | OpCode::GREATER
            | OpCode::EQUAL
            | OpCode::AND
            | OpCode::OR => self.exec_binary(op),
            OpCode::PRINT => {
                let val = stack_pop(&mut self.stack)?;
                match val.to_text() {
                    Some(text) => {
                        self.ip = self.ip + 1;
                        Ok(Action::Print(text))
                    },
                    None => {
                        let bits = match val {
                            Value::Float(bits) => bits,
                            _ => 0,
                        };
                        self.waiting = Waiting::Print;
                        self.ip = self.ip + 1;
                        Ok(Action::Float(FloatTask::Text(bits)))
                    },
                }
            },
            OpCode::POP => {
                stack_pop(&mut self.stack)?;
                self.ip = self.ip + 1;
                Ok(Action::Continue)
            },
            OpCode::DEFINE_GLOBAL(ident_idx) => {
                let key = self._read_ident(ident_idx);
                let val = stack_pop(&mut self.stack)?;
                self.globals.put(key, val);
                self.ip = self.ip + 1;
                Ok(Action::Continue)
            },
            OpCode::GET_GLOBAL(ident_idx) => {
                let key = self._read_ident(ident_idx);
                let val = match self.globals.get(key.as_str()) {
                    Some(val) => val.clone(),
                    None => {
                        return Err(RuntimeError::UnknownVariable(key));
                    },
                };
                self.push_next(val)
            },
            OpCode::SET_GLOBAL(ident_idx) => {
                let ident_ = self._read_ident(ident_idx);
                if !self.globals.contains(ident_.as_str()) {
                    return Err(RuntimeError::UnknownVariable(ident_));
                }
                let val = self.peek()?;
                self.globals.put(ident_, val);
                self.ip = self.ip + 1;
                Ok(Action::Continue)
            },
            OpCode::GET_LOCAL(slot) => {
                let val = match self.stack.peek_at(slot as usize) {
                    Some(val) => val.clone(),
                    None => {
                        return Err(RuntimeError::StackError(StackError::Underflow));
                    },
                };
                self.push_next(val)
            },
            OpCode::SET_LOCAL(slot) => {
                let val = self.peek()?;
                match self.stack.put_at(slot as usize, val) {
                    Ok(()) => {
                        self.ip = self.ip + 1;
                        Ok(Action::Continue)
                    },
                    Err(e) => Err(RuntimeError::StackError(e)),
                }
            },
            OpCode::JUMP_IF_FALSE(new_ip) => {
                let last_val = self.peek()?.truthy();
                if !last_val {
                    self.ip = new_ip as usize;
                } else {
                    self.ip = self.ip + 1;
                }
                Ok(Action::Continue)
            },
            OpCode::JUMP(new_ip) => {
                self.ip = new_ip as usize;
                Ok(Action::Continue)
            },
        }
    }

    /// Goes on with the host's answer to the task that the machine waits for.
    pub fn resume(&mut self, answer: FloatAnswer) -> (res: RTError<Action>)
        requires
            old(self).inv(),
            old(self)@.wf(),
            old(self)@.waiting.accepts(answer@),
        ensures
            final(self).inv(),
            final(self)@ == old(self)@.resume(answer@).next,
            outcome(res) == old(self)@.resume(answer@).result,
            final(self)@.ready(),
            final(self).loaded(),
            final(self).chunk() == old(self).chunk(),
    {
        proof {
            resume_stays_inside(self@, answer@);
        }
        let mut waiting = Waiting::Nothing;
        std::mem::swap(&mut self.waiting, &mut waiting);
        match waiting {
            Waiting::Push(p) => {
                let val = p.finish(answer);
                match stack_push(val, &mut self.stack) {
                    Ok(()) => Ok(Action::Continue),
                    Err(e) => Err(e),
                }
            },
            Waiting::Print => {
                match answer {
                    FloatAnswer::Text(text) => Ok(Action::Print(text)),
                    _ => Ok(Action::Continue),
                }
            },
            Waiting::Nothing => Ok(Action::Continue),
        }
    }

    /// Runs instructions until the host has something to do (the action is then not
    /// `Continue`) or an error stops the machine, but no more than `fuel` of them.
    pub fn run(&mut self, fuel: usize) -> (res: RTError<Action>)
        requires
            old(self).inv(),
            old(self)@.ready(),
        ensures
            final(self).inv(),
            final(self)@ == old(self)@.run(fuel as nat).next,
            outcome(res) == old(self)@.run(fuel as nat).result,
            final(self)@.wf(),
            final(self).loaded(),
            final(self).chunk() == old(self).chunk(),
    {
        let mut left = fuel;
        while left > 0
            invariant
                self.inv(),
                self@.ready(),
                self.loaded(),
                self.chunk() == old(self).chunk(),
                self@.run(left as nat) == old(self)@.run(fuel as nat),
            decreases left,
        {
            let ghost before = self@;
            proof {
                step_stays_inside(before);
            }
            match self.step() {
                Ok(Action::Continue) => {},
                other => {
                    assert(outcome(other) != Ok::<ActionView, RuntimeErrorView>(ActionView::Continue));
                    return other;
                },
            }
            left = left - 1;
        }
        Ok(Action::Continue)
    }

    /// A copy of the top of the stack.
    fn peek(&self) -> (res: RTError<Value>)
        ensures
            self@.stack.len() > 0 ==> res is Ok && res->Ok_0@ == self@.stack.last(),
            self@.stack.len() == 0 ==> res is Err && res->Err_0@ == RuntimeErrorView::StackError(
                StackError::Underflow,
            ),
    {
        match self.stack.peek() {
            Some(v) => Ok(v.clone()),
            None => Err(RuntimeError::StackError(StackError::Underflow)),
        }
    }
}

} // verus!
