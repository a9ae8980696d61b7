//! How deep the stack is at each instruction of a chunk.
//!
//! A chunk is level where a depth can be given to each of its instructions such that every
//! instruction leads from its own depth to that of each instruction that can run behind it.
//! A machine that runs a level chunk has, at each instruction, a stack that is deeper than
//! at the start by just the depth of that instruction.

use crate::errors::RuntimeErrorView;
use crate::opcode::OpCode;
use crate::stack::StackError;
use crate::value::FloatAnswerView;
use crate::vm::{ActionView, Machine, step_stays_inside};
use vstd::prelude::*;

verus! {

/// By how much an instruction that the machine gets past makes the stack deeper.
pub open spec fn effect(op: OpCode) -> int {
    match op {
        OpCode::CONSTANT(_)
        | OpCode::NIL
        | OpCode::TRUE
        | OpCode::FALSE
        | OpCode::GET_GLOBAL(_)
        | OpCode::GET_LOCAL(_) => 1,
        OpCode::EQUAL
        | OpCode::LESS
        | OpCode::GREATER
        | OpCode::ADD
        | OpCode::SUB
        | OpCode::MUL
        | OpCode::DIV
        | OpCode::AND
        | OpCode::OR
        | OpCode::PRINT
        | OpCode::POP
        | OpCode::DEFINE_GLOBAL(_) => -1,
        _ => 0,
    }
}

/// How many values an instruction reads from the stack: its operands, the value that it
/// tests or copies, or the slots up to the one of its local.
pub open spec fn needs(op: OpCode) -> int {
    match op {
        OpCode::NEGATE
        | OpCode::NOT
        | OpCode::PRINT
        | OpCode::POP
        | OpCode::DEFINE_GLOBAL(_)
        | OpCode::SET_GLOBAL(_)
        | OpCode::JUMP_IF_FALSE(_) => 1,
        OpCode::EQUAL
        | OpCode::LESS
        | OpCode::GREATER
        | OpCode::ADD
        | OpCode::SUB
        | OpCode::MUL
        | OpCode::DIV
        | OpCode::AND
        | OpCode::OR => 2,
        OpCode::GET_LOCAL(slot) | OpCode::SET_LOCAL(slot) => slot + 1,
        _ => 0,
    }
}

/// Whether each instruction of `ops` from index `from` on has, at its depth in `h`, the
/// values that it reads.
pub open spec fn supplied_from(ops: Seq<OpCode>, from: int, h: Seq<int>) -> bool {
    forall|i: int| from <= i < ops.len() ==> h[i] >= needs(#[trigger] ops[i])
}

/// Whether the instruction `op` at index `i` agrees with the depths `h`, of which there is
/// one for each of the `count` instructions and one for the end: a jump leads to an
/// instruction of the same depth, and every instruction but `JUMP` and `RETURN` leads on to
/// the next one, whose depth differs by the instruction's effect.
pub open spec fn lands(op: OpCode, i: int, h: Seq<int>, count: int) -> bool {
    match op {
        OpCode::JUMP(target) => target <= count && h[target as int] == h[i],
        OpCode::JUMP_IF_FALSE(target) => target <= count && h[target as int] == h[i] && h[i + 1]
            == h[i],
        OpCode::RETURN => true,
        _ => h[i + 1] == h[i] + effect(op),
    }
}

/// Whether the depths `h` fit the instructions `ops` from index `from` on.
pub open spec fn level_from(ops: Seq<OpCode>, from: int, h: Seq<int>) -> bool {
    &&& h.len() == ops.len() + 1
    &&& forall|i: int| from <= i < ops.len() ==> lands(#[trigger] ops[i], i, h, ops.len() as int)
}

/// Whether `ops` is level with the depths `h`: they fit all of it, the first instruction has
/// depth 0, and so has every `RETURN`.
pub open spec fn level(ops: Seq<OpCode>, h: Seq<int>) -> bool {
    &&& level_from(ops, 0, h)
    &&& h[0] == 0
    &&& forall|i: int| 0 <= i < ops.len() && #[trigger] ops[i] == OpCode::RETURN ==> h[i] == 0
}

/// Whether the stack of `m` is deeper than `base` by the depth of the next instruction. A
/// machine that waits for a value to push counts as if it had pushed it.
pub open spec fn at_depth(m: Machine, h: Seq<int>, base: int) -> bool {
    m.stack.len() + (if m.waiting is Push {
        1int
    } else {
        0int
    }) == base + h[m.ip]
}

/// A step that succeeds keeps the machine at the depth of its instruction.
pub proof fn step_keeps_depth(m: Machine, h: Seq<int>, base: int)
    requires
        m.ready(),
        level_from(m.ops, 0, h),
        at_depth(m, h, base),
        m.step().result is Ok,
    ensures
        at_depth(m.step().next, h, base),
{
    let op = m.ops[m.ip];
    assert(lands(op, m.ip, h, m.ops.len() as int));
}

/// The move after an answer, where it succeeds, keeps the machine at the depth of its
/// instruction.
pub proof fn resume_keeps_depth(m: Machine, answer: FloatAnswerView, h: Seq<int>, base: int)
    requires
        m.wf(),
        m.waiting.accepts(answer),
        at_depth(m, h, base),
        m.resume(answer).result is Ok,
    ensures
        at_depth(m.resume(answer).next, h, base),
{
}

/// A run that succeeds keeps the machine at the depth of its instruction.
pub proof fn run_keeps_depth(m: Machine, fuel: nat, h: Seq<int>, base: int)
    requires
        m.ready(),
        level_from(m.ops, 0, h),
        at_depth(m, h, base),
        m.run(fuel).result is Ok,
    ensures
        at_depth(m.run(fuel).next, h, base),
    decreases fuel,
{
    if fuel > 0 {
        let s = m.step();
        step_stays_inside(m);
        if s.result == Ok::<ActionView, RuntimeErrorView>(ActionView::Continue) {
            step_keeps_depth(m, h, base);
            run_keeps_depth(s.next, (fuel - 1) as nat, h, base);
        } else {
            step_keeps_depth(m, h, base);
        }
    }
}

/// A machine at the depth of its instruction, which has there the values that it reads,
/// does not run out of values: its step does not stop with a stack underflow.
pub proof fn step_has_its_values(m: Machine, h: Seq<int>, base: int)
    requires
        m.ready(),
        level_from(m.ops, 0, h),
        supplied_from(m.ops, 0, h),
        at_depth(m, h, base),
        base >= 0,
    ensures
        m.step().result != Err::<ActionView, RuntimeErrorView>(
            RuntimeErrorView::StackError(StackError::Underflow),
        ),
{
    let op = m.ops[m.ip];
    assert(h[m.ip] >= needs(op));
}

/// A run of a chunk that is level, and whose instructions have the values that they read,
/// never stops with a stack underflow.
pub proof fn run_has_its_values(m: Machine, fuel: nat, h: Seq<int>, base: int)
    requires
        m.ready(),
        level_from(m.ops, 0, h),
        supplied_from(m.ops, 0, h),
        at_depth(m, h, base),
        base >= 0,
    ensures
        m.run(fuel).result != Err::<ActionView, RuntimeErrorView>(
            RuntimeErrorView::StackError(StackError::Underflow),
        ),
    decreases fuel,
{
    if fuel > 0 {
        let s = m.step();
        step_stays_inside(m);
        step_has_its_values(m, h, base);
        if s.result == Ok::<ActionView, RuntimeErrorView>(ActionView::Continue) {
            step_keeps_depth(m, h, base);
            run_has_its_values(s.next, (fuel - 1) as nat, h, base);
        }
    }
}

/// A machine that has run a level chunk from its start up to a halt has a stack as deep as
/// it was at the start.
pub proof fn halts_at_entry_depth(m: Machine, fuel: nat, h: Seq<int>)
    requires
        m.ready(),
        m.ip == 0,
        level(m.ops, h),
        m.run(fuel).result == Ok::<ActionView, RuntimeErrorView>(ActionView::Halt),
    ensures
        m.run(fuel).next.stack.len() == m.stack.len(),
{
    run_keeps_depth(m, fuel, h, m.stack.len() as int);
    run_halts_at_return(m, fuel);
}

/// A run that halts, from wherever in a level chunk it began, and after however many moves
/// and answers of the float unit, leaves the stack as deep as it was when the chunk began:
/// the machine was at the depth of its instruction over the depth at the start, `base`; every
/// run and every move after an answer has kept it there; and the run halts at a `RETURN`.
pub proof fn halts_at_base(m: Machine, fuel: nat, h: Seq<int>, base: int)
    requires
        m.ready(),
        level(m.ops, h),
        at_depth(m, h, base),
        m.run(fuel).result == Ok::<ActionView, RuntimeErrorView>(ActionView::Halt),
    ensures
        m.run(fuel).next.stack.len() == base,
{
    run_keeps_depth(m, fuel, h, base);
    run_halts_at_return(m, fuel);
}

/// A run halts at a `RETURN`, waiting for nothing.
pub proof fn run_halts_at_return(m: Machine, fuel: nat)
    requires
        m.ready(),
        m.run(fuel).result == Ok::<ActionView, RuntimeErrorView>(ActionView::Halt),
    ensures
        0 <= m.run(fuel).next.ip < m.ops.len(),
        m.run(fuel).next.ops == m.ops,
        m.ops[m.run(fuel).next.ip] == OpCode::RETURN,
        m.run(fuel).next.waiting is Nothing,
    decreases fuel,
{
    if fuel > 0 {
        let s = m.step();
        step_stays_inside(m);
        if s.result == Ok::<ActionView, RuntimeErrorView>(ActionView::Continue) {
            run_halts_at_return(s.next, (fuel - 1) as nat);
        }
    }
}

} // verus!
