//! The operand stack of the machine: at most 256 values, the youngest on top.

use crate::value::{Value, ValueView};
use vstd::prelude::*;

verus! {

/// How many values the stack can hold.
pub const STACK_MAX: usize = 256;

/// A pop from the empty stack, or a push onto the full one.
#[derive(Debug, Clone, Copy, PartialEq, Eq, Structural)]
pub enum StackError {
    Underflow,
    Overflow,
}

/// The operand stack. Its view is the sequence of its values, from the bottom up. A stack
/// that `init` made never holds more than `STACK_MAX` values: see `wf`.
pub struct Stack {
    stack: Vec<Value>,
}

impl View for Stack {
    type V = Seq<ValueView>;

    closed spec fn view(&self) -> Seq<ValueView> {
        self.stack.deep_view()
    }
}

impl Stack {
    /// The stack holds no more than `STACK_MAX` values. `init` makes such a stack, and no
    /// method takes a stack out of this.
    pub open spec fn wf(&self) -> bool {
        self@.len() <= STACK_MAX
    }

    pub fn init() -> (stack: Self)
        ensures
            stack@ == Seq::<ValueView>::empty(),
            stack.wf(),
    {
        let stack = Stack { stack: Vec::new() };
        assert(stack@ =~= Seq::<ValueView>::empty());
        stack
    }

    /// The number of values on the stack.
    pub fn top(&self) -> (n: usize)
        ensures
            n == self@.len(),
    {
        self.stack.len()
    }

    /// Puts `val` on top, unless the stack is full.
    pub fn push(&mut self, val: Value) -> (res: Result<(), StackError>)
        ensures
            old(self)@.len() < STACK_MAX ==> res is Ok && final(self)@ == old(self)@.push(val@),
            old(self)@.len() >= STACK_MAX ==> res == Err::<(), StackError>(StackError::Overflow)
                && final(self)@ == old(self)@,
            old(self).wf() ==> final(self).wf(),
    {
        if self.stack.len() >= STACK_MAX {
            return Err(StackError::Overflow);
        }
        self.stack.push(val);
        assert(self@ =~= old(self)@.push(val@));
        Ok(())
    }

    /// Takes the top value off, unless the stack is empty.
    pub fn pop(&mut self) -> (res: Result<Value, StackError>)
        ensures
            old(self)@.len() > 0 ==> res is Ok && res->Ok_0@ == old(self)@.last() && final(self)@
                == old(self)@.drop_last(),
            old(self)@.len() == 0 ==> res is Err && res->Err_0 == StackError::Underflow
                && final(self)@ == old(self)@,
            old(self).wf() ==> final(self).wf(),
    {
        match self.stack.pop() {
            Some(val) => {
                assert(self@ =~= old(self)@.drop_last());
                assert(val@ == old(self)@.last());
                Ok(val)
            },
            None => Err(StackError::Underflow),
        }
    }

    /// The top value, if there is one.
    pub fn peek(&self) -> (val: Option<&Value>)
        ensures
            self@.len() > 0 ==> val is Some && val->0@ == self@.last(),
            self@.len() == 0 ==> val is None,
    {
        let n = self.stack.len();
        if n == 0 {
            return None;
        }
        Some(&self.stack[n - 1])
    }

    /// The value in slot `slot`, counted from the bottom, if the stack reaches that far.
    pub fn peek_at(&self, slot: usize) -> (val: Option<&Value>)
        ensures
            slot < self@.len() ==> val is Some && val->0@ == self@[slot as int],
            slot >= self@.len() ==> val is None,
    {
        if slot < self.stack.len() {
            Some(&self.stack[slot])
        } else {
            None
        }
    }

    /// Puts `val` into slot `slot`, counted from the bottom, if the stack reaches that far.
    pub fn put_at(&mut self, slot: usize, val: Value) -> (res: Result<(), StackError>)
        ensures
            slot < old(self)@.len() ==> res is Ok && final(self)@ == old(self)@.update(
                slot as int,
                val@,
            ),
            slot >= old(self)@.len() ==> res == Err::<(), StackError>(StackError::Underflow)
                && final(self)@ == old(self)@,
            old(self).wf() ==> final(self).wf(),
    {
        if slot < self.stack.len() {
            self.stack.set(slot, val);
            assert(self@ =~= old(self)@.update(slot as int, val@));
            Ok(())
        } else {
            Err(StackError::Underflow)
        }
    }
}

} // verus!
