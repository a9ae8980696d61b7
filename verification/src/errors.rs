//! What can go wrong while the machine runs.

use crate::opcode::OpCode;
use crate::stack::StackError;
use crate::value::{Value, ValueView};
use vstd::prelude::*;

verus! {

pub use crate::scanner::COMPError;
pub use crate::scanner::CompileError;

pub type RTError<T> = Result<T, RuntimeError>;

/// Why the machine stopped: the stack ran empty or full, an instruction met operands it is
/// not defined on, or a global was used that nothing had defined.
#[derive(Debug)]
pub enum RuntimeError {
    StackError(StackError),
    IllegalUnaryOp(OpCode, Value),
    IllegalOp(OpCode, Value, Value),
    UnknownVariable(String),
}

/// A `RuntimeError` with its values and texts as views.
pub enum RuntimeErrorView {
    StackError(StackError),
    IllegalUnaryOp(OpCode, ValueView),
    IllegalOp(OpCode, ValueView, ValueView),
    UnknownVariable(Seq<char>),
}

impl View for RuntimeError {
    type V = RuntimeErrorView;

    open spec fn view(&self) -> RuntimeErrorView {
        match self {
            RuntimeError::StackError(e) => RuntimeErrorView::StackError(*e),
            RuntimeError::IllegalUnaryOp(op, v) => RuntimeErrorView::IllegalUnaryOp(*op, v@),
            RuntimeError::IllegalOp(op, a, b) => RuntimeErrorView::IllegalOp(*op, a@, b@),
            RuntimeError::UnknownVariable(name) => RuntimeErrorView::UnknownVariable(name@),
        }
    }
}

} // verus!
