//! The instruction set of the stack machine.

use vstd::prelude::*;

verus! {

/// Index into the constants of a chunk.
pub type ConstIdx = u8;

/// Index into the instructions of a chunk.
pub type InstructAddr = u16;

/// One instruction. A jump carries the absolute index of the instruction to go on with.
#[allow(non_camel_case_types)]
#[derive(Clone, Copy, Debug, PartialEq, Eq, Structural)]
pub enum OpCode {
    RETURN,
    CONSTANT(ConstIdx),
    NEGATE,
    NOT,
    NIL,
    TRUE,
    FALSE,
    EQUAL,
    LESS,
    GREATER,
    ADD,
    SUB,
    MUL,
    DIV,
    AND,
    OR,
    PRINT,
    POP,
    DEFINE_GLOBAL(ConstIdx),
    GET_GLOBAL(ConstIdx),
    GET_LOCAL(ConstIdx),
    SET_GLOBAL(ConstIdx),
    SET_LOCAL(ConstIdx),
    JUMP_IF_FALSE(InstructAddr),
    JUMP(InstructAddr),
}

impl OpCode {
    /// The number of the instruction's kind, whatever it carries.
    pub open spec fn kind(self) -> int {
        match self {
            OpCode::RETURN => 0,
            OpCode::CONSTANT(_) => 1,
            OpCode::NEGATE => 2,
            OpCode::NOT => 3,
            OpCode::NIL => 4,
            OpCode::TRUE => 5,
            OpCode::FALSE => 6,
            OpCode::EQUAL => 7,
            OpCode::LESS => 8,
            OpCode::GREATER => 9,
            OpCode::ADD => 10,
            OpCode::SUB => 11,
            OpCode::MUL => 12,
            OpCode::DIV => 13,
            OpCode::AND => 14,
            OpCode::OR => 15,
            OpCode::PRINT => 16,
            OpCode::POP => 17,
            OpCode::DEFINE_GLOBAL(_) => 18,
            OpCode::GET_GLOBAL(_) => 19,
            OpCode::GET_LOCAL(_) => 20,
            OpCode::SET_GLOBAL(_) => 21,
            OpCode::SET_LOCAL(_) => 22,
            OpCode::JUMP_IF_FALSE(_) => 23,
            OpCode::JUMP(_) => 24,
        }
    }

    /// The kind as a machine integer.
    pub fn kind_number(&self) -> (k: u8)
        ensures
            k as int == self.kind(),
    {
        match self {
            OpCode::RETURN => 0,
            OpCode::CONSTANT(_) => 1,
            OpCode::NEGATE => 2,
            OpCode::NOT => 3,
            OpCode::NIL => 4,
            OpCode::TRUE => 5,
            OpCode::FALSE => 6,
            OpCode::EQUAL => 7,
            OpCode::LESS => 8,
            OpCode::GREATER => 9,
            OpCode::ADD => 10,
            OpCode::SUB => 11,
            OpCode::MUL => 12,
            OpCode::DIV => 13,
            OpCode::AND => 14,
            OpCode::OR => 15,
            OpCode::PRINT => 16,
            OpCode::POP => 17,
            OpCode::DEFINE_GLOBAL(_) => 18,
            OpCode::GET_GLOBAL(_) => 19,
            OpCode::GET_LOCAL(_) => 20,
            OpCode::SET_GLOBAL(_) => 21,
            OpCode::SET_LOCAL(_) => 22,
            OpCode::JUMP_IF_FALSE(_) => 23,
            OpCode::JUMP(_) => 24,
        }
    }
}

/// Whether two instructions are of the same kind.
pub fn op_comp(a: OpCode, b: OpCode) -> (same: bool)
    ensures
        same == (a.kind() == b.kind()),
{
    a.kind_number() == b.kind_number()
}

} // verus!
