//! A bytecode compiler and stack machine for a small dynamically typed scripting language.
//!
//! A source text is compiled in one pass to a chunk of instructions, which a stack machine
//! runs. The library leaves two things to its host: the printing of the lines that a program
//! prints, and the arithmetic of IEEE-754 singles, which it keeps as bit patterns and never
//! computes with.

pub mod chunk;
pub mod comptime;
pub mod depth;
pub mod errors;
pub mod grammar;
pub mod opcode;
pub mod parser;
pub mod printing;
pub mod scanner;
pub mod session;
pub mod span;
pub mod stack;
pub mod tokens;
pub mod value;
pub mod var_store;
pub mod vm;

pub use chunk::{Chunk, Constant};
pub use comptime::{Compiler, Local};
pub use errors::{RTError, RuntimeError};
pub use opcode::{ConstIdx, InstructAddr, OpCode};
pub use parser::Parser;
pub use scanner::{COMPError, CompileError, Scanner};
pub use session::{ChunkAddr, RuntimeContext};
pub use stack::{Stack, StackError};
pub use tokens::{Precedence, Token, TokenType};
pub use value::{ArithOp, Evaluated, FloatAnswer, FloatTask, Pending, Value};
pub use var_store::VarStore;
pub use vm::{Action, VM};
