//! Operators and their operands.

use super::{
    advanced, follows, grows_by_op, grows_by_patch, grows_by_token, grows_gives, grows_keeps,
    grows_on, grows_self, Parser, RANK_BINARY, RANK_OPERAND, rises_keeps,
};
use crate::grammar::{and_, binary, fuel_for, operator_code, or_, unary};
use crate::opcode::{InstructAddr, OpCode};
use crate::scanner::COMPError;
use crate::tokens::{Precedence, TokenType};
use vstd::prelude::*;

verus! {

impl<'a> Parser<'a> {
    pub(super) fn unary(&mut self, Ghost(fuel): Ghost<nat>) -> (res: COMPError<()>)
        requires
            old(self).ok(),
            fuel >= fuel_for(old(self)@, RANK_OPERAND as nat),
        ensures
            follows(final(self), res, unary(old(self)@, fuel)),
            res is Ok ==> advanced(old(self)@, final(self)@, 1),
        decreases fuel,
    {
        let ghost start = self@;
        let op = self.prev_ty();
        self.expression(Precedence::Unary, Ghost((fuel - 1) as nat))?;
        let ghost p1 = self@;
        proof {
            grows_by_op(start, p1, OpCode::NEGATE);
            grows_by_op(start, p1, OpCode::NOT);
        }
        match op {
            TokenType::Minus => self.emit_op(OpCode::NEGATE),
            TokenType::Bang => self.emit_op(OpCode::NOT),
            _ => Ok(()),
        }
    }

    /// Writes the instructions for the operator `op` between two operands.
    fn operator(&mut self, op: TokenType) -> (res: COMPError<()>)
        requires
            old(self).ok(),
        ensures
            follows(final(self), res, operator_code(old(self)@, op)),
            res is Ok ==> advanced(
                old(self)@,
                final(self)@,
                if crate::grammar::is_binary_operator(op) && op != TokenType::And && op
                    != TokenType::Or {
                    -1
                } else {
                    0int
                },
            ) && final(self)@.weight() == old(self)@.weight(),
    {
        let ghost start = self@;
        proof {
            grows_self(start);
        }
        let (first, negated) = match op {
            TokenType::Plus => (OpCode::ADD, false),
            TokenType::Minus => (OpCode::SUB, false),
            TokenType::Star => (OpCode::MUL, false),
            TokenType::Slash => (OpCode::DIV, false),
            TokenType::EqualEqual => (OpCode::EQUAL, false),
            TokenType::BangEqual => (OpCode::EQUAL, true),
            TokenType::Greater => (OpCode::GREATER, false),
            TokenType::GreaterEqual => (OpCode::LESS, true),
            TokenType::Less => (OpCode::LESS, false),
            TokenType::LessEqual => (OpCode::GREATER, true),
            _ => {
                // `and` and `or` have written theirs with the operand
                return Ok(());
            },
        };
        proof {
            grows_by_op(start, start, first);
        }
        self.emit_op(first)?;
        if negated {
            proof {
                grows_by_op(start, self@, OpCode::NOT);
            }
            self.emit_op(OpCode::NOT)?;
        }
        Ok(())
    }

    pub(super) fn binary(&mut self, Ghost(fuel): Ghost<nat>) -> (res: COMPError<()>)
        requires
            old(self).ok(),
            fuel >= fuel_for(old(self)@, RANK_BINARY as nat),
            crate::grammar::is_binary_operator(old(self)@.cur.ty),
        ensures
            follows(final(self), res, binary(old(self)@, fuel)),
            res is Ok ==> advanced(old(self)@, final(self)@, 0) && final(self)@.weight() < old(
                self,
            )@.weight(),
        decreases fuel,
    {
        // the left operand is on the stack; the right one follows the operator
        let ghost start = self@;
        proof {
            grows_self(start);
        }
        let op = self.cur_ty();
        self.move_to_next_token()?;
        let ghost p1 = self@;
        proof {
            grows_by_token(start, start, p1);
        }
        match op {
            TokenType::And => self.and_(Precedence::from(op), Ghost((fuel - 1) as nat))?,
            TokenType::Or => self.or_(Precedence::from(op), Ghost((fuel - 1) as nat))?,
            _ => self.expression(Precedence::from(op), Ghost((fuel - 1) as nat))?,
        }
        let ghost p2 = self@;
        proof {
            grows_on(start, p1, p2);
            grows_gives(p1, p2);
        }
        let res = self.operator(op);
        proof {
            if res is Ok {
                grows_on(start, p2, self@);
            }
        }
        res
    }

    fn and_(&mut self, prec: Precedence, Ghost(fuel): Ghost<nat>) -> (res: COMPError<()>)
        requires
            old(self).ok(),
            prec == Precedence::And,
            fuel >= fuel_for(old(self)@, RANK_OPERAND as nat),
        ensures
            follows(final(self), res, and_(old(self)@, fuel)),
            res is Ok ==> advanced(old(self)@, final(self)@, 0),
            // the jump in front of the operand leads behind `AND`, the last instruction
            res is Ok ==> final(self)@.ops[old(self)@.ops.len() as int] == OpCode::JUMP_IF_FALSE(
                final(self)@.ops.len() as u16,
            ) && final(self)@.ops.last() == OpCode::AND,
        decreases fuel,
    {
        let ghost start = self@;
        proof {
            grows_self(start);
            grows_by_op(start, start, crate::grammar::open_jump(start.ops.len() as int, true));
        }
        let after_fst_expr_ip = self.emit_open_jump(true)?;
        let ghost p1 = self@;
        self.expression(prec, Ghost((fuel - 1) as nat))?;
        let ghost p2 = self@;
        proof {
            grows_on(start, p1, p2);
            grows_keeps(p1, p2, after_fst_expr_ip as int);
            rises_keeps(p1, p2, after_fst_expr_ip as int);
            rises_keeps(p1, p2, after_fst_expr_ip as int + 1);
            grows_by_op(start, p2, OpCode::AND);
        }
        self.emit_op(OpCode::AND)?;
        let ghost p3 = self@;
        let after_snd_expr_ip = self.count();
        proof {
            grows_by_patch(
                start,
                p3,
                after_fst_expr_ip as int,
                OpCode::JUMP_IF_FALSE(after_snd_expr_ip as InstructAddr),
            );
        }
        self.patch(OpCode::JUMP_IF_FALSE(after_snd_expr_ip as InstructAddr), after_fst_expr_ip);
        Ok(())
    }

    fn or_(&mut self, prec: Precedence, Ghost(fuel): Ghost<nat>) -> (res: COMPError<()>)
        requires
            old(self).ok(),
            prec == Precedence::Or,
            fuel >= fuel_for(old(self)@, RANK_OPERAND as nat),
        ensures
            follows(final(self), res, or_(old(self)@, fuel)),
            res is Ok ==> advanced(old(self)@, final(self)@, 0),
            // the first jump leads to the operand, the second one behind `OR`, the last
            // instruction
            res is Ok ==> final(self)@.ops[old(self)@.ops.len() as int] == OpCode::JUMP_IF_FALSE(
                (old(self)@.ops.len() + 2) as u16,
            ) && final(self)@.ops[old(self)@.ops.len() as int + 1] == OpCode::JUMP(
                final(self)@.ops.len() as u16,
            ) && final(self)@.ops.last() == OpCode::OR,
        decreases fuel,
    {
        let ghost start = self@;
        proof {
            grows_self(start);
            grows_by_op(start, start, crate::grammar::open_jump(start.ops.len() as int, true));
        }
        let fst_expr = self.emit_open_jump(true)?;
        let ghost p1 = self@;
        proof {
            grows_by_op(start, p1, crate::grammar::open_jump(p1.ops.len() as int, false));
        }
        let snd_expr = self.emit_open_jump(false)?;
        let ghost p2 = self@;
        let after_jumps = self.count();
        proof {
            grows_by_patch(
                start,
                p2,
                fst_expr as int,
                OpCode::JUMP_IF_FALSE(after_jumps as InstructAddr),
            );
        }
        self.patch(OpCode::JUMP_IF_FALSE(after_jumps as InstructAddr), fst_expr);
        let ghost p3 = self@;
        self.expression(prec, Ghost((fuel - 1) as nat))?;
        let ghost p4 = self@;
        proof {
            grows_on(start, p3, p4);
            grows_keeps(p3, p4, snd_expr as int);
            grows_keeps(p3, p4, fst_expr as int);
            rises_keeps(p3, p4, snd_expr as int);
            grows_by_op(start, p4, OpCode::OR);
        }
        self.emit_op(OpCode::OR)?;
        let ghost p5 = self@;
        let skip_snd_expr = self.count();
        proof {
            grows_by_patch(
                start,
                p5,
                snd_expr as int,
                OpCode::JUMP(skip_snd_expr as InstructAddr),
            );
        }
        self.patch(OpCode::JUMP(skip_snd_expr as InstructAddr), snd_expr);
        Ok(())
    }
}

} // verus!
