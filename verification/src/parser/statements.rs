//! Declarations and the statements that do not jump.

use super::{
    follows, grows_by_op, grows_by_token, grows_gives, grows_on, grows_self, Parser,
    RANK_BLOCK_ITEMS, RANK_CLAUSE, RANK_DECLARATION, RANK_STATEMENT, RANK_STATEMENT_KIND,
    scope_closes, stated,
};
use crate::grammar::{
    block, block_items, declaration, expression_statement, fuel_for, ParserView, print, scope,
    statement, var_declaration,
};
use crate::opcode::OpCode;
use crate::scanner::{COMPError, CompileErrorView};
use crate::tokens::{Precedence, TokenType};
use vstd::prelude::*;

verus! {

impl<'a> Parser<'a> {
    pub(super) fn declaration(&mut self, Ghost(fuel): Ghost<nat>) -> (res: COMPError<()>)
        requires
            old(self).ok(),
            fuel >= fuel_for(old(self)@, RANK_DECLARATION as nat),
        ensures
            follows(final(self), res, declaration(old(self)@, fuel)),
            res is Ok ==> stated(old(self)@, final(self)@),
        decreases fuel,
    {
        match self.cur_ty() {
            TokenType::Var => self.var_declaration(Ghost((fuel - 1) as nat)),
            _ => self.statement(Ghost((fuel - 1) as nat)),
        }
    }

    pub(super) fn statement(&mut self, Ghost(fuel): Ghost<nat>) -> (res: COMPError<()>)
        requires
            old(self).ok(),
            fuel >= fuel_for(old(self)@, RANK_STATEMENT as nat),
        ensures
            follows(final(self), res, statement(old(self)@, fuel)),
            res is Ok ==> stated(old(self)@, final(self)@) && final(self)@.scopes == old(
                self,
            )@.scopes,
        decreases fuel,
    {
        match self.cur_ty() {
            TokenType::Print => self.print(Ghost((fuel - 1) as nat)),
            TokenType::If => self.if_else(Ghost((fuel - 1) as nat)),
            TokenType::While => self.while_(Ghost((fuel - 1) as nat)),
            TokenType::For => self.for_(Ghost((fuel - 1) as nat)),
            TokenType::LeftBrace => self.scope(Ghost((fuel - 1) as nat)),
            _ => self.expression_statement(Ghost((fuel - 1) as nat)),
        }
    }

    pub(super) fn expression_statement(&mut self, Ghost(fuel): Ghost<nat>) -> (res: COMPError<()>)
        requires
            old(self).ok(),
            fuel >= fuel_for(old(self)@, RANK_STATEMENT_KIND as nat),
        ensures
            follows(final(self), res, expression_statement(old(self)@, fuel)),
            res is Ok ==> stated(old(self)@, final(self)@) && final(self)@.scopes == old(
                self,
            )@.scopes,
        decreases fuel,
    {
        let ghost start = self@;
        self.expression(Precedence::Lowest, Ghost((fuel - 1) as nat))?;
        let ghost p1 = self@;
        self.cur_must_be(TokenType::Semicolon)?;
        proof {
            grows_by_token(start, p1, self@);
            grows_by_op(start, self@, OpCode::POP);
        }
        self.emit_op(OpCode::POP)
    }

    fn scope(&mut self, Ghost(fuel): Ghost<nat>) -> (res: COMPError<()>)
        requires
            old(self).ok(),
            fuel >= fuel_for(old(self)@, RANK_STATEMENT_KIND as nat),
            old(self)@.cur.ty != TokenType::EoF,
        ensures
            follows(final(self), res, scope(old(self)@, fuel)),
            res is Ok ==> stated(old(self)@, final(self)@) && final(self)@.scopes == old(
                self,
            )@.scopes,
        decreases fuel,
    {
        let ghost start = self@;
        proof {
            self.wf_gives_inv();
        }
        self.begin_scope()?;
        let ghost begun = self@;
        self.block(Ghost((fuel - 1) as nat))?;
        let ghost inside = self@;
        self.clean_locals()?;
        proof {
            scope_closes(start, inside, self@);
            grows_gives(begun, inside);
        }
        self.end_scope();
        Ok(())
    }

    fn block(&mut self, Ghost(fuel): Ghost<nat>) -> (res: COMPError<()>)
        requires
            old(self).ok(),
            fuel >= fuel_for(old(self)@, RANK_CLAUSE as nat),
            old(self)@.cur.ty != TokenType::EoF,
        ensures
            follows(final(self), res, block(old(self)@, fuel)),
            res is Ok ==> stated(old(self)@, final(self)@),
        decreases fuel,
    {
        let ghost start = self@;
        proof {
            grows_self(start);
        }
        self.move_to_next_token()?;
        let ghost p1 = self@;
        proof {
            grows_by_token(start, start, p1);
        }
        let ghost mut left: nat = (fuel - 1) as nat;
        loop
            invariant_except_break
                left >= fuel_for(self@, RANK_BLOCK_ITEMS as nat),
                left < fuel,
                (match block_items(self@, left) {
                    Err(e) => Err(e),
                    Ok(p2) => p2.expect(TokenType::RightBrace),
                }) == block(start, fuel),
            invariant
                self.ok(),
                start == old(self)@,
                stated(start, self@),
            ensures
                self@.cur.ty == TokenType::RightBrace,
                self@.expect(TokenType::RightBrace) == block(start, fuel),
            decreases left,
        {
            match self.cur_ty() {
                TokenType::RightBrace => {
                    break ;
                },
                TokenType::EoF => {
                    return Err(self.syntax_err("EoF without block close"));
                },
                _ => {
                    let ghost before = self@;
                    self.declaration(Ghost((left - 1) as nat))?;
                    proof {
                        grows_on(start, before, self@);
                        left = (left - 1) as nat;
                    }
                },
            }
        }
        let ghost p2 = self@;
        let res = self.cur_must_be(TokenType::RightBrace);
        proof {
            if res is Ok {
                grows_by_token(start, p2, self@);
            }
        }
        res
    }

    /// `var` and the name behind it.
    fn get_ident(&mut self) -> (res: COMPError<String>)
        requires
            old(self).ok(),
            old(self)@.cur.ty != TokenType::EoF,
        ensures
            match res {
                Ok(name) => old(self)@.advance() is Ok && old(self)@.advance()->Ok_0.expect(
                    TokenType::Ident,
                ) == Ok::<ParserView, CompileErrorView>(final(self)@) && final(self).ok() && name@
                    == final(self)@.prev_text() && final(self)@.weight() < old(self)@.weight()
                    && final(self)@.ops == old(self)@.ops && final(self)@.consts == old(
                    self,
                )@.consts && final(self)@.scopes == old(self)@.scopes && final(self)@.src == old(
                    self,
                )@.src && final(self)@.depths == old(self)@.depths,
                Err(e) => (match old(self)@.advance() {
                    Err(e1) => e1,
                    Ok(p1) => p1.expect(TokenType::Ident)->Err_0,
                }) == e@ && !(old(self)@.advance() matches Ok(p1) && p1.expect(TokenType::Ident) is Ok)
                    && !final(self).frozen(),
            },
    {
        match self.move_to_next_token() {
            Err(e) => {
                return Err(e);
            },
            Ok(()) => {},
        }
        match self.cur_must_be(TokenType::Ident) {
            Err(e) => {
                return Err(e);
            },
            Ok(()) => {},
        }
        Ok(self.prev_text())
    }

    pub(super) fn var_declaration(&mut self, Ghost(fuel): Ghost<nat>) -> (res: COMPError<()>)
        requires
            old(self).ok(),
            fuel >= fuel_for(old(self)@, RANK_STATEMENT_KIND as nat),
            old(self)@.cur.ty != TokenType::EoF,
        ensures
            follows(final(self), res, var_declaration(old(self)@, fuel)),
            res is Ok ==> stated(old(self)@, final(self)@),
        decreases fuel,
    {
        let ghost start = self@;
        proof {
            grows_self(start);
        }
        let ident_ = self.get_ident()?;
        let ghost p2 = self@;
        proof {
            grows_by_token(start, start, p2);
        }
        if self.cur_ty() == TokenType::Equal {
            self.move_to_next_token()?;
            let ghost p3 = self@;
            proof {
                grows_by_token(start, p2, p3);
            }
            // the first value is computed and stays on the stack
            self.expression(Precedence::Lowest, Ghost((fuel - 1) as nat))?;
            proof {
                grows_on(start, p3, self@);
            }
        } else {
            proof {
                grows_by_op(start, p2, OpCode::NIL);
            }
            self.emit_op(OpCode::NIL)?;
        }
        let ghost p4 = self@;
        proof {
            grows_gives(start, p4);
        }
        self.declare(ident_)?;
        let ghost p5 = self@;
        proof {
            grows_on(start, p4, p5);
        }
        let res = self.cur_must_be(TokenType::Semicolon);
        proof {
            if res is Ok {
                grows_by_token(start, p5, self@);
            }
        }
        res
    }

    fn print(&mut self, Ghost(fuel): Ghost<nat>) -> (res: COMPError<()>)
        requires
            old(self).ok(),
            fuel >= fuel_for(old(self)@, RANK_STATEMENT_KIND as nat),
            old(self)@.cur.ty != TokenType::EoF,
        ensures
            follows(final(self), res, print(old(self)@, fuel)),
            res is Ok ==> stated(old(self)@, final(self)@) && final(self)@.scopes == old(
                self,
            )@.scopes,
        decreases fuel,
    {
        let ghost start = self@;
        proof {
            grows_self(start);
        }
        self.move_to_next_token()?;
        let ghost p1 = self@;
        proof {
            grows_by_token(start, start, p1);
        }
        self.expression(Precedence::Lowest, Ghost((fuel - 1) as nat))?;
        let ghost p2 = self@;
        proof {
            grows_on(start, p1, p2);
        }
        self.cur_must_be(TokenType::Semicolon)?;
        proof {
            grows_by_token(start, p2, self@);
            grows_by_op(start, self@, OpCode::PRINT);
        }
        self.emit_op(OpCode::PRINT)
    }
}

} // verus!
