//! Statements that jump.

use super::{
    advanced, supplied, follows, grows_by_op, grows_by_op_to, grows_by_patch, grows_by_token, grows_gives,
    grows_keeps, grows_on, grows_self, Parser, RANK_CLAUSE, RANK_FOR_INITIALIZER,
    RANK_STATEMENT_KIND, rises_keeps, scope_closes, stated,
};
use crate::depth::lands;
use crate::grammar::{
    close_first, close_loop, condition, else_part, for_, for_body, for_condition, for_increment,
    for_initializer, for_loop, fuel_for, if_else, Jumps, open_jump, ParserView, while_,
};
use crate::opcode::{InstructAddr, OpCode};
use crate::scanner::{COMPError, CompileErrorView};
use crate::tokens::{Precedence, TokenType};
use vstd::prelude::*;

verus! {

impl<'a> Parser<'a> {
    /// The keyword at hand, and a condition in parentheses.
    fn condition(&mut self, Ghost(fuel): Ghost<nat>) -> (res: COMPError<()>)
        requires
            old(self).ok(),
            fuel >= fuel_for(old(self)@, RANK_CLAUSE as nat),
            old(self)@.cur.ty != TokenType::EoF,
        ensures
            follows(final(self), res, condition(old(self)@, fuel)),
            res is Ok ==> advanced(old(self)@, final(self)@, 1) && final(self)@.weight() < old(
                self,
            )@.weight(),
        decreases fuel,
    {
        let ghost start = self@;
        proof {
            grows_self(start);
        }
        self.move_to_next_token()?;
        let ghost p1 = self@;
        self.cur_must_be(TokenType::LeftParen)?;
        let ghost p2 = self@;
        proof {
            grows_by_token(start, start, p1);
            grows_by_token(start, p1, p2);
        }
        self.expression(Precedence::Lowest, Ghost((fuel - 1) as nat))?;
        let ghost p3 = self@;
        // the value of the condition is on the stack
        let res = self.cur_must_be(TokenType::RightParen);
        proof {
            grows_on(start, p2, p3);
            if res is Ok {
                grows_by_token(start, p3, self@);
            }
        }
        res
    }

    /// The end of a loop: the jump back to `back_to`, the jumps at `exits` filled in, and
    /// the `POP` for the condition.
    fn close_loop(&mut self, back_to: usize, exits: &Vec<usize>, Ghost(base): Ghost<ParserView>) -> (res:
        COMPError<()>)
        requires
            old(self).ok(),
            base.grows(old(self)@),
            back_to <= old(self)@.ops.len(),
            forall|k: int|
                0 <= k < exits@.len() ==> base.ops.len() <= (#[trigger] exits@[k]) < old(
                    self,
                )@.ops.len() && old(self)@.ops[exits@[k] as int] is JUMP_IF_FALSE,
        ensures
            follows(final(self), res, close_loop(old(self)@, back_to as int, exits@)),
            res is Ok ==> base.grows(final(self)@) && final(self)@.scopes == old(self)@.scopes
                && final(self)@.weight() == old(self)@.weight() && final(self)@.depth() == old(
                self,
            )@.depth(),
            res is Ok && base.rises(old(self)@) && old(self)@.depths[back_to as int] == old(
                self,
            )@.depth() && (forall|k: int|
                0 <= k < exits@.len() ==> old(self)@.depths[(#[trigger] exits@[k]) as int] == old(
                    self,
                )@.depth() + 1 && old(self)@.depths[exits@[k] + 1] == old(self)@.depths[exits@[k] as int])
                ==> base.rises(final(self)@),
            res is Ok && base.holds(old(self)@) && old(self)@.depth() >= 0 ==> base.holds(
                final(self)@,
            ),
    {
        let ghost start = self@;
        proof {
            grows_by_op_to(base, start, OpCode::JUMP(back_to as u16), start.depth() + 1);
        }
        self.emit_to(OpCode::JUMP(back_to as u16), Ghost(self@.depth() + 1))?;
        let ghost p1 = self@;
        let end_loop = self.count();
        proof {
            grows_gives(base, start);
            assert forall|k: int| 0 <= k < exits@.len() implies base.ops.len() <= (
            #[trigger] exits@[k]) < p1.ops.len() && p1.ops[exits@[k] as int].kind()
                == OpCode::JUMP_IF_FALSE(end_loop as u16).kind() by {
                assert(p1.ops[exits@[k] as int] == start.ops[exits@[k] as int]);
            }
            grows_by_patches(
                base,
                p1,
                exits@,
                OpCode::JUMP_IF_FALSE(end_loop as u16),
                exits@.len() as int,
            );
            if base.rises(start) && start.depths[back_to as int] == start.depth() && (forall|k: int|
                0 <= k < exits@.len() ==> start.depths[(#[trigger] exits@[k]) as int]
                    == start.depth() + 1 && start.depths[exits@[k] + 1] == start.depths[exits@[k] as int]) {
                assert forall|k: int| 0 <= k < exits@.len() implies lands(
                    OpCode::JUMP_IF_FALSE(end_loop as u16),
                    (#[trigger] exits@[k]) as int,
                    p1.depths,
                    p1.ops.len() as int,
                ) by {
                    let at = exits@[k] as int;
                    assert(p1.depths[at] == start.depths[at]);
                    assert(p1.depths[at + 1] == start.depths[at + 1]);
                }
            }
        }
        // behind the loop the condition is still on the stack
        self.patch_multip(OpCode::JUMP_IF_FALSE(end_loop as u16), exits);
        proof {
            grows_by_op(base, self@, OpCode::POP);
        }
        self.emit_op(OpCode::POP)
    }

    pub(super) fn while_(&mut self, Ghost(fuel): Ghost<nat>) -> (res: COMPError<()>)
        requires
            old(self).ok(),
            fuel >= fuel_for(old(self)@, RANK_STATEMENT_KIND as nat),
            old(self)@.cur.ty != TokenType::EoF,
        ensures
            follows(final(self), res, while_(old(self)@, fuel)),
            res is Ok ==> stated(old(self)@, final(self)@) && final(self)@.scopes == old(
                self,
            )@.scopes,
        decreases fuel,
    {
        let ghost start = self@;
        let loop_start = self.count();
        self.condition(Ghost((fuel - 1) as nat))?;
        let ghost p1 = self@;
        proof {
            grows_gives(start, p1);
            rises_keeps(start, p1, loop_start as int);
        }
        // where the condition counts as false, on to behind the loop
        let jmp_addr = self.emit_open_jump(true)?;
        let ghost p2 = self@;
        proof {
            grows_by_op(start, p1, open_jump(p1.ops.len() as int, true));
            grows_by_op(start, p2, OpCode::POP);
        }
        // the condition has served
        self.emit_op(OpCode::POP)?;
        let ghost p3 = self@;
        let mut exits: Vec<usize> = Vec::new();
        exits.push(jmp_addr);
        self.statement(Ghost((fuel - 1) as nat))?;
        let ghost p4 = self@;
        proof {
            grows_on(start, p3, p4);
            grows_gives(p3, p4);
            grows_keeps(p3, p4, jmp_addr as int);
            rises_keeps(p3, p4, jmp_addr as int);
            rises_keeps(p3, p4, jmp_addr as int + 1);
            rises_keeps(p3, p4, loop_start as int);
            assert(exits@ =~= seq![p1.ops.len() as usize]);
        }
        self.close_loop(loop_start, &exits, Ghost(start))
    }

    pub(super) fn if_else(&mut self, Ghost(fuel): Ghost<nat>) -> (res: COMPError<()>)
        requires
            old(self).ok(),
            fuel >= fuel_for(old(self)@, RANK_STATEMENT_KIND as nat),
            old(self)@.cur.ty != TokenType::EoF,
        ensures
            follows(final(self), res, if_else(old(self)@, fuel)),
            res is Ok ==> stated(old(self)@, final(self)@) && final(self)@.scopes == old(
                self,
            )@.scopes,
        decreases fuel,
    {
        let ghost start = self@;
        self.condition(Ghost((fuel - 1) as nat))?;
        let ghost p1 = self@;
        proof {
            grows_gives(start, p1);
        }
        // where the condition counts as false, on to behind the first statement
        let jump = self.emit_open_jump(true)?;
        let ghost p2 = self@;
        proof {
            grows_by_op(start, p1, open_jump(p1.ops.len() as int, true));
            grows_by_op(start, p2, OpCode::POP);
        }
        // the condition has served
        self.emit_op(OpCode::POP)?;
        let ghost p3 = self@;
        self.statement(Ghost((fuel - 1) as nat))?;
        let ghost p4 = self@;
        proof {
            grows_on(start, p3, p4);
            grows_gives(p3, p4);
            grows_keeps(p3, p4, jump as int);
            rises_keeps(p3, p4, jump as int);
            rises_keeps(p3, p4, jump as int + 1);
        }
        self.else_part(jump, Ghost(start), Ghost((fuel - 1) as nat))
    }

    /// The end of the first statement of an `if` whose jump stands at `jump`: the jump to the
    /// end of the whole, and the `POP` for a condition that counted as false.
    fn close_first(&mut self, jump: usize, Ghost(start): Ghost<ParserView>) -> (res: COMPError<()>)
        requires
            old(self).ok(),
            start.grows(old(self)@),
            start.ops.len() <= jump < old(self)@.ops.len(),
            old(self)@.ops[jump as int] is JUMP_IF_FALSE,
        ensures
            follows(final(self), res, close_first(old(self)@, jump as int)),
            res is Ok ==> start.grows(final(self)@) && final(self)@.scopes == old(self)@.scopes
                && final(self)@.weight() == old(self)@.weight() && final(self)@.cur == old(
                self,
            )@.cur && final(self)@.depth() == old(self)@.depth() && final(self)@.ops.len() == old(
                self,
            )@.ops.len() + 2 && final(self)@.ops[old(self)@.ops.len() as int] is JUMP
                && final(self)@.depths[old(self)@.ops.len() as int] == old(self)@.depth(),
            res is Ok && start.rises(old(self)@) && old(self)@.depths[jump as int] == old(
                self,
            )@.depth() + 1 && old(self)@.depths[jump + 1] == old(self)@.depths[jump as int]
                ==> start.rises(final(self)@),
            res is Ok && start.holds(old(self)@) && old(self)@.depth() >= 0 ==> start.holds(
                final(self)@,
            ),
    {
        let ghost p0 = self@;
        let over = self.count();
        proof {
            self.wf_gives_inv();
            reveal(ParserView::inv);
            grows_gives(start, p0);
            grows_by_op_to(start, p0, open_jump(over as int, false), p0.depth() + 1);
        }
        // the first statement ends with a jump to the end of the whole
        self.emit_to(OpCode::JUMP(over as InstructAddr), Ghost(self@.depth() + 1))?;
        let ghost p1 = self@;
        proof {
            grows_by_patch(start, p1, jump as int, OpCode::JUMP_IF_FALSE((over + 1) as InstructAddr));
        }
        self.patch(OpCode::JUMP_IF_FALSE((over + 1) as InstructAddr), jump);
        let ghost p1b = self@;
        proof {
            grows_by_op(start, p1b, OpCode::POP);
        }
        // here the condition that counted as false is still on the stack
        self.emit_op(OpCode::POP)
    }

    /// What follows the first statement of an `if` whose jump stands at `jump`: the end of
    /// the first statement, the second statement where there is one, and the target of the
    /// jump that ends the first.
    fn else_part(&mut self, jump: usize, Ghost(start): Ghost<ParserView>, Ghost(fuel): Ghost<nat>) -> (res:
        COMPError<()>)
        requires
            old(self).ok(),
            fuel >= fuel_for(old(self)@, RANK_CLAUSE as nat),
            start.grows(old(self)@),
            start.ops.len() <= jump < old(self)@.ops.len(),
            old(self)@.ops[jump as int] is JUMP_IF_FALSE,
        ensures
            follows(final(self), res, else_part(old(self)@, jump as int, fuel)),
            res is Ok ==> start.grows(final(self)@) && final(self)@.scopes == old(self)@.scopes
                && final(self)@.weight() <= old(self)@.weight() && final(self)@.depth() == old(
                self,
            )@.depth(),
            res is Ok && start.rises(old(self)@) && old(self)@.depths[jump as int] == old(
                self,
            )@.depth() + 1 && old(self)@.depths[jump + 1] == old(self)@.depths[jump as int]
                ==> start.rises(final(self)@),
            res is Ok && start.holds(old(self)@) && old(self)@.based(0) ==> start.holds(
                final(self)@,
            ),
        decreases fuel,
    {
        let ghost p0 = self@;
        let over = self.count();
        self.close_first(jump, Ghost(start))?;
        let ghost p2 = self@;
        if self.cur_ty() == TokenType::Else {
            self.move_to_next_token()?;
            let ghost p3 = self@;
            proof {
                grows_by_token(start, p2, p3);
            }
            self.statement(Ghost((fuel - 1) as nat))?;
            let ghost p4 = self@;
            proof {
                grows_on(start, p3, p4);
                grows_gives(p3, p4);
                grows_keeps(p3, p4, over as int);
                rises_keeps(p3, p4, over as int);
            }
        }
        let end = self.count();
        proof {
            self.wf_gives_inv();
            grows_gives(start, p0);
            grows_by_patch(start, self@, over as int, OpCode::JUMP(end as InstructAddr));
        }
        self.patch(OpCode::JUMP(end as InstructAddr), over);
        Ok(())
    }

    pub(super) fn for_(&mut self, Ghost(fuel): Ghost<nat>) -> (res: COMPError<()>)
        requires
            old(self).ok(),
            fuel >= fuel_for(old(self)@, RANK_STATEMENT_KIND as nat),
            old(self)@.cur.ty != TokenType::EoF,
        ensures
            follows(final(self), res, for_(old(self)@, fuel)),
            res is Ok ==> stated(old(self)@, final(self)@) && final(self)@.scopes == old(
                self,
            )@.scopes,
        decreases fuel,
    {
        let ghost start = self@;
        proof {
            grows_self(start);
        }
        self.move_to_next_token()?;
        let ghost p0 = self@;
        proof {
            grows_by_token(start, start, p0);
            self.wf_gives_inv();
        }
        self.begin_scope()?;
        let ghost begun = self@;
        self.for_loop(Ghost((fuel - 1) as nat))?;
        let ghost inside = self@;
        proof {
            grows_gives(begun, inside);
        }
        self.clean_locals()?;
        proof {
            scope_closes(p0, inside, self@);
            grows_on(start, p0, self@.with_scopes(self@.scopes.end_scope()));
        }
        self.end_scope();
        Ok(())
    }

    /// The clauses of a `for` in parentheses, and its statement.
    fn for_loop(&mut self, Ghost(fuel): Ghost<nat>) -> (res: COMPError<()>)
        requires
            old(self).ok(),
            fuel >= fuel_for(old(self)@, RANK_CLAUSE as nat),
        ensures
            follows(final(self), res, for_loop(old(self)@, fuel)),
            res is Ok ==> old(self)@.grows(final(self)@) && final(self)@.weight() <= old(
                self,
            )@.weight() && old(self)@.rises(final(self)@) && final(self)@.depth() - old(
                self,
            )@.depth() == final(self)@.scopes.locals.len() - old(self)@.scopes.locals.len() && (old(
                self,
            )@.based(0) ==> old(self)@.holds(final(self)@)),
        decreases fuel,
    {
        let ghost begun = self@;
        proof {
            grows_self(begun);
        }
        self.cur_must_be(TokenType::LeftParen)?;
        let ghost p1 = self@;
        proof {
            grows_by_token(begun, begun, p1);
        }
        self.for_initializer(Ghost((fuel - 1) as nat))?;
        let ghost p2 = self@;
        proof {
            grows_on(begun, p1, p2);
        }
        let before_cond = self.count();
        let mut to_loop_body: Vec<usize> = Vec::new();
        let mut to_loop_end: Vec<usize> = Vec::new();
        self.for_condition(&mut to_loop_body, &mut to_loop_end, Ghost((fuel - 1) as nat))?;
        let ghost p3 = self@;
        proof {
            grows_on(begun, p2, p3);
            grows_gives(p2, p3);
        }
        let inc_clause = self.for_increment(
            before_cond,
            &mut to_loop_body,
            Ghost(p2),
            Ghost((fuel - 1) as nat),
        )?;
        let ghost p4 = self@;
        proof {
            grows_on(begun, p3, p4);
            grows_on(p2, p3, p4);
            grows_gives(p3, p4);
            held_on(p2, p3, p4, to_loop_end@, true);
        }
        self.for_body(
            &to_loop_body,
            &to_loop_end,
            inc_clause,
            Ghost(begun),
            Ghost(p2),
            Ghost((fuel - 1) as nat),
        )
    }

    fn for_initializer(&mut self, Ghost(fuel): Ghost<nat>) -> (res: COMPError<()>)
        requires
            old(self).ok(),
            fuel >= fuel_for(old(self)@, RANK_FOR_INITIALIZER as nat),
        ensures
            follows(final(self), res, for_initializer(old(self)@, fuel)),
            res is Ok ==> stated(old(self)@, final(self)@),
        decreases fuel,
    {
        let ghost start = self@;
        match self.cur_ty() {
            TokenType::Semicolon => {
                let res = self.move_to_next_token();
                proof {
                    if res is Ok {
                        grows_self(start);
                        grows_by_token(start, start, self@);
                    }
                }
                res
            },
            TokenType::Var => self.var_declaration(Ghost((fuel - 1) as nat)),
            _ => self.expression_statement(Ghost((fuel - 1) as nat)),
        }
    }

    /// The second clause of a `for`; the places of the jumps that wait for their targets are
    /// added to `to_loop_body` and `to_loop_end`.
    fn for_condition(
        &mut self,
        to_loop_body: &mut Vec<usize>,
        to_loop_end: &mut Vec<usize>,
        Ghost(fuel): Ghost<nat>,
    ) -> (res: COMPError<()>)
        requires
            old(self).ok(),
            fuel >= fuel_for(old(self)@, RANK_CLAUSE as nat),
            old(to_loop_body)@.len() == 0,
            old(to_loop_end)@.len() == 0,
        ensures
            match res {
                Ok(()) => for_condition(old(self)@, fuel) == Ok::<
                    (ParserView, Jumps),
                    CompileErrorView,
                >(
                    (
                        final(self)@,
                        Jumps { to_body: final(to_loop_body)@, to_end: final(to_loop_end)@ },
                    ),
                ) && final(self).ok() && advanced(old(self)@, final(self)@, 0) && supplied(
                    old(self)@,
                    final(self)@,
                    0,
                ) && held(old(self)@, final(self)@, final(to_loop_body)@, false) && held(old(self)@, final(self)@, final(to_loop_end)@, true) && final(to_loop_body)@.len() <= 1 && final(to_loop_end)@.len() <= 1,
                Err(e) => for_condition(old(self)@, fuel) == Err::<
                    (ParserView, Jumps),
                    CompileErrorView,
                >(e@) && !final(self).frozen(),
            },
        decreases fuel,
    {
        let ghost start = self@;
        proof {
            grows_self(start);
        }
        if self.cur_ty() != TokenType::Semicolon {
            self.expression(Precedence::Lowest, Ghost((fuel - 1) as nat))?;
            let ghost p1 = self@;
            self.cur_must_be(TokenType::Semicolon)?;
            let ghost p2 = self@;
            proof {
                grows_by_token(start, p1, p2);
                grows_gives(start, p2);
            }
            // where the condition counts as false, on to behind the loop
            let exit = self.emit_open_jump(true)?;
            to_loop_end.push(exit);
            let ghost p3 = self@;
            proof {
                grows_by_op(start, p2, open_jump(p2.ops.len() as int, true));
                grows_by_op(start, p3, OpCode::POP);
            }
            // else the condition has served
            self.emit_op(OpCode::POP)?;
            let ghost p4 = self@;
            let enter = self.emit_open_jump(false)?;
            to_loop_body.push(enter);
            proof {
                grows_by_op(start, p4, open_jump(p4.ops.len() as int, false));
                assert(to_loop_body@ =~= seq![(p2.ops.len() + 2) as usize]);
                assert(to_loop_end@ =~= seq![p2.ops.len() as usize]);
            }
            Ok(())
        } else {
            let res = self.move_to_next_token();
            proof {
                if res is Ok {
                    grows_by_token(start, start, self@);
                    assert(to_loop_body@ =~= Seq::<usize>::empty());
                    assert(to_loop_end@ =~= Seq::<usize>::empty());
                }
            }
            res
        }
    }

    /// The third clause of a `for`. Gives where the statement's last jump has to lead.
    fn for_increment(
        &mut self,
        before_cond: usize,
        to_loop_body: &mut Vec<usize>,
        Ghost(base): Ghost<ParserView>,
        Ghost(fuel): Ghost<nat>,
    ) -> (res: COMPError<usize>)
        requires
            old(self).ok(),
            fuel >= fuel_for(old(self)@, RANK_CLAUSE as nat),
            before_cond == base.ops.len(),
            base.shaped(),
            base.grows(old(self)@),
            old(self)@.depth() == base.depth(),
            held(base, old(self)@, old(to_loop_body)@, false),
            old(to_loop_body)@.len() <= 1,
        ensures
            match res {
                Ok(inc_clause) => (match for_increment(old(self)@, before_cond as int, fuel) {
                    Ok((p, over, inc)) => p == final(self)@ && final(to_loop_body)@ == old(
                        to_loop_body,
                    )@ + over && inc == inc_clause,
                    Err(_) => false,
                }) && final(self).ok() && advanced(old(self)@, final(self)@, 0) && supplied(
                    old(self)@,
                    final(self)@,
                    0,
                ) && held(base, final(self)@, final(to_loop_body)@, false) && base.ops.len() <= inc_clause <= final(self)@.ops.len() && final(self)@.depths[inc_clause as int] == base.depth() && final(to_loop_body)@.len() <= 2,
                Err(e) => for_increment(old(self)@, before_cond as int, fuel) == Err::<
                    (ParserView, Seq<usize>, int),
                    CompileErrorView,
                >(e@) && !final(self).frozen(),
            },
        decreases fuel,
    {
        let ghost start = self@;
        proof {
            grows_self(start);
            grows_gives(base, start);
            rises_keeps(base, start, before_cond as int);
        }
        if self.cur_ty() != TokenType::RightParen {
            // the clause stands in front of the statement and runs behind it
            let over = self.emit_open_jump(false)?;
            to_loop_body.push(over);
            let ghost p1 = self@;
            proof {
                grows_by_op(start, start, open_jump(start.ops.len() as int, false));
            }
            let inc_clause = self.count();
            self.expression(Precedence::Assignment, Ghost((fuel - 1) as nat))?;
            let ghost p2 = self@;
            proof {
                grows_on(start, p1, p2);
                grows_by_op(start, p2, OpCode::POP);
                grows_gives(start, p2);
            }
            self.emit_op(OpCode::POP)?;
            let ghost p3 = self@;
            proof {
                rises_keeps(p1, p2, before_cond as int);
                rises_keeps(p1, p2, inc_clause as int);
                grows_by_op(start, p3, OpCode::JUMP(before_cond as u16));
            }
            self.emit_op(OpCode::JUMP(before_cond as u16))?;
            proof {
                assert(to_loop_body@ =~= old(to_loop_body)@ + seq![start.ops.len() as usize]);
                let now = self@;
                assert forall|k: int| 0 <= k < to_loop_body@.len() implies waits(
                    base,
                    p1,
                    #[trigger] to_loop_body@[k] as int,
                    false,
                ) by {
                    let at = to_loop_body@[k] as int;
                    if k < old(to_loop_body)@.len() {
                        assert(old(to_loop_body)@[k] == to_loop_body@[k]);
                        assert(waits(base, start, at, false));
                        assert(p1.ops[at] == start.ops[at]);
                        assert(p1.depths[at] == start.depths[at]);
                        assert(p1.depths[at + 1] == start.depths[at + 1]);
                    } else {
                        assert(at == start.ops.len());
                        assert(p1.ops[at] == open_jump(at, false));
                        assert(p1.depths[at] == start.depth());
                    }
                }
                held_on(base, p1, p2, to_loop_body@, false);
                assert forall|k: int| 0 <= k < to_loop_body@.len() implies waits(
                    base,
                    now,
                    #[trigger] to_loop_body@[k] as int,
                    false,
                ) by {
                    let at = to_loop_body@[k] as int;
                    assert(waits(base, p2, at, false));
                    assert(p3.ops[at] == p2.ops[at]);
                    assert(now.ops[at] == p3.ops[at]);
                    assert(now.depths[at] == p2.depths[at]);
                    assert(now.depths[at + 1] == p2.depths[at + 1]);
                }
            }
            Ok(inc_clause)
        } else {
            proof {
                assert(to_loop_body@ + Seq::<usize>::empty() =~= to_loop_body@);
            }
            Ok(before_cond)
        }
    }

    /// `)` and the statement of a `for`, with the jumps that wait for their targets filled
    /// in, and the `POP` that drops the condition behind the loop.
    fn for_body(
        &mut self,
        to_loop_body: &Vec<usize>,
        to_loop_end: &Vec<usize>,
        inc_clause: usize,
        Ghost(begun): Ghost<ParserView>,
        Ghost(base): Ghost<ParserView>,
        Ghost(fuel): Ghost<nat>,
    ) -> (res: COMPError<()>)
        requires
            old(self).ok(),
            fuel >= fuel_for(old(self)@, RANK_CLAUSE as nat),
            begun.grows(base),
            begun.grows(old(self)@),
            base.grows(old(self)@),
            base.shaped(),
            old(self)@.depth() == base.depth(),
            held(base, old(self)@, to_loop_body@, false),
            held(base, old(self)@, to_loop_end@, true),
            base.ops.len() <= inc_clause <= old(self)@.ops.len(),
            old(self)@.depths[inc_clause as int] == base.depth(),
        ensures
            match res {
                Ok(()) => final(self).ok() && begun.grows(final(self)@) && final(self)@.scopes
                    == old(self)@.scopes && final(self)@.weight() <= old(self)@.weight()
                    && final(self)@.depth() == old(self)@.depth() && (begun.rises(old(self)@)
                    ==> begun.rises(final(self)@)) && (begun.holds(old(self)@) && old(
                    self,
                )@.based(0) ==> begun.holds(final(self)@)) && for_body(
                    old(self)@,
                    Jumps { to_body: to_loop_body@, to_end: to_loop_end@ },
                    inc_clause as int,
                    fuel,
                ) == Ok::<ParserView, CompileErrorView>(final(self)@),
                Err(e) => for_body(
                    old(self)@,
                    Jumps { to_body: to_loop_body@, to_end: to_loop_end@ },
                    inc_clause as int,
                    fuel,
                ) == Err::<ParserView, CompileErrorView>(e@) && !final(self).frozen(),
            },
        decreases fuel,
    {
        let ghost start = self@;
        self.cur_must_be(TokenType::RightParen)?;
        let ghost p1 = self@;
        let loop_body = self.count();
        proof {
            grows_by_token(begun, start, p1);
            grows_gives(begun, base);
            grows_gives(base, start);
            assert forall|k: int| 0 <= k < to_loop_body@.len() implies begun.ops.len() <= (
            #[trigger] to_loop_body@[k]) < p1.ops.len() && p1.ops[to_loop_body@[k] as int].kind()
                == OpCode::JUMP(loop_body as u16).kind() && lands(
                OpCode::JUMP(loop_body as u16),
                to_loop_body@[k] as int,
                p1.depths,
                p1.ops.len() as int,
            ) by {
                assert(waits(base, start, to_loop_body@[k] as int, false));
            }
            grows_by_patches(
                begun,
                p1,
                to_loop_body@,
                OpCode::JUMP(loop_body as u16),
                to_loop_body@.len() as int,
            );
        }
        self.patch_multip(OpCode::JUMP(loop_body as u16), to_loop_body);
        let ghost p1b = self@;
        proof {
            held_after_patches(
                base,
                p1,
                to_loop_end@,
                to_loop_body@,
                OpCode::JUMP(loop_body as u16),
                to_loop_body@.len() as int,
            );
        }
        self.statement(Ghost((fuel - 1) as nat))?;
        let ghost p2 = self@;
        proof {
            grows_on(begun, p1b, p2);
            grows_gives(p1b, p2);
            rises_keeps(p1b, p2, inc_clause as int);
            held_on(base, p1b, p2, to_loop_end@, true);
            assert forall|k: int| 0 <= k < to_loop_end@.len() implies begun.ops.len() <= (
            #[trigger] to_loop_end@[k]) < p2.ops.len() && p2.ops[to_loop_end@[k] as int] is JUMP_IF_FALSE
                && p2.depths[to_loop_end@[k] as int] == base.depth() + 1
                && p2.depths[to_loop_end@[k] + 1] == p2.depths[to_loop_end@[k] as int] by {
                assert(waits(base, p2, to_loop_end@[k] as int, true));
            }
        }
        self.close_loop(inc_clause, to_loop_end, Ghost(begun))
    }
}

/// The jump at index `at` has been written since `base` and waits for its target at the
/// depth that `base` ended at: it is a `JUMP_IF_FALSE` where `conditional` holds and a `JUMP`
/// where it does not, and the stack is as deep in front of it and behind it as it was at
/// the end of `base`.
pub open spec fn waits(base: ParserView, now: ParserView, at: int, conditional: bool) -> bool {
    &&& base.ops.len() <= at < now.ops.len()
    &&& now.ops[at].kind() == open_jump(0, conditional).kind()
    &&& now.depths[at] == base.depth() + (if conditional {
        1int
    } else {
        0int
    })
    &&& now.depths[at + 1] == now.depths[at]
}

/// Each of the jumps at `ips` waits for its target.
pub open spec fn held(base: ParserView, now: ParserView, ips: Seq<usize>, conditional: bool) -> bool {
    forall|k: int| 0 <= k < ips.len() ==> waits(base, now, #[trigger] ips[k] as int, conditional)
}

/// Jumps that wait for their targets still wait where the state has grown.
pub proof fn held_on(
    base: ParserView,
    mid: ParserView,
    now: ParserView,
    ips: Seq<usize>,
    conditional: bool,
)
    requires
        held(base, mid, ips, conditional),
        mid.grows(now),
        mid.shaped(),
    ensures
        held(base, now, ips, conditional),
{
    assert forall|k: int| 0 <= k < ips.len() implies waits(
        base,
        now,
        #[trigger] ips[k] as int,
        conditional,
    ) by {
        assert(waits(base, mid, ips[k] as int, conditional));
        grows_keeps(mid, now, ips[k] as int);
        rises_keeps(mid, now, ips[k] as int);
        rises_keeps(mid, now, ips[k] as int + 1);
    }
}

/// Growth goes on through the filling in of jumps that have been written since, and so do
/// the depths where the jumps agree with them.
pub proof fn grows_by_patches(a: ParserView, b: ParserView, ips: Seq<usize>, op: OpCode, n: int)
    requires
        a.grows(b),
        0 <= n <= ips.len(),
        forall|k: int| 0 <= k < ips.len() ==> a.ops.len() <= (#[trigger] ips[k]) < b.ops.len(),
        crate::chunk::op_fits(op, b.ops.len() as int + 1, b.consts),
        op != OpCode::RETURN,
    ensures
        a.grows(ParserView { ops: crate::chunk::patched(b.ops, op, ips, n), ..b }),
        crate::chunk::patched(b.ops, op, ips, n).len() == b.ops.len(),
        a.rises(b) && (forall|k: int|
            0 <= k < ips.len() ==> lands(op, (#[trigger] ips[k]) as int, b.depths, b.ops.len() as int))
            ==> a.rises(ParserView { ops: crate::chunk::patched(b.ops, op, ips, n), ..b }),
        a.holds(b) && (forall|k: int|
            0 <= k < ips.len() ==> b.ops[(#[trigger] ips[k]) as int].kind() == op.kind()) && (op is JUMP
            || op is JUMP_IF_FALSE) ==> a.holds(
            ParserView { ops: crate::chunk::patched(b.ops, op, ips, n), ..b },
        ),
        forall|i: int|
            0 <= i < b.ops.len() && (forall|k: int|
                0 <= k < ips.len() ==> b.ops[(#[trigger] ips[k]) as int].kind() == op.kind())
                ==> (#[trigger] crate::chunk::patched(b.ops, op, ips, n)[i]).kind() == b.ops[i].kind(),
    decreases n,
{
    if n == 0 {
        assert((ParserView { ops: crate::chunk::patched(b.ops, op, ips, n), ..b }) == b);
    } else {
        grows_by_patches(a, b, ips, op, n - 1);
        let mid = ParserView { ops: crate::chunk::patched(b.ops, op, ips, n - 1), ..b };
        grows_by_patch(a, mid, ips[n - 1] as int, op);
        if forall|k: int| 0 <= k < ips.len() ==> b.ops[(#[trigger] ips[k]) as int].kind() == op.kind() {
            assert(mid.ops[ips[n - 1] as int].kind() == b.ops[ips[n - 1] as int].kind());
        }
        assert(mid.patch(ips[n - 1] as int, op) == (ParserView {
            ops: crate::chunk::patched(b.ops, op, ips, n),
            ..b
        }));
    }
}

/// Conditional jumps that wait for their targets still wait when other jumps have been
/// filled in.
pub proof fn held_after_patches(
    base: ParserView,
    now: ParserView,
    ips: Seq<usize>,
    others: Seq<usize>,
    filled: OpCode,
    n: int,
)
    requires
        held(base, now, ips, true),
        0 <= n <= others.len(),
        held(base, now, others, false),
        filled is JUMP,
    ensures
        held(
            base,
            ParserView { ops: crate::chunk::patched(now.ops, filled, others, n), ..now },
            ips,
            true,
        ),
        crate::chunk::patched(now.ops, filled, others, n).len() == now.ops.len(),
    decreases n,
{
    if n > 0 {
        held_after_patches(base, now, ips, others, filled, n - 1);
        let mid = crate::chunk::patched(now.ops, filled, others, n - 1);
        assert(waits(base, now, others[n - 1] as int, false));
        let after = ParserView { ops: crate::chunk::patched(now.ops, filled, others, n), ..now };
        let before = ParserView { ops: mid, ..now };
        assert forall|k: int| 0 <= k < ips.len() implies waits(
            base,
            after,
            #[trigger] ips[k] as int,
            true,
        ) by {
            assert(waits(base, before, ips[k] as int, true));
            assert(waits(base, now, ips[k] as int, true));
        }
    }
}

} // verus!
