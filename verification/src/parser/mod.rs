//! The compiler: a single pass over the tokens that writes instructions and constants to a
//! chunk.

use crate::chunk::{
    Chunk, Constant, ConstantView, number_literal, op_fits, returns_last, runnable,
};
use crate::comptime::{Compiler, LOCAL_MAX, Scopes};
use crate::depth::{effect, lands, level, needs, supplied_from};
use crate::grammar::{
    clean_locals, CODE_MAX, compiled, CONST_MAX, declaration, declarations, declare, expression,
    fuel_for, identifier, infix, literal, number, open_jump, Parsed, ParserView, program,
    scope, statement, string, too_deep, variable_code,
};
use crate::opcode::{ConstIdx, OpCode};
use crate::scanner::{CompileError, CompileErrorView, scan_advances, Scanner};
use crate::tokens::{Precedence, Token, TokenType};
use vstd::prelude::*;
use vstd::string::*;

mod conditionals;
mod ops;
mod statements;

verus! {

pub use crate::scanner::COMPError;

/// Instructions from `from` on that can stand in a chunk once more instructions follow:
/// none is `RETURN`, a constant that one names exists and is of the right form, and a jump
/// leads to one of them or just behind them.
pub open spec fn settled(ops: Seq<OpCode>, from: int, consts: Seq<ConstantView>) -> bool {
    forall|i: int|
        from <= i < ops.len() ==> op_fits(#[trigger] ops[i], ops.len() as int + 1, consts) && ops[i]
            != OpCode::RETURN
}

/// `old` is the start of `new`.
pub open spec fn extends<T>(old: Seq<T>, new: Seq<T>) -> bool {
    old.len() <= new.len() && forall|i: int| 0 <= i < old.len() ==> old[i] == #[trigger] new[i]
}

impl ParserView {
    /// There is a depth for each instruction and one for the end.
    pub open spec fn shaped(self) -> bool {
        self.depths.len() == self.ops.len() + 1
    }

    /// The positions lie inside the source in order, the source is short enough for a
    /// 32-bit line counter, the end-of-file token is at hand only at the end of the source,
    /// the tokens at hand lie inside the source, each instruction has its line and its depth,
    /// the chunk and the scope tracker are within their limits, no local is outside every
    /// scope, and the locals are in the order of their depths.
    #[verifier::opaque]
    pub open spec fn inv(self) -> bool {
        &&& 0 <= self.start <= self.pos <= self.src.len() < u32::MAX
        &&& (self.cur.ty == TokenType::EoF ==> self.pos == self.src.len())
        &&& 0 <= self.line
        &&& self.line + (self.src.len() - self.pos) <= u32::MAX
        &&& self.cur.end() <= self.src.len()
        &&& self.prev.end() <= self.src.len()
        &&& self.ops.len() == self.lines.len()
        &&& self.shaped()
        &&& self.ops.len() <= CODE_MAX
        &&& self.consts.len() <= CONST_MAX
        &&& self.scopes.locals.len() <= LOCAL_MAX
        &&& 0 <= self.scopes.depth <= i16::MAX
        &&& self.scopes.ordered()
        &&& forall|i: int|
            0 <= i < self.scopes.locals.len() ==> (#[trigger] self.scopes.locals[i]).depth >= 1
    }

    /// What holds of the state `new` behind a piece of syntax that began in state `self`:
    /// the source is the same and no more of it is left to read; what was written before is
    /// still there, with its depths, and what has been written since is settled; the scopes
    /// are as deep as before, the locals declared before are still there, and those declared
    /// since belong to the current scope.
    #[verifier::opaque]
    pub open spec fn grows(self, new: ParserView) -> bool {
        &&& new.src == self.src
        &&& new.weight() <= self.weight()
        &&& extends(self.ops, new.ops)
        &&& extends(self.consts, new.consts)
        &&& extends(self.depths, new.depths)
        &&& settled(new.ops, self.ops.len() as int, new.consts)
        &&& new.scopes.depth == self.scopes.depth
        &&& extends(self.scopes.locals, new.scopes.locals)
        &&& forall|i: int|
            self.scopes.locals.len() <= i < new.scopes.locals.len() ==> (
            #[trigger] new.scopes.locals[i]).depth == new.scopes.depth
    }

    /// What holds of the depths in the state `new` behind a piece of syntax that began in
    /// state `self`: every instruction written since agrees with the depths.
    #[verifier::opaque]
    pub open spec fn rises(self, new: ParserView) -> bool {
        forall|i: int|
            self.ops.len() <= i < new.ops.len() ==> lands(
                #[trigger] new.ops[i],
                i,
                new.depths,
                new.ops.len() as int,
            )
    }

    /// Every instruction written since the state `self` has, at its depth, the values that
    /// it reads.
    #[verifier::opaque]
    pub open spec fn holds(self, new: ParserView) -> bool {
        forall|i: int|
            self.ops.len() <= i < new.ops.len() ==> new.depths[i] >= needs(#[trigger] new.ops[i])
    }

    /// The stack is at least as deep as the locals and `operands` more values take.
    pub open spec fn based(self, operands: int) -> bool {
        self.depth() >= self.scopes.locals.len() + operands
    }
}

/// An instruction that fits a chunk fits a longer one with more constants.
pub proof fn fits_longer(
    op: OpCode,
    count: int,
    consts: Seq<ConstantView>,
    more: int,
    more_consts: Seq<ConstantView>,
)
    requires
        op_fits(op, count, consts),
        count <= more,
        extends(consts, more_consts),
    ensures
        op_fits(op, more, more_consts),
{
    match op {
        OpCode::CONSTANT(k) => {
            assert(consts[k as int] == more_consts[k as int]);
        },
        OpCode::DEFINE_GLOBAL(k) | OpCode::GET_GLOBAL(k) | OpCode::SET_GLOBAL(k) => {
            assert(consts[k as int] == more_consts[k as int]);
        },
        _ => {},
    }
}

/// An instruction that agrees with depths agrees with more depths behind them and with more
/// instructions.
pub proof fn lands_longer(op: OpCode, i: int, h: Seq<int>, count: int, more: Seq<int>, more_count: int)
    requires
        lands(op, i, h, count),
        0 <= i < count,
        h.len() == count + 1,
        extends(h, more),
        count <= more_count,
    ensures
        lands(op, i, more, more_count),
{
    assert(h[i] == more[i]);
    assert(h[i + 1] == more[i + 1]);
    match op {
        OpCode::JUMP(target) => {
            assert(h[target as int] == more[target as int]);
        },
        OpCode::JUMP_IF_FALSE(target) => {
            assert(h[target as int] == more[target as int]);
        },
        _ => {},
    }
}

/// Growth goes on: what has grown from a state that had grown from another has grown from
/// that one.
pub proof fn grows_on(a: ParserView, b: ParserView, c: ParserView)
    requires
        a.grows(b),
        b.grows(c),
    ensures
        a.grows(c),
        a.rises(b) && b.rises(c) && b.shaped() ==> a.rises(c),
        a.holds(b) && b.holds(c) && b.shaped() ==> a.holds(c),
{
    reveal(ParserView::grows);
    reveal(ParserView::rises);
    reveal(ParserView::holds);
    if a.holds(b) && b.holds(c) && b.shaped() {
        assert forall|i: int| a.ops.len() <= i < c.ops.len() implies c.depths[i] >= needs(
            #[trigger] c.ops[i],
        ) by {
            if i < b.ops.len() {
                assert(b.ops[i] == c.ops[i]);
                assert(b.depths[i] == c.depths[i]);
            }
        }
    }
    assert forall|i: int| a.ops.len() <= i < c.ops.len() implies op_fits(
        #[trigger] c.ops[i],
        c.ops.len() as int + 1,
        c.consts,
    ) && c.ops[i] != OpCode::RETURN by {
        if i < b.ops.len() {
            assert(b.ops[i] == c.ops[i]);
            fits_longer(
                b.ops[i],
                b.ops.len() as int + 1,
                b.consts,
                c.ops.len() as int + 1,
                c.consts,
            );
        }
    }
    assert forall|i: int| a.scopes.locals.len() <= i < c.scopes.locals.len() implies (
    #[trigger] c.scopes.locals[i]).depth == c.scopes.depth by {
        if i < b.scopes.locals.len() {
            assert(b.scopes.locals[i] == c.scopes.locals[i]);
        }
    }
    assert forall|i: int| 0 <= i < a.depths.len() implies a.depths[i] == #[trigger] c.depths[i] by {
        assert(a.depths[i] == b.depths[i]);
    }
    if a.rises(b) && b.rises(c) && b.shaped() {
        assert forall|i: int| a.ops.len() <= i < c.ops.len() implies lands(
            #[trigger] c.ops[i],
            i,
            c.depths,
            c.ops.len() as int,
        ) by {
            if i < b.ops.len() {
                assert(b.ops[i] == c.ops[i]);
                lands_longer(
                    b.ops[i],
                    i,
                    b.depths,
                    b.ops.len() as int,
                    c.depths,
                    c.ops.len() as int,
                );
            }
        }
    }
}

/// The state `mid` with one more instruction, and the stack behind it at depth `next`.
pub open spec fn with_op_to(mid: ParserView, op: OpCode, next: int) -> ParserView {
    ParserView {
        ops: mid.ops.push(op),
        lines: mid.lines.push(mid.line as usize),
        depths: mid.depths.push(next),
        ..mid
    }
}

/// The state `mid` with one more instruction, which leaves the stack deeper by its effect.
pub open spec fn with_op(mid: ParserView, op: OpCode) -> ParserView {
    with_op_to(mid, op, mid.depth() + effect(op))
}

/// Growth goes on through an instruction that fits. Where the instruction agrees with the
/// depths, as every instruction but a jump does, and as a jump to itself does, the depths
/// go on with it.
pub proof fn grows_by_op(a: ParserView, b: ParserView, op: OpCode)
    requires
        a.grows(b),
        op_fits(op, b.ops.len() as int + 2, b.consts),
        op != OpCode::RETURN,
    ensures
        a.grows(with_op(b, op)),
        b.shaped() && !(op is JUMP) && !(op is JUMP_IF_FALSE) ==> lands(
            op,
            b.ops.len() as int,
            with_op(b, op).depths,
            b.ops.len() as int + 1,
        ),
        b.shaped() && b.ops.len() <= CODE_MAX && (op == open_jump(b.ops.len() as int, true) || op
            == open_jump(b.ops.len() as int, false)) ==> lands(
            op,
            b.ops.len() as int,
            with_op(b, op).depths,
            b.ops.len() as int + 1,
        ),
        a.rises(b) && b.shaped() && lands(
            op,
            b.ops.len() as int,
            with_op(b, op).depths,
            b.ops.len() as int + 1,
        ) ==> a.rises(with_op(b, op)),
        a.holds(b) && b.shaped() && b.depth() >= needs(op) ==> a.holds(with_op(b, op)),
{
    grows_by_op_to(a, b, op, b.depth() + effect(op));
}

/// Growth goes on through an instruction that fits, and so do the depths where the
/// instruction agrees with them.
pub proof fn grows_by_op_to(a: ParserView, b: ParserView, op: OpCode, next: int)
    requires
        a.grows(b),
        op_fits(op, b.ops.len() as int + 2, b.consts),
        op != OpCode::RETURN,
    ensures
        a.grows(with_op_to(b, op, next)),
        a.rises(b) && b.shaped() && lands(
            op,
            b.ops.len() as int,
            with_op_to(b, op, next).depths,
            b.ops.len() as int + 1,
        ) ==> a.rises(with_op_to(b, op, next)),
        a.holds(b) && b.shaped() && b.depth() >= needs(op) ==> a.holds(with_op_to(b, op, next)),
{
    reveal(ParserView::grows);
    reveal(ParserView::rises);
    reveal(ParserView::holds);
    let c = with_op_to(b, op, next);
    if a.holds(b) && b.shaped() && b.depth() >= needs(op) {
        assert forall|i: int| a.ops.len() <= i < c.ops.len() implies c.depths[i] >= needs(
            #[trigger] c.ops[i],
        ) by {
            if i < b.ops.len() {
                assert(b.ops[i] == c.ops[i]);
                assert(b.depths[i] == c.depths[i]);
            }
        }
    }
    assert forall|i: int| 0 <= i < a.depths.len() implies a.depths[i] == #[trigger] c.depths[i] by {
        assert(a.depths[i] == b.depths[i]);
    }
    assert forall|i: int| a.ops.len() <= i < c.ops.len() implies op_fits(
        #[trigger] c.ops[i],
        c.ops.len() as int + 1,
        c.consts,
    ) && c.ops[i] != OpCode::RETURN by {
        if i < b.ops.len() {
            assert(b.ops[i] == c.ops[i]);
            fits_longer(
                b.ops[i],
                b.ops.len() as int + 1,
                b.consts,
                c.ops.len() as int + 1,
                c.consts,
            );
        }
    }
    if a.rises(b) && b.shaped() && lands(op, b.ops.len() as int, c.depths, b.ops.len() as int + 1) {
        assert forall|i: int| a.ops.len() <= i < c.ops.len() implies lands(
            #[trigger] c.ops[i],
            i,
            c.depths,
            c.ops.len() as int,
        ) by {
            if i < b.ops.len() {
                assert(b.ops[i] == c.ops[i]);
                lands_longer(
                    b.ops[i],
                    i,
                    b.depths,
                    b.ops.len() as int,
                    c.depths,
                    c.ops.len() as int,
                );
            }
        }
    }
}

/// Growth goes on through a constant.
pub proof fn grows_by_constant(a: ParserView, b: ParserView, c: ConstantView)
    requires
        a.grows(b),
    ensures
        a.grows(ParserView { consts: b.consts.push(c), ..b }),
        a.rises(b) ==> a.rises(ParserView { consts: b.consts.push(c), ..b }),
        a.holds(b) ==> a.holds(ParserView { consts: b.consts.push(c), ..b }),
{
    reveal(ParserView::grows);
    reveal(ParserView::rises);
    reveal(ParserView::holds);
    let n = ParserView { consts: b.consts.push(c), ..b };
    assert forall|i: int| a.ops.len() <= i < n.ops.len() implies op_fits(
        #[trigger] n.ops[i],
        n.ops.len() as int + 1,
        n.consts,
    ) && n.ops[i] != OpCode::RETURN by {
        fits_longer(b.ops[i], b.ops.len() as int + 1, b.consts, n.ops.len() as int + 1, n.consts);
    }
}

/// Growth goes on where only the tokens and the scanner move on.
pub proof fn grows_by_token(a: ParserView, b: ParserView, c: ParserView)
    requires
        a.grows(b),
        c.src == b.src,
        c.ops == b.ops,
        c.consts == b.consts,
        c.scopes == b.scopes,
        c.depths == b.depths,
        c.weight() <= b.weight(),
    ensures
        a.grows(c),
        a.rises(b) ==> a.rises(c),
        a.holds(b) ==> a.holds(c),
{
    reveal(ParserView::grows);
    reveal(ParserView::rises);
    reveal(ParserView::holds);
}

/// Growth goes on through the filling in of a jump that has been written since, and so do
/// the depths where the jump agrees with them.
pub proof fn grows_by_patch(a: ParserView, b: ParserView, at: int, op: OpCode)
    requires
        a.grows(b),
        a.ops.len() <= at < b.ops.len(),
        op_fits(op, b.ops.len() as int + 1, b.consts),
        op != OpCode::RETURN,
    ensures
        a.grows(b.patch(at, op)),
        a.rises(b) && lands(op, at, b.depths, b.ops.len() as int) ==> a.rises(b.patch(at, op)),
        a.holds(b) && needs(op) == needs(b.ops[at]) ==> a.holds(b.patch(at, op)),
{
    reveal(ParserView::grows);
    reveal(ParserView::rises);
    reveal(ParserView::holds);
    let c = b.patch(at, op);
    if a.holds(b) && needs(op) == needs(b.ops[at]) {
        assert forall|i: int| a.ops.len() <= i < c.ops.len() implies c.depths[i] >= needs(
            #[trigger] c.ops[i],
        ) by {
            if i != at {
                assert(c.ops[i] == b.ops[i]);
            }
        }
    }
    assert forall|i: int| a.ops.len() <= i < c.ops.len() implies op_fits(
        #[trigger] c.ops[i],
        c.ops.len() as int + 1,
        c.consts,
    ) && c.ops[i] != OpCode::RETURN by {
        if i != at {
            assert(c.ops[i] == b.ops[i]);
        }
    }
    if a.rises(b) && lands(op, at, b.depths, b.ops.len() as int) {
        assert forall|i: int| a.ops.len() <= i < c.ops.len() implies lands(
            #[trigger] c.ops[i],
            i,
            c.depths,
            c.ops.len() as int,
        ) by {
            if i != at {
                assert(c.ops[i] == b.ops[i]);
            }
        }
    }
}

/// What has grown holds what was written before, where it was.
pub proof fn grows_keeps(a: ParserView, b: ParserView, i: int)
    requires
        a.grows(b),
        0 <= i < a.ops.len(),
    ensures
        a.ops.len() <= b.ops.len(),
        b.ops[i] == a.ops[i],
{
    reveal(ParserView::grows);
}

/// Depths that have gone on hold the depths given before.
pub proof fn rises_keeps(a: ParserView, b: ParserView, i: int)
    requires
        a.grows(b),
        0 <= i < a.depths.len(),
    ensures
        b.depths[i] == a.depths[i],
{
    reveal(ParserView::grows);
}

/// What has grown has the same source and depth, no more left to read, and no fewer
/// instructions, constants and locals.
pub proof fn grows_gives(a: ParserView, b: ParserView)
    requires
        a.grows(b),
    ensures
        b.src == a.src,
        b.weight() <= a.weight(),
        a.ops.len() <= b.ops.len(),
        a.consts.len() <= b.consts.len(),
        b.scopes.depth == a.scopes.depth,
        a.scopes.locals.len() <= b.scopes.locals.len(),
{
    reveal(ParserView::grows);
}

/// Growth goes on through the declaration of a local in the current scope.
pub proof fn grows_by_local(a: ParserView, b: ParserView, name: Seq<char>)
    requires
        a.grows(b),
    ensures
        a.grows(b.with_scopes(b.scopes.add_local(name))),
        a.rises(b) ==> a.rises(b.with_scopes(b.scopes.add_local(name))),
        a.holds(b) ==> a.holds(b.with_scopes(b.scopes.add_local(name))),
{
    reveal(ParserView::grows);
    reveal(ParserView::rises);
    reveal(ParserView::holds);
    let c = b.with_scopes(b.scopes.add_local(name));
    assert forall|i: int| 0 <= i < a.scopes.locals.len() implies a.scopes.locals[i]
        == #[trigger] c.scopes.locals[i] by {
        assert(b.scopes.locals[i] == c.scopes.locals[i]);
    }
    assert forall|i: int| a.scopes.locals.len() <= i < c.scopes.locals.len() implies (
    #[trigger] c.scopes.locals[i]).depth == c.scopes.depth by {
        if i < b.scopes.locals.len() {
            assert(b.scopes.locals[i] == c.scopes.locals[i]);
        }
    }
}

/// `new` is `old` with the locals of the current scope dropped, and a `POP` written for
/// each, which takes the stack up by one.
#[verifier::opaque]
pub open spec fn cleaned(old: ParserView, new: ParserView) -> bool {
    &&& new == (ParserView {
        ops: new.ops,
        lines: new.lines,
        depths: new.depths,
        scopes: old.scopes.clean(),
        ..old
    })
    &&& extends(old.ops, new.ops)
    &&& extends(old.depths, new.depths)
    &&& new.ops.len() == old.ops.len() + old.scopes.count_here()
    &&& new.shaped()
    &&& forall|i: int| old.ops.len() <= i < new.ops.len() ==> (#[trigger] new.ops[i]) == OpCode::POP
    &&& forall|i: int|
        old.ops.len() <= i < new.ops.len() ==> (#[trigger] new.depths[i + 1]) == new.depths[i] - 1
}

/// Dropping the locals of the current scope leaves the depth, and none of them.
pub proof fn clean_is_clean(s: Scopes)
    ensures
        s.clean().depth == s.depth,
        !s.clean().should_pop_local(),
        s.clean().locals.len() <= s.locals.len(),
    decreases s.locals.len(),
{
    if s.should_pop_local() {
        clean_is_clean(s.pop_local());
    }
}

/// Depths that go down by one from each to the next, from index `from` to index `to`.
proof fn steps_down(h: Seq<int>, from: int, to: int)
    requires
        0 <= from <= to < h.len(),
        forall|i: int| from <= i < to ==> (#[trigger] h[i + 1]) == h[i] - 1,
    ensures
        h[to] == h[from] - (to - from),
    decreases to - from,
{
    if from < to {
        steps_down(h, from, to - 1);
        assert(h[(to - 1) + 1] == h[to - 1] - 1);
    }
}

/// The end of a scope: what has grown inside the scope that began in state `start`, and has
/// then been cleaned, has grown from `start` once the scope has ended; the scope tracker is as
/// it was before the scope, so that no local of the scope can be found any more; and a `POP`
/// has been written for each local that the scope declared, so that the stack is less deep
/// by their number.
pub proof fn scope_closes(start: ParserView, inside: ParserView, clean: ParserView)
    requires
        start.inv(),
        start.with_scopes(start.scopes.begin_scope()).grows(inside),
        cleaned(inside, clean),
    ensures
        start.grows(clean.with_scopes(clean.scopes.end_scope())),
        clean.scopes.end_scope() == start.scopes,
        !clean.scopes.should_pop_local(),
        clean.scopes.depth >= 1,
        clean.weight() == inside.weight(),
        clean.ops.len() - inside.ops.len() == inside.scopes.locals.len()
            - start.scopes.locals.len(),
        forall|i: int| inside.ops.len() <= i < clean.ops.len() ==> clean.ops[i] == OpCode::POP,
        inside.shaped() ==> clean.depth() == inside.depth() - (inside.scopes.locals.len()
            - start.scopes.locals.len()),
        start.with_scopes(start.scopes.begin_scope()).rises(inside) && inside.shaped()
            ==> start.rises(clean.with_scopes(clean.scopes.end_scope())),
        start.with_scopes(start.scopes.begin_scope()).holds(inside) && inside.shaped()
            && inside.based(0) ==> start.holds(clean.with_scopes(clean.scopes.end_scope())),
{
    reveal(ParserView::grows);
    reveal(ParserView::rises);
    reveal(ParserView::holds);
    reveal(ParserView::inv);
    reveal(cleaned);
    let begun = start.with_scopes(start.scopes.begin_scope());
    let end = clean.with_scopes(clean.scopes.end_scope());
    clean_is_clean(inside.scopes);
    assert(inside.scopes.locals.subrange(0, start.scopes.locals.len() as int)
        =~= start.scopes.locals);
    crate::comptime::leaving_scope_restores(start.scopes, inside.scopes);
    assert forall|i: int| start.ops.len() <= i < end.ops.len() implies op_fits(
        #[trigger] end.ops[i],
        end.ops.len() as int + 1,
        end.consts,
    ) && end.ops[i] != OpCode::RETURN by {
        if i < inside.ops.len() {
            assert(inside.ops[i] == end.ops[i]);
            fits_longer(
                inside.ops[i],
                inside.ops.len() as int + 1,
                inside.consts,
                end.ops.len() as int + 1,
                end.consts,
            );
        }
    }
    assert forall|i: int| 0 <= i < start.ops.len() implies start.ops[i] == #[trigger] end.ops[i] by {
        assert(inside.ops[i] == end.ops[i]);
    }
    assert forall|i: int| 0 <= i < start.depths.len() implies start.depths[i]
        == #[trigger] end.depths[i] by {
        assert(inside.depths[i] == start.depths[i]);
        assert(inside.depths[i] == end.depths[i]);
    }
    if inside.shaped() {
        assert(clean.depths[inside.ops.len() as int] == inside.depths[inside.ops.len() as int]);
        steps_down(clean.depths, inside.ops.len() as int, clean.ops.len() as int);
    }
    if begun.holds(inside) && inside.shaped() && inside.based(0) {
        assert forall|i: int| start.ops.len() <= i < end.ops.len() implies end.depths[i] >= needs(
            #[trigger] end.ops[i],
        ) by {
            if i < inside.ops.len() {
                assert(inside.ops[i] == end.ops[i]);
                assert(inside.depths[i] == end.depths[i]);
            } else {
                assert(end.ops[i] == OpCode::POP);
                assert(clean.depths[inside.ops.len() as int] == inside.depths[inside.ops.len() as int]);
                steps_down(clean.depths, inside.ops.len() as int, i);
            }
        }
    }
    if begun.rises(inside) && inside.shaped() {
        assert forall|i: int| start.ops.len() <= i < end.ops.len() implies lands(
            #[trigger] end.ops[i],
            i,
            end.depths,
            end.ops.len() as int,
        ) by {
            if i < inside.ops.len() {
                assert(inside.ops[i] == end.ops[i]);
                lands_longer(
                    inside.ops[i],
                    i,
                    inside.depths,
                    inside.ops.len() as int,
                    end.depths,
                    end.ops.len() as int,
                );
            } else {
                assert(end.ops[i] == OpCode::POP);
                assert(end.depths[i + 1] == end.depths[i] - 1);
            }
        }
    }
}

/// Outside every scope no local is declared.
pub proof fn outside_scopes_no_local(a: ParserView, b: ParserView)
    requires
        a.grows(b),
        b.inv(),
        a.scopes.depth == 0,
    ensures
        b.scopes.locals.len() == a.scopes.locals.len(),
{
    reveal(ParserView::grows);
    reveal(ParserView::inv);
    if b.scopes.locals.len() > a.scopes.locals.len() {
        assert(b.scopes.locals[a.scopes.locals.len() as int].depth == b.scopes.depth);
    }
}

/// The fuel that `compiled` gives to the compilation of `src`.
pub open spec fn program_fuel(src: Seq<u8>) -> nat {
    16 * (src.len() + 2)
}

/// What has grown from a settled start is settled, and can be run once `RETURN` follows.
/// Where the depths have gone on from the start of an empty chunk and are back at 0, the
/// chunk with `RETURN` is level.
pub proof fn grows_settles(a: ParserView, b: ParserView)
    requires
        a.grows(b),
    ensures
        settled(a.ops, 0, a.consts) ==> settled(b.ops, 0, b.consts) && runnable(
            b.ops.push(OpCode::RETURN),
            b.consts,
        ) && returns_last(b.ops.push(OpCode::RETURN)),
        a.rises(b) && a.ops.len() == 0 && a.depths =~= seq![0int] && b.shaped() && b.depth() == 0
            ==> level(b.ops.push(OpCode::RETURN), b.depths.push(0)),
        a.holds(b) && a.ops.len() == 0 && b.shaped() && b.depth() >= 0 ==> supplied_from(
            b.ops.push(OpCode::RETURN),
            0,
            b.depths.push(0),
        ),
{
    reveal(ParserView::grows);
    reveal(ParserView::rises);
    reveal(ParserView::holds);
    if a.holds(b) && a.ops.len() == 0 && b.shaped() && b.depth() >= 0 {
        let done = b.ops.push(OpCode::RETURN);
        let h = b.depths.push(0);
        assert forall|i: int| 0 <= i < done.len() implies h[i] >= needs(#[trigger] done[i]) by {
            if i < b.ops.len() {
                assert(done[i] == b.ops[i]);
                assert(h[i] == b.depths[i]);
            }
        }
    }
    if settled(a.ops, 0, a.consts) {
        assert forall|i: int| 0 <= i < b.ops.len() implies op_fits(
            #[trigger] b.ops[i],
            b.ops.len() as int + 1,
            b.consts,
        ) && b.ops[i] != OpCode::RETURN by {
            if i < a.ops.len() {
                assert(a.ops[i] == b.ops[i]);
                fits_longer(
                    a.ops[i],
                    a.ops.len() as int + 1,
                    a.consts,
                    b.ops.len() as int + 1,
                    b.consts,
                );
            }
        }
        let done = b.ops.push(OpCode::RETURN);
        assert forall|i: int| 0 <= i < done.len() implies op_fits(
            #[trigger] done[i],
            done.len() as int,
            b.consts,
        ) by {
            if i < b.ops.len() {
                assert(done[i] == b.ops[i]);
            }
        }
    }
    if a.rises(b) && a.ops.len() == 0 && a.depths =~= seq![0int] && b.shaped() && b.depth() == 0 {
        let done = b.ops.push(OpCode::RETURN);
        let h = b.depths.push(0);
        assert(b.depths[0] == a.depths[0]);
        assert forall|i: int| 0 <= i < done.len() implies lands(
            #[trigger] done[i],
            i,
            h,
            done.len() as int,
        ) by {
            if i < b.ops.len() {
                assert(done[i] == b.ops[i]);
                lands_longer(b.ops[i], i, b.depths, b.ops.len() as int, h, done.len() as int);
            }
        }
        assert forall|i: int| 0 <= i < done.len() && #[trigger] done[i]
            == OpCode::RETURN implies h[i] == 0 by {
            if i < b.ops.len() {
                assert(done[i] == b.ops[i]);
                assert(b.ops[i] != OpCode::RETURN);
            }
        }
    }
}

/// Ranks of the functions of the grammar: a function calls one of a lower rank, or one of
/// any rank once a token has been read.
pub const RANK_DECLARATIONS: usize = 15;

pub const RANK_BLOCK_ITEMS: usize = 14;

pub const RANK_DECLARATION: usize = 13;

pub const RANK_STATEMENT: usize = 12;

pub const RANK_FOR_INITIALIZER: usize = 12;

pub const RANK_STATEMENT_KIND: usize = 11;

pub const RANK_CLAUSE: usize = 10;

pub const RANK_OPERAND: usize = 5;

pub const RANK_EXPRESSION: usize = 4;

pub const RANK_INFIX: usize = 3;

pub const RANK_BINARY: usize = 2;

/// The compiler of one source text: the scanner, the two tokens at hand, the chunk it
/// writes to, and the scope tracker.
pub struct Parser<'a> {
    cur: Token,
    prev: Token,
    scanner: Scanner<'a>,
    chunk: Chunk,
    compiler: Compiler,
    depths: Ghost<Seq<int>>,
}

impl<'a> View for Parser<'a> {
    type V = ParserView;

    closed spec fn view(&self) -> ParserView {
        ParserView {
            src: self.scanner.src(),
            start: self.scanner.start_pos as int,
            pos: self.scanner.cur_pos as int,
            line: self.scanner.line as int,
            cur: self.cur,
            prev: self.prev,
            ops: self.chunk.ops(),
            lines: self.chunk.lines(),
            consts: self.chunk.consts(),
            scopes: self.compiler@,
            depths: self.depths@,
        }
    }
}

/// What an exec step that gave `res` has to do with the step `model` of the grammar: on
/// success the compiler is well-formed in the state that the grammar gives, and on failure
/// the error is the one that the grammar gives, and the chunk is not frozen.
pub open spec fn follows(after: &Parser, res: COMPError<()>, model: Parsed) -> bool {
    match res {
        Ok(()) => model == Ok::<ParserView, CompileErrorView>(after@) && after.ok(),
        Err(e) => model == Err::<ParserView, CompileErrorView>(e@) && !after.frozen(),
    }
}

/// What holds of the state `new` behind an expression, or a part of one, that began in
/// state `old` and takes the stack deeper by `delta`: the state has grown, its depths have
/// gone on, and the scope tracker is as it was; and where the stack was as deep as the
/// locals take, and the operands that the part takes off, every instruction written since
/// has the values that it reads.
pub open spec fn advanced(old: ParserView, new: ParserView, delta: int) -> bool {
    &&& old.grows(new)
    &&& old.rises(new)
    &&& new.depth() == old.depth() + delta
    &&& new.scopes == old.scopes
    &&& supplied(old, new, if delta >= 1 {
        0
    } else {
        1 - delta
    })
}

/// What holds of the state `new` behind a part of an expression that began in state `old`
/// with `operands` values of the expression on the stack: where the stack was as deep as the
/// locals and those values take, every instruction written since has the values that it
/// reads.
pub open spec fn supplied(old: ParserView, new: ParserView, operands: int) -> bool {
    old.based(operands) ==> old.holds(new)
}

/// What holds of the state `new` behind a declaration or a statement that began in state
/// `old`: the state has grown and less is left to read, the depths have gone on, and the
/// stack is deeper by one for each local declared; and where the stack was as deep as the
/// locals take, every instruction written since has the values that it reads.
pub open spec fn stated(old: ParserView, new: ParserView) -> bool {
    &&& old.grows(new)
    &&& new.weight() < old.weight()
    &&& old.rises(new)
    &&& new.depth() - old.depth() == new.scopes.locals.len() - old.scopes.locals.len()
    &&& old.based(0) ==> old.holds(new)
}

impl<'a> Parser<'a> {
    /// The compiler is well-formed, and has a depth for each instruction and one for the
    /// end.
    pub open spec fn ok(&self) -> bool {
        self.wf() && self@.shaped() && !self.frozen()
    }

    /// Whether the chunk is frozen: whether `RETURN` has been written to it.
    pub closed spec fn frozen(&self) -> bool {
        self.chunk.frozen()
    }

    /// The scanner is well-formed, the chunk is not frozen, and the state is within its
    /// limits.
    pub closed spec fn wf(&self) -> bool {
        &&& self.scanner.wf()
        &&& !self.chunk.frozen()
        &&& self@.inv()
    }

    /// A compiler that reads from `scanner` and writes to `chunk`.
    pub fn init(scanner: Scanner<'a>, chunk: Chunk) -> (parser: Self)
        ensures
            parser@ == (ParserView {
                src: scanner.src(),
                start: scanner.start_pos as int,
                pos: scanner.cur_pos as int,
                line: scanner.line as int,
                cur: Token { ty: TokenType::Error, start_pos: 0, len: 0, line: 0 },
                prev: Token { ty: TokenType::Error, start_pos: 0, len: 0, line: 0 },
                ops: chunk.ops(),
                lines: chunk.lines(),
                consts: chunk.consts(),
                scopes: Scopes::fresh(),
                depths: Seq::new(chunk.ops().len() + 1, |i: int| 0int),
            }),
            scanner.wf() && !chunk.frozen() && chunk.ops().len() <= CODE_MAX && chunk.consts().len()
                <= CONST_MAX ==> parser.ok(),
    {
        proof {
            reveal(ParserView::inv);
            chunk.lines_match_ops();
        }
        Parser {
            cur: Token::empty(0),
            prev: Token::empty(0),
            depths: Ghost(Seq::new(chunk.ops().len() + 1, |i: int| 0int)),
            scanner,
            chunk,
            compiler: Compiler::init(),
        }
    }

    /// Compiles the whole source: declarations up to the end of the file, and `RETURN`.
    ///
    /// On success the chunk holds what the grammar gives, and is frozen; where the compiler
    /// began with a chunk that was empty, or settled, a machine can run it, and `RETURN`
    /// stands at its end and nowhere else. Where it began outside every scope with an empty
    /// chunk, the chunk is level with the depths that the grammar gives, and each instruction
    /// has at its depth the values that it reads. On failure the chunk is not frozen: no
    /// `RETURN` has been written.
    pub fn parse(&mut self) -> (res: COMPError<()>)
        requires
            old(self).ok(),
        ensures
            match res {
                Ok(()) => program(old(self)@, program_fuel(old(self)@.src)) == Ok::<
                    ParserView,
                    CompileErrorView,
                >(final(self)@) && final(self).frozen() && (settled(
                    old(self)@.ops,
                    0,
                    old(self)@.consts,
                ) ==> runnable(final(self)@.ops, final(self)@.consts) && returns_last(
                    final(self)@.ops,
                )) && (old(self)@.ops.len() == 0 && old(self)@.depths =~= seq![0int] && old(
                    self,
                )@.scopes == Scopes::fresh() ==> level(final(self)@.ops, final(self)@.depths)
                    && supplied_from(final(self)@.ops, 0, final(self)@.depths)),
                Err(e) => program(old(self)@, program_fuel(old(self)@.src)) == Err::<
                    ParserView,
                    CompileErrorView,
                >(e@) && !final(self).frozen(),
            },
    {
        let ghost start = self@;
        proof {
            grows_self(start);
            reveal(ParserView::inv);
        }
        // the first token
        self.move_to_next_token()?;
        let ghost p1 = self@;
        proof {
            grows_by_token(start, start, p1);
        }
        let ghost mut left: nat = program_fuel(start.src);
        loop
            invariant_except_break
                left >= fuel_for(self@, RANK_DECLARATIONS as nat),
                (match declarations(self@, left) {
                    Err(e) => Err(e),
                    Ok(p2) => match p2.expect(TokenType::EoF) {
                        Err(e) => Err(e),
                        Ok(p3) => p3.emit(OpCode::RETURN),
                    },
                }) == program(start, program_fuel(start.src)),
            invariant
                self.ok(),
                start == old(self)@,
                start.grows(self@),
                start.rises(self@),
                self@.depth() - start.depth() == self@.scopes.locals.len()
                    - start.scopes.locals.len(),
                start.scopes.depth == 0 ==> self@.scopes.locals.len() == start.scopes.locals.len(),
                start.based(0) ==> start.holds(self@),
            ensures
                self@.cur.ty == TokenType::EoF,
                (match self@.expect(TokenType::EoF) {
                    Err(e) => Err(e),
                    Ok(p3) => p3.emit(OpCode::RETURN),
                }) == program(start, program_fuel(start.src)),
            decreases left,
        {
            if self.cur.ty == TokenType::EoF {
                break ;
            }
            let ghost before = self@;
            self.declaration(Ghost((left - 1) as nat))?;
            proof {
                grows_on(start, before, self@);
                grows_gives(start, before);
                self.wf_gives_inv();
                if start.scopes.depth == 0 {
                    outside_scopes_no_local(before, self@);
                }
                left = (left - 1) as nat;
            }
        }
        let ghost p2 = self@;
        // nothing is left to read
        self.cur_must_be(TokenType::EoF)?;
        let ghost p3 = self@;
        proof {
            grows_by_token(start, p2, p3);
        }
        if self.chunk.count() >= CODE_MAX {
            return Err(self.syntax_err("Too many instructions in one chunk"));
        }
        proof {
            reveal(ParserView::inv);
            self.chunk.lines_match_ops();
            grows_settles(start, p3);
        }
        self.chunk.add_op(OpCode::RETURN, self.scanner.line as usize);
        proof {
            self.depths@ = self.depths@.push(p3.depth());
        }
        Ok(())
    }

    /// The chunk, with what the compiler has written to it.
    pub fn finish(self) -> (chunk: Chunk)
        ensures
            chunk.ops() == self@.ops,
            chunk.lines() == self@.lines,
            chunk.consts() == self@.consts,
            chunk.frozen() == self.frozen(),
    {
        self.chunk
    }

    /// The syntax error with message `msg` at the token at hand.
    fn syntax_err(&self, msg: &str) -> (err: CompileError)
        requires
            self.ok(),
        ensures
            err@ == self@.fail(msg@),
    {
        proof {
            reveal(ParserView::inv);
            self.scanner.source_is_text();
        }
        CompileError::syntax(
            self.scanner.ascii_chars,
            msg,
            self.cur.start_pos,
            self.cur.start_pos + self.cur.len,
        )
    }

    fn move_to_next_token(&mut self) -> (res: COMPError<()>)
        requires
            old(self).ok(),
        ensures
            follows(final(self), res, old(self)@.advance()),
            res is Ok ==> final(self)@.weight() <= old(self)@.weight(),
            res is Ok && old(self)@.cur.ty != TokenType::EoF ==> final(self)@.weight() < old(
                self,
            )@.weight(),
            res is Ok ==> final(self)@.src == old(self)@.src && final(self)@.ops == old(self)@.ops
                && final(self)@.consts == old(self)@.consts && final(self)@.scopes == old(
                self,
            )@.scopes && final(self)@.depths == old(self)@.depths,
    {
        proof {
            reveal(ParserView::inv);
            self.scanner.source_is_text();
            scan_advances(self.scanner.src(), self.scanner.cur_pos as int, self.scanner.line as int);
            self.chunk.lines_match_ops();
        }
        match self.scanner.scan_token() {
            Ok(tok) => {
                self.prev = self.cur;
                self.cur = tok;
                Ok(())
            },
            Err(e) => Err(e),
        }
    }

    fn cur_must_be(&mut self, ty: TokenType) -> (res: COMPError<()>)
        requires
            old(self).ok(),
        ensures
            follows(final(self), res, old(self)@.expect(ty)),
            res is Ok ==> old(self)@.cur.ty == ty,
            res is Ok ==> final(self)@.weight() <= old(self)@.weight(),
            res is Ok && ty != TokenType::EoF ==> final(self)@.weight() < old(self)@.weight(),
            res is Ok ==> final(self)@.src == old(self)@.src && final(self)@.ops == old(self)@.ops
                && final(self)@.consts == old(self)@.consts && final(self)@.scopes == old(
                self,
            )@.scopes && final(self)@.depths == old(self)@.depths,
    {
        if self.cur.ty == ty {
            self.move_to_next_token()
        } else {
            proof {
                reveal(ParserView::inv);
                self.scanner.source_is_text();
            }
            Err(
                CompileError::unexpected(
                    self.scanner.ascii_chars,
                    self.cur.ty,
                    ty,
                    self.scanner.start_pos,
                    self.scanner.cur_pos,
                ),
            )
        }
    }

    pub(super) fn emit_op(&mut self, op: OpCode) -> (res: COMPError<()>)
        requires
            old(self).ok(),
            op != OpCode::RETURN,
        ensures
            follows(final(self), res, old(self)@.emit(op)),
            res is Ok ==> final(self)@ == with_op(old(self)@, op),
    {
        self.emit_to(op, Ghost(self@.depth() + effect(op)))
    }

    /// Adds the instruction `op`, behind which the stack is at depth `next`.
    pub(super) fn emit_to(&mut self, op: OpCode, Ghost(next): Ghost<int>) -> (res: COMPError<()>)
        requires
            old(self).ok(),
            op != OpCode::RETURN,
        ensures
            follows(final(self), res, old(self)@.emit_to(op, next)),
            res is Ok ==> final(self)@ == with_op_to(old(self)@, op, next),
    {
        if self.chunk.count() >= CODE_MAX {
            return Err(self.syntax_err("Too many instructions in one chunk"));
        }
        proof {
            reveal(ParserView::inv);
            self.chunk.lines_match_ops();
        }
        self.chunk.add_op(op, self.scanner.line as usize);
        proof {
            self.depths@ = self.depths@.push(next);
        }
        Ok(())
    }

    /// Adds a jump whose target is not known yet, and gives its index.
    pub(super) fn emit_open_jump(&mut self, conditional: bool) -> (res: COMPError<usize>)
        requires
            old(self).ok(),
        ensures
            match res {
                Ok(at) => old(self)@.emit_open_jump(conditional) == Ok::<
                    ParserView,
                    CompileErrorView,
                >(final(self)@) && final(self).ok() && at == old(self)@.ops.len() && final(self)@
                    == with_op(old(self)@, open_jump(at as int, conditional)) && at < CODE_MAX,
                Err(e) => old(self)@.emit_open_jump(conditional) == Err::<
                    ParserView,
                    CompileErrorView,
                >(e@) && !final(self).frozen(),
            },
    {
        let at = self.chunk.count();
        if at >= CODE_MAX {
            return Err(self.syntax_err("Too many instructions in one chunk"));
        }
        let op = if conditional {
            OpCode::JUMP_IF_FALSE(at as u16)
        } else {
            OpCode::JUMP(at as u16)
        };
        match self.emit_op(op) {
            Ok(()) => Ok(at),
            Err(e) => Err(e),
        }
    }

    /// Adds `c` to the constants and gives its index.
    fn make_constant(&mut self, c: Constant) -> (res: COMPError<ConstIdx>)
        requires
            old(self).ok(),
        ensures
            match res {
                Ok(k) => old(self)@.constant(c@) == Ok::<ParserView, CompileErrorView>(final(self)@)
                    && final(self).ok() && k == old(self)@.consts.len(),
                Err(e) => old(self)@.constant(c@) == Err::<ParserView, CompileErrorView>(e@)
                    && !final(self).frozen(),
            },
    {
        if self.chunk.const_count() >= CONST_MAX {
            return Err(CompileError::ToManyConstants);
        }
        proof {
            reveal(ParserView::inv);
        }
        let idx = self.chunk.add_const(c);
        Ok(idx as u8)
    }

    /// The kind of the token at hand.
    pub(super) fn cur_ty(&self) -> (ty: TokenType)
        ensures
            ty == self@.cur.ty,
    {
        self.cur.ty
    }

    /// The kind of the token before the one at hand.
    pub(super) fn prev_ty(&self) -> (ty: TokenType)
        ensures
            ty == self@.prev.ty,
    {
        self.prev.ty
    }

    /// The number of instructions written.
    pub(super) fn count(&self) -> (n: usize)
        requires
            self.ok(),
        ensures
            n == self@.ops.len(),
            n <= CODE_MAX,
    {
        proof {
            reveal(ParserView::inv);
        }
        self.chunk.count()
    }

    /// What `wf` says of the state.
    pub(super) proof fn wf_gives_inv(&self)
        requires
            self.ok(),
        ensures
            self@.inv(),
            self@.shaped(),
    {
    }

    /// Puts the jump `op` in the place of the jump at `ip`.
    pub(super) fn patch(&mut self, op: OpCode, ip: usize)
        requires
            old(self).ok(),
            ip < old(self)@.ops.len(),
            old(self)@.ops[ip as int].kind() == op.kind(),
        ensures
            final(self).ok(),
            final(self)@ == old(self)@.patch(ip as int, op),
    {
        proof {
            reveal(ParserView::inv);
            self.chunk.lines_match_ops();
        }
        self.chunk.patch_op(op, ip);
    }

    /// Puts the jump `op` in each of the places `ips`.
    pub(super) fn patch_multip(&mut self, op: OpCode, ips: &Vec<usize>)
        requires
            old(self).ok(),
            forall|k: int|
                0 <= k < ips@.len() ==> (#[trigger] ips@[k]) < old(self)@.ops.len() && old(
                    self,
                )@.ops[ips@[k] as int].kind() == op.kind(),
        ensures
            final(self).ok(),
            final(self)@ == old(self)@.patch_all(ips@, op),
            final(self)@.ops.len() == old(self)@.ops.len(),
    {
        proof {
            reveal(ParserView::inv);
            self.chunk.lines_match_ops();
            patched_keeps_len(self@.ops, op, ips@, ips@.len() as int);
        }
        self.chunk.patch_multip_op(op, ips.as_slice());
        proof {
            self.chunk.lines_match_ops();
        }
    }

    /// The text of the token before the one at hand.
    fn prev_text(&self) -> (text: String)
        requires
            self.ok(),
        ensures
            text@ == self@.prev_text(),
    {
        proof {
            reveal(ParserView::inv);
        }
        match self.scanner.token_text(self.prev) {
            Ok(text) => text,
            Err(_) => String::new(),
        }
    }

    /// Adds the constant `c` and the instruction that `op` makes of its index.
    fn emit_with_constant(&mut self, c: Constant, store: u8) -> (res: COMPError<()>)
        requires
            old(self).ok(),
            store < 4,
            store != 0 ==> c is Text,
            c matches Constant::Number(text) ==> crate::chunk::is_number_literal(text@),
        ensures
            follows(
                final(self),
                res,
                old(self)@.emit_with_constant(c@, |k: u8| constant_op(store, k)),
            ),
            res is Ok ==> advanced(
                old(self)@,
                final(self)@,
                if store == 1 {
                    -1
                } else if store == 3 {
                    0int
                } else {
                    1
                },
            ) && final(self)@.weight() == old(self)@.weight() && supplied(
                old(self)@,
                final(self)@,
                1,
            ),
    {
        let ghost start = self@;
        proof {
            grows_self(start);
        }
        let k = self.make_constant(c)?;
        proof {
            grows_by_constant(start, start, c@);
            grows_by_op(start, self@, constant_op(store, k));
        }
        let op = if store == 0 {
            OpCode::CONSTANT(k)
        } else if store == 1 {
            OpCode::DEFINE_GLOBAL(k)
        } else if store == 2 {
            OpCode::GET_GLOBAL(k)
        } else {
            OpCode::SET_GLOBAL(k)
        };
        self.emit_op(op)
    }

    /// An expression whose operators bind more tightly than `min_prec`.
    pub(super) fn expression(&mut self, min_prec: Precedence, Ghost(fuel): Ghost<nat>) -> (res:
        COMPError<()>)
        requires
            old(self).ok(),
            fuel >= fuel_for(old(self)@, RANK_EXPRESSION as nat),
        ensures
            follows(final(self), res, expression(old(self)@, min_prec, fuel)),
            res is Ok ==> advanced(old(self)@, final(self)@, 1) && final(self)@.weight() < old(
                self,
            )@.weight(),
        decreases fuel,
    {
        let ghost start = self@;
        proof {
            grows_self(start);
        }
        // the prefix form first
        self.move_to_next_token()?;
        let ghost p1 = self@;
        proof {
            grows_by_token(start, start, p1);
        }
        match self.prev.ty {
            TokenType::Number => self.number()?,
            TokenType::String => self.string()?,
            TokenType::LeftParen => {
                self.expression(Precedence::Lowest, Ghost((fuel - 1) as nat))?;
                let ghost p2 = self@;
                self.cur_must_be(TokenType::RightParen)?;
                proof {
                    grows_by_token(p1, p2, self@);
                }
            },
            TokenType::True | TokenType::False | TokenType::Nil => self.literal()?,
            TokenType::Minus | TokenType::Bang => self.unary(Ghost((fuel - 1) as nat))?,
            TokenType::Ident => self.identifier(Ghost((fuel - 1) as nat))?,
            _ => {
                return Err(self.syntax_err("Bad Expression"));
            },
        }
        proof {
            grows_on(start, p1, self@);
            grows_gives(p1, self@);
        }
        // then the operators behind it, with their operands
        let ghost mut left: nat = (fuel - 1) as nat;
        loop
            invariant
                self.ok(),
                start == old(self)@,
                advanced(start, self@, 1),
                self@.weight() < start.weight(),
                left >= fuel_for(self@, RANK_INFIX as nat),
                left < fuel,
                infix(self@, min_prec, left) == expression(start, min_prec, fuel),
            ensures
                self.ok(),
                advanced(start, self@, 1),
                self@.weight() < start.weight(),
                expression(start, min_prec, fuel) == Ok::<ParserView, CompileErrorView>(self@),
            decreases left,
        {
            let next_prec = Precedence::from(self.cur.ty);
            if min_prec.rank() >= next_prec.rank() {
                // only what binds more tightly belongs to this expression
                break ;
            }
            match self.cur.ty {
                TokenType::Minus
                | TokenType::Plus
                | TokenType::Slash
                | TokenType::Star
                | TokenType::EqualEqual
                | TokenType::BangEqual
                | TokenType::Greater
                | TokenType::GreaterEqual
                | TokenType::LessEqual
                | TokenType::Less
                | TokenType::And
                | TokenType::Or => {
                    let ghost before = self@;
                    self.binary(Ghost((left - 1) as nat))?;
                    proof {
                        grows_on(start, before, self@);
                        left = (left - 1) as nat;
                    }
                },
                _ => {
                    break ;
                },
            }
        }
        Ok(())
    }

    /// Writes the use of the variable `ident_`.
    fn variable(&mut self, ident_: String, is_local: Option<u8>, store: bool) -> (res:
        COMPError<()>)
        requires
            old(self).ok(),
            is_local matches Some(slot) ==> slot < old(self)@.scopes.locals.len(),
        ensures
            follows(
                final(self),
                res,
                variable_code(
                    old(self)@,
                    ident_@,
                    match is_local {
                        Some(slot) => Some(slot as int),
                        None => None,
                    },
                    store,
                ),
            ),
            res is Ok ==> advanced(
                old(self)@,
                final(self)@,
                if store {
                    0int
                } else {
                    1
                },
            ) && final(self)@.weight() == old(self)@.weight(),
    {
        proof {
            grows_self(self@);
        }
        match is_local {
            Some(slot) => {
                let op = if store {
                    OpCode::SET_LOCAL(slot)
                } else {
                    OpCode::GET_LOCAL(slot)
                };
                proof {
                    grows_by_op(self@, self@, op);
                }
                self.emit_op(op)
            },
            None => {
                if store {
                    self.emit_with_constant(Constant::Text(ident_), 3)
                } else {
                    self.emit_with_constant(Constant::Text(ident_), 2)
                }
            },
        }
    }

    pub(super) fn identifier(&mut self, Ghost(fuel): Ghost<nat>) -> (res: COMPError<()>)
        requires
            old(self).ok(),
            fuel >= fuel_for(old(self)@, RANK_OPERAND as nat),
        ensures
            follows(final(self), res, identifier(old(self)@, fuel)),
            res is Ok ==> advanced(old(self)@, final(self)@, 1),
        decreases fuel,
    {
        let ghost start = self@;
        let ident_ = self.prev_text();
        proof {
            reveal(ParserView::inv);
            crate::comptime::found_slot_exists(
                start.scopes,
                ident_@,
                start.scopes.locals.len() as int,
            );
        }
        let is_local = self.compiler.find_local(ident_.as_str());
        proof {
            grows_self(start);
        }
        if let TokenType::Equal = self.cur.ty {
            self.move_to_next_token()?;
            let ghost p1 = self@;
            proof {
                grows_by_token(start, start, p1);
            }
            self.expression(Precedence::Lowest, Ghost((fuel - 1) as nat))?;
            let ghost p2 = self@;
            proof {
                grows_on(start, p1, p2);
            }
            let res = self.variable(ident_, is_local, true);
            proof {
                if res is Ok {
                    grows_on(start, p2, self@);
                }
            }
            res
        } else {
            self.variable(ident_, is_local, false)
        }
    }

    /// Begins a scope, unless the scopes are nested too deep already.
    pub(super) fn begin_scope(&mut self) -> (res: COMPError<()>)
        requires
            old(self).ok(),
        ensures
            match res {
                Ok(()) => old(self)@.scopes.depth < i16::MAX && final(self).ok() && final(self)@
                    == old(self)@.with_scopes(old(self)@.scopes.begin_scope()),
                Err(e) => old(self)@.scopes.depth >= i16::MAX && e@ == old(self)@.fail(too_deep())
                    && !final(self).frozen(),
            },
    {
        if self.compiler.depth() >= i16::MAX {
            return Err(self.syntax_err("Too many nested scopes"));
        }
        proof {
            reveal(ParserView::inv);
        }
        self.compiler.begin_scope();
        Ok(())
    }

    /// Ends a scope whose locals have been dropped.
    pub(super) fn end_scope(&mut self)
        requires
            old(self).ok(),
            old(self)@.scopes.depth >= 1,
            !old(self)@.scopes.should_pop_local(),
        ensures
            final(self).ok(),
            final(self)@ == old(self)@.with_scopes(old(self)@.scopes.end_scope()),
    {
        proof {
            reveal(ParserView::inv);
            let s = self@.scopes;
            assert forall|i: int| 0 <= i < s.locals.len() implies (#[trigger] s.locals[i]).depth
                <= s.depth - 1 by {
                if i < s.locals.len() - 1 {
                    assert(s.locals[i].depth <= s.locals[s.locals.len() - 1].depth);
                }
            }
        }
        self.compiler.end_scope();
    }

    /// Declares `ident_`, whose first value is on the stack.
    pub(super) fn declare(&mut self, ident_: String) -> (res: COMPError<()>)
        requires
            old(self).ok(),
        ensures
            follows(final(self), res, declare(old(self)@, ident_@)),
            res is Ok ==> old(self)@.grows(final(self)@) && old(self)@.rises(final(self)@)
                && final(self)@.weight() == old(self)@.weight() && final(self)@.depth() - old(
                self,
            )@.depth() + 1
                == final(self)@.scopes.locals.len() - old(self)@.scopes.locals.len() && supplied(
                old(self)@,
                final(self)@,
                1,
            ),
    {
        let ghost start = self@;
        proof {
            grows_self(start);
        }
        if self.compiler.local_scope() {
            if self.compiler.local_exists(ident_.as_str()).is_none() {
                return Err(self.syntax_err("Variable already declared in this scope"));
            }
            if self.compiler.count() >= LOCAL_MAX {
                return Err(self.syntax_err("Too many local variables"));
            }
            proof {
                reveal(ParserView::inv);
                grows_by_local(start, start, ident_@);
                crate::comptime::declared_name_is_found(start.scopes, ident_@);
            }
            self.compiler.add_local(ident_);
            Ok(())
        } else {
            self.emit_with_constant(Constant::Text(ident_), 1)
        }
    }

    /// Drops the locals of the current scope, with a `POP` for each.
    pub(super) fn clean_locals(&mut self) -> (res: COMPError<()>)
        requires
            old(self).ok(),
        ensures
            follows(final(self), res, clean_locals(old(self)@)),
            res is Ok ==> cleaned(old(self)@, final(self)@),
    {
        let ghost start = self@;
        loop
            invariant_except_break
                self.ok(),
                clean_locals(self@) == clean_locals(start),
            invariant
                start == old(self)@,
                self@ == (ParserView {
                    ops: self@.ops,
                    lines: self@.lines,
                    depths: self@.depths,
                    scopes: self@.scopes,
                    ..start
                }),
                self@.shaped(),
                start.shaped(),
                extends(start.depths, self@.depths),
                forall|i: int|
                    start.ops.len() <= i < self@.ops.len() ==> (#[trigger] self@.depths[i + 1])
                        == self@.depths[i] - 1,
                self@.scopes.clean() == start.scopes.clean(),
                self@.ops.len() + self@.scopes.count_here() == start.ops.len()
                    + start.scopes.count_here(),
                extends(start.ops, self@.ops),
                forall|i: int|
                    start.ops.len() <= i < self@.ops.len() ==> (#[trigger] self@.ops[i])
                        == OpCode::POP,
            ensures
                self.ok(),
                clean_locals(start) == Ok::<ParserView, CompileErrorView>(self@),
                self@.scopes == start.scopes.clean(),
                self@.ops.len() == start.ops.len() + start.scopes.count_here(),
            decreases self@.scopes.locals.len(),
        {
            let ghost before = self@;
            if !self.compiler.should_pop_local() {
                assert(self@.scopes.count_here() == 0);
                break ;
            }
            proof {
                reveal(ParserView::inv);
                let s = before.scopes;
                let t = s.pop_local();
                assert forall|i: int| 0 <= i < t.locals.len() implies (#[trigger] t.locals[i]).depth
                    >= 1 && t.locals[i].depth <= t.depth by {
                    assert(t.locals[i] == s.locals[i]);
                }
                assert forall|i: int, j: int| 0 <= i < j < t.locals.len() implies t.locals[i].depth
                    <= t.locals[j].depth by {
                    assert(t.locals[i] == s.locals[i]);
                    assert(t.locals[j] == s.locals[j]);
                }
            }
            self.emit_op(OpCode::POP)?;
        }
        proof {
            reveal(cleaned);
        }
        Ok(())
    }

    fn literal(&mut self) -> (res: COMPError<()>)
        requires
            old(self).ok(),
        ensures
            follows(final(self), res, literal(old(self)@)),
            res is Ok ==> advanced(old(self)@, final(self)@, 1) && final(self)@.weight() == old(
                self,
            )@.weight(),
    {
        proof {
            grows_self(self@);
            grows_by_op(self@, self@, OpCode::TRUE);
            grows_by_op(self@, self@, OpCode::FALSE);
            grows_by_op(self@, self@, OpCode::NIL);
        }
        match self.prev.ty {
            TokenType::True => self.emit_op(OpCode::TRUE),
            TokenType::False => self.emit_op(OpCode::FALSE),
            _ => self.emit_op(OpCode::NIL),
        }
    }

    fn string(&mut self) -> (res: COMPError<()>)
        requires
            old(self).ok(),
        ensures
            follows(final(self), res, string(old(self)@)),
            res is Ok ==> advanced(old(self)@, final(self)@, 1) && final(self)@.weight() == old(
                self,
            )@.weight(),
    {
        let tok_txt = self.prev_text();
        self.emit_with_constant(Constant::Text(tok_txt), 0)
    }

    fn number(&mut self) -> (res: COMPError<()>)
        requires
            old(self).ok(),
        ensures
            follows(final(self), res, number(old(self)@)),
            res is Ok ==> advanced(old(self)@, final(self)@, 1) && final(self)@.weight() == old(
                self,
            )@.weight(),
    {
        let tok_txt = self.prev_text();
        if !number_literal(tok_txt.as_str()) {
            return Err(CompileError::NonASCIIChar);
        }
        self.emit_with_constant(Constant::Number(tok_txt), 0)
    }
}

/// The instruction that loads (`store` 0), defines (1), reads (2) or sets (3) by constant
/// `k`.
pub open spec fn constant_op(store: u8, k: u8) -> OpCode {
    if store == 0 {
        OpCode::CONSTANT(k)
    } else if store == 1 {
        OpCode::DEFINE_GLOBAL(k)
    } else if store == 2 {
        OpCode::GET_GLOBAL(k)
    } else {
        OpCode::SET_GLOBAL(k)
    }
}

/// A state has grown from itself.
pub proof fn grows_self(a: ParserView)
    ensures
        a.grows(a),
        a.rises(a),
        a.holds(a),
{
    reveal(ParserView::grows);
    reveal(ParserView::rises);
    reveal(ParserView::holds);
}

/// Filling in jumps leaves the number of instructions and their kinds elsewhere.
pub proof fn patched_keeps_len(ops: Seq<OpCode>, op: OpCode, ips: Seq<usize>, n: int)
    requires
        0 <= n <= ips.len(),
        forall|k: int| 0 <= k < ips.len() ==> (#[trigger] ips[k]) < ops.len(),
    ensures
        crate::chunk::patched(ops, op, ips, n).len() == ops.len(),
        forall|i: int|
            0 <= i < ops.len() && (forall|k: int| 0 <= k < n ==> ips[k] != i)
                ==> crate::chunk::patched(ops, op, ips, n)[i] == ops[i],
        forall|k: int| 0 <= k < n ==> crate::chunk::patched(ops, op, ips, n)[ips[k] as int] == op,
    decreases n,
{
    if n > 0 {
        patched_keeps_len(ops, op, ips, n - 1);
    }
}

/// Compiles `source` to a chunk.
///
/// A source that is not ASCII is refused as such. Of any other the chunk holds what the
/// grammar makes of its bytes, and a machine can run it; where the grammar gives an error,
/// that is the error. `RETURN` stands at the end of the chunk and nowhere else; the chunk is
/// level with the depths that the grammar gives, and each of its instructions has at its
/// depth the values that it reads.
pub fn compile(source: &str) -> (res: COMPError<Chunk>)
    requires
        source@.len() < u32::MAX,
    ensures
        !is_ascii(source) ==> res is Err && res->Err_0@ == CompileErrorView::NonASCIIChar,
        is_ascii(source) ==> (match compiled(crate::scanner::bytes_of(source@)) {
            Ok(p) => res is Ok && res->Ok_0.ops() == p.ops && res->Ok_0.lines() == p.lines
                && res->Ok_0.consts() == p.consts && res->Ok_0.frozen() && res->Ok_0.executable()
                && returns_last(p.ops) && level(p.ops, p.depths) && supplied_from(
                p.ops,
                0,
                p.depths,
            ),
            Err(e) => res is Err && res->Err_0@ == e,
        }),
{
    let scanner = Scanner::from_str(source)?;
    let mut parser = Parser::init(scanner, Chunk::new());
    assert(parser@.depths =~= seq![0int]);
    assert(parser@ == ParserView::initial(crate::scanner::bytes_of(source@)));
    parser.parse()?;
    Ok(parser.finish())
}

} // verus!
