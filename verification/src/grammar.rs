//! What the compiler makes of a source text, as a function of the text.
//!
//! The compiler reads the tokens once, from left to right, with the token at hand (`cur`)
//! and the one before it (`prev`), and adds instructions and constants as it goes. Each
//! function here takes the state before a piece of syntax and gives the state behind it, or
//! the error that ends the compilation. Functions that call each other take `fuel`, which
//! goes down by one from caller to callee; `compiled` gives them more than any text can use
//! up.

use crate::chunk::{ConstantView, is_number_literal, patched};
use crate::comptime::{LOCAL_MAX, Scopes};
use crate::depth::effect;
use crate::opcode::OpCode;
use crate::scanner::{
    CompileErrorView, lexeme, no_token_message, scan, syntax_error, text_of, unexpected_error,
};
use crate::tokens::{Precedence, Token, TokenType};
use vstd::prelude::*;

verus! {

/// The most instructions that a chunk can hold: a jump names its target in 16 bits.
pub const CODE_MAX: usize = 65535;

/// The most constants that a chunk can hold.
pub const CONST_MAX: usize = 255;

/// The state of a compilation: the source, the scanner's positions and line, the two tokens
/// at hand, what has been written to the chunk, the scope tracker, and the depths: how deep
/// the stack is, compared with the start of the chunk, in front of each instruction and
/// behind the last one.
pub struct ParserView {
    pub src: Seq<u8>,
    pub start: int,
    pub pos: int,
    pub line: int,
    pub cur: Token,
    pub prev: Token,
    pub ops: Seq<OpCode>,
    pub lines: Seq<usize>,
    pub consts: Seq<ConstantView>,
    pub scopes: Scopes,
    pub depths: Seq<int>,
}

pub type Parsed = Result<ParserView, CompileErrorView>;

pub open spec fn bad_expression() -> Seq<char> {
    "Bad Expression"@
}

pub open spec fn open_block() -> Seq<char> {
    "EoF without block close"@
}

pub open spec fn redeclared() -> Seq<char> {
    "Variable already declared in this scope"@
}

pub open spec fn too_many_locals() -> Seq<char> {
    "Too many local variables"@
}

pub open spec fn too_deep() -> Seq<char> {
    "Too many nested scopes"@
}

pub open spec fn too_much_code() -> Seq<char> {
    "Too many instructions in one chunk"@
}

pub open spec fn out_of_fuel() -> Seq<char> {
    "Out of fuel"@
}

/// The jump at index `at` whose target is not known yet.
pub open spec fn open_jump(at: int, conditional: bool) -> OpCode {
    if conditional {
        OpCode::JUMP_IF_FALSE(at as u16)
    } else {
        OpCode::JUMP(at as u16)
    }
}

/// Whether `ty` is an operator between two operands.
pub open spec fn is_binary_operator(ty: TokenType) -> bool {
    match ty {
        TokenType::Minus
        | TokenType::Plus
        | TokenType::Slash
        | TokenType::Star
        | TokenType::EqualEqual
        | TokenType::BangEqual
        | TokenType::Greater
        | TokenType::GreaterEqual
        | TokenType::LessEqual
        | TokenType::Less
        | TokenType::And
        | TokenType::Or => true,
        _ => false,
    }
}

impl ParserView {
    /// The state before the first token of `src`, writing to an empty chunk.
    pub open spec fn initial(src: Seq<u8>) -> ParserView {
        ParserView {
            src,
            start: 0,
            pos: 0,
            line: 1,
            cur: Token { ty: TokenType::Error, start_pos: 0, len: 0, line: 0 },
            prev: Token { ty: TokenType::Error, start_pos: 0, len: 0, line: 0 },
            ops: Seq::empty(),
            lines: Seq::empty(),
            consts: Seq::empty(),
            scopes: Scopes::fresh(),
            depths: seq![0int],
        }
    }

    /// The depth behind the last instruction.
    pub open spec fn depth(self) -> int {
        self.depths.last()
    }

    /// The source as text.
    pub open spec fn text(self) -> Seq<char> {
        text_of(self.src)
    }

    /// How much is left to read: the bytes behind the scanner, and the token at hand unless
    /// it is the end of the file.
    pub open spec fn weight(self) -> nat {
        let rest: nat = if self.pos <= self.src.len() {
            (self.src.len() - self.pos) as nat
        } else {
            0
        };
        if self.cur.ty == TokenType::EoF {
            rest
        } else {
            rest + 1
        }
    }

    /// The syntax error with message `msg` at the token at hand.
    pub open spec fn fail(self, msg: Seq<char>) -> CompileErrorView {
        syntax_error(self.text(), msg, self.cur.start_pos as int, self.cur.end())
    }

    /// On to the next token: the token at hand becomes the one before, and the next token of
    /// the source the one at hand. Where the scanner can make no token, its error ends the
    /// compilation.
    pub open spec fn advance(self) -> Parsed {
        let sc = scan(self.src, self.pos, self.line);
        if sc.ty == TokenType::Error {
            Err(syntax_error(self.text(), no_token_message(), sc.start, sc.end))
        } else {
            Ok(
                ParserView {
                    prev: self.cur,
                    cur: sc.token(),
                    start: sc.start,
                    pos: sc.end,
                    line: sc.line,
                    ..self
                },
            )
        }
    }

    /// On to the next token, where the one at hand is of kind `ty`; the error that cites the
    /// scanner's last lexeme where it is not.
    pub open spec fn expect(self, ty: TokenType) -> Parsed {
        if self.cur.ty == ty {
            self.advance()
        } else {
            Err(unexpected_error(self.text(), self.cur.ty, ty, self.start, self.pos))
        }
    }

    /// With `op` added, for the line that the scanner has reached, and the stack behind it
    /// at depth `next`; an error where the chunk is full.
    pub open spec fn emit_to(self, op: OpCode, next: int) -> Parsed {
        if self.ops.len() >= CODE_MAX {
            Err(self.fail(too_much_code()))
        } else {
            Ok(
                ParserView {
                    ops: self.ops.push(op),
                    lines: self.lines.push(self.line as usize),
                    depths: self.depths.push(next),
                    ..self
                },
            )
        }
    }

    /// With `op` added, which leaves the stack deeper by its effect.
    pub open spec fn emit(self, op: OpCode) -> Parsed {
        self.emit_to(op, self.depth() + effect(op))
    }

    /// With a jump added whose target is not known yet: until it is filled in, the jump
    /// leads to itself. With `conditional` the jump is `JUMP_IF_FALSE`, else `JUMP`.
    pub open spec fn emit_open_jump(self, conditional: bool) -> Parsed {
        self.emit(open_jump(self.ops.len() as int, conditional))
    }

    /// With constant `c` added; an error where the chunk has no index left for it.
    pub open spec fn constant(self, c: ConstantView) -> Parsed {
        if self.consts.len() >= CONST_MAX {
            Err(CompileErrorView::ToManyConstants)
        } else {
            Ok(ParserView { consts: self.consts.push(c), ..self })
        }
    }

    /// With constant `c` added, and then the instruction that `op` makes of its index.
    pub open spec fn emit_with_constant(
        self,
        c: ConstantView,
        op: spec_fn(u8) -> OpCode,
    ) -> Parsed {
        match self.constant(c) {
            Err(e) => Err(e),
            Ok(p) => p.emit(op(self.consts.len() as u8)),
        }
    }

    /// With `op` in the place of instruction `at`.
    pub open spec fn patch(self, at: int, op: OpCode) -> ParserView {
        ParserView { ops: self.ops.update(at, op), ..self }
    }

    /// With `op` in each of the places `ips`.
    pub open spec fn patch_all(self, ips: Seq<usize>, op: OpCode) -> ParserView {
        ParserView { ops: patched(self.ops, op, ips, ips.len() as int), ..self }
    }

    /// With the scope tracker in state `scopes`.
    pub open spec fn with_scopes(self, scopes: Scopes) -> ParserView {
        ParserView { scopes, ..self }
    }

    /// The text of the token before the one at hand.
    pub open spec fn prev_text(self) -> Seq<char> {
        lexeme(self.src, self.prev)
    }
}

/// A number: its text becomes a constant, which the instruction loads. A text with more
/// than one dot is no number.
pub open spec fn number(p: ParserView) -> Parsed {
    let text = p.prev_text();
    if !is_number_literal(text) {
        Err(CompileErrorView::NonASCIIChar)
    } else {
        p.emit_with_constant(ConstantView::Number(text), |k: u8| OpCode::CONSTANT(k))
    }
}

/// A string: the text between the quotes becomes a constant, which the instruction loads.
pub open spec fn string(p: ParserView) -> Parsed {
    p.emit_with_constant(ConstantView::Text(p.prev_text()), |k: u8| OpCode::CONSTANT(k))
}

/// `true`, `false` or `nil`.
pub open spec fn literal(p: ParserView) -> Parsed {
    match p.prev.ty {
        TokenType::True => p.emit(OpCode::TRUE),
        TokenType::False => p.emit(OpCode::FALSE),
        _ => p.emit(OpCode::NIL),
    }
}

/// The instructions for the operator `op` between two operands that are on the stack: `!=`,
/// `>=` and `<=` are the opposite comparison and `NOT`.
pub open spec fn operator_code(p: ParserView, op: TokenType) -> Parsed {
    let negated = |first: OpCode|
        match p.emit(first) {
            Err(e) => Err(e),
            Ok(q) => q.emit(OpCode::NOT),
        };
    match op {
        TokenType::Plus => p.emit(OpCode::ADD),
        TokenType::Minus => p.emit(OpCode::SUB),
        TokenType::Star => p.emit(OpCode::MUL),
        TokenType::Slash => p.emit(OpCode::DIV),
        TokenType::EqualEqual => p.emit(OpCode::EQUAL),
        TokenType::BangEqual => negated(OpCode::EQUAL),
        TokenType::Greater => p.emit(OpCode::GREATER),
        TokenType::GreaterEqual => negated(OpCode::LESS),
        TokenType::Less => p.emit(OpCode::LESS),
        TokenType::LessEqual => negated(OpCode::GREATER),
        _ => Ok(p),
    }
}

/// The use of the name `name`, whose value is on the stack where `store` holds: a local by
/// its slot, a global by its name as a constant.
pub open spec fn variable_code(p: ParserView, name: Seq<char>, slot: Option<int>, store: bool) -> Parsed {
    match slot {
        Some(slot) => p.emit(
            if store {
                OpCode::SET_LOCAL(slot as u8)
            } else {
                OpCode::GET_LOCAL(slot as u8)
            },
        ),
        None => p.emit_with_constant(
            ConstantView::Text(name),
            |k: u8|
                if store {
                    OpCode::SET_GLOBAL(k)
                } else {
                    OpCode::GET_GLOBAL(k)
                },
        ),
    }
}

/// Drops the locals of the current scope, with a `POP` for each.
pub open spec fn clean_locals(p: ParserView) -> Parsed
    decreases p.scopes.locals.len(),
{
    if p.scopes.should_pop_local() {
        match p.with_scopes(p.scopes.pop_local()).emit(OpCode::POP) {
            Err(e) => Err(e),
            Ok(q) => clean_locals(q),
        }
    } else {
        Ok(p)
    }
}

/// The declaration of `name`, whose first value is on the stack: inside a scope the name
/// becomes a local, unless the scope declares it already or there is no room for another
/// local; outside every scope the value is bound to the name as a global.
pub open spec fn declare(p: ParserView, name: Seq<char>) -> Parsed {
    if p.scopes.local_scope() {
        if p.scopes.exists_in_current_scope(name) {
            Err(p.fail(redeclared()))
        } else if p.scopes.locals.len() >= LOCAL_MAX {
            Err(p.fail(too_many_locals()))
        } else {
            Ok(p.with_scopes(p.scopes.add_local(name)))
        }
    } else {
        p.emit_with_constant(ConstantView::Text(name), |k: u8| OpCode::DEFINE_GLOBAL(k))
    }
}

/// A name that the current scope declares cannot be declared in it again.
pub proof fn redeclaring_fails(p: ParserView, name: Seq<char>)
    requires
        p.scopes.local_scope(),
        p.scopes.exists_in_current_scope(name),
    ensures
        declare(p, name) == Err::<ParserView, CompileErrorView>(p.fail(redeclared())),
{
}

/// A name that a scope declares can be declared again in a scope inside it, as long as
/// there is room for another local: the new local is then the one that the name finds.
pub proof fn shadowing_succeeds(p: ParserView, name: Seq<char>)
    requires
        p.scopes.ordered(),
        p.scopes.local_scope(),
        p.scopes.locals.len() + 1 < LOCAL_MAX,
    ensures
        ({
            let outer = p.with_scopes(p.scopes.add_local(name));
            let inner = outer.with_scopes(outer.scopes.begin_scope());
            &&& declare(p, name) is Ok ==> declare(p, name) == Ok::<ParserView, CompileErrorView>(
                outer,
            )
            &&& declare(inner, name) == Ok::<ParserView, CompileErrorView>(
                inner.with_scopes(inner.scopes.add_local(name)),
            )
            &&& inner.scopes.add_local(name).find_local(name) == Some(
                p.scopes.locals.len() as int + 1,
            )
        }),
{
    let outer = p.with_scopes(p.scopes.add_local(name));
    let inner = outer.with_scopes(outer.scopes.begin_scope());
    crate::comptime::declared_name_is_found(p.scopes, name);
    assert(inner.scopes.add_local(name).locals.last().name == name);
}

/// An expression whose operators bind more tightly than `min_prec`: a prefix form, then the
/// operators behind it with their right operands.
pub open spec fn expression(p: ParserView, min_prec: Precedence, fuel: nat) -> Parsed
    decreases fuel, 0nat,
{
    if fuel == 0 {
        Err(p.fail(out_of_fuel()))
    } else {
        match p.advance() {
            Err(e) => Err(e),
            Ok(p1) => {
                let prefix = match p1.prev.ty {
                    TokenType::Number => number(p1),
                    TokenType::String => string(p1),
                    TokenType::LeftParen => match expression(
                        p1,
                        Precedence::Lowest,
                        (fuel - 1) as nat,
                    ) {
                        Err(e) => Err(e),
                        Ok(p2) => p2.expect(TokenType::RightParen),
                    },
                    TokenType::True | TokenType::False | TokenType::Nil => literal(p1),
                    TokenType::Minus | TokenType::Bang => unary(p1, (fuel - 1) as nat),
                    TokenType::Ident => identifier(p1, (fuel - 1) as nat),
                    _ => Err(p1.fail(bad_expression())),
                };
                match prefix {
                    Err(e) => Err(e),
                    Ok(p3) => infix(p3, min_prec, (fuel - 1) as nat),
                }
            },
        }
    }
}

/// The operators behind an operand, as long as they bind more tightly than `min_prec`.
pub open spec fn infix(p: ParserView, min_prec: Precedence, fuel: nat) -> Parsed
    decreases fuel, 0nat,
{
    if fuel == 0 {
        Err(p.fail(out_of_fuel()))
    } else if min_prec.level() >= Precedence::of(p.cur.ty).level() {
        Ok(p)
    } else if is_binary_operator(p.cur.ty) {
        match binary(p, (fuel - 1) as nat) {
            Err(e) => Err(e),
            Ok(p1) => infix(p1, min_prec, (fuel - 1) as nat),
        }
    } else {
        Ok(p)
    }
}

/// `-` or `!` in front of an operand.
pub open spec fn unary(p: ParserView, fuel: nat) -> Parsed
    decreases fuel, 0nat,
{
    if fuel == 0 {
        Err(p.fail(out_of_fuel()))
    } else {
        match expression(p, Precedence::Unary, (fuel - 1) as nat) {
            Err(e) => Err(e),
            Ok(p1) => match p.prev.ty {
                TokenType::Minus => p1.emit(OpCode::NEGATE),
                TokenType::Bang => p1.emit(OpCode::NOT),
                _ => Ok(p1),
            },
        }
    }
}

/// A name: with `=` behind it an assignment, whose value stays on the stack; else the value
/// of the variable.
pub open spec fn identifier(p: ParserView, fuel: nat) -> Parsed
    decreases fuel, 0nat,
{
    let name = p.prev_text();
    let slot = p.scopes.find_local(name);
    if fuel == 0 {
        Err(p.fail(out_of_fuel()))
    } else if p.cur.ty == TokenType::Equal {
        match p.advance() {
            Err(e) => Err(e),
            Ok(p1) => match expression(p1, Precedence::Lowest, (fuel - 1) as nat) {
                Err(e) => Err(e),
                Ok(p2) => variable_code(p2, name, slot, true),
            },
        }
    } else {
        variable_code(p, name, slot, false)
    }
}

/// An operator and its right operand.
pub open spec fn binary(p: ParserView, fuel: nat) -> Parsed
    decreases fuel, 0nat,
{
    let op = p.cur.ty;
    if fuel == 0 {
        Err(p.fail(out_of_fuel()))
    } else {
        match p.advance() {
            Err(e) => Err(e),
            Ok(p1) => {
                let operand = match op {
                    TokenType::And => and_(p1, (fuel - 1) as nat),
                    TokenType::Or => or_(p1, (fuel - 1) as nat),
                    _ => expression(p1, Precedence::of(op), (fuel - 1) as nat),
                };
                match operand {
                    Err(e) => Err(e),
                    Ok(p2) => operator_code(p2, op),
                }
            },
        }
    }
}

/// The right operand of `and`: a jump over it and over `AND` where the left operand counts
/// as false, which then stays as the result.
pub open spec fn and_(p: ParserView, fuel: nat) -> Parsed
    decreases fuel, 0nat,
{
    let jump = p.ops.len() as int;
    if fuel == 0 {
        Err(p.fail(out_of_fuel()))
    } else {
        match p.emit_open_jump(true) {
            Err(e) => Err(e),
            Ok(p1) => match expression(p1, Precedence::And, (fuel - 1) as nat) {
                Err(e) => Err(e),
                Ok(p2) => match p2.emit(OpCode::AND) {
                    Err(e) => Err(e),
                    Ok(p3) => Ok(p3.patch(jump, OpCode::JUMP_IF_FALSE(p3.ops.len() as u16))),
                },
            },
        }
    }
}

/// The right operand of `or`: where the left operand counts as false a jump to the right
/// operand, and else a jump over it and over `OR`, with the left operand as the result.
pub open spec fn or_(p: ParserView, fuel: nat) -> Parsed
    decreases fuel, 0nat,
{
    let to_operand = p.ops.len() as int;
    let to_end = to_operand + 1;
    if fuel == 0 {
        Err(p.fail(out_of_fuel()))
    } else {
        match p.emit_open_jump(true) {
            Err(e) => Err(e),
            Ok(p1) => match p1.emit_open_jump(false) {
                Err(e) => Err(e),
                Ok(p2) => {
                    let p3 = p2.patch(to_operand, OpCode::JUMP_IF_FALSE(p2.ops.len() as u16));
                    match expression(p3, Precedence::Or, (fuel - 1) as nat) {
                        Err(e) => Err(e),
                        Ok(p4) => match p4.emit(OpCode::OR) {
                            Err(e) => Err(e),
                            Ok(p5) => Ok(p5.patch(to_end, OpCode::JUMP(p5.ops.len() as u16))),
                        },
                    }
                },
            },
        }
    }
}

/// An expression, `;`, and a `POP` for its value.
pub open spec fn expression_statement(p: ParserView, fuel: nat) -> Parsed
    decreases fuel, 0nat,
{
    if fuel == 0 {
        Err(p.fail(out_of_fuel()))
    } else {
        match expression(p, Precedence::Lowest, (fuel - 1) as nat) {
            Err(e) => Err(e),
            Ok(p1) => match p1.expect(TokenType::Semicolon) {
                Err(e) => Err(e),
                Ok(p2) => p2.emit(OpCode::POP),
            },
        }
    }
}

/// `print`, an expression and `;`.
pub open spec fn print(p: ParserView, fuel: nat) -> Parsed
    decreases fuel, 0nat,
{
    if fuel == 0 {
        Err(p.fail(out_of_fuel()))
    } else {
        match p.advance() {
            Err(e) => Err(e),
            Ok(p1) => match expression(p1, Precedence::Lowest, (fuel - 1) as nat) {
                Err(e) => Err(e),
                Ok(p2) => match p2.expect(TokenType::Semicolon) {
                    Err(e) => Err(e),
                    Ok(p3) => p3.emit(OpCode::PRINT),
                },
            },
        }
    }
}

/// Whether `ty` is a literal: `nil`, `true`, `false`, a number or a string.
pub open spec fn is_literal(ty: TokenType) -> bool {
    ty == TokenType::Nil || ty == TokenType::True || ty == TokenType::False || ty
        == TokenType::Number || ty == TokenType::String
}

/// The instruction that pushes the literal of kind `ty`, where `k` constants came before.
pub open spec fn literal_code(ty: TokenType, k: int) -> OpCode {
    match ty {
        TokenType::True => OpCode::TRUE,
        TokenType::False => OpCode::FALSE,
        TokenType::Nil => OpCode::NIL,
        _ => OpCode::CONSTANT(k as u8),
    }
}

/// The constants `consts`, and behind them the one that the literal of kind `ty` with the
/// text `text` takes: none for `nil`, `true` and `false`.
pub open spec fn literal_consts(
    consts: Seq<ConstantView>,
    ty: TokenType,
    text: Seq<char>,
) -> Seq<ConstantView> {
    match ty {
        TokenType::Number => consts.push(ConstantView::Number(text)),
        TokenType::String => consts.push(ConstantView::Text(text)),
        _ => consts,
    }
}

/// A `print` of a literal: where `print` is at hand, a literal comes next and `;` behind it,
/// and the chunk has room, the statement adds the instruction that pushes the literal, and
/// `PRINT`; the text of a number or a string has become a constant; and the compiler is
/// behind the `;`.
#[verifier::rlimit(50)]
pub proof fn print_of_literal(p: ParserView, fuel: nat)
    requires
        fuel >= 4,
        p.cur.ty == TokenType::Print,
        p.advance() is Ok,
        is_literal(p.advance()->Ok_0.cur.ty),
        p.advance()->Ok_0.cur.ty == TokenType::Number ==> is_number_literal(
            lexeme(p.src, p.advance()->Ok_0.cur),
        ),
        p.advance()->Ok_0.advance() is Ok,
        p.advance()->Ok_0.advance()->Ok_0.cur.ty == TokenType::Semicolon,
        p.advance()->Ok_0.advance()->Ok_0.advance() is Ok,
        p.ops.len() + 2 <= CODE_MAX,
        p.consts.len() < CONST_MAX,
    ensures
        statement(p, fuel) == Ok::<ParserView, CompileErrorView>(
            ParserView {
                ops: p.ops.push(
                    literal_code(p.advance()->Ok_0.cur.ty, p.consts.len() as int),
                ).push(OpCode::PRINT),
                lines: p.lines.push(p.advance()->Ok_0.advance()->Ok_0.line as usize).push(
                    p.advance()->Ok_0.advance()->Ok_0.advance()->Ok_0.line as usize,
                ),
                consts: literal_consts(
                    p.consts,
                    p.advance()->Ok_0.cur.ty,
                    lexeme(p.src, p.advance()->Ok_0.cur),
                ),
                depths: p.depths.push(p.depth() + 1).push(p.depth()),
                ..p.advance()->Ok_0.advance()->Ok_0.advance()->Ok_0
            },
        ),
{
    let p1 = p.advance()->Ok_0;
    let p2 = p1.advance()->Ok_0;
    let pushed = match p2.prev.ty {
        TokenType::Number => number(p2),
        TokenType::String => string(p2),
        _ => literal(p2),
    };
    assert(pushed is Ok);
    let p3 = pushed->Ok_0;
    assert(infix(p3, Precedence::Lowest, (fuel - 3) as nat) == Ok::<ParserView, CompileErrorView>(p3));
    assert(expression(p1, Precedence::Lowest, (fuel - 2) as nat) == Ok::<
        ParserView,
        CompileErrorView,
    >(p3));
    assert(p3.advance() is Ok);
    assert(print(p, (fuel - 1) as nat) is Ok);
}

/// `var`, a name, `=` and an expression for the first value (`NIL` without them), and `;`.
pub open spec fn var_declaration(p: ParserView, fuel: nat) -> Parsed
    decreases fuel, 0nat,
{
    if fuel == 0 {
        Err(p.fail(out_of_fuel()))
    } else {
        match p.advance() {
            Err(e) => Err(e),
            Ok(p1) => match p1.expect(TokenType::Ident) {
                Err(e) => Err(e),
                Ok(p2) => {
                    let name = p2.prev_text();
                    let value = if p2.cur.ty == TokenType::Equal {
                        match p2.advance() {
                            Err(e) => Err(e),
                            Ok(p3) => expression(p3, Precedence::Lowest, (fuel - 1) as nat),
                        }
                    } else {
                        p2.emit(OpCode::NIL)
                    };
                    match value {
                        Err(e) => Err(e),
                        Ok(p4) => match declare(p4, name) {
                            Err(e) => Err(e),
                            Ok(p5) => p5.expect(TokenType::Semicolon),
                        },
                    }
                },
            },
        }
    }
}

/// A declaration of a variable, or a statement.
pub open spec fn declaration(p: ParserView, fuel: nat) -> Parsed
    decreases fuel, 0nat,
{
    if fuel == 0 {
        Err(p.fail(out_of_fuel()))
    } else if p.cur.ty == TokenType::Var {
        var_declaration(p, (fuel - 1) as nat)
    } else {
        statement(p, (fuel - 1) as nat)
    }
}

/// A statement, by its first token.
pub open spec fn statement(p: ParserView, fuel: nat) -> Parsed
    decreases fuel, 0nat,
{
    if fuel == 0 {
        Err(p.fail(out_of_fuel()))
    } else {
        match p.cur.ty {
            TokenType::Print => print(p, (fuel - 1) as nat),
            TokenType::If => if_else(p, (fuel - 1) as nat),
            TokenType::While => while_(p, (fuel - 1) as nat),
            TokenType::For => for_(p, (fuel - 1) as nat),
            TokenType::LeftBrace => scope(p, (fuel - 1) as nat),
            _ => expression_statement(p, (fuel - 1) as nat),
        }
    }
}

/// A block in a scope of its own: its locals are dropped at its end.
pub open spec fn scope(p: ParserView, fuel: nat) -> Parsed
    decreases fuel, 0nat,
{
    if fuel == 0 {
        Err(p.fail(out_of_fuel()))
    } else if p.scopes.depth >= i16::MAX {
        Err(p.fail(too_deep()))
    } else {
        match block(p.with_scopes(p.scopes.begin_scope()), (fuel - 1) as nat) {
            Err(e) => Err(e),
            Ok(p1) => match clean_locals(p1) {
                Err(e) => Err(e),
                Ok(p2) => Ok(p2.with_scopes(p2.scopes.end_scope())),
            },
        }
    }
}

/// `{`, declarations, and `}`.
pub open spec fn block(p: ParserView, fuel: nat) -> Parsed
    decreases fuel, 0nat,
{
    if fuel == 0 {
        Err(p.fail(out_of_fuel()))
    } else {
        match p.advance() {
            Err(e) => Err(e),
            Ok(p1) => match block_items(p1, (fuel - 1) as nat) {
                Err(e) => Err(e),
                Ok(p2) => p2.expect(TokenType::RightBrace),
            },
        }
    }
}

/// Declarations up to `}`; the end of the file in their place is an error.
pub open spec fn block_items(p: ParserView, fuel: nat) -> Parsed
    decreases fuel, 0nat,
{
    if fuel == 0 {
        Err(p.fail(out_of_fuel()))
    } else if p.cur.ty == TokenType::RightBrace {
        Ok(p)
    } else if p.cur.ty == TokenType::EoF {
        Err(p.fail(open_block()))
    } else {
        match declaration(p, (fuel - 1) as nat) {
            Err(e) => Err(e),
            Ok(p1) => block_items(p1, (fuel - 1) as nat),
        }
    }
}

/// `if`, a condition in parentheses, a statement, and perhaps `else` and a statement.
///
/// Where the condition counts as false, the jump behind it leads behind the first statement;
/// else a `POP` drops the condition and the first statement follows.
pub open spec fn if_else(p: ParserView, fuel: nat) -> Parsed
    decreases fuel, 0nat,
{
    if fuel == 0 {
        Err(p.fail(out_of_fuel()))
    } else {
        match condition(p, (fuel - 1) as nat) {
            Err(e) => Err(e),
            Ok(p1) => match p1.emit_open_jump(true) {
                Err(e) => Err(e),
                Ok(p2) => match p2.emit(OpCode::POP) {
                    Err(e) => Err(e),
                    Ok(p3) => match statement(p3, (fuel - 1) as nat) {
                        Err(e) => Err(e),
                        Ok(p4) => else_part(p4, p1.ops.len() as int, (fuel - 1) as nat),
                    },
                },
            },
        }
    }
}

/// The end of the first statement of an `if` whose jump stands at `jump`: a jump that
/// waits for its target, the end of the whole; and behind it, where the jump at `jump` leads
/// and the condition is still on the stack, the `POP` that drops the condition.
pub open spec fn close_first(p: ParserView, jump: int) -> Parsed {
    let over = p.ops.len() as int;
    match p.emit_to(open_jump(over, false), p.depth() + 1) {
        Err(e) => Err(e),
        Ok(p1) => p1.patch(jump, OpCode::JUMP_IF_FALSE((over + 1) as u16)).emit(OpCode::POP),
    }
}

/// What follows the first statement of an `if` whose jump stands at `jump`: the end of the
/// first statement, the second statement where there is one, and the target of the jump
/// that ends the first.
pub open spec fn else_part(p: ParserView, jump: int, fuel: nat) -> Parsed
    decreases fuel, 0nat,
{
    let over = p.ops.len() as int;
    if fuel == 0 {
        Err(p.fail(out_of_fuel()))
    } else {
        match close_first(p, jump) {
            Err(e) => Err(e),
            Ok(p2) => if p2.cur.ty == TokenType::Else {
                match p2.advance() {
                    Err(e) => Err(e),
                    Ok(p3) => match statement(p3, (fuel - 1) as nat) {
                        Err(e) => Err(e),
                        Ok(p4) => Ok(p4.patch(over, OpCode::JUMP(p4.ops.len() as u16))),
                    },
                }
            } else {
                Ok(p2.patch(over, OpCode::JUMP(p2.ops.len() as u16)))
            },
        }
    }
}

/// The end of a loop: a jump back to `back_to`, behind which the stack is as deep as at the
/// jumps at `exits`, which lead here from where the condition counted as false, and the
/// `POP` that drops the condition.
pub open spec fn close_loop(p: ParserView, back_to: int, exits: Seq<usize>) -> Parsed {
    match p.emit_to(OpCode::JUMP(back_to as u16), p.depth() + 1) {
        Err(e) => Err(e),
        Ok(p1) => p1.patch_all(exits, OpCode::JUMP_IF_FALSE(p1.ops.len() as u16)).emit(
            OpCode::POP,
        ),
    }
}

/// The keyword at hand, and a condition in parentheses.
pub open spec fn condition(p: ParserView, fuel: nat) -> Parsed
    decreases fuel, 0nat,
{
    if fuel == 0 {
        Err(p.fail(out_of_fuel()))
    } else {
        match p.advance() {
            Err(e) => Err(e),
            Ok(p1) => match p1.expect(TokenType::LeftParen) {
                Err(e) => Err(e),
                Ok(p2) => match expression(p2, Precedence::Lowest, (fuel - 1) as nat) {
                    Err(e) => Err(e),
                    Ok(p3) => p3.expect(TokenType::RightParen),
                },
            },
        }
    }
}

/// `while`, a condition in parentheses, and a statement.
///
/// Where the condition counts as false, a jump leads behind the loop, to the `POP` that
/// drops it; else a `POP` drops it, and the statement ends with a jump back to the condition.
pub open spec fn while_(p: ParserView, fuel: nat) -> Parsed
    decreases fuel, 0nat,
{
    if fuel == 0 {
        Err(p.fail(out_of_fuel()))
    } else {
        match condition(p, (fuel - 1) as nat) {
            Err(e) => Err(e),
            Ok(p1) => match p1.emit_open_jump(true) {
                Err(e) => Err(e),
                Ok(p2) => match p2.emit(OpCode::POP) {
                    Err(e) => Err(e),
                    Ok(p3) => match statement(p3, (fuel - 1) as nat) {
                        Err(e) => Err(e),
                        Ok(p4) => close_loop(
                            p4,
                            p.ops.len() as int,
                            seq![p1.ops.len() as usize],
                        ),
                    },
                },
            },
        }
    }
}

/// The first clause of a `for`: `;` alone, the declaration of a variable, or an expression
/// and `;`.
pub open spec fn for_initializer(p: ParserView, fuel: nat) -> Parsed
    decreases fuel, 0nat,
{
    if fuel == 0 {
        Err(p.fail(out_of_fuel()))
    } else {
        match p.cur.ty {
            TokenType::Semicolon => p.advance(),
            TokenType::Var => var_declaration(p, (fuel - 1) as nat),
            _ => expression_statement(p, (fuel - 1) as nat),
        }
    }
}

/// The places of the jumps of a `for` that wait for their targets: those to the statement,
/// and those behind the loop.
pub struct Jumps {
    pub to_body: Seq<usize>,
    pub to_end: Seq<usize>,
}

/// The second clause of a `for`: a condition, or nothing, and `;`. Behind a condition stand
/// the jump behind the loop for where it counts as false, the `POP` that drops it, and a jump
/// to the statement.
pub open spec fn for_condition(p: ParserView, fuel: nat) -> Result<
    (ParserView, Jumps),
    CompileErrorView,
>
    decreases fuel, 0nat,
{
    if fuel == 0 {
        Err(p.fail(out_of_fuel()))
    } else if p.cur.ty != TokenType::Semicolon {
        match expression(p, Precedence::Lowest, (fuel - 1) as nat) {
            Err(e) => Err(e),
            Ok(p1) => match p1.expect(TokenType::Semicolon) {
                Err(e) => Err(e),
                Ok(p2) => match p2.emit_open_jump(true) {
                    Err(e) => Err(e),
                    Ok(p3) => match p3.emit(OpCode::POP) {
                        Err(e) => Err(e),
                        Ok(p4) => match p4.emit_open_jump(false) {
                            Err(e) => Err(e),
                            Ok(p5) => Ok(
                                (
                                    p5,
                                    Jumps {
                                        to_body: seq![p4.ops.len() as usize],
                                        to_end: seq![p2.ops.len() as usize],
                                    },
                                ),
                            ),
                        },
                    },
                },
            },
        }
    } else {
        match p.advance() {
            Err(e) => Err(e),
            Ok(p1) => Ok((p1, Jumps { to_body: Seq::empty(), to_end: Seq::empty() })),
        }
    }
}

/// The third clause of a `for`, where there is one: a jump over it to the statement, the
/// expression, the `POP` that drops its value, and a jump back to `before_cond`. Gives the
/// state, the place of the jump to the statement, and where the statement's last jump has to
/// lead: to the clause, or to `before_cond` where there is none.
pub open spec fn for_increment(p: ParserView, before_cond: int, fuel: nat) -> Result<
    (ParserView, Seq<usize>, int),
    CompileErrorView,
>
    decreases fuel, 0nat,
{
    if fuel == 0 {
        Err(p.fail(out_of_fuel()))
    } else if p.cur.ty != TokenType::RightParen {
        match p.emit_open_jump(false) {
            Err(e) => Err(e),
            Ok(p1) => match expression(p1, Precedence::Assignment, (fuel - 1) as nat) {
                Err(e) => Err(e),
                Ok(p2) => match p2.emit(OpCode::POP) {
                    Err(e) => Err(e),
                    Ok(p3) => match p3.emit(OpCode::JUMP(before_cond as u16)) {
                        Err(e) => Err(e),
                        Ok(p4) => Ok((p4, seq![p.ops.len() as usize], p1.ops.len() as int)),
                    },
                },
            },
        }
    } else {
        Ok((p, Seq::empty(), before_cond))
    }
}

/// `for`, three clauses in parentheses, and a statement, in a scope of its own, whose locals
/// are dropped at its end.
///
/// The clauses and the statement are written in the order of the source, and jumps make
/// them run in the order first clause, condition, statement, third clause, condition, and so
/// on.
pub open spec fn for_(p: ParserView, fuel: nat) -> Parsed
    decreases fuel, 0nat,
{
    if fuel == 0 {
        Err(p.fail(out_of_fuel()))
    } else {
        match p.advance() {
            Err(e) => Err(e),
            Ok(p0) => if p0.scopes.depth >= i16::MAX {
                Err(p0.fail(too_deep()))
            } else {
                match for_loop(p0.with_scopes(p0.scopes.begin_scope()), (fuel - 1) as nat) {
                    Err(e) => Err(e),
                    Ok(p1) => match clean_locals(p1) {
                        Err(e) => Err(e),
                        Ok(p2) => Ok(p2.with_scopes(p2.scopes.end_scope())),
                    },
                }
            },
        }
    }
}

/// The clauses of a `for` in parentheses, and its statement.
pub open spec fn for_loop(p: ParserView, fuel: nat) -> Parsed
    decreases fuel, 0nat,
{
    if fuel == 0 {
        Err(p.fail(out_of_fuel()))
    } else {
        match p.expect(TokenType::LeftParen) {
            Err(e) => Err(e),
            Ok(p1) => match for_initializer(p1, (fuel - 1) as nat) {
                Err(e) => Err(e),
                Ok(p2) => match for_condition(p2, (fuel - 1) as nat) {
                    Err(e) => Err(e),
                    Ok((p3, jumps)) => match for_increment(
                        p3,
                        p2.ops.len() as int,
                        (fuel - 1) as nat,
                    ) {
                        Err(e) => Err(e),
                        Ok((p4, over_clause, inc_clause)) => for_body(
                            p4,
                            Jumps { to_body: jumps.to_body + over_clause, ..jumps },
                            inc_clause,
                            (fuel - 1) as nat,
                        ),
                    },
                },
            },
        }
    }
}

/// `)` and the statement of a `for`, with the jumps that wait for their targets filled in,
/// and the `POP` that drops the condition behind the loop.
pub open spec fn for_body(p: ParserView, jumps: Jumps, inc_clause: int, fuel: nat) -> Parsed
    decreases fuel, 0nat,
{
    if fuel == 0 {
        Err(p.fail(out_of_fuel()))
    } else {
        match p.expect(TokenType::RightParen) {
            Err(e) => Err(e),
            Ok(p1) => match statement(
                p1.patch_all(jumps.to_body, OpCode::JUMP(p1.ops.len() as u16)),
                (fuel - 1) as nat,
            ) {
                Err(e) => Err(e),
                Ok(p2) => close_loop(p2, inc_clause, jumps.to_end),
            },
        }
    }
}

/// Declarations up to the end of the file.
pub open spec fn declarations(p: ParserView, fuel: nat) -> Parsed
    decreases fuel, 1nat,
{
    if fuel == 0 {
        Err(p.fail(out_of_fuel()))
    } else if p.cur.ty == TokenType::EoF {
        Ok(p)
    } else {
        match declaration(p, (fuel - 1) as nat) {
            Err(e) => Err(e),
            Ok(p1) => declarations(p1, (fuel - 1) as nat),
        }
    }
}

/// A whole program: declarations up to the end of the file, and `RETURN`.
pub open spec fn program(p: ParserView, fuel: nat) -> Parsed {
    match p.advance() {
        Err(e) => Err(e),
        Ok(p1) => match declarations(p1, fuel) {
            Err(e) => Err(e),
            Ok(p2) => match p2.expect(TokenType::EoF) {
                Err(e) => Err(e),
                Ok(p3) => p3.emit(OpCode::RETURN),
            },
        },
    }
}

/// Fuel for a state: more than the compilation from it can use up.
pub open spec fn fuel_for(p: ParserView, rank: nat) -> nat {
    16 * p.weight() + rank + 1
}

/// What the compiler makes of the source `src`: the state at the end of the compilation, with
/// the instructions, their lines and the constants of the chunk, or the error.
pub open spec fn compiled(src: Seq<u8>) -> Parsed {
    program(ParserView::initial(src), 16 * (src.len() + 2))
}

} // verus!
