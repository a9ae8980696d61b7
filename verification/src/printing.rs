//! Programs that print one literal: what they are compiled to, and what they print.

use crate::chunk::{ConstantView, is_number_literal};
use crate::grammar::{
    compiled, declaration, declarations, is_literal, literal_code, literal_consts, ParserView,
    print_of_literal, statement,
};
use crate::opcode::OpCode;
use crate::scanner::{
    byte_of, bytes_of, CompileErrorView, continues, find_byte, is_digit, keyword_type, lexeme,
    match_at, run_end, scan, Scan, text_of,
};
use crate::stack::STACK_MAX;
use crate::tokens::{Token, TokenType};
use crate::errors::RuntimeErrorView;
use crate::value::{FloatAnswerView, FloatTaskView};
use crate::vm::{ActionView, literal_is_printed, Machine, number_is_printed, Stepped};
use vstd::prelude::*;
use vstd::string::*;

verus! {

/// The source that prints the literal `lit`: `print`, a blank, the literal, and `;`.
pub open spec fn print_source(lit: Seq<u8>) -> Seq<u8> {
    seq![
        byte_of('p'),
        byte_of('r'),
        byte_of('i'),
        byte_of('n'),
        byte_of('t'),
        byte_of(' '),
    ] + lit + seq![byte_of(';')]
}

/// The string literal for the text `body`: the text between quotes.
pub open spec fn quoted(body: Seq<u8>) -> Seq<u8> {
    seq![byte_of('"')] + body + seq![byte_of('"')]
}

/// Whether the source `src` is compiled to the instructions `ops` with the constants
/// `consts`.
#[verifier::opaque]
pub open spec fn compiles_to(src: Seq<u8>, ops: Seq<OpCode>, consts: Seq<ConstantView>) -> bool {
    compiled(src) matches Ok(p) && p.ops == ops && p.consts == consts
}

/// A run of bytes that go on, up to one that does not, ends there.
proof fn run_ends_at(s: Seq<u8>, i: int, end: int, number: bool)
    requires
        0 <= i <= end < s.len(),
        forall|j: int| i <= j < end ==> continues(#[trigger] s[j], number),
        !continues(s[end], number),
    ensures
        run_end(s, i, number) == end,
    decreases end - i,
{
    if i < end {
        assert(continues(s[i], number));
        run_ends_at(s, i + 1, end, number);
    }
}

/// The first `b` behind bytes that are not `b` is found where it is.
proof fn found_at(s: Seq<u8>, i: int, at: int, b: u8)
    requires
        0 <= i <= at < s.len(),
        forall|j: int| i <= j < at ==> #[trigger] s[j] != b,
        s[at] == b,
    ensures
        find_byte(s, i, b) == at,
    decreases at - i,
{
    if i < at {
        assert(s[i] != b);
        found_at(s, i + 1, at, b);
    }
}

/// The first token of a source that prints a literal is `print`.
proof fn begins_with_print(lit: Seq<u8>)
    ensures
        scan(print_source(lit), 0, 1) == (Scan { ty: TokenType::Print, start: 0, end: 5, line: 1 }),
{
    let s = print_source(lit);
    reveal(match_at);
    run_ends_at(s, 1, 5, false);
    let word = s.subrange(0, 5);
    reveal_strlit("and");
    reveal_strlit("class");
    reveal_strlit("else");
    reveal_strlit("false");
    reveal_strlit("for");
    reveal_strlit("fun");
    reveal_strlit("if");
    reveal_strlit("nil");
    reveal_strlit("or");
    reveal_strlit("print");
    assert(bytes_of("class"@)[0] != word[0]);
    assert(bytes_of("false"@)[0] != word[0]);
    assert(word =~= bytes_of("print"@));
    assert(keyword_type(word) == TokenType::Print);
}

/// Behind the literal of a source that prints it comes `;`, and then the end of the file.
proof fn ends_with_semicolon(lit: Seq<u8>, line: int)
    ensures
        scan(print_source(lit), 6 + lit.len() as int, line) == (Scan {
            ty: TokenType::Semicolon,
            start: 6 + lit.len() as int,
            end: 7 + lit.len() as int,
            line,
        }),
        scan(print_source(lit), 7 + lit.len() as int, line) == (Scan {
            ty: TokenType::EoF,
            start: 7 + lit.len() as int,
            end: 7 + lit.len() as int,
            line,
        }),
{
    let s = print_source(lit);
    reveal(match_at);
    assert(s[6 + lit.len() as int] == byte_of(';'));
}

/// The blank behind `print` is passed over.
proof fn passes_blank(lit: Seq<u8>)
    ensures
        scan(print_source(lit), 5, 1) == scan(print_source(lit), 6, 1),
{
    reveal(match_at);
}

/// Whether the tokens of `src` are `print`, `tok`, `;`, and the end of the file.
pub open spec fn four_tokens_of(src: Seq<u8>, tok: Token) -> bool {
    let p0 = ParserView::initial(src);
    &&& p0.advance() is Ok
    &&& p0.advance()->Ok_0.cur.ty == TokenType::Print
    &&& p0.advance()->Ok_0.advance() is Ok
    &&& p0.advance()->Ok_0.advance()->Ok_0.cur == tok
    &&& p0.advance()->Ok_0.advance()->Ok_0.advance() is Ok
    &&& p0.advance()->Ok_0.advance()->Ok_0.advance()->Ok_0.cur.ty == TokenType::Semicolon
    &&& p0.advance()->Ok_0.advance()->Ok_0.advance()->Ok_0.advance() is Ok
    &&& p0.advance()->Ok_0.advance()->Ok_0.advance()->Ok_0.advance()->Ok_0.cur.ty
        == TokenType::EoF
    &&& p0.advance()->Ok_0.advance()->Ok_0.advance()->Ok_0.advance()->Ok_0.advance() is Ok
}

/// The tokens of a source that prints a literal which the scanner takes for one token of
/// kind `ty`: `print`, the literal, `;`, and the end of the file.
proof fn four_tokens(lit: Seq<u8>, ty: TokenType)
    requires
        scan(print_source(lit), 6, 1).ty == ty,
        scan(print_source(lit), 6, 1).start == 6,
        scan(print_source(lit), 6, 1).end == 6 + lit.len() as int,
        ty != TokenType::Error,
    ensures
        four_tokens_of(print_source(lit), scan(print_source(lit), 6, 1).token()),
{
    let s = print_source(lit);
    let line = scan(s, 6, 1).line;
    begins_with_print(lit);
    passes_blank(lit);
    ends_with_semicolon(lit, line);
    let p0 = ParserView::initial(s);
    let p1 = p0.advance()->Ok_0;
    assert(p1.pos == 5 && p1.line == 1);
    let p2 = p1.advance()->Ok_0;
    assert(p2.pos == 6 + lit.len() && p2.line == line);
    let p3 = p2.advance()->Ok_0;
    assert(p3.pos == 7 + lit.len() && p3.line == line);
    let p4 = p3.advance()->Ok_0;
    assert(p4.pos == 7 + lit.len() && p4.line == line);
}

/// A source whose first token is `print`, and whose first statement leaves the compiler at
/// the end of the file, is compiled to what that statement adds, and `RETURN`.
#[verifier::rlimit(50)]
proof fn one_statement(src: Seq<u8>, ops: Seq<OpCode>, consts: Seq<ConstantView>)
    requires
        ParserView::initial(src).advance() is Ok,
        ParserView::initial(src).advance()->Ok_0.cur.ty == TokenType::Print,
        ({
            let made = statement(
                ParserView::initial(src).advance()->Ok_0,
                (16 * (src.len() + 2) - 2) as nat,
            );
            &&& made is Ok
            &&& made->Ok_0.ops == ops
            &&& made->Ok_0.consts == consts
            &&& made->Ok_0.cur.ty == TokenType::EoF
            &&& made->Ok_0.advance() is Ok
        }),
        ops.len() < crate::grammar::CODE_MAX,
    ensures
        compiles_to(src, ops.push(OpCode::RETURN), consts),
{
    let fuel: nat = 16 * (src.len() + 2);
    let p1 = ParserView::initial(src).advance()->Ok_0;
    let q = statement(p1, (fuel - 2) as nat)->Ok_0;
    assert(declaration(p1, (fuel - 1) as nat) == Ok::<ParserView, CompileErrorView>(q));
    assert(declarations(q, (fuel - 1) as nat) == Ok::<ParserView, CompileErrorView>(q));
    assert(declarations(p1, fuel) == Ok::<ParserView, CompileErrorView>(q));
    reveal(compiles_to);
}

/// A `print` of a literal, behind which the source ends, leaves the compiler at the end of
/// the file, with the instruction that pushes the literal, and `PRINT`.
#[verifier::rlimit(50)]
proof fn print_to_the_end(p: ParserView, fuel: nat)
    requires
        fuel >= 4,
        p.cur.ty == TokenType::Print,
        p.ops == Seq::<OpCode>::empty(),
        p.consts == Seq::<ConstantView>::empty(),
        p.advance() is Ok,
        is_literal(p.advance()->Ok_0.cur.ty),
        p.advance()->Ok_0.cur.ty == TokenType::Number ==> is_number_literal(
            lexeme(p.src, p.advance()->Ok_0.cur),
        ),
        p.advance()->Ok_0.advance() is Ok,
        p.advance()->Ok_0.advance()->Ok_0.cur.ty == TokenType::Semicolon,
        p.advance()->Ok_0.advance()->Ok_0.advance() is Ok,
        p.advance()->Ok_0.advance()->Ok_0.advance()->Ok_0.cur.ty == TokenType::EoF,
        p.advance()->Ok_0.advance()->Ok_0.advance()->Ok_0.advance() is Ok,
    ensures
        statement(p, fuel) is Ok,
        statement(p, fuel)->Ok_0.ops == seq![
            literal_code(p.advance()->Ok_0.cur.ty, 0),
            OpCode::PRINT,
        ],
        statement(p, fuel)->Ok_0.consts == literal_consts(
            Seq::empty(),
            p.advance()->Ok_0.cur.ty,
            lexeme(p.src, p.advance()->Ok_0.cur),
        ),
        statement(p, fuel)->Ok_0.cur.ty == TokenType::EoF,
        statement(p, fuel)->Ok_0.advance() is Ok,
{
    let p4 = p.advance()->Ok_0.advance()->Ok_0.advance()->Ok_0;
    print_of_literal(p, fuel);
    let q = statement(p, fuel)->Ok_0;
    assert(q.ops =~= seq![literal_code(p.advance()->Ok_0.cur.ty, 0), OpCode::PRINT]);
    assert(q.cur == p4.cur);
    assert(q.advance() is Ok) by {
        assert(q.src == p4.src && q.pos == p4.pos && q.line == p4.line);
        assert(p4.advance() is Ok);
    }
}

/// A source of four tokens, `print`, a literal, `;` and the end of the file, is compiled to
/// the instruction that pushes the literal, `PRINT` and `RETURN`; the text of a number or a
/// string is the one constant.
#[verifier::rlimit(50)]
pub proof fn print_of_token(src: Seq<u8>, tok: Token)
    requires
        four_tokens_of(src, tok),
        is_literal(tok.ty),
        tok.ty == TokenType::Number ==> is_number_literal(lexeme(src, tok)),
    ensures
        compiles_to(
            src,
            seq![literal_code(tok.ty, 0), OpCode::PRINT, OpCode::RETURN],
            literal_consts(Seq::empty(), tok.ty, lexeme(src, tok)),
        ),
{
    let two = seq![literal_code(tok.ty, 0), OpCode::PRINT];
    let consts = literal_consts(Seq::empty(), tok.ty, lexeme(src, tok));
    print_to_the_end(ParserView::initial(src).advance()->Ok_0, (16 * (src.len() + 2) - 2) as nat);
    one_statement(src, two, consts);
    assert(two.push(OpCode::RETURN) =~= seq![literal_code(tok.ty, 0), OpCode::PRINT, OpCode::RETURN]);
}

/// What the scanner makes of a string literal behind `print` and a blank: one token, whose
/// text is the text between the quotes.
proof fn scans_string(body: Seq<u8>)
    requires
        forall|i: int| 0 <= i < body.len() ==> #[trigger] body[i] != byte_of('"'),
        print_source(quoted(body)).len() < u32::MAX,
    ensures
        scan(print_source(quoted(body)), 6, 1).ty == TokenType::String,
        scan(print_source(quoted(body)), 6, 1).start == 6,
        scan(print_source(quoted(body)), 6, 1).end == 6 + quoted(body).len() as int,
        lexeme(print_source(quoted(body)), scan(print_source(quoted(body)), 6, 1).token())
            == text_of(body),
{
    let lit = quoted(body);
    let s = print_source(lit);
    reveal(match_at);
    assert forall|j: int| 7 <= j < 7 + body.len() as int implies #[trigger] s[j] != byte_of('"') by {
        assert(s[j] == body[j - 7]);
    }
    found_at(s, 7, 7 + body.len() as int, byte_of('"'));
    let tok = scan(s, 6, 1).token();
    assert(s.subrange(tok.start_pos as int, tok.end()) =~= body);
}

/// What the scanner makes of a decimal literal behind `print` and a blank: one token, whose
/// text is the literal.
proof fn scans_number(lit: Seq<u8>)
    requires
        is_number_literal(text_of(lit)),
        print_source(lit).len() < u32::MAX,
    ensures
        scan(print_source(lit), 6, 1).ty == TokenType::Number,
        scan(print_source(lit), 6, 1).start == 6,
        scan(print_source(lit), 6, 1).end == 6 + lit.len() as int,
        lexeme(print_source(lit), scan(print_source(lit), 6, 1).token()) == text_of(lit),
{
    let s = print_source(lit);
    reveal(match_at);
    assert forall|j: int| 6 <= j < 6 + lit.len() as int implies continues(#[trigger] s[j], true) by {
        assert(s[j] == lit[j - 6]);
        let c = text_of(lit)[j - 6];
        assert(('0' <= c <= '9') || c == '.');
    }
    assert(is_digit(s[6])) by {
        assert(s[6] == lit[0]);
        let c = text_of(lit)[0];
        assert('0' <= c <= '9');
    }
    run_ends_at(s, 7, 6 + lit.len() as int, true);
    let tok = scan(s, 6, 1).token();
    assert(s.subrange(tok.start_pos as int, tok.end()) =~= lit);
}

/// A program that prints a string: the source `print "…";`, whatever the text between the
/// quotes, is compiled to `CONSTANT`, `PRINT` and `RETURN`, and its one constant is that
/// text.
pub proof fn print_of_string(body: Seq<u8>)
    requires
        forall|i: int| 0 <= i < body.len() ==> #[trigger] body[i] != byte_of('"'),
        print_source(quoted(body)).len() < u32::MAX,
    ensures
        compiles_to(
            print_source(quoted(body)),
            seq![OpCode::CONSTANT(0), OpCode::PRINT, OpCode::RETURN],
            seq![ConstantView::Text(text_of(body))],
        ),
{
    scans_string(body);
    let src = print_source(quoted(body));
    four_tokens(quoted(body), TokenType::String);
    print_of_token(src, scan(src, 6, 1).token());
    assert(Seq::<ConstantView>::empty().push(ConstantView::Text(text_of(body))) =~= seq![
        ConstantView::Text(text_of(body)),
    ]);
}

/// A program that prints a number: the source `print`, a decimal literal and `;` is
/// compiled to `CONSTANT`, `PRINT` and `RETURN`, and its one constant is the text of the
/// literal.
pub proof fn print_of_number(lit: Seq<u8>)
    requires
        is_number_literal(text_of(lit)),
        print_source(lit).len() < u32::MAX,
    ensures
        compiles_to(
            print_source(lit),
            seq![OpCode::CONSTANT(0), OpCode::PRINT, OpCode::RETURN],
            seq![ConstantView::Number(text_of(lit))],
        ),
{
    scans_number(lit);
    let src = print_source(lit);
    four_tokens(lit, TokenType::Number);
    print_of_token(src, scan(src, 6, 1).token());
    assert(Seq::<ConstantView>::empty().push(ConstantView::Number(text_of(lit))) =~= seq![
        ConstantView::Number(text_of(lit)),
    ]);
}

/// The literal that is a reserved word: `true` and `false`, and `nil` for any other kind.
pub open spec fn word_literal(ty: TokenType) -> Seq<u8> {
    match ty {
        TokenType::True => seq![byte_of('t'), byte_of('r'), byte_of('u'), byte_of('e')],
        TokenType::False => seq![
            byte_of('f'),
            byte_of('a'),
            byte_of('l'),
            byte_of('s'),
            byte_of('e'),
        ],
        _ => seq![byte_of('n'), byte_of('i'), byte_of('l')],
    }
}

/// How `nil`, `true` and `false` are written out.
pub open spec fn word_text(ty: TokenType) -> Seq<char> {
    match ty {
        TokenType::True => "true"@,
        TokenType::False => "false"@,
        _ => "Nil"@,
    }
}

/// What the scanner makes of `nil` behind `print` and a blank.
proof fn scans_nil()
    ensures
        scan(print_source(word_literal(TokenType::Nil)), 6, 1) == (Scan {
            ty: TokenType::Nil,
            start: 6,
            end: 9,
            line: 1,
        }),
{
    let s = print_source(word_literal(TokenType::Nil));
    reveal(match_at);
    run_ends_at(s, 7, 9, false);
    let word = s.subrange(6, 9);
    reveal_strlit("and");
    reveal_strlit("class");
    reveal_strlit("else");
    reveal_strlit("false");
    reveal_strlit("for");
    reveal_strlit("fun");
    reveal_strlit("if");
    reveal_strlit("nil");
    assert(bytes_of("and"@)[0] != word[0]);
    assert(bytes_of("for"@)[0] != word[0]);
    assert(bytes_of("fun"@)[0] != word[0]);
    assert(word =~= bytes_of("nil"@));
}

/// What the scanner makes of `true` behind `print` and a blank.
proof fn scans_true()
    ensures
        scan(print_source(word_literal(TokenType::True)), 6, 1) == (Scan {
            ty: TokenType::True,
            start: 6,
            end: 10,
            line: 1,
        }),
{
    let s = print_source(word_literal(TokenType::True));
    reveal(match_at);
    run_ends_at(s, 7, 10, false);
    let word = s.subrange(6, 10);
    reveal_strlit("and");
    reveal_strlit("class");
    reveal_strlit("else");
    reveal_strlit("false");
    reveal_strlit("for");
    reveal_strlit("fun");
    reveal_strlit("if");
    reveal_strlit("nil");
    reveal_strlit("or");
    reveal_strlit("print");
    reveal_strlit("return");
    reveal_strlit("super");
    reveal_strlit("this");
    reveal_strlit("true");
    assert(bytes_of("else"@)[0] != word[0]);
    assert(bytes_of("this"@)[1] != word[1]);
    assert(word =~= bytes_of("true"@));
}

/// What the scanner makes of `false` behind `print` and a blank.
proof fn scans_false()
    ensures
        scan(print_source(word_literal(TokenType::False)), 6, 1) == (Scan {
            ty: TokenType::False,
            start: 6,
            end: 11,
            line: 1,
        }),
{
    let s = print_source(word_literal(TokenType::False));
    reveal(match_at);
    run_ends_at(s, 7, 11, false);
    let word = s.subrange(6, 11);
    reveal_strlit("and");
    reveal_strlit("class");
    reveal_strlit("else");
    reveal_strlit("false");
    assert(bytes_of("class"@)[0] != word[0]);
    assert(word =~= bytes_of("false"@));
}

/// A program that prints `nil`, `true` or `false` is compiled to the instruction that
/// pushes that value, `PRINT` and `RETURN`, and has no constant.
pub proof fn print_of_word(ty: TokenType)
    requires
        ty == TokenType::Nil || ty == TokenType::True || ty == TokenType::False,
    ensures
        compiles_to(
            print_source(word_literal(ty)),
            seq![literal_code(ty, 0), OpCode::PRINT, OpCode::RETURN],
            Seq::empty(),
        ),
{
    scans_nil();
    scans_true();
    scans_false();
    let src = print_source(word_literal(ty));
    four_tokens(word_literal(ty), ty);
    print_of_token(src, scan(src, 6, 1).token());
}

/// A source is compiled to one chunk.
pub proof fn compiles_to_one(
    src: Seq<u8>,
    ops: Seq<OpCode>,
    consts: Seq<ConstantView>,
    other_ops: Seq<OpCode>,
    other_consts: Seq<ConstantView>,
)
    requires
        compiles_to(src, ops, consts),
        compiles_to(src, other_ops, other_consts),
    ensures
        ops == other_ops,
        consts == other_consts,
{
    reveal(compiles_to);
}

/// Printing a string prints it: a machine that runs from its start what `print "…";` is
/// compiled to hands out the text between the quotes, and then halts with the stack as it
/// was.
pub proof fn string_is_printed(body: Seq<u8>, m: Machine)
    requires
        forall|i: int| 0 <= i < body.len() ==> #[trigger] body[i] != byte_of('"'),
        print_source(quoted(body)).len() < u32::MAX,
        compiles_to(print_source(quoted(body)), m.ops, m.consts),
        m.ip == 0,
        m.waiting is Nothing,
        m.stack.len() < STACK_MAX,
    ensures
        m.run(2) == (Stepped {
            next: Machine { ip: 2, ..m },
            result: Ok(ActionView::Print(text_of(body))),
        }),
        m.run(2).next.run(1) == (Stepped { next: m.run(2).next, result: Ok(ActionView::Halt) }),
{
    print_of_string(body);
    compiles_to_one(
        print_source(quoted(body)),
        m.ops,
        m.consts,
        seq![OpCode::CONSTANT(0), OpCode::PRINT, OpCode::RETURN],
        seq![ConstantView::Text(text_of(body))],
    );
    literal_is_printed(m);
    let pushed = m.step().next;
    assert(m.run(2) == pushed.run(1));
    assert(pushed.run(1) == pushed.step());
    let printed = pushed.step().next;
    assert(printed.run(1) == printed.step());
}

/// Printing `nil`, `true` or `false` prints `Nil`, `true` or `false`: a machine that runs
/// from its start what the program is compiled to hands out that text, and then halts with
/// the stack as it was.
pub proof fn word_is_printed(ty: TokenType, m: Machine)
    requires
        ty == TokenType::Nil || ty == TokenType::True || ty == TokenType::False,
        compiles_to(print_source(word_literal(ty)), m.ops, m.consts),
        m.ip == 0,
        m.waiting is Nothing,
        m.stack.len() < STACK_MAX,
    ensures
        m.run(2) == (Stepped {
            next: Machine { ip: 2, ..m },
            result: Ok(ActionView::Print(word_text(ty))),
        }),
        m.run(2).next.run(1) == (Stepped { next: m.run(2).next, result: Ok(ActionView::Halt) }),
{
    print_of_word(ty);
    compiles_to_one(
        print_source(word_literal(ty)),
        m.ops,
        m.consts,
        seq![literal_code(ty, 0), OpCode::PRINT, OpCode::RETURN],
        Seq::empty(),
    );
    literal_is_printed(m);
    let pushed = m.step().next;
    assert(m.run(2) == pushed.run(1));
    assert(pushed.run(1) == pushed.step());
    let printed = pushed.step().next;
    assert(printed.run(1) == printed.step());
}

/// Printing a number prints what the float unit makes of it: a machine that runs from its
/// start what `print`, a decimal literal and `;` is compiled to asks the unit for the number
/// that the literal stands for, then for the text of that number, hands that text out, and
/// has then the stack as it was.
pub proof fn number_is_printed_by_the_unit(lit: Seq<u8>, m: Machine, bits: u32, text: Seq<char>)
    requires
        is_number_literal(text_of(lit)),
        print_source(lit).len() < u32::MAX,
        compiles_to(print_source(lit), m.ops, m.consts),
        m.ip == 0,
        m.waiting is Nothing,
        m.stack.len() < STACK_MAX,
    ensures
        m.run(1).result == Ok::<ActionView, RuntimeErrorView>(
            ActionView::Float(FloatTaskView::Parse(text_of(lit))),
        ),
        m.run(1).next.resume(FloatAnswerView::Bits(bits)).next.run(1).result == Ok::<
            ActionView,
            RuntimeErrorView,
        >(ActionView::Float(FloatTaskView::Text(bits))),
        m.run(1).next.resume(FloatAnswerView::Bits(bits)).next.run(1).next.resume(
            FloatAnswerView::Text(text),
        ) == (Stepped { next: Machine { ip: 2, ..m }, result: Ok(ActionView::Print(text)) }),
{
    print_of_number(lit);
    compiles_to_one(
        print_source(lit),
        m.ops,
        m.consts,
        seq![OpCode::CONSTANT(0), OpCode::PRINT, OpCode::RETURN],
        seq![ConstantView::Number(text_of(lit))],
    );
    number_is_printed(m, 0, bits, text);
    assert(m.run(1) == m.step());
    let pushed = m.step().next.resume(FloatAnswerView::Bits(bits)).next;
    assert(pushed.run(1) == pushed.step());
}

} // verus!
