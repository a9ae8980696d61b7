use rs_lox::parser::compile;
use rs_lox::{Chunk, CompileError, Constant, OpCode, Parser, Scanner};

fn ops_of(chunk: &Chunk) -> Vec<OpCode> {
    (0..chunk.count()).map(|i| *chunk.read_op(i).unwrap()).collect()
}

fn consts_of(chunk: &Chunk) -> Vec<String> {
    (0..chunk.const_count())
        .map(|k| match chunk.read_const(k as u8) {
            Constant::Number(text) => format!("n:{}", text),
            Constant::Text(text) => format!("t:{}", text),
        })
        .collect()
}

fn code(source: &str) -> Vec<OpCode> {
    ops_of(&compile(source).unwrap())
}

#[test]
fn expression_in_the_order_of_evaluation() {
    let chunk = compile("print 1 + 2 * 3;").unwrap();
    assert_eq!(
        ops_of(&chunk),
        vec![
            OpCode::CONSTANT(0),
            OpCode::CONSTANT(1),
            OpCode::CONSTANT(2),
            OpCode::MUL,
            OpCode::ADD,
            OpCode::PRINT,
            OpCode::RETURN,
        ]
    );
    assert_eq!(consts_of(&chunk), vec!["n:1", "n:2", "n:3"]);
    assert!(chunk.is_executable());
    assert!(chunk.is_frozen());
}

#[test]
fn empty_source_is_a_return() {
    assert_eq!(code(""), vec![OpCode::RETURN]);
    assert_eq!(code("  // nothing\n"), vec![OpCode::RETURN]);
}

#[test]
fn every_instruction_has_its_line() {
    let chunk = compile("print 1;\nprint\n2;\n\nvar a;").unwrap();
    let lines: Vec<usize> = (0..chunk.count()).map(|i| chunk.get_line_num(i)).collect();
    // an instruction is written when the token behind it has been read
    assert_eq!(ops_of(&chunk).len(), lines.len());
    assert_eq!(lines, vec![1, 2, 3, 5, 5, 5, 5]);
}

#[test]
fn negated_comparisons() {
    assert_eq!(
        code("1 != 2;"),
        vec![
            OpCode::CONSTANT(0),
            OpCode::CONSTANT(1),
            OpCode::EQUAL,
            OpCode::NOT,
            OpCode::POP,
            OpCode::RETURN
        ]
    );
    assert_eq!(code("1 >= 2;")[2..4], [OpCode::LESS, OpCode::NOT]);
    assert_eq!(code("1 <= 2;")[2..4], [OpCode::GREATER, OpCode::NOT]);
    assert_eq!(code("1 < 2;")[2], OpCode::LESS);
    assert_eq!(code("1 > 2;")[2], OpCode::GREATER);
    assert_eq!(code("1 == 2;")[2], OpCode::EQUAL);
}

#[test]
fn operators_of_one_level_group_to_the_left() {
    assert_eq!(
        code("8 - 3 - 2;"),
        vec![
            OpCode::CONSTANT(0),
            OpCode::CONSTANT(1),
            OpCode::SUB,
            OpCode::CONSTANT(2),
            OpCode::SUB,
            OpCode::POP,
            OpCode::RETURN
        ]
    );
}

#[test]
fn unary_binds_tighter_than_binary() {
    assert_eq!(
        code("-1 * !true;"),
        vec![
            OpCode::CONSTANT(0),
            OpCode::NEGATE,
            OpCode::TRUE,
            OpCode::NOT,
            OpCode::MUL,
            OpCode::POP,
            OpCode::RETURN
        ]
    );
}

#[test]
fn and_jumps_over_its_right_operand() {
    assert_eq!(
        code("false and true;"),
        vec![
            OpCode::FALSE,
            OpCode::JUMP_IF_FALSE(4),
            OpCode::TRUE,
            OpCode::AND,
            OpCode::POP,
            OpCode::RETURN
        ]
    );
}

#[test]
fn or_jumps_to_or_over_its_right_operand() {
    assert_eq!(
        code("true or false;"),
        vec![
            OpCode::TRUE,
            OpCode::JUMP_IF_FALSE(3),
            OpCode::JUMP(5),
            OpCode::FALSE,
            OpCode::OR,
            OpCode::POP,
            OpCode::RETURN
        ]
    );
}

#[test]
fn globals_go_by_name() {
    let chunk = compile("var a = 1; a = a;").unwrap();
    assert_eq!(
        ops_of(&chunk),
        vec![
            OpCode::CONSTANT(0),
            OpCode::DEFINE_GLOBAL(1),
            OpCode::GET_GLOBAL(2),
            OpCode::SET_GLOBAL(3),
            OpCode::POP,
            OpCode::RETURN
        ]
    );
    assert_eq!(consts_of(&chunk), vec!["n:1", "t:a", "t:a", "t:a"]);
}

#[test]
fn locals_go_by_slot_and_are_popped_at_the_end_of_their_scope() {
    let chunk = compile("{ var a = 1; var b; b = a; }").unwrap();
    assert_eq!(
        ops_of(&chunk),
        vec![
            OpCode::CONSTANT(0),
            OpCode::NIL,
            OpCode::GET_LOCAL(0),
            OpCode::SET_LOCAL(1),
            OpCode::POP,
            OpCode::POP,
            OpCode::POP,
            OpCode::RETURN
        ]
    );
    assert_eq!(consts_of(&chunk), vec!["n:1"]);
}

#[test]
fn inner_binding_is_found_first() {
    assert_eq!(
        code("{ var a; { var a; a; } a; }"),
        vec![
            OpCode::NIL,
            OpCode::NIL,
            OpCode::GET_LOCAL(1),
            OpCode::POP,
            OpCode::POP,
            OpCode::GET_LOCAL(0),
            OpCode::POP,
            OpCode::POP,
            OpCode::RETURN
        ]
    );
}

#[test]
fn if_without_else_jumps_behind_the_statement() {
    // the condition is dropped on either way
    assert_eq!(
        code("if (true) print 1;"),
        vec![
            OpCode::TRUE,
            OpCode::JUMP_IF_FALSE(6),
            OpCode::POP,
            OpCode::CONSTANT(0),
            OpCode::PRINT,
            OpCode::JUMP(7),
            OpCode::POP,
            OpCode::RETURN
        ]
    );
}

#[test]
fn if_with_else_jumps_over_the_second_statement() {
    assert_eq!(
        code("if (true) print 1; else print 2;"),
        vec![
            OpCode::TRUE,
            OpCode::JUMP_IF_FALSE(6),
            OpCode::POP,
            OpCode::CONSTANT(0),
            OpCode::PRINT,
            OpCode::JUMP(9),
            OpCode::POP,
            OpCode::CONSTANT(1),
            OpCode::PRINT,
            OpCode::RETURN
        ]
    );
}

#[test]
fn nested_if_layout() {
    assert_eq!(
        code("if (true) if (false) print 1; else print 2; else print 3;"),
        vec![
            OpCode::TRUE,
            OpCode::JUMP_IF_FALSE(13),
            OpCode::POP,
            OpCode::FALSE,
            OpCode::JUMP_IF_FALSE(9),
            OpCode::POP,
            OpCode::CONSTANT(0),
            OpCode::PRINT,
            OpCode::JUMP(12),
            OpCode::POP,
            OpCode::CONSTANT(1),
            OpCode::PRINT,
            OpCode::JUMP(16),
            OpCode::POP,
            OpCode::CONSTANT(2),
            OpCode::PRINT,
            OpCode::RETURN
        ]
    );
}

#[test]
fn return_stands_at_the_end_and_nowhere_else() {
    for source in [
        "",
        "print 1;",
        "if (true) print 1; else { var a = 2; print a; }",
        "for (var i = 0; i < 3; i = i + 1) while (false) if (i) print i;",
    ] {
        let ops = code(source);
        assert_eq!(ops.last(), Some(&OpCode::RETURN), "{}", source);
        assert!(ops[..ops.len() - 1].iter().all(|op| *op != OpCode::RETURN), "{}", source);
    }
}

#[test]
fn while_loop_layout() {
    assert_eq!(
        code("while (true) print 1;"),
        vec![
            OpCode::TRUE,
            OpCode::JUMP_IF_FALSE(6),
            OpCode::POP,
            OpCode::CONSTANT(0),
            OpCode::PRINT,
            OpCode::JUMP(0),
            OpCode::POP,
            OpCode::RETURN
        ]
    );
}

#[test]
fn for_loop_layout() {
    assert_eq!(
        code("for (var i = 0; i < 3; i = i + 1) print i;"),
        vec![
            OpCode::CONSTANT(0),
            // the condition
            OpCode::GET_LOCAL(0),
            OpCode::CONSTANT(1),
            OpCode::LESS,
            OpCode::JUMP_IF_FALSE(17),
            OpCode::POP,
            OpCode::JUMP(14),
            // the third clause
            OpCode::JUMP(14),
            OpCode::GET_LOCAL(0),
            OpCode::CONSTANT(2),
            OpCode::ADD,
            OpCode::SET_LOCAL(0),
            OpCode::POP,
            OpCode::JUMP(1),
            // the statement
            OpCode::GET_LOCAL(0),
            OpCode::PRINT,
            OpCode::JUMP(8),
            // behind the loop
            OpCode::POP,
            OpCode::POP,
            OpCode::RETURN
        ]
    );
}

#[test]
fn for_without_clauses_layout() {
    assert_eq!(
        code("for (;;) print 1;"),
        vec![OpCode::CONSTANT(0), OpCode::PRINT, OpCode::JUMP(0), OpCode::POP, OpCode::RETURN]
    );
}

#[test]
fn parser_writes_to_the_chunk_it_was_given() {
    let scanner = Scanner::from_str("print nil;").unwrap();
    let mut parser = Parser::init(scanner, Chunk::new());
    parser.parse().unwrap();
    let chunk = parser.finish();
    assert_eq!(ops_of(&chunk), vec![OpCode::NIL, OpCode::PRINT, OpCode::RETURN]);
}

#[test]
fn compile_refuses_what_is_not_ascii() {
    assert!(matches!(compile("\u{fc}"), Err(CompileError::NonASCIIChar)));
}

#[test]
fn chunk_of_65535_instructions_is_the_largest() {
    // each `nil;` is two instructions; `RETURN` is the last one
    let fits = "nil;".repeat(32767);
    assert_eq!(compile(&fits).unwrap().count(), 65535);
    let too_long = "nil;".repeat(32768);
    match compile(&too_long) {
        Err(CompileError::SyntaxError(msg, _)) => {
            assert_eq!(msg, "Too many instructions in one chunk")
        }
        other => panic!("{:?}", other.map(|c| c.count())),
    }
}

#[test]
fn failed_compilation_leaves_the_chunk_open() {
    let scanner = Scanner::from_str("print 1; print ;").unwrap();
    let mut parser = Parser::init(scanner, Chunk::new());
    assert!(parser.parse().is_err());
    let chunk = parser.finish();
    // what was compiled before the error is there, and no `RETURN`
    assert_eq!(ops_of(&chunk), vec![OpCode::CONSTANT(0), OpCode::PRINT]);
    assert!(!chunk.is_frozen());
    assert!(!chunk.is_executable());
}

#[test]
fn print_of_each_literal() {
    for (source, push, consts) in [
        ("print nil;", OpCode::NIL, vec![]),
        ("print true;", OpCode::TRUE, vec![]),
        ("print false;", OpCode::FALSE, vec![]),
        ("print 12.5;", OpCode::CONSTANT(0), vec!["n:12.5"]),
        ("print \"a b\";", OpCode::CONSTANT(0), vec!["t:a b"]),
    ] {
        let chunk = compile(source).unwrap();
        assert_eq!(ops_of(&chunk), vec![push, OpCode::PRINT, OpCode::RETURN], "{}", source);
        assert_eq!(consts_of(&chunk), consts, "{}", source);
    }
}
