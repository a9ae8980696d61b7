use rs_lox::{
    Action, ArithOp, CompileError, FloatAnswer, FloatTask, RuntimeContext, RuntimeError,
    StackError, Value,
};

#[derive(Debug)]
enum Failure {
    Compile(CompileError),
    Runtime(RuntimeError),
}

/// The float unit of the host, and a record of the tasks it was given.
fn float_unit(task: FloatTask, asked: &mut Vec<String>) -> FloatAnswer {
    asked.push(format!("{:?}", task));
    match task {
        FloatTask::Parse(text) => FloatAnswer::Bits(text.parse::<f32>().unwrap().to_bits()),
        FloatTask::Negate(a) => FloatAnswer::Bits((-f32::from_bits(a)).to_bits()),
        FloatTask::Arith(op, a, b) => {
            let (a, b) = (f32::from_bits(a), f32::from_bits(b));
            let r = match op {
                ArithOp::Add => a + b,
                ArithOp::Sub => a - b,
                ArithOp::Mul => a * b,
                ArithOp::Div => a / b,
            };
            FloatAnswer::Bits(r.to_bits())
        }
        FloatTask::Equal(a, b) => FloatAnswer::Truth(f32::from_bits(a) == f32::from_bits(b)),
        FloatTask::Greater(a, b) => FloatAnswer::Truth(f32::from_bits(a) > f32::from_bits(b)),
        FloatTask::Text(a) => FloatAnswer::Text(format!("{}", f32::from_bits(a))),
    }
}

/// Compiles `source` in `ctx` and runs it; gives the lines printed and how the run ended.
fn run_in(
    ctx: &mut RuntimeContext,
    source: &str,
    asked: &mut Vec<String>,
) -> (Vec<String>, Result<(), Failure>) {
    let mut out = Vec::new();
    let id = match ctx.compile(source) {
        Ok(id) => id,
        Err(e) => return (out, Err(Failure::Compile(e))),
    };
    assert!(ctx.running_chunk().is_none());
    let mut res = ctx.exec(id, 50);
    loop {
        match res {
            Ok(Action::Halt) => {
                assert!(ctx.running_chunk().is_none());
                return (out, Ok(()));
            }
            Ok(Action::Continue) => {
                assert_eq!(ctx.running_chunk(), Some(id));
                res = ctx.exec(id, 50);
            }
            Ok(Action::Print(line)) => {
                out.push(line);
                res = ctx.exec(id, 50);
            }
            Ok(Action::Float(task)) => {
                let answer = float_unit(task, asked);
                assert!(ctx.awaits(&answer));
                res = ctx.answer(answer, 50);
            }
            Err(e) => {
                // the chunk is back in its slot
                assert!(ctx.running_chunk().is_none());
                return (out, Err(Failure::Runtime(e)));
            }
        }
    }
}

fn run(source: &str) -> (Vec<String>, Result<(), Failure>) {
    let mut ctx = RuntimeContext::start(false);
    let mut asked = Vec::new();
    run_in(&mut ctx, source, &mut asked)
}

fn output(source: &str) -> Vec<String> {
    let (out, res) = run(source);
    assert!(res.is_ok(), "{:?}", res);
    out
}

#[test]
fn arithmetic_with_precedence() {
    assert_eq!(output("print 1 + 2 * 3;"), vec!["7"]);
}

#[test]
fn block_shadows_a_global() {
    assert_eq!(output("var a = 1; { var a = 2; print a; } print a;"), vec!["2", "1"]);
}

#[test]
fn while_loop_counts() {
    assert_eq!(
        output("var i = 0; while (i < 3) { print i; i = i + 1; }"),
        vec!["0", "1", "2"]
    );
}

#[test]
fn for_loop_counts() {
    assert_eq!(output("for (var i = 0; i < 3; i = i + 1) print i;"), vec!["0", "1", "2"]);
}

#[test]
fn strings_are_joined() {
    assert_eq!(output("print \"foo\" + \"bar\";"), vec!["foobar"]);
}

#[test]
fn undeclared_variable_is_a_runtime_error() {
    let (out, res) = run("print x;");
    assert!(out.is_empty());
    match res {
        Err(Failure::Runtime(RuntimeError::UnknownVariable(name))) => assert_eq!(name, "x"),
        other => panic!("{:?}", other),
    }
}

#[test]
fn if_takes_the_first_statement_where_the_condition_holds() {
    assert_eq!(output("if (true) print 1; else print 2;"), vec!["1"]);
}

#[test]
fn if_takes_the_second_statement_where_it_does_not() {
    assert_eq!(output("if (false) print 1; else print 2;"), vec!["2"]);
}

#[test]
fn if_without_else() {
    assert_eq!(output("if (false) print 1; print 2;"), vec!["2"]);
    assert_eq!(output("if (true) print 1; print 2;"), vec!["1", "2"]);
}

#[test]
fn non_ascii_source_is_a_compile_error() {
    let (out, res) = run("print \"\u{e9}\";");
    assert!(out.is_empty());
    assert!(matches!(res, Err(Failure::Compile(CompileError::NonASCIIChar))));
}

#[test]
fn every_literal_prints_its_text() {
    assert_eq!(output("print nil;"), vec!["Nil"]);
    assert_eq!(output("print true;"), vec!["true"]);
    assert_eq!(output("print false;"), vec!["false"]);
    assert_eq!(output("print 12;"), vec!["12"]);
    assert_eq!(output("print 1.5;"), vec!["1.5"]);
    assert_eq!(output("print 7.;"), vec!["7"]);
    assert_eq!(output("print \"hi there\";"), vec!["hi there"]);
    assert_eq!(output("print \"\";"), vec![""]);
}

#[test]
fn variable_holds_what_the_expression_gives() {
    for e in ["1 + 2 * 3", "\"a\" + \"b\"", "nil", "!true", "-(4 - 6)", "1 < 2", "\"n\" + 1.5"] {
        let direct = output(&format!("print {};", e));
        let by_global = output(&format!("var x = {}; print x;", e));
        let by_local = output(&format!("{{ var x = {}; print x; }}", e));
        assert_eq!(direct, by_global);
        assert_eq!(direct, by_local);
    }
}

#[test]
fn false_and_does_not_evaluate_the_right_operand() {
    // `x` is not defined: evaluating it would stop the machine
    assert_eq!(output("print false and x;"), vec!["false"]);
    assert_eq!(output("print nil and x;"), vec!["Nil"]);
    let mut ctx = RuntimeContext::start(false);
    let mut asked = Vec::new();
    let (out, res) = run_in(&mut ctx, "print false and (1 / 0);", &mut asked);
    assert!(res.is_ok());
    assert_eq!(out, output("print false;"));
    // the float unit was asked nothing
    assert!(asked.is_empty());
}

#[test]
fn true_or_does_not_evaluate_the_right_operand() {
    assert_eq!(output("print true or x;"), vec!["true"]);
    assert_eq!(output("print 1 or x;"), vec!["1"]);
}

#[test]
fn and_or_evaluate_the_right_operand_where_the_left_does_not_decide() {
    assert_eq!(output("print true and false;"), vec!["false"]);
    assert_eq!(output("print true and true;"), vec!["true"]);
    assert_eq!(output("print false or true;"), vec!["true"]);
    assert_eq!(output("print false or false;"), vec!["false"]);
    let (_, res) = run("print true and x;");
    assert!(matches!(res, Err(Failure::Runtime(RuntimeError::UnknownVariable(_)))));
    let (_, res) = run("print false or x;");
    assert!(matches!(res, Err(Failure::Runtime(RuntimeError::UnknownVariable(_)))));
}

#[test]
fn local_is_gone_after_its_scope() {
    // behind the block `a` can only be a global, and there is none
    let (out, res) = run("{ var a = 1; print a; } print a;");
    assert_eq!(out, vec!["1"]);
    match res {
        Err(Failure::Runtime(RuntimeError::UnknownVariable(name))) => assert_eq!(name, "a"),
        other => panic!("{:?}", other),
    }
}

#[test]
fn stack_is_empty_after_blocks_and_loops() {
    let mut ctx = RuntimeContext::start(false);
    let mut asked = Vec::new();
    let source = "var n = 0; { var a = 1; var b = 2; { var c = a + b; print c; } } \
                  while (n < 2) { var t = n; n = t + 1; } \
                  for (var i = 0; i < 2; i = i + 1) { var u = i; print u; } 1 + 2;";
    let (out, res) = run_in(&mut ctx, source, &mut asked);
    assert!(res.is_ok(), "{:?}", res);
    assert_eq!(out, vec!["3", "0", "1"]);
    assert_eq!(ctx.stack_depth(), 0);
}

#[test]
fn redeclaring_a_local_in_its_scope_is_a_compile_error() {
    let (_, res) = run("{ var a = 1; var a = 2; }");
    match res {
        Err(Failure::Compile(CompileError::SyntaxError(msg, _))) => {
            assert_eq!(msg, "Variable already declared in this scope")
        }
        other => panic!("{:?}", other),
    }
}

#[test]
fn shadowing_in_a_deeper_scope_succeeds() {
    assert_eq!(
        output("{ var a = 1; { var a = 2; print a; } print a; }"),
        vec!["2", "1"]
    );
}

#[test]
fn redeclaring_a_global_succeeds() {
    assert_eq!(output("var a = 1; var a = 2; print a;"), vec!["2"]);
}

#[test]
fn globals_persist_across_chunks_of_a_session() {
    let mut ctx = RuntimeContext::start(false);
    let mut asked = Vec::new();
    let (_, res) = run_in(&mut ctx, "var a = 41;", &mut asked);
    assert!(res.is_ok());
    let (out, res) = run_in(&mut ctx, "a = a + 1; print a;", &mut asked);
    assert!(res.is_ok());
    assert_eq!(out, vec!["42"]);
    assert_eq!(ctx.chunk_count(), 2);
}

#[test]
fn session_goes_on_after_a_failed_line() {
    let mut ctx = RuntimeContext::start(false);
    let mut asked = Vec::new();
    let (_, res) = run_in(&mut ctx, "var a = 1;", &mut asked);
    assert!(res.is_ok());
    let (_, res) = run_in(&mut ctx, "print", &mut asked);
    assert!(matches!(res, Err(Failure::Compile(_))));
    let (_, res) = run_in(&mut ctx, "print b;", &mut asked);
    assert!(matches!(res, Err(Failure::Runtime(_))));
    let (out, res) = run_in(&mut ctx, "print a;", &mut asked);
    assert!(res.is_ok());
    assert_eq!(out, vec!["1"]);
    // a source that cannot be compiled leaves no chunk
    assert_eq!(ctx.chunk_count(), 3);
}

#[test]
fn a_chunk_can_be_run_again() {
    let mut ctx = RuntimeContext::start(false);
    let id = ctx.compile("print \"again\";").unwrap();
    for _ in 0..2 {
        match ctx.exec(id, 10) {
            Ok(Action::Print(line)) => assert_eq!(line, "again"),
            other => panic!("{:?}", other),
        }
        assert!(matches!(ctx.exec(id, 10), Ok(Action::Halt)));
    }
}

#[test]
fn fuel_bounds_a_run() {
    let mut ctx = RuntimeContext::start(false);
    let id = ctx.compile("while (true) {}").unwrap();
    for _ in 0..5 {
        assert!(matches!(ctx.exec(id, 7), Ok(Action::Continue)));
        assert_eq!(ctx.running_chunk(), Some(id));
    }
    assert!(matches!(ctx.exec(id, 0), Ok(Action::Continue)));
}

#[test]
fn truthiness() {
    assert_eq!(output("if (0) print 1; else print 2;"), vec!["1"]);
    assert_eq!(output("if (\"\") print 1; else print 2;"), vec!["1"]);
    assert_eq!(output("if (nil) print 1; else print 2;"), vec!["2"]);
}

#[test]
fn equality_within_a_variant() {
    assert_eq!(output("print nil == nil;"), vec!["true"]);
    assert_eq!(output("print 1 == 1;"), vec!["true"]);
    assert_eq!(output("print 1 != 1;"), vec!["false"]);
    assert_eq!(output("print \"a\" == \"b\";"), vec!["false"]);
    assert_eq!(output("print true == true;"), vec!["true"]);
}

#[test]
fn equality_across_variants_is_a_runtime_error() {
    let (_, res) = run("print 1 == \"1\";");
    match res {
        Err(Failure::Runtime(RuntimeError::IllegalOp(op, left, right))) => {
            assert_eq!(op, rs_lox::OpCode::EQUAL);
            assert!(matches!(left, Value::Float(_)));
            assert!(matches!(right, Value::String(_)));
        }
        other => panic!("{:?}", other),
    }
}

#[test]
fn comparisons() {
    assert_eq!(output("print 1 < 2;"), vec!["true"]);
    assert_eq!(output("print 2 < 1;"), vec!["false"]);
    assert_eq!(output("print 2 > 1;"), vec!["true"]);
    assert_eq!(output("print 1 <= 1;"), vec!["true"]);
    assert_eq!(output("print 1 >= 2;"), vec!["false"]);
    assert_eq!(output("print true > false;"), vec!["true"]);
    assert_eq!(output("print false > true;"), vec!["false"]);
    assert_eq!(output("print true > true;"), vec!["false"]);
}

#[test]
fn unary_operators() {
    assert_eq!(output("print -3;"), vec!["-3"]);
    assert_eq!(output("print --3;"), vec!["3"]);
    assert_eq!(output("print !true;"), vec!["false"]);
    assert_eq!(output("print !nil;"), vec!["true"]);
    assert_eq!(output("print -nil;"), vec!["Nil"]);
    assert_eq!(output("print -2 * 3;"), vec!["-6"]);
}

#[test]
fn unary_operator_on_the_wrong_variant_is_a_runtime_error() {
    let (_, res) = run("print -\"a\";");
    match res {
        Err(Failure::Runtime(RuntimeError::IllegalUnaryOp(op, operand))) => {
            assert_eq!(op, rs_lox::OpCode::NEGATE);
            assert!(matches!(operand, Value::String(s) if s == "a"));
        }
        other => panic!("{:?}", other),
    }
    let (_, res) = run("print !1;");
    assert!(matches!(
        res,
        Err(Failure::Runtime(RuntimeError::IllegalUnaryOp(rs_lox::OpCode::NOT, Value::Float(_))))
    ));
}

#[test]
fn arithmetic_across_variants_is_a_runtime_error() {
    let (_, res) = run("print 1 + true;");
    assert!(matches!(
        res,
        Err(Failure::Runtime(RuntimeError::IllegalOp(rs_lox::OpCode::ADD, _, _)))
    ));
    let (_, res) = run("print \"a\" - \"b\";");
    assert!(matches!(
        res,
        Err(Failure::Runtime(RuntimeError::IllegalOp(rs_lox::OpCode::SUB, _, _)))
    ));
}

#[test]
fn text_and_number_are_joined() {
    assert_eq!(output("print \"n = \" + 1.5;"), vec!["n = 1.5"]);
    assert_eq!(output("print 2 + \" apples\";"), vec!["2 apples"]);
}

#[test]
fn division_of_numbers_is_the_float_unit_s() {
    assert_eq!(output("print 7 / 2;"), vec!["3.5"]);
    assert_eq!(output("print 1 / 0;"), vec!["inf"]);
    assert_eq!(output("print 8 - 3 - 2;"), vec!["3"]);
}

#[test]
fn grouping() {
    assert_eq!(output("print (1 + 2) * 3;"), vec!["9"]);
}

#[test]
fn assignment_is_an_expression() {
    assert_eq!(output("var a = 1; print a = 2; print a;"), vec!["2", "2"]);
    assert_eq!(output("{ var a = 1; print a = 2; print a; }"), vec!["2", "2"]);
}

#[test]
fn assignment_to_an_undeclared_global_is_a_runtime_error() {
    let (_, res) = run("x = 1;");
    match res {
        Err(Failure::Runtime(RuntimeError::UnknownVariable(name))) => assert_eq!(name, "x"),
        other => panic!("{:?}", other),
    }
}

#[test]
fn variable_without_a_first_value_is_nil() {
    assert_eq!(output("var a; print a;"), vec!["Nil"]);
    assert_eq!(output("{ var a; print a; }"), vec!["Nil"]);
}

#[test]
fn for_without_clauses() {
    // the parts of a `for` may be missing
    assert_eq!(
        output("var i = 0; for (; i < 2;) { print i; i = i + 1; }"),
        vec!["0", "1"]
    );
    assert_eq!(
        output("var i = 0; for (i = 5; i < 7; i = i + 1) print i;"),
        vec!["5", "6"]
    );
    let mut ctx = RuntimeContext::start(false);
    let id = ctx.compile("for (;;) {}").unwrap();
    assert!(matches!(ctx.exec(id, 100), Ok(Action::Continue)));
}

#[test]
fn nested_loops() {
    assert_eq!(
        output(
            "for (var i = 0; i < 2; i = i + 1) { var j = 0; while (j < 2) { print i * 10 + j; j = j + 1; } }"
        ),
        vec!["0", "1", "10", "11"]
    );
}

#[test]
fn deep_nesting_of_values_overflows_the_stack() {
    // each left operand waits on the stack for its right one
    let mut source = String::from("print ");
    for _ in 0..256 {
        source.push_str("true and (");
    }
    source.push_str("true");
    for _ in 0..256 {
        source.push(')');
    }
    source.push(';');
    let (_, res) = run(&source);
    assert!(matches!(
        res,
        Err(Failure::Runtime(RuntimeError::StackError(StackError::Overflow)))
    ));
}

#[test]
fn nesting_that_fills_the_stack_runs() {
    let mut source = String::from("print ");
    for _ in 0..255 {
        source.push_str("true and (");
    }
    source.push_str("true");
    for _ in 0..255 {
        source.push(')');
    }
    source.push(';');
    assert_eq!(output(&source), vec!["true"]);
}

#[test]
fn if_in_a_loop_does_not_fill_the_stack() {
    let mut ctx = RuntimeContext::start(false);
    let mut asked = Vec::new();
    let source = "var i = 0; while (i < 300) { if (i < 150) i = i + 1; else i = i + 2; } print i;";
    let (out, res) = run_in(&mut ctx, source, &mut asked);
    assert!(res.is_ok(), "{:?}", res);
    assert_eq!(out, vec!["300"]);
    assert_eq!(ctx.stack_depth(), 0);
}

#[test]
fn missing_semicolon_is_an_unexpected_token() {
    let (_, res) = run("print 1");
    match res {
        Err(Failure::Compile(CompileError::UnexpectedToken(expected, found, cite))) => {
            assert_eq!(expected, rs_lox::TokenType::Semicolon);
            assert_eq!(found, rs_lox::TokenType::EoF);
            assert_eq!(cite, " 1 | print 1\n   |        \n");
        }
        other => panic!("{:?}", other),
    }
}

#[test]
fn bad_expression_is_a_syntax_error() {
    let (_, res) = run("print ;");
    match res {
        Err(Failure::Compile(CompileError::SyntaxError(msg, cite))) => {
            assert_eq!(msg, "Bad Expression");
            // the token at hand is the one behind the `;`
            assert_eq!(cite, " 1 | print ;\n   |        \n");
        }
        other => panic!("{:?}", other),
    }
}

#[test]
fn unclosed_block_is_a_syntax_error() {
    let (_, res) = run("{ print 1;");
    match res {
        Err(Failure::Compile(CompileError::SyntaxError(msg, _))) => {
            assert_eq!(msg, "EoF without block close")
        }
        other => panic!("{:?}", other),
    }
}

#[test]
fn scanner_error_ends_the_compilation() {
    let (_, res) = run("print 1 # 2;");
    match res {
        Err(Failure::Compile(CompileError::SyntaxError(msg, cite))) => {
            assert_eq!(msg, "Couldn't identify tokens");
            assert_eq!(cite, " 1 | print 1 # 2;\n   |         ^^^^\n");
        }
        other => panic!("{:?}", other),
    }
}

#[test]
fn number_with_two_dots_is_refused() {
    let (_, res) = run("print 1.2.3;");
    assert!(matches!(res, Err(Failure::Compile(CompileError::NonASCIIChar))));
}

#[test]
fn constant_number_256_is_refused() {
    let ok = "print 1;".repeat(255);
    assert!(run(&ok).1.is_ok());
    let too_many = "print 1;".repeat(256);
    assert!(matches!(run(&too_many).1, Err(Failure::Compile(CompileError::ToManyConstants))));
}

#[test]
fn local_number_257_is_refused() {
    let mut source = String::from("{");
    for i in 0..256 {
        source.push_str(&format!("var v{};", i));
    }
    let ok = format!("{}}}", source);
    assert!(run(&ok).1.is_ok());
    source.push_str("var last;}");
    match run(&source).1 {
        Err(Failure::Compile(CompileError::SyntaxError(msg, _))) => {
            assert_eq!(msg, "Too many local variables")
        }
        other => panic!("{:?}", other),
    }
}

#[test]
fn keywords_without_a_use_are_no_expressions() {
    for source in ["fun f() {}", "class A {}", "return 1;", "this;", "super;"] {
        let (_, res) = run(source);
        assert!(
            matches!(res, Err(Failure::Compile(CompileError::SyntaxError(_, _)))),
            "{}",
            source
        );
    }
}

#[test]
fn chunk_can_be_taken_out_and_put_back() {
    let mut ctx = RuntimeContext::start(true);
    assert!(ctx.debug());
    let id = ctx.compile("print 1 == 1;").unwrap();
    assert!(ctx.has_chunk(id));
    assert!(!ctx.has_chunk(id + 1));
    let chunk = ctx.get_chunk(id);
    assert!(!ctx.has_chunk(id));
    assert_eq!(chunk.count(), 5);
    assert!(chunk.is_executable());
    ctx.put_chunk(id, chunk);
    assert!(ctx.has_chunk(id));
    let mut asked = Vec::new();
    let mut res = ctx.exec(id, 100);
    let mut out = Vec::new();
    loop {
        match res {
            Ok(Action::Halt) => break,
            Ok(Action::Continue) => res = ctx.exec(id, 100),
            Ok(Action::Print(line)) => {
                out.push(line);
                res = ctx.exec(id, 100);
            }
            Ok(Action::Float(task)) => {
                assert!(!ctx.is_idle());
                res = ctx.answer(float_unit(task, &mut asked), 100);
            }
            Err(e) => panic!("{:?}", e),
        }
    }
    assert_eq!(out, vec!["true"]);
    assert_eq!(asked.len(), 3);
    assert!(ctx.is_idle());
    assert!(ctx.stack_value(0).is_none());
}

#[test]
fn if_drops_its_condition() {
    for (source, printed) in [
        ("if (true) print 1; else print 2;", vec!["1"]),
        ("if (false) print 1; else print 2;", vec!["2"]),
        ("if (nil) print 1;", vec![]),
        ("if (0) print 1;", vec!["1"]),
        ("if (true) if (false) print 1; else print 2; else print 3;", vec!["2"]),
    ] {
        let mut ctx = RuntimeContext::start(false);
        let mut asked = Vec::new();
        let (out, res) = run_in(&mut ctx, source, &mut asked);
        assert!(res.is_ok(), "{}: {:?}", source, res);
        assert_eq!(out, printed, "{}", source);
        assert_eq!(ctx.stack_depth(), 0, "{}", source);
        assert!(ctx.stack_value(0).is_none());
    }
}

#[test]
fn local_behind_an_if_is_in_its_slot() {
    let mut ctx = RuntimeContext::start(false);
    let mut asked = Vec::new();
    let source = "if (true) print 1; { var a = 2; print a; }";
    let (out, res) = run_in(&mut ctx, source, &mut asked);
    assert!(res.is_ok(), "{:?}", res);
    assert_eq!(out, vec!["1", "2"]);
    assert_eq!(ctx.stack_depth(), 0);
    // and in a later chunk of the session
    let (out, res) = run_in(&mut ctx, "{ var b = 3; if (b) { var c = b + 1; print c; } print b; }", &mut asked);
    assert!(res.is_ok(), "{:?}", res);
    assert_eq!(out, vec!["4", "3"]);
    assert_eq!(ctx.stack_depth(), 0);
}

#[test]
fn programs_leave_the_stack_as_deep_as_it_was() {
    let sources = [
        "var a = 1; a = a + 1; print a;",
        "{ var b = 2; { var c = b; c = c * 2; } }",
        "var n = 0; while (n < 3) n = n + 1;",
        "for (var i = 0; i < 3; i = i + 1) { print i and true or false; }",
        "print !(1 < 2) or -3 == 0 - 3;",
        "if (1 < 2) { var d = 1; print d; } else print 0;",
        "var m = 0; while (m < 3) if (m == 1) m = m + 2; else m = m + 1;",
    ];
    for source in sources {
        let mut ctx = RuntimeContext::start(false);
        let mut asked = Vec::new();
        let (_, res) = run_in(&mut ctx, source, &mut asked);
        assert!(res.is_ok(), "{}: {:?}", source, res);
        assert_eq!(ctx.stack_depth(), 0, "{}", source);
    }
    // on top of a value that a run which failed has left
    let mut ctx = RuntimeContext::start(false);
    let mut asked = Vec::new();
    let (_, res) = run_in(&mut ctx, "nil == missing;", &mut asked);
    assert!(matches!(res, Err(Failure::Runtime(RuntimeError::UnknownVariable(_)))));
    assert_eq!(ctx.stack_depth(), 1);
    for source in [sources[0], sources[2], sources[4], sources[6]] {
        let (_, res) = run_in(&mut ctx, source, &mut asked);
        assert!(res.is_ok(), "{}: {:?}", source, res);
        assert_eq!(ctx.stack_depth(), 1, "{}", source);
    }
}

#[test]
fn local_is_the_stack_slot_of_its_number() {
    // with a value below them, the locals of a chunk are not where their slots say
    let mut ctx = RuntimeContext::start(false);
    let mut asked = Vec::new();
    let (_, res) = run_in(&mut ctx, "nil == missing;", &mut asked);
    assert!(res.is_err());
    assert!(matches!(ctx.stack_value(0), Some(Value::Nil)));
    let (out, res) = run_in(&mut ctx, "{ var a = 5; print a; }", &mut asked);
    assert!(res.is_ok());
    assert_eq!(out, vec!["Nil"]);
}
