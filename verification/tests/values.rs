use rs_lox::{ArithOp, Evaluated, FloatAnswer, FloatTask, OpCode, Pending, Value};

fn done(e: Evaluated) -> Value {
    match e {
        Evaluated::Done(v) => v,
        other => panic!("{:?}", other),
    }
}

fn text(s: &str) -> Value {
    Value::String(s.to_string())
}

#[test]
fn integer_arithmetic() {
    assert!(matches!(done(Value::Int(2).add(Value::Int(3))), Value::Int(5)));
    assert!(matches!(done(Value::Int(2).sub(Value::Int(3))), Value::Int(-1)));
    assert!(matches!(done(Value::Int(-4).mul(Value::Int(3))), Value::Int(-12)));
    assert!(matches!(done(Value::Int(7).div(Value::Int(2))), Value::Int(3)));
}

#[test]
fn integer_division_rounds_towards_zero() {
    assert!(matches!(done(Value::Int(-7).div(Value::Int(2))), Value::Int(-3)));
    assert!(matches!(done(Value::Int(7).div(Value::Int(-2))), Value::Int(-3)));
    assert!(matches!(done(Value::Int(-7).div(Value::Int(-2))), Value::Int(3)));
    assert!(matches!(done(Value::Int(i32::MIN).div(Value::Int(1))), Value::Int(i32::MIN)));
    assert!(matches!(done(Value::Int(0).div(Value::Int(-5))), Value::Int(0)));
}

#[test]
fn integer_results_that_do_not_fit_are_nil() {
    assert!(matches!(done(Value::Int(i32::MAX).add(Value::Int(1))), Value::Nil));
    assert!(matches!(done(Value::Int(i32::MIN).sub(Value::Int(1))), Value::Nil));
    assert!(matches!(done(Value::Int(65536).mul(Value::Int(65536))), Value::Nil));
    assert!(matches!(done(Value::Int(1).div(Value::Int(0))), Value::Nil));
    assert!(matches!(done(Value::Int(i32::MIN).div(Value::Int(-1))), Value::Nil));
}

#[test]
fn numbers_are_left_to_the_float_unit() {
    match Value::Float(1).add(Value::Float(2)) {
        Evaluated::Ask(FloatTask::Arith(ArithOp::Add, 1, 2), Pending::Number) => {}
        other => panic!("{:?}", other),
    }
    match Value::Float(1).sub(Value::Float(2)) {
        Evaluated::Ask(FloatTask::Arith(ArithOp::Sub, 1, 2), Pending::Number) => {}
        other => panic!("{:?}", other),
    }
    match Value::Float(1).mul(Value::Float(2)) {
        Evaluated::Ask(FloatTask::Arith(ArithOp::Mul, 1, 2), Pending::Number) => {}
        other => panic!("{:?}", other),
    }
    match Value::Float(1).div(Value::Float(2)) {
        Evaluated::Ask(FloatTask::Arith(ArithOp::Div, 1, 2), Pending::Number) => {}
        other => panic!("{:?}", other),
    }
    match Value::Float(1).eq(Value::Float(2)) {
        Evaluated::Ask(FloatTask::Equal(1, 2), Pending::Truth) => {}
        other => panic!("{:?}", other),
    }
    match Value::Float(1).greater(Value::Float(2)) {
        Evaluated::Ask(FloatTask::Greater(1, 2), Pending::Truth) => {}
        other => panic!("{:?}", other),
    }
}

#[test]
fn text_and_number_wait_for_the_text_of_the_number() {
    match text("a").add(Value::Float(9)) {
        Evaluated::Ask(FloatTask::Text(9), Pending::After(s)) => assert_eq!(s, "a"),
        other => panic!("{:?}", other),
    }
    match Value::Float(9).add(text("b")) {
        Evaluated::Ask(FloatTask::Text(9), Pending::Before(s)) => assert_eq!(s, "b"),
        other => panic!("{:?}", other),
    }
}

#[test]
fn pending_work_is_finished_with_the_answer() {
    assert!(matches!(Pending::Number.finish(FloatAnswer::Bits(5)), Value::Float(5)));
    assert!(matches!(Pending::Truth.finish(FloatAnswer::Truth(true)), Value::Bool(true)));
    match Pending::After("n = ".to_string()).finish(FloatAnswer::Text("1.5".to_string())) {
        Value::String(s) => assert_eq!(s, "n = 1.5"),
        other => panic!("{:?}", other),
    }
    match Pending::Before(" apples".to_string()).finish(FloatAnswer::Text("2".to_string())) {
        Value::String(s) => assert_eq!(s, "2 apples"),
        other => panic!("{:?}", other),
    }
}

#[test]
fn pending_work_accepts_only_the_answer_it_waits_for() {
    let answers =
        [FloatAnswer::Bits(0), FloatAnswer::Truth(false), FloatAnswer::Text(String::new())];
    let table = [
        (Pending::Number, [true, false, false]),
        (Pending::Truth, [false, true, false]),
        (Pending::After(String::new()), [false, false, true]),
        (Pending::Before(String::new()), [false, false, true]),
    ];
    for (pending, expected) in table.iter() {
        for (answer, yes) in answers.iter().zip(expected.iter()) {
            assert_eq!(pending.accepts(answer), *yes);
        }
    }
}

#[test]
fn texts_are_joined() {
    match done(text("foo").add(text("bar"))) {
        Value::String(s) => assert_eq!(s, "foobar"),
        other => panic!("{:?}", other),
    }
}

#[test]
fn operations_across_variants_are_nil() {
    assert!(matches!(done(Value::Int(1).add(Value::Bool(true))), Value::Nil));
    assert!(matches!(done(Value::Int(1).add(Value::Float(1))), Value::Nil));
    assert!(matches!(done(text("a").add(Value::Int(1))), Value::Nil));
    assert!(matches!(done(text("a").sub(text("b"))), Value::Nil));
    assert!(matches!(done(Value::Nil.mul(Value::Nil)), Value::Nil));
    assert!(matches!(done(Value::Bool(true).div(Value::Bool(true))), Value::Nil));
    assert!(matches!(done(Value::Int(1).eq(Value::Bool(true))), Value::Nil));
    assert!(matches!(done(Value::Nil.eq(Value::Bool(false))), Value::Nil));
    assert!(matches!(done(text("a").greater(text("b"))), Value::Nil));
    assert!(matches!(done(Value::Nil.greater(Value::Nil)), Value::Nil));
}

#[test]
fn values_are_equal_within_a_variant() {
    assert!(matches!(done(Value::Int(1).eq(Value::Int(1))), Value::Bool(true)));
    assert!(matches!(done(Value::Int(1).eq(Value::Int(2))), Value::Bool(false)));
    assert!(matches!(done(text("a").eq(text("a"))), Value::Bool(true)));
    assert!(matches!(done(text("a").eq(text("b"))), Value::Bool(false)));
    assert!(matches!(done(Value::Bool(false).eq(Value::Bool(false))), Value::Bool(true)));
    assert!(matches!(done(Value::Bool(false).eq(Value::Bool(true))), Value::Bool(false)));
    assert!(matches!(done(Value::Nil.eq(Value::Nil)), Value::Bool(true)));
}

#[test]
fn greater() {
    assert!(matches!(done(Value::Int(2).greater(Value::Int(1))), Value::Bool(true)));
    assert!(matches!(done(Value::Int(1).greater(Value::Int(1))), Value::Bool(false)));
    assert!(matches!(done(Value::Bool(true).greater(Value::Bool(false))), Value::Bool(true)));
    assert!(matches!(done(Value::Bool(true).greater(Value::Bool(true))), Value::Bool(false)));
    assert!(matches!(done(Value::Bool(false).greater(Value::Bool(true))), Value::Bool(false)));
}

#[test]
fn values_count_as_true_or_false() {
    assert!(!Value::Nil.truthy());
    assert!(!Value::Bool(false).truthy());
    assert!(Value::Bool(true).truthy());
    assert!(Value::Int(0).truthy());
    assert!(Value::Float(0).truthy());
    assert!(text("").truthy());
}

#[test]
fn and_or_of_truthiness() {
    assert!(matches!(Value::Int(0).and(Value::Bool(true)), Value::Bool(true)));
    assert!(matches!(Value::Nil.and(Value::Bool(true)), Value::Bool(false)));
    assert!(matches!(Value::Nil.or(Value::Bool(false)), Value::Bool(false)));
    assert!(matches!(Value::Nil.or(text("")), Value::Bool(true)));
}

#[test]
fn text_of_a_value() {
    assert_eq!(Value::Nil.to_text().unwrap(), "Nil");
    assert_eq!(Value::Bool(true).to_text().unwrap(), "true");
    assert_eq!(Value::Bool(false).to_text().unwrap(), "false");
    assert_eq!(Value::Int(0).to_text().unwrap(), "0");
    assert_eq!(Value::Int(1203).to_text().unwrap(), "1203");
    assert_eq!(Value::Int(-45).to_text().unwrap(), "-45");
    assert_eq!(Value::Int(i32::MAX).to_text().unwrap(), "2147483647");
    assert_eq!(Value::Int(i32::MIN).to_text().unwrap(), "-2147483648");
    assert_eq!(text("as it is").to_text().unwrap(), "as it is");
    assert!(Value::Float(0).to_text().is_none());
}

#[test]
fn values_from_plain_values() {
    assert!(matches!(Value::from(3), Value::Int(3)));
    assert!(matches!(Value::from(true), Value::Bool(true)));
}

#[test]
fn value_of_a_literal_instruction() {
    assert!(matches!(Value::of_literal(OpCode::NIL), Some(Value::Nil)));
    assert!(matches!(Value::of_literal(OpCode::TRUE), Some(Value::Bool(true))));
    assert!(matches!(Value::of_literal(OpCode::FALSE), Some(Value::Bool(false))));
    assert!(Value::of_literal(OpCode::ADD).is_none());
}

#[test]
fn clone_keeps_the_value() {
    match text("kept").clone() {
        Value::String(s) => assert_eq!(s, "kept"),
        other => panic!("{:?}", other),
    }
    assert!(matches!(Value::Float(77).clone(), Value::Float(77)));
}
