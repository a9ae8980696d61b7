use rs_lox::opcode::op_comp;
use rs_lox::{
    Action, Chunk, Constant, FloatAnswer, FloatTask, OpCode, RuntimeError, Stack, StackError,
    Value, VarStore, VM,
};

fn chunk_of(ops: &[OpCode], consts: Vec<Constant>) -> Chunk {
    let mut chunk = Chunk::new();
    for c in consts {
        chunk.add_const(c);
    }
    for op in ops {
        chunk.add_op(*op, 1);
    }
    chunk
}

fn machine(ops: &[OpCode], consts: Vec<Constant>) -> VM {
    let chunk = chunk_of(ops, consts);
    assert!(chunk.is_executable());
    let mut vm = VM::init(false);
    vm.load_chunk(chunk);
    assert!(vm.is_ready());
    vm
}

fn name(s: &str) -> Constant {
    Constant::Text(s.to_string())
}

#[test]
fn literals_are_pushed() {
    let mut vm = machine(&[OpCode::NIL, OpCode::TRUE, OpCode::FALSE, OpCode::RETURN], vec![]);
    assert!(matches!(vm.run(10), Ok(Action::Halt)));
    assert_eq!(vm.stack_depth(), 3);
    assert!(matches!(vm.stack_value(0), Some(Value::Nil)));
    assert!(matches!(vm.stack_value(1), Some(Value::Bool(true))));
    assert!(matches!(vm.stack_value(2), Some(Value::Bool(false))));
    assert!(vm.stack_value(3).is_none());
}

#[test]
fn return_halts_again_and_again() {
    let mut vm = machine(&[OpCode::RETURN], vec![]);
    assert!(matches!(vm.step(), Ok(Action::Halt)));
    assert!(matches!(vm.step(), Ok(Action::Halt)));
    assert!(vm.is_ready());
}

#[test]
fn text_constant_is_pushed_and_number_constant_is_parsed_by_the_host() {
    let mut vm = machine(
        &[OpCode::CONSTANT(0), OpCode::CONSTANT(1), OpCode::RETURN],
        vec![name("t"), Constant::Number("2.5".to_string())],
    );
    assert!(matches!(vm.step(), Ok(Action::Continue)));
    assert!(matches!(vm.stack_value(0), Some(Value::String(s)) if s == "t"));
    match vm.step() {
        Ok(Action::Float(FloatTask::Parse(text))) => assert_eq!(text, "2.5"),
        other => panic!("{:?}", other),
    }
    assert!(!vm.is_ready());
    assert!(!vm.waits_for_nothing());
    assert!(vm.awaits(&FloatAnswer::Bits(0)));
    assert!(!vm.awaits(&FloatAnswer::Truth(true)));
    assert!(!vm.awaits(&FloatAnswer::Text(String::new())));
    assert!(matches!(vm.resume(FloatAnswer::Bits(0x40200000)), Ok(Action::Continue)));
    assert!(matches!(vm.stack_value(1), Some(Value::Float(0x40200000))));
    assert!(vm.is_ready());
    assert!(matches!(vm.step(), Ok(Action::Halt)));
}

#[test]
fn print_hands_the_text_out() {
    let mut vm = machine(&[OpCode::TRUE, OpCode::PRINT, OpCode::RETURN], vec![]);
    match vm.run(10) {
        Ok(Action::Print(line)) => assert_eq!(line, "true"),
        other => panic!("{:?}", other),
    }
    assert_eq!(vm.stack_depth(), 0);
    assert!(matches!(vm.run(10), Ok(Action::Halt)));
}

#[test]
fn print_of_a_number_waits_for_its_text() {
    let mut vm =
        machine(&[OpCode::CONSTANT(0), OpCode::PRINT, OpCode::RETURN], vec![Constant::Number(
            "1".to_string(),
        )]);
    assert!(matches!(vm.run(10), Ok(Action::Float(FloatTask::Parse(_)))));
    assert!(matches!(vm.resume(FloatAnswer::Bits(7)), Ok(Action::Continue)));
    assert!(matches!(vm.run(10), Ok(Action::Float(FloatTask::Text(7)))));
    assert!(vm.awaits(&FloatAnswer::Text(String::new())));
    assert!(!vm.awaits(&FloatAnswer::Bits(0)));
    match vm.resume(FloatAnswer::Text("one".to_string())) {
        Ok(Action::Print(line)) => assert_eq!(line, "one"),
        other => panic!("{:?}", other),
    }
    assert_eq!(vm.stack_depth(), 0);
    assert!(matches!(vm.run(10), Ok(Action::Halt)));
}

#[test]
fn negate_and_not() {
    let mut vm = machine(&[OpCode::NIL, OpCode::NOT, OpCode::NOT, OpCode::RETURN], vec![]);
    assert!(matches!(vm.run(2), Ok(Action::Continue)));
    assert!(matches!(vm.stack_value(0), Some(Value::Bool(true))));
    assert!(matches!(vm.run(5), Ok(Action::Halt)));
    assert!(matches!(vm.stack_value(0), Some(Value::Bool(false))));
    let mut vm = machine(&[OpCode::NIL, OpCode::NEGATE, OpCode::RETURN], vec![]);
    assert!(matches!(vm.run(5), Ok(Action::Halt)));
    assert!(matches!(vm.stack_value(0), Some(Value::Nil)));
}

#[test]
fn negate_of_a_number_is_the_float_unit_s() {
    let mut vm =
        machine(&[OpCode::CONSTANT(0), OpCode::NEGATE, OpCode::RETURN], vec![Constant::Number(
            "1".to_string(),
        )]);
    assert!(matches!(vm.run(10), Ok(Action::Float(FloatTask::Parse(_)))));
    assert!(matches!(vm.resume(FloatAnswer::Bits(3)), Ok(Action::Continue)));
    assert!(matches!(vm.run(10), Ok(Action::Float(FloatTask::Negate(3)))));
    assert!(matches!(vm.resume(FloatAnswer::Bits(4)), Ok(Action::Continue)));
    assert!(matches!(vm.stack_value(0), Some(Value::Float(4))));
}

#[test]
fn unary_on_the_wrong_variant_stops_the_machine() {
    let mut vm = machine(&[OpCode::TRUE, OpCode::NEGATE, OpCode::RETURN], vec![]);
    match vm.run(10) {
        Err(RuntimeError::IllegalUnaryOp(OpCode::NEGATE, Value::Bool(true))) => {}
        other => panic!("{:?}", other),
    }
    // the operand is off the stack
    assert_eq!(vm.stack_depth(), 0);
}

#[test]
fn pop_from_the_empty_stack_is_an_underflow() {
    for op in [
        OpCode::POP,
        OpCode::PRINT,
        OpCode::NOT,
        OpCode::ADD,
        OpCode::DEFINE_GLOBAL(0),
        OpCode::JUMP_IF_FALSE(0),
        OpCode::SET_LOCAL(0),
        OpCode::GET_LOCAL(0),
    ] {
        let mut vm = machine(&[op, OpCode::RETURN], vec![name("g")]);
        assert!(
            matches!(vm.run(10), Err(RuntimeError::StackError(StackError::Underflow))),
            "{:?}",
            op
        );
    }
}

#[test]
fn binary_with_one_operand_is_an_underflow_and_takes_the_operand() {
    let mut vm = machine(&[OpCode::TRUE, OpCode::AND, OpCode::RETURN], vec![]);
    assert!(matches!(vm.run(10), Err(RuntimeError::StackError(StackError::Underflow))));
    assert_eq!(vm.stack_depth(), 0);
}

#[test]
fn push_on_the_full_stack_is_an_overflow() {
    let mut vm = machine(&[OpCode::NIL, OpCode::JUMP(0), OpCode::RETURN], vec![]);
    assert!(matches!(vm.run(511), Ok(Action::Continue)));
    assert_eq!(vm.stack_depth(), 256);
    assert!(matches!(vm.run(10), Err(RuntimeError::StackError(StackError::Overflow))));
    assert_eq!(vm.stack_depth(), 256);
}

#[test]
fn globals_are_defined_read_and_set() {
    let mut vm = machine(
        &[
            OpCode::TRUE,
            OpCode::DEFINE_GLOBAL(0),
            OpCode::GET_GLOBAL(0),
            OpCode::FALSE,
            OpCode::SET_GLOBAL(0),
            OpCode::RETURN,
        ],
        vec![name("g")],
    );
    assert!(vm.global("g").is_none());
    assert!(matches!(vm.run(2), Ok(Action::Continue)));
    assert!(matches!(vm.global("g"), Some(Value::Bool(true))));
    assert_eq!(vm.stack_depth(), 0);
    assert!(matches!(vm.run(10), Ok(Action::Halt)));
    // the value that was set stays on the stack
    assert_eq!(vm.stack_depth(), 2);
    assert!(matches!(vm.global("g"), Some(Value::Bool(false))));
}

#[test]
fn unknown_globals_stop_the_machine() {
    let mut vm = machine(&[OpCode::GET_GLOBAL(0), OpCode::RETURN], vec![name("g")]);
    assert!(matches!(vm.run(10), Err(RuntimeError::UnknownVariable(n)) if n == "g"));
    let mut vm = machine(&[OpCode::SET_GLOBAL(0), OpCode::RETURN], vec![name("h")]);
    // the name is looked up before the stack
    assert!(matches!(vm.run(10), Err(RuntimeError::UnknownVariable(n)) if n == "h"));
}

#[test]
fn locals_are_stack_slots() {
    let mut vm = machine(
        &[
            OpCode::TRUE,
            OpCode::NIL,
            OpCode::GET_LOCAL(0),
            OpCode::SET_LOCAL(1),
            OpCode::GET_LOCAL(5),
            OpCode::RETURN,
        ],
        vec![],
    );
    assert!(matches!(vm.run(4), Ok(Action::Continue)));
    assert_eq!(vm.stack_depth(), 3);
    assert!(matches!(vm.stack_value(1), Some(Value::Bool(true))));
    assert!(matches!(vm.stack_value(2), Some(Value::Bool(true))));
    // a slot that the stack does not reach
    assert!(matches!(vm.run(4), Err(RuntimeError::StackError(StackError::Underflow))));
}

#[test]
fn jump_if_false_leaves_the_value() {
    let mut vm = machine(
        &[OpCode::FALSE, OpCode::JUMP_IF_FALSE(3), OpCode::TRUE, OpCode::RETURN],
        vec![],
    );
    assert!(matches!(vm.run(10), Ok(Action::Halt)));
    assert_eq!(vm.stack_depth(), 1);
    assert!(matches!(vm.stack_value(0), Some(Value::Bool(false))));
    let mut vm = machine(
        &[OpCode::TRUE, OpCode::JUMP_IF_FALSE(3), OpCode::NIL, OpCode::RETURN],
        vec![],
    );
    assert!(matches!(vm.run(10), Ok(Action::Halt)));
    assert_eq!(vm.stack_depth(), 2);
}

#[test]
fn run_stops_when_the_fuel_is_used_up() {
    let mut vm = machine(&[OpCode::JUMP(0), OpCode::RETURN], vec![]);
    assert!(matches!(vm.run(0), Ok(Action::Continue)));
    assert!(matches!(vm.run(1000), Ok(Action::Continue)));
    assert!(vm.is_ready());
}

#[test]
fn stack_and_globals_stay_when_the_chunk_changes() {
    let mut vm = machine(&[OpCode::TRUE, OpCode::TRUE, OpCode::DEFINE_GLOBAL(0), OpCode::RETURN], vec![
        name("kept"),
    ]);
    assert!(matches!(vm.run(10), Ok(Action::Halt)));
    let chunk = vm.unload_chunk();
    assert_eq!(chunk.count(), 4);
    assert!(!vm.is_ready());
    vm.load_chunk(chunk_of(&[OpCode::GET_GLOBAL(0), OpCode::RETURN], vec![name("kept")]));
    assert!(matches!(vm.run(10), Ok(Action::Halt)));
    assert_eq!(vm.stack_depth(), 2);
}

#[test]
fn chunks_that_cannot_be_run() {
    assert!(!Chunk::new().is_executable());
    assert!(!chunk_of(&[OpCode::NIL], vec![]).is_executable());
    assert!(!chunk_of(&[OpCode::JUMP(2), OpCode::RETURN], vec![]).is_executable());
    assert!(chunk_of(&[OpCode::JUMP(1), OpCode::RETURN], vec![]).is_executable());
    assert!(!chunk_of(&[OpCode::JUMP_IF_FALSE(9), OpCode::RETURN], vec![]).is_executable());
    assert!(!chunk_of(&[OpCode::CONSTANT(0), OpCode::RETURN], vec![]).is_executable());
    assert!(!chunk_of(&[OpCode::GET_GLOBAL(0), OpCode::RETURN], vec![Constant::Number(
        "1".to_string()
    )])
    .is_executable());
    assert!(!chunk_of(&[OpCode::CONSTANT(0), OpCode::RETURN], vec![Constant::Number(
        "1.2.3".to_string()
    )])
    .is_executable());
    assert!(!chunk_of(&[OpCode::CONSTANT(0), OpCode::RETURN], vec![Constant::Number(
        ".5".to_string()
    )])
    .is_executable());
    assert!(chunk_of(&[OpCode::CONSTANT(0), OpCode::RETURN], vec![Constant::Number(
        "10.25".to_string()
    )])
    .is_executable());
    let mut vm = VM::init(true);
    assert!(vm.debug());
    vm.load_chunk(chunk_of(&[OpCode::NIL], vec![]));
    assert!(!vm.is_ready());
    assert!(!vm.is_sound());
}

#[test]
fn chunk_keeps_instructions_lines_and_constants() {
    let mut chunk = Chunk::new();
    assert_eq!(chunk.count(), 0);
    assert!(chunk.read_op(0).is_none());
    chunk.add_op(OpCode::JUMP(0), 3);
    chunk.add_op(OpCode::NIL, 4);
    assert_eq!(chunk.add_const(name("a")), 0);
    assert_eq!(chunk.add_const(Constant::Number("1".to_string())), 1);
    assert_eq!(chunk.count(), 2);
    assert_eq!(chunk.const_count(), 2);
    assert_eq!(chunk.read_op(0), Some(&OpCode::JUMP(0)));
    assert_eq!(chunk.read_op(1), Some(&OpCode::NIL));
    assert!(chunk.read_op(2).is_none());
    assert_eq!(chunk.get_line_num(0), 3);
    assert_eq!(chunk.get_line_num(1), 4);
    assert!(matches!(chunk.read_const(0), Constant::Text(s) if s == "a"));
    assert!(matches!(chunk.read_const(1), Constant::Number(s) if s == "1"));
    assert!(chunk.ops_match(OpCode::JUMP(7), 0));
    assert!(!chunk.ops_match(OpCode::JUMP_IF_FALSE(7), 0));
    chunk.patch_op(OpCode::JUMP(2), 0);
    assert_eq!(chunk.read_op(0), Some(&OpCode::JUMP(2)));
    assert_eq!(chunk.get_line_num(0), 3);
    chunk.add_op(OpCode::JUMP(0), 5);
    chunk.patch_multip_op(OpCode::JUMP(1), &[0, 2]);
    assert_eq!(chunk.read_op(0), Some(&OpCode::JUMP(1)));
    assert_eq!(chunk.read_op(2), Some(&OpCode::JUMP(1)));
    assert!(!chunk.is_frozen());
    chunk.add_op(OpCode::RETURN, 6);
    assert!(chunk.is_frozen());
}

#[test]
fn instructions_of_one_kind() {
    assert!(op_comp(OpCode::CONSTANT(1), OpCode::CONSTANT(2)));
    assert!(op_comp(OpCode::ADD, OpCode::ADD));
    assert!(!op_comp(OpCode::GET_LOCAL(1), OpCode::SET_LOCAL(1)));
    assert!(!op_comp(OpCode::JUMP(1), OpCode::JUMP_IF_FALSE(1)));
    assert_eq!(OpCode::RETURN.kind_number(), 0);
    assert_eq!(OpCode::JUMP(0).kind_number(), 24);
}

#[test]
fn stack_is_last_in_first_out() {
    let mut stack = Stack::init();
    assert!(stack.peek().is_none());
    assert!(matches!(stack.pop(), Err(StackError::Underflow)));
    assert!(stack.push(Value::Int(1)).is_ok());
    assert!(stack.push(Value::Int(2)).is_ok());
    assert_eq!(stack.top(), 2);
    assert!(matches!(stack.peek(), Some(Value::Int(2))));
    assert!(matches!(stack.peek_at(0), Some(Value::Int(1))));
    assert!(stack.peek_at(2).is_none());
    assert!(stack.put_at(0, Value::Int(9)).is_ok());
    assert!(matches!(stack.put_at(2, Value::Int(9)), Err(StackError::Underflow)));
    assert!(matches!(stack.pop(), Ok(Value::Int(2))));
    assert!(matches!(stack.pop(), Ok(Value::Int(9))));
    assert!(matches!(stack.pop(), Err(StackError::Underflow)));
}

#[test]
fn stack_holds_256_values() {
    let mut stack = Stack::init();
    for i in 0..256 {
        assert!(stack.push(Value::Int(i)).is_ok());
    }
    assert!(matches!(stack.push(Value::Nil), Err(StackError::Overflow)));
    assert_eq!(stack.top(), 256);
    assert!(matches!(stack.peek(), Some(Value::Int(255))));
}

#[test]
fn store_binds_names() {
    let mut store = VarStore::new();
    assert!(!store.contains("a"));
    assert!(store.get("a").is_none());
    store.put("a".to_string(), Value::Int(1));
    store.put("b".to_string(), Value::Int(2));
    assert!(store.contains("a"));
    assert!(matches!(store.get("a"), Some(Value::Int(1))));
    store.put("a".to_string(), Value::Int(3));
    assert!(matches!(store.get("a"), Some(Value::Int(3))));
    assert!(matches!(store.get("b"), Some(Value::Int(2))));
    assert!(!store.contains("c"));
    assert!(!store.contains(""));
}
