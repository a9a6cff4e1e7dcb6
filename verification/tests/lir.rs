use num::BigInt;
use nyar::ast::{Expression, Literal, Program, Statement};
use nyar::compiler::{BinaryOperator, LiteralValue};
use nyar::error::{HeapErrorKind, NyarErrorKind, VmError};
use nyar::instruction::ConstantValue;
use nyar::lir::{CodeBlock, Interpreter, NyarInstruction, OpCode};
use nyar::runtime::{Runtime, StdLib};
use nyar::value::{Value, ValueHandler};

#[test]
fn block_hands_out_indices() {
    let mut block = CodeBlock::new();
    assert_eq!(block.add_constant(ConstantValue::Null), 0);
    assert_eq!(block.add_constant(ConstantValue::Boolean(true)), 1);
    assert_eq!(block.add_local("x"), 0);
    assert_eq!(block.add_local("y"), 1);
    block.add_instruction(NyarInstruction::new(OpCode::Push, vec![1]));
    block.add_instruction(NyarInstruction::simple(OpCode::Pop));
    assert_eq!(block.instructions.len(), 2);
    assert_eq!(block.instructions[0].operands, vec![1]);
    assert!(block.instructions[1].operands.is_empty());
    assert_eq!(block.locals, vec!["x".to_string(), "y".to_string()]);
}

#[test]
fn compact_code_moves_values_between_stack_and_locals() {
    let mut interpreter = Interpreter::new();
    let constants = vec![ConstantValue::Integer(BigInt::from(7)), ConstantValue::Boolean(false)];
    let run = |interpreter: &mut Interpreter, opcode: OpCode, operands: Vec<usize>| {
        interpreter.execute_instruction(&constants, &NyarInstruction::new(opcode, operands))
    };
    run(&mut interpreter, OpCode::Push, vec![0]).unwrap();
    run(&mut interpreter, OpCode::StoreLocal, vec![2]).unwrap();
    assert_eq!(interpreter.locals.len(), 3);
    assert_eq!(interpreter.locals[0], interpreter.locals[1]);
    run(&mut interpreter, OpCode::LoadLocal, vec![2]).unwrap();
    run(&mut interpreter, OpCode::Dup, vec![]).unwrap();
    assert_eq!(interpreter.vm.context.value_stack.len(), 2);
    assert_eq!(interpreter.vm.context.instruction_pointer, 4);
    run(&mut interpreter, OpCode::Jump, vec![9]).unwrap();
    assert_eq!(interpreter.vm.context.instruction_pointer, 9);
    run(&mut interpreter, OpCode::Push, vec![1]).unwrap();
    run(&mut interpreter, OpCode::JumpIf, vec![3]).unwrap();
    assert_eq!(interpreter.vm.context.instruction_pointer, 11);
    run(&mut interpreter, OpCode::Push, vec![1]).unwrap();
    run(&mut interpreter, OpCode::JumpIfNot, vec![3]).unwrap();
    assert_eq!(interpreter.vm.context.instruction_pointer, 3);
    assert!(matches!(
        run(&mut interpreter, OpCode::LoadLocal, vec![5]),
        Err(VmError::IndexOutOfBounds { index: 5, length: 3 })
    ));
    assert!(matches!(run(&mut interpreter, OpCode::Push, vec![]), Err(VmError::RuntimeError(_))));
    assert!(matches!(run(&mut interpreter, OpCode::Add, vec![]), Err(VmError::RuntimeError(_))));
}

#[test]
fn compact_code_reads_and_writes_globals() {
    let mut interpreter = Interpreter::new();
    let constants =
        vec![ConstantValue::String("g".to_string()), ConstantValue::Integer(BigInt::from(3))];
    let run = |interpreter: &mut Interpreter, opcode: OpCode, operands: Vec<usize>| {
        interpreter.execute_instruction(&constants, &NyarInstruction::new(opcode, operands))
    };
    run(&mut interpreter, OpCode::Push, vec![1]).unwrap();
    let pushed = interpreter.vm.context.value_stack[0];
    run(&mut interpreter, OpCode::StoreGlobal, vec![0]).unwrap();
    assert_eq!(interpreter.get_global("g").unwrap().index, pushed);
    run(&mut interpreter, OpCode::LoadGlobal, vec![0]).unwrap();
    assert_eq!(interpreter.vm.context.value_stack, vec![pushed]);
    assert!(matches!(
        run(&mut interpreter, OpCode::LoadGlobal, vec![1]),
        Err(VmError::RuntimeError(_))
    ));
}

#[test]
fn operators_map_to_operations() {
    assert_eq!(BinaryOperator::Add.opcode(), OpCode::Add);
    assert_eq!(BinaryOperator::NotEq.opcode(), OpCode::NotEqual);
    assert_eq!(BinaryOperator::GtEq.opcode(), OpCode::GreaterEqual);
    assert_eq!(BinaryOperator::Or.opcode(), OpCode::Or);
}

#[test]
fn literals_become_constants() {
    match LiteralValue::Integer(42).constant() {
        ConstantValue::Integer(n) => assert_eq!(n, BigInt::from(42)),
        other => panic!("Expected integer, got {:?}", other),
    }
    assert!(matches!(LiteralValue::Null.constant(), ConstantValue::Null));
    assert!(matches!(LiteralValue::Boolean(true).constant(), ConstantValue::Boolean(true)));
    assert!(
        matches!(LiteralValue::String("s".to_string()).constant(), ConstantValue::String(s) if s == "s")
    );
}

#[test]
fn constants_become_values() {
    let handler = ValueHandler::new();
    assert!(handler.materialize(&ConstantValue::Reference(3)).is_none());
    match handler.materialize(&ConstantValue::Integer(BigInt::from(5))) {
        Some(Value::Integer(n)) => assert_eq!(n, BigInt::from(5)),
        other => panic!("Expected integer, got {:?}", other),
    }
}

#[test]
fn standard_library_is_loaded_once() {
    assert!(!StdLib::new().loaded);
    let mut runtime = Runtime::new();
    runtime.load_stdlib();
    assert!(runtime.stdlib.loaded);
    let cells = runtime.vm.heap.total_memory();
    let object = runtime.classes.get("Object").unwrap();
    assert!(matches!(runtime.vm.heap.get_value(object), Some(Value::Class(c)) if c.name == "Object"));
    assert!(runtime.traits.get("Comparable").is_some());
    assert!(runtime.enums.get("Option").is_some());
    runtime.load_stdlib();
    assert_eq!(runtime.vm.heap.total_memory(), cells);
    runtime.create_class("Point");
    assert!(runtime.classes.get("Point").is_some());
}

#[test]
fn declarations_survive_a_collection() {
    let mut runtime = Runtime::new();
    let garbage = runtime.vm.heap.allocate(Value::Null);
    runtime.load_stdlib();
    let before = runtime.classes.get("Object").unwrap();
    let forwarding = runtime.collect();
    let after = runtime.classes.get("Object").unwrap();
    assert_eq!(forwarding.new_index(before), Some(after));
    assert_eq!(forwarding.new_index(garbage.index), None);
    assert!(matches!(runtime.vm.heap.get_value(after), Some(Value::Class(c)) if c.name == "Object"));
}

#[test]
fn errors_carry_over_to_the_tool_chain() {
    assert!(matches!(
        VmError::UseAfterFree(4).into_kind("gone".to_string()),
        NyarErrorKind::UseAfterFree { address: 4 }
    ));
    assert!(matches!(
        VmError::StackUnderflow.into_kind("empty".to_string()),
        NyarErrorKind::Custom { message } if message == "empty"
    ));
    assert_eq!(VmError::UseAfterFree(1).heap_kind(), Some(HeapErrorKind::DeadMemoryAccess));
    assert_eq!(VmError::InvalidHandle(1).heap_kind(), Some(HeapErrorKind::InvalidMemoryAccess));
    assert_eq!(VmError::StackOverflow.heap_kind(), None);
}

#[test]
fn program_collects_statements() {
    let mut program = Program::new();
    assert!(program.statements.is_empty());
    program.add_statement(Statement::Expression(Expression::Literal(Literal::Integer(1))));
    program.add_statement(Statement::Return(None));
    assert_eq!(program.statements.len(), 2);
    assert!(matches!(program.statements[1], Statement::Return(None)));
}

#[test]
fn messages_name_what_went_wrong() {
    assert_eq!(
        VmError::IndexOutOfBounds { index: 3, length: 1 }.message(),
        "索引越界: 索引 3 超出长度 1"
    );
    assert_eq!(
        VmError::TypeMismatch { expected: "array", found: "bigint" }.message(),
        "类型不匹配: 期望 array, 实际为 bigint"
    );
    assert_eq!(VmError::UndefinedVariable("x".to_string()).message(), "未定义的变量: x");
    assert_eq!(
        VmError::UndefinedProperty { object_type: "object", property: "p".to_string() }.message(),
        "未定义的属性: object 上不存在属性 p"
    );
    assert_eq!(VmError::InvalidHandle(12).message(), "无效的GC索引: 12");
    assert_eq!(VmError::UseAfterFree(0).message(), "访问已死亡对象: 0");
    assert_eq!(VmError::NotCallable("null").message(), "不可调用: null 不是函数");
    assert_eq!(
        VmError::ArgumentCountMismatch { expected: 2, found: 10 }.message(),
        "参数数量不匹配: 期望 2, 实际为 10"
    );
    assert_eq!(VmError::UnhandledEffect("e".to_string()).message(), "未处理的效应: e");
    assert_eq!(VmError::InvalidJumpTarget.message(), "无效的跳转目标");
    assert_eq!(VmError::InvalidLabel("l".to_string()).message(), "无效的标签: l");
    assert_eq!(VmError::StackOverflow.message(), "栈溢出");
    assert_eq!(VmError::StackUnderflow.message(), "栈下溢");
    assert_eq!(VmError::CoroutineError("c".to_string()).message(), "协程错误: c");
    assert_eq!(VmError::RuntimeError("r".to_string()).message(), "运行时错误: r");
    assert_eq!(VmError::RuntimeError("r".to_string()).duplicate().message(), "运行时错误: r");
}

#[test]
fn tool_chain_messages() {
    let decode =
        NyarErrorKind::Decode { format: "Integer".to_string(), message: "bad digit".to_string() };
    assert_eq!(decode.message(), "Decode error: Integer: bad digit");
    let encode = NyarErrorKind::Encode { format: "Text".to_string(), message: "m".to_string() };
    assert_eq!(encode.message(), "Encode error: Text: m");
    assert_eq!(NyarErrorKind::Custom { message: "m".to_string() }.message(), "Custom error: m");
    assert_eq!(
        NyarErrorKind::UseAfterFree { address: 1234567 }.message(),
        "Use after free error: 1234567"
    );
}

#[test]
fn numbers_are_written_in_decimal() {
    assert_eq!(nyar::text::decimal(0), "0");
    assert_eq!(nyar::text::decimal(9), "9");
    assert_eq!(nyar::text::decimal(10), "10");
    assert_eq!(nyar::text::decimal(907), "907");
    assert_eq!(nyar::text::decimal(usize::MAX), usize::MAX.to_string());
    assert_eq!(nyar::text::digit_text(7), "7");
}

#[test]
fn compact_code_runs_to_its_return() {
    let mut interpreter = Interpreter::new();
    let mut block = CodeBlock::new();
    let seven = block.add_constant(ConstantValue::Integer(BigInt::from(7)));
    let yes = block.add_constant(ConstantValue::Boolean(true));
    block.add_instruction(NyarInstruction::new(OpCode::Push, vec![yes]));
    block.add_instruction(NyarInstruction::new(OpCode::JumpIf, vec![3]));
    block.add_instruction(NyarInstruction::new(OpCode::Push, vec![yes]));
    block.add_instruction(NyarInstruction::new(OpCode::Push, vec![seven]));
    block.add_instruction(NyarInstruction::simple(OpCode::Return));
    block.add_instruction(NyarInstruction::new(OpCode::Push, vec![yes]));
    let result = interpreter.execute(&block).unwrap();
    match result.deref(&interpreter.vm.heap).unwrap() {
        Value::Integer(n) => assert_eq!(*n, BigInt::from(7)),
        other => panic!("Expected integer, got {:?}", other),
    }
    assert!(interpreter.vm.context.value_stack.is_empty());
}

#[test]
fn compact_code_without_return_gives_the_top_or_null() {
    let mut interpreter = Interpreter::new();
    let mut block = CodeBlock::new();
    block.add_instruction(NyarInstruction::simple(OpCode::Nop));
    let result = interpreter.execute(&block).unwrap();
    assert!(result.deref(&interpreter.vm.heap).unwrap().is_null());
    interpreter.vm.step_limit = 10;
    let mut endless = CodeBlock::new();
    endless.add_instruction(NyarInstruction::new(OpCode::Jump, vec![0]));
    assert!(matches!(interpreter.execute(&endless), Err(VmError::RuntimeError(_))));
}

#[test]
fn compact_code_builds_and_reads_objects() {
    let mut interpreter = Interpreter::new();
    let constants = vec![
        ConstantValue::String("Point".to_string()),
        ConstantValue::String("x".to_string()),
        ConstantValue::Integer(BigInt::from(4)),
    ];
    let run = |interpreter: &mut Interpreter, opcode: OpCode, operands: Vec<usize>| {
        interpreter.execute_instruction(&constants, &NyarInstruction::new(opcode, operands))
    };
    run(&mut interpreter, OpCode::NewObject, vec![0]).unwrap();
    run(&mut interpreter, OpCode::Dup, vec![]).unwrap();
    run(&mut interpreter, OpCode::Push, vec![2]).unwrap();
    run(&mut interpreter, OpCode::SetProperty, vec![1]).unwrap();
    let stored = *interpreter.vm.context.value_stack.last().unwrap();
    run(&mut interpreter, OpCode::Pop, vec![]).unwrap();
    run(&mut interpreter, OpCode::Dup, vec![]).unwrap();
    run(&mut interpreter, OpCode::GetProperty, vec![1]).unwrap();
    assert_eq!(*interpreter.vm.context.value_stack.last().unwrap(), stored);
    run(&mut interpreter, OpCode::Pop, vec![]).unwrap();
    run(&mut interpreter, OpCode::GetProperty, vec![0]).unwrap();
    let missing = *interpreter.vm.context.value_stack.last().unwrap();
    assert!(interpreter.vm.heap.get_value(missing).unwrap().is_null());
    assert!(matches!(
        run(&mut interpreter, OpCode::GetProperty, vec![1]),
        Err(VmError::RuntimeError(detail)) if detail == "Cannot get property of non-object"
    ));
    assert!(matches!(
        run(&mut interpreter, OpCode::NewObject, vec![2]),
        Err(VmError::RuntimeError(detail)) if detail == "Expected string for class name"
    ));
    run(&mut interpreter, OpCode::Push, vec![2]).unwrap();
    run(&mut interpreter, OpCode::Await, vec![]).unwrap();
    let awaited = *interpreter.vm.context.value_stack.last().unwrap();
    assert!(interpreter.vm.heap.get_value(awaited).unwrap().is_null());
}

#[test]
fn a_new_runtime_holds_a_new_machine_and_nothing_else() {
    let runtime = Runtime::new();
    assert!(!runtime.stdlib.loaded);
    assert_eq!(runtime.classes.len(), 0);
    assert_eq!(runtime.traits.len(), 0);
    assert_eq!(runtime.enums.len(), 0);
    assert!(runtime.vm.instructions.is_empty());
    assert!(matches!(runtime.vm.state, nyar::vm::VmState::Initial));
    assert_eq!(runtime.vm.gc_threshold, 0);
    assert_eq!(runtime.vm.step_limit, usize::MAX);
    assert_eq!(runtime.vm.heap.total_memory(), 1);
    assert_eq!(runtime.vm.globals, 0);
    assert!(runtime.vm.context.value_stack.is_empty());
}
