use num::BigInt;
use nyar::error::VmError;
use nyar::handle::Gc;
use nyar::instruction::{find_match_branches, ConstantValue, Instruction, MatchBranch};
use nyar::machine::InstructionExecutor;
use nyar::value::{CoroutineState, Value};
use nyar::vm::{VirtualMachine, VmState};

fn push_int(n: i64) -> Instruction {
    Instruction::PushConstant { value: ConstantValue::Integer(BigInt::from(n)) }
}

fn text(s: &str) -> Instruction {
    Instruction::PushConstant { value: ConstantValue::String(s.to_string()) }
}

fn number_at(vm: &VirtualMachine, handle: Gc<Value>) -> i64 {
    match handle.deref(&vm.heap).unwrap() {
        Value::Integer(n) => i64::try_from(n.clone()).unwrap(),
        other => panic!("Expected BigInt, got {:?}", other),
    }
}

#[test]
fn test_basic_operations() {
    let mut vm = VirtualMachine::new();
    let instructions = vec![
        push_int(42),
        Instruction::StoreVariable { name: "answer".to_string() },
        Instruction::PushVariable { name: "answer".to_string() },
    ];
    let result = vm.execute(instructions).unwrap();
    assert_eq!(number_at(&vm, result), 42);
}

#[test]
fn primitive_round_trip_halts_with_the_stored_value() {
    let mut vm = VirtualMachine::new();
    let result = vm
        .execute(vec![
            push_int(42),
            Instruction::StoreVariable { name: "x".to_string() },
            Instruction::PushVariable { name: "x".to_string() },
            Instruction::Halt,
        ])
        .unwrap();
    assert_eq!(number_at(&vm, result), 42);
    assert!(matches!(vm.state, VmState::Completed));
    assert!(vm.context.value_stack.is_empty());
}

fn conditional(condition: bool) -> Vec<Instruction> {
    vec![
        Instruction::PushConstant { value: ConstantValue::Boolean(condition) },
        Instruction::JumpIfFalse { offset: 2 },
        push_int(1),
        Instruction::Jump { offset: 1 },
        push_int(2),
        Instruction::Halt,
    ]
}

#[test]
fn conditional_takes_the_branch_of_its_condition() {
    let mut vm = VirtualMachine::new();
    let result = vm.execute(conditional(true)).unwrap();
    assert_eq!(number_at(&vm, result), 1);
    let mut vm = VirtualMachine::new();
    let result = vm.execute(conditional(false)).unwrap();
    assert_eq!(number_at(&vm, result), 2);
}

#[test]
fn test_conditional_jumps() {
    let mut vm = VirtualMachine::new();
    let instructions = vec![
        Instruction::PushConstant { value: ConstantValue::Boolean(true) },
        Instruction::JumpIfFalse { offset: 2 },
        push_int(1),
        Instruction::Jump { offset: 1 },
        push_int(2),
        Instruction::PushConstant { value: ConstantValue::Boolean(false) },
        Instruction::JumpIfFalse { offset: 2 },
        push_int(3),
        Instruction::Jump { offset: 1 },
        push_int(4),
        Instruction::Halt,
    ];
    let result = vm.execute(instructions).unwrap();
    assert_eq!(number_at(&vm, result), 4);
}

#[test]
fn test_function_calls() {
    let mut vm = VirtualMachine::new();
    let function_body = vec![
        Instruction::PushVariable { name: "x".to_string() },
        push_int(1),
        push_int(1),
        Instruction::Return,
    ];
    let mut instructions = vec![
        text("x"),
        Instruction::CreateFunction {
            name: Some("increment".to_string()),
            parameter_count: 1,
            body_size: function_body.len(),
        },
    ];
    instructions.extend(function_body);
    instructions.push(Instruction::StoreVariable { name: "increment".to_string() });
    instructions.extend(vec![
        Instruction::PushVariable { name: "increment".to_string() },
        push_int(5),
        Instruction::Call { argument_count: 1 },
    ]);
    let result = vm.execute(instructions).unwrap();
    assert_eq!(number_at(&vm, result), 1);
    assert!(vm.context.call_stack.is_empty());
    assert!(vm.context.value_stack.is_empty());
}

#[test]
fn call_binds_the_parameter_to_the_argument() {
    let mut vm = VirtualMachine::new();
    let body = vec![Instruction::PushVariable { name: "x".to_string() }, Instruction::Return];
    let mut instructions = vec![
        text("x"),
        Instruction::CreateFunction { name: None, parameter_count: 1, body_size: body.len() },
    ];
    instructions.extend(body);
    instructions.extend(vec![push_int(5), Instruction::Call { argument_count: 1 }]);
    let result = vm.execute(instructions).unwrap();
    assert_eq!(number_at(&vm, result), 5);
}

fn generator_program() -> Vec<Instruction> {
    let function_body = vec![
        push_int(1),
        Instruction::YieldCoroutine { value_count: 1 },
        push_int(2),
        Instruction::YieldCoroutine { value_count: 1 },
        push_int(3),
        Instruction::Return,
    ];
    let mut instructions = vec![Instruction::CreateFunction {
        name: Some("generator".to_string()),
        parameter_count: 0,
        body_size: function_body.len(),
    }];
    instructions.extend(function_body);
    instructions.push(Instruction::CreateCoroutine);
    instructions
}

fn resume(coroutine: Gc<Value>) -> Vec<Instruction> {
    vec![
        Instruction::PushConstant { value: ConstantValue::Reference(coroutine.index) },
        Instruction::ResumeCoroutine,
    ]
}

fn coroutine_state(vm: &VirtualMachine, coroutine: Gc<Value>) -> CoroutineState {
    match coroutine.deref(&vm.heap).unwrap() {
        Value::Coroutine(record) => record.state,
        other => panic!("Expected coroutine, got {:?}", other),
    }
}

#[test]
fn test_coroutines() {
    let mut vm = VirtualMachine::new();
    let coroutine = vm.execute(generator_program()).unwrap();
    let result1 = vm.execute(resume(coroutine)).unwrap();
    assert_eq!(number_at(&vm, result1), 1);
    let result2 = vm.execute(resume(coroutine)).unwrap();
    assert_eq!(number_at(&vm, result2), 2);
    let result3 = vm.execute(resume(coroutine)).unwrap();
    assert_eq!(number_at(&vm, result3), 3);
}

#[test]
fn generator_fails_on_the_resume_after_its_return() {
    let mut vm = VirtualMachine::new();
    let coroutine = vm.execute(generator_program()).unwrap();
    assert_eq!(coroutine_state(&vm, coroutine), CoroutineState::Initial);
    for expected in [1, 2] {
        let value = vm.execute(resume(coroutine)).unwrap();
        assert_eq!(number_at(&vm, value), expected);
        assert_eq!(coroutine_state(&vm, coroutine), CoroutineState::Suspended);
    }
    let value = vm.execute(resume(coroutine)).unwrap();
    assert_eq!(number_at(&vm, value), 3);
    assert_eq!(coroutine_state(&vm, coroutine), CoroutineState::Completed);
    let fourth = vm.execute(resume(coroutine));
    assert!(matches!(fourth, Err(VmError::CoroutineError(_))));
    assert!(matches!(vm.state, VmState::Failed(VmError::CoroutineError(_))));
}

#[test]
fn collection_between_resumes_changes_nothing_observable() {
    let mut vm = VirtualMachine::new();
    let mut coroutine = vm.execute(generator_program()).unwrap();
    vm.heap.add_root(&coroutine);
    let mut seen = Vec::new();
    for _ in 0..3 {
        let value = vm.execute(resume(coroutine)).unwrap();
        seen.push(number_at(&vm, value));
        let forwarding = vm.collect();
        coroutine = forwarding.forward(coroutine);
    }
    assert_eq!(seen, vec![1, 2, 3]);
    assert!(matches!(vm.execute(resume(coroutine)), Err(VmError::CoroutineError(_))));
}

fn effect_program(handler_body: Vec<Instruction>) -> Vec<Instruction> {
    let function_body = vec![
        push_int(21),
        Instruction::RaiseEffect { name: "double".to_string(), argument_count: 1 },
        Instruction::Return,
    ];
    let mut instructions = vec![
        text("x"),
        Instruction::CreateFunction {
            name: Some("double_handler".to_string()),
            parameter_count: 1,
            body_size: handler_body.len(),
        },
    ];
    instructions.extend(handler_body);
    instructions.push(Instruction::HandleEffect { name: "double".to_string() });
    instructions.push(Instruction::CreateFunction {
        name: Some("use_effect".to_string()),
        parameter_count: 0,
        body_size: function_body.len(),
    });
    instructions.extend(function_body);
    instructions.push(Instruction::Call { argument_count: 0 });
    instructions
}

#[test]
fn test_algebraic_effects() {
    let mut vm = VirtualMachine::new();
    let handler_body = vec![
        Instruction::PushVariable { name: "x".to_string() },
        push_int(2),
        push_int(42),
        Instruction::ResumeEffect { value_count: 1 },
    ];
    let result = vm.execute(effect_program(handler_body)).unwrap();
    assert_eq!(number_at(&vm, result), 42);
}

#[test]
fn effect_resume_injects_the_value_at_the_raise() {
    let mut vm = VirtualMachine::new();
    let handler_body = vec![push_int(42), Instruction::ResumeEffect { value_count: 1 }];
    let result = vm.execute(effect_program(handler_body)).unwrap();
    assert_eq!(number_at(&vm, result), 42);
    assert!(vm.context.call_stack.is_empty());
    // The handler left the chain when it resumed.
    assert!(vm.context.effect_handlers.is_empty());
}

#[test]
fn handler_sees_the_argument_of_the_raise() {
    let mut vm = VirtualMachine::new();
    let handler_body = vec![
        Instruction::PushVariable { name: "x".to_string() },
        Instruction::ResumeEffect { value_count: 1 },
    ];
    let result = vm.execute(effect_program(handler_body)).unwrap();
    assert_eq!(number_at(&vm, result), 21);
}

#[test]
fn handler_that_returns_aborts_to_the_installing_frame() {
    let mut vm = VirtualMachine::new();
    // The handler returns 7 without resuming: the call of the raiser ends
    // with 7, and the instruction after the raise never runs.
    let handler_body = vec![push_int(7), Instruction::Return];
    let function_body = vec![
        push_int(21),
        Instruction::RaiseEffect { name: "double".to_string(), argument_count: 1 },
        Instruction::Pop,
        push_int(99),
        Instruction::Return,
    ];
    let mut instructions = vec![
        text("x"),
        Instruction::CreateFunction { name: None, parameter_count: 1, body_size: 2 },
    ];
    instructions.extend(handler_body);
    instructions.push(Instruction::HandleEffect { name: "double".to_string() });
    instructions.push(Instruction::CreateFunction {
        name: None,
        parameter_count: 0,
        body_size: function_body.len(),
    });
    instructions.extend(function_body);
    instructions.push(Instruction::Call { argument_count: 0 });
    let result = vm.execute(instructions).unwrap();
    assert_eq!(number_at(&vm, result), 7);
    assert!(vm.context.call_stack.is_empty());
}

#[test]
fn resume_without_a_running_handler_fails() {
    let mut vm = VirtualMachine::new();
    let result = vm.execute(vec![push_int(1), Instruction::ResumeEffect { value_count: 1 }]);
    match result {
        Err(VmError::CoroutineError(detail)) => assert_eq!(detail, "cannot resume twice"),
        other => panic!("Expected CoroutineError, got {:?}", other),
    }
}

#[test]
fn handler_installed_in_a_returned_frame_is_not_visible() {
    let mut vm = VirtualMachine::new();
    let handler_body = vec![push_int(42), Instruction::ResumeEffect { value_count: 1 }];
    // installer: makes the handler, installs it, returns null.
    let mut installer = vec![
        text("x"),
        Instruction::CreateFunction { name: None, parameter_count: 1, body_size: 2 },
    ];
    installer.extend(handler_body);
    installer.push(Instruction::HandleEffect { name: "double".to_string() });
    installer.push(Instruction::PushConstant { value: ConstantValue::Null });
    installer.push(Instruction::Return);
    let mut instructions = vec![Instruction::CreateFunction {
        name: None,
        parameter_count: 0,
        body_size: installer.len(),
    }];
    instructions.extend(installer);
    instructions.push(Instruction::Call { argument_count: 0 });
    instructions.push(Instruction::Pop);
    instructions.push(push_int(21));
    instructions.push(Instruction::RaiseEffect { name: "double".to_string(), argument_count: 1 });
    let result = vm.execute(instructions);
    match result {
        Err(VmError::UnhandledEffect(name)) => assert_eq!(name, "double"),
        other => panic!("Expected UnhandledEffect, got {:?}", other),
    }
}

#[test]
fn test_error_handling() {
    let mut vm = VirtualMachine::new();
    let instructions = vec![Instruction::PushVariable { name: "undefined".to_string() }];
    let result = vm.execute(instructions);
    assert!(result.is_err());
    if let Err(VmError::UndefinedVariable(name)) = result {
        assert_eq!(name, "undefined");
    } else {
        panic!("Expected UndefinedVariable error, got {:?}", result);
    }
    let instructions = vec![Instruction::StoreVariable { name: "x".to_string() }];
    let result = vm.execute(instructions);
    assert!(result.is_err());
    if let Err(VmError::StackUnderflow) = result {
    } else {
        panic!("Expected StackUnderflow error, got {:?}", result);
    }
}

#[test]
fn stack_overflow_is_an_error() {
    let mut vm = VirtualMachine::new();
    vm.max_stack_depth = 2;
    let result = vm.execute(vec![push_int(1), push_int(2), push_int(3), push_int(4)]);
    assert!(matches!(result, Err(VmError::StackOverflow)));
}

#[test]
fn unbounded_recursion_is_an_error() {
    let mut vm = VirtualMachine::new();
    let body = vec![
        Instruction::PushVariable { name: "f".to_string() },
        Instruction::Call { argument_count: 0 },
        Instruction::Return,
    ];
    let mut instructions =
        vec![Instruction::CreateFunction { name: None, parameter_count: 0, body_size: 3 }];
    instructions.extend(body);
    instructions.push(Instruction::StoreVariable { name: "f".to_string() });
    instructions.push(Instruction::PushVariable { name: "f".to_string() });
    instructions.push(Instruction::Call { argument_count: 0 });
    let result = vm.execute(instructions);
    assert!(matches!(result, Err(VmError::StackOverflow)));
    assert!(vm.context.call_stack.is_empty());
}

#[test]
fn step_limit_stops_an_endless_loop() {
    let mut vm = VirtualMachine::new();
    vm.step_limit = 1000;
    let result = vm.execute(vec![
        Instruction::LoopStart { label: None },
        Instruction::LoopEnd { label: None },
    ]);
    match result {
        Err(VmError::RuntimeError(detail)) => assert_eq!(detail, "Step limit reached"),
        other => panic!("Expected RuntimeError, got {:?}", other),
    }
}

#[test]
fn break_leaves_the_labelled_loop() {
    let mut vm = VirtualMachine::new();
    let result = vm
        .execute(vec![
            Instruction::LoopStart { label: Some("outer".to_string()) },
            Instruction::LoopStart { label: None },
            Instruction::Break { label: Some("outer".to_string()) },
            Instruction::LoopEnd { label: None },
            push_int(1),
            Instruction::LoopEnd { label: Some("outer".to_string()) },
            push_int(2),
        ])
        .unwrap();
    assert_eq!(number_at(&vm, result), 2);
}

#[test]
fn break_without_a_loop_is_an_invalid_label() {
    let mut vm = VirtualMachine::new();
    let result = vm.execute(vec![Instruction::Break { label: Some("outer".to_string()) }]);
    match result {
        Err(VmError::InvalidLabel(name)) => assert_eq!(name, "outer"),
        other => panic!("Expected InvalidLabel, got {:?}", other),
    }
}

#[test]
fn match_case_goes_to_the_next_case_or_to_the_end() {
    // Guards are pushed before the match; the first is false.
    let program = |fall_through: bool| {
        vec![
            Instruction::PushConstant { value: ConstantValue::Boolean(true) },
            Instruction::PushConstant { value: ConstantValue::Boolean(false) },
            Instruction::MatchStart,
            Instruction::MatchCase { fall_through },
            push_int(1),
            Instruction::Jump { offset: 3 },
            Instruction::MatchCase { fall_through },
            push_int(2),
            Instruction::MatchEnd,
            Instruction::Halt,
        ]
    };
    let mut vm = VirtualMachine::new();
    let result = vm.execute(program(true)).unwrap();
    assert_eq!(number_at(&vm, result), 2);
    let mut vm = VirtualMachine::new();
    let result = vm.execute(program(false)).unwrap();
    assert!(matches!(result.deref(&vm.heap).unwrap(), Value::Boolean(true)));
}

#[test]
fn vectors_are_indexed_with_bounds() {
    let mut vm = VirtualMachine::new();
    let result = vm
        .execute(vec![
            push_int(10),
            push_int(20),
            Instruction::CreateArray { size: 2 },
            Instruction::GetIndex { index: 1 },
        ])
        .unwrap();
    assert_eq!(number_at(&vm, result), 20);
    let result = vm.execute(vec![
        push_int(10),
        Instruction::CreateArray { size: 1 },
        Instruction::GetIndex { index: 3 },
    ]);
    assert!(matches!(result, Err(VmError::IndexOutOfBounds { index: 3, length: 1 })));
    let result = vm.execute(vec![push_int(10), Instruction::GetIndex { index: 0 }]);
    assert!(matches!(
        result,
        Err(VmError::TypeMismatch { expected: "array", found: "bigint" })
    ));
}

#[test]
fn set_index_replaces_the_element() {
    let mut vm = VirtualMachine::new();
    let result = vm
        .execute(vec![
            push_int(10),
            Instruction::CreateArray { size: 1 },
            Instruction::Dup,
            push_int(77),
            Instruction::SetIndex { index: 0 },
            Instruction::Pop,
            Instruction::GetIndex { index: 0 },
        ])
        .unwrap();
    assert_eq!(number_at(&vm, result), 77);
}

#[test]
fn properties_are_stored_and_found() {
    let mut vm = VirtualMachine::new();
    let object = vm.heap.allocate(Value::Object(nyar::object::NyarObject::new()));
    let push_object = || Instruction::PushConstant { value: ConstantValue::Reference(object.index) };
    let result = vm
        .execute(vec![
            push_object(),
            push_int(5),
            Instruction::SetProperty { name: "size".to_string() },
            Instruction::Pop,
            push_object(),
            Instruction::GetProperty { name: "size".to_string() },
        ])
        .unwrap();
    assert_eq!(number_at(&vm, result), 5);
    let result =
        vm.execute(vec![push_object(), Instruction::GetProperty { name: "none".to_string() }]);
    match result {
        Err(VmError::UndefinedProperty { object_type, property }) => {
            assert_eq!(object_type, "object");
            assert_eq!(property, "none");
        }
        other => panic!("Expected UndefinedProperty, got {:?}", other),
    }
}

#[test]
fn calling_a_number_is_not_callable() {
    let mut vm = VirtualMachine::new();
    let result = vm.execute(vec![push_int(1), Instruction::Call { argument_count: 0 }]);
    assert!(matches!(result, Err(VmError::NotCallable("bigint"))));
}

#[test]
fn wrong_argument_count_is_reported() {
    let mut vm = VirtualMachine::new();
    let result = vm.execute(vec![
        Instruction::CreateFunction { name: None, parameter_count: 0, body_size: 0 },
        push_int(1),
        Instruction::Call { argument_count: 1 },
    ]);
    assert!(matches!(result, Err(VmError::ArgumentCountMismatch { expected: 0, found: 1 })));
}

#[test]
fn jump_out_of_the_code_is_invalid() {
    let mut vm = VirtualMachine::new();
    let result = vm.execute(vec![Instruction::Jump { offset: 5 }]);
    assert!(matches!(result, Err(VmError::InvalidJumpTarget)));
    let result = vm.execute(vec![Instruction::Jump { offset: -100 }]);
    assert!(matches!(result, Err(VmError::InvalidJumpTarget)));
}

#[test]
fn unsupported_instruction_is_a_runtime_error() {
    let mut vm = VirtualMachine::new();
    let result = vm.execute(vec![Instruction::Await]);
    match result {
        Err(VmError::RuntimeError(detail)) => assert_eq!(detail, "Instruction not implemented"),
        other => panic!("Expected RuntimeError, got {:?}", other),
    }
}

#[test]
fn failure_inside_a_coroutine_fails_the_coroutine_only() {
    let mut vm = VirtualMachine::new();
    let body = vec![Instruction::PushVariable { name: "missing".to_string() }];
    let mut instructions =
        vec![Instruction::CreateFunction { name: None, parameter_count: 0, body_size: 1 }];
    instructions.extend(body);
    instructions.push(Instruction::CreateCoroutine);
    let coroutine = vm.execute(instructions).unwrap();
    let result = vm.execute(resume(coroutine)).unwrap();
    assert!(result.deref(&vm.heap).unwrap().is_null());
    assert_eq!(coroutine_state(&vm, coroutine), CoroutineState::Failed);
    assert!(matches!(vm.execute(resume(coroutine)), Err(VmError::CoroutineError(_))));
}

#[test]
fn globals_are_set_and_read_by_the_embedder() {
    let mut vm = VirtualMachine::new();
    let value = vm.heap.allocate(Value::Boolean(true));
    vm.set_global("flag", value);
    assert_eq!(vm.get_global("flag").unwrap().index, value.index);
    assert!(vm.get_global("other").is_none());
    let result = vm.execute(vec![Instruction::PushVariable { name: "flag".to_string() }]).unwrap();
    assert_eq!(result.index, value.index);
}

#[test]
fn automatic_collection_keeps_the_program_running() {
    let mut vm = VirtualMachine::new();
    vm.gc_threshold = 2;
    let result = vm
        .execute(vec![
            push_int(1),
            Instruction::Pop,
            push_int(2),
            Instruction::Pop,
            push_int(3),
            Instruction::StoreVariable { name: "x".to_string() },
            push_int(4),
            Instruction::Pop,
            Instruction::PushVariable { name: "x".to_string() },
        ])
        .unwrap();
    assert_eq!(number_at(&vm, result), 3);
    assert!(vm.heap.total_memory() <= 4);
}

#[test]
fn dispatcher_runs_one_instruction() {
    let mut vm = VirtualMachine::new();
    let code = vec![push_int(9)];
    let executor = InstructionExecutor::new();
    executor.execute_instruction(&mut vm, &code, &code[0]).unwrap();
    assert_eq!(vm.context.value_stack.len(), 1);
}

#[test]
fn objects_are_built_from_pairs() {
    let mut vm = VirtualMachine::new();
    let result = vm
        .execute(vec![
            text("a"),
            push_int(1),
            text("b"),
            push_int(2),
            text("a"),
            push_int(3),
            Instruction::CreateObject { property_count: 3 },
            Instruction::GetProperty { name: "a".to_string() },
        ])
        .unwrap();
    assert_eq!(number_at(&vm, result), 3);
    let result = vm.execute(vec![push_int(1), Instruction::CreateObject { property_count: 1 }]);
    assert!(matches!(result, Err(VmError::StackUnderflow)));
    let result =
        vm.execute(vec![push_int(1), push_int(2), Instruction::CreateObject { property_count: 1 }]);
    assert!(matches!(
        result,
        Err(VmError::TypeMismatch { expected: "string", found: "bigint" })
    ));
}

#[test]
fn closures_capture_the_named_variables() {
    let mut vm = VirtualMachine::new();
    let body = vec![Instruction::PushVariable { name: "k".to_string() }, Instruction::Return];
    let mut instructions = vec![
        push_int(5),
        Instruction::StoreVariable { name: "k".to_string() },
        Instruction::CreateFunction { name: None, parameter_count: 0, body_size: body.len() },
    ];
    instructions.extend(body);
    instructions.push(Instruction::CreateClosure { captured_variables: vec!["k".to_string()] });
    // Rebinding the global afterwards does not reach the captured value.
    instructions.push(push_int(6));
    instructions.push(Instruction::StoreVariable { name: "k".to_string() });
    instructions.push(Instruction::Call { argument_count: 0 });
    let result = vm.execute(instructions).unwrap();
    assert_eq!(number_at(&vm, result), 5);
    let result = vm.execute(vec![
        Instruction::CreateFunction { name: None, parameter_count: 0, body_size: 0 },
        Instruction::CreateClosure { captured_variables: vec!["nowhere".to_string()] },
    ]);
    assert!(matches!(result, Err(VmError::UndefinedVariable(name)) if name == "nowhere"));
}

#[test]
fn declarations_are_built_from_the_stack() {
    let mut vm = VirtualMachine::new();
    let class = vm
        .execute(vec![
            text("area"),
            push_int(1),
            text("sides"),
            push_int(4),
            Instruction::CreateClass {
                name: "Square".to_string(),
                method_count: 1,
                property_count: 1,
            },
        ])
        .unwrap();
    match class.deref(&vm.heap).unwrap() {
        Value::Class(c) => {
            assert_eq!(c.name, "Square");
            assert!(c.methods.get("area").is_some());
            assert!(c.properties.get("sides").is_some());
            assert!(c.methods.get("sides").is_none());
        }
        other => panic!("Expected class, got {:?}", other),
    }
    let declared = vm
        .execute(vec![
            text("compare"),
            text("equals"),
            Instruction::CreateTrait { name: "Comparable".to_string(), method_count: 2 },
        ])
        .unwrap();
    match declared.deref(&vm.heap).unwrap() {
        Value::Trait(t) => {
            assert_eq!(t.name, "Comparable");
            let names: Vec<&str> = t.methods.iter().map(|m| m.name.as_str()).collect();
            assert_eq!(names, vec!["compare", "equals"]);
        }
        other => panic!("Expected trait, got {:?}", other),
    }
    let declared = vm
        .execute(vec![
            text("None"),
            Instruction::PushConstant { value: ConstantValue::Null },
            Instruction::CreateEnum { name: "Option".to_string(), variant_count: 1 },
        ])
        .unwrap();
    assert!(matches!(declared.deref(&vm.heap).unwrap(), Value::Enum(e) if e.name == "Option"));
}

#[test]
fn stack_operations_reorder_the_top() {
    let mut vm = VirtualMachine::new();
    let result = vm
        .execute(vec![push_int(1), push_int(2), Instruction::Swap, Instruction::Pop, Instruction::Dup])
        .unwrap();
    assert_eq!(number_at(&vm, result), 2);
    assert_eq!(vm.context.value_stack.len(), 1);
    assert!(matches!(vm.execute(vec![Instruction::Pop, Instruction::Pop]), Err(_)));
    let mut vm = VirtualMachine::new();
    assert!(matches!(vm.execute(vec![Instruction::Dup]), Err(VmError::StackUnderflow)));
    assert!(matches!(
        vm.execute(vec![push_int(1), Instruction::Swap]),
        Err(VmError::StackUnderflow)
    ));
}

#[test]
fn nested_coroutines_yield_to_their_own_resumers() {
    let mut vm = VirtualMachine::new();
    // inner yields 1; outer resumes inner and yields what it got plus its own 2.
    let inner_body = vec![push_int(1), Instruction::YieldCoroutine { value_count: 1 }];
    let mut program = vec![Instruction::CreateFunction {
        name: None,
        parameter_count: 0,
        body_size: inner_body.len(),
    }];
    program.extend(inner_body);
    program.push(Instruction::CreateCoroutine);
    program.push(Instruction::StoreVariable { name: "inner".to_string() });
    let outer_body = vec![
        Instruction::PushVariable { name: "inner".to_string() },
        Instruction::ResumeCoroutine,
        push_int(2),
        Instruction::YieldCoroutine { value_count: 2 },
    ];
    program.push(Instruction::CreateFunction {
        name: None,
        parameter_count: 0,
        body_size: outer_body.len(),
    });
    program.extend(outer_body);
    program.push(Instruction::CreateCoroutine);
    program.push(Instruction::ResumeCoroutine);
    let top = vm.execute(program).unwrap();
    assert_eq!(number_at(&vm, top), 2);
    assert_eq!(vm.context.value_stack.len(), 1);
    assert_eq!(number_at(&vm, Gc::new(vm.context.value_stack[0])), 1);
    assert!(vm.coroutines.is_empty());
    assert!(vm.resumers.is_empty());
}

#[test]
fn first_resume_binds_the_arguments() {
    let mut vm = VirtualMachine::new();
    let body = vec![
        Instruction::PushVariable { name: "x".to_string() },
        Instruction::YieldCoroutine { value_count: 1 },
    ];
    let mut program = vec![
        push_int(11),
        text("x"),
        Instruction::CreateFunction { name: None, parameter_count: 1, body_size: body.len() },
    ];
    program.extend(body);
    program.push(Instruction::CreateCoroutine);
    program.push(Instruction::ResumeCoroutine);
    let result = vm.execute(program).unwrap();
    assert_eq!(number_at(&vm, result), 11);
    assert!(vm.context.value_stack.is_empty());
}

#[test]
fn yield_outside_a_coroutine_fails() {
    let mut vm = VirtualMachine::new();
    let result = vm.execute(vec![Instruction::YieldCoroutine { value_count: 0 }]);
    assert!(matches!(result, Err(VmError::CoroutineError(_))));
}

#[test]
fn the_cases_of_a_match_are_listed() {
    let code = vec![
        Instruction::MatchStart,
        Instruction::MatchCase { fall_through: true },
        push_int(1),
        Instruction::MatchStart,
        Instruction::MatchCase { fall_through: false },
        Instruction::MatchEnd,
        Instruction::MatchCase { fall_through: true },
        push_int(2),
        Instruction::MatchEnd,
    ];
    let branches = find_match_branches(&code, 1).unwrap();
    assert_eq!(
        branches,
        vec![
            MatchBranch { condition_ip: 1, body_start_ip: 2, body_end_ip: 6 },
            MatchBranch { condition_ip: 6, body_start_ip: 7, body_end_ip: 8 },
        ]
    );
    assert!(find_match_branches(&code, 9).is_none());
    assert_eq!(find_match_branches(&code, 8).unwrap(), Vec::new());
}

#[test]
fn unboxing_copies_the_value() {
    let mut vm = VirtualMachine::new();
    let handle = vm.allocate(Value::Vector(vec![1, 2]));
    let copy = handle.unbox(&vm.heap).unwrap();
    if let Value::Vector(items) = vm.heap.view_mut(handle).unwrap() {
        items.push(3);
    }
    assert!(matches!(copy, Value::Vector(items) if items == vec![1, 2]));
    assert!(matches!(handle.deref(&vm.heap).unwrap(), Value::Vector(items) if items.len() == 3));
    assert!(Gc::<Value>::new(99).unbox(&vm.heap).is_err());
    assert_eq!(vm.allocations, 1);
}

#[test]
fn a_scope_that_is_no_object_is_an_invalid_handle() {
    let mut vm = VirtualMachine::new();
    let number = vm.allocate(Value::Boolean(true));
    vm.globals = number.index;
    let result = vm.execute(vec![push_int(1), Instruction::StoreVariable { name: "x".to_string() }]);
    match result {
        Err(VmError::InvalidHandle(index)) => assert_eq!(index, number.index),
        other => panic!("Expected InvalidHandle, got {:?}", other),
    }
}

#[test]
fn a_dangling_reference_surfaces_as_use_after_free() {
    let mut vm = VirtualMachine::new();
    let result = vm.execute(vec![
        Instruction::PushConstant { value: ConstantValue::Reference(77) },
        Instruction::JumpIfFalse { offset: 0 },
    ]);
    match result {
        Err(VmError::UseAfterFree(index)) => assert_eq!(index, 77),
        other => panic!("Expected UseAfterFree, got {:?}", other),
    }
    assert!(matches!(vm.state, VmState::Failed(VmError::UseAfterFree(77))));
}

#[test]
fn a_function_body_that_ends_returns_null() {
    let mut vm = VirtualMachine::new();
    let result = vm
        .execute(vec![
            Instruction::CreateFunction { name: None, parameter_count: 0, body_size: 1 },
            push_int(9),
            Instruction::Call { argument_count: 0 },
        ])
        .unwrap();
    assert!(result.deref(&vm.heap).unwrap().is_null());
    assert!(vm.context.call_stack.is_empty());
    assert!(vm.context.environment_stack.is_empty());
}

#[test]
fn continue_goes_back_to_the_start_of_the_loop() {
    let mut vm = VirtualMachine::new();
    vm.step_limit = 50;
    // The flag is true on the first pass and false afterwards: the first
    // pass continues, the second breaks.
    let result = vm
        .execute(vec![
            Instruction::PushConstant { value: ConstantValue::Boolean(true) },
            Instruction::StoreVariable { name: "first".to_string() },
            Instruction::LoopStart { label: None },
            Instruction::PushVariable { name: "first".to_string() },
            Instruction::JumpIfFalse { offset: 3 },
            Instruction::PushConstant { value: ConstantValue::Boolean(false) },
            Instruction::StoreVariable { name: "first".to_string() },
            Instruction::Continue { label: None },
            Instruction::Break { label: None },
            Instruction::LoopEnd { label: None },
            push_int(5),
        ])
        .unwrap();
    assert_eq!(number_at(&vm, result), 5);
}

#[test]
fn break_inside_a_function_does_not_reach_a_loop_of_the_caller() {
    let mut vm = VirtualMachine::new();
    vm.step_limit = 100;
    // The loop encloses the function body in the code, so the break finds
    // its end; leaving the body takes the frame of the call with it.
    let result = vm
        .execute(vec![
            Instruction::LoopStart { label: None },
            Instruction::CreateFunction { name: None, parameter_count: 0, body_size: 1 },
            Instruction::Break { label: None },
            Instruction::Call { argument_count: 0 },
            Instruction::LoopEnd { label: None },
            push_int(3),
        ])
        .unwrap();
    assert_eq!(number_at(&vm, result), 3);
    assert!(vm.context.call_stack.is_empty());
    assert!(vm.context.environment_stack.is_empty());
}

#[test]
fn a_run_without_references_leaves_every_handle_in_bounds() {
    let mut vm = VirtualMachine::new();
    vm.gc_threshold = 3;
    let body = vec![
        Instruction::PushVariable { name: "x".to_string() },
        Instruction::CreateArray { size: 1 },
        Instruction::Return,
    ];
    let mut program = vec![
        text("x"),
        Instruction::CreateFunction { name: None, parameter_count: 1, body_size: body.len() },
    ];
    program.extend(body);
    program.push(Instruction::StoreVariable { name: "wrap".to_string() });
    for n in 0..5 {
        program.push(Instruction::PushVariable { name: "wrap".to_string() });
        program.push(push_int(n));
        program.push(Instruction::Call { argument_count: 1 });
        program.push(Instruction::StoreVariable { name: "last".to_string() });
    }
    program.push(Instruction::PushVariable { name: "last".to_string() });
    program.push(Instruction::GetIndex { index: 0 });
    let result = vm.execute(program).unwrap();
    assert_eq!(number_at(&vm, result), 4);
    let cells = vm.heap.total_memory();
    assert!(vm.globals < cells);
    assert!(vm.context.value_stack.iter().all(|h| *h < cells));
    for index in 0..cells {
        let mut handles = Vec::new();
        vm.heap.get_value(index).unwrap().trace(&mut handles);
        assert!(handles.iter().all(|h| *h < cells));
    }
}
