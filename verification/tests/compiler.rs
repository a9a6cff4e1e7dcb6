use num::BigInt;
use nyar::compiler::{BinaryOperator, Compiler, EnumVariant, Hir, HirNode, LiteralValue};
use nyar::error::NyarErrorKind;
use nyar::instruction::ConstantValue;
use nyar::lir::{CodeBlock, Interpreter, OpCode};
use nyar::value::Value;

fn literal(n: i64) -> HirNode {
    HirNode::Literal(LiteralValue::Integer(n))
}

fn reference(name: &str) -> HirNode {
    HirNode::VarReference(name.to_string())
}

fn compile(nodes: Vec<HirNode>) -> CodeBlock {
    Compiler::new().compile(&Hir { nodes })
}

fn listing(block: &CodeBlock) -> Vec<(OpCode, Vec<usize>)> {
    block.instructions.iter().map(|i| (i.opcode, i.operands.clone())).collect()
}

fn run(block: &CodeBlock) -> i64 {
    let mut interpreter = Interpreter::new();
    let result = interpreter.execute(block).unwrap();
    match result.deref(&interpreter.vm.heap).unwrap() {
        Value::Integer(n) => i64::try_from(n.clone()).unwrap(),
        other => panic!("Expected integer, got {:?}", other),
    }
}

#[test]
fn a_literal_pushes_its_constant() {
    let block = compile(vec![literal(5), HirNode::Literal(LiteralValue::String("s".to_string()))]);
    assert_eq!(listing(&block), vec![(OpCode::Push, vec![0]), (OpCode::Push, vec![1])]);
    assert!(matches!(&block.constants[0], ConstantValue::Integer(n) if *n == BigInt::from(5)));
    assert!(matches!(&block.constants[1], ConstantValue::String(s) if s == "s"));
}

#[test]
fn locals_are_numbered_in_order_of_declaration() {
    let block = compile(vec![
        HirNode::VarDeclaration { name: "a".to_string(), initializer: Box::new(literal(1)) },
        HirNode::VarDeclaration { name: "b".to_string(), initializer: Box::new(literal(2)) },
        reference("b"),
        reference("a"),
        reference("g"),
    ]);
    assert_eq!(
        listing(&block),
        vec![
            (OpCode::Push, vec![0]),
            (OpCode::StoreLocal, vec![0]),
            (OpCode::Push, vec![1]),
            (OpCode::StoreLocal, vec![1]),
            (OpCode::LoadLocal, vec![1]),
            (OpCode::LoadLocal, vec![0]),
            (OpCode::LoadGlobal, vec![2]),
        ]
    );
    assert!(matches!(&block.constants[2], ConstantValue::String(s) if s == "g"));
}

#[test]
fn operands_come_before_their_operator() {
    let block = compile(vec![HirNode::BinaryOp {
        op: BinaryOperator::LtEq,
        left: Box::new(literal(1)),
        right: Box::new(literal(2)),
    }]);
    assert_eq!(
        listing(&block),
        vec![(OpCode::Push, vec![0]), (OpCode::Push, vec![1]), (OpCode::LessEqual, vec![])]
    );
}

#[test]
fn branches_jump_over_each_other() {
    let conditional = |otherwise: Option<Vec<HirNode>>| HirNode::IfStatement {
        condition: Box::new(HirNode::Literal(LiteralValue::Boolean(true))),
        then_branch: vec![literal(1)],
        else_branch: otherwise,
    };
    let block = compile(vec![conditional(None)]);
    assert_eq!(
        listing(&block),
        vec![(OpCode::Push, vec![0]), (OpCode::JumpIfNot, vec![3]), (OpCode::Push, vec![1])]
    );
    let block = compile(vec![conditional(Some(vec![literal(2), literal(3)]))]);
    assert_eq!(
        listing(&block),
        vec![
            (OpCode::Push, vec![0]),
            (OpCode::JumpIfNot, vec![4]),
            (OpCode::Push, vec![1]),
            (OpCode::Jump, vec![6]),
            (OpCode::Push, vec![2]),
            (OpCode::Push, vec![3]),
        ]
    );
}

#[test]
fn a_loop_jumps_back_to_its_start() {
    let block = compile(vec![literal(0), HirNode::LoopStatement { body: vec![literal(1)] }]);
    assert_eq!(
        listing(&block),
        vec![
            (OpCode::Push, vec![0]),
            (OpCode::Loop, vec![]),
            (OpCode::Push, vec![1]),
            (OpCode::Jump, vec![1]),
        ]
    );
}

#[test]
fn arguments_are_compiled_last_first() {
    let block = compile(vec![HirNode::FunctionCall {
        callee: Box::new(reference("f")),
        args: vec![literal(1), literal(2)],
    }]);
    assert_eq!(
        listing(&block),
        vec![
            (OpCode::Push, vec![0]),
            (OpCode::Push, vec![1]),
            (OpCode::LoadGlobal, vec![2]),
            (OpCode::Call, vec![2]),
        ]
    );
    assert!(matches!(&block.constants[0], ConstantValue::Integer(n) if *n == BigInt::from(2)));
    assert!(matches!(&block.constants[1], ConstantValue::Integer(n) if *n == BigInt::from(1)));
}

#[test]
fn a_return_without_value_returns_null() {
    let block = compile(vec![HirNode::ReturnStatement { value: None }]);
    assert_eq!(listing(&block), vec![(OpCode::Push, vec![0]), (OpCode::Return, vec![])]);
    assert!(matches!(&block.constants[0], ConstantValue::Null));
}

#[test]
fn a_function_is_stored_under_its_name() {
    let block = compile(vec![
        HirNode::VarDeclaration { name: "outer".to_string(), initializer: Box::new(literal(1)) },
        HirNode::FunctionDeclaration {
            name: "f".to_string(),
            params: vec!["x".to_string()],
            body: vec![reference("x"), reference("outer"), literal(9)],
        },
        reference("outer"),
    ]);
    assert_eq!(
        listing(&block),
        vec![
            (OpCode::Push, vec![0]),
            (OpCode::StoreLocal, vec![0]),
            (OpCode::Push, vec![3]),
            (OpCode::StoreGlobal, vec![4]),
            (OpCode::LoadLocal, vec![0]),
        ]
    );
    // The body saw `outer` as a global and left its constants in the pool.
    assert!(matches!(&block.constants[1], ConstantValue::String(s) if s == "outer"));
    assert!(matches!(&block.constants[2], ConstantValue::Integer(n) if *n == BigInt::from(9)));
    assert!(matches!(&block.constants[3], ConstantValue::Null));
    assert!(matches!(&block.constants[4], ConstantValue::String(s) if s == "f"));
}

#[test]
fn a_class_stores_its_methods_as_properties() {
    let method = HirNode::FunctionDeclaration {
        name: "m".to_string(),
        params: Vec::new(),
        body: Vec::new(),
    };
    let block = compile(vec![HirNode::ClassDeclaration {
        name: "C".to_string(),
        methods: vec![literal(1), method],
    }]);
    assert_eq!(
        listing(&block),
        vec![
            (OpCode::NewObject, vec![0]),
            (OpCode::Push, vec![1]),
            (OpCode::StoreGlobal, vec![2]),
            (OpCode::SetProperty, vec![3]),
            (OpCode::StoreGlobal, vec![4]),
        ]
    );
}

#[test]
fn traits_and_enums_compile_to_nothing() {
    let block = compile(vec![
        HirNode::TraitDeclaration { name: "T".to_string(), methods: Vec::new() },
        HirNode::EnumDeclaration {
            name: "E".to_string(),
            variants: vec![EnumVariant { name: "A".to_string(), fields: Vec::new() }],
        },
    ]);
    assert!(block.instructions.is_empty());
    assert!(block.constants.is_empty());
}

#[test]
fn compiled_code_runs() {
    let block = compile(vec![
        HirNode::VarDeclaration { name: "x".to_string(), initializer: Box::new(literal(5)) },
        HirNode::ReturnStatement { value: Some(Box::new(reference("x"))) },
    ]);
    assert_eq!(run(&block), 5);
    let choose = |condition: bool| {
        compile(vec![HirNode::IfStatement {
            condition: Box::new(HirNode::Literal(LiteralValue::Boolean(condition))),
            then_branch: vec![HirNode::ReturnStatement { value: Some(Box::new(literal(1))) }],
            else_branch: Some(vec![HirNode::ReturnStatement {
                value: Some(Box::new(literal(2))),
            }]),
        }])
    };
    assert_eq!(run(&choose(true)), 1);
    assert_eq!(run(&choose(false)), 2);
}

#[test]
fn a_second_compilation_starts_from_scratch() {
    let mut compiler = Compiler::new();
    let first = compiler.compile(&Hir { nodes: vec![literal(1), literal(2)] });
    assert_eq!(first.instructions.len(), 2);
    let second = compiler.compile(&Hir { nodes: vec![literal(3)] });
    assert_eq!(listing(&second), vec![(OpCode::Push, vec![0])]);
    assert_eq!(second.constants.len(), 1);
}

#[test]
fn source_text_is_not_parsed() {
    match Compiler::new().parse("let x = 1") {
        Err(NyarErrorKind::Custom { message }) => assert_eq!(message, "解析器尚未实现"),
        other => panic!("Expected a custom error, got {:?}", other),
    }
}
