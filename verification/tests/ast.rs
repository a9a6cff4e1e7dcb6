use num::BigInt;
use nyar::ast::{
    BinaryExpression, Expression, ExportStatement, FunctionDefinition, IfStatement,
    LambdaExpression, Literal, Program, Statement, VariableDeclaration,
};
use nyar::error::NyarErrorKind;
use nyar::handle::Gc;
use nyar::heap::Heap;
use nyar::value::{Class, Enum, MethodSignature, NyarTrait, Value};

fn integer(n: i64) -> Expression {
    Expression::Literal(Literal::Integer(n))
}

fn refusal(r: Result<Value, NyarErrorKind>) -> String {
    match r {
        Err(NyarErrorKind::Custom { message }) => message,
        other => panic!("Expected a custom error, got {:?}", other),
    }
}

#[test]
fn literals_lower_to_values() {
    let mut heap = Heap::new();
    assert!(matches!(Literal::Null.to_lir(&mut heap), Ok(Value::Null)));
    assert!(matches!(Literal::Boolean(true).to_lir(&mut heap), Ok(Value::Boolean(true))));
    match Literal::Integer(-5).to_lir(&mut heap) {
        Ok(Value::Integer(n)) => assert_eq!(n, BigInt::from(-5)),
        other => panic!("Expected integer, got {:?}", other),
    }
    assert!(
        matches!(Literal::String("s".to_string()).to_lir(&mut heap), Ok(Value::String(s)) if s == "s")
    );
    assert_eq!(heap.total_memory(), 0);
}

#[test]
fn lists_allocate_their_items_in_order() {
    let mut heap = Heap::new();
    let list = Literal::List(vec![integer(1), Expression::Literal(Literal::List(vec![integer(2)]))]);
    match list.to_lir(&mut heap) {
        Ok(Value::Vector(handles)) => assert_eq!(handles, vec![0, 2]),
        other => panic!("Expected vector, got {:?}", other),
    }
    assert_eq!(heap.total_memory(), 3);
    assert!(matches!(heap.get_value(1), Some(Value::Integer(n)) if *n == BigInt::from(2)));
    assert!(matches!(heap.get_value(2), Some(Value::Vector(v)) if *v == vec![1]));
}

#[test]
fn objects_bind_their_properties() {
    let mut heap = Heap::new();
    let object = Literal::Object(vec![
        ("a".to_string(), integer(1)),
        ("b".to_string(), integer(2)),
        ("a".to_string(), integer(3)),
    ]);
    match object.to_lir(&mut heap) {
        Ok(Value::Object(o)) => {
            assert_eq!(o.len(), 2);
            assert_eq!(o.get("a"), Some(2));
            assert_eq!(o.get("b"), Some(1));
        }
        other => panic!("Expected object, got {:?}", other),
    }
}

#[test]
fn what_needs_a_machine_is_refused() {
    let mut heap = Heap::new();
    assert_eq!(
        refusal(Expression::Variable("x".to_string()).to_lir(&mut heap)),
        "变量 'x' 需要在运行时解析"
    );
    let binary = Expression::Binary(Box::new(BinaryExpression {
        left: integer(1),
        operator: "+".to_string(),
        right: integer(2),
    }));
    assert_eq!(refusal(binary.to_lir(&mut heap)), "二元表达式需要在运行时计算");
    let conditional = Statement::If(IfStatement {
        condition: integer(1),
        then_branch: Vec::new(),
        else_branch: None,
    });
    assert_eq!(refusal(conditional.to_lir(&mut heap)), "条件语句需要在运行时执行");
    // A refusal inside a list refuses the list, after the items before it
    // were allocated.
    let list = Literal::List(vec![integer(1), Expression::Variable("y".to_string()), integer(3)]);
    assert_eq!(refusal(list.to_lir(&mut heap)), "变量 'y' 需要在运行时解析");
    assert_eq!(heap.total_memory(), 1);
}

#[test]
fn functions_lower_to_records_without_body() {
    let mut heap = Heap::new();
    let lambda = LambdaExpression { parameters: vec!["x".to_string()], body: integer(1) };
    match lambda.to_lir(&mut heap) {
        Ok(Value::Function(f)) => {
            assert_eq!(f.name, None);
            assert_eq!(f.parameters, vec!["x".to_string()]);
            assert_eq!((f.body_start, f.body_size, f.environment), (0, 0, 0));
        }
        other => panic!("Expected function, got {:?}", other),
    }
    let definition = FunctionDefinition {
        name: "f".to_string(),
        parameters: Vec::new(),
        body: Vec::new(),
    };
    let exported = Statement::Export(ExportStatement {
        declaration: Box::new(Statement::FunctionDeclaration(definition)),
    });
    match exported.to_lir(&mut heap) {
        Ok(Value::Function(f)) => {
            assert_eq!(f.name, Some("f".to_string()));
            assert_eq!(f.environment, 1);
        }
        other => panic!("Expected function, got {:?}", other),
    }
}

#[test]
fn programs_lower_to_the_vector_of_their_statements() {
    let mut heap = Heap::new();
    let mut program = Program::new();
    program.add_statement(Statement::Expression(integer(1)));
    program.add_statement(Statement::VariableDeclaration(VariableDeclaration {
        name: "v".to_string(),
        type_annotation: None,
        initializer: None,
        is_constant: false,
    }));
    program.add_statement(Statement::Return(Some(integer(2))));
    program.add_statement(Statement::Block(vec![Statement::Throw(integer(3))]));
    match program.to_lir(&mut heap) {
        Ok(Value::Vector(handles)) => assert_eq!(handles, vec![0, 1, 2, 4]),
        other => panic!("Expected vector, got {:?}", other),
    }
    assert!(matches!(heap.get_value(1), Some(Value::Null)));
}

#[test]
fn methods_are_found_along_the_parents() {
    let mut heap = Heap::new();
    let mut base = Class::new("Base");
    base.add_method("area", Gc::new(40));
    base.add_method("name", Gc::new(41));
    let base_handle = heap.allocate(Value::Class(base));
    let mut derived = Class::new("Derived");
    derived.add_method("name", Gc::new(42));
    derived.parent = Some(base_handle.index);
    assert_eq!(derived.find_method(&heap, "name").unwrap().index, 42);
    assert_eq!(derived.find_method(&heap, "area").unwrap().index, 40);
    assert!(derived.find_method(&heap, "none").is_none());
}

#[test]
fn a_circle_of_parents_ends_the_search() {
    let mut heap = Heap::new();
    let mut first = Class::new("First");
    first.parent = Some(1);
    heap.allocate(Value::Class(first));
    let mut second = Class::new("Second");
    second.parent = Some(0);
    heap.allocate(Value::Class(second));
    let mut start = Class::new("Start");
    start.parent = Some(0);
    assert!(start.find_method(&heap, "m").is_none());
    let probe = NyarTrait::new("T");
    assert!(!probe.is_implemented_by(&heap, &start));
}

#[test]
fn traits_are_implemented_through_parents() {
    let mut heap = Heap::new();
    let mut comparable = NyarTrait::new("Comparable");
    comparable.add_method_signature(MethodSignature {
        name: "compare".to_string(),
        parameter_types: vec!["Any".to_string()],
        return_type: "Integer".to_string(),
    });
    assert_eq!(comparable.methods.len(), 1);
    let declared = heap.allocate(Value::Trait(NyarTrait::new("Comparable")));
    let mut base = Class::new("Base");
    base.traits.push(declared.index);
    let base_handle = heap.allocate(Value::Class(base));
    let mut derived = Class::new("Derived");
    derived.parent = Some(base_handle.index);
    assert!(comparable.is_implemented_by(&heap, &derived));
    assert!(!NyarTrait::new("Hashable").is_implemented_by(&heap, &derived));
    assert!(!comparable.is_implemented_by(&heap, &Class::new("Other")));
}

#[test]
fn enums_collect_variants() {
    let mut options = Enum::new("Option");
    options.add_variant("None", Gc::new(3));
    options.add_variant("Some", Gc::new(4));
    options.add_variant("None", Gc::new(5));
    assert_eq!(options.variants.len(), 2);
    assert_eq!(options.variants.get("None"), Some(5));
}
