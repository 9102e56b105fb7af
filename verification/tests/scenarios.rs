//! End-to-end scenarios: check an untyped expression against the reference
//! catalog, evaluate it, and compare results row by row.

use vexpr::builtins::builtin_functions;
use vexpr::expr::Literal;
use vexpr::expr::AST;
use vexpr::property::ValueProperty;
use vexpr::runtime::Runtime;
use vexpr::types::DataType;
use vexpr::values::Column;
use vexpr::values::Scalar;
use vexpr::values::Value;

fn call(name: &str, args: Vec<AST>) -> AST {
    AST::FunctionCall { name: name.to_string(), params: vec![], args }
}

fn call_with_params(name: &str, params: Vec<usize>, args: Vec<AST>) -> AST {
    AST::FunctionCall { name: name.to_string(), params, args }
}

fn column_ref(name: &str, data_type: DataType, not_null: bool) -> AST {
    AST::ColumnRef {
        name: name.to_string(),
        data_type,
        property: ValueProperty { not_null },
    }
}

fn runtime(columns: Vec<(&str, Column)>) -> Runtime {
    Runtime {
        columns: columns.into_iter().map(|(n, c)| (n.to_string(), c)).collect(),
    }
}

fn nullable(child: Column, validity: Vec<bool>) -> Column {
    Column::Nullable { column: Box::new(child), validity }
}

#[test]
fn and_of_two_booleans() {
    let registry = builtin_functions();
    let ast = call(
        "and",
        vec![
            AST::Literal(Literal::Boolean(true)),
            AST::Literal(Literal::Boolean(false)),
        ],
    );
    let (expr, ty, prop) = vexpr::type_check::check(&ast, &registry).unwrap();
    assert_eq!(ty, DataType::Boolean);
    assert!(prop.not_null);
    let rt = runtime(vec![]);
    let result = rt.run(&expr).unwrap();
    assert_eq!(result, Value::Scalar(Scalar::Boolean(false)));
}

#[test]
fn and_with_null_argument() {
    let registry = builtin_functions();
    let ast = call(
        "and",
        vec![
            AST::Literal(Literal::Null),
            AST::Literal(Literal::Boolean(false)),
        ],
    );
    let (expr, ty, prop) = vexpr::type_check::check(&ast, &registry).unwrap();
    assert_eq!(ty, DataType::Nullable(Box::new(DataType::Boolean)));
    assert!(!prop.not_null);
    let rt = runtime(vec![]);
    let result = rt.run(&expr).unwrap();
    assert_eq!(result, Value::Scalar(Scalar::Null));
}

#[test]
fn plus_nullable_column_and_literal() {
    let registry = builtin_functions();
    let ast = call(
        "plus",
        vec![
            column_ref(
                "a",
                DataType::Nullable(Box::new(DataType::UInt8)),
                false,
            ),
            AST::Literal(Literal::Int8(-10)),
        ],
    );
    let (expr, ty, _prop) = vexpr::type_check::check(&ast, &registry).unwrap();
    assert_eq!(ty, DataType::Nullable(Box::new(DataType::Int16)));
    let rt = runtime(vec![(
        "a",
        nullable(Column::UInt8(vec![10, 11, 12]), vec![true, false, true]),
    )]);
    let result = rt.run(&expr).unwrap();
    match result {
        Value::Column(col) => {
            assert_eq!(col.len(), 3);
            assert_eq!(col.index(0), Scalar::Int16(0));
            assert_eq!(col.index(1), Scalar::Null);
            assert_eq!(col.index(2), Scalar::Int16(2));
        }
        other => panic!("expected a column, got {:?}", other),
    }
}

#[test]
fn not_of_nullable_boolean_column() {
    let registry = builtin_functions();
    let ast = call(
        "not",
        vec![column_ref(
            "a",
            DataType::Nullable(Box::new(DataType::Boolean)),
            false,
        )],
    );
    let (expr, ty, _prop) = vexpr::type_check::check(&ast, &registry).unwrap();
    assert_eq!(ty, DataType::Nullable(Box::new(DataType::Boolean)));
    let rt = runtime(vec![(
        "a",
        nullable(
            Column::Boolean(vec![true, false, true]),
            vec![true, false, true],
        ),
    )]);
    let result = rt.run(&expr).unwrap();
    match result {
        Value::Column(col) => {
            assert_eq!(col.index(0), Scalar::Boolean(false));
            assert_eq!(col.index(1), Scalar::Null);
            assert_eq!(col.index(2), Scalar::Boolean(false));
        }
        other => panic!("expected a column, got {:?}", other),
    }
}

#[test]
fn least_of_four_literals() {
    let registry = builtin_functions();
    let ast = call(
        "least",
        vec![
            AST::Literal(Literal::UInt8(10)),
            AST::Literal(Literal::UInt8(20)),
            AST::Literal(Literal::UInt8(30)),
            AST::Literal(Literal::UInt8(40)),
        ],
    );
    let (expr, ty, _prop) = vexpr::type_check::check(&ast, &registry).unwrap();
    assert_eq!(ty, DataType::Int16);
    let rt = runtime(vec![]);
    let result = rt.run(&expr).unwrap();
    assert_eq!(result, Value::Scalar(Scalar::Int16(10)));
}

#[test]
fn get_tuple_returns_one_field() {
    let registry = builtin_functions();
    let ast = call_with_params(
        "get_tuple",
        vec![1],
        vec![call(
            "create_tuple",
            vec![
                column_ref("a", DataType::Int16, true),
                column_ref(
                    "b",
                    DataType::Nullable(Box::new(DataType::String)),
                    false,
                ),
            ],
        )],
    );
    let (expr, ty, _prop) = vexpr::type_check::check(&ast, &registry).unwrap();
    assert_eq!(ty, DataType::Nullable(Box::new(DataType::String)));
    let b = nullable(
        Column::String(vec![
            "a".to_string(),
            "b".to_string(),
            String::new(),
            String::new(),
            String::new(),
        ]),
        vec![true, true, false, false, false],
    );
    let rt = runtime(vec![
        ("a", Column::Int16(vec![0, 1, 2, 3, 4])),
        ("b", b.clone()),
    ]);
    let result = rt.run(&expr).unwrap();
    match result {
        Value::Column(col) => {
            assert_eq!(col.len(), 5);
            for i in 0..5 {
                assert_eq!(col.index(i), b.index(i));
            }
        }
        other => panic!("expected a column, got {:?}", other),
    }
}

#[test]
fn get_of_created_array_returns_first_argument_rowwise() {
    let registry = builtin_functions();
    let ast = call(
        "get",
        vec![
            call(
                "create_array",
                vec![
                    column_ref("a", DataType::Int16, true),
                    column_ref("b", DataType::Int16, true),
                ],
            ),
            AST::Literal(Literal::Int16(0)),
        ],
    );
    let (expr, ty, _prop) = vexpr::type_check::check(&ast, &registry).unwrap();
    assert_eq!(ty, DataType::Int16);
    let rt = runtime(vec![
        ("a", Column::Int16(vec![0, 1, 2, 3, 4])),
        ("b", Column::Int16(vec![5, 6, 7, 8, 9])),
    ]);
    let result = rt.run(&expr).unwrap();
    match result {
        Value::Column(col) => {
            assert_eq!(col.len(), 5);
            for i in 0..5 {
                assert_eq!(col.index(i), Scalar::Int16(i as i16));
            }
        }
        other => panic!("expected a column, got {:?}", other),
    }
}

#[test]
fn create_tuple_of_scalars() {
    let registry = builtin_functions();
    let ast = call(
        "create_tuple",
        vec![
            AST::Literal(Literal::Null),
            AST::Literal(Literal::Boolean(true)),
        ],
    );
    let (expr, ty, _prop) = vexpr::type_check::check(&ast, &registry).unwrap();
    assert_eq!(
        ty,
        DataType::Tuple(vec![DataType::Null, DataType::Boolean])
    );
    let rt = runtime(vec![]);
    let result = rt.run(&expr).unwrap();
    assert_eq!(
        result,
        Value::Scalar(Scalar::Tuple(vec![Scalar::Null, Scalar::Boolean(true)]))
    );
}

#[test]
fn zero_arity_create_array_is_the_empty_array() {
    let registry = builtin_functions();
    let ast = call("create_array", vec![]);
    let (expr, ty, _prop) = vexpr::type_check::check(&ast, &registry).unwrap();
    assert_eq!(ty, DataType::EmptyArray);
    let rt = runtime(vec![]);
    let result = rt.run(&expr).unwrap();
    assert_eq!(result, Value::Scalar(Scalar::EmptyArray));
}

#[test]
fn unresolvable_call_is_reported_as_none() {
    let registry = builtin_functions();
    let ast = call(
        "and",
        vec![
            AST::Literal(Literal::String("x".to_string())),
            AST::Literal(Literal::Boolean(true)),
        ],
    );
    assert!(vexpr::type_check::check(&ast, &registry).is_none());
}

#[test]
fn create_array_widens_mixed_integer_arguments() {
    let registry = builtin_functions();
    let ast = call(
        "create_array",
        vec![
            AST::Literal(Literal::UInt8(7)),
            AST::Literal(Literal::UInt16(300)),
        ],
    );
    let (expr, ty, _prop) = vexpr::type_check::check(&ast, &registry).unwrap();
    assert_eq!(ty, DataType::Array(Box::new(DataType::UInt16)));
    let rt = runtime(vec![]);
    let result = rt.run(&expr).unwrap();
    assert_eq!(
        result,
        Value::Scalar(Scalar::Array(Column::UInt16(vec![7, 300])))
    );
}

#[test]
fn nested_arrays_resolve_through_generics() {
    let registry = builtin_functions();
    let ast = call(
        "get",
        vec![
            column_ref(
                "array",
                DataType::Array(Box::new(DataType::Array(Box::new(DataType::Int16)))),
                true,
            ),
            AST::Literal(Literal::Int16(1)),
        ],
    );
    let (expr, ty, _prop) = vexpr::type_check::check(&ast, &registry).unwrap();
    assert_eq!(ty, DataType::Array(Box::new(DataType::Int16)));
    let inner = Column::Array {
        array: Box::new(Column::Int16(vec![0, 1, 2, 3])),
        offsets: vec![(0, 2), (2, 4)],
    };
    let outer = Column::Array {
        array: Box::new(inner),
        offsets: vec![(0, 2)],
    };
    let rt = runtime(vec![("array", outer)]);
    let result = rt.run(&expr).unwrap();
    match result {
        Value::Column(colv) => {
            assert_eq!(colv.len(), 1);
            assert_eq!(
                colv.index(0),
                Scalar::Array(Column::Int16(vec![2, 3]))
            );
        }
        other => panic!("expected a column, got {:?}", other),
    }
}

#[test]
fn get_tuple_on_a_nullable_tuple_merges_the_null_masks() {
    let registry = builtin_functions();
    let ast = call_with_params(
        "get_tuple",
        vec![1],
        vec![column_ref(
            "a",
            DataType::Nullable(Box::new(DataType::Tuple(vec![
                DataType::Boolean,
                DataType::String,
            ]))),
            true,
        )],
    );
    let (expr, ty, _prop) = vexpr::type_check::check(&ast, &registry).unwrap();
    assert_eq!(ty, DataType::Nullable(Box::new(DataType::String)));
    let tuple = Column::Tuple {
        fields: vec![
            Column::Boolean(vec![false, true, false, true, false]),
            Column::String(vec![
                "a".to_string(),
                "b".to_string(),
                "c".to_string(),
                "d".to_string(),
                "e".to_string(),
            ]),
        ],
        len: 5,
    };
    let rt = runtime(vec![(
        "a",
        nullable(tuple, vec![true, true, false, false, false]),
    )]);
    let result = rt.run(&expr).unwrap();
    match result {
        Value::Column(col) => {
            assert_eq!(col.len(), 5);
            assert_eq!(col.index(0), Scalar::String("a".to_string()));
            assert_eq!(col.index(1), Scalar::String("b".to_string()));
            assert_eq!(col.index(2), Scalar::Null);
            assert_eq!(col.index(3), Scalar::Null);
            assert_eq!(col.index(4), Scalar::Null);
        }
        other => panic!("expected a column, got {:?}", other),
    }
}

#[test]
fn get_tuple_on_a_nullable_tuple_keeps_inner_nulls() {
    let registry = builtin_functions();
    let ast = call_with_params(
        "get_tuple",
        vec![0],
        vec![column_ref(
            "a",
            DataType::Nullable(Box::new(DataType::Tuple(vec![DataType::Nullable(
                Box::new(DataType::Int16),
            )]))),
            false,
        )],
    );
    let (expr, ty, _prop) = vexpr::type_check::check(&ast, &registry).unwrap();
    // Nullability never nests: the nullable field stays singly nullable.
    assert_eq!(ty, DataType::Nullable(Box::new(DataType::Int16)));
    let tuple = Column::Tuple {
        fields: vec![nullable(Column::Int16(vec![1, 2, 3]), vec![true, false, true])],
        len: 3,
    };
    let rt = runtime(vec![("a", nullable(tuple, vec![true, true, false]))]);
    let result = rt.run(&expr).unwrap();
    match result {
        Value::Column(col) => {
            assert_eq!(col.index(0), Scalar::Int16(1));
            assert_eq!(col.index(1), Scalar::Null);
            assert_eq!(col.index(2), Scalar::Null);
        }
        other => panic!("expected a column, got {:?}", other),
    }
}
