//! Casting behavior and the fatal error variants of evaluation.

use vexpr::builtins::builtin_functions;
use vexpr::error::EvalError;
use vexpr::expr::Expr;
use vexpr::function::eval_function;
use vexpr::function::Evaluator;
use vexpr::function::Kernel1;
use vexpr::expr::Literal;
use vexpr::expr::AST;
use vexpr::property::ValueProperty;
use vexpr::runtime::Runtime;
use vexpr::type_check::check;
use vexpr::type_check::common_super_type;
use vexpr::types::DataType;
use vexpr::values::Column;
use vexpr::values::Scalar;
use vexpr::values::Value;

fn empty_runtime() -> Runtime {
    Runtime { columns: vec![] }
}

#[test]
fn cast_to_the_own_type_is_identity() {
    let rt = empty_runtime();
    let cases: Vec<(Value, DataType)> = vec![
        (Value::Scalar(Scalar::UInt16(9)), DataType::UInt16),
        (Value::Scalar(Scalar::Null), DataType::Null),
        (
            Value::Scalar(Scalar::Tuple(vec![Scalar::Boolean(true), Scalar::Int8(-1)])),
            DataType::Tuple(vec![DataType::Boolean, DataType::Int8]),
        ),
        (
            Value::Column(Column::Nullable {
                column: Box::new(Column::Int16(vec![5, 6])),
                validity: vec![true, false],
            }),
            DataType::Nullable(Box::new(DataType::Int16)),
        ),
        (
            Value::Column(Column::Array {
                array: Box::new(Column::UInt8(vec![1, 2, 3])),
                offsets: vec![(0, 2), (2, 3)],
            }),
            DataType::Array(Box::new(DataType::UInt8)),
        ),
    ];
    for (value, ty) in cases {
        let expected = value.clone();
        assert_eq!(rt.run_cast(value, &ty), Ok(expected));
    }
}

#[test]
fn cast_composition_agrees_with_the_direct_cast() {
    let rt = empty_runtime();
    let a = Value::Scalar(Scalar::UInt8(200));
    let b = DataType::UInt16;
    let c = DataType::Nullable(Box::new(DataType::UInt16));
    let via_b = rt.run_cast(a.clone(), &b).unwrap();
    let chained = rt.run_cast(via_b, &c).unwrap();
    let direct = rt.run_cast(a, &c).unwrap();
    assert_eq!(chained, direct);

    let col = Value::Column(Column::UInt8(vec![0, 255]));
    let via_b = rt.run_cast(col.clone(), &b).unwrap();
    let chained = rt.run_cast(via_b, &c).unwrap();
    let direct = rt.run_cast(col, &c).unwrap();
    match (&chained, &direct) {
        (Value::Column(x), Value::Column(y)) => {
            assert_eq!(x.len(), y.len());
            for i in 0..x.len() {
                assert_eq!(x.index(i), y.index(i));
            }
        }
        other => panic!("expected columns, got {:?}", other),
    }
}

#[test]
fn widening_casts_change_the_machine_type() {
    let rt = empty_runtime();
    assert_eq!(
        rt.run_cast(Value::Scalar(Scalar::UInt8(250)), &DataType::Int16),
        Ok(Value::Scalar(Scalar::Int16(250)))
    );
    assert_eq!(
        rt.run_cast(Value::Scalar(Scalar::Int8(-3)), &DataType::Int16),
        Ok(Value::Scalar(Scalar::Int16(-3)))
    );
}

#[test]
fn a_null_column_casts_to_an_all_null_nullable_column() {
    let rt = empty_runtime();
    let out = rt
        .run_cast(
            Value::Column(Column::Null { len: 3 }),
            &DataType::Nullable(Box::new(DataType::Boolean)),
        )
        .unwrap();
    match out {
        Value::Column(col) => {
            assert_eq!(col.len(), 3);
            for i in 0..3 {
                assert_eq!(col.index(i), Scalar::Null);
            }
        }
        other => panic!("expected a column, got {:?}", other),
    }
}

#[test]
fn an_empty_array_column_casts_to_empty_typed_arrays() {
    let rt = empty_runtime();
    let out = rt
        .run_cast(
            Value::Column(Column::EmptyArray { len: 2 }),
            &DataType::Array(Box::new(DataType::Int16)),
        )
        .unwrap();
    match out {
        Value::Column(col) => {
            assert_eq!(col.len(), 2);
            assert_eq!(col.index(0), Scalar::Array(Column::Int16(vec![])));
        }
        other => panic!("expected a column, got {:?}", other),
    }
}

#[test]
fn an_uncovered_cast_is_a_fatal_error() {
    let rt = empty_runtime();
    assert_eq!(
        rt.run_cast(Value::Scalar(Scalar::Boolean(true)), &DataType::Int16),
        Err(EvalError::UnsupportedCast)
    );
}

#[test]
fn a_missing_column_is_a_fatal_error() {
    let registry = builtin_functions();
    let ast = AST::ColumnRef {
        name: "missing".to_string(),
        data_type: DataType::Int16,
        property: ValueProperty { not_null: true },
    };
    let (expr, _, _) = check(&ast, &registry).unwrap();
    let rt = empty_runtime();
    assert_eq!(rt.run(&expr), Err(EvalError::UnknownColumn));
}

#[test]
fn get_out_of_range_is_a_fatal_error() {
    let registry = builtin_functions();
    let ast = AST::FunctionCall {
        name: "get".to_string(),
        params: vec![],
        args: vec![
            AST::FunctionCall {
                name: "create_array".to_string(),
                params: vec![],
                args: vec![
                    AST::Literal(Literal::Int16(1)),
                    AST::Literal(Literal::Int16(2)),
                ],
            },
            AST::Literal(Literal::Int16(9)),
        ],
    };
    let (expr, _, _) = check(&ast, &registry).unwrap();
    let rt = empty_runtime();
    assert_eq!(rt.run(&expr), Err(EvalError::IndexOutOfRange));
}

#[test]
fn common_super_type_is_commutative_on_samples() {
    let samples = vec![
        DataType::Null,
        DataType::Boolean,
        DataType::UInt8,
        DataType::UInt16,
        DataType::Int8,
        DataType::Int16,
        DataType::EmptyArray,
        DataType::Nullable(Box::new(DataType::UInt8)),
        DataType::Array(Box::new(DataType::Int8)),
        DataType::Nullable(Box::new(DataType::Int16)),
    ];
    for a in &samples {
        for b in &samples {
            assert_eq!(
                common_super_type(a.clone(), b.clone()),
                common_super_type(b.clone(), a.clone())
            );
        }
    }
}

#[test]
fn common_super_type_widens_integers() {
    assert_eq!(
        common_super_type(DataType::UInt8, DataType::Int16),
        Some(DataType::Int16)
    );
    assert_eq!(
        common_super_type(DataType::Null, DataType::Nullable(Box::new(DataType::UInt8))),
        Some(DataType::Nullable(Box::new(DataType::UInt8)))
    );
    assert_eq!(common_super_type(DataType::Null, DataType::Boolean), None);
}

#[test]
fn iter_lists_every_row_in_order() {
    let col = Column::Nullable {
        column: Box::new(Column::UInt8(vec![1, 2, 3])),
        validity: vec![true, false, true],
    };
    let rows = col.iter();
    assert_eq!(
        rows,
        vec![Scalar::UInt8(1), Scalar::Null, Scalar::UInt8(3)]
    );
}

#[test]
fn an_unresolved_generic_in_a_cast_is_a_fatal_error() {
    let expr = Expr::Cast {
        expr: Box::new(Expr::Literal(Literal::Int16(1))),
        dest_type: DataType::Generic(0),
    };
    let rt = empty_runtime();
    assert_eq!(rt.run(&expr), Err(EvalError::UnresolvedGeneric));
}

#[test]
fn evaluators_reject_the_wrong_number_of_arguments() {
    let args = vec![
        Value::Scalar(Scalar::Boolean(true)),
        Value::Scalar(Scalar::Boolean(true)),
    ];
    assert_eq!(
        eval_function(Evaluator::Vector1(Kernel1::Not), &args, &vec![]),
        Err(EvalError::ArityMismatch)
    );
}

#[test]
fn least_folds_over_columns_too() {
    let registry = builtin_functions();
    let ast = AST::FunctionCall {
        name: "least".to_string(),
        params: vec![],
        args: vec![
            AST::ColumnRef {
                name: "a".to_string(),
                data_type: DataType::Int16,
                property: ValueProperty { not_null: true },
            },
            AST::Literal(Literal::Int16(3)),
        ],
    };
    let (expr, _, _) = check(&ast, &registry).unwrap();
    let rt = Runtime {
        columns: vec![("a".to_string(), Column::Int16(vec![1, 5, 2]))],
    };
    let result = rt.run(&expr).unwrap();
    match result {
        Value::Column(col) => {
            assert_eq!(col.index(0), Scalar::Int16(1));
            assert_eq!(col.index(1), Scalar::Int16(3));
            assert_eq!(col.index(2), Scalar::Int16(2));
        }
        other => panic!("expected a column, got {:?}", other),
    }
}
