//! Display forms and the null-propagation behavior of two-column calls.

use vexpr::builtins::builtin_functions;
use vexpr::expr::Literal;
use vexpr::expr::AST;
use vexpr::property::ValueProperty;
use vexpr::runtime::Runtime;
use vexpr::types::DataType;
use vexpr::values::Column;
use vexpr::values::Scalar;
use vexpr::values::Value;

#[test]
fn data_type_display_uses_sql_like_names() {
    assert_eq!(
        DataType::Nullable(Box::new(DataType::Int16)).sql_display(),
        "Nullable<Int16>"
    );
    assert_eq!(
        DataType::Array(Box::new(DataType::String)).sql_display(),
        "Array<String>"
    );
    assert_eq!(
        DataType::Tuple(vec![DataType::Boolean, DataType::UInt8]).sql_display(),
        "(Boolean, UInt8)"
    );
    assert_eq!(
        DataType::Tuple(vec![DataType::Boolean]).sql_display(),
        "(Boolean,)"
    );
    assert_eq!(DataType::Null.sql_display(), "Nullable<?>");
    assert_eq!(DataType::EmptyArray.sql_display(), "Array<?>");
    assert_eq!(DataType::Generic(12).sql_display(), "T12");
}

#[test]
fn literal_display_carries_the_type_suffix() {
    assert_eq!(Literal::Null.display(), "NULL");
    assert_eq!(Literal::Boolean(true).display(), "true::Boolean");
    assert_eq!(Literal::Int8(-10).display(), "-10::Int8");
    assert_eq!(Literal::UInt16(300).display(), "300::UInt16");
    assert_eq!(Literal::String("hi".to_string()).display(), "hi::String");
}

#[test]
fn ast_display_shows_calls_and_references() {
    let ast = AST::FunctionCall {
        name: "get_tuple".to_string(),
        params: vec![1],
        args: vec![AST::ColumnRef {
            name: "t".to_string(),
            data_type: DataType::Tuple(vec![DataType::Int16, DataType::Boolean]),
            property: ValueProperty { not_null: true },
        }],
    };
    assert_eq!(
        ast.display(),
        "get_tuple(1)(t::(Int16, Boolean){not_null})"
    );
}

#[test]
fn expr_display_shows_casts_and_signatures() {
    let registry = builtin_functions();
    let ast = AST::FunctionCall {
        name: "and".to_string(),
        params: vec![],
        args: vec![
            AST::Literal(Literal::Null),
            AST::Literal(Literal::Boolean(false)),
        ],
    };
    let (expr, _, _) = vexpr::type_check::check(&ast, &registry).unwrap();
    assert_eq!(
        expr.display(),
        "and<Nullable<Boolean>, Nullable<Boolean>>(\
         cast<dest_type=Nullable<Boolean>>(NULL){}, \
         cast<dest_type=Nullable<Boolean>>(false::Boolean){not_null})"
    );
}

#[test]
fn output_null_mask_is_the_or_of_the_input_null_masks() {
    let registry = builtin_functions();
    let ast = AST::FunctionCall {
        name: "plus".to_string(),
        params: vec![],
        args: vec![
            AST::ColumnRef {
                name: "a".to_string(),
                data_type: DataType::Nullable(Box::new(DataType::Int16)),
                property: ValueProperty { not_null: false },
            },
            AST::ColumnRef {
                name: "b".to_string(),
                data_type: DataType::Nullable(Box::new(DataType::Int16)),
                property: ValueProperty { not_null: false },
            },
        ],
    };
    let (expr, _, _) = vexpr::type_check::check(&ast, &registry).unwrap();
    let rt = Runtime {
        columns: vec![
            (
                "a".to_string(),
                Column::Nullable {
                    column: Box::new(Column::Int16(vec![1, 2, 3, 4])),
                    validity: vec![true, true, false, false],
                },
            ),
            (
                "b".to_string(),
                Column::Nullable {
                    column: Box::new(Column::Int16(vec![10, 20, 30, 40])),
                    validity: vec![true, false, true, false],
                },
            ),
        ],
    };
    let result = rt.run(&expr).unwrap();
    match result {
        Value::Column(col) => {
            assert_eq!(col.index(0), Scalar::Int16(11));
            assert_eq!(col.index(1), Scalar::Null);
            assert_eq!(col.index(2), Scalar::Null);
            assert_eq!(col.index(3), Scalar::Null);
        }
        other => panic!("expected a column, got {:?}", other),
    }
}

#[test]
fn replacing_any_row_with_null_nullifies_that_output_row() {
    let registry = builtin_functions();
    let ast = AST::FunctionCall {
        name: "not".to_string(),
        params: vec![],
        args: vec![AST::ColumnRef {
            name: "a".to_string(),
            data_type: DataType::Nullable(Box::new(DataType::Boolean)),
            property: ValueProperty { not_null: false },
        }],
    };
    let (expr, _, _) = vexpr::type_check::check(&ast, &registry).unwrap();
    for null_row in 0..3 {
        let validity: Vec<bool> = (0..3).map(|i| i != null_row).collect();
        let rt = Runtime {
            columns: vec![(
                "a".to_string(),
                Column::Nullable {
                    column: Box::new(Column::Boolean(vec![true, true, true])),
                    validity,
                },
            )],
        };
        let result = rt.run(&expr).unwrap();
        match result {
            Value::Column(col) => {
                for i in 0..3 {
                    if i == null_row {
                        assert_eq!(col.index(i), Scalar::Null);
                    } else {
                        assert_eq!(col.index(i), Scalar::Boolean(false));
                    }
                }
            }
            other => panic!("expected a column, got {:?}", other),
        }
    }
}

#[test]
fn scalar_and_repeated_scalar_agree_rowwise() {
    let registry = builtin_functions();
    let broadcast = AST::FunctionCall {
        name: "plus".to_string(),
        params: vec![],
        args: vec![
            AST::Literal(Literal::Int16(5)),
            AST::ColumnRef {
                name: "b".to_string(),
                data_type: DataType::Int16,
                property: ValueProperty { not_null: true },
            },
        ],
    };
    let repeated = AST::FunctionCall {
        name: "plus".to_string(),
        params: vec![],
        args: vec![
            AST::ColumnRef {
                name: "a".to_string(),
                data_type: DataType::Int16,
                property: ValueProperty { not_null: true },
            },
            AST::ColumnRef {
                name: "b".to_string(),
                data_type: DataType::Int16,
                property: ValueProperty { not_null: true },
            },
        ],
    };
    let b = Column::Int16(vec![1, 2, 3]);
    let a = Scalar::Int16(5).repeat(3).build();
    let rt1 = Runtime { columns: vec![("b".to_string(), b.clone())] };
    let rt2 = Runtime {
        columns: vec![("a".to_string(), a), ("b".to_string(), b)],
    };
    let (e1, _, _) = vexpr::type_check::check(&broadcast, &registry).unwrap();
    let (e2, _, _) = vexpr::type_check::check(&repeated, &registry).unwrap();
    let r1 = rt1.run(&e1).unwrap();
    let r2 = rt2.run(&e2).unwrap();
    match (r1, r2) {
        (Value::Column(c1), Value::Column(c2)) => {
            assert_eq!(c1.len(), 3);
            for i in 0..3 {
                assert_eq!(c1.index(i), c2.index(i));
                assert_eq!(c1.index(i), Scalar::Int16(5 + 1 + i as i16));
            }
        }
        other => panic!("expected columns, got {:?}", other),
    }
}
