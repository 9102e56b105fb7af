//! The value model: builders, slicing, indexing, repetition and the error
//! cases of pushing and appending.

use vexpr::error::EvalError;
use vexpr::types::DataType;
use vexpr::values::Column;
use vexpr::values::ColumnBuilder;
use vexpr::values::Scalar;

#[test]
fn builder_round_trip_over_every_variant() {
    let source_col = Column::Tuple {
        fields: vec![
            Column::Int16(vec![1, 2, 3]),
            Column::Nullable {
                column: Box::new(Column::String(vec![
                    "x".to_string(),
                    "y".to_string(),
                    "z".to_string(),
                ])),
                validity: vec![true, false, true],
            },
            Column::Array {
                array: Box::new(Column::UInt8(vec![7, 8, 9])),
                offsets: vec![(0, 1), (1, 3), (3, 3)],
            },
        ],
        len: 3,
    };
    let ty = DataType::Tuple(vec![
        DataType::Int16,
        DataType::Nullable(Box::new(DataType::String)),
        DataType::Array(Box::new(DataType::UInt8)),
    ]);
    let mut builder = ColumnBuilder::with_capacity(&ty, 3);
    for i in 0..source_col.len() {
        builder.push(&source_col.index(i)).unwrap();
    }
    let rebuilt = builder.build();
    assert_eq!(rebuilt.len(), source_col.len());
    for i in 0..source_col.len() {
        assert_eq!(rebuilt.index(i), source_col.index(i));
    }
}

#[test]
fn slice_and_index_are_consistent() {
    let col = Column::Array {
        array: Box::new(Column::Int16(vec![0, 1, 2, 3, 4, 5])),
        offsets: vec![(0, 2), (2, 4), (4, 6), (0, 6)],
    };
    let sliced = col.slice(1, 3);
    assert_eq!(sliced.len(), 2);
    for i in 0..2 {
        assert_eq!(sliced.index(i), col.index(1 + i));
    }
}

#[test]
fn push_of_a_mismatched_scalar_is_refused() {
    let mut builder = ColumnBuilder::with_capacity(&DataType::Int16, 0);
    let r = builder.push(&Scalar::Boolean(true));
    assert_eq!(r, Err(EvalError::TypeMismatch));
    builder.push(&Scalar::Int16(5)).unwrap();
    assert_eq!(builder.build(), Column::Int16(vec![5]));
}

#[test]
fn append_concatenates_rows_in_order() {
    let mut builder = ColumnBuilder::from_column(Column::UInt8(vec![1, 2]));
    let other = ColumnBuilder::from_column(Column::UInt8(vec![3]));
    builder.append(&other).unwrap();
    assert_eq!(builder.build(), Column::UInt8(vec![1, 2, 3]));
}

#[test]
fn append_of_a_different_type_is_refused() {
    let mut builder = ColumnBuilder::from_column(Column::UInt8(vec![1]));
    let other = ColumnBuilder::from_column(Column::Int8(vec![1]));
    assert_eq!(builder.append(&other), Err(EvalError::TypeMismatch));
}

#[test]
fn append_rebases_array_offsets() {
    let mut builder = ColumnBuilder::from_column(Column::Array {
        array: Box::new(Column::Int16(vec![10, 11])),
        offsets: vec![(0, 2)],
    });
    let other = ColumnBuilder::from_column(Column::Array {
        array: Box::new(Column::Int16(vec![20])),
        offsets: vec![(0, 1)],
    });
    builder.append(&other).unwrap();
    let col = builder.build();
    assert_eq!(col.len(), 2);
    assert_eq!(col.index(0), Scalar::Array(Column::Int16(vec![10, 11])));
    assert_eq!(col.index(1), Scalar::Array(Column::Int16(vec![20])));
}

#[test]
fn repeat_broadcasts_a_scalar() {
    let scalar = Scalar::Tuple(vec![Scalar::Int16(7), Scalar::Null]);
    let col = scalar.repeat(4).build();
    assert_eq!(col.len(), 4);
    for i in 0..4 {
        assert_eq!(col.index(i), scalar);
    }
}

#[test]
fn push_default_pushes_a_null_row_on_nullable_builders() {
    let ty = DataType::Nullable(Box::new(DataType::Boolean));
    let mut builder = ColumnBuilder::with_capacity(&ty, 2);
    builder.push_default().unwrap();
    builder.push(&Scalar::Boolean(true)).unwrap();
    let col = builder.build();
    assert_eq!(col.index(0), Scalar::Null);
    assert_eq!(col.index(1), Scalar::Boolean(true));
}

#[test]
fn build_scalar_returns_the_single_row() {
    let ty = DataType::Array(Box::new(DataType::Int16));
    let mut builder = ColumnBuilder::with_capacity(&ty, 1);
    builder
        .push(&Scalar::Array(Column::Int16(vec![4, 5])))
        .unwrap();
    assert_eq!(
        builder.build_scalar(),
        Scalar::Array(Column::Int16(vec![4, 5]))
    );
}

#[test]
fn nullable_index_hides_the_stored_value() {
    let col = Column::Nullable {
        column: Box::new(Column::Int16(vec![42, 43])),
        validity: vec![false, true],
    };
    assert_eq!(col.index(0), Scalar::Null);
    assert_eq!(col.index(1), Scalar::Int16(43));
}
