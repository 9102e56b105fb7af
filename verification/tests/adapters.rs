//! The typed adapters: downcasts succeed exactly on the matching variant
//! and round-trip with the upcasts.

use vexpr::adapters::AnyType;
use vexpr::adapters::BooleanType;
use vexpr::adapters::EmptyArrayType;
use vexpr::adapters::GenericType;
use vexpr::adapters::Int16Type;
use vexpr::adapters::NullType;
use vexpr::adapters::StringType;
use vexpr::types::DataType;
use vexpr::values::Column;
use vexpr::values::Scalar;

#[test]
fn downcasts_succeed_exactly_on_the_matching_variant() {
    assert_eq!(
        BooleanType::try_downcast_scalar(&Scalar::Boolean(true)),
        Some(true)
    );
    assert_eq!(BooleanType::try_downcast_scalar(&Scalar::Int16(1)), None);
    assert_eq!(Int16Type::try_downcast_scalar(&Scalar::Int16(-7)), Some(-7));
    assert_eq!(
        Int16Type::try_downcast_scalar(&Scalar::Boolean(false)),
        None
    );
    assert_eq!(
        StringType::try_downcast_scalar(&Scalar::String("s".to_string())),
        Some("s".to_string())
    );
    assert_eq!(NullType::try_downcast_scalar(&Scalar::Null), Some(()));
    assert_eq!(NullType::try_downcast_scalar(&Scalar::EmptyArray), None);
    assert_eq!(
        EmptyArrayType::try_downcast_scalar(&Scalar::EmptyArray),
        Some(())
    );
}

#[test]
fn upcasts_and_downcasts_round_trip() {
    let col = BooleanType::upcast_column(vec![true, false]);
    assert_eq!(col, Column::Boolean(vec![true, false]));
    assert_eq!(
        BooleanType::try_downcast_column(&col),
        Some(vec![true, false])
    );
    let col = Int16Type::upcast_column(vec![3, 4]);
    assert_eq!(Int16Type::try_downcast_column(&col), Some(vec![3, 4]));
    assert_eq!(NullType::try_downcast_column(&NullType::upcast_column(9)), Some(9));
    assert_eq!(
        EmptyArrayType::try_downcast_column(&EmptyArrayType::upcast_column(4)),
        Some(4)
    );
}

#[test]
fn the_generic_adapter_is_dynamic() {
    assert_eq!(GenericType::<1>::data_type(), DataType::Generic(1));
    let s = Scalar::Tuple(vec![Scalar::Int16(1)]);
    assert_eq!(GenericType::<0>::try_downcast_scalar(&s), Some(s.clone()));
    assert_eq!(GenericType::<0>::upcast_scalar(s.clone()), s);
    assert_eq!(AnyType::to_owned_scalar(s.clone()), s);
}

#[test]
fn adapter_data_types_name_their_type() {
    assert_eq!(BooleanType::data_type(), DataType::Boolean);
    assert_eq!(Int16Type::data_type(), DataType::Int16);
    assert_eq!(StringType::data_type(), DataType::String);
    assert_eq!(NullType::data_type(), DataType::Null);
    assert_eq!(EmptyArrayType::data_type(), DataType::EmptyArray);
}
