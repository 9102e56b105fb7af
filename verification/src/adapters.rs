//! Statically-typed adapters: one façade per data type, converting between
//! the erased [`Scalar`]/[`Column`] values and the concrete representation
//! each type stores. Function kernels are written against these adapters.

use vstd::prelude::*;

use crate::types::DataType;
use crate::types::Ty;
use crate::values::vec_bools;
use crate::values::ColV;
use crate::values::Column;
use crate::values::ScalV;
use crate::values::Scalar;

verus! {

/// The adapter that treats the erased values as themselves: the type of
/// erased function arguments.
pub struct AnyType;

impl AnyType {
    /// An owned scalar from an owned scalar: the identity.
    pub fn to_owned_scalar(scalar: Scalar) -> (r: Scalar)
        ensures
            r@ == scalar@,
    {
        scalar
    }

    /// A borrowed scalar from an owned scalar: the identity.
    pub fn to_scalar_ref(scalar: &Scalar) -> (r: &Scalar)
        ensures
            r@ == scalar@,
    {
        scalar
    }

    /// Every scalar downcasts to itself.
    pub fn try_downcast_scalar(scalar: &Scalar) -> (r: Option<Scalar>)
        ensures
            r matches Some(s) && s@ == scalar@,
    {
        Some(scalar.clone())
    }

    /// Every scalar upcasts to itself.
    pub fn upcast_scalar(scalar: Scalar) -> (r: Scalar)
        ensures
            r@ == scalar@,
    {
        scalar
    }
}

/// The adapter for `Boolean` values.
pub struct BooleanType;

impl BooleanType {
    /// The data type this adapter handles.
    pub fn data_type() -> (r: DataType)
        ensures
            r@ == Ty::Boolean,
    {
        DataType::Boolean
    }

    /// The boolean a scalar holds, exactly when it is a boolean scalar.
    pub fn try_downcast_scalar(scalar: &Scalar) -> (r: Option<bool>)
        ensures
            r matches Some(b) ==> scalar@ == ScalV::Boolean(b),
            r is Some <==> scalar@ is Boolean,
    {
        match scalar {
            Scalar::Boolean(b) => Some(*b),
            _ => None,
        }
    }

    /// The storage of a boolean column, exactly when it is one.
    pub fn try_downcast_column(col: &Column) -> (r: Option<Vec<bool>>)
        ensures
            r matches Some(v) ==> col@ == ColV::Boolean(v@),
            r is Some <==> col@ is Boolean,
    {
        match col {
            Column::Boolean(v) => Some(vec_bools(v)),
            _ => None,
        }
    }

    /// Wraps a boolean as a scalar.
    pub fn upcast_scalar(b: bool) -> (r: Scalar)
        ensures
            r@ == ScalV::Boolean(b),
    {
        Scalar::Boolean(b)
    }

    /// Wraps boolean storage as a column.
    pub fn upcast_column(v: Vec<bool>) -> (r: Column)
        ensures
            r@ == ColV::Boolean(v@),
    {
        Column::Boolean(v)
    }
}

/// The adapter for `Int16` values.
pub struct Int16Type;

impl Int16Type {
    /// The data type this adapter handles.
    pub fn data_type() -> (r: DataType)
        ensures
            r@ == Ty::Int16,
    {
        DataType::Int16
    }

    /// The integer a scalar holds, exactly when it is a 16-bit integer.
    pub fn try_downcast_scalar(scalar: &Scalar) -> (r: Option<i16>)
        ensures
            r matches Some(x) ==> scalar@ == ScalV::Int16(x),
            r is Some <==> scalar@ is Int16,
    {
        match scalar {
            Scalar::Int16(x) => Some(*x),
            _ => None,
        }
    }

    /// The storage of a 16-bit integer column, exactly when it is one.
    pub fn try_downcast_column(col: &Column) -> (r: Option<Vec<i16>>)
        ensures
            r matches Some(v) ==> col@ == ColV::Int16(v@),
            r is Some <==> col@ is Int16,
    {
        match col {
            Column::Int16(v) => {
                let mut w: Vec<i16> = Vec::new();
                let mut i: usize = 0;
                while i < v.len()
                    invariant
                        i <= v@.len(),
                        w@.len() == i,
                        forall|j: int| 0 <= j < i ==> #[trigger] w@[j] == v@[j],
                    decreases v@.len() - i,
                {
                    w.push(v[i]);
                    i = i + 1;
                }
                proof {
                    assert(w@ =~= v@);
                }
                Some(w)
            },
            _ => None,
        }
    }

    /// Wraps an integer as a scalar.
    pub fn upcast_scalar(x: i16) -> (r: Scalar)
        ensures
            r@ == ScalV::Int16(x),
    {
        Scalar::Int16(x)
    }

    /// Wraps integer storage as a column.
    pub fn upcast_column(v: Vec<i16>) -> (r: Column)
        ensures
            r@ == ColV::Int16(v@),
    {
        Column::Int16(v)
    }
}

/// The adapter for `String` values.
pub struct StringType;

impl StringType {
    /// The data type this adapter handles.
    pub fn data_type() -> (r: DataType)
        ensures
            r@ == Ty::String,
    {
        DataType::String
    }

    /// The string a scalar holds, exactly when it is a string scalar.
    pub fn try_downcast_scalar(scalar: &Scalar) -> (r: Option<String>)
        ensures
            r matches Some(s) ==> scalar@ == ScalV::String(s@),
            r is Some <==> scalar@ is String,
    {
        match scalar {
            Scalar::String(s) => Some(s.clone()),
            _ => None,
        }
    }

    /// Wraps a string as a scalar.
    pub fn upcast_scalar(s: String) -> (r: Scalar)
        ensures
            r@ == ScalV::String(s@),
    {
        Scalar::String(s)
    }
}

/// The adapter for the type of the null value, which stores nothing.
pub struct NullType;

impl NullType {
    /// The data type this adapter handles.
    pub fn data_type() -> (r: DataType)
        ensures
            r@ == Ty::Null,
    {
        DataType::Null
    }

    /// Succeeds exactly on the null scalar, which holds nothing.
    pub fn try_downcast_scalar(scalar: &Scalar) -> (r: Option<()>)
        ensures
            r is Some <==> scalar@ is Null,
    {
        match scalar {
            Scalar::Null => Some(()),
            _ => None,
        }
    }

    /// The length of a null column, which stores nothing else.
    pub fn try_downcast_column(col: &Column) -> (r: Option<usize>)
        ensures
            r matches Some(n) ==> col@ == (ColV::Null { len: n as int }),
            r is Some <==> col@ is Null,
    {
        match col {
            Column::Null { len } => Some(*len),
            _ => None,
        }
    }

    /// The null scalar.
    pub fn upcast_scalar(_unit: ()) -> (r: Scalar)
        ensures
            r@ == ScalV::Null,
    {
        Scalar::Null
    }

    /// A null column of the given length.
    pub fn upcast_column(len: usize) -> (r: Column)
        ensures
            r@ == (ColV::Null { len: len as int }),
    {
        Column::Null { len }
    }
}

/// The adapter for the type of the empty array, which stores nothing.
pub struct EmptyArrayType;

impl EmptyArrayType {
    /// The data type this adapter handles.
    pub fn data_type() -> (r: DataType)
        ensures
            r@ == Ty::EmptyArray,
    {
        DataType::EmptyArray
    }

    /// Succeeds exactly on the empty-array scalar, which holds nothing.
    pub fn try_downcast_scalar(scalar: &Scalar) -> (r: Option<()>)
        ensures
            r is Some <==> scalar@ is EmptyArray,
    {
        match scalar {
            Scalar::EmptyArray => Some(()),
            _ => None,
        }
    }

    /// The length of an empty-array column, which stores nothing else.
    pub fn try_downcast_column(col: &Column) -> (r: Option<usize>)
        ensures
            r matches Some(n) ==> col@ == (ColV::EmptyArray { len: n as int }),
            r is Some <==> col@ is EmptyArray,
    {
        match col {
            Column::EmptyArray { len } => Some(*len),
            _ => None,
        }
    }

    /// The empty-array scalar.
    pub fn upcast_scalar(_unit: ()) -> (r: Scalar)
        ensures
            r@ == ScalV::EmptyArray,
    {
        Scalar::EmptyArray
    }

    /// An empty-array column of the given length.
    pub fn upcast_column(len: usize) -> (r: Column)
        ensures
            r@ == (ColV::EmptyArray { len: len as int }),
    {
        Column::EmptyArray { len }
    }
}

/// The adapter for a type variable: it behaves dynamically, treating the
/// erased values as themselves and deferring the concrete type to the
/// generics environment of the call.
pub struct GenericType<const INDEX: usize>;

impl<const INDEX: usize> GenericType<INDEX> {
    /// The type variable this adapter stands for.
    pub fn data_type() -> (r: DataType)
        ensures
            r@ == Ty::Generic(INDEX as int),
    {
        DataType::Generic(INDEX)
    }

    /// Every scalar downcasts to itself.
    pub fn try_downcast_scalar(scalar: &Scalar) -> (r: Option<Scalar>)
        ensures
            r matches Some(s) && s@ == scalar@,
    {
        Some(scalar.clone())
    }

    /// Every column downcasts to itself.
    pub fn try_downcast_column(col: &Column) -> (r: Option<Column>)
        ensures
            r matches Some(c) && c@ == col@,
    {
        Some(col.clone())
    }

    /// Every scalar upcasts to itself.
    pub fn upcast_scalar(scalar: Scalar) -> (r: Scalar)
        ensures
            r@ == scalar@,
    {
        scalar
    }

    /// Every column upcasts to itself.
    pub fn upcast_column(col: Column) -> (r: Column)
        ensures
            r@ == col@,
    {
        col
    }
}

} // verus!
