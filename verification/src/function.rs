//! Functions: signatures, kernels, erased evaluators, the registry, and the
//! vectorization helpers that lift scalar kernels over columns.

use vstd::prelude::*;

use crate::adapters::BooleanType;
use crate::adapters::Int16Type;
use crate::error::EvalError;
use crate::property::FunctionProperty;
use crate::types::ty_of;
use crate::types::tys_of;
use crate::types::clone_types;
use crate::types::DataType;
use crate::types::Ty;
use crate::values::col_v;
use crate::values::lemma_fits_from_ty;
use crate::values::never_overflows;
use crate::values::vals_scals;
use crate::values::sc_v;
use crate::values::ColV;
use crate::values::Column;
use crate::values::ColumnBuilder;
use crate::values::Scalar;
use crate::values::Val;
use crate::values::Value;

verus! {

/// A scalar kernel of one argument.
#[derive(Debug, Clone, Copy, PartialEq, Eq, Structural)]
pub enum Kernel1 {
    /// Boolean negation.
    Not,
}

/// A scalar kernel of two arguments with fixed argument and result types.
#[derive(Debug, Clone, Copy, PartialEq, Eq, Structural)]
pub enum Kernel2 {
    /// Boolean conjunction.
    And,
    /// Wrapping 16-bit addition.
    Plus,
    /// The smaller of two 16-bit integers.
    Min,
}

/// The argument type of a one-argument kernel.
pub open spec fn kernel1_arg_ty(k: Kernel1) -> Ty {
    match k {
        Kernel1::Not => Ty::Boolean,
    }
}

/// The result type of a one-argument kernel.
pub open spec fn kernel1_out_ty(k: Kernel1) -> Ty {
    match k {
        Kernel1::Not => Ty::Boolean,
    }
}

/// Whether a value is a valid argument for the kernel.
pub open spec fn kernel1_ok(k: Kernel1, a: Val) -> bool {
    match k {
        Kernel1::Not => a is Bool,
    }
}

/// The value a one-argument kernel computes.
pub open spec fn kernel1_spec(k: Kernel1, a: Val) -> Val {
    match k {
        Kernel1::Not => Val::Bool(!a->Bool_0),
    }
}

/// The first argument type of a two-argument kernel.
pub open spec fn kernel2_arg1_ty(k: Kernel2) -> Ty {
    match k {
        Kernel2::And => Ty::Boolean,
        Kernel2::Plus => Ty::Int16,
        Kernel2::Min => Ty::Int16,
    }
}

/// The second argument type of a two-argument kernel.
pub open spec fn kernel2_arg2_ty(k: Kernel2) -> Ty {
    kernel2_arg1_ty(k)
}

/// The result type of a two-argument kernel.
pub open spec fn kernel2_out_ty(k: Kernel2) -> Ty {
    match k {
        Kernel2::And => Ty::Boolean,
        Kernel2::Plus => Ty::Int16,
        Kernel2::Min => Ty::Int16,
    }
}

/// Whether two values are valid arguments for the kernel.
pub open spec fn kernel2_ok(k: Kernel2, a: Val, b: Val) -> bool {
    match k {
        Kernel2::And => a is Bool && b is Bool,
        Kernel2::Plus => a is Int16 && b is Int16,
        Kernel2::Min => a is Int16 && b is Int16,
    }
}

/// The value a two-argument kernel computes.
pub open spec fn kernel2_spec(k: Kernel2, a: Val, b: Val) -> Val {
    match k {
        Kernel2::And => Val::Bool(a->Bool_0 && b->Bool_0),
        Kernel2::Plus => Val::Int16((a->Int16_0).wrapping_add(b->Int16_0)),
        Kernel2::Min => Val::Int16(
            if a->Int16_0 <= b->Int16_0 {
                a->Int16_0
            } else {
                b->Int16_0
            },
        ),
    }
}

/// Applies a one-argument kernel to one scalar. Fails exactly when the
/// scalar does not have the kernel's argument type.
pub fn eval_kernel1(k: Kernel1, a: &Scalar) -> (r: Result<Scalar, EvalError>)
    ensures
        match r {
            Ok(out) => {
                &&& kernel1_ok(k, a@.val())
                &&& out@.val() == kernel1_spec(k, a@.val())
                &&& out@.wf()
                &&& out@.ty() == kernel1_out_ty(k)
            },
            Err(e) => e == EvalError::TypeMismatch && !kernel1_ok(k, a@.val()),
        },
{
    match k {
        Kernel1::Not => match BooleanType::try_downcast_scalar(a) {
            Some(x) => Ok(BooleanType::upcast_scalar(!x)),
            None => Err(EvalError::TypeMismatch),
        },
    }
}

/// Applies a two-argument kernel to two scalars. Fails exactly when either
/// scalar does not have the kernel's argument type.
pub fn eval_kernel2(k: Kernel2, a: &Scalar, b: &Scalar) -> (r: Result<Scalar, EvalError>)
    ensures
        match r {
            Ok(out) => {
                &&& kernel2_ok(k, a@.val(), b@.val())
                &&& out@.val() == kernel2_spec(k, a@.val(), b@.val())
                &&& out@.wf()
                &&& out@.ty() == kernel2_out_ty(k)
            },
            Err(e) => e == EvalError::TypeMismatch && !kernel2_ok(k, a@.val(), b@.val()),
        },
{
    match k {
        Kernel2::And => match (BooleanType::try_downcast_scalar(a), BooleanType::try_downcast_scalar(b)) {
            (Some(x), Some(y)) => Ok(BooleanType::upcast_scalar(x && y)),
            _ => Err(EvalError::TypeMismatch),
        },
        Kernel2::Plus => match (Int16Type::try_downcast_scalar(a), Int16Type::try_downcast_scalar(b)) {
            (Some(x), Some(y)) => Ok(Int16Type::upcast_scalar(x.wrapping_add(y))),
            _ => Err(EvalError::TypeMismatch),
        },
        Kernel2::Min => match (Int16Type::try_downcast_scalar(a), Int16Type::try_downcast_scalar(b)) {
            (Some(x), Some(y)) => Ok(
                Int16Type::upcast_scalar(
                    if x <= y {
                        x
                    } else {
                        y
                    },
                ),
            ),
            _ => Err(EvalError::TypeMismatch),
        },
    }
}


/// The argument type of a one-argument kernel, as a data type value.
pub fn kernel1_arg_dt(k: Kernel1) -> (r: DataType)
    ensures
        r@ == kernel1_arg_ty(k),
{
    match k {
        Kernel1::Not => BooleanType::data_type(),
    }
}

/// The result type of a one-argument kernel, as a data type value.
pub fn kernel1_out_dt(k: Kernel1) -> (r: DataType)
    ensures
        r@ == kernel1_out_ty(k),
{
    match k {
        Kernel1::Not => BooleanType::data_type(),
    }
}

/// The first argument type of a two-argument kernel, as a data type value.
pub fn kernel2_arg1_dt(k: Kernel2) -> (r: DataType)
    ensures
        r@ == kernel2_arg1_ty(k),
{
    match k {
        Kernel2::And => BooleanType::data_type(),
        Kernel2::Plus => Int16Type::data_type(),
        Kernel2::Min => Int16Type::data_type(),
    }
}

/// The second argument type of a two-argument kernel, as a data type value.
pub fn kernel2_arg2_dt(k: Kernel2) -> (r: DataType)
    ensures
        r@ == kernel2_arg2_ty(k),
{
    kernel2_arg1_dt(k)
}

/// The result type of a two-argument kernel, as a data type value.
pub fn kernel2_out_dt(k: Kernel2) -> (r: DataType)
    ensures
        r@ == kernel2_out_ty(k),
{
    match k {
        Kernel2::And => BooleanType::data_type(),
        Kernel2::Plus => Int16Type::data_type(),
        Kernel2::Min => Int16Type::data_type(),
    }
}


/// What applying a one-argument kernel to a value returns; see
/// `vectorize_1_arg`.
pub open spec fn vec1_post(k: Kernel1, val: Value, r: Result<Value, EvalError>) -> bool {
    match r {
        Ok(out) => match (val, out) {
            (Value::Scalar(a), Value::Scalar(o)) => {
                &&& kernel1_ok(k, sc_v(a).val())
                &&& sc_v(o).val() == kernel1_spec(k, sc_v(a).val())
                &&& sc_v(o).wf()
                &&& sc_v(o).ty() == kernel1_out_ty(k)
            },
            (Value::Column(a), Value::Column(o)) => {
                &&& col_v(o).wf()
                &&& col_v(o).len() == col_v(a).len()
                &&& col_v(o).ty() == kernel1_out_ty(k)
                &&& forall|i: int|
                    0 <= i < col_v(a).len() ==> kernel1_ok(k, #[trigger] col_v(a).at(i)) && col_v(
                        o,
                    ).at(i) == kernel1_spec(k, col_v(a).at(i))
            },
            _ => false,
        },
        Err(e) => {
            &&& e == EvalError::TypeMismatch
            &&& match val {
                Value::Scalar(a) => !kernel1_ok(k, sc_v(a).val()),
                Value::Column(a) => exists|i: int|
                    0 <= i < col_v(a).len() && !kernel1_ok(k, #[trigger] col_v(a).at(i)),
            }
        },
    }
}

/// What applying a two-argument kernel to two values returns; see
/// `vectorize_2_arg`.
pub open spec fn vec2_post(k: Kernel2, lhs: Value, rhs: Value, r: Result<Value, EvalError>) -> bool {
    match r {
        Ok(out) => match (lhs, rhs, out) {
            (Value::Scalar(a), Value::Scalar(b), Value::Scalar(o)) => {
                &&& kernel2_ok(k, sc_v(a).val(), sc_v(b).val())
                &&& sc_v(o).val() == kernel2_spec(k, sc_v(a).val(), sc_v(b).val())
                &&& sc_v(o).wf()
                &&& sc_v(o).ty() == kernel2_out_ty(k)
            },
            (Value::Scalar(a), Value::Column(b), Value::Column(o)) => {
                &&& col_v(o).wf()
                &&& col_v(o).len() == col_v(b).len()
                &&& col_v(o).ty() == kernel2_out_ty(k)
                &&& forall|i: int|
                    0 <= i < col_v(b).len() ==> kernel2_ok(
                        k,
                        sc_v(a).val(),
                        #[trigger] col_v(b).at(i),
                    ) && col_v(o).at(i) == kernel2_spec(k, sc_v(a).val(), col_v(b).at(i))
            },
            (Value::Column(a), Value::Scalar(b), Value::Column(o)) => {
                &&& col_v(o).wf()
                &&& col_v(o).len() == col_v(a).len()
                &&& col_v(o).ty() == kernel2_out_ty(k)
                &&& forall|i: int|
                    0 <= i < col_v(a).len() ==> kernel2_ok(
                        k,
                        #[trigger] col_v(a).at(i),
                        sc_v(b).val(),
                    ) && col_v(o).at(i) == kernel2_spec(k, col_v(a).at(i), sc_v(b).val())
            },
            (Value::Column(a), Value::Column(b), Value::Column(o)) => {
                &&& col_v(a).len() == col_v(b).len()
                &&& col_v(o).wf()
                &&& col_v(o).len() == col_v(a).len()
                &&& col_v(o).ty() == kernel2_out_ty(k)
                &&& forall|i: int|
                    0 <= i < col_v(a).len() ==> kernel2_ok(
                        k,
                        #[trigger] col_v(a).at(i),
                        col_v(b).at(i),
                    ) && col_v(o).at(i) == kernel2_spec(k, col_v(a).at(i), col_v(b).at(i))
            },
            _ => false,
        },
        Err(e) => {
            ||| {
                &&& e == EvalError::LengthMismatch
                &&& lhs is Column && rhs is Column
                &&& col_v(lhs->Column_0).len() != col_v(rhs->Column_0).len()
            }
            ||| {
                &&& e == EvalError::TypeMismatch
                &&& match (lhs, rhs) {
                    (Value::Scalar(a), Value::Scalar(b)) => !kernel2_ok(
                        k,
                        sc_v(a).val(),
                        sc_v(b).val(),
                    ),
                    (Value::Scalar(a), Value::Column(b)) => exists|i: int|
                        0 <= i < col_v(b).len() && !kernel2_ok(
                            k,
                            sc_v(a).val(),
                            #[trigger] col_v(b).at(i),
                        ),
                    (Value::Column(a), Value::Scalar(b)) => exists|i: int|
                        0 <= i < col_v(a).len() && !kernel2_ok(
                            k,
                            #[trigger] col_v(a).at(i),
                            sc_v(b).val(),
                        ),
                    (Value::Column(a), Value::Column(b)) => exists|i: int|
                        0 <= i < col_v(a).len() && !kernel2_ok(
                            k,
                            #[trigger] col_v(a).at(i),
                            col_v(b).at(i),
                        ),
                }
            }
        },
    }
}

/// Applies a one-argument kernel to a scalar or to every row of a column.
///
/// Succeeds exactly when every value met has the kernel's argument type; a
/// scalar yields a scalar, a column yields a column of the same length.
pub fn vectorize_1_arg(val: &Value, k: Kernel1) -> (r: Result<Value, EvalError>)
    requires
        val.wf(),
    ensures
        vec1_post(k, *val, r),
{
    match val {
        Value::Scalar(a) => {
            match eval_kernel1(k, a) {
                Ok(o) => Ok(Value::Scalar(o)),
                Err(e) => Err(e),
            }
        },
        Value::Column(a) => {
            let n = a.len();
            let out_ty = kernel1_out_dt(k);
            let mut builder = ColumnBuilder::with_capacity(&out_ty, n);
            let mut i: usize = 0;
            while i < n
                invariant
                    i <= n,
                    val.wf(),
                    *val == Value::Column(*a),
                    n as int == col_v(*a).len(),
                    builder@.wf(),
                    builder@.len() == i,
                    builder@.ty() == kernel1_out_ty(k),
                    never_overflows(builder@),
                    forall|j: int|
                        0 <= j < i ==> kernel1_ok(k, #[trigger] col_v(*a).at(j)) && builder@.at(j)
                            == kernel1_spec(k, col_v(*a).at(j)),
                decreases n - i,
            {
                let item = a.index(i);
                let o = match eval_kernel1(k, &item) {
                    Ok(o) => o,
                    Err(e) => {
                        proof {
                            assert(!kernel1_ok(k, col_v(*a).at(i as int)));
                        }
                        return Err(e);
                    },
                };
                proof {
                    lemma_fits_from_ty(builder@, sc_v(o));
                }
                let res = builder.push(&o);
                proof {
                    assert(res is Ok);
                }
                i = i + 1;
            }
            Ok(Value::Column(builder.build()))
        },
    }
}

/// Applies a two-argument kernel over every scalar/column combination,
/// broadcasting a scalar argument to every row of a column argument.
///
/// Two column arguments must have equal lengths; succeeds exactly when the
/// lengths agree and every pair of values met has the kernel's argument
/// types.
pub fn vectorize_2_arg(lhs: &Value, rhs: &Value, k: Kernel2) -> (r: Result<Value, EvalError>)
    requires
        lhs.wf(),
        rhs.wf(),
    ensures
        vec2_post(k, *lhs, *rhs, r),
{
    match (lhs, rhs) {
        (Value::Scalar(a), Value::Scalar(b)) => {
            match eval_kernel2(k, a, b) {
                Ok(o) => Ok(Value::Scalar(o)),
                Err(e) => Err(e),
            }
        },
        (Value::Scalar(a), Value::Column(b)) => {
            let n = b.len();
            let out_ty = kernel2_out_dt(k);
            let mut builder = ColumnBuilder::with_capacity(&out_ty, n);
            let mut i: usize = 0;
            while i < n
                invariant
                    i <= n,
                    lhs.wf(),
                    rhs.wf(),
                    *lhs == Value::Scalar(*a),
                    *rhs == Value::Column(*b),
                    n as int == col_v(*b).len(),
                    builder@.wf(),
                    builder@.len() == i,
                    builder@.ty() == kernel2_out_ty(k),
                    never_overflows(builder@),
                    forall|j: int|
                        0 <= j < i ==> kernel2_ok(k, sc_v(*a).val(), #[trigger] col_v(*b).at(j))
                            && builder@.at(j) == kernel2_spec(
                            k,
                            sc_v(*a).val(),
                            col_v(*b).at(j),
                        ),
                decreases n - i,
            {
                let item = b.index(i);
                let o = match eval_kernel2(k, a, &item) {
                    Ok(o) => o,
                    Err(e) => {
                        proof {
                            assert(!kernel2_ok(k, sc_v(*a).val(), col_v(*b).at(i as int)));
                        }
                        return Err(e);
                    },
                };
                proof {
                    lemma_fits_from_ty(builder@, sc_v(o));
                }
                let res = builder.push(&o);
                proof {
                    assert(res is Ok);
                }
                i = i + 1;
            }
            Ok(Value::Column(builder.build()))
        },
        (Value::Column(a), Value::Scalar(b)) => {
            let n = a.len();
            let out_ty = kernel2_out_dt(k);
            let mut builder = ColumnBuilder::with_capacity(&out_ty, n);
            let mut i: usize = 0;
            while i < n
                invariant
                    i <= n,
                    lhs.wf(),
                    rhs.wf(),
                    *lhs == Value::Column(*a),
                    *rhs == Value::Scalar(*b),
                    n as int == col_v(*a).len(),
                    builder@.wf(),
                    builder@.len() == i,
                    builder@.ty() == kernel2_out_ty(k),
                    never_overflows(builder@),
                    forall|j: int|
                        0 <= j < i ==> kernel2_ok(k, #[trigger] col_v(*a).at(j), sc_v(*b).val())
                            && builder@.at(j) == kernel2_spec(
                            k,
                            col_v(*a).at(j),
                            sc_v(*b).val(),
                        ),
                decreases n - i,
            {
                let item = a.index(i);
                let o = match eval_kernel2(k, &item, b) {
                    Ok(o) => o,
                    Err(e) => {
                        proof {
                            assert(!kernel2_ok(k, col_v(*a).at(i as int), sc_v(*b).val()));
                        }
                        return Err(e);
                    },
                };
                proof {
                    lemma_fits_from_ty(builder@, sc_v(o));
                }
                let res = builder.push(&o);
                proof {
                    assert(res is Ok);
                }
                i = i + 1;
            }
            Ok(Value::Column(builder.build()))
        },
        (Value::Column(a), Value::Column(b)) => {
            let n = a.len();
            if b.len() != n {
                return Err(EvalError::LengthMismatch);
            }
            let out_ty = kernel2_out_dt(k);
            let mut builder = ColumnBuilder::with_capacity(&out_ty, n);
            let mut i: usize = 0;
            while i < n
                invariant
                    i <= n,
                    lhs.wf(),
                    rhs.wf(),
                    *lhs == Value::Column(*a),
                    *rhs == Value::Column(*b),
                    n as int == col_v(*a).len(),
                    col_v(*b).len() == col_v(*a).len(),
                    builder@.wf(),
                    builder@.len() == i,
                    builder@.ty() == kernel2_out_ty(k),
                    never_overflows(builder@),
                    forall|j: int|
                        0 <= j < i ==> kernel2_ok(k, #[trigger] col_v(*a).at(j), col_v(*b).at(j))
                            && builder@.at(j) == kernel2_spec(
                            k,
                            col_v(*a).at(j),
                            col_v(*b).at(j),
                        ),
                decreases n - i,
            {
                let x = a.index(i);
                let y = b.index(i);
                let o = match eval_kernel2(k, &x, &y) {
                    Ok(o) => o,
                    Err(e) => {
                        proof {
                            assert(!kernel2_ok(k, col_v(*a).at(i as int), col_v(*b).at(i as int)));
                        }
                        return Err(e);
                    },
                };
                proof {
                    lemma_fits_from_ty(builder@, sc_v(o));
                }
                let res = builder.push(&o);
                proof {
                    assert(res is Ok);
                }
                i = i + 1;
            }
            Ok(Value::Column(builder.build()))
        },
    }
}


/// Conjoins two validity masks of equal length: a row of the result is
/// present exactly when it is present in both inputs.
fn bools_and(a: &Vec<bool>, b: &Vec<bool>) -> (r: Vec<bool>)
    requires
        a@.len() == b@.len(),
    ensures
        r@.len() == a@.len(),
        forall|i: int| 0 <= i < a@.len() ==> #[trigger] r@[i] == (a@[i] && b@[i]),
{
    let mut r: Vec<bool> = Vec::new();
    let mut i: usize = 0;
    while i < a.len()
        invariant
            i <= a@.len(),
            a@.len() == b@.len(),
            r@.len() == i,
            forall|j: int| 0 <= j < i ==> #[trigger] r@[j] == (a@[j] && b@[j]),
        decreases a@.len() - i,
    {
        r.push(a[i] && b[i]);
        i = i + 1;
    }
    r
}

/// Copies a validity mask.
fn bools_copy(a: &Vec<bool>) -> (r: Vec<bool>)
    ensures
        r@ == a@,
{
    let mut r: Vec<bool> = Vec::new();
    let mut i: usize = 0;
    while i < a.len()
        invariant
            i <= a@.len(),
            r@.len() == i,
            forall|j: int| 0 <= j < i ==> #[trigger] r@[j] == a@[j],
        decreases a@.len() - i,
    {
        r.push(a[i]);
        i = i + 1;
    }
    proof {
        assert(r@ =~= a@);
    }
    r
}

/// Runs a one-argument kernel over every row of a column, returning the
/// column of results. Succeeds exactly when every row has the kernel's
/// argument type.
fn kernel1_rows(col: &Column, k: Kernel1) -> (r: Result<Column, EvalError>)
    requires
        col@.wf(),
    ensures
        match r {
            Ok(o) => {
                &&& o@.wf()
                &&& o@.len() == col@.len()
                &&& o@.ty() == kernel1_out_ty(k)
                &&& forall|i: int|
                    0 <= i < col@.len() ==> kernel1_ok(k, #[trigger] col@.at(i)) && o@.at(i)
                        == kernel1_spec(k, col@.at(i))
            },
            Err(e) => {
                &&& e == EvalError::TypeMismatch
                &&& exists|i: int|
                    0 <= i < col@.len() && !kernel1_ok(k, #[trigger] col@.at(i))
            },
        },
{
    let n = col.len();
    let out_ty = kernel1_out_dt(k);
    let mut builder = ColumnBuilder::with_capacity(&out_ty, n);
    let mut i: usize = 0;
    while i < n
        invariant
            i <= n,
            col@.wf(),
            n as int == col@.len(),
            builder@.wf(),
            builder@.len() == i,
            builder@.ty() == kernel1_out_ty(k),
            never_overflows(builder@),
            forall|j: int|
                0 <= j < i ==> kernel1_ok(k, #[trigger] col@.at(j)) && builder@.at(j)
                    == kernel1_spec(k, col@.at(j)),
        decreases n - i,
    {
        let item = col.index(i);
        let o = match eval_kernel1(k, &item) {
            Ok(o) => o,
            Err(e) => {
                proof {
                    assert(!kernel1_ok(k, col@.at(i as int)));
                }
                return Err(e);
            },
        };
        proof {
            lemma_fits_from_ty(builder@, sc_v(o));
        }
        let res = builder.push(&o);
        proof {
            assert(res is Ok);
        }
        i = i + 1;
    }
    Ok(builder.build())
}

/// Runs a two-argument kernel over every row pair of two columns of equal
/// length.
fn kernel2_rows(a: &Column, b: &Column, k: Kernel2) -> (r: Result<Column, EvalError>)
    requires
        a@.wf(),
        b@.wf(),
        a@.len() == b@.len(),
    ensures
        match r {
            Ok(o) => {
                &&& o@.wf()
                &&& o@.len() == a@.len()
                &&& o@.ty() == kernel2_out_ty(k)
                &&& forall|i: int|
                    0 <= i < a@.len() ==> kernel2_ok(k, #[trigger] a@.at(i), b@.at(i)) && o@.at(i)
                        == kernel2_spec(k, a@.at(i), b@.at(i))
            },
            Err(e) => {
                &&& e == EvalError::TypeMismatch
                &&& exists|i: int|
                    0 <= i < a@.len() && !kernel2_ok(k, #[trigger] a@.at(i), b@.at(i))
            },
        },
{
    let n = a.len();
    let out_ty = kernel2_out_dt(k);
    let mut builder = ColumnBuilder::with_capacity(&out_ty, n);
    let mut i: usize = 0;
    while i < n
        invariant
            i <= n,
            a@.wf(),
            b@.wf(),
            n as int == a@.len(),
            b@.len() == a@.len(),
            builder@.wf(),
            builder@.len() == i,
            builder@.ty() == kernel2_out_ty(k),
            never_overflows(builder@),
            forall|j: int|
                0 <= j < i ==> kernel2_ok(k, #[trigger] a@.at(j), b@.at(j)) && builder@.at(j)
                    == kernel2_spec(k, a@.at(j), b@.at(j)),
        decreases n - i,
    {
        let x = a.index(i);
        let y = b.index(i);
        let o = match eval_kernel2(k, &x, &y) {
            Ok(o) => o,
            Err(e) => {
                proof {
                    assert(!kernel2_ok(k, a@.at(i as int), b@.at(i as int)));
                }
                return Err(e);
            },
        };
        proof {
            lemma_fits_from_ty(builder@, sc_v(o));
        }
        let res = builder.push(&o);
        proof {
            assert(res is Ok);
        }
        i = i + 1;
    }
    Ok(builder.build())
}

/// Runs a two-argument kernel over a broadcast scalar and every row of a
/// column; `scalar_left` says on which side the scalar stands.
fn kernel2_broadcast(s: &Scalar, col: &Column, k: Kernel2, scalar_left: bool) -> (r: Result<
    Column,
    EvalError,
>)
    requires
        sc_v(*s).wf(),
        col@.wf(),
    ensures
        match r {
            Ok(o) => {
                &&& o@.wf()
                &&& o@.len() == col@.len()
                &&& o@.ty() == kernel2_out_ty(k)
                &&& scalar_left ==> forall|i: int|
                    0 <= i < col@.len() ==> kernel2_ok(k, sc_v(*s).val(), #[trigger] col@.at(i))
                        && o@.at(i) == kernel2_spec(k, sc_v(*s).val(), col@.at(i))
                &&& !scalar_left ==> forall|i: int|
                    0 <= i < col@.len() ==> kernel2_ok(k, #[trigger] col@.at(i), sc_v(*s).val())
                        && o@.at(i) == kernel2_spec(k, col@.at(i), sc_v(*s).val())
            },
            Err(e) => {
                &&& e == EvalError::TypeMismatch
                &&& scalar_left ==> exists|i: int|
                    0 <= i < col@.len() && !kernel2_ok(k, sc_v(*s).val(), #[trigger] col@.at(i))
                &&& !scalar_left ==> exists|i: int|
                    0 <= i < col@.len() && !kernel2_ok(k, #[trigger] col@.at(i), sc_v(*s).val())
            },
        },
{
    let n = col.len();
    let out_ty = kernel2_out_dt(k);
    let mut builder = ColumnBuilder::with_capacity(&out_ty, n);
    let mut i: usize = 0;
    while i < n
        invariant
            i <= n,
            sc_v(*s).wf(),
            col@.wf(),
            n as int == col@.len(),
            builder@.wf(),
            builder@.len() == i,
            builder@.ty() == kernel2_out_ty(k),
            never_overflows(builder@),
            scalar_left ==> forall|j: int|
                0 <= j < i ==> kernel2_ok(k, sc_v(*s).val(), #[trigger] col@.at(j))
                    && builder@.at(j) == kernel2_spec(k, sc_v(*s).val(), col@.at(j)),
            !scalar_left ==> forall|j: int|
                0 <= j < i ==> kernel2_ok(k, #[trigger] col@.at(j), sc_v(*s).val())
                    && builder@.at(j) == kernel2_spec(k, col@.at(j), sc_v(*s).val()),
        decreases n - i,
    {
        let item = col.index(i);
        let o = if scalar_left {
            match eval_kernel2(k, s, &item) {
                Ok(o) => o,
                Err(e) => {
                    proof {
                        assert(!kernel2_ok(k, sc_v(*s).val(), col@.at(i as int)));
                    }
                    return Err(e);
                },
            }
        } else {
            match eval_kernel2(k, &item, s) {
                Ok(o) => o,
                Err(e) => {
                    proof {
                        assert(!kernel2_ok(k, col@.at(i as int), sc_v(*s).val()));
                    }
                    return Err(e);
                },
            }
        };
        proof {
            lemma_fits_from_ty(builder@, sc_v(o));
        }
        let res = builder.push(&o);
        proof {
            assert(res is Ok);
        }
        i = i + 1;
    }
    Ok(builder.build())
}


/// What lifting a one-argument kernel over nullable values returns; see
/// `vectorize_passthrough_nullable_1_arg`.
pub open spec fn pass1_post(k: Kernel1, val: Value, r: Result<Value, EvalError>) -> bool {
        match r {
            Ok(out) => match (val, out) {
                (Value::Scalar(a), Value::Scalar(o)) => {
                    &&& sc_v(a) is Null ==> sc_v(o) is Null
                    &&& !(sc_v(a) is Null) ==> {
                        &&& kernel1_ok(k, sc_v(a).val())
                        &&& sc_v(o).val() == kernel1_spec(k, sc_v(a).val())
                        &&& sc_v(o).wf()
                    }
                },
                (Value::Column(a), Value::Column(o)) => {
                    &&& col_v(a) is Nullable
                    &&& col_v(o).wf()
                    &&& col_v(o) is Nullable
                    &&& col_v(o).len() == col_v(a).len()
                    &&& col_v(o).ty() == Ty::Nullable(Box::new(kernel1_out_ty(k)))
                    &&& col_v(o)->Nullable_validity == col_v(a)->Nullable_validity
                    &&& forall|i: int|
                        0 <= i < col_v(a).len() && col_v(a)->Nullable_validity[i]
                            ==> #[trigger] col_v(o).at(i) == kernel1_spec(k, col_v(a).at(i))
                    &&& forall|i: int|
                        0 <= i < col_v(a).len() && !col_v(a)->Nullable_validity[i]
                            ==> #[trigger] col_v(o).at(i) == Val::Null
                },
                _ => false,
            },
            Err(e) => e == EvalError::TypeMismatch,
        }
}

/// What lifting a two-argument kernel over nullable values returns; see
/// `vectorize_passthrough_nullable_2_arg`.
pub open spec fn pass2_post(k: Kernel2, lhs: Value, rhs: Value, r: Result<Value, EvalError>) -> bool {
        match r {
            Ok(out) => match (lhs, rhs) {
                (Value::Scalar(a), Value::Scalar(b)) => {
                    &&& out is Scalar
                    &&& (sc_v(a) is Null || sc_v(b) is Null) ==> sc_v(out->Scalar_0) is Null
                    &&& !(sc_v(a) is Null) && !(sc_v(b) is Null) ==> {
                        &&& kernel2_ok(k, sc_v(a).val(), sc_v(b).val())
                        &&& sc_v(out->Scalar_0).val() == kernel2_spec(
                            k,
                            sc_v(a).val(),
                            sc_v(b).val(),
                        )
                        &&& sc_v(out->Scalar_0).wf()
                    }
                },
                (Value::Scalar(a), Value::Column(b)) => {
                    &&& sc_v(a) is Null ==> out is Scalar && sc_v(out->Scalar_0) is Null
                    &&& !(sc_v(a) is Null) ==> {
                        &&& out is Column
                        &&& col_v(b) is Nullable
                        &&& col_v(out->Column_0).wf()
                        &&& col_v(out->Column_0) is Nullable
                        &&& col_v(out->Column_0).len() == col_v(b).len()
                        &&& col_v(out->Column_0).ty() == Ty::Nullable(
                            Box::new(kernel2_out_ty(k)),
                        )
                        &&& col_v(out->Column_0)->Nullable_validity == col_v(b)->Nullable_validity
                        &&& forall|i: int|
                            0 <= i < col_v(b).len() && col_v(b)->Nullable_validity[i]
                                ==> #[trigger] col_v(out->Column_0).at(i) == kernel2_spec(
                                k,
                                sc_v(a).val(),
                                col_v(b).at(i),
                            )
                        &&& forall|i: int|
                            0 <= i < col_v(b).len() && !col_v(b)->Nullable_validity[i]
                                ==> #[trigger] col_v(out->Column_0).at(i) == Val::Null
                    }
                },
                (Value::Column(a), Value::Scalar(b)) => {
                    &&& sc_v(b) is Null ==> out is Scalar && sc_v(out->Scalar_0) is Null
                    &&& !(sc_v(b) is Null) ==> {
                        &&& out is Column
                        &&& col_v(a) is Nullable
                        &&& col_v(out->Column_0).wf()
                        &&& col_v(out->Column_0) is Nullable
                        &&& col_v(out->Column_0).len() == col_v(a).len()
                        &&& col_v(out->Column_0).ty() == Ty::Nullable(
                            Box::new(kernel2_out_ty(k)),
                        )
                        &&& col_v(out->Column_0)->Nullable_validity == col_v(a)->Nullable_validity
                        &&& forall|i: int|
                            0 <= i < col_v(a).len() && col_v(a)->Nullable_validity[i]
                                ==> #[trigger] col_v(out->Column_0).at(i) == kernel2_spec(
                                k,
                                col_v(a).at(i),
                                sc_v(b).val(),
                            )
                        &&& forall|i: int|
                            0 <= i < col_v(a).len() && !col_v(a)->Nullable_validity[i]
                                ==> #[trigger] col_v(out->Column_0).at(i) == Val::Null
                    }
                },
                (Value::Column(a), Value::Column(b)) => {
                    &&& out is Column
                    &&& col_v(a) is Nullable && col_v(b) is Nullable
                    &&& col_v(a).len() == col_v(b).len()
                    &&& col_v(out->Column_0).wf()
                    &&& col_v(out->Column_0) is Nullable
                    &&& col_v(out->Column_0).len() == col_v(a).len()
                    &&& col_v(out->Column_0).ty() == Ty::Nullable(Box::new(kernel2_out_ty(k)))
                    &&& forall|i: int|
                        0 <= i < col_v(a).len()
                            ==> #[trigger] col_v(out->Column_0)->Nullable_validity[i] == (col_v(a)->Nullable_validity[i] && col_v(b)->Nullable_validity[i])
                    &&& forall|i: int|
                        0 <= i < col_v(a).len() && col_v(a)->Nullable_validity[i] && col_v(b)->Nullable_validity[i] ==> #[trigger] col_v(out->Column_0).at(i)
                            == kernel2_spec(k, col_v(a).at(i), col_v(b).at(i))
                    &&& forall|i: int|
                        0 <= i < col_v(a).len() && !(col_v(a)->Nullable_validity[i] && col_v(b)->Nullable_validity[i]) ==> #[trigger] col_v(out->Column_0).at(i)
                            == Val::Null
                },
            },
            Err(e) => e == EvalError::TypeMismatch || e == EvalError::LengthMismatch,
        }
}

/// Lifts a one-argument kernel to nullable inputs: a null scalar yields a
/// null scalar, and a nullable column keeps its validity mask unchanged, the
/// kernel running over the stored rows.
pub fn vectorize_passthrough_nullable_1_arg(val: &Value, k: Kernel1) -> (r: Result<
    Value,
    EvalError,
>)
    requires
        val.wf(),
    ensures
        pass1_post(k, *val, r),
{
    match val {
        Value::Scalar(a) => {
            match a {
                Scalar::Null => Ok(Value::Scalar(Scalar::Null)),
                _ => {
                    match eval_kernel1(k, a) {
                        Ok(o) => Ok(Value::Scalar(o)),
                        Err(e) => Err(e),
                    }
                },
            }
        },
        Value::Column(a) => {
            match a {
                Column::Nullable { column, validity } => {
                    let child = match kernel1_rows(column, k) {
                        Ok(c) => c,
                        Err(e) => {
                            return Err(e);
                        },
                    };
                    let r = Column::Nullable {
                        column: Box::new(child),
                        validity: bools_copy(validity),
                    };
                    proof {
                        assert(col_v(r).wf());
                        assert forall|i: int|
                            0 <= i < col_v(*a).len() && col_v(*a)->Nullable_validity[i] implies #[trigger] col_v(
                            r,
                        ).at(i) == kernel1_spec(k, col_v(*a).at(i)) by {
                            assert((*col_v(r)->Nullable_column).at(i) == kernel1_spec(
                                k,
                                (*col_v(*a)->Nullable_column).at(i),
                            ));
                        }
                    }
                    Ok(Value::Column(r))
                },
                _ => Err(EvalError::TypeMismatch),
            }
        },
    }
}

/// Lifts a two-argument kernel to nullable inputs. A null scalar argument
/// short-circuits to a null scalar; with two nullable columns the result is
/// present in a row exactly when both inputs are, so the output null mask is
/// the bitwise or of the input null masks.
pub fn vectorize_passthrough_nullable_2_arg(lhs: &Value, rhs: &Value, k: Kernel2) -> (r: Result<
    Value,
    EvalError,
>)
    requires
        lhs.wf(),
        rhs.wf(),
    ensures
        pass2_post(k, *lhs, *rhs, r),
{
    match (lhs, rhs) {
        (Value::Scalar(Scalar::Null), _) => Ok(Value::Scalar(Scalar::Null)),
        (_, Value::Scalar(Scalar::Null)) => Ok(Value::Scalar(Scalar::Null)),
        (Value::Scalar(a), Value::Scalar(b)) => {
            match eval_kernel2(k, a, b) {
                Ok(o) => Ok(Value::Scalar(o)),
                Err(e) => Err(e),
            }
        },
        (Value::Scalar(a), Value::Column(b)) => {
            match b {
                Column::Nullable { column, validity } => {
                    let child = match kernel2_broadcast(a, column, k, true) {
                        Ok(c) => c,
                        Err(e) => {
                            return Err(e);
                        },
                    };
                    let r = Column::Nullable {
                        column: Box::new(child),
                        validity: bools_copy(validity),
                    };
                    proof {
                        assert(col_v(r).wf());
                        assert forall|i: int|
                            0 <= i < col_v(*b).len() && col_v(*b)->Nullable_validity[i] implies #[trigger] col_v(
                            r,
                        ).at(i) == kernel2_spec(k, sc_v(*a).val(), col_v(*b).at(i)) by {
                            assert((*col_v(r)->Nullable_column).at(i) == kernel2_spec(
                                k,
                                sc_v(*a).val(),
                                (*col_v(*b)->Nullable_column).at(i),
                            ));
                        }
                    }
                    Ok(Value::Column(r))
                },
                _ => Err(EvalError::TypeMismatch),
            }
        },
        (Value::Column(a), Value::Scalar(b)) => {
            match a {
                Column::Nullable { column, validity } => {
                    let child = match kernel2_broadcast(b, column, k, false) {
                        Ok(c) => c,
                        Err(e) => {
                            return Err(e);
                        },
                    };
                    let r = Column::Nullable {
                        column: Box::new(child),
                        validity: bools_copy(validity),
                    };
                    proof {
                        assert(col_v(r).wf());
                        assert forall|i: int|
                            0 <= i < col_v(*a).len() && col_v(*a)->Nullable_validity[i] implies #[trigger] col_v(
                            r,
                        ).at(i) == kernel2_spec(k, col_v(*a).at(i), sc_v(*b).val()) by {
                            assert((*col_v(r)->Nullable_column).at(i) == kernel2_spec(
                                k,
                                (*col_v(*a)->Nullable_column).at(i),
                                sc_v(*b).val(),
                            ));
                        }
                    }
                    Ok(Value::Column(r))
                },
                _ => Err(EvalError::TypeMismatch),
            }
        },
        (Value::Column(a), Value::Column(b)) => {
            match (a, b) {
                (
                    Column::Nullable { column: ca, validity: va },
                    Column::Nullable { column: cb, validity: vb },
                ) => {
                    if va.len() != vb.len() {
                        return Err(EvalError::LengthMismatch);
                    }
                    let child = match kernel2_rows(ca, cb, k) {
                        Ok(c) => c,
                        Err(e) => {
                            return Err(e);
                        },
                    };
                    let r = Column::Nullable { column: Box::new(child), validity: bools_and(
                        va,
                        vb,
                    ) };
                    proof {
                        assert(col_v(r).wf());
                        assert forall|i: int|
                            0 <= i < col_v(*a).len() && col_v(*a)->Nullable_validity[i] && col_v(
                            *b,
                        )->Nullable_validity[i] implies #[trigger] col_v(r).at(i) == kernel2_spec(
                            k,
                            col_v(*a).at(i),
                            col_v(*b).at(i),
                        ) by {
                            assert(col_v(r)->Nullable_validity[i]);
                            assert((*col_v(r)->Nullable_column).at(i) == kernel2_spec(
                                k,
                                (*col_v(*a)->Nullable_column).at(i),
                                (*col_v(*b)->Nullable_column).at(i),
                            ));
                        }
                    }
                    Ok(Value::Column(r))
                },
                _ => Err(EvalError::TypeMismatch),
            }
        },
    }
}


/// The model of a function signature.
pub ghost struct SigV {
    /// The function's name.
    pub name: Seq<char>,
    /// The declared argument types, possibly holding type variables.
    pub args_type: Seq<Ty>,
    /// The declared return type.
    pub return_type: Ty,
    /// The declared function property.
    pub property: FunctionProperty,
}

/// The name, argument types, return type and property of a function.
#[derive(Debug)]
pub struct FunctionSignature {
    /// The function's name.
    pub name: String,
    /// The declared argument types, possibly holding type variables.
    pub args_type: Vec<DataType>,
    /// The declared return type.
    pub return_type: DataType,
    /// The declared function property.
    pub property: FunctionProperty,
}

impl View for FunctionSignature {
    type V = SigV;

    open spec fn view(&self) -> SigV {
        SigV {
            name: self.name@,
            args_type: tys_of(self.args_type@),
            return_type: self.return_type@,
            property: self.property,
        }
    }
}

impl Clone for FunctionSignature {
    /// A clone has the same model as the original.
    fn clone(&self) -> (r: Self)
        ensures
            r@ == self@,
    {
        FunctionSignature {
            name: self.name.clone(),
            args_type: clone_types(&self.args_type),
            return_type: self.return_type.clone(),
            property: self.property,
        }
    }
}

/// The model of a function identifier.
pub ghost enum FidV {
    /// A built-in overload: the position `id` in the overload list of `name`.
    Builtin { name: Seq<char>, id: int },
    /// A factory-produced function, with the state to rebuild it.
    Factory { name: Seq<char>, id: int, params: Seq<usize>, args_type: Seq<Ty> },
}

/// A stable identifier naming one registered evaluator, so that the exactly
/// same function can be reconstructed later from an equal registry.
#[derive(Debug)]
pub enum FunctionID {
    /// A built-in overload: the position `id` in the overload list of `name`.
    Builtin { name: String, id: usize },
    /// A factory-produced function, with the state to rebuild it.
    Factory { name: String, id: usize, params: Vec<usize>, args_type: Vec<DataType> },
}

impl View for FunctionID {
    type V = FidV;

    open spec fn view(&self) -> FidV {
        match self {
            FunctionID::Builtin { name, id } => FidV::Builtin { name: name@, id: *id as int },
            FunctionID::Factory { name, id, params, args_type } => FidV::Factory {
                name: name@,
                id: *id as int,
                params: params@,
                args_type: tys_of(args_type@),
            },
        }
    }
}

impl Clone for FunctionID {
    /// A clone has the same model as the original.
    fn clone(&self) -> (r: Self)
        ensures
            r@ == self@,
    {
        match self {
            FunctionID::Builtin { name, id } => FunctionID::Builtin {
                name: name.clone(),
                id: *id,
            },
            FunctionID::Factory { name, id, params, args_type } => {
                let mut ps: Vec<usize> = Vec::new();
                let mut i: usize = 0;
                while i < params.len()
                    invariant
                        i <= params@.len(),
                        ps@.len() == i,
                        forall|j: int| 0 <= j < i ==> #[trigger] ps@[j] == params@[j],
                    decreases params@.len() - i,
                {
                    ps.push(params[i]);
                    i = i + 1;
                }
                proof {
                    assert(ps@ =~= params@);
                }
                FunctionID::Factory {
                    name: name.clone(),
                    id: *id,
                    params: ps,
                    args_type: clone_types(args_type),
                }
            },
        }
    }
}

/// A first-order description of one erased evaluator: how the arguments are
/// interpreted and which kernel, if any, runs over the rows.
#[derive(Debug, Clone, Copy, PartialEq, Eq, Structural)]
pub enum Evaluator {
    /// A one-argument kernel over plain values.
    Vector1(Kernel1),
    /// A one-argument kernel lifted over nullable values.
    PassNullable1(Kernel1),
    /// A two-argument kernel over plain values.
    Vector2(Kernel2),
    /// A two-argument kernel lifted over nullable values.
    PassNullable2(Kernel2),
    /// Ignores the arguments and returns the null scalar.
    NullScalar,
    /// Ignores the arguments and returns the empty-array scalar.
    EmptyArrayScalar,
    /// The smallest of any number of 16-bit integers.
    Least,
    /// One element of an array, by integer index.
    Get,
    /// An array built from the arguments, rows in parallel.
    CreateArray,
    /// A tuple built from the arguments, rows in parallel.
    CreateTuple,
    /// One field of a tuple, by constant index.
    GetTuple(usize),
    /// One field of a nullable tuple, by constant index.
    GetTupleNullable(usize),
}

/// The model of a registered function.
pub ghost struct FnV {
    /// The signature's model.
    pub signature: SigV,
    /// The evaluator.
    pub eval: Evaluator,
}

/// A registered function: a signature with an erased evaluator.
#[derive(Debug)]
pub struct Function {
    /// The signature the type checker matches against.
    pub signature: FunctionSignature,
    /// The evaluator the runtime dispatches on.
    pub eval: Evaluator,
}

impl View for Function {
    type V = FnV;

    open spec fn view(&self) -> FnV {
        FnV { signature: self.signature@, eval: self.eval }
    }
}

impl Clone for Function {
    /// A clone has the same model as the original.
    fn clone(&self) -> (r: Self)
        ensures
            r@ == self@,
    {
        Function { signature: self.signature.clone(), eval: self.eval }
    }
}


/// Every argument value is structurally well-formed.
pub open spec fn args_wf(args: Seq<Value>) -> bool {
    forall|j: int| 0 <= j < args.len() ==> (#[trigger] args[j]).wf()
}

/// Every column among the arguments has exactly `n` rows.
pub open spec fn args_rows_ok(args: Seq<Value>, n: int) -> bool {
    forall|j: int| 0 <= j < args.len() ==> (#[trigger] args[j]).rows_ok(n)
}

/// The value an argument contributes to row `i`: a scalar is broadcast, a
/// column contributes its row.
pub open spec fn arg_row_val(v: Value, i: int) -> Val {
    match v {
        Value::Scalar(s) => sc_v(s).val(),
        Value::Column(c) => col_v(c).at(i),
    }
}

/// What `get` returns: one element per row, selected by the integer
/// argument; see `Evaluator::Get`.
pub open spec fn get_post(args: Seq<Value>, r: Result<Value, EvalError>) -> bool {
    &&& (r matches Ok(v) ==> v.wf())
    &&& (forall|n: int|
            #[trigger] args_rows_ok(args, n) ==> (r matches Ok(v) ==> v.rows_ok(n)))
    &&& (args.len() != 2 ==> r == Err::<Value, EvalError>(EvalError::ArityMismatch))
    &&& (r matches Ok(v) ==> match (args[0], args[1]) {
            (Value::Scalar(_), Value::Scalar(_)) => {
                &&& v is Scalar
                &&& sc_v(v->Scalar_0).val() == arg_row_val(args[0], 0)->Arr_0[arg_row_val(
                    args[1],
                    0,
                )->Int16_0 as int]
            },
            _ => {
                &&& v is Column
                &&& forall|i: int|
                    0 <= i < col_v(v->Column_0).len() ==> #[trigger] col_v(v->Column_0).at(i)
                        == arg_row_val(args[0], i)->Arr_0[arg_row_val(args[1], i)->Int16_0 as int]
            },
        })
}

/// What `least` returns; see `Evaluator::Least`.
pub open spec fn least_post(args: Seq<Value>, r: Result<Value, EvalError>) -> bool {
    &&& (r matches Ok(v) ==> v.wf())
    &&& (forall|n: int|
            #[trigger] args_rows_ok(args, n) ==> (r matches Ok(v) ==> v.rows_ok(n)))
    &&& (args.len() == 0 ==> (r matches Ok(v) && v is Scalar && sc_v(v->Scalar_0).val()
            == Val::Int16(0)))
    &&& (args.len() == 1 ==> (r matches Ok(v) && match (args[0], v) {
            (Value::Scalar(a), Value::Scalar(o)) => sc_v(o) == sc_v(a),
            (Value::Column(a), Value::Column(o)) => col_v(o) == col_v(a),
            _ => false,
        }))
}

/// What `create_tuple` returns; see `Evaluator::CreateTuple`.
pub open spec fn create_tuple_post(args: Seq<Value>, r: Result<Value, EvalError>) -> bool {
    &&& (r matches Ok(v) ==> v.wf())
    &&& (forall|n: int|
            #[trigger] args_rows_ok(args, n) ==> (r matches Ok(v) ==> v.rows_ok(n)))
    &&& (r matches Ok(v) ==> match v {
            Value::Scalar(s) => {
                &&& forall|j: int| 0 <= j < args.len() ==> (#[trigger] args[j]) is Scalar
                &&& sc_v(s).val() == Val::Tup(
                    Seq::new(args.len(), |j: int| arg_row_val(args[j], 0)),
                )
            },
            Value::Column(c) => {
                &&& forall|i: int|
                    0 <= i < col_v(c).len() ==> #[trigger] col_v(c).at(i) == Val::Tup(
                        Seq::new(args.len(), |j: int| arg_row_val(args[j], i)),
                    )
            },
        })
}

/// What `get_tuple` returns on a plain tuple; see `Evaluator::GetTuple`.
pub open spec fn get_tuple_post(idx: usize, args: Seq<Value>, r: Result<Value, EvalError>) -> bool {
    &&& (r matches Ok(v) ==> v.wf())
    &&& (forall|n: int|
            #[trigger] args_rows_ok(args, n) ==> (r matches Ok(v) ==> v.rows_ok(n)))
    &&& (args.len() != 1 ==> r == Err::<Value, EvalError>(EvalError::ArityMismatch))
    &&& (r matches Ok(v) ==> match (args[0], v) {
            (Value::Scalar(s), Value::Scalar(o)) => {
                &&& sc_v(s).val() is Tup
                &&& 0 <= idx < sc_v(s).val()->Tup_0.len()
                &&& sc_v(o).val() == sc_v(s).val()->Tup_0[idx as int]
            },
            (Value::Column(c), Value::Column(o)) => {
                &&& col_v(c) is Tuple
                &&& col_v(o).len() == col_v(c).len()
                &&& forall|i: int|
                    0 <= i < col_v(c).len() ==> #[trigger] col_v(o).at(i) == col_v(c).at(
                        i,
                    )->Tup_0[idx as int]
            },
            _ => false,
        })
}

/// What `get_tuple` returns on a nullable tuple; see
/// `Evaluator::GetTupleNullable`.
pub open spec fn get_tuple_nullable_post(idx: usize, args: Seq<Value>, r: Result<Value, EvalError>) -> bool {
    &&& (r matches Ok(v) ==> v.wf())
    &&& (forall|n: int|
            #[trigger] args_rows_ok(args, n) ==> (r matches Ok(v) ==> v.rows_ok(n)))
    &&& (args.len() != 1 ==> r == Err::<Value, EvalError>(EvalError::ArityMismatch))
    &&& (r matches Ok(v) ==> match (args[0], v) {
            (Value::Scalar(s), Value::Scalar(o)) => {
                &&& sc_v(s).val() is Null ==> sc_v(o).val() == Val::Null
                &&& sc_v(s).val() is Tup ==> 0 <= idx < sc_v(s).val()->Tup_0.len() && sc_v(o).val()
                    == sc_v(s).val()->Tup_0[idx as int]
            },
            (Value::Column(c), Value::Column(o)) => {
                &&& col_v(o).len() == col_v(c).len()
                &&& forall|i: int|
                    0 <= i < col_v(c).len() ==> #[trigger] col_v(o).at(i) == (
                    if col_v(c).at(i) is Tup {
                        col_v(c).at(i)->Tup_0[idx as int]
                    } else {
                        Val::Null
                    })
            },
            _ => false,
        })
}

/// What `create_array` returns; see `Evaluator::CreateArray`.
pub open spec fn create_array_post(args: Seq<Value>, r: Result<Value, EvalError>) -> bool {
    &&& (r matches Ok(v) ==> v.wf())
    &&& (forall|n: int|
            #[trigger] args_rows_ok(args, n) ==> (r matches Ok(v) ==> v.rows_ok(n)))
    &&& (r matches Ok(v) ==> match v {
            Value::Scalar(s) => {
                &&& forall|j: int| 0 <= j < args.len() ==> (#[trigger] args[j]) is Scalar
                &&& sc_v(s).val() == Val::Arr(
                    Seq::new(args.len(), |j: int| arg_row_val(args[j], 0)),
                )
            },
            Value::Column(c) => {
                &&& forall|i: int|
                    0 <= i < col_v(c).len() ==> #[trigger] col_v(c).at(i) == Val::Arr(
                        Seq::new(args.len(), |j: int| arg_row_val(args[j], i)),
                    )
            },
        })
}

/// One element of an array scalar, selected by an integer scalar.
fn get_elem(a: &Scalar, b: &Scalar) -> (r: Result<Scalar, EvalError>)
    requires
        a@.wf(),
        b@.wf(),
    ensures
        match r {
            Ok(o) => {
                &&& a@.val() is Arr && b@.val() is Int16
                &&& 0 <= b@.val()->Int16_0 < a@.val()->Arr_0.len()
                &&& o@.val() == a@.val()->Arr_0[b@.val()->Int16_0 as int]
                &&& o@.wf()
            },
            Err(e) => {
                &&& (e == EvalError::TypeMismatch && !(a@.val() is Arr && b@.val() is Int16))
                    || (e == EvalError::IndexOutOfRange && !(0 <= b@.val()->Int16_0
                    < a@.val()->Arr_0.len()))
            },
        },
{
    match (a, b) {
        (Scalar::Array(col), Scalar::Int16(i)) => {
            if *i < 0 {
                return Err(EvalError::IndexOutOfRange);
            }
            let idx = *i as usize;
            if idx >= col.len() {
                return Err(EvalError::IndexOutOfRange);
            }
            let o = col.index(idx);
            proof {
                assert(a@.val()->Arr_0 == col_v(*col).rows());
                assert(col_v(*col).rows()[*i as int] == col_v(*col).at(*i as int));
            }
            Ok(o)
        },
        (Scalar::EmptyArray, Scalar::Int16(_)) => Err(EvalError::IndexOutOfRange),
        _ => Err(EvalError::TypeMismatch),
    }
}

/// `get`: one element per row of an array argument, selected by an integer
/// argument, vectorized over both.
fn eval_get(args: &Vec<Value>, generics: &Vec<DataType>) -> (r: Result<Value, EvalError>)
    requires
        args_wf(args@),
    ensures
        get_post(args@, r),
{
    if args.len() != 2 {
        return Err(EvalError::ArityMismatch);
    }
    let is_scalar = match (&args[0], &args[1]) {
        (Value::Scalar(_), Value::Scalar(_)) => true,
        _ => false,
    };
    if is_scalar {
        let a = match &args[0] {
            Value::Scalar(s) => s,
            _ => {
                proof {
                    assert(false);
                }
                return Err(EvalError::TypeMismatch);
            },
        };
        let b = match &args[1] {
            Value::Scalar(s) => s,
            _ => {
                proof {
                    assert(false);
                }
                return Err(EvalError::TypeMismatch);
            },
        };
        match get_elem(a, b) {
            Ok(o) => Ok(Value::Scalar(o)),
            Err(e) => Err(e),
        }
    } else {
        if generics.len() < 1 {
            return Err(EvalError::UnresolvedGeneric);
        }
        let out_ty = &generics[0];
        if !out_ty.check_generic_free() || !out_ty.check_wf_ty() {
            return Err(EvalError::UnresolvedGeneric);
        }
        let n = match (&args[0], &args[1]) {
            (Value::Column(c), _) => c.len(),
            (_, Value::Column(c)) => c.len(),
            _ => {
                proof {
                    assert(false);
                }
                return Err(EvalError::TypeMismatch);
            },
        };
        match &args[1] {
            Value::Column(c) => {
                if c.len() != n {
                    return Err(EvalError::LengthMismatch);
                }
            },
            _ => {},
        }
        let ghost gn = n as int;
        let mut builder = ColumnBuilder::with_capacity(out_ty, n);
        let mut i: usize = 0;
        while i < n
            invariant
                i <= n,
                gn == n as int,
                args_wf(args@),
                args@.len() == 2,
                !(args@[0] is Scalar && args@[1] is Scalar),
                args@[0] is Column ==> col_v(args@[0]->Column_0).len() == gn,
                args@[1] is Column ==> col_v(args@[1]->Column_0).len() == gn,
                args@[0] is Scalar || args@[1] is Scalar || (args@[0] is Column && args@[1]
                    is Column),
                builder@.wf(),
                builder@.len() == i,
                forall|j: int|
                    0 <= j < i ==> #[trigger] builder@.at(j) == arg_row_val(args@[0], j)->Arr_0[
                        arg_row_val(args@[1], j)->Int16_0 as int
                    ],
            decreases n - i,
        {
            let a = match &args[0] {
                Value::Scalar(s) => s.clone(),
                Value::Column(c) => c.index(i),
            };
            let b = match &args[1] {
                Value::Scalar(s) => s.clone(),
                Value::Column(c) => c.index(i),
            };
            let o = match get_elem(&a, &b) {
                Ok(o) => o,
                Err(e) => {
                    return Err(e);
                },
            };
            proof {
                assert(a@.val() == arg_row_val(args@[0], i as int));
                assert(b@.val() == arg_row_val(args@[1], i as int));
            }
            match builder.push(&o) {
                Ok(()) => {},
                Err(e) => {
                    return Err(e);
                },
            }
            i = i + 1;
        }
        Ok(Value::Column(builder.build()))
    }
}

/// `least`: folds the minimum kernel over any number of 16-bit integer
/// arguments; no arguments yield zero.
fn eval_least(args: &Vec<Value>) -> (r: Result<Value, EvalError>)
    requires
        args_wf(args@),
    ensures
        least_post(args@, r),
{
    if args.len() == 0 {
        return Ok(Value::Scalar(Scalar::Int16(0)));
    }
    let mut acc = args[0].clone();
    let mut i: usize = 1;
    while i < args.len()
        invariant
            1 <= i <= args@.len(),
            args_wf(args@),
            acc.wf(),
            forall|n: int| #[trigger] args_rows_ok(args@, n) ==> acc.rows_ok(n),
            args@.len() == 1 ==> match (args@[0], acc) {
                (Value::Scalar(a), Value::Scalar(o)) => sc_v(o) == sc_v(a),
                (Value::Column(a), Value::Column(o)) => col_v(o) == col_v(a),
                _ => false,
            },
        decreases args@.len() - i,
    {
        let next = match vectorize_2_arg(&acc, &args[i], Kernel2::Min) {
            Ok(v) => v,
            Err(e) => {
                return Err(e);
            },
        };
        proof {
            assert forall|n: int| #[trigger] args_rows_ok(args@, n) implies next.rows_ok(n) by {
                assert(args@[i as int].rows_ok(n));
                assert(acc.rows_ok(n));
            }
        }
        acc = next;
        i = i + 1;
    }
    Ok(acc)
}

/// `create_tuple`: a tuple scalar from scalar arguments, or a tuple column
/// from mixed arguments with every scalar broadcast.
fn eval_create_tuple(args: &Vec<Value>) -> (r: Result<Value, EvalError>)
    requires
        args_wf(args@),
    ensures
        create_tuple_post(args@, r),
{
    let mut col_len: Option<usize> = None;
    let mut j: usize = 0;
    while j < args.len()
        invariant
            j <= args@.len(),
            args_wf(args@),
            match col_len {
                Some(n) => {
                    &&& exists|q: int|
                        0 <= q < j && (#[trigger] args@[q]) is Column && col_v(
                            args@[q]->Column_0,
                        ).len() == n as int
                    &&& forall|q: int|
                        0 <= q < j && (#[trigger] args@[q]) is Column ==> col_v(
                            args@[q]->Column_0,
                        ).len() == n as int
                },
                None => forall|q: int| 0 <= q < j ==> (#[trigger] args@[q]) is Scalar,
            },
        decreases args@.len() - j,
    {
        match &args[j] {
            Value::Column(c) => {
                let len = c.len();
                match col_len {
                    Some(n) => {
                        if len != n {
                            return Err(EvalError::LengthMismatch);
                        }
                    },
                    None => {
                        col_len = Some(len);
                    },
                }
            },
            Value::Scalar(_) => {},
        }
        j = j + 1;
    }
    match col_len {
        None => {
            let mut fields: Vec<Scalar> = Vec::new();
            let mut i: usize = 0;
            while i < args.len()
                invariant
                    i <= args@.len(),
                    args_wf(args@),
                    forall|q: int| 0 <= q < args@.len() ==> (#[trigger] args@[q]) is Scalar,
                    fields@.len() == i,
                    forall|q: int|
                        0 <= q < i ==> sc_v(#[trigger] fields@[q]).val() == arg_row_val(
                            args@[q],
                            0,
                        ) && sc_v(fields@[q]).wf(),
                decreases args@.len() - i,
            {
                match &args[i] {
                    Value::Scalar(sc) => {
                        fields.push(sc.clone());
                    },
                    Value::Column(_) => {
                        proof {
                            assert(false);
                        }
                        return Err(EvalError::TypeMismatch);
                    },
                }
                i = i + 1;
            }
            let out = Scalar::Tuple(fields);
            proof {
                crate::values::lemma_scs_v(out->Tuple_0@);
                crate::values::lemma_vals_scals(sc_v(out)->Tuple_0);
                crate::values::lemma_wf_scals(sc_v(out)->Tuple_0);
                assert forall|q: int| 0 <= q < args@.len() implies #[trigger] vals_scals(
                    sc_v(out)->Tuple_0,
                )[q] == arg_row_val(args@[q], 0) by {
                    assert(sc_v(out)->Tuple_0[q] == sc_v(out->Tuple_0@[q]));
                    assert(vals_scals(sc_v(out)->Tuple_0)[q] == sc_v(out)->Tuple_0[q].val());
                }
                assert(sc_v(out).val()->Tup_0 =~= Seq::new(
                    args@.len(),
                    |j: int| arg_row_val(args@[j], 0),
                ));
                assert forall|q: int| 0 <= q < args@.len() implies (#[trigger] sc_v(
                    out,
                )->Tuple_0[q]).wf() by {
                    assert(sc_v(out)->Tuple_0[q] == sc_v(out->Tuple_0@[q]));
                }
            }
            Ok(Value::Scalar(out))
        },
        Some(n) => {
            let mut fields: Vec<Column> = Vec::new();
            let mut i: usize = 0;
            while i < args.len()
                invariant
                    i <= args@.len(),
                    args_wf(args@),
                    forall|q: int|
                        0 <= q < args@.len() && (#[trigger] args@[q]) is Column ==> col_v(
                            args@[q]->Column_0,
                        ).len() == n as int,
                    fields@.len() == i,
                    forall|q: int|
                        0 <= q < i ==> {
                            &&& col_v(#[trigger] fields@[q]).wf()
                            &&& col_v(fields@[q]).len() == n as int
                            &&& forall|w: int|
                                0 <= w < n as int ==> col_v(fields@[q]).at(w) == arg_row_val(
                                    args@[q],
                                    w,
                                )
                        },
                decreases args@.len() - i,
            {
                match &args[i] {
                    Value::Scalar(sc) => {
                        let b = sc.repeat(n);
                        fields.push(b.build());
                    },
                    Value::Column(c) => {
                        fields.push(c.clone());
                    },
                }
                i = i + 1;
            }
            let out = Column::Tuple { fields, len: n };
            proof {
                crate::values::lemma_cols_v(out->Tuple_fields@);
                let m = col_v(out)->Tuple_fields;
                assert forall|q: int| 0 <= q < m.len() implies (#[trigger] m[q]).wf() && m[q].len()
                    == n as int by {
                    assert(m[q] == col_v(out->Tuple_fields@[q]));
                }
                crate::values::lemma_wf_cols(m, n as int);
                assert forall|i: int| 0 <= i < n as int implies #[trigger] col_v(out).at(i)
                    == Val::Tup(Seq::new(args@.len(), |j: int| arg_row_val(args@[j], i))) by {
                    crate::values::lemma_ats_cols(m, i);
                    assert forall|q: int| 0 <= q < m.len() implies #[trigger] crate::values::ats_cols(
                        m,
                        i,
                    )[q] == arg_row_val(args@[q], i) by {
                        assert(m[q] == col_v(out->Tuple_fields@[q]));
                        assert(col_v(out->Tuple_fields@[q]).at(i) == arg_row_val(args@[q], i));
                    }
                    assert(crate::values::ats_cols(m, i) =~= Seq::new(
                        args@.len(),
                        |j: int| arg_row_val(args@[j], i),
                    ));
                }
            }
            Ok(Value::Column(out))
        },
    }
}

/// `get_tuple`: one field of a tuple value, by constant index.
fn eval_get_tuple(idx: usize, args: &Vec<Value>) -> (r: Result<Value, EvalError>)
    requires
        args_wf(args@),
    ensures
        get_tuple_post(idx, args@, r),
{
    if args.len() != 1 {
        return Err(EvalError::ArityMismatch);
    }
    match &args[0] {
        Value::Scalar(Scalar::Tuple(fields)) => {
            if idx >= fields.len() {
                return Err(EvalError::IndexOutOfRange);
            }
            let o = fields[idx].clone();
            proof {
                crate::values::lemma_scs_v(fields@);
                crate::values::lemma_vals_scals(sc_v(args@[0]->Scalar_0)->Tuple_0);
                crate::values::lemma_wf_scals(sc_v(args@[0]->Scalar_0)->Tuple_0);
                assert(sc_v(args@[0]->Scalar_0)->Tuple_0[idx as int] == sc_v(fields@[idx as int]));
            }
            Ok(Value::Scalar(o))
        },
        Value::Column(Column::Tuple { fields, len }) => {
            if idx >= fields.len() {
                return Err(EvalError::IndexOutOfRange);
            }
            let o = fields[idx].clone();
            proof {
                let cv = col_v(args@[0]->Column_0);
                crate::values::lemma_cols_v(fields@);
                crate::values::lemma_wf_cols(cv->Tuple_fields, *len as int);
                assert(cv->Tuple_fields[idx as int] == col_v(fields@[idx as int]));
                assert forall|i: int| 0 <= i < cv.len() implies #[trigger] col_v(o).at(i)
                    == cv.at(i)->Tup_0[idx as int] by {
                    crate::values::lemma_ats_cols(cv->Tuple_fields, i);
                }
            }
            Ok(Value::Column(o))
        },
        _ => Err(EvalError::TypeMismatch),
    }
}

/// `get_tuple` on a nullable tuple: a null input row yields a null output
/// row; a present row yields that row's field, which may itself be null if
/// the field is nullable.
fn eval_get_tuple_nullable(idx: usize, args: &Vec<Value>) -> (r: Result<Value, EvalError>)
    requires
        args_wf(args@),
    ensures
        get_tuple_nullable_post(idx, args@, r),
{
    if args.len() != 1 {
        return Err(EvalError::ArityMismatch);
    }
    match &args[0] {
        Value::Scalar(Scalar::Null) => Ok(Value::Scalar(Scalar::Null)),
        Value::Scalar(Scalar::Tuple(fields)) => {
            if idx >= fields.len() {
                return Err(EvalError::IndexOutOfRange);
            }
            let o = fields[idx].clone();
            proof {
                crate::values::lemma_scs_v(fields@);
                crate::values::lemma_vals_scals(sc_v(args@[0]->Scalar_0)->Tuple_0);
                crate::values::lemma_wf_scals(sc_v(args@[0]->Scalar_0)->Tuple_0);
                assert(sc_v(args@[0]->Scalar_0)->Tuple_0[idx as int] == sc_v(fields@[idx as int]));
            }
            Ok(Value::Scalar(o))
        },
        Value::Scalar(_) => Err(EvalError::TypeMismatch),
        Value::Column(col) => {
            match col {
                Column::Nullable { column, validity } => {
                    match &**column {
                        Column::Tuple { fields, len } => {
                            if idx >= fields.len() {
                                return Err(EvalError::IndexOutOfRange);
                            }
                            let field = fields[idx].clone();
                            proof {
                                assert(args@[0].wf());
                                let cv = col_v(args@[0]->Column_0);
                                assert(cv.wf());
                                let tv = *cv->Nullable_column;
                                assert(tv == col_v(**column));
                                assert(tv.wf());
                                crate::values::lemma_cols_v(fields@);
                                assert(crate::values::wf_cols(tv->Tuple_fields, *len as int));
                                crate::values::lemma_wf_cols(tv->Tuple_fields, *len as int);
                                assert(crate::values::cols_v(fields@)[idx as int] == col_v(
                                    fields@[idx as int],
                                ));
                                assert(tv->Tuple_fields[idx as int] == col_v(fields@[idx as int]));
                                assert(col_v(field).wf());
                                assert(col_v(field).len() == *len as int);
                                assert(cv->Nullable_validity.len() == *len as int);
                            }
                            let out = match &field {
                                Column::Null { len: fl } => Column::Null { len: *fl },
                                Column::Nullable { column: ic, validity: iv } => {
                                    if iv.len() != validity.len() {
                                        return Err(EvalError::LengthMismatch);
                                    }
                                    Column::Nullable {
                                        column: Box::new((**ic).clone()),
                                        validity: bools_and(validity, iv),
                                    }
                                },
                                _ => {
                                    if validity.len() != field.len() {
                                        return Err(EvalError::LengthMismatch);
                                    }
                                    Column::Nullable {
                                        column: Box::new(field.clone()),
                                        validity: bools_copy(validity),
                                    }
                                },
                            };
                            proof {
                                assert(args@[0].wf());
                                let cv = col_v(args@[0]->Column_0);
                                assert(cv.wf());
                                let tv = *cv->Nullable_column;
                                assert(tv.wf());
                                crate::values::lemma_cols_v(fields@);
                                crate::values::lemma_wf_cols(tv->Tuple_fields, cv.len());
                                let fv = col_v(field);
                                assert(crate::values::cols_v(fields@)[idx as int] == col_v(
                                    fields@[idx as int],
                                ));
                                assert(fv == tv->Tuple_fields[idx as int]);
                                assert(fv.wf() && fv.len() == cv.len());
                                assert(col_v(out).wf());
                                assert(col_v(out).len() == cv.len());
                                assert forall|i: int| 0 <= i < cv.len() implies #[trigger] col_v(
                                    out,
                                ).at(i) == (
                                if cv.at(i) is Tup {
                                    cv.at(i)->Tup_0[idx as int]
                                } else {
                                    Val::Null
                                }) by {
                                    crate::values::lemma_ats_cols(tv->Tuple_fields, i);
                                    if cv->Nullable_validity[i] {
                                        assert(cv.at(i) == tv.at(i));
                                        assert(tv.at(i)->Tup_0 == crate::values::ats_cols(
                                            tv->Tuple_fields,
                                            i,
                                        ));
                                        assert(crate::values::ats_cols(tv->Tuple_fields, i)[
                                            idx as int
                                        ] == tv->Tuple_fields[idx as int].at(i));
                                        assert(cv.at(i)->Tup_0[idx as int] == fv.at(i));
                                    }
                                }
                            }
                            Ok(Value::Column(out))
                        },
                        _ => Err(EvalError::TypeMismatch),
                    }
                },
                _ => Err(EvalError::TypeMismatch),
            }
        },
    }
}


/// `create_array`: an array scalar from scalar arguments, or an array column
/// from mixed arguments, where row `i` holds the `i`-th value of every
/// argument in order.
fn eval_create_array(args: &Vec<Value>, generics: &Vec<DataType>) -> (r: Result<Value, EvalError>)
    requires
        args_wf(args@),
    ensures
        create_array_post(args@, r),
{
    if generics.len() < 1 {
        return Err(EvalError::UnresolvedGeneric);
    }
    let elem_ty = &generics[0];
    if !elem_ty.check_generic_free() || !elem_ty.check_wf_ty() {
        return Err(EvalError::UnresolvedGeneric);
    }
    let m = args.len();
    let mut col_len: Option<usize> = None;
    let mut j: usize = 0;
    while j < m
        invariant
            j <= args@.len(),
            m == args@.len(),
            args_wf(args@),
            match col_len {
                Some(n) => {
                    &&& exists|q: int|
                        0 <= q < j && (#[trigger] args@[q]) is Column && col_v(
                            args@[q]->Column_0,
                        ).len() == n as int
                    &&& forall|q: int|
                        0 <= q < j && (#[trigger] args@[q]) is Column ==> col_v(
                            args@[q]->Column_0,
                        ).len() == n as int
                },
                None => forall|q: int| 0 <= q < j ==> (#[trigger] args@[q]) is Scalar,
            },
        decreases args@.len() - j,
    {
        match &args[j] {
            Value::Column(c) => {
                let len = c.len();
                match col_len {
                    Some(n) => {
                        if len != n {
                            return Err(EvalError::LengthMismatch);
                        }
                    },
                    None => {
                        col_len = Some(len);
                    },
                }
            },
            Value::Scalar(_) => {},
        }
        j = j + 1;
    }
    match col_len {
        None => {
            let mut builder = ColumnBuilder::with_capacity(elem_ty, m);
            let mut i: usize = 0;
            while i < m
                invariant
                    i <= m,
                    m == args@.len(),
                    args_wf(args@),
                    forall|q: int| 0 <= q < args@.len() ==> (#[trigger] args@[q]) is Scalar,
                    builder@.wf(),
                    builder@.len() == i,
                    forall|q: int|
                        0 <= q < i ==> #[trigger] builder@.at(q) == arg_row_val(args@[q], 0),
                decreases m - i,
            {
                let sc = match &args[i] {
                    Value::Scalar(sc) => sc.clone(),
                    Value::Column(_) => {
                        proof {
                            assert(false);
                        }
                        return Err(EvalError::TypeMismatch);
                    },
                };
                match builder.push(&sc) {
                    Ok(()) => {},
                    Err(e) => {
                        return Err(e);
                    },
                }
                i = i + 1;
            }
            let out = Scalar::Array(builder.build());
            proof {
                assert(sc_v(out).val()->Arr_0 =~= Seq::new(
                    args@.len(),
                    |j: int| arg_row_val(args@[j], 0),
                ));
            }
            Ok(Value::Scalar(out))
        },
        Some(n) => {
            let mut builder = ColumnBuilder::with_capacity(elem_ty, 0);
            let mut off: Vec<(usize, usize)> = Vec::new();
            let mut i: usize = 0;
            while i < n
                invariant
                    i <= n,
                    m == args@.len(),
                    args_wf(args@),
                    forall|q: int|
                        0 <= q < args@.len() && (#[trigger] args@[q]) is Column ==> col_v(
                            args@[q]->Column_0,
                        ).len() == n as int,
                    builder@.wf(),
                    off@.len() == i,
                    forall|r: int|
                        0 <= r < i ==> {
                            &&& 0 <= (#[trigger] off@[r]).0 <= off@[r].1 <= builder@.len()
                            &&& off@[r].1 - off@[r].0 == m as int
                            &&& forall|q: int|
                                0 <= q < m as int ==> builder@.at(off@[r].0 + q) == arg_row_val(
                                    args@[q],
                                    r,
                                )
                        },
                decreases n - i,
            {
                let start = builder.len();
                let mut q: usize = 0;
                while q < m
                    invariant
                        q <= m,
                        i < n,
                        m == args@.len(),
                        args_wf(args@),
                        forall|w: int|
                            0 <= w < args@.len() && (#[trigger] args@[w]) is Column ==> col_v(
                                args@[w]->Column_0,
                            ).len() == n as int,
                        builder@.wf(),
                        start as int + q as int == builder@.len(),
                        off@.len() == i,
                        forall|r: int|
                            0 <= r < i as int ==> {
                                &&& 0 <= (#[trigger] off@[r]).0 <= off@[r].1 <= start as int
                                &&& off@[r].1 - off@[r].0 == m as int
                                &&& forall|w: int|
                                    0 <= w < m as int ==> builder@.at(off@[r].0 + w)
                                        == arg_row_val(args@[w], r)
                            },
                        forall|w: int|
                            0 <= w < q ==> #[trigger] builder@.at(start as int + w)
                                == arg_row_val(args@[w], i as int),
                    decreases m - q,
                {
                    let sc = match &args[q] {
                        Value::Scalar(sc) => sc.clone(),
                        Value::Column(c) => c.index(i),
                    };
                    match builder.push(&sc) {
                        Ok(()) => {},
                        Err(e) => {
                            return Err(e);
                        },
                    }
                    q = q + 1;
                }
                let end = builder.len();
                off.push((start, end));
                i = i + 1;
            }
            let child = builder.build();
            let out = Column::Array { array: Box::new(child), offsets: off };
            proof {
                let ov = col_v(out);
                let oo = ov->Array_offsets;
                assert forall|r: int| 0 <= r < ov.len() implies 0 <= (#[trigger] oo[r]).0
                    <= oo[r].1 <= (*ov->Array_array).len() by {
                    assert(off@[r].1 <= (*ov->Array_array).len());
                }
                assert(ov.wf());
                assert forall|r: int| 0 <= r < ov.len() implies #[trigger] ov.at(r) == Val::Arr(
                    Seq::new(args@.len(), |j: int| arg_row_val(args@[j], r)),
                ) by {
                    assert(oo[r].0 == off@[r].0 && oo[r].1 == off@[r].1);
                    assert(ov.at(r)->Arr_0 =~= Seq::new(
                        args@.len(),
                        |j: int| arg_row_val(args@[j], r),
                    ));
                }
            }
            Ok(Value::Column(out))
        },
    }
}

/// What dispatching one erased evaluator returns: a well-formed value that
/// preserves the row count of the column arguments, and per evaluator the
/// result its own contract states.
pub open spec fn eval_post(ev: Evaluator, args: Seq<Value>, r: Result<Value, EvalError>) -> bool {
    &&& (r matches Ok(v) ==> v.wf())
    &&& (forall|n: int|
        #[trigger] args_rows_ok(args, n) ==> (r matches Ok(v) ==> v.rows_ok(n)))
    &&& (ev == Evaluator::NullScalar ==> (r matches Ok(v) && v == Value::Scalar(Scalar::Null)))
    &&& (ev == Evaluator::EmptyArrayScalar ==> (r matches Ok(v) && v == Value::Scalar(
        Scalar::EmptyArray,
    )))
    &&& match ev {
        Evaluator::Vector1(k) => if args.len() == 1 {
            vec1_post(k, args[0], r)
        } else {
            r == Err::<Value, EvalError>(EvalError::ArityMismatch)
        },
        Evaluator::PassNullable1(k) => if args.len() == 1 {
            pass1_post(k, args[0], r)
        } else {
            r == Err::<Value, EvalError>(EvalError::ArityMismatch)
        },
        Evaluator::Vector2(k) => if args.len() == 2 {
            vec2_post(k, args[0], args[1], r)
        } else {
            r == Err::<Value, EvalError>(EvalError::ArityMismatch)
        },
        Evaluator::PassNullable2(k) => if args.len() == 2 {
            pass2_post(k, args[0], args[1], r)
        } else {
            r == Err::<Value, EvalError>(EvalError::ArityMismatch)
        },
        Evaluator::NullScalar => true,
        Evaluator::EmptyArrayScalar => true,
        Evaluator::Least => least_post(args, r),
        Evaluator::Get => get_post(args, r),
        Evaluator::CreateArray => create_array_post(args, r),
        Evaluator::CreateTuple => create_tuple_post(args, r),
        Evaluator::GetTuple(i) => get_tuple_post(i, args, r),
        Evaluator::GetTupleNullable(i) => get_tuple_nullable_post(i, args, r),
    }
}

/// Dispatches one erased evaluator over its arguments and the resolved
/// generics. Whatever the evaluator, a successful result is well-formed and
/// is either a scalar or a column with exactly as many rows as the column
/// arguments.
pub fn eval_function(ev: Evaluator, args: &Vec<Value>, generics: &Vec<DataType>) -> (r: Result<
    Value,
    EvalError,
>)
    requires
        args_wf(args@),
    ensures
        eval_post(ev, args@, r),
{
    match ev {
        Evaluator::Vector1(k) => {
            if args.len() != 1 {
                return Err(EvalError::ArityMismatch);
            }
            let r = vectorize_1_arg(&args[0], k);
            proof {
                assert forall|n: int| #[trigger] args_rows_ok(args@, n) implies (r matches Ok(v)
                    ==> v.rows_ok(n)) by {
                    assert(args@[0].rows_ok(n));
                }
            }
            r
        },
        Evaluator::PassNullable1(k) => {
            if args.len() != 1 {
                return Err(EvalError::ArityMismatch);
            }
            let r = vectorize_passthrough_nullable_1_arg(&args[0], k);
            proof {
                assert forall|n: int| #[trigger] args_rows_ok(args@, n) implies (r matches Ok(v)
                    ==> v.rows_ok(n)) by {
                    assert(args@[0].rows_ok(n));
                }
            }
            r
        },
        Evaluator::Vector2(k) => {
            if args.len() != 2 {
                return Err(EvalError::ArityMismatch);
            }
            let r = vectorize_2_arg(&args[0], &args[1], k);
            proof {
                assert forall|n: int| #[trigger] args_rows_ok(args@, n) implies (r matches Ok(v)
                    ==> v.rows_ok(n)) by {
                    assert(args@[0].rows_ok(n));
                    assert(args@[1].rows_ok(n));
                }
            }
            r
        },
        Evaluator::PassNullable2(k) => {
            if args.len() != 2 {
                return Err(EvalError::ArityMismatch);
            }
            let r = vectorize_passthrough_nullable_2_arg(&args[0], &args[1], k);
            proof {
                assert forall|n: int| #[trigger] args_rows_ok(args@, n) implies (r matches Ok(v)
                    ==> v.rows_ok(n)) by {
                    assert(args@[0].rows_ok(n));
                    assert(args@[1].rows_ok(n));
                }
            }
            r
        },
        Evaluator::NullScalar => Ok(Value::Scalar(Scalar::Null)),
        Evaluator::EmptyArrayScalar => Ok(Value::Scalar(Scalar::EmptyArray)),
        Evaluator::Least => eval_least(args),
        Evaluator::Get => {
            let r = eval_get(args, generics);
            proof {
                assert forall|n: int| #[trigger] args_rows_ok(args@, n) implies (r matches Ok(v)
                    ==> v.rows_ok(n)) by {}
            }
            r
        },
        Evaluator::CreateArray => eval_create_array(args, generics),
        Evaluator::CreateTuple => eval_create_tuple(args),
        Evaluator::GetTuple(i) => eval_get_tuple(i, args),
        Evaluator::GetTupleNullable(i) => eval_get_tuple_nullable(i, args),
    }
}


/// The models of a sequence of registered functions, elementwise.
pub open spec fn fnvs_of(s: Seq<Function>) -> Seq<FnV>
    decreases s,
{
    if s.len() == 0 {
        Seq::empty()
    } else {
        fnvs_of(s.subrange(0, s.len() - 1)).push(s[s.len() - 1]@)
    }
}

/// `fnvs_of` maps the view over the sequence.
pub broadcast proof fn lemma_fnvs_of(s: Seq<Function>)
    ensures
        (#[trigger] fnvs_of(s)).len() == s.len(),
        forall|i: int| 0 <= i < s.len() ==> fnvs_of(s)[i] == (#[trigger] s[i])@,
    decreases s,
{
    if s.len() > 0 {
        lemma_fnvs_of(s.subrange(0, s.len() - 1));
        assert(forall|i: int| 0 <= i < s.len() - 1 ==> s.subrange(0, s.len() - 1)[i] == s[i]);
    }
}

/// The overloads registered under `name`: the list of the first entry with
/// that name, or the empty list.
pub open spec fn funcs_of(s: Seq<(String, Vec<Function>)>, name: Seq<char>) -> Seq<FnV>
    decreases s,
{
    if s.len() == 0 {
        Seq::empty()
    } else if s[0].0@ == name {
        fnvs_of(s[0].1@)
    } else {
        funcs_of(s.subrange(1, s.len() as int), name)
    }
}

/// The factories registered under `name`: the list of the first entry with
/// that name, or the empty list.
pub open spec fn factories_of(s: Seq<(String, Vec<FunctionFactory>)>, name: Seq<char>) -> Seq<
    FunctionFactory,
>
    decreases s,
{
    if s.len() == 0 {
        Seq::empty()
    } else if s[0].0@ == name {
        s[0].1@
    } else {
        factories_of(s.subrange(1, s.len() as int), name)
    }
}

/// When no entry carries `name`, the lookup is empty, and appending a fresh
/// entry for `name` binds exactly its list.
proof fn lemma_funcs_of_append(
    s: Seq<(String, Vec<Function>)>,
    name: Seq<char>,
    entry: (String, Vec<Function>),
)
    requires
        forall|j: int| 0 <= j < s.len() ==> (#[trigger] s[j]).0@ != name,
        entry.0@ == name,
    ensures
        funcs_of(s, name) == Seq::<FnV>::empty(),
        funcs_of(s.push(entry), name) == fnvs_of(entry.1@),
        forall|m: Seq<char>|
            m != name ==> #[trigger] funcs_of(s.push(entry), m) == funcs_of(s, m),
    decreases s,
{
    if s.len() == 0 {
        assert(s.push(entry)[0] == entry);
        assert forall|m: Seq<char>| m != name implies #[trigger] funcs_of(s.push(entry), m)
            == funcs_of(s, m) by {
            assert(s.push(entry).subrange(1, 1) =~= s);
        }
    } else {
        assert(forall|j: int|
            0 <= j < s.len() - 1 ==> #[trigger] s.subrange(1, s.len() as int)[j] == s[j + 1]);
        lemma_funcs_of_append(s.subrange(1, s.len() as int), name, entry);
        assert(s.push(entry)[0] == s[0]);
        assert(s.push(entry).subrange(1, s.push(entry).len() as int) =~= s.subrange(
            1,
            s.len() as int,
        ).push(entry));
        assert forall|m: Seq<char>| m != name implies #[trigger] funcs_of(s.push(entry), m)
            == funcs_of(s, m) by {
            if s[0].0@ != m {
                assert(funcs_of(s.push(entry), m) == funcs_of(
                    s.subrange(1, s.len() as int).push(entry),
                    m,
                ));
                assert(funcs_of(s, m) == funcs_of(s.subrange(1, s.len() as int), m));
            }
        }
    }
}

/// The lookup of `name` reads the first entry that carries it.
proof fn lemma_funcs_of_at(s: Seq<(String, Vec<Function>)>, e: int, name: Seq<char>)
    requires
        0 <= e < s.len(),
        s[e].0@ == name,
        forall|j: int| 0 <= j < e ==> (#[trigger] s[j]).0@ != name,
    ensures
        funcs_of(s, name) == fnvs_of(s[e].1@),
    decreases e,
{
    if e > 0 {
        assert(forall|j: int|
            0 <= j < s.len() - 1 ==> #[trigger] s.subrange(1, s.len() as int)[j] == s[j + 1]);
        lemma_funcs_of_at(s.subrange(1, s.len() as int), e - 1, name);
    }
}

/// The factory lookup of `name` reads the first entry that carries it.
proof fn lemma_factories_of_at(s: Seq<(String, Vec<FunctionFactory>)>, e: int, name: Seq<char>)
    requires
        0 <= e < s.len(),
        s[e].0@ == name,
        forall|j: int| 0 <= j < e ==> (#[trigger] s[j]).0@ != name,
    ensures
        factories_of(s, name) == s[e].1@,
    decreases e,
{
    if e > 0 {
        assert(forall|j: int|
            0 <= j < s.len() - 1 ==> #[trigger] s.subrange(1, s.len() as int)[j] == s[j + 1]);
        lemma_factories_of_at(s.subrange(1, s.len() as int), e - 1, name);
    }
}

/// Replacing the list of the first entry that carries `name` changes exactly
/// that name's lookup.
proof fn lemma_funcs_of_update(
    s: Seq<(String, Vec<Function>)>,
    s2: Seq<(String, Vec<Function>)>,
    e: int,
    name: Seq<char>,
)
    requires
        0 <= e < s.len(),
        s[e].0@ == name,
        forall|j: int| 0 <= j < e ==> (#[trigger] s[j]).0@ != name,
        s2.len() == s.len(),
        forall|j: int| 0 <= j < s.len() && j != e ==> #[trigger] s2[j] == s[j],
        s2[e].0@ == name,
    ensures
        funcs_of(s2, name) == fnvs_of(s2[e].1@),
        forall|m: Seq<char>| m != name ==> #[trigger] funcs_of(s2, m) == funcs_of(s, m),
    decreases e,
{
    if e == 0 {
        assert forall|m: Seq<char>| m != name implies #[trigger] funcs_of(s2, m) == funcs_of(
            s,
            m,
        ) by {
            assert(s2.subrange(1, s2.len() as int) =~= s.subrange(1, s.len() as int));
        }
    } else {
        assert(forall|j: int|
            0 <= j < s.len() - 1 ==> #[trigger] s.subrange(1, s.len() as int)[j] == s[j + 1]);
        assert(forall|j: int|
            0 <= j < s2.len() - 1 ==> #[trigger] s2.subrange(1, s2.len() as int)[j] == s2[j + 1]);
        lemma_funcs_of_update(
            s.subrange(1, s.len() as int),
            s2.subrange(1, s2.len() as int),
            e - 1,
            name,
        );
        assert(s2[0] == s[0]);
        assert(s2.subrange(1, s2.len() as int)[e - 1] == s2[e]);
        assert forall|m: Seq<char>| m != name implies #[trigger] funcs_of(s2, m) == funcs_of(
            s,
            m,
        ) by {
            if s[0].0@ != m {
                assert(funcs_of(s2, m) == funcs_of(s2.subrange(1, s2.len() as int), m));
                assert(funcs_of(s, m) == funcs_of(s.subrange(1, s.len() as int), m));
            }
        }
    }
}

/// When no entry carries `name`, appending a fresh entry for `name` binds
/// exactly its factory list.
proof fn lemma_factories_of_append(
    s: Seq<(String, Vec<FunctionFactory>)>,
    name: Seq<char>,
    entry: (String, Vec<FunctionFactory>),
)
    requires
        forall|j: int| 0 <= j < s.len() ==> (#[trigger] s[j]).0@ != name,
        entry.0@ == name,
    ensures
        factories_of(s, name) == Seq::<FunctionFactory>::empty(),
        factories_of(s.push(entry), name) == entry.1@,
        forall|m: Seq<char>|
            m != name ==> #[trigger] factories_of(s.push(entry), m) == factories_of(s, m),
    decreases s,
{
    if s.len() == 0 {
        assert(s.push(entry)[0] == entry);
        assert forall|m: Seq<char>| m != name implies #[trigger] factories_of(s.push(entry), m)
            == factories_of(s, m) by {
            assert(s.push(entry).subrange(1, 1) =~= s);
        }
    } else {
        assert(forall|j: int|
            0 <= j < s.len() - 1 ==> #[trigger] s.subrange(1, s.len() as int)[j] == s[j + 1]);
        lemma_factories_of_append(s.subrange(1, s.len() as int), name, entry);
        assert(s.push(entry)[0] == s[0]);
        assert(s.push(entry).subrange(1, s.push(entry).len() as int) =~= s.subrange(
            1,
            s.len() as int,
        ).push(entry));
        assert forall|m: Seq<char>| m != name implies #[trigger] factories_of(s.push(entry), m)
            == factories_of(s, m) by {
            if s[0].0@ != m {
                assert(factories_of(s.push(entry), m) == factories_of(
                    s.subrange(1, s.len() as int).push(entry),
                    m,
                ));
                assert(factories_of(s, m) == factories_of(s.subrange(1, s.len() as int), m));
            }
        }
    }
}

/// Replacing the list of the first entry that carries `name` changes exactly
/// that name's factory lookup.
proof fn lemma_factories_of_update(
    s: Seq<(String, Vec<FunctionFactory>)>,
    s2: Seq<(String, Vec<FunctionFactory>)>,
    e: int,
    name: Seq<char>,
)
    requires
        0 <= e < s.len(),
        s[e].0@ == name,
        forall|j: int| 0 <= j < e ==> (#[trigger] s[j]).0@ != name,
        s2.len() == s.len(),
        forall|j: int| 0 <= j < s.len() && j != e ==> #[trigger] s2[j] == s[j],
        s2[e].0@ == name,
    ensures
        factories_of(s2, name) == s2[e].1@,
        forall|m: Seq<char>| m != name ==> #[trigger] factories_of(s2, m) == factories_of(s, m),
    decreases e,
{
    if e == 0 {
        assert forall|m: Seq<char>| m != name implies #[trigger] factories_of(s2, m)
            == factories_of(s, m) by {
            assert(s2.subrange(1, s2.len() as int) =~= s.subrange(1, s.len() as int));
        }
    } else {
        assert(forall|j: int|
            0 <= j < s.len() - 1 ==> #[trigger] s.subrange(1, s.len() as int)[j] == s[j + 1]);
        assert(forall|j: int|
            0 <= j < s2.len() - 1 ==> #[trigger] s2.subrange(1, s2.len() as int)[j] == s2[j + 1]);
        lemma_factories_of_update(
            s.subrange(1, s.len() as int),
            s2.subrange(1, s2.len() as int),
            e - 1,
            name,
        );
        assert(s2[0] == s[0]);
        assert(s2.subrange(1, s2.len() as int)[e - 1] == s2[e]);
        assert forall|m: Seq<char>| m != name implies #[trigger] factories_of(s2, m)
            == factories_of(s, m) by {
            if s[0].0@ != m {
                assert(factories_of(s2, m) == factories_of(s2.subrange(1, s2.len() as int), m));
                assert(factories_of(s, m) == factories_of(s.subrange(1, s.len() as int), m));
            }
        }
    }
}

/// A pure recipe that builds a function from constant parameters and the
/// argument types at the call site, used for variadic or type-parameterized
/// families.
#[derive(Debug, Clone, Copy, PartialEq, Eq, Structural)]
pub enum FunctionFactory {
    /// `least` over any number of 16-bit integers.
    Least,
    /// `create_array` over any number of same-typed values.
    CreateArray,
    /// `create_tuple` over any argument types.
    CreateTuple,
    /// `get_tuple` on a tuple, parameterized by the field index.
    GetTuple,
    /// `get_tuple` on a nullable tuple, parameterized by the field index.
    GetTupleNullable,
}

/// The function a factory denotes for the given constant parameters and
/// argument types, if the factory applies to them.
pub open spec fn spec_factory(f: FunctionFactory, params: Seq<usize>, args: Seq<Ty>) -> Option<
    FnV,
> {
    match f {
        FunctionFactory::Least => Some(
            FnV {
                signature: SigV {
                    name: "least"@,
                    args_type: Seq::new(args.len(), |i: int| Ty::Int16),
                    return_type: Ty::Int16,
                    property: FunctionProperty { preserve_not_null: true, commutative: false },
                },
                eval: Evaluator::Least,
            },
        ),
        FunctionFactory::CreateArray => Some(
            FnV {
                signature: SigV {
                    name: "create_array"@,
                    args_type: Seq::new(args.len(), |i: int| Ty::Generic(0)),
                    return_type: Ty::Array(Box::new(Ty::Generic(0))),
                    property: FunctionProperty { preserve_not_null: true, commutative: false },
                },
                eval: Evaluator::CreateArray,
            },
        ),
        FunctionFactory::CreateTuple => Some(
            FnV {
                signature: SigV {
                    name: "create_tuple"@,
                    args_type: args,
                    return_type: Ty::Tuple(args),
                    property: FunctionProperty { preserve_not_null: true, commutative: false },
                },
                eval: Evaluator::CreateTuple,
            },
        ),
        FunctionFactory::GetTuple => if params.len() < 1 || args.len() != 1 || !(args[0]
            is Tuple) || params[0] >= args[0]->Tuple_0.len() {
            None
        } else {
            Some(
                FnV {
                    signature: SigV {
                        name: "get_tuple"@,
                        args_type: args,
                        return_type: args[0]->Tuple_0[params[0] as int],
                        property: FunctionProperty { preserve_not_null: true, commutative: false },
                    },
                    eval: Evaluator::GetTuple(params[0]),
                },
            )
        },
        FunctionFactory::GetTupleNullable => if params.len() < 1 || args.len() != 1 || !(args[0]
            is Nullable) || !(*args[0]->Nullable_0 is Tuple) || params[0]
            >= (*args[0]->Nullable_0)->Tuple_0.len() {
            None
        } else {
            Some(
                FnV {
                    signature: SigV {
                        name: "get_tuple"@,
                        args_type: args,
                        return_type: spec_nullable_of(
                            (*args[0]->Nullable_0)->Tuple_0[params[0] as int],
                        ),
                        property: FunctionProperty { preserve_not_null: true, commutative: false },
                    },
                    eval: Evaluator::GetTupleNullable(params[0]),
                },
            )
        },
    }
}

/// Wraps a type in `Nullable` unless it already admits null; nullability
/// never nests.
pub open spec fn spec_nullable_of(t: Ty) -> Ty {
    if t is Nullable || t is Null {
        t
    } else {
        Ty::Nullable(Box::new(t))
    }
}

/// Builds the function a factory denotes for the given constant parameters
/// and argument types, if the factory applies to them.
pub fn factory_build(f: FunctionFactory, params: &Vec<usize>, args_type: &Vec<DataType>) -> (r:
    Option<Function>)
    ensures
        r matches Some(func) ==> func@.signature.args_type.len() == args_type@.len(),
        r is Some <==> spec_factory(f, params@, tys_of(args_type@)) is Some,
        r matches Some(func) ==> func@ == spec_factory(f, params@, tys_of(args_type@))->Some_0,
{
    proof {
        crate::types::lemma_tys_of(args_type@);
    }
    let ghost av = tys_of(args_type@);
    match f {
        FunctionFactory::Least => {
            let mut tys: Vec<DataType> = Vec::new();
            let mut i: usize = 0;
            while i < args_type.len()
                invariant
                    i <= args_type@.len(),
                    tys@.len() == i,
                    forall|j: int| 0 <= j < i ==> (#[trigger] tys@[j])@ == Ty::Int16,
                decreases args_type@.len() - i,
            {
                tys.push(DataType::Int16);
                i = i + 1;
            }
            let func = Function {
                signature: FunctionSignature {
                    name: "least".to_owned(),
                    args_type: tys,
                    return_type: DataType::Int16,
                    property: FunctionProperty { preserve_not_null: true, commutative: false },
                },
                eval: Evaluator::Least,
            };
            proof {
                crate::types::lemma_tys_of(func.signature.args_type@);
                assert(func@.signature.args_type =~= Seq::new(av.len(), |i: int| Ty::Int16));
                assert(func@.signature.name == "least"@);
                assert(func@.signature.return_type == Ty::Int16);
                assert(func@.eval == Evaluator::Least);
                assert(spec_factory(f, params@, av) is Some);
                assert(func@ == spec_factory(f, params@, av)->Some_0);
            }
            Some(func)
        },
        FunctionFactory::CreateArray => {
            let mut tys: Vec<DataType> = Vec::new();
            let mut i: usize = 0;
            while i < args_type.len()
                invariant
                    i <= args_type@.len(),
                    tys@.len() == i,
                    forall|j: int| 0 <= j < i ==> (#[trigger] tys@[j])@ == Ty::Generic(0),
                decreases args_type@.len() - i,
            {
                tys.push(DataType::Generic(0));
                i = i + 1;
            }
            let func = Function {
                signature: FunctionSignature {
                    name: "create_array".to_owned(),
                    args_type: tys,
                    return_type: DataType::Array(Box::new(DataType::Generic(0))),
                    property: FunctionProperty { preserve_not_null: true, commutative: false },
                },
                eval: Evaluator::CreateArray,
            };
            proof {
                reveal_with_fuel(ty_of, 3);
                crate::types::lemma_tys_of(func.signature.args_type@);
                assert(func@.signature.args_type =~= Seq::new(av.len(), |i: int| Ty::Generic(0)));
                assert(func@.signature.return_type == Ty::Array(Box::new(Ty::Generic(0))));
                assert(func@ == spec_factory(f, params@, av)->Some_0);
            }
            Some(func)
        },
        FunctionFactory::CreateTuple => {
            let tys = clone_types(args_type);
            let ret = clone_types(args_type);
            let func = Function {
                signature: FunctionSignature {
                    name: "create_tuple".to_owned(),
                    args_type: tys,
                    return_type: DataType::Tuple(ret),
                    property: FunctionProperty { preserve_not_null: true, commutative: false },
                },
                eval: Evaluator::CreateTuple,
            };
            proof {
                assert(func@.signature.args_type == av);
                assert(func@.signature.return_type == Ty::Tuple(av));
            }
            Some(func)
        },
        FunctionFactory::GetTuple => {
            if params.len() < 1 || args_type.len() != 1 {
                return None;
            }
            let idx = params[0];
            let field_ty = match &args_type[0] {
                DataType::Tuple(tys) => {
                    proof {
                        crate::types::lemma_tys_of(tys@);
                        assert(av[0] == (args_type@[0])@);
                        assert(av[0]->Tuple_0 == tys_of(tys@));
                    }
                    if idx >= tys.len() {
                        return None;
                    }
                    tys[idx].clone()
                },
                _ => {
                    proof {
                        assert(!(av[0] is Tuple));
                    }
                    return None;
                },
            };
            let sig_arg = args_type[0].clone();
            let ghost sv = sig_arg@;
            let mut tys: Vec<DataType> = Vec::new();
            tys.push(sig_arg);
            proof {
                assert(tys@[0]@ == sv);
            }
            let func = Function {
                signature: FunctionSignature {
                    name: "get_tuple".to_owned(),
                    args_type: tys,
                    return_type: field_ty,
                    property: FunctionProperty { preserve_not_null: true, commutative: false },
                },
                eval: Evaluator::GetTuple(idx),
            };
            proof {
                crate::types::lemma_tys_of(func.signature.args_type@);
                assert(func@.signature.args_type =~= av);
            }
            Some(func)
        },
        FunctionFactory::GetTupleNullable => {
            if params.len() < 1 || args_type.len() != 1 {
                return None;
            }
            let idx = params[0];
            let field_ty = match &args_type[0] {
                DataType::Nullable(inner) => match &**inner {
                    DataType::Tuple(tys) => {
                        proof {
                            crate::types::lemma_tys_of(tys@);
                            assert(av[0] == ty_of(args_type@[0]));
                            assert(av[0] is Nullable);
                            assert(*av[0]->Nullable_0 == ty_of(**inner));
                            assert((*av[0]->Nullable_0)->Tuple_0 == tys_of(tys@));
                        }
                        if idx >= tys.len() {
                            return None;
                        }
                        tys[idx].clone()
                    },
                    _ => {
                        proof {
                            assert(av[0] == ty_of(args_type@[0]));
                            assert(*av[0]->Nullable_0 == ty_of(**inner));
                            assert(!(*av[0]->Nullable_0 is Tuple));
                        }
                        return None;
                    },
                },
                _ => {
                    proof {
                        assert(av[0] == ty_of(args_type@[0]));
                        assert(!(av[0] is Nullable));
                    }
                    return None;
                },
            };
            // A nullable tuple field reads as null where the tuple itself is
            // null, so the result type is nullable; nullability never nests.
            let ret = if field_ty.is_nullable() || field_ty.is_null() {
                field_ty
            } else {
                DataType::Nullable(Box::new(field_ty))
            };
            let ghost rv = ret@;
            let sig_arg = args_type[0].clone();
            let ghost sv = sig_arg@;
            let mut tys: Vec<DataType> = Vec::new();
            tys.push(sig_arg);
            proof {
                assert(tys@[0]@ == sv);
            }
            let func = Function {
                signature: FunctionSignature {
                    name: "get_tuple".to_owned(),
                    args_type: tys,
                    return_type: ret,
                    property: FunctionProperty { preserve_not_null: true, commutative: false },
                },
                eval: Evaluator::GetTupleNullable(idx),
            };
            proof {
                crate::types::lemma_tys_of(func.signature.args_type@);
                assert(func@.signature.args_type =~= av);
                assert(func@.signature.return_type == spec_nullable_of(
                    (*av[0]->Nullable_0)->Tuple_0[params@[0] as int],
                ));
            }
            Some(func)
        },
    }
}

/// No entry of the list carries `name`, so its lookup is empty.
proof fn lemma_funcs_of_absent(s: Seq<(String, Vec<Function>)>, name: Seq<char>)
    requires
        forall|j: int| 0 <= j < s.len() ==> (#[trigger] s[j]).0@ != name,
    ensures
        funcs_of(s, name) == Seq::<FnV>::empty(),
    decreases s,
{
    if s.len() > 0 {
        assert(forall|j: int|
            0 <= j < s.len() - 1 ==> #[trigger] s.subrange(1, s.len() as int)[j] == s[j + 1]);
        lemma_funcs_of_absent(s.subrange(1, s.len() as int), name);
    }
}

/// No entry of the list carries `name`, so its factory lookup is empty.
proof fn lemma_factories_of_absent(s: Seq<(String, Vec<FunctionFactory>)>, name: Seq<char>)
    requires
        forall|j: int| 0 <= j < s.len() ==> (#[trigger] s[j]).0@ != name,
    ensures
        factories_of(s, name) == Seq::<FunctionFactory>::empty(),
    decreases s,
{
    if s.len() > 0 {
        assert(forall|j: int|
            0 <= j < s.len() - 1 ==> #[trigger] s.subrange(1, s.len() as int)[j] == s[j + 1]);
        lemma_factories_of_absent(s.subrange(1, s.len() as int), name);
    }
}

/// The models of a sequence of candidate pairs, elementwise.
pub open spec fn cands_v(s: Seq<(FunctionID, Function)>) -> Seq<(FidV, FnV)>
    decreases s,
{
    if s.len() == 0 {
        Seq::empty()
    } else {
        cands_v(s.subrange(0, s.len() - 1)).push(
            ((s[s.len() - 1].0)@, (s[s.len() - 1].1)@),
        )
    }
}

/// `cands_v` maps the views over the sequence.
pub broadcast proof fn lemma_cands_v(s: Seq<(FunctionID, Function)>)
    ensures
        (#[trigger] cands_v(s)).len() == s.len(),
        forall|i: int|
            0 <= i < s.len() ==> cands_v(s)[i] == (((#[trigger] s[i]).0)@, (s[i].1)@),
    decreases s,
{
    if s.len() > 0 {
        lemma_cands_v(s.subrange(0, s.len() - 1));
        assert(forall|i: int| 0 <= i < s.len() - 1 ==> s.subrange(0, s.len() - 1)[i] == s[i]);
    }
}

/// The built-in candidates for a call: every overload whose arity matches,
/// in registration order, each paired with its position in the overload list
/// as its identifier.
pub open spec fn builtin_cands(fns: Seq<FnV>, name: Seq<char>, arity: int) -> Seq<(FidV, FnV)>
    decreases fns,
{
    if fns.len() == 0 {
        Seq::empty()
    } else {
        builtin_cands(fns.subrange(0, fns.len() - 1), name, arity) + (
        if fns[fns.len() - 1].signature.args_type.len() == arity {
            seq![(FidV::Builtin { name, id: fns.len() - 1 }, fns[fns.len() - 1])]
        } else {
            Seq::empty()
        })
    }
}

/// The factory candidates for a call: the product of every factory that
/// applies to the parameters and argument types, in registration order, each
/// paired with its position and the rebuild state.
pub open spec fn factory_cands(
    fs: Seq<FunctionFactory>,
    name: Seq<char>,
    params: Seq<usize>,
    args: Seq<Ty>,
) -> Seq<(FidV, FnV)>
    decreases fs,
{
    if fs.len() == 0 {
        Seq::empty()
    } else {
        factory_cands(fs.subrange(0, fs.len() - 1), name, params, args) + (
        match spec_factory(fs[fs.len() - 1], params, args) {
            Some(fv) => seq![
                (FidV::Factory { name, id: fs.len() - 1, params, args_type: args }, fv),
            ],
            None => Seq::empty(),
        })
    }
}

/// The candidates a search returns: the built-ins of the name and arity when
/// no constant parameters are given and at least one matches, otherwise the
/// factory products of the name.
pub open spec fn spec_candidates(
    funcs: Seq<(String, Vec<Function>)>,
    factories: Seq<(String, Vec<FunctionFactory>)>,
    name: Seq<char>,
    params: Seq<usize>,
    args: Seq<Ty>,
) -> Seq<(FidV, FnV)> {
    if params.len() == 0 && builtin_cands(funcs_of(funcs, name), name, args.len() as int).len()
        > 0 {
        builtin_cands(funcs_of(funcs, name), name, args.len() as int)
    } else {
        factory_cands(factories_of(factories, name), name, params, args)
    }
}

/// The core overload a one-argument kernel registers.
pub open spec fn kernel1_core_fnv(name: Seq<char>, k: Kernel1, p: FunctionProperty) -> FnV {
    FnV {
        signature: SigV {
            name,
            args_type: seq![kernel1_arg_ty(k)],
            return_type: kernel1_out_ty(k),
            property: p,
        },
        eval: Evaluator::Vector1(k),
    }
}

/// The three overloads a one-argument kernel registers: the core form, the
/// nullable pass-through, and the null short-circuit.
pub open spec fn kernel1_overloads(name: Seq<char>, k: Kernel1, p: FunctionProperty) -> Seq<FnV> {
    seq![
        kernel1_core_fnv(name, k, p),
        FnV {
            signature: SigV {
                name,
                args_type: seq![Ty::Nullable(Box::new(kernel1_arg_ty(k)))],
                return_type: Ty::Nullable(Box::new(kernel1_out_ty(k))),
                property: p,
            },
            eval: Evaluator::PassNullable1(k),
        },
        FnV {
            signature: SigV {
                name,
                args_type: seq![Ty::Null],
                return_type: Ty::Null,
                property: p,
            },
            eval: Evaluator::NullScalar,
        },
    ]
}

/// The core overload a two-argument kernel registers.
pub open spec fn kernel2_core_fnv(name: Seq<char>, k: Kernel2, p: FunctionProperty) -> FnV {
    FnV {
        signature: SigV {
            name,
            args_type: seq![kernel2_arg1_ty(k), kernel2_arg2_ty(k)],
            return_type: kernel2_out_ty(k),
            property: p,
        },
        eval: Evaluator::Vector2(k),
    }
}

/// The five overloads a two-argument kernel registers: the core form, the
/// nullable pass-through, and the three null short-circuits.
pub open spec fn kernel2_overloads(name: Seq<char>, k: Kernel2, p: FunctionProperty) -> Seq<FnV> {
    seq![
        kernel2_core_fnv(name, k, p),
        FnV {
            signature: SigV {
                name,
                args_type: seq![
                    Ty::Nullable(Box::new(kernel2_arg1_ty(k))),
                    Ty::Nullable(Box::new(kernel2_arg2_ty(k))),
                ],
                return_type: Ty::Nullable(Box::new(kernel2_out_ty(k))),
                property: p,
            },
            eval: Evaluator::PassNullable2(k),
        },
        FnV {
            signature: SigV {
                name,
                args_type: seq![Ty::Null, kernel2_arg2_ty(k)],
                return_type: Ty::Null,
                property: p,
            },
            eval: Evaluator::NullScalar,
        },
        FnV {
            signature: SigV {
                name,
                args_type: seq![kernel2_arg1_ty(k), Ty::Null],
                return_type: Ty::Null,
                property: p,
            },
            eval: Evaluator::NullScalar,
        },
        FnV {
            signature: SigV {
                name,
                args_type: seq![Ty::Null, Ty::Null],
                return_type: Ty::Null,
                property: p,
            },
            eval: Evaluator::NullScalar,
        },
    ]
}

/// The registry of built-in overloads and function factories, both keyed by
/// function name. It is filled once at start-up and read-only afterwards.
#[derive(Debug)]
pub struct FunctionRegistry {
    /// Built-in overloads, in registration order per name.
    pub funcs: Vec<(String, Vec<Function>)>,
    /// Factories, in registration order per name.
    pub factories: Vec<(String, Vec<FunctionFactory>)>,
}

impl FunctionRegistry {
    /// An empty registry.
    pub fn new() -> (r: FunctionRegistry)
        ensures
            r.funcs@.len() == 0,
            r.factories@.len() == 0,
    {
        FunctionRegistry { funcs: Vec::new(), factories: Vec::new() }
    }

    /// Registers one built-in overload under `name`: the overload list of
    /// `name` grows by exactly this function, at the end; every other name's
    /// list and all factories are untouched.
    fn push_function(&mut self, name: &str, func: Function)
        ensures
            funcs_of(final(self).funcs@, name@) == funcs_of(old(self).funcs@, name@).push(func@),
            forall|m: Seq<char>|
                m != name@ ==> #[trigger] funcs_of(final(self).funcs@, m) == funcs_of(
                    old(self).funcs@,
                    m,
                ),
            final(self).factories@ == old(self).factories@,
    {
        let ghost fv = func@;
        let key = name.to_owned();
        let mut e: usize = 0;
        while e < self.funcs.len()
            invariant
                e <= self.funcs@.len(),
                key@ == name@,
                func@ == fv,
                *self == *old(self),
                forall|j: int| 0 <= j < e ==> (#[trigger] self.funcs@[j]).0@ != name@,
            decreases self.funcs@.len() - e,
        {
            if self.funcs[e].0.eq(&key) {
                let ghost olds = self.funcs@;
                let mut entry = self.funcs.remove(e);
                let ghost oldlist = entry.1@;
                entry.1.push(func);
                let ghost newlist = entry.1@;
                self.funcs.insert(e, entry);
                proof {
                    assert(forall|j: int|
                        0 <= j < olds.len() && j != e ==> #[trigger] self.funcs@[j] == olds[j]);
                    assert(self.funcs@[e as int].0@ == name@);
                    assert(self.funcs@[e as int].1@ == newlist);
                    lemma_funcs_of_update(olds, self.funcs@, e as int, name@);
                    lemma_fnvs_of(newlist);
                    lemma_fnvs_of(oldlist);
                    assert(newlist.len() == oldlist.len() + 1);
                    assert(forall|j: int|
                        0 <= j < oldlist.len() ==> #[trigger] newlist[j] == oldlist[j]);
                    assert(newlist[oldlist.len() as int]@ == fv);
                    assert forall|j: int| 0 <= j < newlist.len() implies #[trigger] fnvs_of(
                        newlist,
                    )[j] == fnvs_of(oldlist).push(fv)[j] by {
                        assert(fnvs_of(newlist)[j] == newlist[j]@);
                        if j < oldlist.len() {
                            assert(newlist[j] == oldlist[j]);
                            assert(fnvs_of(oldlist)[j] == oldlist[j]@);
                        }
                    }
                    assert(fnvs_of(newlist) =~= fnvs_of(oldlist).push(fv));
                    lemma_funcs_of_at(olds, e as int, name@);
                    assert(olds[e as int].1@ == oldlist);
                }
                return ;
            }
            e = e + 1;
        }
        let mut list: Vec<Function> = Vec::new();
        list.push(func);
        proof {
            assert(list@[0]@ == fv);
        }
        let ghost lv = list@;
        let ghost olds = self.funcs@;
        self.funcs.push((key, list));
        proof {
            let entry = self.funcs@[olds.len() as int];
            assert(self.funcs@ == olds.push(entry));
            assert(entry.0@ == name@);
            assert(entry.1@ == lv);
            lemma_funcs_of_append(olds, name@, entry);
            lemma_fnvs_of(entry.1@);
            assert(fnvs_of(entry.1@) =~= Seq::<FnV>::empty().push(fv)) by {
                assert(entry.1@[0]@ == fv);
            }
        }
    }

    /// Registers one factory under `name`: the factory list of `name` grows
    /// by exactly this factory, at the end; every other name's list and all
    /// built-ins are untouched.
    fn push_factory(&mut self, name: &str, factory: FunctionFactory)
        ensures
            factories_of(final(self).factories@, name@) == factories_of(
                old(self).factories@,
                name@,
            ).push(factory),
            forall|m: Seq<char>|
                m != name@ ==> #[trigger] factories_of(final(self).factories@, m) == factories_of(
                    old(self).factories@,
                    m,
                ),
            final(self).funcs@ == old(self).funcs@,
    {
        let key = name.to_owned();
        let mut e: usize = 0;
        while e < self.factories.len()
            invariant
                e <= self.factories@.len(),
                key@ == name@,
                *self == *old(self),
                forall|j: int| 0 <= j < e ==> (#[trigger] self.factories@[j]).0@ != name@,
            decreases self.factories@.len() - e,
        {
            if self.factories[e].0.eq(&key) {
                let ghost olds = self.factories@;
                let mut entry = self.factories.remove(e);
                let ghost oldlist = entry.1@;
                entry.1.push(factory);
                let ghost newlist = entry.1@;
                self.factories.insert(e, entry);
                proof {
                    assert(forall|j: int|
                        0 <= j < olds.len() && j != e ==> #[trigger] self.factories@[j]
                            == olds[j]);
                    assert(self.factories@[e as int].0@ == name@);
                    assert(self.factories@[e as int].1@ == newlist);
                    lemma_factories_of_update(olds, self.factories@, e as int, name@);
                    assert(newlist =~= oldlist.push(factory));
                    lemma_factories_of_at(olds, e as int, name@);
                    assert(olds[e as int].1@ == oldlist);
                }
                return ;
            }
            e = e + 1;
        }
        let mut list: Vec<FunctionFactory> = Vec::new();
        list.push(factory);
        let ghost lv = list@;
        let ghost olds = self.factories@;
        self.factories.push((key, list));
        proof {
            let entry = self.factories@[olds.len() as int];
            assert(self.factories@ == olds.push(entry));
            assert(entry.0@ == name@);
            assert(entry.1@ == lv);
            lemma_factories_of_append(olds, name@, entry);
            assert(entry.1@ =~= Seq::<FunctionFactory>::empty().push(factory));
        }
    }

    /// Registers a zero-argument overload with full control of the evaluator.
    pub fn register_0_arg_core(
        &mut self,
        name: &str,
        property: FunctionProperty,
        return_type: DataType,
        eval: Evaluator,
    )
        ensures
            funcs_of(final(self).funcs@, name@) == funcs_of(old(self).funcs@, name@).push(
                FnV {
                    signature: SigV {
                        name: name@,
                        args_type: Seq::empty(),
                        return_type: return_type@,
                        property,
                    },
                    eval,
                },
            ),
            forall|m: Seq<char>|
                m != name@ ==> #[trigger] funcs_of(final(self).funcs@, m) == funcs_of(
                    old(self).funcs@,
                    m,
                ),
            final(self).factories@ == old(self).factories@,
    {
        let ghost rv = return_type@;
        let func = Function {
            signature: FunctionSignature {
                name: name.to_owned(),
                args_type: Vec::new(),
                return_type,
                property,
            },
            eval,
        };
        proof {
            assert(func@.signature.args_type =~= Seq::<Ty>::empty()) by {
                crate::types::lemma_tys_of(func.signature.args_type@);
            }
            assert(func@.signature.return_type == rv);
        }
        self.push_function(name, func);
    }

    /// Registers a one-argument overload with full control of the types and
    /// the evaluator.
    pub fn register_1_arg_core(
        &mut self,
        name: &str,
        property: FunctionProperty,
        arg1: DataType,
        return_type: DataType,
        eval: Evaluator,
    )
        ensures
            funcs_of(final(self).funcs@, name@) == funcs_of(old(self).funcs@, name@).push(
                FnV {
                    signature: SigV {
                        name: name@,
                        args_type: seq![arg1@],
                        return_type: return_type@,
                        property,
                    },
                    eval,
                },
            ),
            forall|m: Seq<char>|
                m != name@ ==> #[trigger] funcs_of(final(self).funcs@, m) == funcs_of(
                    old(self).funcs@,
                    m,
                ),
            final(self).factories@ == old(self).factories@,
    {
        let ghost a1 = arg1@;
        let ghost rv = return_type@;
        let mut args_type: Vec<DataType> = Vec::new();
        args_type.push(arg1);
        proof {
            assert(args_type@[0]@ == a1);
        }
        let func = Function {
            signature: FunctionSignature {
                name: name.to_owned(),
                args_type,
                return_type,
                property,
            },
            eval,
        };
        proof {
            crate::types::lemma_tys_of(func.signature.args_type@);
            assert(func@.signature.args_type =~= seq![a1]);
            assert(func@.signature.return_type == rv);
        }
        self.push_function(name, func);
    }

    /// Registers a two-argument overload with full control of the types and
    /// the evaluator.
    pub fn register_2_arg_core(
        &mut self,
        name: &str,
        property: FunctionProperty,
        arg1: DataType,
        arg2: DataType,
        return_type: DataType,
        eval: Evaluator,
    )
        ensures
            funcs_of(final(self).funcs@, name@) == funcs_of(old(self).funcs@, name@).push(
                FnV {
                    signature: SigV {
                        name: name@,
                        args_type: seq![arg1@, arg2@],
                        return_type: return_type@,
                        property,
                    },
                    eval,
                },
            ),
            forall|m: Seq<char>|
                m != name@ ==> #[trigger] funcs_of(final(self).funcs@, m) == funcs_of(
                    old(self).funcs@,
                    m,
                ),
            final(self).factories@ == old(self).factories@,
    {
        let ghost a1 = arg1@;
        let ghost a2 = arg2@;
        let ghost rv = return_type@;
        let mut args_type: Vec<DataType> = Vec::new();
        args_type.push(arg1);
        proof {
            assert(args_type@[0]@ == a1);
        }
        args_type.push(arg2);
        proof {
            assert(args_type@[1]@ == a2);
        }
        let func = Function {
            signature: FunctionSignature {
                name: name.to_owned(),
                args_type,
                return_type,
                property,
            },
            eval,
        };
        proof {
            crate::types::lemma_tys_of(func.signature.args_type@);
            assert(func@.signature.args_type =~= seq![a1, a2]);
            assert(func@.signature.return_type == rv);
        }
        self.push_function(name, func);
    }

    /// Registers a one-argument kernel together with its mechanical
    /// companions: the core overload, the nullable pass-through overload, and
    /// the null short-circuit overload, in that order, with `preserve_not_null`
    /// forced on. The kernel's own types must not be nullable.
    pub fn register_1_arg(&mut self, name: &str, property: FunctionProperty, k: Kernel1)
        ensures
            funcs_of(final(self).funcs@, name@) == funcs_of(old(self).funcs@, name@)
                + kernel1_overloads(
                    name@,
                    k,
                    FunctionProperty { preserve_not_null: true, commutative: property.commutative },
                ),
            forall|m: Seq<char>|
                m != name@ ==> #[trigger] funcs_of(final(self).funcs@, m) == funcs_of(
                    old(self).funcs@,
                    m,
                ),
            final(self).factories@ == old(self).factories@,
    {
        let ghost base = funcs_of(self.funcs@, name@);
        let property = property.preserve_not_null(true);
        self.register_1_arg_core(
            name,
            property,
            kernel1_arg_dt(k),
            kernel1_out_dt(k),
            Evaluator::Vector1(k),
        );
        self.register_1_arg_core(
            name,
            property,
            DataType::Nullable(Box::new(kernel1_arg_dt(k))),
            DataType::Nullable(Box::new(kernel1_out_dt(k))),
            Evaluator::PassNullable1(k),
        );
        self.register_1_arg_core(name, property, DataType::Null, DataType::Null,
            Evaluator::NullScalar);
        proof {
            assert(funcs_of(self.funcs@, name@) =~= base + kernel1_overloads(name@, k, property));
        }
    }

    /// Registers a two-argument kernel together with its mechanical
    /// companions: the core overload, the nullable pass-through overload, and
    /// the three null short-circuit overloads, in that order, with
    /// `preserve_not_null` forced on. The kernel's own types must not be
    /// nullable.
    pub fn register_2_arg(&mut self, name: &str, property: FunctionProperty, k: Kernel2)
        ensures
            funcs_of(final(self).funcs@, name@) == funcs_of(old(self).funcs@, name@)
                + kernel2_overloads(
                    name@,
                    k,
                    FunctionProperty { preserve_not_null: true, commutative: property.commutative },
                ),
            forall|m: Seq<char>|
                m != name@ ==> #[trigger] funcs_of(final(self).funcs@, m) == funcs_of(
                    old(self).funcs@,
                    m,
                ),
            final(self).factories@ == old(self).factories@,
    {
        let ghost base = funcs_of(self.funcs@, name@);
        let property = property.preserve_not_null(true);
        self.register_2_arg_core(
            name,
            property,
            kernel2_arg1_dt(k),
            kernel2_arg2_dt(k),
            kernel2_out_dt(k),
            Evaluator::Vector2(k),
        );
        self.register_2_arg_core(
            name,
            property,
            DataType::Nullable(Box::new(kernel2_arg1_dt(k))),
            DataType::Nullable(Box::new(kernel2_arg2_dt(k))),
            DataType::Nullable(Box::new(kernel2_out_dt(k))),
            Evaluator::PassNullable2(k),
        );
        self.register_2_arg_core(
            name,
            property,
            DataType::Null,
            kernel2_arg2_dt(k),
            DataType::Null,
            Evaluator::NullScalar,
        );
        self.register_2_arg_core(
            name,
            property,
            kernel2_arg1_dt(k),
            DataType::Null,
            DataType::Null,
            Evaluator::NullScalar,
        );
        self.register_2_arg_core(
            name,
            property,
            DataType::Null,
            DataType::Null,
            DataType::Null,
            Evaluator::NullScalar,
        );
        proof {
            assert(funcs_of(self.funcs@, name@) =~= base + kernel2_overloads(name@, k, property));
        }
    }

    /// Registers a function factory under `name`: the factory list of `name`
    /// grows by exactly this factory, everything else is untouched.
    pub fn register_function_factory(&mut self, name: &str, factory: FunctionFactory)
        ensures
            factories_of(final(self).factories@, name@) == factories_of(
                old(self).factories@,
                name@,
            ).push(factory),
            forall|m: Seq<char>|
                m != name@ ==> #[trigger] factories_of(final(self).factories@, m) == factories_of(
                    old(self).factories@,
                    m,
                ),
            final(self).funcs@ == old(self).funcs@,
    {
        self.push_factory(name, factory);
    }

    /// The candidate overloads for a call: built-ins of matching name and
    /// arity when no constant parameters are given, otherwise (or when no
    /// built-in matches) whatever the factories of that name produce, each
    /// candidate paired with the identifier that reconstructs it. The result
    /// is exactly `spec_candidates`, and every candidate's signature has one
    /// argument type per argument.
    pub fn search_candidates(
        &self,
        name: &str,
        params: &Vec<usize>,
        args_type: &Vec<DataType>,
    ) -> (r: Vec<(FunctionID, Function)>)
        ensures
            cands_v(r@) == spec_candidates(
                self.funcs@,
                self.factories@,
                name@,
                params@,
                tys_of(args_type@),
            ),
            forall|i: int|
                0 <= i < r@.len() ==> (#[trigger] r@[i]).1@.signature.args_type.len()
                    == args_type@.len(),
    {
        proof {
            crate::types::lemma_tys_of(args_type@);
        }
        let ghost av = tys_of(args_type@);
        let key = name.to_owned();
        let mut out: Vec<(FunctionID, Function)> = Vec::new();
        if params.len() == 0 {
            let mut e: usize = 0;
            let mut found = false;
            while e < self.funcs.len() && !found
                invariant
                    e <= self.funcs@.len(),
                    key@ == name@,
                    found ==> e < self.funcs@.len() && (#[trigger] self.funcs@[
                        e as int
                    ]).0@ == name@,
                    forall|j: int|
                        0 <= j < e ==> (#[trigger] self.funcs@[j]).0@ != name@,
                    out@.len() == 0,
                decreases self.funcs@.len() - e + (if found {
                    0int
                } else {
                    1int
                }),
            {
                if self.funcs[e].0.eq(&key) {
                    found = true;
                } else {
                    e = e + 1;
                }
            }
            let ghost fns = funcs_of(self.funcs@, name@);
            if found {
                proof {
                    lemma_funcs_of_at(self.funcs@, e as int, name@);
                    lemma_fnvs_of(self.funcs@[e as int].1@);
                }
                let list = &self.funcs[e].1;
                let mut id: usize = 0;
                while id < list.len()
                    invariant
                        id <= list@.len(),
                        key@ == name@,
                        e < self.funcs@.len(),
                        list == &self.funcs@[e as int].1,
                        fns == funcs_of(self.funcs@, name@),
                        fns == fnvs_of(list@),
                        fns.len() == list@.len(),
                        forall|j: int| 0 <= j < list@.len() ==> fns[j] == (#[trigger] list@[j])@,
                        av == tys_of(args_type@),
                        av.len() == args_type@.len(),
                        cands_v(out@) == builtin_cands(
                            fns.subrange(0, id as int),
                            name@,
                            av.len() as int,
                        ),
                        forall|i: int|
                            0 <= i < out@.len() ==> (#[trigger] out@[i]).1@.signature.args_type.len()
                                == args_type@.len(),
                    decreases list@.len() - id,
                {
                    let ghost pre = fns.subrange(0, id as int);
                    let ghost cur = fns.subrange(0, id as int + 1);
                    proof {
                        assert(cur.subrange(0, cur.len() - 1) =~= pre);
                        assert(cur[cur.len() - 1] == fns[id as int]);
                    }
                    let func = &list[id];
                    proof {
                        crate::types::lemma_tys_of(func.signature.args_type@);
                        assert(func@ == fns[id as int]);
                    }
                    if func.signature.args_type.len() == args_type.len() {
                        let ghost oldout = out@;
                        out.push((FunctionID::Builtin { name: key.clone(), id }, func.clone()));
                        proof {
                            lemma_cands_v(out@);
                            lemma_cands_v(oldout);
                            assert(out@.len() == oldout.len() + 1);
                            assert(forall|j: int|
                                0 <= j < oldout.len() ==> #[trigger] out@[j] == oldout[j]);
                            assert forall|j: int| 0 <= j < out@.len() implies #[trigger] cands_v(
                                out@,
                            )[j] == builtin_cands(cur, name@, av.len() as int)[j] by {
                                if j < oldout.len() {
                                    assert(cands_v(out@)[j] == ((out@[j].0)@, (out@[j].1)@));
                                    assert(cands_v(oldout)[j] == ((oldout[j].0)@, (oldout[j].1)@));
                                } else {
                                    assert(cands_v(out@)[j] == ((out@[j].0)@, (out@[j].1)@));
                                }
                            }
                            assert(cands_v(out@) =~= builtin_cands(cur, name@, av.len() as int));
                        }
                    } else {
                        proof {
                            assert(builtin_cands(cur, name@, av.len() as int) =~= builtin_cands(
                                pre,
                                name@,
                                av.len() as int,
                            ));
                        }
                    }
                    id = id + 1;
                }
                proof {
                    assert(fns.subrange(0, fns.len() as int) =~= fns);
                }
            } else {
                proof {
                    lemma_funcs_of_absent(self.funcs@, name@);
                    assert(builtin_cands(fns, name@, av.len() as int) =~= Seq::<(
                        FidV,
                        FnV,
                    )>::empty());
                }
            }
            if out.len() > 0 {
                proof {
                    lemma_cands_v(out@);
                }
                return out;
            }
            proof {
                lemma_cands_v(out@);
                assert(builtin_cands(fns, name@, av.len() as int).len() == 0);
            }
        }
        let mut e: usize = 0;
        let mut found = false;
        while e < self.factories.len() && !found
            invariant
                e <= self.factories@.len(),
                key@ == name@,
                out@.len() == 0,
                found ==> e < self.factories@.len() && (#[trigger] self.factories@[
                    e as int
                ]).0@ == name@,
                forall|j: int| 0 <= j < e ==> (#[trigger] self.factories@[j]).0@ != name@,
            decreases self.factories@.len() - e + (if found {
                0int
            } else {
                1int
            }),
        {
            if self.factories[e].0.eq(&key) {
                found = true;
            } else {
                e = e + 1;
            }
        }
        let ghost fl = factories_of(self.factories@, name@);
        if found {
            proof {
                lemma_factories_of_at(self.factories@, e as int, name@);
            }
            let list = &self.factories[e].1;
            let mut id: usize = 0;
            while id < list.len()
                invariant
                    id <= list@.len(),
                    key@ == name@,
                    e < self.factories@.len(),
                    list == &self.factories@[e as int].1,
                    fl == factories_of(self.factories@, name@),
                    fl == list@,
                    av == tys_of(args_type@),
                    av.len() == args_type@.len(),
                    cands_v(out@) == factory_cands(fl.subrange(0, id as int), name@, params@, av),
                    forall|i: int|
                        0 <= i < out@.len() ==> (#[trigger] out@[i]).1@.signature.args_type.len()
                            == args_type@.len(),
                decreases list@.len() - id,
            {
                let ghost pre = fl.subrange(0, id as int);
                let ghost cur = fl.subrange(0, id as int + 1);
                proof {
                    assert(cur.subrange(0, cur.len() - 1) =~= pre);
                    assert(cur[cur.len() - 1] == fl[id as int]);
                }
                match factory_build(list[id], params, args_type) {
                    Some(func) => {
                        let mut ps: Vec<usize> = Vec::new();
                        let mut pi: usize = 0;
                        while pi < params.len()
                            invariant
                                pi <= params@.len(),
                                ps@.len() == pi,
                                forall|j: int| 0 <= j < pi ==> #[trigger] ps@[j] == params@[j],
                            decreases params@.len() - pi,
                        {
                            ps.push(params[pi]);
                            pi = pi + 1;
                        }
                        proof {
                            assert(ps@ =~= params@);
                        }
                        let ghost oldout = out@;
                        out.push(
                            (
                                FunctionID::Factory {
                                    name: key.clone(),
                                    id,
                                    params: ps,
                                    args_type: clone_types(args_type),
                                },
                                func,
                            ),
                        );
                        proof {
                            lemma_cands_v(out@);
                            lemma_cands_v(oldout);
                            assert(forall|j: int|
                                0 <= j < oldout.len() ==> #[trigger] out@[j] == oldout[j]);
                            assert forall|j: int| 0 <= j < out@.len() implies #[trigger] cands_v(
                                out@,
                            )[j] == factory_cands(cur, name@, params@, av)[j] by {
                                if j < oldout.len() {
                                    assert(cands_v(out@)[j] == ((out@[j].0)@, (out@[j].1)@));
                                    assert(cands_v(oldout)[j] == ((oldout[j].0)@, (oldout[j].1)@));
                                } else {
                                    assert(cands_v(out@)[j] == ((out@[j].0)@, (out@[j].1)@));
                                }
                            }
                            assert(cands_v(out@) =~= factory_cands(cur, name@, params@, av));
                        }
                    },
                    None => {
                        proof {
                            assert(factory_cands(cur, name@, params@, av) =~= factory_cands(
                                pre,
                                name@,
                                params@,
                                av,
                            ));
                        }
                    },
                }
                id = id + 1;
            }
            proof {
                assert(fl.subrange(0, fl.len() as int) =~= fl);
            }
        } else {
            proof {
                lemma_factories_of_absent(self.factories@, name@);
                assert(factory_cands(fl, name@, params@, av) =~= Seq::<(FidV, FnV)>::empty());
                lemma_cands_v(out@);
            }
        }
        out
    }
}

} // verus!







