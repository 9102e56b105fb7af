//! The evaluator: interprets typed expressions over an environment of named
//! columns, inserting casts and dispatching erased function calls.

use vstd::prelude::*;

use crate::error::EvalError;
use crate::expr::lit_val;
use crate::expr::lit_ty;
use crate::expr::Expr;
use crate::expr::ExprV;
use crate::expr::Literal;
use crate::function::args_rows_ok;
use crate::function::args_wf;
use crate::function::eval_function;
use crate::types::generic_free;
use crate::types::wf_ty;
use crate::types::DataType;
use crate::types::Ty;
use crate::type_check::spec_can_cast;
use crate::values::col_v;
use crate::values::sc_v;
use crate::values::ColV;
use crate::values::Column;
use crate::values::ColumnBuilder;
use crate::values::Scalar;
use crate::values::lemma_vals_have_ty;
use crate::values::lemma_vals_have_tys;
use crate::values::val_has_ty;
use crate::values::Val;
use crate::values::Value;

verus! {

/// The value a cast produces from one value, or `None` when the cast is not
/// defined: null passes into nullable types, casting into `Nullable<T>`
/// casts into `T` without wrapping, arrays and tuples cast elementwise, the
/// integer promotions widen, and every type casts to itself.
pub open spec fn vcast(v: Val, dest: Ty) -> Option<Val>
    decreases dest, 1int, 0int,
{
    match (v, dest) {
        (Val::Null, Ty::Nullable(_)) => Some(Val::Null),
        (Val::Null, Ty::Null) => Some(Val::Null),
        (v2, Ty::Nullable(d)) => vcast(v2, *d),
        (Val::Bool(_), Ty::Boolean) => Some(v),
        (Val::Str(_), Ty::String) => Some(v),
        (Val::UInt8(x), Ty::UInt8) => Some(v),
        (Val::UInt8(x), Ty::UInt16) => Some(Val::UInt16(x as u16)),
        (Val::UInt8(x), Ty::Int16) => Some(Val::Int16(x as i16)),
        (Val::UInt16(_), Ty::UInt16) => Some(v),
        (Val::Int8(x), Ty::Int8) => Some(v),
        (Val::Int8(x), Ty::Int16) => Some(Val::Int16(x as i16)),
        (Val::Int16(_), Ty::Int16) => Some(v),
        (Val::Arr(vs), Ty::EmptyArray) => if vs.len() == 0 {
            Some(v)
        } else {
            None
        },
        (Val::Arr(vs), Ty::Array(d)) => match vcasts(vs, *d) {
            Some(ws) => Some(Val::Arr(ws)),
            None => None,
        },
        (Val::Tup(vs), Ty::Tuple(ts)) => match vcast_tup(vs, ts) {
            Some(ws) => Some(Val::Tup(ws)),
            None => None,
        },
        _ => None,
    }
}

/// Casts every value of a sequence to one destination type.
pub open spec fn vcasts(vs: Seq<Val>, dest: Ty) -> Option<Seq<Val>>
    decreases dest, 2int, vs.len(),
{
    if vs.len() == 0 {
        Some(Seq::empty())
    } else {
        match (vcasts(vs.subrange(0, vs.len() - 1), dest), vcast(vs[vs.len() - 1], dest)) {
            (Some(ws), Some(w)) => Some(ws.push(w)),
            _ => None,
        }
    }
}

/// Casts a sequence of values elementwise against a sequence of types of the
/// same length.
pub open spec fn vcast_tup(vs: Seq<Val>, ts: Seq<Ty>) -> Option<Seq<Val>>
    decreases ts, 2int, vs.len(),
{
    if vs.len() != ts.len() {
        None
    } else if ts.len() == 0 {
        Some(Seq::empty())
    } else {
        match (
            vcast_tup(vs.subrange(0, vs.len() - 1), ts.subrange(0, ts.len() - 1)),
            vcast(vs[vs.len() - 1], ts[ts.len() - 1]),
        ) {
            (Some(ws), Some(w)) => Some(ws.push(w)),
            _ => None,
        }
    }
}

/// `vcasts` succeeds exactly when every element cast succeeds, elementwise.
pub broadcast proof fn lemma_vcasts(vs: Seq<Val>, dest: Ty)
    ensures
        (#[trigger] vcasts(vs, dest)) is Some <==> (forall|i: int|
            0 <= i < vs.len() ==> vcast(#[trigger] vs[i], dest) is Some),
        vcasts(vs, dest) is Some ==> vcasts(vs, dest)->Some_0.len() == vs.len(),
        vcasts(vs, dest) is Some ==> forall|i: int|
            0 <= i < vs.len() ==> vcasts(vs, dest)->Some_0[i] == vcast(
                #[trigger] vs[i],
                dest,
            )->Some_0,
    decreases vs,
{
    if vs.len() > 0 {
        lemma_vcasts(vs.subrange(0, vs.len() - 1), dest);
        assert(forall|i: int| 0 <= i < vs.len() - 1 ==> vs.subrange(0, vs.len() - 1)[i] == vs[i]);
    }
}

/// `vcast_tup` succeeds exactly when the lengths agree and every element
/// cast succeeds, elementwise.
pub broadcast proof fn lemma_vcast_tup(vs: Seq<Val>, ts: Seq<Ty>)
    ensures
        (#[trigger] vcast_tup(vs, ts)) is Some <==> (vs.len() == ts.len() && forall|i: int|
            0 <= i < vs.len() ==> vcast(#[trigger] vs[i], ts[i]) is Some),
        vcast_tup(vs, ts) is Some ==> vcast_tup(vs, ts)->Some_0.len() == vs.len(),
        vcast_tup(vs, ts) is Some ==> forall|i: int|
            0 <= i < vs.len() ==> vcast_tup(vs, ts)->Some_0[i] == vcast(
                #[trigger] vs[i],
                ts[i],
            )->Some_0,
    decreases ts,
{
    if vs.len() == ts.len() && ts.len() > 0 {
        lemma_vcast_tup(vs.subrange(0, vs.len() - 1), ts.subrange(0, ts.len() - 1));
        assert(forall|i: int| 0 <= i < vs.len() - 1 ==> vs.subrange(0, vs.len() - 1)[i] == vs[i]);
        assert(forall|i: int| 0 <= i < ts.len() - 1 ==> ts.subrange(0, ts.len() - 1)[i] == ts[i]);
    }
}

/// The first column bound to `name` in an environment, if any.
pub open spec fn env_first(cols: Seq<(String, Column)>, name: Seq<char>) -> Option<ColV>
    decreases cols,
{
    if cols.len() == 0 {
        None
    } else if cols[0].0@ == name {
        Some(col_v(cols[0].1))
    } else {
        env_first(cols.subrange(1, cols.len() as int), name)
    }
}

/// A found binding comes from some entry of the environment.
pub proof fn lemma_env_first_entry(cols: Seq<(String, Column)>, name: Seq<char>)
    requires
        env_first(cols, name) is Some,
    ensures
        exists|i: int|
            0 <= i < cols.len() && (#[trigger] cols[i]).0@ == name && col_v(cols[i].1)
                == env_first(cols, name)->Some_0,
    decreases cols,
{
    if cols.len() > 0 && cols[0].0@ != name {
        assert(forall|j: int|
            0 <= j < cols.len() - 1 ==> #[trigger] cols.subrange(1, cols.len() as int)[j]
                == cols[j + 1]);
        lemma_env_first_entry(cols.subrange(1, cols.len() as int), name);
        let i = choose|i: int|
            0 <= i < cols.len() - 1 && (#[trigger] cols.subrange(1, cols.len() as int)[i]).0@
                == name && col_v(cols.subrange(1, cols.len() as int)[i].1) == env_first(
                cols,
                name,
            )->Some_0;
        assert(cols[i + 1].0@ == name);
    }
}

/// The runtime: an environment binding column names to input columns.
pub struct Runtime {
    /// The named input columns.
    pub columns: Vec<(String, Column)>,
}

impl Runtime {
    /// Every input column is structurally well-formed.
    pub open spec fn wf(self) -> bool {
        forall|i: int|
            0 <= i < self.columns@.len() ==> col_v((#[trigger] self.columns@[i]).1).wf()
    }

    /// Every input column has exactly `n` rows.
    pub open spec fn rows_ok(self, n: int) -> bool {
        forall|i: int|
            0 <= i < self.columns@.len() ==> col_v((#[trigger] self.columns@[i]).1).len() == n
    }

    /// The first column bound to `name`, if any.
    fn lookup(&self, name: &String) -> (r: Option<&Column>)
        ensures
            match r {
                Some(c) => env_first(self.columns@, name@) == Some(col_v(*c)),
                None => env_first(self.columns@, name@) is None,
            },
    {
        proof {
            assert(self.columns@.subrange(0, self.columns@.len() as int) =~= self.columns@);
        }
        let mut i: usize = 0;
        while i < self.columns.len()
            invariant
                i <= self.columns@.len(),
                env_first(self.columns@, name@) == env_first(
                    self.columns@.subrange(i as int, self.columns@.len() as int),
                    name@,
                ),
            decreases self.columns@.len() - i,
        {
            proof {
                let rest = self.columns@.subrange(i as int, self.columns@.len() as int);
                assert(rest[0] == self.columns@[i as int]);
                assert(rest.subrange(1, rest.len() as int) =~= self.columns@.subrange(
                    i as int + 1,
                    self.columns@.len() as int,
                ));
            }
            if self.columns[i].0.eq(name) {
                return Some(&self.columns[i].1);
            }
            i = i + 1;
        }
        proof {
            assert(self.columns@.subrange(
                self.columns@.len() as int,
                self.columns@.len() as int,
            ).len() == 0);
        }
        None
    }

    /// Materializes a literal as an owned scalar.
    pub fn run_lit(&self, lit: &Literal) -> (r: Scalar)
        ensures
            r@.val() == lit_val(lit@),
            r@.wf(),
            r@.ty() == lit_ty(lit@),
    {
        match lit {
            Literal::Null => Scalar::Null,
            Literal::Int8(v) => Scalar::Int8(*v),
            Literal::Int16(v) => Scalar::Int16(*v),
            Literal::UInt8(v) => Scalar::UInt8(*v),
            Literal::UInt16(v) => Scalar::UInt16(*v),
            Literal::Boolean(v) => Scalar::Boolean(*v),
            Literal::String(v) => Scalar::String(v.clone()),
        }
    }
}


/// A row of a column that is neither nullable nor the null column never
/// reads as the null value.
proof fn lemma_plain_row_not_null(c: ColV, i: int)
    requires
        !(c is Nullable),
        !(c is Null),
    ensures
        !(c.at(i) is Null),
{
}

/// Casts one scalar to a destination type; see `vcast` for the value
/// computed. Succeeds whenever the destination is the scalar's own type.
fn cast_scalar(s: &Scalar, dest: &DataType) -> (r: Result<Scalar, EvalError>)
    requires
        s@.wf(),
        generic_free(dest@),
        wf_ty(dest@),
    ensures
        match r {
            Ok(o) => {
                &&& o@.wf()
                &&& vcast(s@.val(), dest@) == Some(o@.val())
            },
            Err(e) => e == EvalError::UnsupportedCast || e == EvalError::CapacityOverflow,
        },
        s@.ty() == dest@ ==> r is Ok,
        spec_can_cast(s@.ty(), dest@) ==> !(r matches Err(e) && e == EvalError::UnsupportedCast),
    decreases *dest,
{
    match (s, dest) {
        (Scalar::Null, DataType::Nullable(_)) => Ok(Scalar::Null),
        (Scalar::EmptyArray, DataType::Array(d)) => {
            let col = ColumnBuilder::with_capacity(d, 0).build();
            let r = Scalar::Array(col);
            proof {
                assert(r@.val()->Arr_0 =~= Seq::<Val>::empty());
                assert(vcasts(Seq::<Val>::empty(), *dest@->Array_0) == Some(Seq::<Val>::empty()));
            }
            Ok(r)
        },
        (s2, DataType::Nullable(d)) => {
            proof {
                assert(!(s2@.val() is Null));
            }
            cast_scalar(s2, d)
        },
        (Scalar::Array(col), DataType::Array(d)) => {
            match cast_column(col, d) {
                Ok(out) => {
                    let r = Scalar::Array(out);
                    proof {
                        let vs = s@.val()->Arr_0;
                        let dd = *dest@->Array_0;
                        lemma_vcasts(vs, dd);
                        assert forall|i: int| 0 <= i < vs.len() implies vcast(
                            #[trigger] vs[i],
                            dd,
                        ) is Some by {
                            assert(vs[i] == col_v(*col).at(i));
                        }
                        assert forall|i: int| 0 <= i < vs.len() implies vcasts(vs, dd)->Some_0[i]
                            == r@.val()->Arr_0[i] by {
                            assert(vs[i] == col_v(*col).at(i));
                            assert(vcasts(vs, dd)->Some_0[i] == vcast(vs[i], dd)->Some_0);
                        }
                        assert(vcasts(vs, dd)->Some_0 =~= r@.val()->Arr_0);
                    }
                    Ok(r)
                },
                Err(e) => Err(e),
            }
        },
        (Scalar::UInt8(v), DataType::UInt16) => Ok(Scalar::UInt16(*v as u16)),
        (Scalar::Int8(v), DataType::Int16) => Ok(Scalar::Int16(*v as i16)),
        (Scalar::UInt8(v), DataType::Int16) => Ok(Scalar::Int16(*v as i16)),
        (Scalar::Boolean(v), DataType::Boolean) => Ok(Scalar::Boolean(*v)),
        (Scalar::String(v), DataType::String) => Ok(Scalar::String(v.clone())),
        (Scalar::UInt8(v), DataType::UInt8) => Ok(Scalar::UInt8(*v)),
        (Scalar::UInt16(v), DataType::UInt16) => Ok(Scalar::UInt16(*v)),
        (Scalar::Int8(v), DataType::Int8) => Ok(Scalar::Int8(*v)),
        (Scalar::Int16(v), DataType::Int16) => Ok(Scalar::Int16(*v)),
        (Scalar::Null, DataType::Null) => Ok(Scalar::Null),
        (Scalar::EmptyArray, DataType::EmptyArray) => Ok(Scalar::EmptyArray),
        (Scalar::Tuple(ss), DataType::Tuple(ts)) => {
            proof {
                crate::values::lemma_scs_v(ss@);
                crate::values::lemma_wf_scals(s@->Tuple_0);
                crate::types::lemma_tys_of(ts@);
                crate::types::lemma_wf_tys(dest@->Tuple_0);
                crate::values::lemma_tys_scals(s@->Tuple_0);
            }
            if ss.len() != ts.len() {
                proof {
                    assert(s@.ty()->Tuple_0.len() == ss@.len());
                    assert(dest@->Tuple_0.len() == ts@.len());
                }
                return Err(EvalError::UnsupportedCast);
            }
            let ghost ms = s@->Tuple_0;
            let ghost mt = dest@->Tuple_0;
            let mut out: Vec<Scalar> = Vec::new();
            let mut i: usize = 0;
            while i < ss.len()
                invariant
                    i <= ss@.len(),
                    ss@.len() == ts@.len(),
                    *s == Scalar::Tuple(*ss),
                    *dest == DataType::Tuple(*ts),
                    ms == sc_v(*s)->Tuple_0,
                    mt == crate::types::ty_of(*dest)->Tuple_0,
                    ms.len() == ss@.len(),
                    mt.len() == ts@.len(),
                    forall|j: int| 0 <= j < ss@.len() ==> ms[j] == sc_v(#[trigger] ss@[j]),
                    forall|j: int|
                        0 <= j < ts@.len() ==> mt[j] == crate::types::ty_of(#[trigger] ts@[j]),
                    forall|j: int| 0 <= j < ms.len() ==> (#[trigger] ms[j]).wf(),
                    forall|j: int|
                        0 <= j < mt.len() ==> generic_free(#[trigger] mt[j]) && wf_ty(mt[j]),
                    out@.len() == i,
                    forall|j: int|
                        0 <= j < i ==> sc_v(#[trigger] out@[j]).wf() && vcast(ms[j].val(), mt[j])
                            == Some(sc_v(out@[j]).val()),
                    s@.ty() == dest@ ==> crate::values::tys_scals(ms) == mt,
                decreases ss@.len() - i,
            {
                proof {
                    assert(decreases_to!(*dest => *ts));
                    assert(decreases_to!(*ts => ts@));
                    assert(decreases_to!(ts@ => ts@[i as int]));
                    if s@.ty() == dest@ {
                        crate::values::lemma_tys_scals(ms);
                        assert(crate::values::tys_scals(ms)[i as int] == ms[i as int].ty());
                    }
                }
                match cast_scalar(&ss[i], &ts[i]) {
                    Ok(o) => {
                        out.push(o);
                    },
                    Err(e) => {
                        return Err(e);
                    },
                }
                i = i + 1;
            }
            let r = Scalar::Tuple(out);
            proof {
                crate::values::lemma_scs_v(out@);
                crate::values::lemma_wf_scals(sc_v(r)->Tuple_0);
                crate::values::lemma_vals_scals(sc_v(r)->Tuple_0);
                crate::values::lemma_vals_scals(ms);
                lemma_vcast_tup(crate::values::vals_scals(ms), mt);
                assert forall|j: int| 0 <= j < ms.len() implies vcast(
                    #[trigger] crate::values::vals_scals(ms)[j],
                    mt[j],
                ) is Some by {
                    assert(sc_v(out@[j]).wf());
                    assert(crate::values::vals_scals(ms)[j] == ms[j].val());
                    assert(vcast(ms[j].val(), mt[j]) == Some(sc_v(out@[j]).val()));
                }
                assert forall|j: int| 0 <= j < ms.len() implies (#[trigger] sc_v(
                    r,
                )->Tuple_0[j]).wf() by {
                    assert(sc_v(r)->Tuple_0[j] == sc_v(out@[j]));
                }
                assert forall|j: int| 0 <= j < ms.len() implies #[trigger] vcast_tup(
                    crate::values::vals_scals(ms),
                    mt,
                )->Some_0[j] == crate::values::vals_scals(sc_v(r)->Tuple_0)[j] by {
                    assert(crate::values::vals_scals(ms)[j] == ms[j].val());
                    assert(vcast_tup(crate::values::vals_scals(ms), mt)->Some_0[j] == vcast(
                        crate::values::vals_scals(ms)[j],
                        mt[j],
                    )->Some_0);
                    assert(sc_v(r)->Tuple_0[j] == sc_v(out@[j]));
                    assert(crate::values::vals_scals(sc_v(r)->Tuple_0)[j] == sc_v(
                        out@[j],
                    ).val());
                }
                assert(vcast_tup(crate::values::vals_scals(ms), mt)->Some_0
                    =~= crate::values::vals_scals(sc_v(r)->Tuple_0));
            }
            Ok(r)
        },
        _ => Err(EvalError::UnsupportedCast),
    }
}

/// Casts one column to a destination type, row by row in place; see `vcast`
/// for the value each row becomes. Succeeds whenever the destination is the
/// column's own type.
fn cast_column(c: &Column, dest: &DataType) -> (r: Result<Column, EvalError>)
    requires
        c@.wf(),
        generic_free(dest@),
        wf_ty(dest@),
    ensures
        match r {
            Ok(o) => {
                &&& o@.wf()
                &&& o@.len() == c@.len()
                &&& o@.ty() == dest@
                &&& forall|i: int|
                    0 <= i < c@.len() ==> vcast(#[trigger] c@.at(i), dest@) == Some(o@.at(i))
            },
            Err(e) => e == EvalError::UnsupportedCast || e == EvalError::CapacityOverflow,
        },
        c@.ty() == dest@ ==> r is Ok,
        spec_can_cast(c@.ty(), dest@) ==> !(r matches Err(e) && e == EvalError::UnsupportedCast),
    decreases *dest,
{
    match (c, dest) {
        (Column::Null { len }, DataType::Nullable(_)) => {
            let n = *len;
            let mut builder = ColumnBuilder::with_capacity(dest, n);
            let mut i: usize = 0;
            while i < n
                invariant
                    i <= n,
                    generic_free(dest@),
                    wf_ty(dest@),
                    dest@ is Nullable,
                    c@ is Null,
                    c@.len() == n as int,
                    builder@.wf(),
                    builder@.len() == i,
                    builder@.ty() == dest@,
                    forall|j: int| 0 <= j < i ==> #[trigger] builder@.at(j) == Val::Null,
                decreases n - i,
            {
                match builder.push_default() {
                    Ok(()) => {},
                    Err(e) => {
                        return Err(e);
                    },
                }
                i = i + 1;
            }
            let r = builder.build();
            proof {
                assert forall|i: int| 0 <= i < c@.len() implies vcast(
                    #[trigger] c@.at(i),
                    dest@,
                ) == Some(r@.at(i)) by {
                    assert(c@.at(i) == Val::Null);
                    assert(r@.at(i) == Val::Null);
                }
            }
            Ok(r)
        },
        (Column::EmptyArray { len }, DataType::Array(_)) => {
            let n = *len;
            let mut builder = ColumnBuilder::with_capacity(dest, n);
            let mut i: usize = 0;
            while i < n
                invariant
                    i <= n,
                    generic_free(dest@),
                    wf_ty(dest@),
                    dest@ is Array,
                    c@ is EmptyArray,
                    c@.len() == n as int,
                    builder@.wf(),
                    builder@.len() == i,
                    builder@.ty() == dest@,
                    forall|j: int|
                        0 <= j < i ==> #[trigger] builder@.at(j) == Val::Arr(Seq::<Val>::empty()),
                decreases n - i,
            {
                match builder.push_default() {
                    Ok(()) => {},
                    Err(e) => {
                        return Err(e);
                    },
                }
                i = i + 1;
            }
            let r = builder.build();
            proof {
                assert forall|i: int| 0 <= i < c@.len() implies vcast(
                    #[trigger] c@.at(i),
                    dest@,
                ) == Some(r@.at(i)) by {
                    assert(c@.at(i) == Val::Arr(Seq::<Val>::empty()));
                    assert(vcasts(Seq::<Val>::empty(), *dest@->Array_0) == Some(
                        Seq::<Val>::empty(),
                    ));
                }
            }
            Ok(r)
        },
        (Column::Nullable { column, validity }, DataType::Nullable(d)) => {
            match cast_column(column, d) {
                Ok(child) => {
                    let r = Column::Nullable {
                        column: Box::new(child),
                        validity: crate::values::vec_bools(validity),
                    };
                    proof {
                        let cv = c@;
                        let rv = r@;
                        assert(rv.wf());
                        assert forall|i: int| 0 <= i < cv.len() implies vcast(
                            #[trigger] cv.at(i),
                            dest@,
                        ) == Some(rv.at(i)) by {
                            if cv->Nullable_validity[i] {
                                lemma_plain_row_not_null(*cv->Nullable_column, i);
                                assert(cv.at(i) == (*cv->Nullable_column).at(i));
                                assert(vcast((*cv->Nullable_column).at(i), *dest@->Nullable_0)
                                    == Some((*rv->Nullable_column).at(i)));
                            }
                        }
                    }
                    Ok(r)
                },
                Err(e) => Err(e),
            }
        },
        (col, DataType::Nullable(d)) => {
            match cast_column(col, d) {
                Ok(child) => {
                    let n = child.len();
                    let mut validity: Vec<bool> = Vec::new();
                    let mut i: usize = 0;
                    while i < n
                        invariant
                            i <= n,
                            validity@.len() == i,
                            forall|j: int| 0 <= j < i ==> #[trigger] validity@[j] == true,
                        decreases n - i,
                    {
                        validity.push(true);
                        i = i + 1;
                    }
                    let r = Column::Nullable { column: Box::new(child), validity };
                    proof {
                        let cv = c@;
                        let rv = r@;
                        assert(rv.wf());
                        assert forall|i: int| 0 <= i < cv.len() implies vcast(
                            #[trigger] cv.at(i),
                            dest@,
                        ) == Some(rv.at(i)) by {
                            lemma_plain_row_not_null(cv, i);
                            assert(rv->Nullable_validity[i]);
                            assert(vcast(cv.at(i), *dest@->Nullable_0) == Some(
                                (*rv->Nullable_column).at(i),
                            ));
                        }
                    }
                    Ok(r)
                },
                Err(e) => Err(e),
            }
        },
        (Column::Array { array, offsets }, DataType::Array(d)) => {
            match cast_column(array, d) {
                Ok(child) => {
                    let r = Column::Array {
                        array: Box::new(child),
                        offsets: crate::values::vec_offsets(offsets),
                    };
                    proof {
                        let cv = c@;
                        let rv = r@;
                        let av = *cv->Array_array;
                        let nv = *rv->Array_array;
                        assert(rv->Array_offsets =~= cv->Array_offsets);
                        assert forall|k: int| 0 <= k < rv->Array_offsets.len() implies 0 <= (
                        #[trigger] rv->Array_offsets[k]).0 <= rv->Array_offsets[k].1
                            <= nv.len() by {
                            assert(rv->Array_offsets[k] == cv->Array_offsets[k]);
                            assert(0 <= cv->Array_offsets[k].0 <= cv->Array_offsets[k].1
                                <= av.len());
                        }
                        assert(rv.wf());
                        assert forall|i: int| 0 <= i < cv.len() implies vcast(
                            #[trigger] cv.at(i),
                            dest@,
                        ) == Some(rv.at(i)) by {
                            let o = cv->Array_offsets[i];
                            assert(rv->Array_offsets[i] == o);
                            assert(0 <= o.0 <= o.1 <= av.len());
                            let vs = cv.at(i)->Arr_0;
                            let dd = *dest@->Array_0;
                            lemma_vcasts(vs, dd);
                            assert forall|j: int| 0 <= j < vs.len() implies vcast(
                                #[trigger] vs[j],
                                dd,
                            ) is Some by {
                                assert(vs[j] == av.at(o.0 + j));
                                assert(vcast(av.at(o.0 + j), dd) == Some(nv.at(o.0 + j)));
                            }
                            assert forall|j: int| 0 <= j < vs.len() implies #[trigger] vcasts(
                                vs,
                                dd,
                            )->Some_0[j] == rv.at(i)->Arr_0[j] by {
                                assert(vs[j] == av.at(o.0 + j));
                                assert(vcasts(vs, dd)->Some_0[j] == vcast(vs[j], dd)->Some_0);
                                assert(vcast(av.at(o.0 + j), dd) == Some(nv.at(o.0 + j)));
                                assert(rv.at(i)->Arr_0[j] == nv.at(o.0 + j));
                            }
                            assert(vcasts(vs, dd)->Some_0 =~= rv.at(i)->Arr_0);
                        }
                    }
                    Ok(r)
                },
                Err(e) => Err(e),
            }
        },
        (Column::UInt8(v), DataType::UInt16) => {
            let mut w: Vec<u16> = Vec::new();
            let mut i: usize = 0;
            while i < v.len()
                invariant
                    i <= v@.len(),
                    w@.len() == i,
                    forall|j: int| 0 <= j < i ==> #[trigger] w@[j] == v@[j] as u16,
                decreases v@.len() - i,
            {
                w.push(v[i] as u16);
                i = i + 1;
            }
            Ok(Column::UInt16(w))
        },
        (Column::Int8(v), DataType::Int16) => {
            let mut w: Vec<i16> = Vec::new();
            let mut i: usize = 0;
            while i < v.len()
                invariant
                    i <= v@.len(),
                    w@.len() == i,
                    forall|j: int| 0 <= j < i ==> #[trigger] w@[j] == v@[j] as i16,
                decreases v@.len() - i,
            {
                w.push(v[i] as i16);
                i = i + 1;
            }
            Ok(Column::Int16(w))
        },
        (Column::UInt8(v), DataType::Int16) => {
            let mut w: Vec<i16> = Vec::new();
            let mut i: usize = 0;
            while i < v.len()
                invariant
                    i <= v@.len(),
                    w@.len() == i,
                    forall|j: int| 0 <= j < i ==> #[trigger] w@[j] == v@[j] as i16,
                decreases v@.len() - i,
            {
                w.push(v[i] as i16);
                i = i + 1;
            }
            Ok(Column::Int16(w))
        },
        (Column::Boolean(_), DataType::Boolean) => Ok(c.clone()),
        (Column::String(_), DataType::String) => Ok(c.clone()),
        (Column::UInt8(_), DataType::UInt8) => Ok(c.clone()),
        (Column::UInt16(_), DataType::UInt16) => Ok(c.clone()),
        (Column::Int8(_), DataType::Int8) => Ok(c.clone()),
        (Column::Int16(_), DataType::Int16) => Ok(c.clone()),
        (Column::Null { .. }, DataType::Null) => Ok(c.clone()),
        (Column::EmptyArray { .. }, DataType::EmptyArray) => Ok(c.clone()),
        (Column::Tuple { fields, len }, DataType::Tuple(ts)) => {
            proof {
                crate::values::lemma_cols_v(fields@);
                crate::values::lemma_wf_cols(c@->Tuple_fields, *len as int);
                crate::types::lemma_tys_of(ts@);
                crate::types::lemma_wf_tys(dest@->Tuple_0);
                crate::values::lemma_tys_cols(c@->Tuple_fields);
            }
            if fields.len() != ts.len() {
                proof {
                    assert(c@.ty()->Tuple_0.len() == fields@.len());
                    assert(dest@->Tuple_0.len() == ts@.len());
                }
                return Err(EvalError::UnsupportedCast);
            }
            let ghost mc = c@->Tuple_fields;
            let ghost mt = dest@->Tuple_0;
            let n = *len;
            let mut out: Vec<Column> = Vec::new();
            let mut i: usize = 0;
            while i < fields.len()
                invariant
                    i <= fields@.len(),
                    fields@.len() == ts@.len(),
                    n == *len,
                    *c == (Column::Tuple { fields: *fields, len: *len }),
                    *dest == DataType::Tuple(*ts),
                    mc == col_v(*c)->Tuple_fields,
                    mt == crate::types::ty_of(*dest)->Tuple_0,
                    mc.len() == fields@.len(),
                    mt.len() == ts@.len(),
                    forall|j: int| 0 <= j < fields@.len() ==> mc[j] == col_v(#[trigger] fields@[j]),
                    forall|j: int|
                        0 <= j < ts@.len() ==> mt[j] == crate::types::ty_of(#[trigger] ts@[j]),
                    forall|j: int|
                        0 <= j < mc.len() ==> (#[trigger] mc[j]).wf() && mc[j].len() == n as int,
                    forall|j: int|
                        0 <= j < mt.len() ==> generic_free(#[trigger] mt[j]) && wf_ty(mt[j]),
                    out@.len() == i,
                    forall|j: int|
                        0 <= j < i ==> {
                            &&& col_v(#[trigger] out@[j]).wf()
                            &&& col_v(out@[j]).len() == n as int
                            &&& col_v(out@[j]).ty() == mt[j]
                            &&& forall|w: int|
                                0 <= w < n as int ==> vcast(mc[j].at(w), mt[j]) == Some(
                                    col_v(out@[j]).at(w),
                                )
                        },
                    c@.ty() == dest@ ==> crate::values::tys_cols(mc) == mt,
                decreases fields@.len() - i,
            {
                proof {
                    assert(decreases_to!(*dest => *ts));
                    assert(decreases_to!(*ts => ts@));
                    assert(decreases_to!(ts@ => ts@[i as int]));
                    if c@.ty() == dest@ {
                        crate::values::lemma_tys_cols(mc);
                        assert(crate::values::tys_cols(mc)[i as int] == mc[i as int].ty());
                    }
                }
                match cast_column(&fields[i], &ts[i]) {
                    Ok(o) => {
                        out.push(o);
                    },
                    Err(e) => {
                        return Err(e);
                    },
                }
                i = i + 1;
            }
            let r = Column::Tuple { fields: out, len: n };
            proof {
                crate::values::lemma_cols_v(out@);
                let m = col_v(r)->Tuple_fields;
                assert forall|j: int| 0 <= j < m.len() implies (#[trigger] m[j]).wf() && m[j].len()
                    == n as int by {
                    assert(m[j] == col_v(out@[j]));
                }
                crate::values::lemma_wf_cols(m, n as int);
                crate::values::lemma_tys_cols(m);
                assert forall|j: int| 0 <= j < m.len() implies #[trigger] crate::values::tys_cols(
                    m,
                )[j] == mt[j] by {
                    assert(m[j] == col_v(out@[j]));
                    assert(crate::values::tys_cols(m)[j] == m[j].ty());
                }
                assert(crate::values::tys_cols(m) =~= mt);
                assert forall|i: int| 0 <= i < c@.len() implies vcast(
                    #[trigger] c@.at(i),
                    dest@,
                ) == Some(r@.at(i)) by {
                    crate::values::lemma_ats_cols(mc, i);
                    crate::values::lemma_ats_cols(m, i);
                    let vs = crate::values::ats_cols(mc, i);
                    lemma_vcast_tup(vs, mt);
                    assert forall|j: int| 0 <= j < mc.len() implies vcast(
                        #[trigger] vs[j],
                        mt[j],
                    ) is Some by {
                        assert(col_v(out@[j]).len() == n as int);
                        assert(vs[j] == mc[j].at(i));
                        assert(vcast(mc[j].at(i), mt[j]) == Some(col_v(out@[j]).at(i)));
                    }
                    assert forall|j: int| 0 <= j < mc.len() implies #[trigger] vcast_tup(
                        vs,
                        mt,
                    )->Some_0[j] == crate::values::ats_cols(m, i)[j] by {
                        assert(vs[j] == mc[j].at(i));
                        assert(vcast_tup(vs, mt)->Some_0[j] == vcast(vs[j], mt[j])->Some_0);
                        assert(m[j] == col_v(out@[j]));
                        assert(crate::values::ats_cols(m, i)[j] == m[j].at(i));
                    }
                    assert(vcast_tup(vs, mt)->Some_0 =~= crate::values::ats_cols(m, i));
                }
            }
            Ok(r)
        },
        _ => Err(EvalError::UnsupportedCast),
    }
}

/// What casting a value to a destination type returns: every row's value is
/// `vcast` of the input row, a column keeps its length and takes the
/// destination type exactly, a value already of the destination type casts
/// to itself, and a cast sanctioned by `spec_can_cast` never fails as
/// unsupported.
pub open spec fn cast_post(input: Value, dest: Ty, r: Result<Value, EvalError>) -> bool {
    &&& match r {
        Ok(v) => {
            &&& v.wf()
            &&& match (input, v) {
                (Value::Scalar(a), Value::Scalar(o)) => vcast(sc_v(a).val(), dest) == Some(
                    sc_v(o).val(),
                ),
                (Value::Column(a), Value::Column(o)) => {
                    &&& col_v(o).len() == col_v(a).len()
                    &&& col_v(o).ty() == dest
                    &&& forall|i: int|
                        0 <= i < col_v(a).len() ==> vcast(#[trigger] col_v(a).at(i), dest)
                            == Some(col_v(o).at(i))
                },
                _ => false,
            }
        },
        Err(e) => e == EvalError::UnsupportedCast || e == EvalError::CapacityOverflow,
    }
    &&& ((match input {
        Value::Scalar(a) => sc_v(a).ty(),
        Value::Column(a) => col_v(a).ty(),
    }) == dest ==> r is Ok)
    &&& (spec_can_cast(
        match input {
            Value::Scalar(a) => sc_v(a).ty(),
            Value::Column(a) => col_v(a).ty(),
        },
        dest,
    ) ==> !(r matches Err(e) && e == EvalError::UnsupportedCast))
}

impl Runtime {
    /// Casts a value to a destination type; see `vcast` for the value of
    /// every row of the result. A value already of the destination type
    /// always casts successfully.
    pub fn run_cast(&self, input: Value, dest_type: &DataType) -> (r: Result<Value, EvalError>)
        requires
            input.wf(),
            generic_free(dest_type@),
            wf_ty(dest_type@),
        ensures
            cast_post(input, dest_type@, r),
    {
        match input {
            Value::Scalar(s) => {
                match cast_scalar(&s, dest_type) {
                    Ok(o) => Ok(Value::Scalar(o)),
                    Err(e) => Err(e),
                }
            },
            Value::Column(c) => {
                match cast_column(&c, dest_type) {
                    Ok(o) => Ok(Value::Column(o)),
                    Err(e) => Err(e),
                }
            },
        }
    }
}


impl Runtime {
    /// Evaluates a checked expression bottom-up: literals become scalars,
    /// column references read the environment, casts go through `run_cast`,
    /// and function calls dispatch their erased evaluator. When every input
    /// column of the environment has `n` rows, a successful result is either
    /// a scalar or a column of exactly `n` rows.
    pub fn run(&self, expr: &Expr) -> (r: Result<Value, EvalError>)
        requires
            self.wf(),
        ensures
            r matches Ok(v) ==> v.wf(),
            forall|n: int|
                #[trigger] self.rows_ok(n) ==> (r matches Ok(v) ==> v.rows_ok(n)),
            expr@ is Literal ==> (r matches Ok(v) && v is Scalar && sc_v(v->Scalar_0).val()
                == lit_val(expr@->Literal_0) && sc_v(v->Scalar_0).ty() == lit_ty(
                expr@->Literal_0,
            )),
            expr@ matches ExprV::ColumnRef { name } ==> (match env_first(self.columns@, name) {
                Some(cv) => r matches Ok(v) && v matches Value::Column(c) && col_v(c) == cv,
                None => r == Err::<Value, EvalError>(EvalError::UnknownColumn),
            }),
            expr@ matches ExprV::Cast { expr: inner, dest_type } ==> (r is Err || exists|v: Value|
                #[trigger] v.wf() && cast_post(v, dest_type, r)),
            expr@ matches ExprV::FunctionCall { function, args: cargs, .. } ==> (r is Err
                || exists|vals: Seq<Value>|
                #[trigger] crate::function::args_wf(vals) && vals.len() == cargs.len()
                    && crate::function::eval_post(function.eval, vals, r)),
        decreases *expr,
    {
        match expr {
            Expr::Literal(lit) => Ok(Value::Scalar(self.run_lit(lit))),
            Expr::ColumnRef { name } => {
                match self.lookup(name) {
                    Some(col) => {
                        let out = col.clone();
                        proof {
                            lemma_env_first_entry(self.columns@, name@);
                            let i = choose|i: int|
                                0 <= i < self.columns@.len() && (#[trigger] self.columns@[i]).0@
                                    == name@ && col_v(self.columns@[i].1) == env_first(
                                    self.columns@,
                                    name@,
                                )->Some_0;
                            assert(col_v(self.columns@[i].1).wf());
                            assert forall|n: int| #[trigger] self.rows_ok(n) implies col_v(
                                out,
                            ).len() == n by {
                                assert(col_v(self.columns@[i].1).len() == n);
                            }
                        }
                        Ok(Value::Column(out))
                    },
                    None => Err(EvalError::UnknownColumn),
                }
            },
            Expr::Cast { expr: inner, dest_type } => {
                let v = match self.run(inner) {
                    Ok(v) => v,
                    Err(e) => {
                        return Err(e);
                    },
                };
                if !dest_type.check_generic_free() || !dest_type.check_wf_ty() {
                    return Err(EvalError::UnresolvedGeneric);
                }
                let ghost vin = v;
                match self.run_cast(v, dest_type) {
                    Ok(out) => {
                        proof {
                            assert forall|n: int| #[trigger] self.rows_ok(n) implies out.rows_ok(
                                n,
                            ) by {
                                assert(vin.rows_ok(n));
                            }
                        }
                        Ok(out)
                    },
                    Err(e) => Err(e),
                }
            },
            Expr::FunctionCall { id, function, generics, args } => {
                let mut vals: Vec<Value> = Vec::new();
                let mut i: usize = 0;
                while i < args.len()
                    invariant
                        i <= args@.len(),
                        self.wf(),
                        *expr == (Expr::FunctionCall {
                            id: *id,
                            function: *function,
                            generics: *generics,
                            args: *args,
                        }),
                        vals@.len() == i,
                        args_wf(vals@),
                        forall|n: int|
                            #[trigger] self.rows_ok(n) ==> args_rows_ok(vals@, n),
                    decreases args@.len() - i,
                {
                    proof {
                        assert(decreases_to!(*expr => *args));
                        assert(decreases_to!(*args => args@));
                        assert(decreases_to!(args@ => args@[i as int]));
                        assert(decreases_to!(args@[i as int] => args@[i as int].0));
                    }
                    let ghost oldvals = vals@;
                    match self.run(&args[i].0) {
                        Ok(v) => {
                            vals.push(v);
                        },
                        Err(e) => {
                            return Err(e);
                        },
                    }
                    proof {
                        assert forall|j: int| 0 <= j < vals@.len() implies (
                        #[trigger] vals@[j]).wf() by {
                            if j < oldvals.len() {
                                assert(oldvals[j].wf());
                            }
                        }
                        assert forall|n: int| #[trigger] self.rows_ok(n) implies args_rows_ok(
                            vals@,
                            n,
                        ) by {
                            assert(args_rows_ok(oldvals, n));
                            assert forall|j: int| 0 <= j < vals@.len() implies (
                            #[trigger] vals@[j]).rows_ok(n) by {
                                if j < oldvals.len() {
                                    assert(oldvals[j].rows_ok(n));
                                }
                            }
                        }
                    }
                    i = i + 1;
                }
                let r = eval_function(function.eval, &vals, generics);
                proof {
                    assert forall|n: int| #[trigger] self.rows_ok(n) implies (r matches Ok(v)
                        ==> v.rows_ok(n)) by {
                        assert(args_rows_ok(vals@, n));
                    }
                    crate::expr::lemma_exprs_v(args@);
                    assert(args_wf(vals@) && vals@.len() == expr@->FunctionCall_args.len()
                        && crate::function::eval_post(function.eval, vals@, r));
                }
                r
            },
        }
    }
}


/// Cast reflexivity: casting any value to the type it inhabits succeeds and
/// returns the value itself.
pub proof fn lemma_vcast_reflexive(v: Val, t: Ty)
    requires
        val_has_ty(v, t),
    ensures
        vcast(v, t) == Some(v),
    decreases t,
{
    match t {
        Ty::Nullable(d) => {
            if v != Val::Null {
                lemma_vcast_reflexive(v, *d);
            }
        },
        Ty::Array(d) => {
            let vs = v->Arr_0;
            lemma_vals_have_ty(vs, *d);
            lemma_vcasts(vs, *d);
            assert forall|i: int| 0 <= i < vs.len() implies vcast(#[trigger] vs[i], *d)
                == Some(vs[i]) by {
                lemma_vcast_reflexive(vs[i], *d);
            }
            assert(vcasts(vs, *d)->Some_0 =~= vs);
        },
        Ty::Tuple(ts) => {
            let vs = v->Tup_0;
            lemma_vals_have_tys(vs, ts);
            lemma_vcast_tup(vs, ts);
            assert forall|i: int| 0 <= i < vs.len() implies vcast(#[trigger] vs[i], ts[i])
                == Some(vs[i]) by {
                lemma_vcast_reflexive(vs[i], ts[i]);
            }
            assert(vcast_tup(vs, ts)->Some_0 =~= vs);
        },
        _ => {},
    }
}

/// A cast sanctioned by `spec_can_cast` is always defined, and its result
/// inhabits the destination type.
pub proof fn lemma_vcast_total(v: Val, a: Ty, b: Ty)
    requires
        val_has_ty(v, a),
        spec_can_cast(a, b),
    ensures
        vcast(v, b) is Some,
        val_has_ty(vcast(v, b)->Some_0, b),
    decreases b,
{
    if a == b {
        lemma_vcast_reflexive(v, b);
    } else {
        match (a, b) {
            (Ty::Null, Ty::Nullable(_)) => {},
            (Ty::EmptyArray, Ty::Array(d)) => {
                let vs = v->Arr_0;
                assert(vs.len() == 0);
                assert(vcasts(vs, *d) == Some(Seq::<Val>::empty()));
                lemma_vals_have_ty(Seq::<Val>::empty(), *d);
            },
            (Ty::Nullable(s), Ty::Nullable(d)) => {
                if v != Val::Null {
                    lemma_vcast_total(v, *s, *d);
                }
            },
            (a2, Ty::Nullable(d)) => {
                if v == Val::Null {
                    assert(a2 == Ty::Null);
                } else {
                    lemma_vcast_total(v, a2, *d);
                }
            },
            (Ty::Array(s), Ty::Array(d)) => {
                let vs = v->Arr_0;
                lemma_vals_have_ty(vs, *s);
                lemma_vcasts(vs, *d);
                assert forall|i: int| 0 <= i < vs.len() implies vcast(
                    #[trigger] vs[i],
                    *d,
                ) is Some && val_has_ty(vcast(vs[i], *d)->Some_0, *d) by {
                    lemma_vcast_total(vs[i], *s, *d);
                }
                let ws = vcasts(vs, *d)->Some_0;
                lemma_vals_have_ty(ws, *d);
                assert(forall|i: int| 0 <= i < ws.len() ==> #[trigger] ws[i] == vcast(vs[i], *d)->Some_0);
            },
            (Ty::UInt8, Ty::UInt16) => {},
            (Ty::Int8, Ty::Int16) => {},
            (Ty::UInt8, Ty::Int16) => {},
            _ => {},
        }
    }
}

/// Cast reflexivity for a well-formed scalar: casting it to its own type
/// returns its value unchanged.
pub proof fn lemma_cast_reflexive_scalar(s: crate::values::ScalV)
    requires
        s.wf(),
    ensures
        vcast(s.val(), s.ty()) == Some(s.val()),
{
    crate::values::lemma_scal_typed(s);
    lemma_vcast_reflexive(s.val(), s.ty());
}

/// Cast reflexivity for a well-formed column: casting any row to the
/// column's own type returns that row unchanged.
pub proof fn lemma_cast_reflexive_column(c: ColV, i: int)
    requires
        c.wf(),
        0 <= i < c.len(),
    ensures
        vcast(c.at(i), c.ty()) == Some(c.at(i)),
{
    crate::values::lemma_rows_typed(c, i);
    lemma_vcast_reflexive(c.at(i), c.ty());
}

/// A defined cast of a non-null value never produces the null value.
pub proof fn lemma_vcast_not_null(v: Val, t: Ty)
    requires
        v != Val::Null,
        vcast(v, t) is Some,
    ensures
        vcast(v, t)->Some_0 != Val::Null,
    decreases t,
{
    match t {
        Ty::Nullable(d) => {
            lemma_vcast_not_null(v, *d);
        },
        _ => {},
    }
}

/// Cast composition: if `a` coerces to `b` and `b` to `c`, then casting a
/// value of type `a` through `b` and on to `c` gives exactly the direct cast
/// to `c`, definedness included.
pub proof fn lemma_vcast_composition(v: Val, a: Ty, b: Ty, c: Ty)
    requires
        val_has_ty(v, a),
        spec_can_cast(a, b),
        spec_can_cast(b, c),
    ensures
        vcast(v, b) is Some,
        vcast(vcast(v, b)->Some_0, c) == vcast(v, c),
    decreases c,
{
    lemma_vcast_total(v, a, b);
    let w = vcast(v, b)->Some_0;
    if b == c {
        lemma_vcast_reflexive(w, b);
    } else {
        match (b, c) {
            (Ty::Null, Ty::Nullable(d)) => {
                assert(w == Val::Null);
                assert(a == Ty::Null);
                assert(v == Val::Null);
            },
            (Ty::EmptyArray, Ty::Array(d)) => {
                assert(a == Ty::EmptyArray);
                assert(v->Arr_0.len() == 0);
                assert(w->Arr_0.len() == 0);
                assert(vcasts(v->Arr_0, *d) is Some);
                assert(vcasts(v->Arr_0, *d)->Some_0 =~= Seq::<Val>::empty());
                assert(vcasts(w->Arr_0, *d) is Some);
                assert(vcasts(w->Arr_0, *d)->Some_0 =~= Seq::<Val>::empty());
                assert(vcast(w, c) == vcast(v, c));
            },
            (Ty::Nullable(s), Ty::Nullable(d)) => {
                if v == Val::Null {
                    assert(w == Val::Null);
                } else {
                    lemma_vcast_not_null(v, b);
                    assert(w != Val::Null);
                    match a {
                        Ty::Nullable(a2) => {
                            lemma_vcast_composition(v, *a2, *s, *d);
                        },
                        _ => {
                            lemma_vcast_composition(v, a, *s, *d);
                        },
                    }
                }
            },
            (b2, Ty::Nullable(d)) => {
                if v == Val::Null {
                    assert(a is Null || a is Nullable);
                    assert(false);
                } else {
                    lemma_vcast_not_null(v, b);
                    assert(w != Val::Null);
                    lemma_vcast_composition(v, a, b2, *d);
                }
            },
            (Ty::Array(s), Ty::Array(d)) => {
                match a {
                    Ty::EmptyArray => {
                        assert(v is Arr);
                        assert(v->Arr_0.len() == 0);
                        assert(vcasts(v->Arr_0, *s) == Some(Seq::<Val>::empty()));
                        assert(w == Val::Arr(Seq::<Val>::empty()));
                        assert(vcasts(w->Arr_0, *d) == Some(Seq::<Val>::empty()));
                        assert(vcasts(v->Arr_0, *d) == Some(Seq::<Val>::empty()));
                        assert(vcast(w, c) == Some(Val::Arr(Seq::<Val>::empty())));
                        assert(vcast(v, c) == Some(Val::Arr(Seq::<Val>::empty())));
                    },
                    Ty::Array(a2) => {
                        assert(v is Arr);
                        let vs = v->Arr_0;
                        lemma_vals_have_ty(vs, *a2);
                        lemma_vcasts(vs, *s);
                        assert forall|i: int| 0 <= i < vs.len() implies vcast(
                            #[trigger] vs[i],
                            *s,
                        ) is Some by {
                            lemma_vcast_total(vs[i], *a2, *s);
                        }
                        let ws = vcasts(vs, *s)->Some_0;
                        assert(w->Arr_0 == ws);
                        assert(ws.len() == vs.len());
                        lemma_vcasts(ws, *d);
                        lemma_vcasts(vs, *d);
                        assert forall|i: int| 0 <= i < vs.len() implies #[trigger] vcast(
                            ws[i],
                            *d,
                        ) == vcast(vs[i], *d) by {
                            assert(ws[i] == vcast(vs[i], *s)->Some_0);
                            lemma_vcast_composition(vs[i], *a2, *s, *d);
                        }
                        if vcasts(vs, *d) is Some {
                            assert forall|i: int| 0 <= i < ws.len() implies vcast(
                                #[trigger] ws[i],
                                *d,
                            ) is Some by {
                                assert(vcast(vs[i], *d) is Some);
                                assert(vcast(ws[i], *d) == vcast(vs[i], *d));
                            }
                            assert(vcasts(ws, *d) is Some);
                            assert forall|i: int| 0 <= i < ws.len() implies #[trigger] vcasts(
                                ws,
                                *d,
                            )->Some_0[i] == vcasts(vs, *d)->Some_0[i] by {
                                assert(vcasts(ws, *d)->Some_0[i] == vcast(ws[i], *d)->Some_0);
                                assert(vcasts(vs, *d)->Some_0[i] == vcast(vs[i], *d)->Some_0);
                                assert(vcast(ws[i], *d) == vcast(vs[i], *d));
                            }
                            assert(vcasts(ws, *d)->Some_0 =~= vcasts(vs, *d)->Some_0);
                            assert(vcast(w, c) == vcast(v, c));
                        } else {
                            if vcasts(ws, *d) is Some {
                                assert forall|i: int| 0 <= i < vs.len() implies vcast(
                                    #[trigger] vs[i],
                                    *d,
                                ) is Some by {
                                    assert(vcast(ws[i], *d) is Some);
                                    assert(vcast(ws[i], *d) == vcast(vs[i], *d));
                                }
                                assert(vcasts(vs, *d) is Some);
                                assert(false);
                            }
                            assert(vcast(w, c) is None);
                            assert(vcast(v, c) is None);
                        }
                    },
                    _ => {},
                }
            },
            (Ty::UInt8, Ty::UInt16) => {
                assert(a == Ty::UInt8);
                lemma_vcast_reflexive(v, a);
                assert(w == v);
            },
            (Ty::UInt8, Ty::Int16) => {
                assert(a == Ty::UInt8);
                lemma_vcast_reflexive(v, a);
                assert(w == v);
            },
            (Ty::Int8, Ty::Int16) => {
                assert(a == Ty::Int8);
                lemma_vcast_reflexive(v, a);
                assert(w == v);
            },
            _ => {},
        }
    }
}

} // verus!



