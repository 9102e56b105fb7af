//! The value model: scalars, columns and column builders with uniform
//! push/append/slice semantics across all variants.
//!
//! Every exec type has a structural ghost model (its view), and on the models
//! a semantic reading: each row of a column is a [`Val`], with null rows of a
//! nullable column reading as `Val::Null` whatever the underlying storage
//! holds.

use vstd::prelude::*;

use crate::error::EvalError;
use crate::types::generic_free;
use crate::types::wf_ty;
use crate::types::DataType;
use crate::types::Ty;

verus! {

/// The semantic value of one row or one scalar.
///
/// An empty-array scalar and an array scalar with no elements read as the
/// same value; a null row of a nullable column reads as `Val::Null`.
pub ghost enum Val {
    Null,
    Bool(bool),
    UInt8(u8),
    UInt16(u16),
    Int8(i8),
    Int16(i16),
    Str(Seq<char>),
    Arr(Seq<Val>),
    Tup(Seq<Val>),
}

/// The structural model of a [`Column`]: the same shape with mathematical
/// storage.
pub ghost enum ColV {
    Null { len: int },
    EmptyArray { len: int },
    Int8(Seq<i8>),
    Int16(Seq<i16>),
    UInt8(Seq<u8>),
    UInt16(Seq<u16>),
    Boolean(Seq<bool>),
    String(Seq<Seq<char>>),
    Array { array: Box<ColV>, offsets: Seq<(int, int)> },
    Nullable { column: Box<ColV>, validity: Seq<bool> },
    Tuple { fields: Seq<ColV>, len: int },
}

/// The structural model of a [`Scalar`].
pub ghost enum ScalV {
    Null,
    EmptyArray,
    Int8(i8),
    Int16(i16),
    UInt8(u8),
    UInt16(u16),
    Boolean(bool),
    String(Seq<char>),
    Array(Box<ColV>),
    Tuple(Seq<ScalV>),
}

impl ColV {
    /// The number of rows.
    pub open spec fn len(self) -> int {
        match self {
            ColV::Null { len } => len,
            ColV::EmptyArray { len } => len,
            ColV::Int8(v) => v.len() as int,
            ColV::Int16(v) => v.len() as int,
            ColV::UInt8(v) => v.len() as int,
            ColV::UInt16(v) => v.len() as int,
            ColV::Boolean(v) => v.len() as int,
            ColV::String(v) => v.len() as int,
            ColV::Array { array: _, offsets } => offsets.len() as int,
            ColV::Nullable { column: _, validity } => validity.len() as int,
            ColV::Tuple { fields: _, len } => len,
        }
    }

    /// Structural well-formedness: parallel components have equal lengths,
    /// array offsets are monotone and within the child, and a nullable child
    /// is itself neither nullable nor a null column.
    pub open spec fn wf(self) -> bool
        decreases self,
    {
        match self {
            ColV::Null { len } => len >= 0,
            ColV::EmptyArray { len } => len >= 0,
            ColV::Array { array, offsets } => {
                &&& array.wf()
                &&& forall|i: int|
                    0 <= i < offsets.len() ==> 0 <= (#[trigger] offsets[i]).0 <= offsets[i].1
                        <= array.len()
            },
            ColV::Nullable { column, validity } => {
                &&& column.wf()
                &&& !(*column is Nullable)
                &&& !(*column is Null)
                &&& validity.len() == column.len()
            },
            ColV::Tuple { fields, len } => len >= 0 && wf_cols(fields, len),
            _ => true,
        }
    }

    /// The data type this column stores.
    pub open spec fn ty(self) -> Ty
        decreases self,
    {
        match self {
            ColV::Null { .. } => Ty::Null,
            ColV::EmptyArray { .. } => Ty::EmptyArray,
            ColV::Int8(_) => Ty::Int8,
            ColV::Int16(_) => Ty::Int16,
            ColV::UInt8(_) => Ty::UInt8,
            ColV::UInt16(_) => Ty::UInt16,
            ColV::Boolean(_) => Ty::Boolean,
            ColV::String(_) => Ty::String,
            ColV::Array { array, .. } => Ty::Array(Box::new(array.ty())),
            ColV::Nullable { column, .. } => Ty::Nullable(Box::new(column.ty())),
            ColV::Tuple { fields, .. } => Ty::Tuple(tys_cols(fields)),
        }
    }

    /// The semantic value of row `i`.
    pub open spec fn at(self, i: int) -> Val
        decreases self,
    {
        match self {
            ColV::Null { .. } => Val::Null,
            ColV::EmptyArray { .. } => Val::Arr(Seq::empty()),
            ColV::Int8(v) => Val::Int8(v[i]),
            ColV::Int16(v) => Val::Int16(v[i]),
            ColV::UInt8(v) => Val::UInt8(v[i]),
            ColV::UInt16(v) => Val::UInt16(v[i]),
            ColV::Boolean(v) => Val::Bool(v[i]),
            ColV::String(v) => Val::Str(v[i]),
            ColV::Array { array, offsets } => Val::Arr(
                Seq::new((offsets[i].1 - offsets[i].0) as nat, |j: int| array.at(offsets[i].0 + j)),
            ),
            ColV::Nullable { column, validity } => if validity[i] {
                column.at(i)
            } else {
                Val::Null
            },
            ColV::Tuple { fields, .. } => Val::Tup(ats_cols(fields, i)),
        }
    }

    /// The semantic values of all rows.
    pub open spec fn rows(self) -> Seq<Val> {
        Seq::new(self.len() as nat, |i: int| self.at(i))
    }
}

/// All columns in `s` are well-formed and have length `n`.
pub open spec fn wf_cols(s: Seq<ColV>, n: int) -> bool
    decreases s,
{
    if s.len() == 0 {
        true
    } else {
        wf_cols(s.subrange(0, s.len() - 1), n) && s[s.len() - 1].wf() && s[s.len() - 1].len() == n
    }
}

/// The data types of a sequence of columns, elementwise.
pub open spec fn tys_cols(s: Seq<ColV>) -> Seq<Ty>
    decreases s,
{
    if s.len() == 0 {
        Seq::empty()
    } else {
        tys_cols(s.subrange(0, s.len() - 1)).push(s[s.len() - 1].ty())
    }
}

/// The values of a sequence of columns at one row, elementwise.
pub open spec fn ats_cols(s: Seq<ColV>, i: int) -> Seq<Val>
    decreases s,
{
    if s.len() == 0 {
        Seq::empty()
    } else {
        ats_cols(s.subrange(0, s.len() - 1), i).push(s[s.len() - 1].at(i))
    }
}

/// `wf_cols` holds exactly when it holds of every element.
pub broadcast proof fn lemma_wf_cols(s: Seq<ColV>, n: int)
    ensures
        #[trigger] wf_cols(s, n) <==> (forall|i: int|
            0 <= i < s.len() ==> (#[trigger] s[i]).wf() && s[i].len() == n),
    decreases s,
{
    if s.len() > 0 {
        lemma_wf_cols(s.subrange(0, s.len() - 1), n);
        assert(forall|i: int|
            0 <= i < s.len() - 1 ==> s.subrange(0, s.len() - 1)[i] == s[i]);
    }
}

/// `tys_cols` maps `ty` over the sequence.
pub broadcast proof fn lemma_tys_cols(s: Seq<ColV>)
    ensures
        (#[trigger] tys_cols(s)).len() == s.len(),
        forall|i: int| 0 <= i < s.len() ==> tys_cols(s)[i] == (#[trigger] s[i]).ty(),
    decreases s,
{
    if s.len() > 0 {
        lemma_tys_cols(s.subrange(0, s.len() - 1));
        assert(forall|i: int|
            0 <= i < s.len() - 1 ==> s.subrange(0, s.len() - 1)[i] == s[i]);
    }
}

/// `ats_cols` maps `at(i)` over the sequence.
pub broadcast proof fn lemma_ats_cols(s: Seq<ColV>, i: int)
    ensures
        (#[trigger] ats_cols(s, i)).len() == s.len(),
        forall|k: int| 0 <= k < s.len() ==> ats_cols(s, i)[k] == (#[trigger] s[k]).at(i),
    decreases s,
{
    if s.len() > 0 {
        lemma_ats_cols(s.subrange(0, s.len() - 1), i);
        assert(forall|k: int|
            0 <= k < s.len() - 1 ==> s.subrange(0, s.len() - 1)[k] == s[k]);
    }
}

impl ScalV {
    /// The semantic value of this scalar.
    pub open spec fn val(self) -> Val
        decreases self,
    {
        match self {
            ScalV::Null => Val::Null,
            ScalV::EmptyArray => Val::Arr(Seq::empty()),
            ScalV::Int8(x) => Val::Int8(x),
            ScalV::Int16(x) => Val::Int16(x),
            ScalV::UInt8(x) => Val::UInt8(x),
            ScalV::UInt16(x) => Val::UInt16(x),
            ScalV::Boolean(x) => Val::Bool(x),
            ScalV::String(x) => Val::Str(x),
            ScalV::Array(c) => Val::Arr(c.rows()),
            ScalV::Tuple(fields) => Val::Tup(vals_scals(fields)),
        }
    }

    /// Structural well-formedness.
    pub open spec fn wf(self) -> bool
        decreases self,
    {
        match self {
            ScalV::Array(c) => c.wf(),
            ScalV::Tuple(fields) => wf_scals(fields),
            _ => true,
        }
    }

    /// The data type of this scalar. A null scalar has type `Null`, never a
    /// `Nullable<_>` type.
    pub open spec fn ty(self) -> Ty
        decreases self,
    {
        match self {
            ScalV::Null => Ty::Null,
            ScalV::EmptyArray => Ty::EmptyArray,
            ScalV::Int8(_) => Ty::Int8,
            ScalV::Int16(_) => Ty::Int16,
            ScalV::UInt8(_) => Ty::UInt8,
            ScalV::UInt16(_) => Ty::UInt16,
            ScalV::Boolean(_) => Ty::Boolean,
            ScalV::String(_) => Ty::String,
            ScalV::Array(c) => Ty::Array(Box::new(c.ty())),
            ScalV::Tuple(fields) => Ty::Tuple(tys_scals(fields)),
        }
    }
}

/// The semantic values of a sequence of scalars, elementwise.
pub open spec fn vals_scals(s: Seq<ScalV>) -> Seq<Val>
    decreases s,
{
    if s.len() == 0 {
        Seq::empty()
    } else {
        vals_scals(s.subrange(0, s.len() - 1)).push(s[s.len() - 1].val())
    }
}

/// All scalars in `s` are well-formed.
pub open spec fn wf_scals(s: Seq<ScalV>) -> bool
    decreases s,
{
    if s.len() == 0 {
        true
    } else {
        wf_scals(s.subrange(0, s.len() - 1)) && s[s.len() - 1].wf()
    }
}

/// The data types of a sequence of scalars, elementwise.
pub open spec fn tys_scals(s: Seq<ScalV>) -> Seq<Ty>
    decreases s,
{
    if s.len() == 0 {
        Seq::empty()
    } else {
        tys_scals(s.subrange(0, s.len() - 1)).push(s[s.len() - 1].ty())
    }
}

/// `vals_scals` maps `val` over the sequence.
pub broadcast proof fn lemma_vals_scals(s: Seq<ScalV>)
    ensures
        (#[trigger] vals_scals(s)).len() == s.len(),
        forall|i: int| 0 <= i < s.len() ==> vals_scals(s)[i] == (#[trigger] s[i]).val(),
    decreases s,
{
    if s.len() > 0 {
        lemma_vals_scals(s.subrange(0, s.len() - 1));
        assert(forall|i: int|
            0 <= i < s.len() - 1 ==> s.subrange(0, s.len() - 1)[i] == s[i]);
    }
}

/// `wf_scals` holds exactly when it holds of every element.
pub broadcast proof fn lemma_wf_scals(s: Seq<ScalV>)
    ensures
        #[trigger] wf_scals(s) <==> (forall|i: int| 0 <= i < s.len() ==> (#[trigger] s[i]).wf()),
    decreases s,
{
    if s.len() > 0 {
        lemma_wf_scals(s.subrange(0, s.len() - 1));
        assert(forall|i: int|
            0 <= i < s.len() - 1 ==> s.subrange(0, s.len() - 1)[i] == s[i]);
    }
}

/// `tys_scals` maps `ty` over the sequence.
pub broadcast proof fn lemma_tys_scals(s: Seq<ScalV>)
    ensures
        (#[trigger] tys_scals(s)).len() == s.len(),
        forall|i: int| 0 <= i < s.len() ==> tys_scals(s)[i] == (#[trigger] s[i]).ty(),
    decreases s,
{
    if s.len() > 0 {
        lemma_tys_scals(s.subrange(0, s.len() - 1));
        assert(forall|i: int|
            0 <= i < s.len() - 1 ==> s.subrange(0, s.len() - 1)[i] == s[i]);
    }
}

/// A single owned value: a scalar or a whole column.
#[derive(Debug, PartialEq)]
pub enum Value {
    Scalar(Scalar),
    Column(Column),
}

/// An owned scalar value.
#[derive(Debug, PartialEq)]
pub enum Scalar {
    Null,
    EmptyArray,
    Int8(i8),
    Int16(i16),
    UInt8(u8),
    UInt16(u16),
    Boolean(bool),
    String(String),
    Array(Column),
    Tuple(Vec<Scalar>),
}

/// A column of values.
///
/// `Null` and `EmptyArray` columns carry only a length. An `Array` column
/// stores, for row `i`, the half-open range `[offsets[i], offsets[i+1])` of
/// its child; a `Nullable` column pairs a child with a validity mask whose
/// bit is `true` where a value is present.
#[derive(Debug, PartialEq)]
pub enum Column {
    Null { len: usize },
    EmptyArray { len: usize },
    Int8(Vec<i8>),
    Int16(Vec<i16>),
    UInt8(Vec<u8>),
    UInt16(Vec<u16>),
    Boolean(Vec<bool>),
    String(Vec<String>),
    Array { array: Box<Column>, offsets: Vec<(usize, usize)> },
    Nullable { column: Box<Column>, validity: Vec<bool> },
    Tuple { fields: Vec<Column>, len: usize },
}

/// The structural model of a column.
pub open spec fn col_v(c: Column) -> ColV
    decreases c,
    via col_v_dec
{
    match c {
        Column::Null { len } => ColV::Null { len: len as int },
        Column::EmptyArray { len } => ColV::EmptyArray { len: len as int },
        Column::Int8(v) => ColV::Int8(v@),
        Column::Int16(v) => ColV::Int16(v@),
        Column::UInt8(v) => ColV::UInt8(v@),
        Column::UInt16(v) => ColV::UInt16(v@),
        Column::Boolean(v) => ColV::Boolean(v@),
        Column::String(v) => ColV::String(Seq::new(v@.len(), |i: int| v@[i]@)),
        Column::Array { array, offsets } => ColV::Array {
            array: Box::new(col_v(*array)),
            offsets: Seq::new(
                offsets@.len(),
                |i: int| (offsets@[i].0 as int, offsets@[i].1 as int),
            ),
        },
        Column::Nullable { column, validity } => ColV::Nullable {
            column: Box::new(col_v(*column)),
            validity: validity@,
        },
        Column::Tuple { fields, len } => ColV::Tuple {
            fields: cols_v(fields@),
            len: len as int,
        },
    }
}

/// The structural models of a sequence of columns, elementwise.
pub open spec fn cols_v(s: Seq<Column>) -> Seq<ColV>
    decreases s,
{
    if s.len() == 0 {
        Seq::empty()
    } else {
        cols_v(s.subrange(0, s.len() - 1)).push(col_v(s[s.len() - 1]))
    }
}

#[via_fn]
proof fn col_v_dec(c: Column) {
    match c {
        Column::Tuple { fields, len } => {
            assert(decreases_to!(c => fields));
            assert(decreases_to!(fields => fields@));
        },
        _ => {},
    }
}

/// `cols_v` maps `col_v` over the sequence.
pub broadcast proof fn lemma_cols_v(s: Seq<Column>)
    ensures
        (#[trigger] cols_v(s)).len() == s.len(),
        forall|i: int| 0 <= i < s.len() ==> cols_v(s)[i] == col_v(#[trigger] s[i]),
    decreases s,
{
    if s.len() > 0 {
        lemma_cols_v(s.subrange(0, s.len() - 1));
        assert(forall|i: int|
            0 <= i < s.len() - 1 ==> s.subrange(0, s.len() - 1)[i] == s[i]);
    }
}

impl View for Column {
    type V = ColV;

    open spec fn view(&self) -> ColV {
        col_v(*self)
    }
}

/// The structural model of a scalar.
pub open spec fn sc_v(s: Scalar) -> ScalV
    decreases s,
    via sc_v_dec
{
    match s {
        Scalar::Null => ScalV::Null,
        Scalar::EmptyArray => ScalV::EmptyArray,
        Scalar::Int8(x) => ScalV::Int8(x),
        Scalar::Int16(x) => ScalV::Int16(x),
        Scalar::UInt8(x) => ScalV::UInt8(x),
        Scalar::UInt16(x) => ScalV::UInt16(x),
        Scalar::Boolean(x) => ScalV::Boolean(x),
        Scalar::String(x) => ScalV::String(x@),
        Scalar::Array(c) => ScalV::Array(Box::new(col_v(c))),
        Scalar::Tuple(fields) => ScalV::Tuple(scs_v(fields@)),
    }
}

/// The structural models of a sequence of scalars, elementwise.
pub open spec fn scs_v(s: Seq<Scalar>) -> Seq<ScalV>
    decreases s,
{
    if s.len() == 0 {
        Seq::empty()
    } else {
        scs_v(s.subrange(0, s.len() - 1)).push(sc_v(s[s.len() - 1]))
    }
}

#[via_fn]
proof fn sc_v_dec(s: Scalar) {
    match s {
        Scalar::Tuple(fields) => {
            assert(decreases_to!(s => fields));
            assert(decreases_to!(fields => fields@));
        },
        _ => {},
    }
}

/// `scs_v` maps `sc_v` over the sequence.
pub broadcast proof fn lemma_scs_v(s: Seq<Scalar>)
    ensures
        (#[trigger] scs_v(s)).len() == s.len(),
        forall|i: int| 0 <= i < s.len() ==> scs_v(s)[i] == sc_v(#[trigger] s[i]),
    decreases s,
{
    if s.len() > 0 {
        lemma_scs_v(s.subrange(0, s.len() - 1));
        assert(forall|i: int|
            0 <= i < s.len() - 1 ==> s.subrange(0, s.len() - 1)[i] == s[i]);
    }
}

impl View for Scalar {
    type V = ScalV;

    open spec fn view(&self) -> ScalV {
        sc_v(*self)
    }
}

/// Copies the range `[a, b)` of a vector of copyable items.
fn vec_slice_copy<T: Copy>(v: &Vec<T>, a: usize, b: usize) -> (r: Vec<T>)
    requires
        a <= b <= v@.len(),
    ensures
        r@ == v@.subrange(a as int, b as int),
{
    let mut r: Vec<T> = Vec::new();
    let mut i: usize = a;
    while i < b
        invariant
            a <= i <= b <= v@.len(),
            r@.len() == i - a,
            forall|j: int| 0 <= j < i - a ==> r@[j] == v@[a + j],
        decreases b - i,
    {
        r.push(v[i]);
        i = i + 1;
    }
    proof {
        assert(r@ =~= v@.subrange(a as int, b as int));
    }
    r
}

/// Copies the range `[a, b)` of a vector of strings.
fn strings_slice(v: &Vec<String>, a: usize, b: usize) -> (r: Vec<String>)
    requires
        a <= b <= v@.len(),
    ensures
        r@.len() == b - a,
        forall|j: int| 0 <= j < b - a ==> r@[j] == v@[a + j],
{
    let mut r: Vec<String> = Vec::new();
    let mut i: usize = a;
    while i < b
        invariant
            a <= i <= b <= v@.len(),
            r@.len() == i - a,
            forall|j: int| 0 <= j < i - a ==> r@[j] == v@[a + j],
        decreases b - i,
    {
        r.push(v[i].clone());
        i = i + 1;
    }
    r
}

impl Clone for Column {
    /// A clone has the same structural model as the original.
    fn clone(&self) -> (r: Self)
        ensures
            r@ == self@,
        decreases *self,
    {
        match self {
            Column::Null { len } => Column::Null { len: *len },
            Column::EmptyArray { len } => Column::EmptyArray { len: *len },
            Column::Int8(v) => {
                let w = vec_slice_copy(v, 0, v.len());
                proof {
                    assert(w@ =~= v@);
                }
                Column::Int8(w)
            },
            Column::Int16(v) => {
                let w = vec_slice_copy(v, 0, v.len());
                proof {
                    assert(w@ =~= v@);
                }
                Column::Int16(w)
            },
            Column::UInt8(v) => {
                let w = vec_slice_copy(v, 0, v.len());
                proof {
                    assert(w@ =~= v@);
                }
                Column::UInt8(w)
            },
            Column::UInt16(v) => {
                let w = vec_slice_copy(v, 0, v.len());
                proof {
                    assert(w@ =~= v@);
                }
                Column::UInt16(w)
            },
            Column::Boolean(v) => {
                let w = vec_slice_copy(v, 0, v.len());
                proof {
                    assert(w@ =~= v@);
                }
                Column::Boolean(w)
            },
            Column::String(v) => {
                let w = strings_slice(v, 0, v.len());
                let r = Column::String(w);
                proof {
                    assert(r@->String_0 =~= self@->String_0);
                }
                r
            },
            Column::Array { array, offsets } => {
                let w = vec_slice_copy(offsets, 0, offsets.len());
                proof {
                    assert(w@ =~= offsets@);
                }
                let r = Column::Array { array: Box::new((**array).clone()), offsets: w };
                proof {
                    assert(r@->Array_offsets =~= self@->Array_offsets);
                }
                r
            },
            Column::Nullable { column, validity } => {
                let w = vec_slice_copy(validity, 0, validity.len());
                proof {
                    assert(w@ =~= validity@);
                }
                let r = Column::Nullable { column: Box::new((**column).clone()), validity: w };
                r
            },
            Column::Tuple { fields, len } => {
                proof {
                    lemma_cols_v(fields@);
                }
                let ghost model = self@->Tuple_fields;
                let mut out: Vec<Column> = Vec::new();
                let mut i: usize = 0;
                while i < fields.len()
                    invariant
                        i <= fields@.len(),
                        out@.len() == i,
                        *self == (Column::Tuple { fields: *fields, len: *len }),
                        model == col_v(*self)->Tuple_fields,
                        model.len() == fields@.len(),
                        forall|j: int| 0 <= j < fields@.len() ==> model[j] == col_v(fields@[j]),
                        forall|j: int| 0 <= j < i ==> col_v(#[trigger] out@[j]) == model[j],
                    decreases fields@.len() - i,
                {
                    proof {
                        assert(decreases_to!(*self => *fields));
                        assert(decreases_to!(*fields => fields@));
                        assert(decreases_to!(fields@ => fields@[i as int]));
                    }
                    out.push(fields[i].clone());
                    i = i + 1;
                }
                let r = Column::Tuple { fields: out, len: *len };
                proof {
                    lemma_cols_v(out@);
                    assert forall|j: int| 0 <= j < model.len() implies cols_v(out@)[j]
                        == model[j] by {
                        assert(col_v(out@[j]) == model[j]);
                    }
                    assert(cols_v(out@) =~= model);
                }
                r
            },
        }
    }
}

impl Clone for Scalar {
    /// A clone has the same structural model as the original.
    fn clone(&self) -> (r: Self)
        ensures
            r@ == self@,
        decreases *self,
    {
        match self {
            Scalar::Null => Scalar::Null,
            Scalar::EmptyArray => Scalar::EmptyArray,
            Scalar::Int8(x) => Scalar::Int8(*x),
            Scalar::Int16(x) => Scalar::Int16(*x),
            Scalar::UInt8(x) => Scalar::UInt8(*x),
            Scalar::UInt16(x) => Scalar::UInt16(*x),
            Scalar::Boolean(x) => Scalar::Boolean(*x),
            Scalar::String(x) => Scalar::String(x.clone()),
            Scalar::Array(c) => Scalar::Array(c.clone()),
            Scalar::Tuple(fields) => {
                proof {
                    lemma_scs_v(fields@);
                }
                let ghost model = self@->Tuple_0;
                let mut out: Vec<Scalar> = Vec::new();
                let mut i: usize = 0;
                while i < fields.len()
                    invariant
                        i <= fields@.len(),
                        out@.len() == i,
                        *self == Scalar::Tuple(*fields),
                        model == sc_v(*self)->Tuple_0,
                        model.len() == fields@.len(),
                        forall|j: int| 0 <= j < fields@.len() ==> model[j] == sc_v(fields@[j]),
                        forall|j: int| 0 <= j < i ==> sc_v(#[trigger] out@[j]) == model[j],
                    decreases fields@.len() - i,
                {
                    proof {
                        assert(decreases_to!(*self => *fields));
                        assert(decreases_to!(*fields => fields@));
                        assert(decreases_to!(fields@ => fields@[i as int]));
                    }
                    out.push(fields[i].clone());
                    i = i + 1;
                }
                let r = Scalar::Tuple(out);
                proof {
                    lemma_scs_v(out@);
                    assert forall|j: int| 0 <= j < model.len() implies scs_v(out@)[j]
                        == model[j] by {
                        assert(sc_v(out@[j]) == model[j]);
                    }
                    assert(scs_v(out@) =~= model);
                }
                r
            },
        }
    }
}

impl Column {
    /// The number of rows of this column.
    pub fn len(&self) -> (r: usize)
        requires
            self@.wf(),
        ensures
            r as int == self@.len(),
    {
        match self {
            Column::Null { len } => *len,
            Column::EmptyArray { len } => *len,
            Column::Int8(v) => v.len(),
            Column::Int16(v) => v.len(),
            Column::UInt8(v) => v.len(),
            Column::UInt16(v) => v.len(),
            Column::Boolean(v) => v.len(),
            Column::String(v) => v.len(),
            Column::Array { array: _, offsets } => offsets.len(),
            Column::Nullable { column: _, validity } => validity.len(),
            Column::Tuple { fields: _, len } => *len,
        }
    }

    /// The value of row `index`, as an owned scalar.
    pub fn index(&self, index: usize) -> (r: Scalar)
        requires
            self@.wf(),
            index < self@.len(),
        ensures
            r@.val() == self@.at(index as int),
            r@.wf(),
            fits(self@, r@),
        decreases *self,
    {
        match self {
            Column::Null { .. } => Scalar::Null,
            Column::EmptyArray { .. } => Scalar::EmptyArray,
            Column::Int8(v) => Scalar::Int8(v[index]),
            Column::Int16(v) => Scalar::Int16(v[index]),
            Column::UInt8(v) => Scalar::UInt8(v[index]),
            Column::UInt16(v) => Scalar::UInt16(v[index]),
            Column::Boolean(v) => Scalar::Boolean(v[index]),
            Column::String(v) => Scalar::String(v[index].clone()),
            Column::Array { array, offsets } => {
                let start = offsets[index].0;
                let end = offsets[index].1;
                let r = Scalar::Array(array.slice(start, end));
                proof {
                    assert(r@.val()->Arr_0 =~= self@.at(index as int)->Arr_0);
                    assert((*r@->Array_0).ty() == (*self@->Array_array).ty());
                }
                r
            },
            Column::Nullable { column, validity } => {
                if validity[index] {
                    column.index(index)
                } else {
                    Scalar::Null
                }
            },
            Column::Tuple { fields, len } => {
                proof {
                    lemma_cols_v(fields@);
                    lemma_wf_cols(self@->Tuple_fields, *len as int);
                    lemma_ats_cols(self@->Tuple_fields, index as int);
                }
                let ghost model = self@->Tuple_fields;
                let mut out: Vec<Scalar> = Vec::new();
                let mut i: usize = 0;
                while i < fields.len()
                    invariant
                        i <= fields@.len(),
                        out@.len() == i,
                        index < *len,
                        *self == (Column::Tuple { fields: *fields, len: *len }),
                        model == col_v(*self)->Tuple_fields,
                        model.len() == fields@.len(),
                        forall|j: int|
                            0 <= j < fields@.len() ==> model[j] == #[trigger] col_v(fields@[j]),
                        forall|j: int|
                            0 <= j < fields@.len() ==> (#[trigger] model[j]).wf() && model[j].len()
                                == *len as int,
                        forall|j: int|
                            0 <= j < i ==> sc_v(#[trigger] out@[j]).val() == model[j].at(
                                index as int,
                            ) && sc_v(out@[j]).wf() && fits(model[j], sc_v(out@[j])),
                    decreases fields@.len() - i,
                {
                    proof {
                        assert(decreases_to!(*self => *fields));
                        assert(decreases_to!(*fields => fields@));
                        assert(decreases_to!(fields@ => fields@[i as int]));
                    }
                    out.push(fields[i].index(index));
                    i = i + 1;
                }
                let r = Scalar::Tuple(out);
                proof {
                    lemma_scs_v(out@);
                    lemma_vals_scals(scs_v(out@));
                    lemma_wf_scals(scs_v(out@));
                    lemma_fits_seq(model, scs_v(out@));
                    assert forall|j: int| 0 <= j < model.len() implies fits(
                        #[trigger] model[j],
                        scs_v(out@)[j],
                    ) by {
                        assert(scs_v(out@)[j] == sc_v(out@[j]));
                    }
                    assert forall|j: int| 0 <= j < model.len() implies vals_scals(scs_v(out@))[j]
                        == ats_cols(model, index as int)[j] by {
                        assert(sc_v(out@[j]).val() == model[j].at(index as int));
                        assert(scs_v(out@)[j] == sc_v(out@[j]));
                    }
                    assert(vals_scals(scs_v(out@)) =~= ats_cols(model, index as int));
                    assert forall|j: int| 0 <= j < model.len() implies (#[trigger] scs_v(
                        out@,
                    )[j]).wf() by {
                        assert(sc_v(out@[j]).wf());
                    }
                }
                r
            },
        }
    }

    /// The sub-column of rows `[start, end)`. Row `i` of the result is row
    /// `start + i` of the original.
    #[verifier::rlimit(40)]
    pub fn slice(&self, start: usize, end: usize) -> (r: Column)
        requires
            self@.wf(),
            start <= end,
            end <= self@.len(),
        ensures
            r@.wf(),
            r@.len() == end - start,
            r@.ty() == self@.ty(),
            r@ is Null <==> self@ is Null,
            r@ is Nullable <==> self@ is Nullable,
            forall|i: int| 0 <= i < end - start ==> r@.at(i) == self@.at(start + i),
        decreases *self,
    {
        match self {
            Column::Null { .. } => Column::Null { len: end - start },
            Column::EmptyArray { .. } => Column::EmptyArray { len: end - start },
            Column::Int8(v) => Column::Int8(vec_slice_copy(v, start, end)),
            Column::Int16(v) => Column::Int16(vec_slice_copy(v, start, end)),
            Column::UInt8(v) => Column::UInt8(vec_slice_copy(v, start, end)),
            Column::UInt16(v) => Column::UInt16(vec_slice_copy(v, start, end)),
            Column::Boolean(v) => Column::Boolean(vec_slice_copy(v, start, end)),
            Column::String(v) => {
                let r = Column::String(strings_slice(v, start, end));
                r
            },
            Column::Array { array, offsets } => {
                let r = Column::Array {
                    array: Box::new((**array).clone()),
                    offsets: vec_slice_copy(offsets, start, end),
                };
                proof {
                    let rv = r@;
                    let sv = self@;
                    let ro = rv->Array_offsets;
                    let so = sv->Array_offsets;
                    assert(ro.len() == end - start);
                    assert forall|i: int| 0 <= i < ro.len() implies 0 <= (#[trigger] ro[i]).0
                        <= ro[i].1 <= rv->Array_array.len() by {
                        assert(ro[i] == so[start + i]);
                        assert(0 <= so[start + i].0 <= so[start + i].1 <= sv->Array_array.len());
                    }
                    assert(rv.wf());
                    assert forall|i: int| 0 <= i < end - start implies rv.at(i) == sv.at(
                        start + i,
                    ) by {
                        assert(ro[i] == so[start + i]);
                        assert(rv.at(i)->Arr_0 =~= sv.at(start + i)->Arr_0);
                    }
                }
                r
            },
            Column::Nullable { column, validity } => {
                let r = Column::Nullable {
                    column: Box::new(column.slice(start, end)),
                    validity: vec_slice_copy(validity, start, end),
                };
                proof {
                    assert forall|i: int| 0 <= i < end - start implies r@.at(i) == self@.at(
                        start + i,
                    ) by {
                        assert(r@->Nullable_validity[i] == self@->Nullable_validity[start + i]);
                        assert((*r@->Nullable_column).at(i) == (*self@->Nullable_column).at(
                            start + i,
                        ));
                    }
                }
                r
            },
            Column::Tuple { fields, len } => {
                proof {
                    lemma_cols_v(fields@);
                    lemma_wf_cols(self@->Tuple_fields, *len as int);
                }
                let ghost model = self@->Tuple_fields;
                let mut out: Vec<Column> = Vec::new();
                let mut i: usize = 0;
                while i < fields.len()
                    invariant
                        i <= fields@.len(),
                        out@.len() == i,
                        start <= end <= *len,
                        *self == (Column::Tuple { fields: *fields, len: *len }),
                        model == col_v(*self)->Tuple_fields,
                        model.len() == fields@.len(),
                        forall|j: int|
                            0 <= j < fields@.len() ==> model[j] == #[trigger] col_v(fields@[j]),
                        forall|j: int|
                            0 <= j < fields@.len() ==> (#[trigger] model[j]).wf() && model[j].len()
                                == *len as int,
                        forall|j: int|
                            0 <= j < i ==> {
                                &&& col_v(#[trigger] out@[j]).wf()
                                &&& col_v(out@[j]).len() == end - start
                                &&& col_v(out@[j]).ty() == model[j].ty()
                                &&& forall|k: int|
                                    0 <= k < end - start ==> col_v(out@[j]).at(k) == model[j].at(
                                        start + k,
                                    )
                            },
                    decreases fields@.len() - i,
                {
                    proof {
                        assert(decreases_to!(*self => *fields));
                        assert(decreases_to!(*fields => fields@));
                        assert(decreases_to!(fields@ => fields@[i as int]));
                    }
                    out.push(fields[i].slice(start, end));
                    i = i + 1;
                }
                let r = Column::Tuple { fields: out, len: end - start };
                proof {
                    lemma_cols_v(out@);
                    lemma_wf_cols(cols_v(out@), (end - start) as int);
                    lemma_tys_cols(cols_v(out@));
                    lemma_tys_cols(model);
                    assert(cols_v(out@).len() == model.len());
                    assert(tys_cols(cols_v(out@)).len() == tys_cols(model).len());
                    assert forall|j: int| 0 <= j < model.len() implies (#[trigger] cols_v(
                        out@,
                    )[j]).wf() && cols_v(out@)[j].len() == end - start by {
                        assert(cols_v(out@)[j] == col_v(out@[j]));
                        assert(col_v(out@[j]).wf());
                    }
                    assert forall|j: int| 0 <= j < model.len() implies #[trigger] tys_cols(
                        cols_v(out@),
                    )[j] == tys_cols(model)[j] by {
                        assert(cols_v(out@)[j] == col_v(out@[j]));
                        assert(col_v(out@[j]).ty() == model[j].ty());
                        assert(tys_cols(cols_v(out@))[j] == cols_v(out@)[j].ty());
                        assert(tys_cols(model)[j] == model[j].ty());
                    }
                    assert(tys_cols(cols_v(out@)) =~= tys_cols(model));
                    assert(wf_cols(cols_v(out@), (end - start) as int));
                    assert forall|i: int| 0 <= i < end - start implies r@.at(i) == self@.at(
                        start + i,
                    ) by {
                        lemma_ats_cols(cols_v(out@), i);
                        lemma_ats_cols(model, start + i);
                        assert forall|j: int| 0 <= j < model.len() implies ats_cols(
                            cols_v(out@),
                            i,
                        )[j] == ats_cols(model, start + i)[j] by {
                            assert(col_v(out@[j]).at(i) == model[j].at(start + i));
                            assert(cols_v(out@)[j] == col_v(out@[j]));
                        }
                        assert(ats_cols(cols_v(out@), i) =~= ats_cols(model, start + i));
                    }
                }
                r
            },
        }
    }
}


/// The default value of a data type: `false`, zero, the empty string, the
/// empty array, null for nullable types, and a tuple of defaults.
pub open spec fn default_val(t: Ty) -> Val
    decreases t,
{
    match t {
        Ty::Boolean => Val::Bool(false),
        Ty::String => Val::Str(Seq::empty()),
        Ty::UInt8 => Val::UInt8(0),
        Ty::UInt16 => Val::UInt16(0),
        Ty::Int8 => Val::Int8(0),
        Ty::Int16 => Val::Int16(0),
        Ty::Null => Val::Null,
        Ty::Nullable(_) => Val::Null,
        Ty::EmptyArray => Val::Arr(Seq::empty()),
        Ty::Array(_) => Val::Arr(Seq::empty()),
        Ty::Tuple(ts) => Val::Tup(default_vals(ts)),
        Ty::Generic(_) => Val::Null,
    }
}

/// The default values of a sequence of types, elementwise.
pub open spec fn default_vals(ts: Seq<Ty>) -> Seq<Val>
    decreases ts,
{
    if ts.len() == 0 {
        Seq::empty()
    } else {
        default_vals(ts.subrange(0, ts.len() - 1)).push(default_val(ts[ts.len() - 1]))
    }
}

/// `default_vals` maps `default_val` over the sequence.
pub broadcast proof fn lemma_default_vals(ts: Seq<Ty>)
    ensures
        (#[trigger] default_vals(ts)).len() == ts.len(),
        forall|i: int| 0 <= i < ts.len() ==> default_vals(ts)[i] == default_val(#[trigger] ts[i]),
    decreases ts,
{
    if ts.len() > 0 {
        lemma_default_vals(ts.subrange(0, ts.len() - 1));
        assert(forall|i: int|
            0 <= i < ts.len() - 1 ==> ts.subrange(0, ts.len() - 1)[i] == ts[i]);
    }
}

/// Shapes whose growth can never overflow a length counter: those stored
/// entirely in vectors, with no standalone counter and no element offsets.
pub open spec fn never_overflows(c: ColV) -> bool {
    match c {
        ColV::Int8(_) => true,
        ColV::Int16(_) => true,
        ColV::UInt8(_) => true,
        ColV::UInt16(_) => true,
        ColV::Boolean(_) => true,
        ColV::String(_) => true,
        ColV::Nullable { column, .. } => match *column {
            ColV::Int8(_) => true,
            ColV::Int16(_) => true,
            ColV::UInt8(_) => true,
            ColV::UInt16(_) => true,
            ColV::Boolean(_) => true,
            ColV::String(_) => true,
            _ => false,
        },
        _ => false,
    }
}

/// A scalar of the column's own data type always fits the column.
pub proof fn lemma_fits_from_ty(c: ColV, s: ScalV)
    requires
        c.ty() == s.ty(),
    ensures
        fits(c, s),
    decreases c,
{
    match c {
        ColV::Array { array, offsets } => {
            assert(s is Array);
        },
        ColV::Nullable { column, validity } => {
            assert(!(s.ty() is Nullable));
            assert(false);
        },
        ColV::Tuple { fields, len } => {
            assert(s is Tuple);
            let ss = s->Tuple_0;
            lemma_tys_cols(fields);
            lemma_tys_scals(ss);
            assert(tys_cols(fields) == tys_scals(ss));
            lemma_fits_seq(fields, ss);
            assert forall|i: int| 0 <= i < fields.len() implies fits(#[trigger] fields[i], ss[i]) by {
                assert(tys_cols(fields)[i] == tys_scals(ss)[i]);
                lemma_fits_from_ty(fields[i], ss[i]);
            }
        },
        _ => {},
    }
}

/// Whether pushing scalar `s` onto a column of shape `c` is defined: the
/// scalar's shape matches the column's, with any scalar accepted as a null
/// row of a nullable column.
pub open spec fn fits(c: ColV, s: ScalV) -> bool
    decreases c,
{
    match (c, s) {
        (ColV::Null { .. }, ScalV::Null) => true,
        (ColV::EmptyArray { .. }, ScalV::EmptyArray) => true,
        (ColV::Int8(_), ScalV::Int8(_)) => true,
        (ColV::Int16(_), ScalV::Int16(_)) => true,
        (ColV::UInt8(_), ScalV::UInt8(_)) => true,
        (ColV::UInt16(_), ScalV::UInt16(_)) => true,
        (ColV::Boolean(_), ScalV::Boolean(_)) => true,
        (ColV::String(_), ScalV::String(_)) => true,
        (ColV::Array { array, .. }, ScalV::Array(ac)) => array.ty() == ac.ty(),
        (ColV::Nullable { .. }, ScalV::Null) => true,
        (ColV::Nullable { column, .. }, _) => fits(*column, s),
        (ColV::Tuple { fields, .. }, ScalV::Tuple(ss)) => fits_seq(fields, ss),
        _ => false,
    }
}

/// `fits`, elementwise over two sequences of equal length.
pub open spec fn fits_seq(cs: Seq<ColV>, ss: Seq<ScalV>) -> bool
    decreases cs,
{
    if cs.len() != ss.len() {
        false
    } else if cs.len() == 0 {
        true
    } else {
        fits_seq(cs.subrange(0, cs.len() - 1), ss.subrange(0, ss.len() - 1)) && fits(
            cs[cs.len() - 1],
            ss[ss.len() - 1],
        )
    }
}

/// `fits_seq` holds exactly when the lengths agree and `fits` holds
/// elementwise.
pub broadcast proof fn lemma_fits_seq(cs: Seq<ColV>, ss: Seq<ScalV>)
    ensures
        #[trigger] fits_seq(cs, ss) <==> (cs.len() == ss.len() && forall|i: int|
            0 <= i < cs.len() ==> fits(#[trigger] cs[i], ss[i])),
    decreases cs,
{
    if cs.len() == ss.len() && cs.len() > 0 {
        lemma_fits_seq(cs.subrange(0, cs.len() - 1), ss.subrange(0, ss.len() - 1));
        assert(forall|i: int|
            0 <= i < cs.len() - 1 ==> cs.subrange(0, cs.len() - 1)[i] == cs[i]);
        assert(forall|i: int|
            0 <= i < ss.len() - 1 ==> ss.subrange(0, ss.len() - 1)[i] == ss[i]);
    }
}

impl Column {
    /// Whether two columns store the same data type.
    pub fn same_ty(&self, other: &Column) -> (r: bool)
        ensures
            r == (self@.ty() == other@.ty()),
        decreases *self,
    {
        match (self, other) {
            (Column::Null { .. }, Column::Null { .. }) => true,
            (Column::EmptyArray { .. }, Column::EmptyArray { .. }) => true,
            (Column::Int8(_), Column::Int8(_)) => true,
            (Column::Int16(_), Column::Int16(_)) => true,
            (Column::UInt8(_), Column::UInt8(_)) => true,
            (Column::UInt16(_), Column::UInt16(_)) => true,
            (Column::Boolean(_), Column::Boolean(_)) => true,
            (Column::String(_), Column::String(_)) => true,
            (Column::Array { array: a, .. }, Column::Array { array: b, .. }) => a.same_ty(b),
            (
                Column::Nullable { column: a, .. },
                Column::Nullable { column: b, .. },
            ) => a.same_ty(b),
            (
                Column::Tuple { fields: a, .. },
                Column::Tuple { fields: b, .. },
            ) => {
                proof {
                    lemma_cols_v(a@);
                    lemma_cols_v(b@);
                    lemma_tys_cols(self@->Tuple_fields);
                    lemma_tys_cols(other@->Tuple_fields);
                }
                let ghost ma = self@->Tuple_fields;
                let ghost mb = other@->Tuple_fields;
                if a.len() != b.len() {
                    proof {
                        assert(tys_cols(ma).len() != tys_cols(mb).len());
                    }
                    return false;
                }
                let mut i: usize = 0;
                while i < a.len()
                    invariant
                        i <= a@.len(),
                        a@.len() == b@.len(),
                        *self == (Column::Tuple { fields: *a, len: self->Tuple_len }),
                        *other == (Column::Tuple { fields: *b, len: other->Tuple_len }),
                        ma == col_v(*self)->Tuple_fields,
                        mb == col_v(*other)->Tuple_fields,
                        ma.len() == a@.len(),
                        mb.len() == b@.len(),
                        forall|j: int| 0 <= j < a@.len() ==> ma[j] == #[trigger] col_v(a@[j]),
                        forall|j: int| 0 <= j < b@.len() ==> mb[j] == #[trigger] col_v(b@[j]),
                        forall|j: int| 0 <= j < i ==> (#[trigger] ma[j]).ty() == mb[j].ty(),
                    decreases a@.len() - i,
                {
                    proof {
                        assert(decreases_to!(*self => *a));
                        assert(decreases_to!(*a => a@));
                        assert(decreases_to!(a@ => a@[i as int]));
                    }
                    if !a[i].same_ty(&b[i]) {
                        proof {
                            lemma_tys_cols(ma);
                            lemma_tys_cols(mb);
                            assert(tys_cols(ma)[i as int] != tys_cols(mb)[i as int]);
                        }
                        return false;
                    }
                    i = i + 1;
                }
                proof {
                    lemma_tys_cols(ma);
                    lemma_tys_cols(mb);
                    assert forall|j: int| 0 <= j < ma.len() implies #[trigger] tys_cols(ma)[j]
                        == tys_cols(mb)[j] by {
                        assert(ma[j].ty() == mb[j].ty());
                    }
                    assert(tys_cols(ma) =~= tys_cols(mb));
                }
                true
            },
            _ => false,
        }
    }

    /// Whether scalar `item` can be pushed onto a column of this shape.
    pub fn accepts(&self, item: &Scalar) -> (r: bool)
        ensures
            r == fits(self@, item@),
        decreases *self,
    {
        match (self, item) {
            (Column::Null { .. }, Scalar::Null) => true,
            (Column::EmptyArray { .. }, Scalar::EmptyArray) => true,
            (Column::Int8(_), Scalar::Int8(_)) => true,
            (Column::Int16(_), Scalar::Int16(_)) => true,
            (Column::UInt8(_), Scalar::UInt8(_)) => true,
            (Column::UInt16(_), Scalar::UInt16(_)) => true,
            (Column::Boolean(_), Scalar::Boolean(_)) => true,
            (Column::String(_), Scalar::String(_)) => true,
            (Column::Array { array, .. }, Scalar::Array(ac)) => array.same_ty(ac),
            (Column::Nullable { .. }, Scalar::Null) => true,
            (Column::Nullable { column, .. }, _) => column.accepts(item),
            (Column::Tuple { fields, .. }, Scalar::Tuple(ss)) => {
                proof {
                    lemma_cols_v(fields@);
                    lemma_scs_v(ss@);
                    lemma_fits_seq(self@->Tuple_fields, item@->Tuple_0);
                }
                let ghost mc = self@->Tuple_fields;
                let ghost ms = item@->Tuple_0;
                if fields.len() != ss.len() {
                    return false;
                }
                let mut i: usize = 0;
                while i < fields.len()
                    invariant
                        i <= fields@.len(),
                        fields@.len() == ss@.len(),
                        *self == (Column::Tuple { fields: *fields, len: self->Tuple_len }),
                        *item == Scalar::Tuple(*ss),
                        mc == col_v(*self)->Tuple_fields,
                        ms == sc_v(*item)->Tuple_0,
                        mc.len() == fields@.len(),
                        ms.len() == ss@.len(),
                        forall|j: int| 0 <= j < fields@.len() ==> mc[j] == #[trigger] col_v(fields@[j]),
                        forall|j: int| 0 <= j < ss@.len() ==> ms[j] == #[trigger] sc_v(ss@[j]),
                        forall|j: int| 0 <= j < i ==> fits(#[trigger] mc[j], ms[j]),
                    decreases fields@.len() - i,
                {
                    proof {
                        assert(decreases_to!(*self => *fields));
                        assert(decreases_to!(*fields => fields@));
                        assert(decreases_to!(fields@ => fields@[i as int]));
                    }
                    if !fields[i].accepts(&ss[i]) {
                        proof {
                            lemma_fits_seq(mc, ms);
                        }
                        return false;
                    }
                    i = i + 1;
                }
                proof {
                    lemma_fits_seq(mc, ms);
                }
                true
            },
            _ => false,
        }
    }
}

/// Copies `a` followed by `b` into a fresh vector.
fn vec_concat_copy<T: Copy>(a: &Vec<T>, b: &Vec<T>) -> (r: Vec<T>)
    ensures
        r@ == a@ + b@,
{
    let mut r = vec_slice_copy(a, 0, a.len());
    let mut i: usize = 0;
    while i < b.len()
        invariant
            i <= b@.len(),
            r@.len() == a@.len() + i,
            forall|j: int| 0 <= j < a@.len() ==> r@[j] == a@[j],
            forall|j: int| 0 <= j < i ==> r@[a@.len() + j] == b@[j],
        decreases b@.len() - i,
    {
        r.push(b[i]);
        i = i + 1;
    }
    proof {
        assert(r@ =~= a@ + b@);
    }
    r
}

/// Copies the strings of `a` followed by those of `b` into a fresh vector.
fn strings_concat(a: &Vec<String>, b: &Vec<String>) -> (r: Vec<String>)
    ensures
        r@.len() == a@.len() + b@.len(),
        forall|j: int| 0 <= j < a@.len() ==> r@[j] == a@[j],
        forall|j: int| 0 <= j < b@.len() ==> r@[a@.len() + j] == b@[j],
{
    let mut r = strings_slice(a, 0, a.len());
    let mut i: usize = 0;
    while i < b.len()
        invariant
            i <= b@.len(),
            r@.len() == a@.len() + i,
            forall|j: int| 0 <= j < a@.len() ==> r@[j] == a@[j],
            forall|j: int| 0 <= j < i ==> r@[a@.len() + j] == b@[j],
        decreases b@.len() - i,
    {
        r.push(b[i].clone());
        i = i + 1;
    }
    r
}

/// Concatenates two columns of the same data type, rows of `a` first.
///
/// Fails only when a length counter or an element offset would no longer fit
/// in `usize`.
pub fn col_concat(a: &Column, b: &Column) -> (r: Result<Column, EvalError>)
    requires
        a@.wf(),
        b@.wf(),
        a@.ty() == b@.ty(),
    ensures
        match r {
            Ok(c) => {
                &&& c@.wf()
                &&& c@.ty() == a@.ty()
                &&& c@.len() == a@.len() + b@.len()
                &&& (c@ is Null <==> a@ is Null)
                &&& (c@ is Nullable <==> a@ is Nullable)
                &&& forall|i: int| 0 <= i < a@.len() ==> c@.at(i) == a@.at(i)
                &&& forall|i: int| 0 <= i < b@.len() ==> c@.at(a@.len() + i) == b@.at(i)
            },
            Err(e) => e == EvalError::CapacityOverflow,
        },
        never_overflows(a@) ==> r is Ok,
    decreases *a,
{
    match (a, b) {
        (Column::Null { len: l1 }, Column::Null { len: l2 }) => {
            match l1.checked_add(*l2) {
                Some(n) => Ok(Column::Null { len: n }),
                None => Err(EvalError::CapacityOverflow),
            }
        },
        (Column::EmptyArray { len: l1 }, Column::EmptyArray { len: l2 }) => {
            match l1.checked_add(*l2) {
                Some(n) => Ok(Column::EmptyArray { len: n }),
                None => Err(EvalError::CapacityOverflow),
            }
        },
        (Column::Int8(v1), Column::Int8(v2)) => Ok(Column::Int8(vec_concat_copy(v1, v2))),
        (Column::Int16(v1), Column::Int16(v2)) => Ok(Column::Int16(vec_concat_copy(v1, v2))),
        (Column::UInt8(v1), Column::UInt8(v2)) => Ok(Column::UInt8(vec_concat_copy(v1, v2))),
        (Column::UInt16(v1), Column::UInt16(v2)) => Ok(Column::UInt16(vec_concat_copy(v1, v2))),
        (Column::Boolean(v1), Column::Boolean(v2)) => Ok(Column::Boolean(vec_concat_copy(v1, v2))),
        (Column::String(v1), Column::String(v2)) => {
            let r = Column::String(strings_concat(v1, v2));
            proof {
                assert forall|i: int| 0 <= i < a@.len() implies r@.at(i) == a@.at(i) by {
                    assert(r@->String_0[i] == a@->String_0[i]);
                }
                assert forall|i: int| 0 <= i < b@.len() implies r@.at(a@.len() + i) == b@.at(
                    i,
                ) by {
                    assert(r@->String_0[a@.len() + i] == b@->String_0[i]);
                }
            }
            Ok(r)
        },
        (
            Column::Array { array: a1, offsets: o1 },
            Column::Array { array: a2, offsets: o2 },
        ) => {
            let n1 = a1.len();
            let child = match col_concat(a1, a2) {
                Ok(c) => c,
                Err(e) => {
                    return Err(e);
                },
            };
            let mut off = vec_slice_copy(o1, 0, o1.len());
            let mut i: usize = 0;
            while i < o2.len()
                invariant
                    i <= o2@.len(),
                    !never_overflows(a@),
                    n1 as int == col_v(**a1).len(),
                    b@ == col_v(*b),
                    *b == (Column::Array { array: *a2, offsets: *o2 }),
                    b@.wf(),
                    off@.len() == o1@.len() + i,
                    forall|j: int| 0 <= j < o1@.len() ==> off@[j] == o1@[j],
                    forall|j: int|
                        0 <= j < i ==> (#[trigger] off@[o1@.len() + j]).0 == o2@[j].0 + n1
                            && off@[o1@.len() + j].1 == o2@[j].1 + n1,
                decreases o2@.len() - i,
            {
                proof {
                    assert(0 <= b@->Array_offsets[i as int].0 <= b@->Array_offsets[i as int].1
                        <= col_v(**a2).len());
                }
                let s = match o2[i].0.checked_add(n1) {
                    Some(s) => s,
                    None => {
                        return Err(EvalError::CapacityOverflow);
                    },
                };
                let e = match o2[i].1.checked_add(n1) {
                    Some(e) => e,
                    None => {
                        return Err(EvalError::CapacityOverflow);
                    },
                };
                off.push((s, e));
                i = i + 1;
            }
            let r = Column::Array { array: Box::new(child), offsets: off };
            proof {
                let rv = r@;
                let ro = rv->Array_offsets;
                let ao = a@->Array_offsets;
                let bo = b@->Array_offsets;
                let av = *a@->Array_array;
                let bv = *b@->Array_array;
                let cv = *rv->Array_array;
                assert(cv == col_v(child));
                assert(cv.len() == av.len() + bv.len());
                assert(n1 as int == av.len());
                assert(ro.len() == ao.len() + bo.len());
                assert forall|k: int| 0 <= k < ro.len() implies 0 <= (#[trigger] ro[k]).0
                    <= ro[k].1 <= cv.len() by {
                    if k < ao.len() {
                        assert(off@[k] == o1@[k]);
                        assert(ro[k] == ao[k]);
                        assert(0 <= ao[k].0 <= ao[k].1 <= av.len());
                    } else {
                        let j = k - ao.len();
                        assert(off@[o1@.len() + j].0 == o2@[j].0 + n1);
                        assert(off@[o1@.len() + j].1 == o2@[j].1 + n1);
                        assert(ro[k].0 == bo[j].0 + n1);
                        assert(ro[k].1 == bo[j].1 + n1);
                        assert(0 <= bo[j].0 <= bo[j].1 <= bv.len());
                    }
                }
                assert(rv.wf());
                assert forall|i: int| 0 <= i < a@.len() implies rv.at(i) == a@.at(i) by {
                    assert(off@[i] == o1@[i]);
                    assert(ro[i] == ao[i]);
                    assert(0 <= ao[i].0 <= ao[i].1 <= av.len());
                    let s1 = rv.at(i)->Arr_0;
                    let s2 = a@.at(i)->Arr_0;
                    assert forall|j: int| 0 <= j < s2.len() implies s1[j] == s2[j] by {
                        assert(s1[j] == cv.at(ro[i].0 + j));
                        assert(s2[j] == av.at(ao[i].0 + j));
                        assert(0 <= ao[i].0 + j < av.len());
                        assert(cv.at(ao[i].0 + j) == av.at(ao[i].0 + j));
                    }
                    assert(s1 =~= s2);
                }
                assert forall|i: int| 0 <= i < b@.len() implies rv.at(a@.len() + i) == b@.at(
                    i,
                ) by {
                    let k = a@.len() + i;
                    assert(off@[o1@.len() + i].0 == o2@[i].0 + n1);
                    assert(off@[o1@.len() + i].1 == o2@[i].1 + n1);
                    assert(ro[k].0 == bo[i].0 + n1);
                    assert(ro[k].1 == bo[i].1 + n1);
                    assert(0 <= bo[i].0 <= bo[i].1 <= bv.len());
                    let s1 = rv.at(k)->Arr_0;
                    let s2 = b@.at(i)->Arr_0;
                    assert(s1.len() == s2.len());
                    assert forall|j: int| 0 <= j < s2.len() implies s1[j] == s2[j] by {
                        assert(s1[j] == cv.at(ro[k].0 + j));
                        assert(s2[j] == bv.at(bo[i].0 + j));
                        assert(ro[k].0 + j == av.len() + (bo[i].0 + j));
                        assert(0 <= bo[i].0 + j < bv.len());
                        assert(cv.at(av.len() + (bo[i].0 + j)) == bv.at(bo[i].0 + j));
                    }
                    assert(s1 =~= s2);
                }
            }
            Ok(r)
        },
        (
            Column::Nullable { column: c1, validity: v1 },
            Column::Nullable { column: c2, validity: v2 },
        ) => {
            let child = match col_concat(c1, c2) {
                Ok(c) => c,
                Err(e) => {
                    return Err(e);
                },
            };
            let r = Column::Nullable { column: Box::new(child), validity: vec_concat_copy(v1, v2) };
            proof {
                let cv = *r@->Nullable_column;
                let av = *a@->Nullable_column;
                let bv = *b@->Nullable_column;
                assert(cv == col_v(child));
                assert forall|i: int| 0 <= i < a@.len() implies r@.at(i) == a@.at(i) by {
                    assert(r@->Nullable_validity[i] == a@->Nullable_validity[i]);
                    assert(cv.at(i) == av.at(i));
                }
                assert forall|i: int| 0 <= i < b@.len() implies r@.at(a@.len() + i) == b@.at(
                    i,
                ) by {
                    assert(r@->Nullable_validity[a@.len() + i] == b@->Nullable_validity[i]);
                    assert(cv.at(av.len() + i) == bv.at(i));
                }
            }
            Ok(r)
        },
        (
            Column::Tuple { fields: f1, len: l1 },
            Column::Tuple { fields: f2, len: l2 },
        ) => {
            proof {
                lemma_cols_v(f1@);
                lemma_cols_v(f2@);
                lemma_tys_cols(a@->Tuple_fields);
                lemma_tys_cols(b@->Tuple_fields);
                lemma_wf_cols(a@->Tuple_fields, *l1 as int);
                lemma_wf_cols(b@->Tuple_fields, *l2 as int);
            }
            let ghost ma = a@->Tuple_fields;
            let ghost mb = b@->Tuple_fields;
            let n = match l1.checked_add(*l2) {
                Some(n) => n,
                None => {
                    return Err(EvalError::CapacityOverflow);
                },
            };
            let mut out: Vec<Column> = Vec::new();
            let mut i: usize = 0;
            proof {
                assert(tys_cols(ma) == tys_cols(mb));
                assert(ma.len() == mb.len());
            }
            while i < f1.len()
                invariant
                    i <= f1@.len(),
                    f1@.len() == f2@.len(),
                    out@.len() == i,
                    n == *l1 as int + *l2 as int,
                    *a == (Column::Tuple { fields: *f1, len: *l1 }),
                    *b == (Column::Tuple { fields: *f2, len: *l2 }),
                    ma == col_v(*a)->Tuple_fields,
                    mb == col_v(*b)->Tuple_fields,
                    ma.len() == f1@.len(),
                    mb.len() == f2@.len(),
                    forall|j: int| 0 <= j < f1@.len() ==> ma[j] == #[trigger] col_v(f1@[j]),
                    forall|j: int| 0 <= j < f2@.len() ==> mb[j] == #[trigger] col_v(f2@[j]),
                    forall|j: int|
                        0 <= j < ma.len() ==> (#[trigger] ma[j]).wf() && ma[j].len() == *l1 as int
                            && ma[j].ty() == mb[j].ty(),
                    forall|j: int|
                        0 <= j < mb.len() ==> (#[trigger] mb[j]).wf() && mb[j].len() == *l2 as int,
                    forall|j: int|
                        0 <= j < i ==> {
                            &&& col_v(#[trigger] out@[j]).wf()
                            &&& col_v(out@[j]).len() == n
                            &&& col_v(out@[j]).ty() == ma[j].ty()
                            &&& forall|k: int|
                                0 <= k < *l1 as int ==> col_v(out@[j]).at(k) == ma[j].at(k)
                            &&& forall|k: int|
                                0 <= k < *l2 as int ==> col_v(out@[j]).at(*l1 as int + k)
                                    == mb[j].at(k)
                        },
                decreases f1@.len() - i,
            {
                proof {
                    assert(decreases_to!(*a => *f1));
                    assert(decreases_to!(*f1 => f1@));
                    assert(decreases_to!(f1@ => f1@[i as int]));
                    assert(ma[i as int].ty() == mb[i as int].ty());
                }
                let c = match col_concat(&f1[i], &f2[i]) {
                    Ok(c) => c,
                    Err(e) => {
                        return Err(e);
                    },
                };
                out.push(c);
                i = i + 1;
            }
            let r = Column::Tuple { fields: out, len: n };
            proof {
                lemma_cols_v(out@);
                lemma_tys_cols(cols_v(out@));
                lemma_tys_cols(ma);
                assert forall|j: int| 0 <= j < ma.len() implies (#[trigger] cols_v(out@)[j]).wf()
                    && cols_v(out@)[j].len() == n by {
                    assert(cols_v(out@)[j] == col_v(out@[j]));
                }
                lemma_wf_cols(cols_v(out@), n as int);
                assert forall|j: int| 0 <= j < ma.len() implies #[trigger] tys_cols(
                    cols_v(out@),
                )[j] == tys_cols(ma)[j] by {
                    assert(cols_v(out@)[j] == col_v(out@[j]));
                    assert(tys_cols(cols_v(out@))[j] == cols_v(out@)[j].ty());
                    assert(tys_cols(ma)[j] == ma[j].ty());
                }
                assert(tys_cols(cols_v(out@)) =~= tys_cols(ma));
                assert forall|i: int| 0 <= i < a@.len() implies r@.at(i) == a@.at(i) by {
                    lemma_ats_cols(cols_v(out@), i);
                    lemma_ats_cols(ma, i);
                    assert forall|j: int| 0 <= j < ma.len() implies ats_cols(cols_v(out@), i)[j]
                        == ats_cols(ma, i)[j] by {
                        assert(cols_v(out@)[j] == col_v(out@[j]));
                        assert(col_v(out@[j]).at(i) == ma[j].at(i));
                    }
                    assert(ats_cols(cols_v(out@), i) =~= ats_cols(ma, i));
                }
                assert forall|i: int| 0 <= i < b@.len() implies r@.at(a@.len() + i) == b@.at(
                    i,
                ) by {
                    lemma_ats_cols(cols_v(out@), a@.len() + i);
                    lemma_ats_cols(mb, i);
                    assert forall|j: int| 0 <= j < mb.len() implies ats_cols(
                        cols_v(out@),
                        a@.len() + i,
                    )[j] == ats_cols(mb, i)[j] by {
                        assert(cols_v(out@)[j] == col_v(out@[j]));
                        assert(col_v(out@[j]).at(*l1 as int + i) == mb[j].at(i));
                    }
                    assert(ats_cols(cols_v(out@), a@.len() + i) =~= ats_cols(mb, i));
                }
            }
            Ok(r)
        },
        _ => {
            proof {
                assert(false);
            }
            Err(EvalError::TypeMismatch)
        },
    }
}


/// Pushes one scalar onto a column whose shape accepts it, returning the
/// grown column. Fails only when a length counter or an element offset would
/// no longer fit in `usize`.
pub fn col_pushed(c: &Column, item: &Scalar) -> (r: Result<Column, EvalError>)
    requires
        c@.wf(),
        item@.wf(),
        fits(c@, item@),
    ensures
        match r {
            Ok(n) => {
                &&& n@.wf()
                &&& n@.ty() == c@.ty()
                &&& n@.len() == c@.len() + 1
                &&& (n@ is Null <==> c@ is Null)
                &&& (n@ is Nullable <==> c@ is Nullable)
                &&& forall|i: int| 0 <= i < c@.len() ==> n@.at(i) == c@.at(i)
                &&& n@.at(c@.len()) == item@.val()
            },
            Err(e) => e == EvalError::CapacityOverflow,
        },
        never_overflows(c@) ==> r is Ok,
    decreases *c,
{
    match (c, item) {
        (Column::Null { len }, Scalar::Null) => {
            match len.checked_add(1) {
                Some(n) => Ok(Column::Null { len: n }),
                None => Err(EvalError::CapacityOverflow),
            }
        },
        (Column::EmptyArray { len }, Scalar::EmptyArray) => {
            match len.checked_add(1) {
                Some(n) => Ok(Column::EmptyArray { len: n }),
                None => Err(EvalError::CapacityOverflow),
            }
        },
        (Column::Int8(v), Scalar::Int8(x)) => {
            let mut w = vec_slice_copy(v, 0, v.len());
            w.push(*x);
            Ok(Column::Int8(w))
        },
        (Column::Int16(v), Scalar::Int16(x)) => {
            let mut w = vec_slice_copy(v, 0, v.len());
            w.push(*x);
            Ok(Column::Int16(w))
        },
        (Column::UInt8(v), Scalar::UInt8(x)) => {
            let mut w = vec_slice_copy(v, 0, v.len());
            w.push(*x);
            Ok(Column::UInt8(w))
        },
        (Column::UInt16(v), Scalar::UInt16(x)) => {
            let mut w = vec_slice_copy(v, 0, v.len());
            w.push(*x);
            Ok(Column::UInt16(w))
        },
        (Column::Boolean(v), Scalar::Boolean(x)) => {
            let mut w = vec_slice_copy(v, 0, v.len());
            w.push(*x);
            Ok(Column::Boolean(w))
        },
        (Column::String(v), Scalar::String(x)) => {
            let mut w = strings_slice(v, 0, v.len());
            w.push(x.clone());
            let r = Column::String(w);
            proof {
                assert forall|i: int| 0 <= i < c@.len() implies r@.at(i) == c@.at(i) by {
                    assert(r@->String_0[i] == c@->String_0[i]);
                }
                assert(r@->String_0[c@.len()] == item@->String_0);
            }
            Ok(r)
        },
        (Column::Array { array, offsets }, Scalar::Array(col)) => {
            let n1 = array.len();
            let n2 = col.len();
            let end = match n1.checked_add(n2) {
                Some(e) => e,
                None => {
                    return Err(EvalError::CapacityOverflow);
                },
            };
            let child = match col_concat(array, col) {
                Ok(ch) => ch,
                Err(e) => {
                    return Err(e);
                },
            };
            let mut off = vec_slice_copy(offsets, 0, offsets.len());
            off.push((n1, end));
            let r = Column::Array { array: Box::new(child), offsets: off };
            proof {
                let rv = r@;
                let ro = rv->Array_offsets;
                let so = c@->Array_offsets;
                let av = *c@->Array_array;
                let iv = *item@->Array_0;
                let cv = *rv->Array_array;
                assert(cv == col_v(child));
                assert(ro.len() == so.len() + 1);
                assert forall|k: int| 0 <= k < ro.len() implies 0 <= (#[trigger] ro[k]).0
                    <= ro[k].1 <= cv.len() by {
                    if k < so.len() {
                        assert(ro[k] == so[k]);
                        assert(0 <= so[k].0 <= so[k].1 <= av.len());
                    } else {
                        assert(ro[k].0 == av.len());
                        assert(ro[k].1 == av.len() + iv.len());
                    }
                }
                assert(rv.wf());
                assert forall|i: int| 0 <= i < c@.len() implies rv.at(i) == c@.at(i) by {
                    assert(ro[i] == so[i]);
                    assert(0 <= so[i].0 <= so[i].1 <= av.len());
                    let s1 = rv.at(i)->Arr_0;
                    let s2 = c@.at(i)->Arr_0;
                    assert forall|j: int| 0 <= j < s2.len() implies s1[j] == s2[j] by {
                        assert(s1[j] == cv.at(ro[i].0 + j));
                        assert(s2[j] == av.at(so[i].0 + j));
                        assert(0 <= so[i].0 + j < av.len());
                        assert(cv.at(so[i].0 + j) == av.at(so[i].0 + j));
                    }
                    assert(s1 =~= s2);
                }
                let k = c@.len();
                assert(ro[k].0 == av.len() && ro[k].1 == av.len() + iv.len());
                let s1 = rv.at(k)->Arr_0;
                let s2 = item@.val()->Arr_0;
                assert(s2 == iv.rows());
                assert(s1.len() == s2.len());
                assert forall|j: int| 0 <= j < s2.len() implies s1[j] == s2[j] by {
                    assert(s1[j] == cv.at(av.len() + j));
                    assert(cv.at(av.len() + j) == iv.at(j));
                    assert(s2[j] == iv.at(j));
                }
                assert(s1 =~= s2);
            }
            Ok(r)
        },
        (Column::Nullable { column, validity }, Scalar::Null) => {
            let child = match col_push_default(column) {
                Ok(ch) => ch,
                Err(e) => {
                    return Err(e);
                },
            };
            let mut w = vec_slice_copy(validity, 0, validity.len());
            w.push(false);
            let r = Column::Nullable { column: Box::new(child), validity: w };
            proof {
                let cv = *r@->Nullable_column;
                let av = *c@->Nullable_column;
                assert(cv == col_v(child));
                assert forall|i: int| 0 <= i < c@.len() implies r@.at(i) == c@.at(i) by {
                    assert(r@->Nullable_validity[i] == c@->Nullable_validity[i]);
                    assert(cv.at(i) == av.at(i));
                }
                assert(r@->Nullable_validity[c@.len()] == false);
            }
            Ok(r)
        },
        (Column::Nullable { column, validity }, _) => {
            let child = match col_pushed(column, item) {
                Ok(ch) => ch,
                Err(e) => {
                    return Err(e);
                },
            };
            let mut w = vec_slice_copy(validity, 0, validity.len());
            w.push(true);
            let r = Column::Nullable { column: Box::new(child), validity: w };
            proof {
                let cv = *r@->Nullable_column;
                let av = *c@->Nullable_column;
                assert(cv == col_v(child));
                assert forall|i: int| 0 <= i < c@.len() implies r@.at(i) == c@.at(i) by {
                    assert(r@->Nullable_validity[i] == c@->Nullable_validity[i]);
                    assert(cv.at(i) == av.at(i));
                }
                assert(r@->Nullable_validity[c@.len()] == true);
                assert(cv.at(c@.len()) == item@.val());
            }
            Ok(r)
        },
        (Column::Tuple { fields, len }, Scalar::Tuple(ss)) => {
            proof {
                lemma_cols_v(fields@);
                lemma_scs_v(ss@);
                lemma_wf_cols(c@->Tuple_fields, *len as int);
                lemma_fits_seq(c@->Tuple_fields, item@->Tuple_0);
                lemma_wf_scals(item@->Tuple_0);
            }
            let ghost mc = c@->Tuple_fields;
            let ghost ms = item@->Tuple_0;
            let n = match len.checked_add(1) {
                Some(n) => n,
                None => {
                    return Err(EvalError::CapacityOverflow);
                },
            };
            let mut out: Vec<Column> = Vec::new();
            let mut i: usize = 0;
            while i < fields.len()
                invariant
                    i <= fields@.len(),
                    fields@.len() == ss@.len(),
                    out@.len() == i,
                    n == *len as int + 1,
                    *c == (Column::Tuple { fields: *fields, len: *len }),
                    *item == Scalar::Tuple(*ss),
                    mc == col_v(*c)->Tuple_fields,
                    ms == sc_v(*item)->Tuple_0,
                    mc.len() == fields@.len(),
                    ms.len() == ss@.len(),
                    forall|j: int| 0 <= j < fields@.len() ==> mc[j] == #[trigger] col_v(fields@[j]),
                    forall|j: int| 0 <= j < ss@.len() ==> ms[j] == #[trigger] sc_v(ss@[j]),
                    forall|j: int|
                        0 <= j < mc.len() ==> (#[trigger] mc[j]).wf() && mc[j].len() == *len as int
                            && fits(mc[j], ms[j]),
                    forall|j: int| 0 <= j < ms.len() ==> (#[trigger] ms[j]).wf(),
                    forall|j: int|
                        0 <= j < i ==> {
                            &&& col_v(#[trigger] out@[j]).wf()
                            &&& col_v(out@[j]).len() == n
                            &&& col_v(out@[j]).ty() == mc[j].ty()
                            &&& forall|k: int|
                                0 <= k < *len as int ==> col_v(out@[j]).at(k) == mc[j].at(k)
                            &&& col_v(out@[j]).at(*len as int) == ms[j].val()
                        },
                decreases fields@.len() - i,
            {
                proof {
                    assert(decreases_to!(*c => *fields));
                    assert(decreases_to!(*fields => fields@));
                    assert(decreases_to!(fields@ => fields@[i as int]));
                }
                let nc = match col_pushed(&fields[i], &ss[i]) {
                    Ok(nc) => nc,
                    Err(e) => {
                        return Err(e);
                    },
                };
                out.push(nc);
                i = i + 1;
            }
            let r = Column::Tuple { fields: out, len: n };
            proof {
                lemma_cols_v(out@);
                lemma_tys_cols(cols_v(out@));
                lemma_tys_cols(mc);
                assert forall|j: int| 0 <= j < mc.len() implies (#[trigger] cols_v(out@)[j]).wf()
                    && cols_v(out@)[j].len() == n by {
                    assert(cols_v(out@)[j] == col_v(out@[j]));
                }
                lemma_wf_cols(cols_v(out@), n as int);
                assert forall|j: int| 0 <= j < mc.len() implies #[trigger] tys_cols(
                    cols_v(out@),
                )[j] == tys_cols(mc)[j] by {
                    assert(cols_v(out@)[j] == col_v(out@[j]));
                    assert(tys_cols(cols_v(out@))[j] == cols_v(out@)[j].ty());
                    assert(tys_cols(mc)[j] == mc[j].ty());
                }
                assert(tys_cols(cols_v(out@)) =~= tys_cols(mc));
                assert forall|i: int| 0 <= i < c@.len() implies r@.at(i) == c@.at(i) by {
                    lemma_ats_cols(cols_v(out@), i);
                    lemma_ats_cols(mc, i);
                    assert forall|j: int| 0 <= j < mc.len() implies ats_cols(cols_v(out@), i)[j]
                        == ats_cols(mc, i)[j] by {
                        assert(cols_v(out@)[j] == col_v(out@[j]));
                        assert(col_v(out@[j]).at(i) == mc[j].at(i));
                    }
                    assert(ats_cols(cols_v(out@), i) =~= ats_cols(mc, i));
                }
                lemma_ats_cols(cols_v(out@), *len as int);
                lemma_vals_scals(ms);
                assert forall|j: int| 0 <= j < mc.len() implies ats_cols(
                    cols_v(out@),
                    *len as int,
                )[j] == vals_scals(ms)[j] by {
                    assert(cols_v(out@)[j] == col_v(out@[j]));
                    assert(col_v(out@[j]).at(*len as int) == ms[j].val());
                }
                assert(ats_cols(cols_v(out@), *len as int) =~= vals_scals(ms));
            }
            Ok(r)
        },
        _ => {
            proof {
                assert(false);
            }
            Err(EvalError::TypeMismatch)
        },
    }
}

/// Pushes the default value of the column's data type: zero, `false`, the
/// empty string or array, a null row for a nullable column, and a tuple of
/// defaults.
pub fn col_push_default(c: &Column) -> (r: Result<Column, EvalError>)
    requires
        c@.wf(),
    ensures
        match r {
            Ok(n) => {
                &&& n@.wf()
                &&& n@.ty() == c@.ty()
                &&& n@.len() == c@.len() + 1
                &&& (n@ is Null <==> c@ is Null)
                &&& (n@ is Nullable <==> c@ is Nullable)
                &&& forall|i: int| 0 <= i < c@.len() ==> n@.at(i) == c@.at(i)
                &&& n@.at(c@.len()) == default_val(c@.ty())
            },
            Err(e) => e == EvalError::CapacityOverflow,
        },
        never_overflows(c@) ==> r is Ok,
    decreases *c,
{
    match c {
        Column::Null { len } => {
            match len.checked_add(1) {
                Some(n) => Ok(Column::Null { len: n }),
                None => Err(EvalError::CapacityOverflow),
            }
        },
        Column::EmptyArray { len } => {
            match len.checked_add(1) {
                Some(n) => Ok(Column::EmptyArray { len: n }),
                None => Err(EvalError::CapacityOverflow),
            }
        },
        Column::Int8(v) => {
            let mut w = vec_slice_copy(v, 0, v.len());
            w.push(0);
            Ok(Column::Int8(w))
        },
        Column::Int16(v) => {
            let mut w = vec_slice_copy(v, 0, v.len());
            w.push(0);
            Ok(Column::Int16(w))
        },
        Column::UInt8(v) => {
            let mut w = vec_slice_copy(v, 0, v.len());
            w.push(0);
            Ok(Column::UInt8(w))
        },
        Column::UInt16(v) => {
            let mut w = vec_slice_copy(v, 0, v.len());
            w.push(0);
            Ok(Column::UInt16(w))
        },
        Column::Boolean(v) => {
            let mut w = vec_slice_copy(v, 0, v.len());
            w.push(false);
            Ok(Column::Boolean(w))
        },
        Column::String(v) => {
            let mut w = strings_slice(v, 0, v.len());
            w.push(String::new());
            let r = Column::String(w);
            proof {
                assert forall|i: int| 0 <= i < c@.len() implies r@.at(i) == c@.at(i) by {
                    assert(r@->String_0[i] == c@->String_0[i]);
                }
                assert(r@->String_0[c@.len()] =~= Seq::<char>::empty());
            }
            Ok(r)
        },
        Column::Array { array, offsets } => {
            let mut off = vec_slice_copy(offsets, 0, offsets.len());
            off.push((0, 0));
            let r = Column::Array { array: Box::new((**array).clone()), offsets: off };
            proof {
                let rv = r@;
                let ro = rv->Array_offsets;
                let so = c@->Array_offsets;
                let av = *c@->Array_array;
                assert(*rv->Array_array == av);
                assert forall|k: int| 0 <= k < ro.len() implies 0 <= (#[trigger] ro[k]).0
                    <= ro[k].1 <= av.len() by {
                    if k < so.len() {
                        assert(ro[k] == so[k]);
                        assert(0 <= so[k].0 <= so[k].1 <= av.len());
                    }
                }
                assert(rv.wf());
                assert forall|i: int| 0 <= i < c@.len() implies rv.at(i) == c@.at(i) by {
                    assert(ro[i] == so[i]);
                    assert(rv.at(i)->Arr_0 =~= c@.at(i)->Arr_0);
                }
                assert(rv.at(c@.len())->Arr_0 =~= Seq::<Val>::empty());
            }
            Ok(r)
        },
        Column::Nullable { column, validity } => {
            let child = match col_push_default(column) {
                Ok(ch) => ch,
                Err(e) => {
                    return Err(e);
                },
            };
            let mut w = vec_slice_copy(validity, 0, validity.len());
            w.push(false);
            let r = Column::Nullable { column: Box::new(child), validity: w };
            proof {
                let cv = *r@->Nullable_column;
                let av = *c@->Nullable_column;
                assert(cv == col_v(child));
                assert forall|i: int| 0 <= i < c@.len() implies r@.at(i) == c@.at(i) by {
                    assert(r@->Nullable_validity[i] == c@->Nullable_validity[i]);
                    assert(cv.at(i) == av.at(i));
                }
                assert(r@->Nullable_validity[c@.len()] == false);
            }
            Ok(r)
        },
        Column::Tuple { fields, len } => {
            proof {
                lemma_cols_v(fields@);
                lemma_wf_cols(c@->Tuple_fields, *len as int);
            }
            let ghost mc = c@->Tuple_fields;
            let n = match len.checked_add(1) {
                Some(n) => n,
                None => {
                    return Err(EvalError::CapacityOverflow);
                },
            };
            let mut out: Vec<Column> = Vec::new();
            let mut i: usize = 0;
            while i < fields.len()
                invariant
                    i <= fields@.len(),
                    out@.len() == i,
                    n == *len as int + 1,
                    *c == (Column::Tuple { fields: *fields, len: *len }),
                    mc == col_v(*c)->Tuple_fields,
                    mc.len() == fields@.len(),
                    forall|j: int| 0 <= j < fields@.len() ==> mc[j] == #[trigger] col_v(fields@[j]),
                    forall|j: int|
                        0 <= j < mc.len() ==> (#[trigger] mc[j]).wf() && mc[j].len()
                            == *len as int,
                    forall|j: int|
                        0 <= j < i ==> {
                            &&& col_v(#[trigger] out@[j]).wf()
                            &&& col_v(out@[j]).len() == n
                            &&& col_v(out@[j]).ty() == mc[j].ty()
                            &&& forall|k: int|
                                0 <= k < *len as int ==> col_v(out@[j]).at(k) == mc[j].at(k)
                            &&& col_v(out@[j]).at(*len as int) == default_val(mc[j].ty())
                        },
                decreases fields@.len() - i,
            {
                proof {
                    assert(decreases_to!(*c => *fields));
                    assert(decreases_to!(*fields => fields@));
                    assert(decreases_to!(fields@ => fields@[i as int]));
                }
                let nc = match col_push_default(&fields[i]) {
                    Ok(nc) => nc,
                    Err(e) => {
                        return Err(e);
                    },
                };
                out.push(nc);
                i = i + 1;
            }
            let r = Column::Tuple { fields: out, len: n };
            proof {
                lemma_cols_v(out@);
                lemma_tys_cols(cols_v(out@));
                lemma_tys_cols(mc);
                assert forall|j: int| 0 <= j < mc.len() implies (#[trigger] cols_v(out@)[j]).wf()
                    && cols_v(out@)[j].len() == n by {
                    assert(cols_v(out@)[j] == col_v(out@[j]));
                }
                lemma_wf_cols(cols_v(out@), n as int);
                assert forall|j: int| 0 <= j < mc.len() implies #[trigger] tys_cols(
                    cols_v(out@),
                )[j] == tys_cols(mc)[j] by {
                    assert(cols_v(out@)[j] == col_v(out@[j]));
                    assert(tys_cols(cols_v(out@))[j] == cols_v(out@)[j].ty());
                    assert(tys_cols(mc)[j] == mc[j].ty());
                }
                assert(tys_cols(cols_v(out@)) =~= tys_cols(mc));
                assert forall|i: int| 0 <= i < c@.len() implies r@.at(i) == c@.at(i) by {
                    lemma_ats_cols(cols_v(out@), i);
                    lemma_ats_cols(mc, i);
                    assert forall|j: int| 0 <= j < mc.len() implies ats_cols(cols_v(out@), i)[j]
                        == ats_cols(mc, i)[j] by {
                        assert(cols_v(out@)[j] == col_v(out@[j]));
                        assert(col_v(out@[j]).at(i) == mc[j].at(i));
                    }
                    assert(ats_cols(cols_v(out@), i) =~= ats_cols(mc, i));
                }
                lemma_ats_cols(cols_v(out@), *len as int);
                lemma_default_vals(tys_cols(mc));
                assert forall|j: int| 0 <= j < mc.len() implies ats_cols(
                    cols_v(out@),
                    *len as int,
                )[j] == default_vals(tys_cols(mc))[j] by {
                    assert(cols_v(out@)[j] == col_v(out@[j]));
                    assert(col_v(out@[j]).at(*len as int) == default_val(mc[j].ty()));
                    assert(tys_cols(mc)[j] == mc[j].ty());
                }
                assert(ats_cols(cols_v(out@), *len as int) =~= default_vals(tys_cols(mc)));
            }
            Ok(r)
        },
    }
}


/// An empty column of the given data type, used as the seed of a builder.
fn empty_column(ty: &DataType, capacity: usize) -> (r: Column)
    requires
        generic_free(ty@),
        wf_ty(ty@),
    ensures
        r@.wf(),
        r@.len() == 0,
        r@.ty() == ty@,
        r@ is Null <==> ty@ is Null,
        r@ is Nullable <==> ty@ is Nullable,
    decreases *ty,
{
    match ty {
        DataType::Null => Column::Null { len: 0 },
        DataType::EmptyArray => Column::EmptyArray { len: 0 },
        DataType::Boolean => Column::Boolean(Vec::with_capacity(capacity)),
        DataType::String => Column::String(Vec::with_capacity(capacity)),
        DataType::UInt8 => Column::UInt8(Vec::with_capacity(capacity)),
        DataType::UInt16 => Column::UInt16(Vec::with_capacity(capacity)),
        DataType::Int8 => Column::Int8(Vec::with_capacity(capacity)),
        DataType::Int16 => Column::Int16(Vec::with_capacity(capacity)),
        DataType::Nullable(inner) => {
            let r = Column::Nullable {
                column: Box::new(empty_column(inner, capacity)),
                validity: Vec::with_capacity(capacity),
            };
            r
        },
        DataType::Array(inner) => {
            let r = Column::Array {
                array: Box::new(empty_column(inner, 0)),
                offsets: Vec::with_capacity(capacity),
            };
            r
        },
        DataType::Tuple(fields) => {
            proof {
                crate::types::lemma_tys_of(fields@);
                crate::types::lemma_wf_tys(ty@->Tuple_0);
            }
            let ghost mt = ty@->Tuple_0;
            let mut out: Vec<Column> = Vec::new();
            let mut i: usize = 0;
            while i < fields.len()
                invariant
                    i <= fields@.len(),
                    out@.len() == i,
                    *ty == DataType::Tuple(*fields),
                    mt == crate::types::ty_of(*ty)->Tuple_0,
                    mt.len() == fields@.len(),
                    forall|j: int|
                        0 <= j < fields@.len() ==> mt[j] == crate::types::ty_of(
                            #[trigger] fields@[j],
                        ),
                    forall|j: int|
                        0 <= j < fields@.len() ==> generic_free(#[trigger] mt[j]) && wf_ty(mt[j]),
                    forall|j: int|
                        0 <= j < i ==> {
                            &&& col_v(#[trigger] out@[j]).wf()
                            &&& col_v(out@[j]).len() == 0
                            &&& col_v(out@[j]).ty() == mt[j]
                        },
                decreases fields@.len() - i,
            {
                proof {
                    assert(decreases_to!(*ty => *fields));
                    assert(decreases_to!(*fields => fields@));
                    assert(decreases_to!(fields@ => fields@[i as int]));
                }
                out.push(empty_column(&fields[i], capacity));
                i = i + 1;
            }
            let r = Column::Tuple { fields: out, len: 0 };
            proof {
                lemma_cols_v(out@);
                lemma_tys_cols(cols_v(out@));
                assert forall|j: int| 0 <= j < mt.len() implies (#[trigger] cols_v(out@)[j]).wf()
                    && cols_v(out@)[j].len() == 0 by {
                    assert(cols_v(out@)[j] == col_v(out@[j]));
                }
                lemma_wf_cols(cols_v(out@), 0);
                assert forall|j: int| 0 <= j < mt.len() implies #[trigger] tys_cols(
                    cols_v(out@),
                )[j] == mt[j] by {
                    assert(cols_v(out@)[j] == col_v(out@[j]));
                    assert(tys_cols(cols_v(out@))[j] == cols_v(out@)[j].ty());
                }
                assert(tys_cols(cols_v(out@)) =~= mt);
            }
            r
        },
        DataType::Generic(_) => {
            proof {
                assert(false);
            }
            Column::Null { len: 0 }
        },
    }
}

impl Scalar {
    /// A column of `n` rows, each equal to this scalar.
    pub fn repeat(&self, n: usize) -> (r: ColumnBuilder)
        requires
            self@.wf(),
        ensures
            r@.wf(),
            r@.len() == n,
            r@.ty() == self@.ty(),
            forall|i: int| 0 <= i < n ==> r@.at(i) == self@.val(),
    {
        ColumnBuilder { col: self.repeat_col(n) }
    }

    /// A column of `n` rows, each equal to this scalar.
    fn repeat_col(&self, n: usize) -> (r: Column)
        requires
            self@.wf(),
        ensures
            r@.wf(),
            r@.len() == n,
            r@.ty() == self@.ty(),
            forall|i: int| 0 <= i < n ==> r@.at(i) == self@.val(),
        decreases *self,
    {
        match self {
            Scalar::Null => Column::Null { len: n },
            Scalar::EmptyArray => Column::EmptyArray { len: n },
            Scalar::Int8(x) => Column::Int8(vec_repeat_copy(*x, n)),
            Scalar::Int16(x) => Column::Int16(vec_repeat_copy(*x, n)),
            Scalar::UInt8(x) => Column::UInt8(vec_repeat_copy(*x, n)),
            Scalar::UInt16(x) => Column::UInt16(vec_repeat_copy(*x, n)),
            Scalar::Boolean(x) => Column::Boolean(vec_repeat_copy(*x, n)),
            Scalar::String(x) => {
                let mut w: Vec<String> = Vec::with_capacity(n);
                let mut i: usize = 0;
                while i < n
                    invariant
                        i <= n,
                        w@.len() == i,
                        forall|j: int| 0 <= j < i ==> #[trigger] w@[j] == *x,
                    decreases n - i,
                {
                    w.push(x.clone());
                    i = i + 1;
                }
                Column::String(w)
            },
            Scalar::Array(col) => {
                let m = col.len();
                let mut off: Vec<(usize, usize)> = Vec::with_capacity(n);
                let mut i: usize = 0;
                while i < n
                    invariant
                        i <= n,
                        off@.len() == i,
                        forall|j: int| 0 <= j < i ==> #[trigger] off@[j] == (0usize, m),
                    decreases n - i,
                {
                    off.push((0, m));
                    i = i + 1;
                }
                let r = Column::Array { array: Box::new(col.clone()), offsets: off };
                proof {
                    let rv = r@;
                    let ro = rv->Array_offsets;
                    let av = *rv->Array_array;
                    assert(av == col@);
                    assert forall|k: int| 0 <= k < ro.len() implies 0 <= (#[trigger] ro[k]).0
                        <= ro[k].1 <= av.len() by {
                        assert(off@[k] == (0usize, m));
                    }
                    assert(rv.wf());
                    assert forall|i: int| 0 <= i < n implies rv.at(i) == self@.val() by {
                        assert(off@[i] == (0usize, m));
                        assert(ro[i].0 == 0 && ro[i].1 == m as int);
                        assert(rv.at(i)->Arr_0 =~= col@.rows());
                    }
                }
                r
            },
            Scalar::Tuple(ss) => {
                proof {
                    lemma_scs_v(ss@);
                    lemma_wf_scals(self@->Tuple_0);
                    lemma_tys_scals(self@->Tuple_0);
                }
                let ghost ms = self@->Tuple_0;
                let mut out: Vec<Column> = Vec::new();
                let mut i: usize = 0;
                while i < ss.len()
                    invariant
                        i <= ss@.len(),
                        out@.len() == i,
                        *self == Scalar::Tuple(*ss),
                        ms == sc_v(*self)->Tuple_0,
                        ms.len() == ss@.len(),
                        forall|j: int| 0 <= j < ss@.len() ==> ms[j] == #[trigger] sc_v(ss@[j]),
                        forall|j: int| 0 <= j < ms.len() ==> (#[trigger] ms[j]).wf(),
                        forall|j: int|
                            0 <= j < i ==> {
                                &&& col_v(#[trigger] out@[j]).wf()
                                &&& col_v(out@[j]).len() == n
                                &&& col_v(out@[j]).ty() == ms[j].ty()
                                &&& forall|k: int|
                                    0 <= k < n ==> col_v(out@[j]).at(k) == ms[j].val()
                            },
                    decreases ss@.len() - i,
                {
                    proof {
                        assert(decreases_to!(*self => *ss));
                        assert(decreases_to!(*ss => ss@));
                        assert(decreases_to!(ss@ => ss@[i as int]));
                    }
                    out.push(ss[i].repeat_col(n));
                    i = i + 1;
                }
                let r = Column::Tuple { fields: out, len: n };
                proof {
                    lemma_cols_v(out@);
                    lemma_tys_cols(cols_v(out@));
                    lemma_tys_scals(ms);
                    assert forall|j: int| 0 <= j < ms.len() implies (#[trigger] cols_v(
                        out@,
                    )[j]).wf() && cols_v(out@)[j].len() == n by {
                        assert(cols_v(out@)[j] == col_v(out@[j]));
                    }
                    lemma_wf_cols(cols_v(out@), n as int);
                    assert forall|j: int| 0 <= j < ms.len() implies #[trigger] tys_cols(
                        cols_v(out@),
                    )[j] == tys_scals(ms)[j] by {
                        assert(cols_v(out@)[j] == col_v(out@[j]));
                        assert(tys_cols(cols_v(out@))[j] == cols_v(out@)[j].ty());
                        assert(tys_scals(ms)[j] == ms[j].ty());
                    }
                    assert(tys_cols(cols_v(out@)) =~= tys_scals(ms));
                    assert forall|i: int| 0 <= i < n implies r@.at(i) == self@.val() by {
                        lemma_ats_cols(cols_v(out@), i);
                        lemma_vals_scals(ms);
                        assert forall|j: int| 0 <= j < ms.len() implies ats_cols(
                            cols_v(out@),
                            i,
                        )[j] == vals_scals(ms)[j] by {
                            assert(cols_v(out@)[j] == col_v(out@[j]));
                            assert(col_v(out@[j]).at(i) == ms[j].val());
                        }
                        assert(ats_cols(cols_v(out@), i) =~= vals_scals(ms));
                    }
                }
                r
            },
        }
    }
}

/// A vector holding `n` copies of `x`.
fn vec_repeat_copy<T: Copy>(x: T, n: usize) -> (r: Vec<T>)
    ensures
        r@.len() == n,
        forall|j: int| 0 <= j < n ==> #[trigger] r@[j] == x,
{
    let mut r: Vec<T> = Vec::with_capacity(n);
    let mut i: usize = 0;
    while i < n
        invariant
            i <= n,
            r@.len() == i,
            forall|j: int| 0 <= j < i ==> #[trigger] r@[j] == x,
        decreases n - i,
    {
        r.push(x);
        i = i + 1;
    }
    r
}

/// An incremental, mutable constructor of a column.
pub struct ColumnBuilder {
    /// The column built so far.
    pub col: Column,
}

impl View for ColumnBuilder {
    type V = ColV;

    open spec fn view(&self) -> ColV {
        self.col@
    }
}

impl ColumnBuilder {
    /// A builder that starts from an existing column.
    pub fn from_column(col: Column) -> (r: ColumnBuilder)
        ensures
            r@ == col@,
    {
        ColumnBuilder { col }
    }

    /// The number of rows built so far.
    pub fn len(&self) -> (r: usize)
        requires
            self@.wf(),
        ensures
            r as int == self@.len(),
    {
        self.col.len()
    }

    /// An empty builder of the right shape for the data type `ty`; the
    /// capacity is only an allocation hint and never observable.
    pub fn with_capacity(ty: &DataType, capacity: usize) -> (r: ColumnBuilder)
        requires
            generic_free(ty@),
            wf_ty(ty@),
        ensures
            r@.wf(),
            r@.len() == 0,
            r@.ty() == ty@,
            r@ is Null <==> ty@ is Null,
            r@ is Nullable <==> ty@ is Nullable,
    {
        ColumnBuilder { col: empty_column(ty, capacity) }
    }

    /// Pushes one scalar. Fails with `TypeMismatch`, leaving the builder
    /// unchanged, exactly when the scalar does not fit the builder's shape;
    /// fails with `CapacityOverflow` when a length counter would overflow.
    pub fn push(&mut self, item: &Scalar) -> (r: Result<(), EvalError>)
        requires
            old(self)@.wf(),
            item@.wf(),
        ensures
            match r {
                Ok(()) => {
                    &&& fits(old(self)@, item@)
                    &&& final(self)@.wf()
                    &&& final(self)@.ty() == old(self)@.ty()
                    &&& final(self)@.len() == old(self)@.len() + 1
                    &&& forall|i: int|
                        0 <= i < old(self)@.len() ==> final(self)@.at(i) == old(self)@.at(i)
                    &&& final(self)@.at(old(self)@.len()) == item@.val()
                },
                Err(e) => {
                    &&& final(self)@ == old(self)@
                    &&& (e == EvalError::TypeMismatch || e == EvalError::CapacityOverflow)
                    &&& (e == EvalError::TypeMismatch <==> !fits(old(self)@, item@))
                },
            },
            never_overflows(old(self)@) && fits(old(self)@, item@) ==> r is Ok,
    {
        if !self.col.accepts(item) {
            return Err(EvalError::TypeMismatch);
        }
        match col_pushed(&self.col, item) {
            Ok(n) => {
                self.col = n;
                Ok(())
            },
            Err(e) => Err(e),
        }
    }

    /// Pushes the default value of the builder's data type.
    pub fn push_default(&mut self) -> (r: Result<(), EvalError>)
        requires
            old(self)@.wf(),
        ensures
            match r {
                Ok(()) => {
                    &&& final(self)@.wf()
                    &&& final(self)@.ty() == old(self)@.ty()
                    &&& final(self)@.len() == old(self)@.len() + 1
                    &&& forall|i: int|
                        0 <= i < old(self)@.len() ==> final(self)@.at(i) == old(self)@.at(i)
                    &&& final(self)@.at(old(self)@.len()) == default_val(old(self)@.ty())
                },
                Err(e) => {
                    &&& final(self)@ == old(self)@
                    &&& e == EvalError::CapacityOverflow
                },
            },
            never_overflows(old(self)@) ==> r is Ok,
    {
        match col_push_default(&self.col) {
            Ok(n) => {
                self.col = n;
                Ok(())
            },
            Err(e) => Err(e),
        }
    }

    /// Appends every row of `other`, in order. Fails with `TypeMismatch`,
    /// leaving the builder unchanged, exactly when the two builders store
    /// different data types.
    pub fn append(&mut self, other: &ColumnBuilder) -> (r: Result<(), EvalError>)
        requires
            old(self)@.wf(),
            other@.wf(),
        ensures
            match r {
                Ok(()) => {
                    &&& old(self)@.ty() == other@.ty()
                    &&& final(self)@.wf()
                    &&& final(self)@.ty() == old(self)@.ty()
                    &&& final(self)@.len() == old(self)@.len() + other@.len()
                    &&& forall|i: int|
                        0 <= i < old(self)@.len() ==> final(self)@.at(i) == old(self)@.at(i)
                    &&& forall|i: int|
                        0 <= i < other@.len() ==> final(self)@.at(old(self)@.len() + i)
                            == other@.at(i)
                },
                Err(e) => {
                    &&& final(self)@ == old(self)@
                    &&& (e == EvalError::TypeMismatch || e == EvalError::CapacityOverflow)
                    &&& (e == EvalError::TypeMismatch <==> old(self)@.ty() != other@.ty())
                },
            },
            never_overflows(old(self)@) && old(self)@.ty() == other@.ty() ==> r is Ok,
    {
        if !self.col.same_ty(&other.col) {
            return Err(EvalError::TypeMismatch);
        }
        match col_concat(&self.col, &other.col) {
            Ok(n) => {
                self.col = n;
                Ok(())
            },
            Err(e) => Err(e),
        }
    }

    /// Finalizes the builder into a column.
    pub fn build(self) -> (r: Column)
        ensures
            r@ == self@,
    {
        self.col
    }

    /// Finalizes a builder of exactly one row into that row's scalar.
    pub fn build_scalar(self) -> (r: Scalar)
        requires
            self@.wf(),
            self@.len() == 1,
        ensures
            r@.val() == self@.at(0),
            r@.wf(),
    {
        self.col.index(0)
    }
}


impl Value {
    /// Structural well-formedness of the carried scalar or column.
    pub open spec fn wf(self) -> bool {
        match self {
            Value::Scalar(s) => sc_v(s).wf(),
            Value::Column(c) => col_v(c).wf(),
        }
    }

    /// Row preservation: a scalar, or a column of exactly `n` rows.
    pub open spec fn rows_ok(self, n: int) -> bool {
        match self {
            Value::Scalar(_) => true,
            Value::Column(c) => col_v(c).len() == n,
        }
    }
}


impl Clone for Value {
    /// A clone has the same structural model as the original.
    fn clone(&self) -> (r: Self)
        ensures
            r matches Value::Scalar(s) ==> self matches Value::Scalar(o) && sc_v(s) == sc_v(*o),
            r matches Value::Column(c) ==> self matches Value::Column(o) && col_v(c) == col_v(*o),
            r is Scalar <==> self is Scalar,
    {
        match self {
            Value::Scalar(s) => Value::Scalar(s.clone()),
            Value::Column(c) => Value::Column(c.clone()),
        }
    }
}


/// Copies a validity mask.
pub fn vec_bools(v: &Vec<bool>) -> (r: Vec<bool>)
    ensures
        r@ == v@,
{
    let r = vec_slice_copy(v, 0, v.len());
    proof {
        assert(r@ =~= v@);
    }
    r
}

/// Copies a vector of element ranges.
pub fn vec_offsets(v: &Vec<(usize, usize)>) -> (r: Vec<(usize, usize)>)
    ensures
        r@ == v@,
{
    let r = vec_slice_copy(v, 0, v.len());
    proof {
        assert(r@ =~= v@);
    }
    r
}


/// Semantic typing of values: which values inhabit which data type. A null
/// value inhabits `Null` and every nullable type; arrays and tuples are
/// typed elementwise.
pub open spec fn val_has_ty(v: Val, t: Ty) -> bool
    decreases t, 1int, 0int,
{
    match (v, t) {
        (Val::Null, Ty::Null) => true,
        (v2, Ty::Nullable(d)) => v2 == Val::Null || val_has_ty(v2, *d),
        (Val::Bool(_), Ty::Boolean) => true,
        (Val::Str(_), Ty::String) => true,
        (Val::UInt8(_), Ty::UInt8) => true,
        (Val::UInt16(_), Ty::UInt16) => true,
        (Val::Int8(_), Ty::Int8) => true,
        (Val::Int16(_), Ty::Int16) => true,
        (Val::Arr(vs), Ty::EmptyArray) => vs.len() == 0,
        (Val::Arr(vs), Ty::Array(d)) => vals_have_ty(vs, *d),
        (Val::Tup(vs), Ty::Tuple(ts)) => vals_have_tys(vs, ts),
        _ => false,
    }
}

/// Every value of the sequence inhabits the type `t`.
pub open spec fn vals_have_ty(vs: Seq<Val>, t: Ty) -> bool
    decreases t, 2int, vs.len(),
{
    if vs.len() == 0 {
        true
    } else {
        vals_have_ty(vs.subrange(0, vs.len() - 1), t) && val_has_ty(vs[vs.len() - 1], t)
    }
}

/// The values inhabit the types, elementwise, with equal lengths.
pub open spec fn vals_have_tys(vs: Seq<Val>, ts: Seq<Ty>) -> bool
    decreases ts, 2int, vs.len(),
{
    if vs.len() != ts.len() {
        false
    } else if ts.len() == 0 {
        true
    } else {
        vals_have_tys(vs.subrange(0, vs.len() - 1), ts.subrange(0, ts.len() - 1)) && val_has_ty(
            vs[vs.len() - 1],
            ts[ts.len() - 1],
        )
    }
}

/// `vals_have_ty` holds exactly when it holds of every element.
pub broadcast proof fn lemma_vals_have_ty(vs: Seq<Val>, t: Ty)
    ensures
        #[trigger] vals_have_ty(vs, t) <==> (forall|i: int|
            0 <= i < vs.len() ==> val_has_ty(#[trigger] vs[i], t)),
    decreases vs.len(),
{
    if vs.len() > 0 {
        lemma_vals_have_ty(vs.subrange(0, vs.len() - 1), t);
        assert(forall|i: int| 0 <= i < vs.len() - 1 ==> vs.subrange(0, vs.len() - 1)[i] == vs[i]);
    }
}

/// `vals_have_tys` holds exactly when the lengths agree and every element
/// inhabits its type.
pub broadcast proof fn lemma_vals_have_tys(vs: Seq<Val>, ts: Seq<Ty>)
    ensures
        #[trigger] vals_have_tys(vs, ts) <==> (vs.len() == ts.len() && forall|i: int|
            0 <= i < vs.len() ==> val_has_ty(#[trigger] vs[i], ts[i])),
    decreases vs.len(),
{
    if vs.len() == ts.len() && vs.len() > 0 {
        lemma_vals_have_tys(vs.subrange(0, vs.len() - 1), ts.subrange(0, ts.len() - 1));
        assert(forall|i: int| 0 <= i < vs.len() - 1 ==> vs.subrange(0, vs.len() - 1)[i] == vs[i]);
        assert(forall|i: int| 0 <= i < ts.len() - 1 ==> ts.subrange(0, ts.len() - 1)[i] == ts[i]);
    }
}

/// Every row of a well-formed column inhabits the column's data type.
pub proof fn lemma_rows_typed(c: ColV, i: int)
    requires
        c.wf(),
        0 <= i < c.len(),
    ensures
        val_has_ty(c.at(i), c.ty()),
    decreases c,
{
    match c {
        ColV::Array { array, offsets } => {
            let o = offsets[i];
            assert(0 <= o.0 <= o.1 <= array.len());
            let vs = c.at(i)->Arr_0;
            lemma_vals_have_ty(vs, array.ty());
            assert forall|j: int| 0 <= j < vs.len() implies val_has_ty(
                #[trigger] vs[j],
                array.ty(),
            ) by {
                assert(vs[j] == array.at(o.0 + j));
                lemma_rows_typed(*array, o.0 + j);
            }
        },
        ColV::Nullable { column, validity } => {
            if validity[i] {
                lemma_rows_typed(*column, i);
            }
        },
        ColV::Tuple { fields, len } => {
            lemma_wf_cols(fields, len);
            lemma_ats_cols(fields, i);
            lemma_tys_cols(fields);
            let vs = ats_cols(fields, i);
            let ts = tys_cols(fields);
            lemma_vals_have_tys(vs, ts);
            assert forall|j: int| 0 <= j < vs.len() implies val_has_ty(
                #[trigger] vs[j],
                ts[j],
            ) by {
                assert(vs[j] == fields[j].at(i));
                assert(ts[j] == fields[j].ty());
                lemma_rows_typed(fields[j], i);
            }
        },
        _ => {},
    }
}

/// A well-formed scalar's value inhabits the scalar's data type.
pub proof fn lemma_scal_typed(s: ScalV)
    requires
        s.wf(),
    ensures
        val_has_ty(s.val(), s.ty()),
    decreases s,
{
    match s {
        ScalV::Array(c) => {
            let vs = s.val()->Arr_0;
            lemma_vals_have_ty(vs, c.ty());
            assert forall|j: int| 0 <= j < vs.len() implies val_has_ty(
                #[trigger] vs[j],
                c.ty(),
            ) by {
                assert(vs[j] == c.at(j));
                lemma_rows_typed(*c, j);
            }
        },
        ScalV::Tuple(fields) => {
            lemma_wf_scals(fields);
            lemma_vals_scals(fields);
            lemma_tys_scals(fields);
            let vs = vals_scals(fields);
            let ts = tys_scals(fields);
            lemma_vals_have_tys(vs, ts);
            assert forall|j: int| 0 <= j < vs.len() implies val_has_ty(
                #[trigger] vs[j],
                ts[j],
            ) by {
                assert(vs[j] == fields[j].val());
                assert(ts[j] == fields[j].ty());
                lemma_scal_typed(fields[j]);
            }
        },
        _ => {},
    }
}


impl Column {
    /// Every row of this column, in order, as owned scalars.
    pub fn iter(&self) -> (r: Vec<Scalar>)
        requires
            self@.wf(),
        ensures
            r@.len() == self@.len(),
            forall|i: int|
                0 <= i < self@.len() ==> sc_v(#[trigger] r@[i]).val() == self@.at(i) && sc_v(
                    r@[i],
                ).wf(),
    {
        let n = self.len();
        let mut r: Vec<Scalar> = Vec::new();
        let mut i: usize = 0;
        while i < n
            invariant
                i <= n,
                self@.wf(),
                n as int == self@.len(),
                r@.len() == i,
                forall|j: int|
                    0 <= j < i ==> sc_v(#[trigger] r@[j]).val() == self@.at(j) && sc_v(r@[j]).wf(),
            decreases n - i,
        {
            r.push(self.index(i));
            i = i + 1;
        }
        r
    }

    /// Whether this column is structurally well-formed; the executable
    /// mirror of `ColV::wf`.
    pub fn check_wf(&self) -> (r: bool)
        ensures
            r == self@.wf(),
        decreases *self,
    {
        match self {
            Column::Null { .. } => true,
            Column::EmptyArray { .. } => true,
            Column::Int8(_) => true,
            Column::Int16(_) => true,
            Column::UInt8(_) => true,
            Column::UInt16(_) => true,
            Column::Boolean(_) => true,
            Column::String(_) => true,
            Column::Array { array, offsets } => {
                if !array.check_wf() {
                    return false;
                }
                let n = array.len();
                let mut i: usize = 0;
                while i < offsets.len()
                    invariant
                        i <= offsets@.len(),
                        *self == (Column::Array { array: *array, offsets: *offsets }),
                        col_v(**array).wf(),
                        n as int == col_v(**array).len(),
                        forall|j: int|
                            0 <= j < i ==> 0 <= (#[trigger] self@->Array_offsets[j]).0
                                <= self@->Array_offsets[j].1 <= n as int,
                    decreases offsets@.len() - i,
                {
                    let (a, b) = offsets[i];
                    if !(a <= b && b <= n) {
                        proof {
                            assert(self@->Array_offsets[i as int] == (a as int, b as int));
                        }
                        return false;
                    }
                    proof {
                        assert(self@->Array_offsets[i as int] == (a as int, b as int));
                    }
                    i = i + 1;
                }
                true
            },
            Column::Nullable { column, validity } => {
                match &**column {
                    Column::Nullable { .. } => {
                        proof {
                            assert(col_v(**column) is Nullable);
                            assert(*self@->Nullable_column is Nullable);
                        }
                        return false;
                    },
                    Column::Null { .. } => {
                        proof {
                            assert(col_v(**column) is Null);
                            assert(*self@->Nullable_column is Null);
                        }
                        return false;
                    },
                    _ => {},
                }
                if !column.check_wf() {
                    return false;
                }
                validity.len() == column.len()
            },
            Column::Tuple { fields, len } => {
                proof {
                    lemma_cols_v(fields@);
                    lemma_wf_cols(self@->Tuple_fields, *len as int);
                }
                let ghost model = self@->Tuple_fields;
                let mut i: usize = 0;
                while i < fields.len()
                    invariant
                        i <= fields@.len(),
                        *self == (Column::Tuple { fields: *fields, len: *len }),
                        model == col_v(*self)->Tuple_fields,
                        model.len() == fields@.len(),
                        forall|j: int| 0 <= j < fields@.len() ==> model[j] == #[trigger] col_v(fields@[j]),
                        forall|j: int|
                            0 <= j < i ==> (#[trigger] model[j]).wf() && model[j].len()
                                == *len as int,
                    decreases fields@.len() - i,
                {
                    proof {
                        assert(decreases_to!(*self => *fields));
                        assert(decreases_to!(*fields => fields@));
                        assert(decreases_to!(fields@ => fields@[i as int]));
                    }
                    if !fields[i].check_wf() {
                        proof {
                            lemma_wf_cols(model, *len as int);
                        }
                        return false;
                    }
                    if fields[i].len() != *len {
                        proof {
                            lemma_wf_cols(model, *len as int);
                        }
                        return false;
                    }
                    i = i + 1;
                }
                proof {
                    lemma_wf_cols(model, *len as int);
                }
                true
            },
        }
    }
}

} // verus!








