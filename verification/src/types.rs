//! The data types of the engine: a closed sum of type constructors with
//! nullability, arrays, tuples and generic type variables.

use vstd::prelude::*;

verus! {

/// The mathematical model of a [`DataType`].
pub ghost enum Ty {
    Boolean,
    String,
    UInt8,
    UInt16,
    Int8,
    Int16,
    Null,
    Nullable(Box<Ty>),
    EmptyArray,
    Array(Box<Ty>),
    Tuple(Seq<Ty>),
    Generic(int),
}

/// A data type of the expression engine.
///
/// `Null` is inhabited only by the null value and is a subtype of every
/// `Nullable<T>`; `EmptyArray` is inhabited only by the empty array and is a
/// subtype of every `Array<T>`. `Nullable` is never nested. `Generic(k)` is a
/// type variable that may occur only in function signatures, never in the
/// types handed to the type checker.
#[derive(Debug)]
pub enum DataType {
    Boolean,
    String,
    UInt8,
    UInt16,
    Int8,
    Int16,
    Null,
    Nullable(Box<DataType>),
    EmptyArray,
    Array(Box<DataType>),
    Tuple(Vec<DataType>),
    Generic(usize),
}

/// The model of a data type.
pub open spec fn ty_of(t: DataType) -> Ty
    decreases t,
    via ty_of_dec
{
    match t {
        DataType::Boolean => Ty::Boolean,
        DataType::String => Ty::String,
        DataType::UInt8 => Ty::UInt8,
        DataType::UInt16 => Ty::UInt16,
        DataType::Int8 => Ty::Int8,
        DataType::Int16 => Ty::Int16,
        DataType::Null => Ty::Null,
        DataType::Nullable(inner) => Ty::Nullable(Box::new(ty_of(*inner))),
        DataType::EmptyArray => Ty::EmptyArray,
        DataType::Array(inner) => Ty::Array(Box::new(ty_of(*inner))),
        DataType::Tuple(fields) => Ty::Tuple(tys_of(fields@)),
        DataType::Generic(k) => Ty::Generic(k as int),
    }
}

/// The models of a sequence of data types, elementwise.
pub open spec fn tys_of(s: Seq<DataType>) -> Seq<Ty>
    decreases s,
{
    if s.len() == 0 {
        Seq::empty()
    } else {
        tys_of(s.subrange(0, s.len() - 1)).push(ty_of(s[s.len() - 1]))
    }
}

#[via_fn]
proof fn ty_of_dec(t: DataType) {
    match t {
        DataType::Tuple(fields) => {
            assert(decreases_to!(t => fields));
            assert(decreases_to!(fields => fields@));
        },
        _ => {},
    }
}

/// `tys_of` maps `ty_of` over the sequence.
pub broadcast proof fn lemma_tys_of(s: Seq<DataType>)
    ensures
        (#[trigger] tys_of(s)).len() == s.len(),
        forall|i: int| 0 <= i < s.len() ==> tys_of(s)[i] == ty_of(s[i]),
    decreases s,
{
    if s.len() > 0 {
        lemma_tys_of(s.subrange(0, s.len() - 1));
        assert forall|i: int| 0 <= i < s.len() implies tys_of(s)[i] == ty_of(s[i]) by {
            if i < s.len() - 1 {
                assert(s.subrange(0, s.len() - 1)[i] == s[i]);
            }
        }
    }
}

impl View for DataType {
    type V = Ty;

    open spec fn view(&self) -> Ty {
        ty_of(*self)
    }
}

/// Holds when `t` mentions no `Generic` type variable anywhere.
pub open spec fn generic_free(t: Ty) -> bool
    decreases t,
{
    match t {
        Ty::Generic(_) => false,
        Ty::Nullable(inner) => generic_free(*inner),
        Ty::Array(inner) => generic_free(*inner),
        Ty::Tuple(fields) => forall|i: int|
            0 <= i < fields.len() ==> generic_free(#[trigger] fields[i]),
        _ => true,
    }
}

/// A type that a column can store: `Nullable` is never nested, never wraps
/// `Null` itself and never wraps a type variable.
pub open spec fn wf_ty(t: Ty) -> bool
    decreases t,
{
    match t {
        Ty::Nullable(inner) => wf_ty(*inner) && !(*inner is Nullable) && !(*inner is Null)
            && !(*inner is Generic),
        Ty::Array(inner) => wf_ty(*inner),
        Ty::Tuple(fields) => wf_tys(fields),
        _ => true,
    }
}

/// All types in `s` satisfy `wf_ty`.
pub open spec fn wf_tys(s: Seq<Ty>) -> bool
    decreases s,
{
    if s.len() == 0 {
        true
    } else {
        wf_tys(s.subrange(0, s.len() - 1)) && wf_ty(s[s.len() - 1])
    }
}

/// `wf_tys` holds exactly when it holds of every element.
pub broadcast proof fn lemma_wf_tys(s: Seq<Ty>)
    ensures
        #[trigger] wf_tys(s) <==> (forall|i: int| 0 <= i < s.len() ==> wf_ty(#[trigger] s[i])),
    decreases s,
{
    if s.len() > 0 {
        lemma_wf_tys(s.subrange(0, s.len() - 1));
        assert(forall|i: int| 0 <= i < s.len() - 1 ==> s.subrange(0, s.len() - 1)[i] == s[i]);
    }
}

impl DataType {
    /// Whether this type is `Nullable<_>`.
    pub fn is_nullable(&self) -> (r: bool)
        ensures
            r == self@ is Nullable,
    {
        match self {
            DataType::Nullable(_) => true,
            _ => false,
        }
    }

    /// Whether this type is `Null`.
    pub fn is_null(&self) -> (r: bool)
        ensures
            r == self@ is Null,
    {
        match self {
            DataType::Null => true,
            _ => false,
        }
    }

    /// Whether this type is `Generic(_)`.
    pub fn is_generic(&self) -> (r: bool)
        ensures
            r == self@ is Generic,
    {
        match self {
            DataType::Generic(_) => true,
            _ => false,
        }
    }

    /// Whether `generic_free` holds of this type.
    pub fn check_generic_free(&self) -> (r: bool)
        ensures
            r == generic_free(self@),
        decreases *self,
    {
        match self {
            DataType::Generic(_) => false,
            DataType::Nullable(inner) => inner.check_generic_free(),
            DataType::Array(inner) => inner.check_generic_free(),
            DataType::Tuple(fields) => {
                proof {
                    lemma_tys_of(fields@);
                }
                let ghost tys = self@->Tuple_0;
                let mut i: usize = 0;
                while i < fields.len()
                    invariant
                        i <= fields@.len(),
                        *self is Tuple,
                        *self == DataType::Tuple(*fields),
                        tys == ty_of(*self)->Tuple_0,
                        tys.len() == fields@.len(),
                        forall|j: int| 0 <= j < fields@.len() ==> tys[j] == ty_of(fields@[j]),
                        forall|j: int| 0 <= j < i ==> generic_free(#[trigger] tys[j]),
                    decreases fields@.len() - i,
                {
                    proof {
                        assert(decreases_to!(*self => *fields));
                        assert(decreases_to!(*fields => fields@));
                        assert(decreases_to!(fields@ => fields@[i as int]));
                    }
                    if !fields[i].check_generic_free() {
                        proof {
                            assert(!generic_free(tys[i as int]));
                        }
                        return false;
                    }
                    i = i + 1;
                }
                true
            },
            _ => true,
        }
    }
}

impl Clone for DataType {
    /// A clone has the same model as the original.
    fn clone(&self) -> (r: Self)
        ensures
            r@ == self@,
        decreases *self,
    {
        match self {
            DataType::Boolean => DataType::Boolean,
            DataType::String => DataType::String,
            DataType::UInt8 => DataType::UInt8,
            DataType::UInt16 => DataType::UInt16,
            DataType::Int8 => DataType::Int8,
            DataType::Int16 => DataType::Int16,
            DataType::Null => DataType::Null,
            DataType::Nullable(inner) => DataType::Nullable(Box::new((**inner).clone())),
            DataType::EmptyArray => DataType::EmptyArray,
            DataType::Array(inner) => DataType::Array(Box::new((**inner).clone())),
            DataType::Tuple(fields) => {
                proof {
                    lemma_tys_of(fields@);
                }
                let ghost tys = self@->Tuple_0;
                let mut out: Vec<DataType> = Vec::new();
                let mut i: usize = 0;
                while i < fields.len()
                    invariant
                        i <= fields@.len(),
                        out@.len() == i,
                        *self == DataType::Tuple(*fields),
                        tys == ty_of(*self)->Tuple_0,
                        tys.len() == fields@.len(),
                        forall|j: int| 0 <= j < fields@.len() ==> tys[j] == ty_of(fields@[j]),
                        forall|j: int| 0 <= j < i ==> ty_of(#[trigger] out@[j]) == tys[j],
                    decreases fields@.len() - i,
                {
                    proof {
                        assert(decreases_to!(*self => *fields));
                        assert(decreases_to!(*fields => fields@));
                        assert(decreases_to!(fields@ => fields@[i as int]));
                    }
                    out.push(fields[i].clone());
                    i = i + 1;
                }
                let r = DataType::Tuple(out);
                proof {
                    lemma_tys_of(out@);
                    assert(tys_of(out@) =~= tys);
                }
                r
            },
            DataType::Generic(idx) => DataType::Generic(*idx),
        }
    }
}

impl PartialEq for DataType {
    /// Equality of the models.
    fn eq(&self, other: &Self) -> (r: bool)
        ensures
            r == (self@ == other@),
        decreases *self,
    {
        match (self, other) {
            (DataType::Boolean, DataType::Boolean) => true,
            (DataType::String, DataType::String) => true,
            (DataType::UInt8, DataType::UInt8) => true,
            (DataType::UInt16, DataType::UInt16) => true,
            (DataType::Int8, DataType::Int8) => true,
            (DataType::Int16, DataType::Int16) => true,
            (DataType::Null, DataType::Null) => true,
            (DataType::Nullable(a), DataType::Nullable(b)) => (**a).eq(&**b),
            (DataType::EmptyArray, DataType::EmptyArray) => true,
            (DataType::Array(a), DataType::Array(b)) => (**a).eq(&**b),
            (DataType::Tuple(a), DataType::Tuple(b)) => {
                proof {
                    lemma_tys_of(a@);
                    lemma_tys_of(b@);
                }
                let ghost ta = self@->Tuple_0;
                let ghost tb = other@->Tuple_0;
                if a.len() != b.len() {
                    return false;
                }
                let mut i: usize = 0;
                while i < a.len()
                    invariant
                        i <= a@.len(),
                        a@.len() == b@.len(),
                        *self == DataType::Tuple(*a),
                        *other == DataType::Tuple(*b),
                        ta == ty_of(*self)->Tuple_0,
                        tb == ty_of(*other)->Tuple_0,
                        ta.len() == a@.len(),
                        tb.len() == b@.len(),
                        forall|j: int| 0 <= j < a@.len() ==> ta[j] == ty_of(a@[j]),
                        forall|j: int| 0 <= j < b@.len() ==> tb[j] == ty_of(b@[j]),
                        forall|j: int| 0 <= j < i ==> ta[j] == tb[j],
                    decreases a@.len() - i,
                {
                    proof {
                        assert(decreases_to!(*self => *a));
                        assert(decreases_to!(*a => a@));
                        assert(decreases_to!(a@ => a@[i as int]));
                    }
                    if !a[i].eq(&b[i]) {
                        proof {
                            assert(ta[i as int] != tb[i as int]);
                        }
                        return false;
                    }
                    i = i + 1;
                }
                proof {
                    assert(ta =~= tb);
                }
                true
            },
            (DataType::Generic(a), DataType::Generic(b)) => a == b,
            _ => false,
        }
    }
}

impl Eq for DataType {

}

impl vstd::std_specs::cmp::PartialEqSpecImpl for DataType {
    open spec fn obeys_eq_spec() -> bool {
        true
    }

    open spec fn eq_spec(&self, other: &Self) -> bool {
        self@ == other@
    }
}


/// Whether `wf_ty` holds of this type.
impl DataType {
    /// Whether this type can shape column storage: no nested `Nullable`, no
    /// `Nullable<Null>`, no `Nullable` of a type variable.
    pub fn check_wf_ty(&self) -> (r: bool)
        ensures
            r == wf_ty(self@),
        decreases *self,
    {
        match self {
            DataType::Nullable(inner) => {
                !inner.is_nullable() && !inner.is_null() && !inner.is_generic()
                    && inner.check_wf_ty()
            },
            DataType::Array(inner) => inner.check_wf_ty(),
            DataType::Tuple(fields) => {
                proof {
                    lemma_tys_of(fields@);
                    lemma_wf_tys(self@->Tuple_0);
                }
                let ghost tys = self@->Tuple_0;
                let mut i: usize = 0;
                while i < fields.len()
                    invariant
                        i <= fields@.len(),
                        *self == DataType::Tuple(*fields),
                        tys == ty_of(*self)->Tuple_0,
                        tys.len() == fields@.len(),
                        forall|j: int| 0 <= j < fields@.len() ==> tys[j] == ty_of(#[trigger] fields@[j]),
                        forall|j: int| 0 <= j < i ==> wf_ty(#[trigger] tys[j]),
                    decreases fields@.len() - i,
                {
                    proof {
                        assert(decreases_to!(*self => *fields));
                        assert(decreases_to!(*fields => fields@));
                        assert(decreases_to!(fields@ => fields@[i as int]));
                    }
                    if !fields[i].check_wf_ty() {
                        proof {
                            lemma_wf_tys(tys);
                        }
                        return false;
                    }
                    i = i + 1;
                }
                proof {
                    lemma_wf_tys(tys);
                }
                true
            },
            _ => true,
        }
    }
}

/// Clones a vector of data types, preserving every model.
pub fn clone_types(v: &Vec<DataType>) -> (r: Vec<DataType>)
    ensures
        r@.len() == v@.len(),
        forall|i: int| 0 <= i < v@.len() ==> (#[trigger] r@[i])@ == v@[i]@,
        tys_of(r@) == tys_of(v@),
{
    let mut r: Vec<DataType> = Vec::new();
    let mut i: usize = 0;
    while i < v.len()
        invariant
            i <= v@.len(),
            r@.len() == i,
            forall|j: int| 0 <= j < i ==> (#[trigger] r@[j])@ == v@[j]@,
        decreases v@.len() - i,
    {
        r.push(v[i].clone());
        i = i + 1;
    }
    proof {
        lemma_tys_of(r@);
        lemma_tys_of(v@);
        assert(tys_of(r@) =~= tys_of(v@));
    }
    r
}

} // verus!

