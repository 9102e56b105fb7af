//! The type checker: unification of argument types against signatures with
//! implicit coercions, cast insertion, null-propagation inference and the
//! common-super-type lattice.

use vstd::prelude::*;

use crate::expr::ast_generic_free;
use crate::expr::AstV;
use crate::expr::lemma_asts_generic_free;
use crate::expr::lit_ty;
use crate::expr::Expr;
use crate::expr::ExprV;
use crate::expr::Literal;
use crate::expr::AST;
use crate::function::FidV;
use crate::function::FnV;
use crate::function::FunctionRegistry;
use crate::function::FunctionSignature;
use crate::function::SigV;
use crate::property::ValueProperty;
use crate::types::generic_free;
use crate::types::lemma_tys_of;
use crate::types::ty_of;
use crate::types::tys_of;
use crate::types::DataType;
use crate::types::Ty;

verus! {

/// Whether a value of type `src` coerces implicitly into type `dest`:
/// reflexivity, `Null` into any nullable, the empty array into any array,
/// congruence through `Nullable` and `Array`, lifting into `Nullable`, and
/// the integer promotions.
pub open spec fn spec_can_cast(src: Ty, dest: Ty) -> bool
    decreases dest,
{
    if src == dest {
        true
    } else {
        match (src, dest) {
            (Ty::Null, Ty::Nullable(_)) => true,
            (Ty::EmptyArray, Ty::Array(_)) => true,
            (Ty::Nullable(s), Ty::Nullable(d)) => spec_can_cast(*s, *d),
            (s, Ty::Nullable(d)) => spec_can_cast(s, *d),
            (Ty::Array(s), Ty::Array(d)) => spec_can_cast(*s, *d),
            (Ty::UInt8, Ty::UInt16) => true,
            (Ty::Int8, Ty::Int16) => true,
            (Ty::UInt8, Ty::Int16) => true,
            _ => false,
        }
    }
}

/// The smallest type both `a` and `b` coerce into, when one exists: equality,
/// `Null` and the empty array absorbed into their wrappers, `Nullable`
/// distributed, `Array` congruent, and integer widening.
pub open spec fn spec_cst(a: Ty, b: Ty) -> Option<Ty>
    decreases a, b,
{
    if a == b {
        Some(a)
    } else {
        match (a, b) {
            (Ty::Null, Ty::Nullable(d)) => Some(Ty::Nullable(d)),
            (Ty::Nullable(s), Ty::Null) => Some(Ty::Nullable(s)),
            (Ty::Nullable(s), Ty::Nullable(d)) => match spec_cst(*s, *d) {
                Some(t) => Some(Ty::Nullable(Box::new(t))),
                None => None,
            },
            (Ty::Nullable(s), d) => match spec_cst(*s, d) {
                Some(t) => Some(Ty::Nullable(Box::new(t))),
                None => None,
            },
            (s, Ty::Nullable(d)) => match spec_cst(s, *d) {
                Some(t) => Some(Ty::Nullable(Box::new(t))),
                None => None,
            },
            (Ty::EmptyArray, Ty::Array(d)) => Some(Ty::Array(d)),
            (Ty::Array(s), Ty::EmptyArray) => Some(Ty::Array(s)),
            (Ty::Array(s), Ty::Array(d)) => match spec_cst(*s, *d) {
                Some(t) => Some(Ty::Array(Box::new(t))),
                None => None,
            },
            (Ty::UInt8, Ty::UInt16) => Some(Ty::UInt16),
            (Ty::UInt16, Ty::UInt8) => Some(Ty::UInt16),
            (Ty::Int8, Ty::Int16) => Some(Ty::Int16),
            (Ty::Int16, Ty::Int8) => Some(Ty::Int16),
            (Ty::Int16, Ty::UInt8) => Some(Ty::Int16),
            (Ty::UInt8, Ty::Int16) => Some(Ty::Int16),
            _ => None,
        }
    }
}

/// The common super type is insensitive to argument order.
pub proof fn lemma_cst_commutative(a: Ty, b: Ty)
    ensures
        spec_cst(a, b) == spec_cst(b, a),
    decreases a, b,
{
    if a == b {
    } else {
        match (a, b) {
            (Ty::Nullable(s), Ty::Nullable(d)) => {
                lemma_cst_commutative(*s, *d);
            },
            (Ty::Nullable(s), d) => {
                if !(d is Null) {
                    lemma_cst_commutative(*s, d);
                }
            },
            (s, Ty::Nullable(d)) => {
                if !(s is Null) {
                    lemma_cst_commutative(s, *d);
                }
            },
            (Ty::Array(s), Ty::Array(d)) => {
                lemma_cst_commutative(*s, *d);
            },
            _ => {},
        }
    }
}

/// A common super type of generic-free types is generic-free.
pub proof fn lemma_cst_generic_free(a: Ty, b: Ty)
    requires
        generic_free(a),
        generic_free(b),
        spec_cst(a, b) is Some,
    ensures
        generic_free(spec_cst(a, b)->Some_0),
    decreases a, b,
{
    if a == b {
    } else {
        match (a, b) {
            (Ty::Nullable(s), Ty::Nullable(d)) => {
                lemma_cst_generic_free(*s, *d);
            },
            (Ty::Nullable(s), d) => {
                if !(d is Null) {
                    lemma_cst_generic_free(*s, d);
                }
            },
            (s, Ty::Nullable(d)) => {
                if !(s is Null) {
                    lemma_cst_generic_free(s, *d);
                }
            },
            (Ty::Array(s), Ty::Array(d)) => {
                lemma_cst_generic_free(*s, *d);
            },
            _ => {},
        }
    }
}

/// Whether a value of type `src` coerces implicitly into type `dest`.
pub fn can_cast_to(src_ty: &DataType, dest_ty: &DataType) -> (r: bool)
    ensures
        r == spec_can_cast(src_ty@, dest_ty@),
    decreases *dest_ty,
{
    if src_ty.eq(dest_ty) {
        return true;
    }
    match (src_ty, dest_ty) {
        (DataType::Null, DataType::Nullable(_)) => true,
        (DataType::EmptyArray, DataType::Array(_)) => true,
        (DataType::Nullable(s), DataType::Nullable(d)) => can_cast_to(s, d),
        (s, DataType::Nullable(d)) => can_cast_to(s, d),
        (DataType::Array(s), DataType::Array(d)) => can_cast_to(s, d),
        (DataType::UInt8, DataType::UInt16) => true,
        (DataType::Int8, DataType::Int16) => true,
        (DataType::UInt8, DataType::Int16) => true,
        _ => false,
    }
}

/// The smallest type both arguments coerce into, or `None` when they are
/// incompatible.
pub fn common_super_type(ty1: DataType, ty2: DataType) -> (r: Option<DataType>)
    ensures
        match r {
            Some(t) => spec_cst(ty1@, ty2@) == Some(t@),
            None => spec_cst(ty1@, ty2@) is None,
        },
    decreases ty1, ty2,
{
    if ty1.eq(&ty2) {
        return Some(ty1);
    }
    match (ty1, ty2) {
        (DataType::Null, DataType::Nullable(d)) => Some(DataType::Nullable(d)),
        (DataType::Nullable(s), DataType::Null) => Some(DataType::Nullable(s)),
        (DataType::Nullable(s), DataType::Nullable(d)) => match common_super_type(*s, *d) {
            Some(t) => Some(DataType::Nullable(Box::new(t))),
            None => None,
        },
        (DataType::Nullable(s), d) => match common_super_type(*s, d) {
            Some(t) => Some(DataType::Nullable(Box::new(t))),
            None => None,
        },
        (s, DataType::Nullable(d)) => match common_super_type(s, *d) {
            Some(t) => Some(DataType::Nullable(Box::new(t))),
            None => None,
        },
        (DataType::EmptyArray, DataType::Array(d)) => Some(DataType::Array(d)),
        (DataType::Array(s), DataType::EmptyArray) => Some(DataType::Array(s)),
        (DataType::Array(s), DataType::Array(d)) => match common_super_type(*s, *d) {
            Some(t) => Some(DataType::Array(Box::new(t))),
            None => None,
        },
        (DataType::UInt8, DataType::UInt16) => Some(DataType::UInt16),
        (DataType::UInt16, DataType::UInt8) => Some(DataType::UInt16),
        (DataType::Int8, DataType::Int16) => Some(DataType::Int16),
        (DataType::Int16, DataType::Int8) => Some(DataType::Int16),
        (DataType::Int16, DataType::UInt8) => Some(DataType::Int16),
        (DataType::UInt8, DataType::Int16) => Some(DataType::Int16),
        _ => None,
    }
}


/// The models of substitution entries, elementwise.
pub open spec fn pairs_v(s: Seq<(usize, DataType)>) -> Seq<(usize, Ty)>
    decreases s,
{
    if s.len() == 0 {
        Seq::empty()
    } else {
        pairs_v(s.subrange(0, s.len() - 1)).push(
            (s[s.len() - 1].0, ty_of(s[s.len() - 1].1)),
        )
    }
}

/// `pairs_v` maps the view over the sequence.
pub broadcast proof fn lemma_pairs_v(s: Seq<(usize, DataType)>)
    ensures
        (#[trigger] pairs_v(s)).len() == s.len(),
        forall|i: int|
            0 <= i < s.len() ==> pairs_v(s)[i] == ((#[trigger] s[i]).0, ty_of(s[i].1)),
    decreases s,
{
    if s.len() > 0 {
        lemma_pairs_v(s.subrange(0, s.len() - 1));
        assert(forall|i: int| 0 <= i < s.len() - 1 ==> s.subrange(0, s.len() - 1)[i] == s[i]);
    }
}

/// The binding of index `k`, if any: the first entry wins.
pub open spec fn sget(s: Seq<(usize, Ty)>, k: int) -> Option<Ty>
    decreases s,
{
    if s.len() == 0 {
        None
    } else if s[0].0 == k {
        Some(s[0].1)
    } else {
        sget(s.subrange(1, s.len() as int), k)
    }
}

/// Every type bound by the substitution is generic-free.
pub open spec fn subst_generic_free(s: Seq<(usize, Ty)>) -> bool {
    forall|i: int| 0 <= i < s.len() ==> generic_free((#[trigger] s[i]).1)
}

/// A found binding of a generic-free substitution is generic-free.
pub proof fn lemma_sget_generic_free(s: Seq<(usize, Ty)>, k: int)
    requires
        subst_generic_free(s),
        sget(s, k) is Some,
    ensures
        generic_free(sget(s, k)->Some_0),
    decreases s,
{
    if s.len() > 0 && s[0].0 != k {
        assert(forall|i: int|
            0 <= i < s.len() - 1 ==> s.subrange(1, s.len() as int)[i] == s[i + 1]);
        lemma_sget_generic_free(s.subrange(1, s.len() as int), k);
    }
}

/// No generic index is bound twice.
pub open spec fn keys_unique(s: Seq<(usize, Ty)>) -> bool {
    forall|i: int, j: int| 0 <= i < j < s.len() ==> (#[trigger] s[i]).0 != (#[trigger] s[j]).0
}

/// Looking a key up in a substitution extended by one entry: an existing
/// binding wins, otherwise the new entry binds its own key.
pub proof fn lemma_sget_push(s: Seq<(usize, Ty)>, p: (usize, Ty), k: int)
    ensures
        sget(s.push(p), k) == (if sget(s, k) is Some {
            sget(s, k)
        } else if p.0 == k {
            Some(p.1)
        } else {
            None
        }),
    decreases s,
{
    if s.len() > 0 {
        assert(s.push(p)[0] == s[0]);
        assert(s.push(p).subrange(1, s.push(p).len() as int) =~= s.subrange(
            1,
            s.len() as int,
        ).push(p));
        lemma_sget_push(s.subrange(1, s.len() as int), p, k);
        if s[0].0 == k {
            assert(sget(s.push(p), k) == Some(s[0].1));
            assert(sget(s, k) == Some(s[0].1));
        } else {
            assert(sget(s.push(p), k) == sget(s.subrange(1, s.len() as int).push(p), k));
            assert(sget(s, k) == sget(s.subrange(1, s.len() as int), k));
        }
    } else {
        assert(s.push(p)[0] == p);
        assert(s.push(p).subrange(1, 1) =~= Seq::<(usize, Ty)>::empty());
        assert(sget(s.push(p).subrange(1, 1), k) is None);
    }
}

/// A key bound at some position of a duplicate-free substitution is found
/// with that position's type.
pub proof fn lemma_sget_at(s: Seq<(usize, Ty)>, j: int)
    requires
        keys_unique(s),
        0 <= j < s.len(),
    ensures
        sget(s, s[j].0 as int) == Some(s[j].1),
    decreases s,
{
    if j > 0 {
        assert(s[0].0 != s[j].0);
        assert(forall|i: int|
            0 <= i < s.len() - 1 ==> #[trigger] s.subrange(1, s.len() as int)[i] == s[i + 1]);
        lemma_sget_at(s.subrange(1, s.len() as int), j - 1);
    }
}

/// A key that no entry binds is not found.
pub proof fn lemma_sget_entries(s: Seq<(usize, Ty)>, k: int)
    ensures
        sget(s, k) is Some <==> exists|j: int| 0 <= j < s.len() && (#[trigger] s[j]).0 == k,
    decreases s,
{
    if s.len() > 0 {
        assert(forall|i: int|
            0 <= i < s.len() - 1 ==> #[trigger] s.subrange(1, s.len() as int)[i] == s[i + 1]);
        lemma_sget_entries(s.subrange(1, s.len() as int), k);
        if s[0].0 == k {
            assert(s[0].0 == k);
        } else {
            if sget(s, k) is Some {
                let j = choose|j: int|
                    0 <= j < s.subrange(1, s.len() as int).len() && (#[trigger] s.subrange(
                        1,
                        s.len() as int,
                    )[j]).0 == k;
                assert(s[j + 1].0 == k);
            }
            if exists|j: int| 0 <= j < s.len() && (#[trigger] s[j]).0 == k {
                let j = choose|j: int| 0 <= j < s.len() && (#[trigger] s[j]).0 == k;
                assert(s.subrange(1, s.len() as int)[j - 1].0 == k);
            }
        }
    }
}

/// Replacing the type bound to one key, entry by entry, changes exactly
/// that key's lookup.
pub proof fn lemma_sget_mapped(s: Seq<(usize, Ty)>, m: Seq<(usize, Ty)>, idx: int, tyv: Ty)
    requires
        m.len() == s.len(),
        forall|j: int| 0 <= j < s.len() ==> (#[trigger] m[j]).0 == s[j].0,
        forall|j: int|
            0 <= j < s.len() ==> (#[trigger] m[j]).1 == (if s[j].0 as int == idx {
                tyv
            } else {
                s[j].1
            }),
    ensures
        forall|k: int|
            #[trigger] sget(m, k) == (if k == idx && sget(s, k) is Some {
                Some(tyv)
            } else {
                sget(s, k)
            }),
    decreases s,
{
    if s.len() > 0 {
        assert(forall|i: int|
            0 <= i < s.len() - 1 ==> #[trigger] s.subrange(1, s.len() as int)[i] == s[i + 1]);
        assert(forall|i: int|
            0 <= i < m.len() - 1 ==> #[trigger] m.subrange(1, m.len() as int)[i] == m[i + 1]);
        lemma_sget_mapped(s.subrange(1, s.len() as int), m.subrange(1, m.len() as int), idx, tyv);
        assert(m[0].0 == s[0].0);
        assert forall|k: int| #[trigger] sget(m, k) == (if k == idx && sget(s, k) is Some {
            Some(tyv)
        } else {
            sget(s, k)
        }) by {
            if s[0].0 == k {
            } else {
                assert(sget(m, k) == sget(m.subrange(1, m.len() as int), k));
                assert(sget(s, k) == sget(s.subrange(1, s.len() as int), k));
            }
        }
    }
}

/// Whether `src` unifies against `dest`: a type variable accepts anything,
/// nullability is stripped in parallel or on the signature side, arrays
/// unify structurally, and otherwise `src` must coerce into `dest`.
pub open spec fn spec_unifiable(src: Ty, dest: Ty) -> bool
    decreases dest,
{
    match (src, dest) {
        (s, Ty::Generic(_)) => true,
        (Ty::Nullable(s), Ty::Nullable(d)) => spec_unifiable(*s, *d),
        (Ty::Null, Ty::Nullable(_)) => true,
        (s, Ty::Nullable(d)) => spec_unifiable(s, *d),
        (Ty::Array(s), Ty::Array(d)) => spec_unifiable(*s, *d),
        (s, d) => spec_can_cast(s, d),
    }
}

/// The binding unification of `src` against `dest` produces for the type
/// variable `k`: the sub-type of `src` standing where `Generic(k)` stands in
/// `dest`, and nothing for any other variable.
pub open spec fn spec_binding(src: Ty, dest: Ty, k: int) -> Option<Ty>
    decreases dest,
{
    match (src, dest) {
        (s, Ty::Generic(g)) => if g == k {
            Some(s)
        } else {
            None
        },
        (Ty::Nullable(s), Ty::Nullable(d)) => spec_binding(*s, *d, k),
        (Ty::Null, Ty::Nullable(_)) => None,
        (s, Ty::Nullable(d)) => spec_binding(s, *d, k),
        (Ty::Array(s), Ty::Array(d)) => spec_binding(*s, *d, k),
        (s, d) => None,
    }
}

/// Unifying against a signature type without type variables binds nothing.
pub proof fn lemma_binding_generic_free(src: Ty, dest: Ty, k: int)
    requires
        generic_free(dest),
    ensures
        spec_binding(src, dest, k) is None,
    decreases dest,
{
    match (src, dest) {
        (Ty::Nullable(s), Ty::Nullable(d)) => {
            lemma_binding_generic_free(*s, *d, k);
        },
        (Ty::Null, Ty::Nullable(_)) => {},
        (s, Ty::Nullable(d)) => {
            lemma_binding_generic_free(s, *d, k);
        },
        (Ty::Array(s), Ty::Array(d)) => {
            lemma_binding_generic_free(*s, *d, k);
        },
        _ => {},
    }
}

/// The binding a merge produces for the index `k`: a binding found on both
/// sides becomes the common super type of the two bound types (the other
/// side's binding first), a binding found on one side is kept.
pub open spec fn spec_merged(s1: Seq<(usize, Ty)>, s2: Seq<(usize, Ty)>, k: int) -> Option<Ty> {
    match (sget(s1, k), sget(s2, k)) {
        (Some(a), Some(b)) => spec_cst(b, a),
        (Some(a), None) => Some(a),
        (None, Some(b)) => Some(b),
        (None, None) => None,
    }
}

/// Applying a substitution to a type: every type variable is replaced by
/// its binding, and the application fails when some variable is unbound.
pub open spec fn spec_apply(s: Seq<(usize, Ty)>, t: Ty) -> Option<Ty>
    decreases t, 1int, 0int,
{
    match t {
        Ty::Generic(k) => sget(s, k),
        Ty::Nullable(inner) => match spec_apply(s, *inner) {
            Some(x) => Some(Ty::Nullable(Box::new(x))),
            None => None,
        },
        Ty::Array(inner) => match spec_apply(s, *inner) {
            Some(x) => Some(Ty::Array(Box::new(x))),
            None => None,
        },
        Ty::Tuple(ts) => match spec_apply_seq(s, ts) {
            Some(xs) => Some(Ty::Tuple(xs)),
            None => None,
        },
        other => Some(other),
    }
}

/// Applies a substitution to every type of a sequence.
pub open spec fn spec_apply_seq(s: Seq<(usize, Ty)>, ts: Seq<Ty>) -> Option<Seq<Ty>>
    decreases ts, 2int, ts.len(),
{
    if ts.len() == 0 {
        Some(Seq::empty())
    } else {
        match (spec_apply_seq(s, ts.subrange(0, ts.len() - 1)), spec_apply(s, ts[ts.len() - 1])) {
            (Some(xs), Some(x)) => Some(xs.push(x)),
            _ => None,
        }
    }
}

/// `spec_apply_seq` succeeds exactly when every element application
/// succeeds, elementwise.
pub broadcast proof fn lemma_spec_apply_seq(s: Seq<(usize, Ty)>, ts: Seq<Ty>)
    ensures
        (#[trigger] spec_apply_seq(s, ts)) is Some <==> (forall|i: int|
            0 <= i < ts.len() ==> spec_apply(s, #[trigger] ts[i]) is Some),
        spec_apply_seq(s, ts) is Some ==> spec_apply_seq(s, ts)->Some_0.len() == ts.len(),
        spec_apply_seq(s, ts) is Some ==> forall|i: int|
            0 <= i < ts.len() ==> spec_apply_seq(s, ts)->Some_0[i] == spec_apply(
                s,
                #[trigger] ts[i],
            )->Some_0,
    decreases ts.len(),
{
    if ts.len() > 0 {
        lemma_spec_apply_seq(s, ts.subrange(0, ts.len() - 1));
        assert(forall|i: int| 0 <= i < ts.len() - 1 ==> ts.subrange(0, ts.len() - 1)[i] == ts[i]);
    }
}

/// A substitution of generic indices by data types, produced by unification
/// and merged across arguments.
#[derive(Debug)]
pub struct Subsitution(pub Vec<(usize, DataType)>);

impl View for Subsitution {
    type V = Seq<(usize, Ty)>;

    open spec fn view(&self) -> Seq<(usize, Ty)> {
        pairs_v(self.0@)
    }
}

impl Subsitution {
    /// The substitution with no bindings.
    pub fn empty() -> (r: Self)
        ensures
            r@.len() == 0,
            subst_generic_free(r@),
            keys_unique(r@),
            forall|k: int| #[trigger] sget(r@, k) is None,
    {
        let r = Subsitution(Vec::new());
        proof {
            lemma_pairs_v(r.0@);
        }
        r
    }

    /// The substitution binding exactly `idx` to `ty`.
    pub fn equation(idx: usize, ty: DataType) -> (r: Self)
        ensures
            r@.len() == 1,
            r@[0] == (idx, ty@),
            keys_unique(r@),
            forall|k: int|
                #[trigger] sget(r@, k) == (if k == idx as int {
                    Some(ty@)
                } else {
                    None
                }),
            generic_free(ty@) ==> subst_generic_free(r@),
    {
        let mut v: Vec<(usize, DataType)> = Vec::new();
        v.push((idx, ty));
        let r = Subsitution(v);
        proof {
            lemma_pairs_v(r.0@);
            assert(r@.subrange(1, r@.len() as int).len() == 0);
            assert forall|k: int| #[trigger] sget(r@, k) == (if k == idx as int {
                Some(ty@)
            } else {
                None
            }) by {
                assert(sget(r@.subrange(1, r@.len() as int), k) is None);
            }
        }
        r
    }

    /// The binding of `idx`, if any.
    pub fn get(&self, idx: usize) -> (r: Option<DataType>)
        ensures
            match r {
                Some(t) => sget(self@, idx as int) == Some(t@),
                None => sget(self@, idx as int) is None,
            },
    {
        proof {
            lemma_pairs_v(self.0@);
            assert(self@.subrange(0, self@.len() as int) =~= self@);
        }
        let mut i: usize = 0;
        while i < self.0.len()
            invariant
                i <= self.0@.len(),
                self@.len() == self.0@.len(),
                forall|j: int|
                    0 <= j < self.0@.len() ==> self@[j] == ((#[trigger] self.0@[j]).0, ty_of(
                        self.0@[j].1,
                    )),
                sget(self@, idx as int) == sget(self@.subrange(i as int, self@.len() as int),
                    idx as int),
                forall|j: int| 0 <= j < i ==> (#[trigger] self@[j]).0 != idx as int,
            decreases self.0@.len() - i,
        {
            proof {
                let rest = self@.subrange(i as int, self@.len() as int);
                assert(rest[0] == self@[i as int]);
                assert(rest.subrange(1, rest.len() as int) =~= self@.subrange(
                    i as int + 1,
                    self@.len() as int,
                ));
            }
            if self.0[i].0 == idx {
                return Some(self.0[i].1.clone());
            }
            i = i + 1;
        }
        proof {
            assert(self@.subrange(self@.len() as int, self@.len() as int).len() == 0);
        }
        None
    }

    /// Merges another substitution into this one: a binding present on both
    /// sides is replaced by the common super type of the two bound types, and
    /// the merge fails when some pair of bindings has none.
    pub fn merge(self, other: Self) -> (r: Option<Self>)
        requires
            subst_generic_free(self@),
            subst_generic_free(other@),
            keys_unique(self@),
            keys_unique(other@),
        ensures
            r matches Some(m) ==> {
                &&& subst_generic_free(m@)
                &&& keys_unique(m@)
                &&& forall|k: int| #[trigger] sget(m@, k) == spec_merged(self@, other@, k)
                &&& forall|k: int|
                    (#[trigger] sget(self@, k) is Some && sget(other@, k) is Some) ==> spec_cst(
                        sget(other@, k)->Some_0,
                        sget(self@, k)->Some_0,
                    ) is Some
            },
            r is None ==> exists|k: int|
                #[trigger] sget(self@, k) is Some && sget(other@, k) is Some && spec_cst(
                    sget(other@, k)->Some_0,
                    sget(self@, k)->Some_0,
                ) is None,
    {
        let ghost orig = self@;
        let mut acc = self;
        let mut i: usize = 0;
        proof {
            lemma_pairs_v(other.0@);
        }
        while i < other.0.len()
            invariant
                i <= other.0@.len(),
                orig == self@,
                other@.len() == other.0@.len(),
                subst_generic_free(acc@),
                subst_generic_free(other@),
                subst_generic_free(orig),
                keys_unique(acc@),
                keys_unique(other@),
                forall|j: int|
                    0 <= j < other.0@.len() ==> other@[j] == ((#[trigger] other.0@[j]).0, ty_of(
                        other.0@[j].1,
                    )),
                forall|k: int|
                    #[trigger] sget(acc@, k) == (if exists|j: int|
                        0 <= j < i && (#[trigger] other@[j]).0 == k {
                        spec_merged(orig, other@, k)
                    } else {
                        sget(orig, k)
                    }),
                forall|k: int|
                    ((exists|j: int| 0 <= j < i && (#[trigger] other@[j]).0 == k) && #[trigger] sget(
                        orig,
                        k,
                    ) is Some && sget(other@, k) is Some) ==> spec_cst(
                        sget(other@, k)->Some_0,
                        sget(orig, k)->Some_0,
                    ) is Some,
            decreases other.0@.len() - i,
        {
            let idx = other.0[i].0;
            let ty1 = other.0[i].1.clone();
            proof {
                assert(generic_free(other@[i as int].1));
                assert(other@[i as int].0 == idx);
                lemma_sget_at(other@, i as int);
                assert(sget(other@, idx as int) == Some(other@[i as int].1));
                assert forall|j: int| 0 <= j < i implies (#[trigger] other@[j]).0
                    != idx as int by {}
                assert(sget(acc@, idx as int) == sget(orig, idx as int));
            }
            let ghost old_acc = acc@;
            match acc.get(idx) {
                Some(ty2) => {
                    proof {
                        lemma_sget_generic_free(acc@, idx as int);
                    }
                    let ghost t1 = ty1@;
                    let ghost t2 = ty2@;
                    match common_super_type(ty1, ty2) {
                        Some(common) => {
                            proof {
                                lemma_cst_generic_free(t1, t2);
                            }
                            acc = acc.replaced(idx, common);
                            proof {
                                assert forall|k: int| #[trigger] sget(acc@, k) == (
                                if exists|j: int|
                                    0 <= j < i + 1 && (#[trigger] other@[j]).0 == k {
                                    spec_merged(orig, other@, k)
                                } else {
                                    sget(orig, k)
                                }) by {
                                    if k == idx as int {
                                        assert(other@[i as int].0 == k);
                                        assert(sget(acc@, k) == Some(spec_cst(t1, t2)->Some_0));
                                    } else {
                                        assert(sget(acc@, k) == sget(old_acc, k));
                                    }
                                }
                                assert(spec_cst(
                                    sget(other@, idx as int)->Some_0,
                                    sget(orig, idx as int)->Some_0,
                                ) is Some);
                            }
                        },
                        None => {
                            proof {
                                assert(orig == self@);
                                assert(sget(orig, idx as int) == Some(t2));
                                assert(sget(self@, idx as int) == Some(t2));
                                assert(sget(other@, idx as int) == Some(t1));
                                assert(sget(self@, idx as int) is Some && sget(
                                    other@,
                                    idx as int,
                                ) is Some && spec_cst(
                                    sget(other@, idx as int)->Some_0,
                                    sget(self@, idx as int)->Some_0,
                                ) is None);
                            }
                            return None;
                        },
                    }
                },
                None => {
                    acc = acc.added(idx, ty1);
                    proof {
                        assert forall|k: int| #[trigger] sget(acc@, k) == (if exists|j: int|
                            0 <= j < i + 1 && (#[trigger] other@[j]).0 == k {
                            spec_merged(orig, other@, k)
                        } else {
                            sget(orig, k)
                        }) by {
                            if k == idx as int {
                                assert(other@[i as int].0 == k);
                                assert(sget(old_acc, k) is None);
                                assert(sget(orig, k) is None);
                            } else {
                                assert(sget(acc@, k) == sget(old_acc, k));
                            }
                        }
                    }
                },
            }
            i = i + 1;
        }
        proof {
            assert forall|k: int|
                (#[trigger] sget(orig, k) is Some && sget(other@, k) is Some) implies spec_cst(
                sget(other@, k)->Some_0,
                sget(orig, k)->Some_0,
            ) is Some by {
                lemma_sget_entries(other@, k);
                let j = choose|j: int| 0 <= j < other@.len() && (#[trigger] other@[j]).0 == k;
                assert(0 <= j < other.0@.len() && other@[j].0 == k);
            }
            assert forall|k: int| #[trigger] sget(acc@, k) == spec_merged(orig, other@, k) by {
                lemma_sget_entries(other@, k);
                if sget(other@, k) is Some {
                    let j = choose|j: int| 0 <= j < other@.len() && (#[trigger] other@[j]).0 == k;
                    assert(0 <= j < other.0@.len() && other@[j].0 == k);
                } else {
                    if exists|j: int|
                        0 <= j < other.0@.len() && (#[trigger] other@[j]).0 == k {
                        let j = choose|j: int|
                            0 <= j < other.0@.len() && (#[trigger] other@[j]).0 == k;
                        assert(sget(other@, k) is Some) by {
                            lemma_sget_at(other@, j);
                        }
                        assert(false);
                    }
                }
            }
        }
        Some(acc)
    }

    /// This substitution with the binding of `idx` replaced by `ty`.
    fn replaced(self, idx: usize, ty: DataType) -> (r: Self)
        requires
            subst_generic_free(self@),
            generic_free(ty@),
            keys_unique(self@),
        ensures
            subst_generic_free(r@),
            keys_unique(r@),
            forall|k: int|
                #[trigger] sget(r@, k) == (if k == idx as int && sget(self@, k) is Some {
                    Some(ty@)
                } else {
                    sget(self@, k)
                }),
    {
        let mut v = self.0;
        let mut i: usize = 0;
        let mut out: Vec<(usize, DataType)> = Vec::new();
        proof {
            lemma_pairs_v(v@);
        }
        while i < v.len()
            invariant
                i <= v@.len(),
                out@.len() == i,
                generic_free(ty@),
                subst_generic_free(pairs_v(v@)),
                pairs_v(v@).len() == v@.len(),
                forall|j: int|
                    0 <= j < v@.len() ==> pairs_v(v@)[j] == ((#[trigger] v@[j]).0, ty_of(v@[j].1)),
                forall|j: int| 0 <= j < i ==> generic_free(ty_of((#[trigger] out@[j]).1)),
                forall|j: int| 0 <= j < i ==> (#[trigger] out@[j]).0 == v@[j].0,
                forall|j: int|
                    0 <= j < i ==> ty_of((#[trigger] out@[j]).1) == (if v@[j].0 == idx {
                        ty@
                    } else {
                        ty_of(v@[j].1)
                    }),
            decreases v@.len() - i,
        {
            if v[i].0 == idx {
                out.push((idx, ty.clone()));
            } else {
                out.push((v[i].0, v[i].1.clone()));
            }
            i = i + 1;
        }
        let r = Subsitution(out);
        proof {
            lemma_pairs_v(r.0@);
            assert forall|j: int| 0 <= j < r@.len() implies generic_free(
                (#[trigger] r@[j]).1,
            ) by {
                assert(r@[j] == (r.0@[j].0, ty_of(r.0@[j].1)));
                assert(generic_free(ty_of(out@[j].1)));
            }
            assert forall|j: int| 0 <= j < r@.len() implies (#[trigger] r@[j]).0 == self@[j].0
                && r@[j].1 == (if self@[j].0 as int == idx as int {
                ty@
            } else {
                self@[j].1
            }) by {
                assert(r@[j] == (r.0@[j].0, ty_of(r.0@[j].1)));
            }
            lemma_sget_mapped(self@, r@, idx as int, ty@);
        }
        r
    }

    /// This substitution with a binding of `idx` appended.
    fn added(self, idx: usize, ty: DataType) -> (r: Self)
        requires
            subst_generic_free(self@),
            generic_free(ty@),
            keys_unique(self@),
            sget(self@, idx as int) is None,
        ensures
            subst_generic_free(r@),
            keys_unique(r@),
            forall|k: int|
                #[trigger] sget(r@, k) == (if k == idx as int {
                    Some(ty@)
                } else {
                    sget(self@, k)
                }),
    {
        let mut v = self.0;
        proof {
            lemma_pairs_v(v@);
        }
        let ghost oldv = v@;
        v.push((idx, ty));
        let r = Subsitution(v);
        proof {
            lemma_pairs_v(r.0@);
            assert forall|j: int| 0 <= j < r@.len() implies generic_free(
                (#[trigger] r@[j]).1,
            ) by {
                assert(r@[j] == (r.0@[j].0, ty_of(r.0@[j].1)));
                if j < oldv.len() {
                    assert(r.0@[j] == oldv[j]);
                    assert(pairs_v(oldv)[j] == (oldv[j].0, ty_of(oldv[j].1)));
                    assert(generic_free(pairs_v(oldv)[j].1));
                }
            }
            assert(r@ =~= pairs_v(oldv).push((idx, ty@))) by {
                assert forall|j: int| 0 <= j < r@.len() implies #[trigger] r@[j] == pairs_v(
                    oldv,
                ).push((idx, ty@))[j] by {
                    assert(r@[j] == (r.0@[j].0, ty_of(r.0@[j].1)));
                    if j < oldv.len() {
                        assert(r.0@[j] == oldv[j]);
                        assert(pairs_v(oldv)[j] == (oldv[j].0, ty_of(oldv[j].1)));
                    }
                }
            }
            lemma_sget_push(pairs_v(oldv), (idx, ty@), idx as int);
            assert forall|k: int| #[trigger] sget(r@, k) == (if k == idx as int {
                Some(ty@)
            } else {
                sget(pairs_v(oldv), k)
            }) by {
                lemma_sget_push(pairs_v(oldv), (idx, ty@), k);
            }
            lemma_sget_entries(pairs_v(oldv), idx as int);
            assert forall|i2: int, j2: int|
                0 <= i2 < j2 < r@.len() implies (#[trigger] r@[i2]).0 != (
            #[trigger] r@[j2]).0 by {
                if j2 == r@.len() - 1 {
                    assert(r@[i2] == pairs_v(oldv)[i2]);
                }
            }
        }
        r
    }

    /// Applies the substitution to a type, replacing every type variable by
    /// its binding; fails when some variable is unbound. A generic-free type
    /// is returned unchanged.
    pub fn apply(&self, ty: &DataType) -> (r: Option<DataType>)
        requires
            subst_generic_free(self@),
        ensures
            r matches Some(t) ==> generic_free(t@),
            generic_free(ty@) ==> (r matches Some(t) && t@ == ty@),
            match r {
                Some(t) => spec_apply(self@, ty@) == Some(t@),
                None => spec_apply(self@, ty@) is None,
            },
        decreases *ty,
    {
        match ty {
            DataType::Generic(idx) => {
                match self.get(*idx) {
                    Some(t) => {
                        proof {
                            lemma_sget_generic_free(self@, idx as int);
                        }
                        Some(t)
                    },
                    None => None,
                }
            },
            DataType::Nullable(inner) => {
                match self.apply(inner) {
                    Some(t) => Some(DataType::Nullable(Box::new(t))),
                    None => None,
                }
            },
            DataType::Array(inner) => {
                match self.apply(inner) {
                    Some(t) => Some(DataType::Array(Box::new(t))),
                    None => None,
                }
            },
            DataType::Tuple(fields) => {
                proof {
                    lemma_tys_of(fields@);
                    lemma_spec_apply_seq(self@, ty_of(*ty)->Tuple_0);
                }
                let ghost fv = ty_of(*ty)->Tuple_0;
                let n = fields.len();
                let mut out: Vec<DataType> = Vec::new();
                let mut i: usize = 0;
                while i < n
                    invariant
                        i <= n,
                        n == fields@.len(),
                        subst_generic_free(self@),
                        *ty == DataType::Tuple(*fields),
                        fv == ty_of(*ty)->Tuple_0,
                        fv.len() == fields@.len(),
                        forall|j: int|
                            0 <= j < fields@.len() ==> fv[j] == ty_of(#[trigger] fields@[j]),
                        out@.len() == i,
                        forall|j: int| 0 <= j < i ==> generic_free(ty_of(#[trigger] out@[j])),
                        forall|j: int|
                            0 <= j < i ==> spec_apply(self@, fv[j]) == Some(
                                ty_of(#[trigger] out@[j]),
                            ),
                        generic_free(ty@) ==> forall|j: int|
                            0 <= j < i ==> ty_of(#[trigger] out@[j]) == fv[j],
                    decreases n - i,
                {
                    proof {
                        assert(decreases_to!(*ty => *fields));
                        assert(decreases_to!(*fields => fields@));
                        assert(decreases_to!(fields@ => fields@[i as int]));
                        if generic_free(ty@) {
                            assert(generic_free(fv[i as int]));
                        }
                    }
                    match self.apply(&fields[i]) {
                        Some(t) => {
                            out.push(t);
                        },
                        None => {
                            proof {
                                lemma_spec_apply_seq(self@, fv);
                                assert(spec_apply(self@, fv[i as int]) is None);
                            }
                            return None;
                        },
                    }
                    i = i + 1;
                }
                let r = DataType::Tuple(out);
                proof {
                    lemma_tys_of(r->Tuple_0@);
                    crate::types::lemma_wf_tys(ty_of(r)->Tuple_0);
                    assert forall|j: int| 0 <= j < ty_of(r)->Tuple_0.len() implies generic_free(
                        #[trigger] ty_of(r)->Tuple_0[j],
                    ) by {
                        assert(ty_of(r)->Tuple_0[j] == ty_of(r->Tuple_0@[j]));
                    }
                    if generic_free(ty@) {
                        assert forall|j: int| 0 <= j < fv.len() implies #[trigger] ty_of(
                            r,
                        )->Tuple_0[j] == fv[j] by {
                            assert(ty_of(r)->Tuple_0[j] == ty_of(r->Tuple_0@[j]));
                        }
                        assert(ty_of(r)->Tuple_0 =~= fv);
                    }
                    lemma_spec_apply_seq(self@, fv);
                    assert forall|j: int| 0 <= j < fv.len() implies spec_apply(
                        self@,
                        #[trigger] fv[j],
                    ) is Some by {
                        assert(spec_apply(self@, fv[j]) == Some(ty_of(out@[j])));
                    }
                    assert forall|j: int| 0 <= j < fv.len() implies #[trigger] spec_apply_seq(
                        self@,
                        fv,
                    )->Some_0[j] == ty_of(r)->Tuple_0[j] by {
                        assert(spec_apply_seq(self@, fv)->Some_0[j] == spec_apply(
                            self@,
                            fv[j],
                        )->Some_0);
                        assert(spec_apply(self@, fv[j]) == Some(ty_of(out@[j])));
                        assert(ty_of(r)->Tuple_0[j] == ty_of(r->Tuple_0@[j]));
                    }
                    assert(spec_apply_seq(self@, fv)->Some_0 =~= ty_of(r)->Tuple_0);
                }
                Some(r)
            },
            other => Some(other.clone()),
        }
    }
}

/// Unifies a checker-supplied source type against a signature type that may
/// hold type variables: a variable binds the whole source, nullability is
/// stripped in parallel or on the signature side alone (with `Null` matching
/// any nullable type), arrays unify structurally, and otherwise the source
/// must coerce into the destination.
pub fn unify(src_ty: &DataType, dest_ty: &DataType) -> (r: Option<Subsitution>)
    requires
        generic_free(src_ty@),
    ensures
        r is Some <==> spec_unifiable(src_ty@, dest_ty@),
        r matches Some(s) ==> {
            &&& subst_generic_free(s@)
            &&& keys_unique(s@)
            &&& forall|k: int| #[trigger] sget(s@, k) == spec_binding(src_ty@, dest_ty@, k)
        },
    decreases *dest_ty,
{
    match (src_ty, dest_ty) {
        (s, DataType::Generic(idx)) => Some(Subsitution::equation(*idx, s.clone())),
        (DataType::Nullable(s), DataType::Nullable(d)) => unify(s, d),
        (DataType::Null, DataType::Nullable(_)) => Some(Subsitution::empty()),
        (s, DataType::Nullable(d)) => unify(s, d),
        (DataType::Array(s), DataType::Array(d)) => unify(s, d),
        (s, d) => {
            if can_cast_to(s, d) {
                Some(Subsitution::empty())
            } else {
                None
            }
        },
    }
}

/// The type and property of a literal: `Null` for the null literal, the
/// matching primitive otherwise; every non-null literal is known not null.
pub fn check_literal(literal: &Literal) -> (r: (DataType, ValueProperty))
    ensures
        r.0@ == lit_ty(literal@),
        r.1.not_null == !(literal@ is Null),
{
    match literal {
        Literal::Null => (DataType::Null, ValueProperty { not_null: false }),
        Literal::Int8(_) => (DataType::Int8, ValueProperty { not_null: true }),
        Literal::Int16(_) => (DataType::Int16, ValueProperty { not_null: true }),
        Literal::UInt8(_) => (DataType::UInt8, ValueProperty { not_null: true }),
        Literal::UInt16(_) => (DataType::UInt16, ValueProperty { not_null: true }),
        Literal::Boolean(_) => (DataType::Boolean, ValueProperty { not_null: true }),
        Literal::String(_) => (DataType::String, ValueProperty { not_null: true }),
    }
}


/// The binding the sequential merge of the first `upto` argument
/// unifications produces for the type variable `k`.
pub open spec fn fold_binding(at: Seq<Ty>, st: Seq<Ty>, upto: int, k: int) -> Option<Ty>
    decreases upto,
{
    if upto <= 0 {
        None
    } else {
        match (fold_binding(at, st, upto - 1, k), spec_binding(at[upto - 1], st[upto - 1], k)) {
            (Some(a), Some(b)) => spec_cst(b, a),
            (Some(a), None) => Some(a),
            (None, Some(b)) => Some(b),
            (None, None) => None,
        }
    }
}

/// Whether the sequential merge of the first `upto` argument unifications
/// meets no pair of bindings without a common super type.
pub open spec fn fold_ok(at: Seq<Ty>, st: Seq<Ty>, upto: int) -> bool
    decreases upto,
{
    upto <= 0 || (fold_ok(at, st, upto - 1) && forall|k: int|
        (#[trigger] fold_binding(at, st, upto - 1, k) is Some && spec_binding(
            at[upto - 1],
            st[upto - 1],
            k,
        ) is Some) ==> spec_cst(
            spec_binding(at[upto - 1], st[upto - 1], k)->Some_0,
            fold_binding(at, st, upto - 1, k)->Some_0,
        ) is Some)
}

/// Applies an abstract binding of type variables to a type; fails when some
/// variable is unbound.
pub open spec fn apply_b(b: spec_fn(int) -> Option<Ty>, t: Ty) -> Option<Ty>
    decreases t, 1int, 0int,
{
    match t {
        Ty::Generic(k) => b(k),
        Ty::Nullable(inner) => match apply_b(b, *inner) {
            Some(x) => Some(Ty::Nullable(Box::new(x))),
            None => None,
        },
        Ty::Array(inner) => match apply_b(b, *inner) {
            Some(x) => Some(Ty::Array(Box::new(x))),
            None => None,
        },
        Ty::Tuple(ts) => match apply_b_seq(b, ts) {
            Some(xs) => Some(Ty::Tuple(xs)),
            None => None,
        },
        other => Some(other),
    }
}

/// Applies an abstract binding to every type of a sequence.
pub open spec fn apply_b_seq(b: spec_fn(int) -> Option<Ty>, ts: Seq<Ty>) -> Option<Seq<Ty>>
    decreases ts, 2int, ts.len(),
{
    if ts.len() == 0 {
        Some(Seq::empty())
    } else {
        match (apply_b_seq(b, ts.subrange(0, ts.len() - 1)), apply_b(b, ts[ts.len() - 1])) {
            (Some(xs), Some(x)) => Some(xs.push(x)),
            _ => None,
        }
    }
}

/// A substitution whose lookups equal an abstract binding applies exactly as
/// the binding does.
pub proof fn lemma_apply_is_apply_b(s: Seq<(usize, Ty)>, b: spec_fn(int) -> Option<Ty>, t: Ty)
    requires
        forall|k: int| #[trigger] sget(s, k) == b(k),
    ensures
        spec_apply(s, t) == apply_b(b, t),
    decreases t, 1int, 0int,
{
    match t {
        Ty::Nullable(inner) => {
            lemma_apply_is_apply_b(s, b, *inner);
        },
        Ty::Array(inner) => {
            lemma_apply_is_apply_b(s, b, *inner);
        },
        Ty::Tuple(ts) => {
            lemma_apply_seq_is_apply_b_seq(s, b, ts);
        },
        _ => {},
    }
}

/// The sequence form of `lemma_apply_is_apply_b`.
pub proof fn lemma_apply_seq_is_apply_b_seq(
    s: Seq<(usize, Ty)>,
    b: spec_fn(int) -> Option<Ty>,
    ts: Seq<Ty>,
)
    requires
        forall|k: int| #[trigger] sget(s, k) == b(k),
    ensures
        spec_apply_seq(s, ts) == apply_b_seq(b, ts),
    decreases ts, 2int, ts.len(),
{
    if ts.len() > 0 {
        lemma_apply_seq_is_apply_b_seq(s, b, ts.subrange(0, ts.len() - 1));
        lemma_apply_is_apply_b(s, b, ts[ts.len() - 1]);
    }
}

/// The binding an argument list determines for a signature: the sequential
/// merge of every per-argument unification.
pub open spec fn sig_binding(at: Seq<Ty>, st: Seq<Ty>) -> spec_fn(int) -> Option<Ty> {
    |k: int| fold_binding(at, st, at.len() as int, k)
}

/// The success condition of checking one candidate: every argument type
/// unifies against its declared type, the per-argument substitutions merge
/// without conflict, and the merged binding covers every type variable of
/// the declared argument and return types.
pub open spec fn try_check_ok(at: Seq<Ty>, sig: SigV) -> bool {
    &&& at.len() == sig.args_type.len()
    &&& forall|i: int|
        0 <= i < at.len() ==> spec_unifiable(#[trigger] at[i], sig.args_type[i])
    &&& fold_ok(at, sig.args_type, at.len() as int)
    &&& forall|i: int|
        0 <= i < at.len() ==> apply_b(sig_binding(at, sig.args_type), #[trigger] sig.args_type[i])
            is Some
    &&& apply_b(sig_binding(at, sig.args_type), sig.return_type) is Some
}

/// The argument types of checked argument triples, elementwise.
pub open spec fn arg_tys(args: Seq<(Expr, DataType, ValueProperty)>) -> Seq<Ty> {
    Seq::new(args.len(), |i: int| (args[i].1)@)
}

/// Checks one candidate signature against already-checked arguments: unifies
/// each argument type against the declared type, merges the per-argument
/// substitutions, wraps arguments whose type differs from the materialized
/// declared type in casts (weakening nothing: a cast keeps the argument's
/// own not-null knowledge), applies the substitution to the return type, and
/// infers the result property. The generics vector is the dense prefix of
/// bindings with any gap left as the type variable itself. Succeeds exactly
/// when `try_check_ok` holds.
pub fn try_check_function(
    args: &Vec<(Expr, DataType, ValueProperty)>,
    sig: &FunctionSignature,
) -> (r: Option<(Vec<(Expr, ValueProperty)>, DataType, Vec<DataType>, ValueProperty)>)
    requires
        args@.len() == sig.args_type@.len(),
        forall|i: int| 0 <= i < args@.len() ==> generic_free((#[trigger] args@[i]).1@),
    ensures
        r is Some <==> try_check_ok(arg_tys(args@), sig@),
        r matches Some(out) ==> {
            &&& out.0@.len() == args@.len()
            &&& forall|i: int| 0 <= i < args@.len() ==> (#[trigger] out.0@[i]).1 == args@[i].2
            &&& forall|i: int|
                0 <= i < args@.len() ==> {
                    let mat = apply_b(
                        sig_binding(arg_tys(args@), sig@.args_type),
                        sig@.args_type[i],
                    )->Some_0;
                    ((#[trigger] out.0@[i]).0@ == args@[i].0@ && args@[i].1@ == mat) || (
                    out.0@[i].0@ matches ExprV::Cast { expr, dest_type } && *expr == args@[i].0@
                        && dest_type == mat && args@[i].1@ != mat)
                }
            &&& out.1@ == apply_b(
                sig_binding(arg_tys(args@), sig@.args_type),
                sig@.return_type,
            )->Some_0
            &&& generic_free(out.1@)
            &&& forall|j: int|
                0 <= j < out.2@.len() ==> tys_of(out.2@)[j] == (match sig_binding(
                    arg_tys(args@),
                    sig@.args_type,
                )(j) {
                    Some(t) => t,
                    None => Ty::Generic(j),
                })
            &&& forall|k: int|
                0 <= k && #[trigger] sig_binding(arg_tys(args@), sig@.args_type)(k) is Some ==> k
                    < out.2@.len()
            &&& out.2@.len() > 0 ==> sig_binding(arg_tys(args@), sig@.args_type)(
                out.2@.len() - 1,
            ) is Some
            &&& out.3.not_null == ((!(out.1@ is Nullable) && !(out.1@ is Null)) || (
            sig.property.preserve_not_null && forall|i: int|
                0 <= i < args@.len() ==> (#[trigger] args@[i]).2.not_null))
        },
{
    proof {
        lemma_tys_of(sig.args_type@);
    }
    let ghost atys = arg_tys(args@);
    let ghost stys = sig@.args_type;
    let ghost bnd = sig_binding(atys, stys);
    let n = args.len();
    let mut merged = Subsitution::empty();
    let mut i: usize = 0;
    while i < n
        invariant
            i <= n,
            n == args@.len(),
            args@.len() == sig.args_type@.len(),
            atys == arg_tys(args@),
            stys == sig@.args_type,
            atys.len() == n,
            stys.len() == n,
            sig@.args_type.len() == sig.args_type@.len(),
            forall|j: int| 0 <= j < n ==> atys[j] == (#[trigger] args@[j]).1@,
            forall|j: int|
                0 <= j < sig.args_type@.len() ==> stys[j] == ty_of(#[trigger] sig.args_type@[j]),
            forall|j: int| 0 <= j < args@.len() ==> generic_free((#[trigger] args@[j]).1@),
            forall|j: int| 0 <= j < i ==> spec_unifiable((#[trigger] args@[j]).1@, stys[j]),
            subst_generic_free(merged@),
            keys_unique(merged@),
            forall|k: int| #[trigger] sget(merged@, k) == fold_binding(atys, stys, i as int, k),
            fold_ok(atys, stys, i as int),
        decreases n - i,
    {
        let u = match unify(&args[i].1, &sig.args_type[i]) {
            Some(u) => u,
            None => {
                proof {
                    assert(!spec_unifiable(atys[i as int], stys[i as int]));
                }
                return None;
            },
        };
        let ghost old_merged = merged@;
        merged = match merged.merge(u) {
            Some(m) => m,
            None => {
                proof {
                    let k = choose|k: int|
                        #[trigger] sget(old_merged, k) is Some && sget(u@, k) is Some && spec_cst(
                            sget(u@, k)->Some_0,
                            sget(old_merged, k)->Some_0,
                        ) is None;
                    assert(!fold_ok(atys, stys, i as int + 1));
                    lemma_fold_ok_monotone(atys, stys, i as int + 1, n as int);
                }
                return None;
            },
        };
        proof {
            assert forall|k: int| #[trigger] sget(merged@, k) == fold_binding(
                atys,
                stys,
                i as int + 1,
                k,
            ) by {
                assert(sget(merged@, k) == spec_merged(old_merged, u@, k));
                assert(sget(u@, k) == spec_binding(atys[i as int], stys[i as int], k));
            }
            assert(fold_ok(atys, stys, i as int + 1)) by {
                assert forall|k: int|
                    (#[trigger] fold_binding(atys, stys, i as int, k) is Some && spec_binding(
                        atys[i as int],
                        stys[i as int],
                        k,
                    ) is Some) implies spec_cst(
                    spec_binding(atys[i as int], stys[i as int], k)->Some_0,
                    fold_binding(atys, stys, i as int, k)->Some_0,
                ) is Some by {
                    assert(sget(old_merged, k) is Some && sget(u@, k) is Some);
                }
            }
        }
        i = i + 1;
    }
    let mut checked_args: Vec<(Expr, ValueProperty)> = Vec::new();
    let mut i: usize = 0;
    while i < n
        invariant
            i <= n,
            n == args@.len(),
            args@.len() == sig.args_type@.len(),
            atys == arg_tys(args@),
            stys == sig@.args_type,
            bnd == sig_binding(atys, stys),
            atys.len() == n,
            stys.len() == n,
            sig@.args_type.len() == sig.args_type@.len(),
            forall|j: int| 0 <= j < n ==> atys[j] == (#[trigger] args@[j]).1@,
            forall|j: int|
                0 <= j < sig.args_type@.len() ==> stys[j] == ty_of(#[trigger] sig.args_type@[j]),
            forall|j: int| 0 <= j < args@.len() ==> generic_free((#[trigger] args@[j]).1@),
            forall|j: int| 0 <= j < n ==> spec_unifiable((#[trigger] args@[j]).1@, stys[j]),
            subst_generic_free(merged@),
            keys_unique(merged@),
            forall|k: int| #[trigger] sget(merged@, k) == bnd(k),
            fold_ok(atys, stys, n as int),
            checked_args@.len() == i,
            forall|j: int| 0 <= j < i ==> (#[trigger] checked_args@[j]).1 == args@[j].2,
            forall|j: int| 0 <= j < i ==> apply_b(bnd, stys[j]) is Some,
            forall|j: int|
                0 <= j < i ==> {
                    let mat = apply_b(bnd, stys[j])->Some_0;
                    ((#[trigger] checked_args@[j]).0@ == args@[j].0@ && args@[j].1@ == mat) || (
                    checked_args@[j].0@ matches ExprV::Cast { expr, dest_type } && *expr
                        == args@[j].0@ && dest_type == mat && args@[j].1@ != mat)
                },
        decreases n - i,
    {
        proof {
            lemma_apply_is_apply_b(merged@, bnd, stys[i as int]);
        }
        let materialized = match merged.apply(&sig.args_type[i]) {
            Some(t) => t,
            None => {
                proof {
                    assert(apply_b(bnd, stys[i as int]) is None);
                }
                return None;
            },
        };
        if args[i].1.eq(&materialized) {
            checked_args.push((args[i].0.clone(), args[i].2));
        } else {
            checked_args.push(
                (
                    Expr::Cast { expr: Box::new(args[i].0.clone()), dest_type: materialized },
                    ValueProperty { not_null: args[i].2.not_null },
                ),
            );
        }
        i = i + 1;
    }
    proof {
        lemma_apply_is_apply_b(merged@, bnd, sig@.return_type);
    }
    let return_type = match merged.apply(&sig.return_type) {
        Some(t) => t,
        None => {
            proof {
                assert(apply_b(bnd, sig@.return_type) is None);
            }
            return None;
        },
    };
    proof {
        lemma_pairs_v(merged.0@);
    }
    let mut max_idx: Option<usize> = None;
    let mut i: usize = 0;
    while i < merged.0.len()
        invariant
            i <= merged.0@.len(),
            merged@.len() == merged.0@.len(),
            forall|j: int|
                0 <= j < merged.0@.len() ==> (#[trigger] merged@[j]).0 == merged.0@[j].0,
            match max_idx {
                Some(m) => (exists|j: int| 0 <= j < i && (#[trigger] merged@[j]).0 == m)
                    && forall|j: int| 0 <= j < i ==> (#[trigger] merged@[j]).0 <= m,
                None => i == 0,
            },
        decreases merged.0@.len() - i,
    {
        proof {
            lemma_pairs_v(merged.0@);
        }
        let k = merged.0[i].0;
        max_idx = match max_idx {
            Some(m) => if k > m {
                Some(k)
            } else {
                Some(m)
            },
            None => Some(k),
        };
        i = i + 1;
    }
    let mut generics: Vec<DataType> = Vec::new();
    match max_idx {
        Some(m) => {
            let mut k: usize = 0;
            loop
                invariant_except_break
                    k <= m,
                    generics@.len() == k,
                    subst_generic_free(merged@),
                    keys_unique(merged@),
                    forall|q: int| #[trigger] sget(merged@, q) == bnd(q),
                    forall|j: int|
                        0 <= j < k ==> ty_of(#[trigger] generics@[j]) == (match bnd(j) {
                            Some(t) => t,
                            None => Ty::Generic(j),
                        }),
                ensures
                    generics@.len() == m + 1,
                    subst_generic_free(merged@),
                    keys_unique(merged@),
                    forall|q: int| #[trigger] sget(merged@, q) == bnd(q),
                    forall|j: int|
                        0 <= j < m + 1 ==> ty_of(#[trigger] generics@[j]) == (match bnd(j) {
                            Some(t) => t,
                            None => Ty::Generic(j),
                        }),
                decreases m - k,
            {
                match merged.get(k) {
                    Some(t) => generics.push(t),
                    None => generics.push(DataType::Generic(k)),
                }
                if k == m {
                    break ;
                }
                k = k + 1;
            }
            proof {
                lemma_pairs_v(merged.0@);
                assert forall|q: int| 0 <= q && #[trigger] bnd(q) is Some implies q < m
                    + 1 by {
                    lemma_sget_entries(merged@, q);
                    let j = choose|j: int|
                        0 <= j < merged@.len() && (#[trigger] merged@[j]).0 == q;
                    assert(merged@[j].0 <= m);
                }
                assert(bnd(m as int) is Some) by {
                    let j = choose|j: int|
                        0 <= j < merged@.len() && (#[trigger] merged@[j]).0 == m;
                    lemma_sget_at(merged@, j);
                }
            }
        },
        None => {
            proof {
                assert(merged@.len() == 0);
                assert forall|q: int| 0 <= q && #[trigger] bnd(q) is Some implies q
                    < 0 by {
                    lemma_sget_entries(merged@, q);
                }
            }
        },
    }
    let rt_not_null = !return_type.is_nullable() && !return_type.is_null();
    let mut all_not_null = true;
    let mut i: usize = 0;
    while i < n
        invariant
            i <= n,
            n == args@.len(),
            all_not_null == forall|j: int| 0 <= j < i ==> (#[trigger] args@[j]).2.not_null,
        decreases n - i,
    {
        if !args[i].2.not_null {
            all_not_null = false;
            proof {
                assert(!(args@[i as int].2.not_null));
            }
        }
        i = i + 1;
    }
    let not_null = rt_not_null || (sig.property.preserve_not_null && all_not_null);
    proof {
        crate::types::lemma_tys_of(generics@);
    }
    Some((checked_args, return_type, generics, ValueProperty { not_null }))
}

/// Once the sequential merge fails, it fails for every longer prefix.
pub proof fn lemma_fold_ok_monotone(at: Seq<Ty>, st: Seq<Ty>, i: int, n: int)
    requires
        i <= n,
        !fold_ok(at, st, i),
    ensures
        !fold_ok(at, st, n),
    decreases n - i,
{
    if i < n {
        lemma_fold_ok_monotone(at, st, i + 1, n);
    }
}

/// The position of the first candidate whose signature checks against the
/// argument types, if any.
pub open spec fn first_ok(cands: Seq<(FidV, FnV)>, at: Seq<Ty>) -> Option<int>
    decreases cands,
{
    if cands.len() == 0 {
        None
    } else if try_check_ok(at, cands[0].1.signature) {
        Some(0)
    } else {
        match first_ok(cands.subrange(1, cands.len() as int), at) {
            Some(i) => Some(i + 1),
            None => None,
        }
    }
}

/// `first_ok` finds exactly the first checking candidate.
pub proof fn lemma_first_ok_at(cands: Seq<(FidV, FnV)>, at: Seq<Ty>, c: int)
    requires
        0 <= c < cands.len(),
        try_check_ok(at, cands[c].1.signature),
        forall|j: int| 0 <= j < c ==> !try_check_ok(at, (#[trigger] cands[j]).1.signature),
    ensures
        first_ok(cands, at) == Some(c),
    decreases c,
{
    if c > 0 {
        assert(forall|j: int|
            0 <= j < cands.len() - 1 ==> #[trigger] cands.subrange(1, cands.len() as int)[j]
                == cands[j + 1]);
        lemma_first_ok_at(cands.subrange(1, cands.len() as int), at, c - 1);
    }
}

/// When no candidate checks, `first_ok` finds none.
pub proof fn lemma_first_ok_none(cands: Seq<(FidV, FnV)>, at: Seq<Ty>)
    requires
        forall|j: int|
            0 <= j < cands.len() ==> !try_check_ok(at, (#[trigger] cands[j]).1.signature),
    ensures
        first_ok(cands, at) is None,
    decreases cands,
{
    if cands.len() > 0 {
        assert(forall|j: int|
            0 <= j < cands.len() - 1 ==> #[trigger] cands.subrange(1, cands.len() as int)[j]
                == cands[j + 1]);
        lemma_first_ok_none(cands.subrange(1, cands.len() as int), at);
    }
}

/// What resolving a call returns: nothing when no candidate checks, and
/// otherwise the first checking candidate's call expression, with that
/// candidate's materialized return type and inferred property.
pub open spec fn check_function_post(
    cands: Seq<(FidV, FnV)>,
    args: Seq<(Expr, DataType, ValueProperty)>,
    r: Option<(Expr, DataType, ValueProperty)>,
) -> bool {
    match first_ok(cands, arg_tys(args)) {
        None => r is None,
        Some(c) => r matches Some(out) && {
            &&& (out.0@ matches ExprV::FunctionCall { id, function, generics, args: checked } && id
                == cands[c].0 && function == cands[c].1 && checked.len() == args.len())
            &&& out.1@ == apply_b(
                sig_binding(arg_tys(args), cands[c].1.signature.args_type),
                cands[c].1.signature.return_type,
            )->Some_0
            &&& out.2.not_null == ((!(out.1@ is Nullable) && !(out.1@ is Null)) || (
            cands[c].1.signature.property.preserve_not_null && forall|i: int|
                0 <= i < args.len() ==> (#[trigger] args[i]).2.not_null))
        },
    }
}

/// Resolves a function call: asks the registry for candidates and returns
/// the first whose signature checks against the arguments, as a typed call
/// expression with the candidate's materialized return type and inferred
/// property; `None` exactly when every candidate fails.
pub fn check_function(
    name: &str,
    args: &Vec<(Expr, DataType, ValueProperty)>,
    params: &Vec<usize>,
    fn_registry: &FunctionRegistry,
) -> (r: Option<(Expr, DataType, ValueProperty)>)
    requires
        forall|i: int| 0 <= i < args@.len() ==> generic_free((#[trigger] args@[i]).1@),
    ensures
        check_function_post(
            crate::function::spec_candidates(
                fn_registry.funcs@,
                fn_registry.factories@,
                name@,
                params@,
                arg_tys(args@),
            ),
            args@,
            r,
        ),
        r matches Some(out) ==> generic_free(out.1@),
{
    let ghost at = arg_tys(args@);
    let mut args_type: Vec<DataType> = Vec::new();
    let mut i: usize = 0;
    while i < args.len()
        invariant
            i <= args@.len(),
            args_type@.len() == i,
            forall|j: int| 0 <= j < i ==> (#[trigger] args_type@[j])@ == args@[j].1@,
        decreases args@.len() - i,
    {
        args_type.push(args[i].1.clone());
        i = i + 1;
    }
    proof {
        lemma_tys_of(args_type@);
        assert(tys_of(args_type@) =~= at);
    }
    let candidates = fn_registry.search_candidates(name, params, &args_type);
    let ghost cands = crate::function::spec_candidates(
        fn_registry.funcs@,
        fn_registry.factories@,
        name@,
        params@,
        at,
    );
    proof {
        crate::function::lemma_cands_v(candidates@);
    }
    let mut c: usize = 0;
    while c < candidates.len()
        invariant
            c <= candidates@.len(),
            at == arg_tys(args@),
            args_type@.len() == args@.len(),
            forall|i: int| 0 <= i < args@.len() ==> generic_free((#[trigger] args@[i]).1@),
            cands == crate::function::cands_v(candidates@),
            cands == crate::function::spec_candidates(
                fn_registry.funcs@,
                fn_registry.factories@,
                name@,
                params@,
                arg_tys(args@),
            ),
            cands.len() == candidates@.len(),
            forall|i: int|
                0 <= i < candidates@.len() ==> cands[i] == (((#[trigger] candidates@[i]).0)@, (
                candidates@[i].1)@),
            forall|i: int|
                0 <= i < candidates@.len() ==> (#[trigger] candidates@[
                    i
                ]).1@.signature.args_type.len() == args@.len(),
            forall|j: int|
                0 <= j < c ==> !try_check_ok(at, (#[trigger] cands[j]).1.signature),
        decreases candidates@.len() - c,
    {
        let func = &candidates[c].1;
        proof {
            lemma_tys_of(func.signature.args_type@);
        }
        match try_check_function(args, &func.signature) {
            Some((checked_args, return_ty, generics, prop)) => {
                let id = candidates[c].0.clone();
                let function = func.clone();
                proof {
                    crate::expr::lemma_exprs_v(checked_args@);
                    lemma_tys_of(function.signature.args_type@);
                    assert(try_check_ok(at, cands[c as int].1.signature));
                    lemma_first_ok_at(cands, at, c as int);
                    assert(first_ok(cands, at) == Some(c as int));
                }
                let result_expr = Expr::FunctionCall { id, function, generics, args: checked_args };
                proof {
                    assert(result_expr@ matches ExprV::FunctionCall {
                        id: idv,
                        function: fv,
                        generics: gv,
                        args: checked,
                    } && idv == cands[c as int].0 && fv == cands[c as int].1 && checked.len()
                        == args@.len());
                    assert(func.signature@ == cands[c as int].1.signature);
                    assert(return_ty@ == apply_b(
                        sig_binding(at, cands[c as int].1.signature.args_type),
                        cands[c as int].1.signature.return_type,
                    )->Some_0);
                    assert(prop.not_null == ((!(return_ty@ is Nullable) && !(return_ty@ is Null))
                        || (cands[c as int].1.signature.property.preserve_not_null && forall|i: int|
                        0 <= i < args@.len() ==> (#[trigger] args@[i]).2.not_null)));
                }
                return Some((result_expr, return_ty, prop));
            },
            None => {
                proof {
                    assert(!try_check_ok(at, cands[c as int].1.signature));
                }
            },
        }
        c = c + 1;
    }
    proof {
        lemma_first_ok_none(cands, at);
    }
    None
}

/// Type-checks an untyped expression against a registry: literals have their
/// static type, column references their declared type and property, and a
/// function call resolves to the first matching candidate with casts
/// inserted where coercion is needed.
pub fn check(ast: &AST, fn_registry: &FunctionRegistry) -> (r: Option<(Expr, DataType, ValueProperty)>)
    requires
        ast_generic_free(ast@),
    ensures
        r matches Some(out) ==> generic_free(out.1@),
        ast@ is Literal ==> (r matches Some(out) && out.0@ == ExprV::Literal(ast@->Literal_0)
            && out.1@ == lit_ty(ast@->Literal_0) && out.2.not_null == !(ast@->Literal_0 is Null)),
        ast@ is ColumnRef ==> (r matches Some(out) && out.0@ == (ExprV::ColumnRef {
            name: ast@->ColumnRef_name,
        }) && out.1@ == ast@->ColumnRef_data_type && out.2 == ast@->ColumnRef_property),
        ast@ is FunctionCall ==> (r matches Some(out) ==> (out.0@ matches ExprV::FunctionCall {
            id,
            function,
            generics,
            args: checked,
        } && checked.len() == ast@->FunctionCall_args.len())),
        ast@ matches AstV::FunctionCall { name, params, args } ==> (r is None || exists|
            checked: Seq<(Expr, DataType, ValueProperty)>,
        |
            #[trigger] checked.len() == args.len() && check_function_post(
                crate::function::spec_candidates(
                    fn_registry.funcs@,
                    fn_registry.factories@,
                    name,
                    params,
                    arg_tys(checked),
                ),
                checked,
                r,
            )),
    decreases *ast,
{
    match ast {
        AST::Literal(lit) => {
            let (ty, prop) = check_literal(lit);
            Some((Expr::Literal(lit.clone()), ty, prop))
        },
        AST::ColumnRef { name, data_type, property } => Some(
            (Expr::ColumnRef { name: name.clone() }, data_type.clone(), *property),
        ),
        AST::FunctionCall { name, params, args } => {
            proof {
                crate::expr::lemma_asts_v(args@);
                lemma_asts_generic_free(ast@->FunctionCall_args);
            }
            let ghost model = ast@->FunctionCall_args;
            let mut checked: Vec<(Expr, DataType, ValueProperty)> = Vec::new();
            let mut i: usize = 0;
            while i < args.len()
                invariant
                    i <= args@.len(),
                    *ast == (AST::FunctionCall { name: *name, params: *params, args: *args }),
                    model == crate::expr::ast_v(*ast)->FunctionCall_args,
                    model.len() == args@.len(),
                    forall|j: int|
                        0 <= j < args@.len() ==> model[j] == crate::expr::ast_v(
                            #[trigger] args@[j],
                        ),
                    forall|j: int| 0 <= j < args@.len() ==> ast_generic_free(#[trigger] model[j]),
                    checked@.len() == i,
                    forall|j: int| 0 <= j < i ==> generic_free((#[trigger] checked@[j]).1@),
                decreases args@.len() - i,
            {
                proof {
                    assert(decreases_to!(*ast => *args));
                    assert(decreases_to!(*args => args@));
                    assert(decreases_to!(args@ => args@[i as int]));
                }
                match check(&args[i], fn_registry) {
                    Some((e, t, p)) => {
                        checked.push((e, t, p));
                    },
                    None => {
                        return None;
                    },
                }
                i = i + 1;
            }
            let r = check_function(name.as_str(), &checked, params, fn_registry);
            proof {
                if !(r is None) {
                    assert(checked@.len() == ast@->FunctionCall_args.len() && check_function_post(
                        crate::function::spec_candidates(
                            fn_registry.funcs@,
                            fn_registry.factories@,
                            name@,
                            params@,
                            arg_tys(checked@),
                        ),
                        checked@,
                        r,
                    ));
                }
            }
            r
        },
    }
}

} // verus!


