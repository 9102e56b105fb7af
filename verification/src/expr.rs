//! Expressions: the untyped input tree handed to the type checker and the
//! typed tree it produces for the evaluator.

use vstd::prelude::*;

use crate::function::FidV;
use crate::function::FnV;
use crate::function::Function;
use crate::function::FunctionID;
use crate::property::ValueProperty;
use crate::types::tys_of;
use crate::types::DataType;
use crate::types::Ty;
use crate::values::Val;

verus! {

/// The model of a literal.
pub ghost enum LitV {
    Null,
    Int8(i8),
    Int16(i16),
    UInt8(u8),
    UInt16(u16),
    Boolean(bool),
    String(Seq<char>),
}

/// A literal constant: the primitives plus null.
#[derive(Debug, PartialEq)]
pub enum Literal {
    Null,
    Int8(i8),
    Int16(i16),
    UInt8(u8),
    UInt16(u16),
    Boolean(bool),
    String(String),
}

impl View for Literal {
    type V = LitV;

    open spec fn view(&self) -> LitV {
        match self {
            Literal::Null => LitV::Null,
            Literal::Int8(x) => LitV::Int8(*x),
            Literal::Int16(x) => LitV::Int16(*x),
            Literal::UInt8(x) => LitV::UInt8(*x),
            Literal::UInt16(x) => LitV::UInt16(*x),
            Literal::Boolean(x) => LitV::Boolean(*x),
            Literal::String(x) => LitV::String(x@),
        }
    }
}

impl Clone for Literal {
    /// A clone has the same model as the original.
    fn clone(&self) -> (r: Self)
        ensures
            r@ == self@,
    {
        match self {
            Literal::Null => Literal::Null,
            Literal::Int8(x) => Literal::Int8(*x),
            Literal::Int16(x) => Literal::Int16(*x),
            Literal::UInt8(x) => Literal::UInt8(*x),
            Literal::UInt16(x) => Literal::UInt16(*x),
            Literal::Boolean(x) => Literal::Boolean(*x),
            Literal::String(x) => Literal::String(x.clone()),
        }
    }
}

/// The statically known type of a literal.
pub open spec fn lit_ty(l: LitV) -> Ty {
    match l {
        LitV::Null => Ty::Null,
        LitV::Int8(_) => Ty::Int8,
        LitV::Int16(_) => Ty::Int16,
        LitV::UInt8(_) => Ty::UInt8,
        LitV::UInt16(_) => Ty::UInt16,
        LitV::Boolean(_) => Ty::Boolean,
        LitV::String(_) => Ty::String,
    }
}

/// The value a literal denotes.
pub open spec fn lit_val(l: LitV) -> Val {
    match l {
        LitV::Null => Val::Null,
        LitV::Int8(x) => Val::Int8(x),
        LitV::Int16(x) => Val::Int16(x),
        LitV::UInt8(x) => Val::UInt8(x),
        LitV::UInt16(x) => Val::UInt16(x),
        LitV::Boolean(x) => Val::Bool(x),
        LitV::String(x) => Val::Str(x),
    }
}

/// The model of an untyped expression.
pub ghost enum AstV {
    Literal(LitV),
    ColumnRef { name: Seq<char>, data_type: Ty, property: ValueProperty },
    FunctionCall { name: Seq<char>, params: Seq<usize>, args: Seq<AstV> },
}

/// An untyped input expression: a literal, a reference to a named input
/// column with its declared type and property, or a function call with
/// optional constant parameters.
#[derive(Debug)]
pub enum AST {
    Literal(Literal),
    ColumnRef { name: String, data_type: DataType, property: ValueProperty },
    FunctionCall { name: String, params: Vec<usize>, args: Vec<AST> },
}

/// The model of an untyped expression.
pub open spec fn ast_v(a: AST) -> AstV
    decreases a,
    via ast_v_dec
{
    match a {
        AST::Literal(l) => AstV::Literal(l@),
        AST::ColumnRef { name, data_type, property } => AstV::ColumnRef {
            name: name@,
            data_type: data_type@,
            property,
        },
        AST::FunctionCall { name, params, args } => AstV::FunctionCall {
            name: name@,
            params: params@,
            args: asts_v(args@),
        },
    }
}

/// The models of a sequence of untyped expressions, elementwise.
pub open spec fn asts_v(s: Seq<AST>) -> Seq<AstV>
    decreases s,
{
    if s.len() == 0 {
        Seq::empty()
    } else {
        asts_v(s.subrange(0, s.len() - 1)).push(ast_v(s[s.len() - 1]))
    }
}

#[via_fn]
proof fn ast_v_dec(a: AST) {
    match a {
        AST::FunctionCall { name, params, args } => {
            assert(decreases_to!(a => args));
            assert(decreases_to!(args => args@));
        },
        _ => {},
    }
}

/// `asts_v` maps `ast_v` over the sequence.
pub broadcast proof fn lemma_asts_v(s: Seq<AST>)
    ensures
        (#[trigger] asts_v(s)).len() == s.len(),
        forall|i: int| 0 <= i < s.len() ==> asts_v(s)[i] == ast_v(#[trigger] s[i]),
    decreases s,
{
    if s.len() > 0 {
        lemma_asts_v(s.subrange(0, s.len() - 1));
        assert(forall|i: int| 0 <= i < s.len() - 1 ==> s.subrange(0, s.len() - 1)[i] == s[i]);
    }
}

impl View for AST {
    type V = AstV;

    open spec fn view(&self) -> AstV {
        ast_v(*self)
    }
}

/// No type handed to the checker mentions a type variable.
pub open spec fn ast_generic_free(a: AstV) -> bool
    decreases a,
{
    match a {
        AstV::Literal(_) => true,
        AstV::ColumnRef { data_type, .. } => crate::types::generic_free(data_type),
        AstV::FunctionCall { args, .. } => asts_generic_free(args),
    }
}

/// `ast_generic_free`, over a sequence of arguments.
pub open spec fn asts_generic_free(s: Seq<AstV>) -> bool
    decreases s,
{
    if s.len() == 0 {
        true
    } else {
        asts_generic_free(s.subrange(0, s.len() - 1)) && ast_generic_free(s[s.len() - 1])
    }
}

/// `asts_generic_free` holds exactly when it holds of every element.
pub broadcast proof fn lemma_asts_generic_free(s: Seq<AstV>)
    ensures
        #[trigger] asts_generic_free(s) <==> (forall|i: int|
            0 <= i < s.len() ==> ast_generic_free(#[trigger] s[i])),
    decreases s,
{
    if s.len() > 0 {
        lemma_asts_generic_free(s.subrange(0, s.len() - 1));
        assert(forall|i: int| 0 <= i < s.len() - 1 ==> s.subrange(0, s.len() - 1)[i] == s[i]);
    }
}

/// The model of a checked expression.
pub ghost enum ExprV {
    Literal(LitV),
    ColumnRef { name: Seq<char> },
    Cast { expr: Box<ExprV>, dest_type: Ty },
    FunctionCall {
        id: FidV,
        function: FnV,
        generics: Seq<Ty>,
        args: Seq<(ExprV, ValueProperty)>,
    },
}

/// A checked expression, ready for evaluation: literals, column references,
/// inserted casts, and fully resolved function calls carrying their argument
/// properties.
#[derive(Debug)]
pub enum Expr {
    Literal(Literal),
    ColumnRef { name: String },
    Cast { expr: Box<Expr>, dest_type: DataType },
    FunctionCall {
        id: FunctionID,
        function: Function,
        generics: Vec<DataType>,
        args: Vec<(Expr, ValueProperty)>,
    },
}

/// The model of a checked expression.
pub open spec fn expr_v(e: Expr) -> ExprV
    decreases e,
    via expr_v_dec
{
    match e {
        Expr::Literal(l) => ExprV::Literal(l@),
        Expr::ColumnRef { name } => ExprV::ColumnRef { name: name@ },
        Expr::Cast { expr, dest_type } => ExprV::Cast {
            expr: Box::new(expr_v(*expr)),
            dest_type: dest_type@,
        },
        Expr::FunctionCall { id, function, generics, args } => ExprV::FunctionCall {
            id: id@,
            function: function@,
            generics: tys_of(generics@),
            args: exprs_v(args@),
        },
    }
}

/// The models of a sequence of checked arguments, elementwise.
pub open spec fn exprs_v(s: Seq<(Expr, ValueProperty)>) -> Seq<(ExprV, ValueProperty)>
    decreases s,
{
    if s.len() == 0 {
        Seq::empty()
    } else {
        exprs_v(s.subrange(0, s.len() - 1)).push(
            (expr_v(s[s.len() - 1].0), s[s.len() - 1].1),
        )
    }
}

#[via_fn]
proof fn expr_v_dec(e: Expr) {
    match e {
        Expr::FunctionCall { id, function, generics, args } => {
            assert(decreases_to!(e => args));
            assert(decreases_to!(args => args@));
            assert forall|i: int| 0 <= i < args@.len() implies decreases_to!(args@ => args@[i].0) by {
                assert(decreases_to!(args@ => args@[i]));
                assert(decreases_to!(args@[i] => args@[i].0));
            }
        },
        _ => {},
    }
}

/// `exprs_v` maps `expr_v` over the sequence.
pub broadcast proof fn lemma_exprs_v(s: Seq<(Expr, ValueProperty)>)
    ensures
        (#[trigger] exprs_v(s)).len() == s.len(),
        forall|i: int|
            0 <= i < s.len() ==> exprs_v(s)[i] == (expr_v((#[trigger] s[i]).0), s[i].1),
    decreases s,
{
    if s.len() > 0 {
        lemma_exprs_v(s.subrange(0, s.len() - 1));
        assert(forall|i: int| 0 <= i < s.len() - 1 ==> s.subrange(0, s.len() - 1)[i] == s[i]);
    }
}

impl View for Expr {
    type V = ExprV;

    open spec fn view(&self) -> ExprV {
        expr_v(*self)
    }
}

impl Clone for Expr {
    /// A clone has the same model as the original.
    fn clone(&self) -> (r: Self)
        ensures
            r@ == self@,
        decreases *self,
    {
        match self {
            Expr::Literal(l) => Expr::Literal(l.clone()),
            Expr::ColumnRef { name } => Expr::ColumnRef { name: name.clone() },
            Expr::Cast { expr, dest_type } => Expr::Cast {
                expr: Box::new((**expr).clone()),
                dest_type: dest_type.clone(),
            },
            Expr::FunctionCall { id, function, generics, args } => {
                proof {
                    lemma_exprs_v(args@);
                }
                let ghost model = self@->FunctionCall_args;
                let mut out: Vec<(Expr, ValueProperty)> = Vec::new();
                let mut i: usize = 0;
                while i < args.len()
                    invariant
                        i <= args@.len(),
                        out@.len() == i,
                        *self == (Expr::FunctionCall {
                            id: *id,
                            function: *function,
                            generics: *generics,
                            args: *args,
                        }),
                        model == expr_v(*self)->FunctionCall_args,
                        model.len() == args@.len(),
                        forall|j: int|
                            0 <= j < args@.len() ==> model[j] == (
                            expr_v(#[trigger] args@[j].0),
                            args@[j].1,
                            ),
                        forall|j: int|
                            0 <= j < i ==> (expr_v((#[trigger] out@[j]).0), out@[j].1) == model[j],
                    decreases args@.len() - i,
                {
                    proof {
                        assert(decreases_to!(*self => *args));
                        assert(decreases_to!(*args => args@));
                        assert(decreases_to!(args@ => args@[i as int]));
                        assert(decreases_to!(args@[i as int] => args@[i as int].0));
                    }
                    let pair = (args[i].0.clone(), args[i].1);
                    out.push(pair);
                    i = i + 1;
                }
                let r = Expr::FunctionCall {
                    id: id.clone(),
                    function: function.clone(),
                    generics: crate::types::clone_types(generics),
                    args: out,
                };
                proof {
                    lemma_exprs_v(out@);
                    assert forall|j: int| 0 <= j < model.len() implies #[trigger] exprs_v(out@)[j]
                        == model[j] by {
                        assert(exprs_v(out@)[j] == (expr_v(out@[j].0), out@[j].1));
                    }
                    assert(exprs_v(out@) =~= model);
                }
                r
            },
        }
    }
}

} // verus!
