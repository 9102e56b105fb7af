//! Human-readable display forms of types, literals, properties and
//! expression trees, stable enough to drive golden-file style tests.

use vstd::prelude::*;

use crate::expr::AstV;
use crate::expr::ExprV;
use crate::expr::LitV;
use crate::expr::Literal;
use crate::expr::AST;
use crate::property::ValueProperty;
use crate::types::ty_of;
use crate::types::DataType;
use crate::types::Ty;

verus! {

/// The digit character for one decimal digit.
pub open spec fn digit(d: int) -> char {
    if d == 0 {
        '0'
    } else if d == 1 {
        '1'
    } else if d == 2 {
        '2'
    } else if d == 3 {
        '3'
    } else if d == 4 {
        '4'
    } else if d == 5 {
        '5'
    } else if d == 6 {
        '6'
    } else if d == 7 {
        '7'
    } else if d == 8 {
        '8'
    } else {
        '9'
    }
}

/// The decimal rendering of a non-negative number.
pub open spec fn dec_str(n: int) -> Seq<char>
    decreases n,
{
    if n < 10 {
        seq![digit(n)]
    } else {
        dec_str(n / 10).push(digit(n % 10))
    }
}

/// The decimal rendering of a signed number: a minus sign for negatives.
pub open spec fn int_str(n: int) -> Seq<char> {
    if n < 0 {
        seq!['-'] + dec_str(-n)
    } else {
        dec_str(n)
    }
}

/// Renders one decimal digit.
fn digit_str(d: usize) -> (r: &'static str)
    requires
        d < 10,
    ensures
        r@ =~= seq![digit(d as int)],
{
    let r = match d {
        0 => "0",
        1 => "1",
        2 => "2",
        3 => "3",
        4 => "4",
        5 => "5",
        6 => "6",
        7 => "7",
        8 => "8",
        _ => "9",
    };
    proof {
        reveal_strlit("0");
        reveal_strlit("1");
        reveal_strlit("2");
        reveal_strlit("3");
        reveal_strlit("4");
        reveal_strlit("5");
        reveal_strlit("6");
        reveal_strlit("7");
        reveal_strlit("8");
        reveal_strlit("9");
    }
    r
}

/// Renders a number in decimal.
pub fn usize_str(n: usize) -> (r: String)
    ensures
        r@ == dec_str(n as int),
    decreases n,
{
    if n < 10 {
        let mut s = String::new();
        s.append(digit_str(n));
        proof {
            assert(s@ =~= dec_str(n as int));
        }
        s
    } else {
        let mut s = usize_str(n / 10);
        s.append(digit_str(n % 10));
        proof {
            assert(s@ =~= dec_str(n as int));
        }
        s
    }
}

/// Renders a signed 16-bit number in decimal.
pub fn i16_str(x: i16) -> (r: String)
    ensures
        r@ == int_str(x as int),
{
    if x < 0 {
        let m = -(x as i32);
        let mut s = String::new();
        s.append("-");
        let mag = usize_str(m as usize);
        s.append(mag.as_str());
        proof {
            reveal_strlit("-");
            assert(s@ =~= int_str(x as int));
        }
        s
    } else {
        let r = usize_str(x as usize);
        r
    }
}

/// The SQL-like name of a data type: `Nullable<Int16>`, `Array<String>`,
/// `(A, B)` for tuples, `T0` for a type variable, and `Nullable<?>` and
/// `Array<?>` for the types of the null value and the empty array.
pub open spec fn ty_display(t: Ty) -> Seq<char>
    decreases t, 1int, 0int,
{
    match t {
        Ty::Boolean => "Boolean"@,
        Ty::String => "String"@,
        Ty::UInt8 => "UInt8"@,
        Ty::UInt16 => "UInt16"@,
        Ty::Int8 => "Int8"@,
        Ty::Int16 => "Int16"@,
        Ty::Null => "Nullable<?>"@,
        Ty::Nullable(inner) => "Nullable<"@ + ty_display(*inner) + ">"@,
        Ty::EmptyArray => "Array<?>"@,
        Ty::Array(inner) => "Array<"@ + ty_display(*inner) + ">"@,
        Ty::Tuple(ts) => if ts.len() == 1 {
            "("@ + ty_display(ts[0]) + ",)"@
        } else {
            "("@ + comma_tys(ts) + ")"@
        },
        Ty::Generic(k) => "T"@ + dec_str(k),
    }
}

/// A comma-separated list of type names.
pub open spec fn comma_tys(ts: Seq<Ty>) -> Seq<char>
    decreases ts, 2int, ts.len(),
{
    if ts.len() == 0 {
        Seq::empty()
    } else if ts.len() == 1 {
        ty_display(ts[0])
    } else {
        comma_tys(ts.subrange(0, ts.len() - 1)) + ", "@ + ty_display(ts[ts.len() - 1])
    }
}

impl DataType {
    /// The SQL-like rendering of this type.
    pub fn sql_display(&self) -> (r: String)
        ensures
            r@ == ty_display(self@),
        decreases *self,
    {
        match self {
            DataType::Boolean => {
                let mut s = String::new();
                s.append("Boolean");
                s
            },
            DataType::String => {
                let mut s = String::new();
                s.append("String");
                s
            },
            DataType::UInt8 => {
                let mut s = String::new();
                s.append("UInt8");
                s
            },
            DataType::UInt16 => {
                let mut s = String::new();
                s.append("UInt16");
                s
            },
            DataType::Int8 => {
                let mut s = String::new();
                s.append("Int8");
                s
            },
            DataType::Int16 => {
                let mut s = String::new();
                s.append("Int16");
                s
            },
            DataType::Null => {
                let mut s = String::new();
                s.append("Nullable<?>");
                s
            },
            DataType::EmptyArray => {
                let mut s = String::new();
                s.append("Array<?>");
                s
            },
            DataType::Nullable(inner) => {
                let mut s = String::new();
                s.append("Nullable<");
                let i = inner.sql_display();
                s.append(i.as_str());
                s.append(">");
                proof {
                    assert(s@ =~= ty_display(self@));
                }
                s
            },
            DataType::Array(inner) => {
                let mut s = String::new();
                s.append("Array<");
                let i = inner.sql_display();
                s.append(i.as_str());
                s.append(">");
                proof {
                    assert(s@ =~= ty_display(self@));
                }
                s
            },
            DataType::Tuple(fields) => {
                proof {
                    crate::types::lemma_tys_of(fields@);
                }
                let ghost mt = self@->Tuple_0;
                let mut body = String::new();
                let mut i: usize = 0;
                while i < fields.len()
                    invariant
                        i <= fields@.len(),
                        *self == DataType::Tuple(*fields),
                        mt == ty_of(*self)->Tuple_0,
                        mt.len() == fields@.len(),
                        forall|j: int|
                            0 <= j < fields@.len() ==> mt[j] == ty_of(#[trigger] fields@[j]),
                        body@ == comma_tys(mt.subrange(0, i as int)),
                    decreases fields@.len() - i,
                {
                    proof {
                        assert(decreases_to!(*self => *fields));
                        assert(decreases_to!(*fields => fields@));
                        assert(decreases_to!(fields@ => fields@[i as int]));
                    }
                    if i > 0 {
                        body.append(", ");
                    }
                    let f = fields[i].sql_display();
                    body.append(f.as_str());
                    proof {
                        reveal_strlit(", ");
                        let pre = mt.subrange(0, i as int);
                        let cur = mt.subrange(0, i as int + 1);
                        assert(cur.subrange(0, cur.len() - 1) =~= pre);
                        assert(cur[cur.len() - 1] == mt[i as int]);
                        if i == 0 {
                            assert(body@ =~= comma_tys(cur));
                        } else {
                            assert(body@ =~= comma_tys(cur));
                        }
                    }
                    i = i + 1;
                }
                proof {
                    assert(mt.subrange(0, mt.len() as int) =~= mt);
                }
                let mut s = String::new();
                s.append("(");
                s.append(body.as_str());
                if fields.len() == 1 {
                    s.append(",)");
                } else {
                    s.append(")");
                }
                proof {
                    reveal_strlit(",)");
                    reveal_strlit(")");
                    reveal_strlit("(");
                    if fields@.len() == 1 {
                        assert(comma_tys(mt) == ty_display(mt[0]));
                        assert(s@ =~= ty_display(self@));
                    } else {
                        assert(s@ =~= ty_display(self@));
                    }
                }
                s
            },
            DataType::Generic(k) => {
                let mut s = String::new();
                s.append("T");
                let d = usize_str(*k);
                s.append(d.as_str());
                proof {
                    reveal_strlit("T");
                    assert(s@ =~= ty_display(self@));
                }
                s
            },
        }
    }
}

/// The rendering of a literal: `NULL`, or the value followed by `::` and
/// its type name.
pub open spec fn lit_display(l: LitV) -> Seq<char> {
    match l {
        LitV::Null => "NULL"@,
        LitV::Boolean(x) => (if x {
            "true"@
        } else {
            "false"@
        }) + "::Boolean"@,
        LitV::UInt8(x) => dec_str(x as int) + "::UInt8"@,
        LitV::UInt16(x) => dec_str(x as int) + "::UInt16"@,
        LitV::Int8(x) => int_str(x as int) + "::Int8"@,
        LitV::Int16(x) => int_str(x as int) + "::Int16"@,
        LitV::String(x) => x + "::String"@,
    }
}

impl Literal {
    /// The rendering of this literal.
    pub fn display(&self) -> (r: String)
        ensures
            r@ == lit_display(self@),
    {
        let mut s = String::new();
        match self {
            Literal::Null => {
                s.append("NULL");
            },
            Literal::Boolean(x) => {
                if *x {
                    s.append("true");
                } else {
                    s.append("false");
                }
                s.append("::Boolean");
            },
            Literal::UInt8(x) => {
                let d = usize_str(*x as usize);
                s.append(d.as_str());
                s.append("::UInt8");
            },
            Literal::UInt16(x) => {
                let d = usize_str(*x as usize);
                s.append(d.as_str());
                s.append("::UInt16");
            },
            Literal::Int8(x) => {
                let d = i16_str(*x as i16);
                s.append(d.as_str());
                s.append("::Int8");
            },
            Literal::Int16(x) => {
                let d = i16_str(*x);
                s.append(d.as_str());
                s.append("::Int16");
            },
            Literal::String(x) => {
                s.append(x.as_str());
                s.append("::String");
            },
        }
        proof {
            assert(s@ =~= lit_display(self@));
        }
        s
    }
}

/// The rendering of a value property: `{not_null}` when the value is known
/// non-null, `{}` otherwise.
pub open spec fn prop_display(p: ValueProperty) -> Seq<char> {
    if p.not_null {
        "{not_null}"@
    } else {
        "{}"@
    }
}

impl ValueProperty {
    /// The rendering of this property.
    pub fn display(&self) -> (r: String)
        ensures
            r@ == prop_display(*self),
    {
        let mut s = String::new();
        if self.not_null {
            s.append("{not_null}");
        } else {
            s.append("{}");
        }
        proof {
            assert(s@ =~= prop_display(*self));
        }
        s
    }
}


/// A comma-separated list of numbers.
pub open spec fn comma_usizes(ps: Seq<usize>) -> Seq<char>
    decreases ps.len(),
{
    if ps.len() == 0 {
        Seq::empty()
    } else if ps.len() == 1 {
        dec_str(ps[0] as int)
    } else {
        comma_usizes(ps.subrange(0, ps.len() - 1)) + ", "@ + dec_str(ps[ps.len() - 1] as int)
    }
}

/// The rendering of an untyped expression: a literal, `name::type{props}`
/// for a column reference, or the call with its optional constant
/// parameters and its arguments.
pub open spec fn ast_display(a: AstV) -> Seq<char>
    decreases a, 1int, 0int,
{
    match a {
        AstV::Literal(l) => lit_display(l),
        AstV::ColumnRef { name, data_type, property } => name + "::"@ + ty_display(data_type)
            + prop_display(property),
        AstV::FunctionCall { name, params, args } => name + (if params.len() > 0 {
            "("@ + comma_usizes(params) + ")"@
        } else {
            Seq::empty()
        }) + "("@ + comma_asts(args) + ")"@,
    }
}

/// A comma-separated list of untyped expressions.
pub open spec fn comma_asts(args: Seq<AstV>) -> Seq<char>
    decreases args, 2int, args.len(),
{
    if args.len() == 0 {
        Seq::empty()
    } else if args.len() == 1 {
        ast_display(args[0])
    } else {
        comma_asts(args.subrange(0, args.len() - 1)) + ", "@ + ast_display(args[args.len() - 1])
    }
}

/// Renders a comma-separated list of numbers.
fn comma_usizes_str(ps: &Vec<usize>) -> (r: String)
    ensures
        r@ == comma_usizes(ps@),
{
    let mut s = String::new();
    let mut i: usize = 0;
    while i < ps.len()
        invariant
            i <= ps@.len(),
            s@ == comma_usizes(ps@.subrange(0, i as int)),
        decreases ps@.len() - i,
    {
        if i > 0 {
            s.append(", ");
        }
        let d = usize_str(ps[i]);
        s.append(d.as_str());
        proof {
            reveal_strlit(", ");
            let pre = ps@.subrange(0, i as int);
            let cur = ps@.subrange(0, i as int + 1);
            assert(cur.subrange(0, cur.len() - 1) =~= pre);
            assert(cur[cur.len() - 1] == ps@[i as int]);
            assert(s@ =~= comma_usizes(cur));
        }
        i = i + 1;
    }
    proof {
        assert(ps@.subrange(0, ps@.len() as int) =~= ps@);
    }
    s
}

impl AST {
    /// The rendering of this untyped expression.
    pub fn display(&self) -> (r: String)
        ensures
            r@ == ast_display(self@),
        decreases *self,
    {
        match self {
            AST::Literal(l) => l.display(),
            AST::ColumnRef { name, data_type, property } => {
                let mut s = String::new();
                s.append(name.as_str());
                s.append("::");
                let t = data_type.sql_display();
                s.append(t.as_str());
                let p = property.display();
                s.append(p.as_str());
                proof {
                    reveal_strlit("::");
                    assert(s@ =~= ast_display(self@));
                }
                s
            },
            AST::FunctionCall { name, params, args } => {
                proof {
                    crate::expr::lemma_asts_v(args@);
                }
                let ghost model = self@->FunctionCall_args;
                let mut s = String::new();
                s.append(name.as_str());
                if params.len() > 0 {
                    s.append("(");
                    let p = comma_usizes_str(params);
                    s.append(p.as_str());
                    s.append(")");
                }
                s.append("(");
                let ghost head = s@;
                let mut i: usize = 0;
                while i < args.len()
                    invariant
                        i <= args@.len(),
                        *self == (AST::FunctionCall {
                            name: *name,
                            params: *params,
                            args: *args,
                        }),
                        model == crate::expr::ast_v(*self)->FunctionCall_args,
                        model.len() == args@.len(),
                        forall|j: int|
                            0 <= j < args@.len() ==> model[j] == crate::expr::ast_v(
                                #[trigger] args@[j],
                            ),
                        s@ == head + comma_asts(model.subrange(0, i as int)),
                    decreases args@.len() - i,
                {
                    proof {
                        assert(decreases_to!(*self => *args));
                        assert(decreases_to!(*args => args@));
                        assert(decreases_to!(args@ => args@[i as int]));
                    }
                    if i > 0 {
                        s.append(", ");
                    }
                    let a = args[i].display();
                    s.append(a.as_str());
                    proof {
                        reveal_strlit(", ");
                        let pre = model.subrange(0, i as int);
                        let cur = model.subrange(0, i as int + 1);
                        assert(cur.subrange(0, cur.len() - 1) =~= pre);
                        assert(cur[cur.len() - 1] == model[i as int]);
                        assert(s@ =~= head + comma_asts(cur));
                    }
                    i = i + 1;
                }
                s.append(")");
                proof {
                    reveal_strlit("(");
                    reveal_strlit(")");
                    assert(model.subrange(0, model.len() as int) =~= model);
                    assert(s@ =~= ast_display(self@));
                }
                s
            },
        }
    }
}

/// The resolved generics of a call, rendered as `T0=..., T1=...`.
pub open spec fn gens_display(ts: Seq<Ty>) -> Seq<char>
    decreases ts.len(),
{
    if ts.len() == 0 {
        Seq::empty()
    } else if ts.len() == 1 {
        "T"@ + dec_str(0) + "="@ + ty_display(ts[0])
    } else {
        gens_display(ts.subrange(0, ts.len() - 1)) + ", "@ + "T"@ + dec_str(ts.len() - 1) + "="@
            + ty_display(ts[ts.len() - 1])
    }
}

/// The rendering of a checked expression: literals and column names as
/// themselves, casts as `cast<dest_type=..>(..)`, and calls with their
/// resolved generics, declared argument types, and argument properties.
pub open spec fn expr_display(e: ExprV) -> Seq<char>
    decreases e, 1int, 0int,
{
    match e {
        ExprV::Literal(l) => lit_display(l),
        ExprV::ColumnRef { name } => name,
        ExprV::Cast { expr, dest_type } => "cast<dest_type="@ + ty_display(dest_type) + ">("@
            + expr_display(*expr) + ")"@,
        ExprV::FunctionCall { id, function, generics, args } => function.signature.name + (
        if generics.len() > 0 {
            "<"@ + gens_display(generics) + ">"@
        } else {
            Seq::empty()
        }) + "<"@ + comma_tys(function.signature.args_type) + ">"@ + "("@ + comma_exprs(args)
            + ")"@,
    }
}

/// A comma-separated list of checked arguments, each with its property.
pub open spec fn comma_exprs(args: Seq<(ExprV, ValueProperty)>) -> Seq<char>
    decreases args, 2int, args.len(),
{
    if args.len() == 0 {
        Seq::empty()
    } else if args.len() == 1 {
        expr_display(args[0].0) + prop_display(args[0].1)
    } else {
        comma_exprs(args.subrange(0, args.len() - 1)) + ", "@ + expr_display(
            args[args.len() - 1].0,
        ) + prop_display(args[args.len() - 1].1)
    }
}

/// Renders the data types of a signature as a comma-separated list.
fn comma_tys_str(ts: &Vec<DataType>) -> (r: String)
    ensures
        r@ == comma_tys(crate::types::tys_of(ts@)),
{
    proof {
        crate::types::lemma_tys_of(ts@);
    }
    let ghost model = crate::types::tys_of(ts@);
    let mut s = String::new();
    let mut i: usize = 0;
    while i < ts.len()
        invariant
            i <= ts@.len(),
            model == crate::types::tys_of(ts@),
            model.len() == ts@.len(),
            forall|j: int| 0 <= j < ts@.len() ==> model[j] == ty_of(#[trigger] ts@[j]),
            s@ == comma_tys(model.subrange(0, i as int)),
        decreases ts@.len() - i,
    {
        if i > 0 {
            s.append(", ");
        }
        let t = ts[i].sql_display();
        s.append(t.as_str());
        proof {
            reveal_strlit(", ");
            let pre = model.subrange(0, i as int);
            let cur = model.subrange(0, i as int + 1);
            assert(cur.subrange(0, cur.len() - 1) =~= pre);
            assert(cur[cur.len() - 1] == model[i as int]);
            assert(s@ =~= comma_tys(cur));
        }
        i = i + 1;
    }
    proof {
        assert(model.subrange(0, model.len() as int) =~= model);
    }
    s
}

impl crate::expr::Expr {
    /// The rendering of this checked expression.
    pub fn display(&self) -> (r: String)
        ensures
            r@ == expr_display(self@),
        decreases *self,
    {
        match self {
            crate::expr::Expr::Literal(l) => l.display(),
            crate::expr::Expr::ColumnRef { name } => {
                let mut s = String::new();
                s.append(name.as_str());
                proof {
                    assert(s@ =~= expr_display(self@));
                }
                s
            },
            crate::expr::Expr::Cast { expr, dest_type } => {
                let mut s = String::new();
                s.append("cast<dest_type=");
                let t = dest_type.sql_display();
                s.append(t.as_str());
                s.append(">(");
                let e = expr.display();
                s.append(e.as_str());
                s.append(")");
                proof {
                    reveal_strlit("cast<dest_type=");
                    reveal_strlit(">(");
                    reveal_strlit(")");
                    assert(s@ =~= expr_display(self@));
                }
                s
            },
            crate::expr::Expr::FunctionCall { id, function, generics, args } => {
                proof {
                    crate::expr::lemma_exprs_v(args@);
                    crate::types::lemma_tys_of(generics@);
                }
                let ghost model = self@->FunctionCall_args;
                let ghost gens = self@->FunctionCall_generics;
                let mut s = String::new();
                s.append(function.signature.name.as_str());
                if generics.len() > 0 {
                    s.append("<");
                    let ghost ghead = s@;
                    let mut g = String::new();
                    let mut i: usize = 0;
                    while i < generics.len()
                        invariant
                            i <= generics@.len(),
                            gens == crate::types::tys_of(generics@),
                            gens.len() == generics@.len(),
                            forall|j: int|
                                0 <= j < generics@.len() ==> gens[j] == ty_of(
                                    #[trigger] generics@[j],
                                ),
                            g@ == gens_display(gens.subrange(0, i as int)),
                        decreases generics@.len() - i,
                    {
                        if i > 0 {
                            g.append(", ");
                        }
                        g.append("T");
                        let d = usize_str(i);
                        g.append(d.as_str());
                        g.append("=");
                        let t = generics[i].sql_display();
                        g.append(t.as_str());
                        proof {
                            reveal_strlit(", ");
                            reveal_strlit("T");
                            reveal_strlit("=");
                            let pre = gens.subrange(0, i as int);
                            let cur = gens.subrange(0, i as int + 1);
                            assert(cur.subrange(0, cur.len() - 1) =~= pre);
                            assert(cur[cur.len() - 1] == gens[i as int]);
                            assert(g@ =~= gens_display(cur));
                        }
                        i = i + 1;
                    }
                    s.append(g.as_str());
                    s.append(">");
                    proof {
                        assert(gens.subrange(0, gens.len() as int) =~= gens);
                    }
                }
                s.append("<");
                let sig = comma_tys_str(&function.signature.args_type);
                s.append(sig.as_str());
                s.append(">");
                s.append("(");
                let ghost head = s@;
                let mut i: usize = 0;
                while i < args.len()
                    invariant
                        i <= args@.len(),
                        *self == (crate::expr::Expr::FunctionCall {
                            id: *id,
                            function: *function,
                            generics: *generics,
                            args: *args,
                        }),
                        model == crate::expr::expr_v(*self)->FunctionCall_args,
                        model.len() == args@.len(),
                        forall|j: int|
                            0 <= j < args@.len() ==> model[j] == (
                            crate::expr::expr_v(#[trigger] args@[j].0),
                            args@[j].1,
                            ),
                        s@ == head + comma_exprs(model.subrange(0, i as int)),
                    decreases args@.len() - i,
                {
                    proof {
                        assert(decreases_to!(*self => *args));
                        assert(decreases_to!(*args => args@));
                        assert(decreases_to!(args@ => args@[i as int]));
                        assert(decreases_to!(args@[i as int] => args@[i as int].0));
                    }
                    if i > 0 {
                        s.append(", ");
                    }
                    let a = args[i].0.display();
                    s.append(a.as_str());
                    let p = args[i].1.display();
                    s.append(p.as_str());
                    proof {
                        reveal_strlit(", ");
                        let pre = model.subrange(0, i as int);
                        let cur = model.subrange(0, i as int + 1);
                        assert(cur.subrange(0, cur.len() - 1) =~= pre);
                        assert(cur[cur.len() - 1] == model[i as int]);
                        assert(s@ =~= head + comma_exprs(cur));
                    }
                    i = i + 1;
                }
                s.append(")");
                proof {
                    reveal_strlit("<");
                    reveal_strlit(">");
                    reveal_strlit("(");
                    reveal_strlit(")");
                    assert(model.subrange(0, model.len() as int) =~= model);
                    assert(s@ =~= expr_display(self@));
                }
                s
            },
        }
    }
}

} // verus!

