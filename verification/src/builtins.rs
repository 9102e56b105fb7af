//! The reference catalog of built-in functions and factories.

use vstd::prelude::*;

use crate::function::factories_of;
use crate::function::funcs_of;
use crate::function::kernel1_overloads;
use crate::function::kernel2_overloads;
use crate::function::Evaluator;
use crate::function::FnV;
use crate::function::FunctionFactory;
use crate::function::FunctionRegistry;
use crate::function::Kernel1;
use crate::function::Kernel2;
use crate::function::SigV;
use crate::property::FunctionProperty;
use crate::types::ty_of;
use crate::types::DataType;
use crate::types::Ty;

verus! {

/// The property every mechanically registered overload carries: the output
/// is non-null whenever every argument is.
pub open spec fn catalog_property() -> FunctionProperty {
    FunctionProperty { preserve_not_null: true, commutative: false }
}

/// The single zero-arity `create_array` overload: it returns the empty
/// array.
pub open spec fn create_array_overloads() -> Seq<FnV> {
    seq![
        FnV {
            signature: SigV {
                name: "create_array"@,
                args_type: Seq::empty(),
                return_type: Ty::EmptyArray,
                property: FunctionProperty { preserve_not_null: false, commutative: false },
            },
            eval: Evaluator::EmptyArrayScalar,
        },
    ]
}

/// The four `get` overloads: the core form over an array with a generic
/// element type and an integer index, and the three null short-circuits.
pub open spec fn get_overloads() -> Seq<FnV> {
    seq![
        FnV {
            signature: SigV {
                name: "get"@,
                args_type: seq![Ty::Array(Box::new(Ty::Generic(0))), Ty::Int16],
                return_type: Ty::Generic(0),
                property: catalog_property(),
            },
            eval: Evaluator::Get,
        },
        FnV {
            signature: SigV {
                name: "get"@,
                args_type: seq![Ty::Null, Ty::Int16],
                return_type: Ty::Null,
                property: catalog_property(),
            },
            eval: Evaluator::NullScalar,
        },
        FnV {
            signature: SigV {
                name: "get"@,
                args_type: seq![Ty::Array(Box::new(Ty::Generic(0))), Ty::Null],
                return_type: Ty::Null,
                property: catalog_property(),
            },
            eval: Evaluator::NullScalar,
        },
        FnV {
            signature: SigV {
                name: "get"@,
                args_type: seq![Ty::Null, Ty::Null],
                return_type: Ty::Null,
                property: catalog_property(),
            },
            eval: Evaluator::NullScalar,
        },
    ]
}

/// A registry holding the reference set: `and`, `not`, `plus`, the `least`,
/// `create_array`, `create_tuple` and `get_tuple` factories, a zero-arity
/// `create_array`, and `get` over arrays with a generic element type.
pub fn builtin_functions() -> (r: FunctionRegistry)
    ensures
        funcs_of(r.funcs@, "and"@) == kernel2_overloads("and"@, Kernel2::And, catalog_property()),
        funcs_of(r.funcs@, "plus"@) == kernel2_overloads(
            "plus"@,
            Kernel2::Plus,
            catalog_property(),
        ),
        funcs_of(r.funcs@, "not"@) == kernel1_overloads("not"@, Kernel1::Not, catalog_property()),
        funcs_of(r.funcs@, "create_array"@) == create_array_overloads(),
        funcs_of(r.funcs@, "get"@) == get_overloads(),
        factories_of(r.factories@, "least"@) == seq![FunctionFactory::Least],
        factories_of(r.factories@, "create_array"@) == seq![FunctionFactory::CreateArray],
        factories_of(r.factories@, "create_tuple"@) == seq![FunctionFactory::CreateTuple],
        factories_of(r.factories@, "get_tuple"@) == seq![
            FunctionFactory::GetTuple,
            FunctionFactory::GetTupleNullable,
        ],
{
    proof {
        reveal_strlit("and");
        reveal_strlit("plus");
        reveal_strlit("not");
        reveal_strlit("create_array");
        reveal_strlit("get");
        reveal_strlit("least");
        reveal_strlit("create_tuple");
        reveal_strlit("get_tuple");
        assert("and"@.len() == 3 && "not"@.len() == 3 && "get"@.len() == 3);
        assert("and"@[0] == 'a' && "not"@[0] == 'n' && "get"@[0] == 'g');
        assert("and"@ != "not"@ && "and"@ != "get"@ && "not"@ != "get"@);
        assert("create_array"@.len() == 12 && "create_tuple"@.len() == 12);
        assert("create_array"@[7] == 'a' && "create_tuple"@[7] == 't');
        assert("create_array"@ != "create_tuple"@);
        assert("plus"@.len() == 4 && "least"@.len() == 5 && "get_tuple"@.len() == 9);
    }
    let mut registry = FunctionRegistry::new();

    proof {
        assert(funcs_of(registry.funcs@, "and"@) =~= Seq::<FnV>::empty());
        assert(funcs_of(registry.funcs@, "plus"@) =~= Seq::<FnV>::empty());
        assert(funcs_of(registry.funcs@, "not"@) =~= Seq::<FnV>::empty());
        assert(funcs_of(registry.funcs@, "create_array"@) =~= Seq::<FnV>::empty());
        assert(funcs_of(registry.funcs@, "get"@) =~= Seq::<FnV>::empty());
        assert(factories_of(registry.factories@, "least"@)
            =~= Seq::<FunctionFactory>::empty());
        assert(factories_of(registry.factories@, "create_array"@)
            =~= Seq::<FunctionFactory>::empty());
        assert(factories_of(registry.factories@, "create_tuple"@)
            =~= Seq::<FunctionFactory>::empty());
        assert(factories_of(registry.factories@, "get_tuple"@)
            =~= Seq::<FunctionFactory>::empty());
    }
    registry.register_2_arg("and", FunctionProperty::default(), Kernel2::And);
    proof {
        assert(funcs_of(registry.funcs@, "and"@) =~= kernel2_overloads(
            "and"@,
            Kernel2::And,
            catalog_property(),
        ));
    }
    registry.register_2_arg("plus", FunctionProperty::default(), Kernel2::Plus);
    proof {
        assert(funcs_of(registry.funcs@, "plus"@) =~= kernel2_overloads(
            "plus"@,
            Kernel2::Plus,
            catalog_property(),
        ));
    }
    registry.register_1_arg("not", FunctionProperty::default(), Kernel1::Not);
    proof {
        assert(funcs_of(registry.funcs@, "not"@) =~= kernel1_overloads(
            "not"@,
            Kernel1::Not,
            catalog_property(),
        ));
    }

    registry.register_function_factory("least", FunctionFactory::Least);
    proof {
        assert(factories_of(registry.factories@, "least"@) =~= seq![FunctionFactory::Least]);
    }

    registry.register_0_arg_core(
        "create_array",
        FunctionProperty::default(),
        DataType::EmptyArray,
        Evaluator::EmptyArrayScalar,
    );
    proof {
        assert(funcs_of(registry.funcs@, "create_array"@) =~= create_array_overloads());
    }
    registry.register_function_factory("create_array", FunctionFactory::CreateArray);
    proof {
        assert(factories_of(registry.factories@, "create_array"@) =~= seq![
            FunctionFactory::CreateArray,
        ]);
    }

    let get_property = FunctionProperty::default().preserve_not_null(true);
    registry.register_2_arg_core(
        "get",
        get_property,
        DataType::Array(Box::new(DataType::Generic(0))),
        DataType::Int16,
        DataType::Generic(0),
        Evaluator::Get,
    );
    registry.register_2_arg_core(
        "get",
        get_property,
        DataType::Null,
        DataType::Int16,
        DataType::Null,
        Evaluator::NullScalar,
    );
    registry.register_2_arg_core(
        "get",
        get_property,
        DataType::Array(Box::new(DataType::Generic(0))),
        DataType::Null,
        DataType::Null,
        Evaluator::NullScalar,
    );
    registry.register_2_arg_core(
        "get",
        get_property,
        DataType::Null,
        DataType::Null,
        DataType::Null,
        Evaluator::NullScalar,
    );
    proof {
        reveal_with_fuel(ty_of, 3);
        assert(funcs_of(registry.funcs@, "get"@) =~= get_overloads());
    }

    registry.register_function_factory("create_tuple", FunctionFactory::CreateTuple);
    proof {
        assert(factories_of(registry.factories@, "create_tuple"@) =~= seq![
            FunctionFactory::CreateTuple,
        ]);
    }
    registry.register_function_factory("get_tuple", FunctionFactory::GetTuple);
    registry.register_function_factory("get_tuple", FunctionFactory::GetTupleNullable);
    proof {
        assert(factories_of(registry.factories@, "get_tuple"@) =~= seq![
            FunctionFactory::GetTuple,
            FunctionFactory::GetTupleNullable,
        ]);
    }

    registry
}

} // verus!
