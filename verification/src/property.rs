//! Properties carried by checked values and by registered functions.

use vstd::prelude::*;

verus! {

/// What the type checker knows about a checked value.
#[derive(Debug, Clone, Copy, PartialEq, Eq, Structural)]
pub struct ValueProperty {
    /// The value is known never to be null.
    pub not_null: bool,
}

/// Facts a registered function declares about itself.
#[derive(Debug, Clone, Copy, PartialEq, Eq, Structural)]
pub struct FunctionProperty {
    /// The output is non-null whenever every argument is non-null.
    pub preserve_not_null: bool,
    /// The function is insensitive to the order of its two arguments.
    pub commutative: bool,
}

impl Default for ValueProperty {
    /// The default claims nothing.
    fn default() -> (r: Self)
        ensures
            r == (ValueProperty { not_null: false }),
    {
        ValueProperty { not_null: false }
    }
}

impl Default for FunctionProperty {
    /// The default claims nothing.
    fn default() -> (r: Self)
        ensures
            r == (FunctionProperty { preserve_not_null: false, commutative: false }),
    {
        FunctionProperty { preserve_not_null: false, commutative: false }
    }
}

impl ValueProperty {
    /// This property with `not_null` replaced.
    pub fn not_null(self, not_null: bool) -> (r: Self)
        ensures
            r == (ValueProperty { not_null }),
    {
        ValueProperty { not_null }
    }
}

impl FunctionProperty {
    /// This property with `preserve_not_null` replaced.
    pub fn preserve_not_null(self, preserve_not_null: bool) -> (r: Self)
        ensures
            r == (FunctionProperty { preserve_not_null, ..self }),
    {
        FunctionProperty { preserve_not_null, ..self }
    }

    /// This property with `commutative` replaced.
    pub fn commutative(self, commutative: bool) -> (r: Self)
        ensures
            r == (FunctionProperty { commutative, ..self }),
    {
        FunctionProperty { commutative, ..self }
    }
}

} // verus!
