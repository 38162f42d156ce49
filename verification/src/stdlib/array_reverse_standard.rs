//! The array-reversal built-in, older validation interface: one array
//! of scalars in, the same array type out.

use vstd::prelude::*;

use super::{BuiltinIdentifier, StandardLibraryFunctionError};
use crate::semantic::Type;

verus! {

/// The semantic model of the array-reversal built-in.
#[derive(Debug, Clone, PartialEq, Eq)]
pub struct ArrayReverseStandardLibraryFunction {
    pub identifier: &'static str,
}

/// What validation yields for a given argument-type list: the same
/// array type back for one array of scalars, and the exact error
/// otherwise.  A second argument is refused even when the first is
/// already wrong.
pub open spec fn spec_validate(inputs: Seq<Type>) -> Result<
    Type,
    StandardLibraryFunctionError,
> {
    let first: Result<Type, StandardLibraryFunctionError> = if inputs.len() == 0 {
        Err(
            StandardLibraryFunctionError::ArgumentCount {
                function: "reverse",
                expected: 1,
                found: 0,
            },
        )
    } else {
        match inputs[0] {
            Type::Array { element, size } => if element.spec_is_scalar() {
                Ok(Type::Array { element, size })
            } else {
                Err(
                    StandardLibraryFunctionError::ArgumentType {
                        function: "reverse",
                        found: Type::Array { element, size },
                    },
                )
            },
            t => Err(StandardLibraryFunctionError::ArgumentType { function: "reverse", found: t }),
        }
    };
    if inputs.len() > 1 {
        Err(
            StandardLibraryFunctionError::ArgumentCount {
                function: "reverse",
                expected: 1,
                found: inputs.len() as usize,
            },
        )
    } else {
        first
    }
}

impl ArrayReverseStandardLibraryFunction {
    pub fn new() -> (r: Self)
        ensures
            r.identifier@ == "reverse"@,
    {
        Self { identifier: "reverse" }
    }

    /// The source-level name of the built-in.
    pub fn identifier(&self) -> (r: &'static str)
        ensures
            r == self.identifier,
    {
        self.identifier
    }

    /// The bytecode-level identifier of the built-in.
    pub fn builtin_identifier(&self) -> (r: BuiltinIdentifier)
        ensures
            r == BuiltinIdentifier::ArrayReverse,
    {
        BuiltinIdentifier::ArrayReverse
    }

    /// The number of arguments the built-in takes.
    pub fn arguments_count(&self) -> (n: usize)
        ensures
            n == 1,
    {
        1
    }

    /// Validates the argument types: exactly one array of scalars;
    /// the call's type is the same array type.
    pub fn validate(&self, inputs: Vec<Type>) -> (r: Result<
        Type,
        StandardLibraryFunctionError,
    >)
        ensures
            r == spec_validate(inputs@),
    {
        let n = inputs.len();
        if n > 1 {
            return Err(
                StandardLibraryFunctionError::ArgumentCount {
                    function: "reverse",
                    expected: 1,
                    found: n,
                },
            );
        }
        let mut inputs = inputs;
        if n == 0 {
            return Err(
                StandardLibraryFunctionError::ArgumentCount {
                    function: "reverse",
                    expected: 1,
                    found: 0,
                },
            );
        }
        let first = inputs.remove(0);
        match first {
            Type::Array { element, size } => {
                if element.is_scalar() {
                    Ok(Type::Array { element, size })
                } else {
                    Err(
                        StandardLibraryFunctionError::ArgumentType {
                            function: "reverse",
                            found: Type::Array { element, size },
                        },
                    )
                }
            },
            t => Err(StandardLibraryFunctionError::ArgumentType { function: "reverse", found: t }),
        }
    }
}

} // verus!
