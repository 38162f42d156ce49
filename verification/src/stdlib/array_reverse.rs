//! The array-reversal built-in: one array of scalars in, the same
//! array type out.

use vstd::prelude::*;

use super::{argument_types, spec_argument_types, FunctionError, FunctionIdentifier};
use crate::lexical::Location;
use crate::semantic::{ArgumentList, Type};

verus! {

/// The semantic model of the array-reversal built-in call.
#[derive(Debug, Clone, PartialEq, Eq)]
pub struct Function {
    /// The unique built-in function identifier.
    pub stdlib_identifier: FunctionIdentifier,
    /// The function identifier.
    pub identifier: &'static str,
}

/// What the call validation yields: the argument array's own type on
/// success, and the exact error otherwise.
pub open spec fn spec_call(location: Location, args: Seq<(crate::semantic::Element, Location)>) -> Result<
    Type,
    FunctionError,
> {
    match spec_argument_types(args) {
        Err(p) => Err(
            FunctionError::ArgumentNotEvaluable {
                location: args[p].1,
                function: "reverse",
                position: (p + 1) as usize,
            },
        ),
        Ok(params) => {
            if params.len() == 0 {
                Err(
                    FunctionError::ArgumentCount {
                        location,
                        function: "reverse",
                        expected: 1,
                        found: 0,
                    },
                )
            } else {
                match params[0].0 {
                    Type::Array { element, size } => if element.spec_is_scalar() {
                        if params.len() > 1 {
                            Err(
                                FunctionError::ArgumentCount {
                                    location,
                                    function: "reverse",
                                    expected: 1,
                                    found: params.len() as usize,
                                },
                            )
                        } else {
                            Ok(Type::Array { element, size })
                        }
                    } else {
                        Err(
                            FunctionError::ArgumentType {
                                location: params[0].1,
                                function: "reverse",
                                name: "array",
                                position: 1,
                                found: Type::Array { element, size },
                            },
                        )
                    },
                    t => Err(
                        FunctionError::ArgumentType {
                            location: params[0].1,
                            function: "reverse",
                            name: "array",
                            position: 1,
                            found: t,
                        },
                    ),
                }
            }
        },
    }
}

impl Function {
    /// The expected number of the function arguments.
    pub fn argument_count(&self) -> (n: usize)
        ensures
            n == 1,
    {
        1
    }

    /// A shortcut constructor.
    pub fn new(stdlib_identifier: FunctionIdentifier) -> (r: Self)
        ensures
            r.stdlib_identifier == stdlib_identifier,
            r.identifier@ == "reverse"@,
    {
        Self { stdlib_identifier, identifier: "reverse" }
    }

    /// Calls the function with the argument list, validating the call.
    pub fn call(self, location: Location, argument_list: ArgumentList) -> (r: Result<
        Type,
        FunctionError,
    >)
        ensures
            r == spec_call(location, argument_list.arguments@),
    {
        let ghost args0 = argument_list.arguments@;
        let n_args = argument_list.arguments.len();
        let params = match argument_types(argument_list.arguments) {
            Ok(p) => p,
            Err((p, l)) => {
                return Err(
                    FunctionError::ArgumentNotEvaluable {
                        location: l,
                        function: "reverse",
                        position: p + 1,
                    },
                );
            },
        };
        let n = params.len();
        if n == 0 {
            return Err(
                FunctionError::ArgumentCount { location, function: "reverse", expected: 1, found: 0 },
            );
        }
        let mut params = params;
        let (first, floc) = params.remove(0);
        match first {
            Type::Array { element, size } => {
                if element.is_scalar() {
                    if n > 1 {
                        Err(
                            FunctionError::ArgumentCount {
                                location,
                                function: "reverse",
                                expected: 1,
                                found: n,
                            },
                        )
                    } else {
                        Ok(Type::Array { element, size })
                    }
                } else {
                    Err(
                        FunctionError::ArgumentType {
                            location: floc,
                            function: "reverse",
                            name: "array",
                            position: 1,
                            found: Type::Array { element, size },
                        },
                    )
                }
            },
            t => Err(
                FunctionError::ArgumentType {
                    location: floc,
                    function: "reverse",
                    name: "array",
                    position: 1,
                    found: t,
                },
            ),
        }
    }
}

} // verus!
