//! The hashing built-in: a bit array whose length is a positive
//! multiple of eight in, the fixed-width digest bit array out.

use vstd::prelude::*;

use super::{argument_types, spec_argument_types, FunctionError, FunctionIdentifier, BYTE_BITS,
    SHA256_HASH_BITS};
use crate::lexical::Location;
use crate::semantic::{ArgumentList, Type};

verus! {

/// The semantic model of the hashing built-in call.
#[derive(Debug, PartialEq, Eq)]
pub struct Function {
    /// The unique built-in function identifier.
    pub stdlib_identifier: FunctionIdentifier,
    /// The function identifier.
    pub identifier: &'static str,
    /// The function return type, which is always the same and known.
    pub return_type: Box<Type>,
}

/// The digest type: a bit array of the fixed digest width.
pub open spec fn spec_digest_type() -> Type {
    Type::Array { element: Box::new(Type::Boolean), size: SHA256_HASH_BITS as usize }
}

/// Whether a preimage type is accepted: booleans, positively many,
/// in whole bytes.
pub open spec fn spec_preimage_ok(t: Type) -> bool {
    match t {
        Type::Array { element, size } => *element == Type::Boolean && size > 0 && size % (
        BYTE_BITS as usize) == 0,
        _ => false,
    }
}

/// What the call validation yields: the digest type on success, and
/// the exact error otherwise.
pub open spec fn spec_call(location: Location, args: Seq<(crate::semantic::Element, Location)>) -> Result<
    Type,
    FunctionError,
> {
    match spec_argument_types(args) {
        Err(p) => Err(
            FunctionError::ArgumentNotEvaluable {
                location: args[p].1,
                function: "sha256",
                position: (p + 1) as usize,
            },
        ),
        Ok(params) => {
            if params.len() == 0 {
                Err(
                    FunctionError::ArgumentCount {
                        location,
                        function: "sha256",
                        expected: 1,
                        found: 0,
                    },
                )
            } else if !spec_preimage_ok(params[0].0) {
                Err(
                    FunctionError::ArgumentType {
                        location: params[0].1,
                        function: "sha256",
                        name: "preimage",
                        position: 1,
                        found: params[0].0,
                    },
                )
            } else if params.len() > 1 {
                Err(
                    FunctionError::ArgumentCount {
                        location,
                        function: "sha256",
                        expected: 1,
                        found: params.len() as usize,
                    },
                )
            } else {
                Ok(spec_digest_type())
            }
        },
    }
}

impl Function {
    /// A shortcut constructor.
    pub fn new(stdlib_identifier: FunctionIdentifier) -> (r: Self)
        ensures
            r.stdlib_identifier == stdlib_identifier,
            r.identifier@ == "sha256"@,
            *r.return_type == spec_digest_type(),
    {
        Self {
            stdlib_identifier,
            identifier: "sha256",
            return_type: Box::new(
                Type::Array { element: Box::new(Type::Boolean), size: SHA256_HASH_BITS },
            ),
        }
    }

    /// Calls the function with the argument list, validating the call.
    pub fn call(self, location: Location, argument_list: ArgumentList) -> (r: Result<
        Type,
        FunctionError,
    >)
        requires
            *self.return_type == spec_digest_type(),
        ensures
            r == spec_call(location, argument_list.arguments@),
    {
        let n_args = argument_list.arguments.len();
        let params = match argument_types(argument_list.arguments) {
            Ok(p) => p,
            Err((p, l)) => {
                return Err(
                    FunctionError::ArgumentNotEvaluable {
                        location: l,
                        function: "sha256",
                        position: p + 1,
                    },
                );
            },
        };
        let n = params.len();
        if n == 0 {
            return Err(
                FunctionError::ArgumentCount { location, function: "sha256", expected: 1, found: 0 },
            );
        }
        let mut params = params;
        let (first, floc) = params.remove(0);
        let ok = match &first {
            Type::Array { element, size } => match &**element {
                Type::Boolean => *size > 0 && *size % BYTE_BITS == 0,
                _ => false,
            },
            _ => false,
        };
        if !ok {
            return Err(
                FunctionError::ArgumentType {
                    location: floc,
                    function: "sha256",
                    name: "preimage",
                    position: 1,
                    found: first,
                },
            );
        }
        if n > 1 {
            return Err(
                FunctionError::ArgumentCount {
                    location,
                    function: "sha256",
                    expected: 1,
                    found: n,
                },
            );
        }
        Ok(*self.return_type)
    }
}

} // verus!
