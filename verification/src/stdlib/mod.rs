//! The semantic models of the built-in library functions: each
//! validates its argument list and yields the call's result type.

pub mod array_reverse;
pub mod array_reverse_standard;
pub mod crypto_sha256;

use vstd::prelude::*;

use crate::lexical::Location;
use crate::semantic::{Element, Type};

verus! {

/// The number of bits in one byte of a hash preimage.
pub const BYTE_BITS: usize = 8;

/// The number of bits in a hash digest.
pub const SHA256_HASH_BITS: usize = 256;

/// The identifiers of the built-in functions, as the bytecode knows
/// them.
#[derive(Debug, Clone, Copy, PartialEq, Eq, Structural)]
pub enum BuiltinIdentifier {
    CryptoSha256,
    ArrayReverse,
    ArrayTruncate,
    ArrayPad,
}

/// The identifiers of the built-in functions, as the newer bytecode
/// revision knows them.
#[derive(Debug, Clone, Copy, PartialEq, Eq, Structural)]
pub enum FunctionIdentifier {
    CryptoSha256,
    ArrayReverse,
    ArrayTruncate,
    ArrayPad,
}

/// Why a built-in function call is refused by the older validation
/// interface.
#[derive(Debug, PartialEq, Eq)]
pub enum StandardLibraryFunctionError {
    /// An argument of the wrong type: the function, the expected
    /// shape, the found type.
    ArgumentType { function: &'static str, found: Type },
    /// The wrong number of arguments: the function, the expected and
    /// found counts.
    ArgumentCount { function: &'static str, expected: usize, found: usize },
}

/// Why a built-in function call is refused.
#[derive(Debug, PartialEq, Eq)]
pub enum FunctionError {
    /// An argument that does not evaluate to a value.
    ArgumentNotEvaluable { location: Location, function: &'static str, position: usize },
    /// An argument of the wrong type.
    ArgumentType {
        location: Location,
        function: &'static str,
        name: &'static str,
        position: usize,
        found: Type,
    },
    /// The wrong number of arguments.
    ArgumentCount {
        location: Location,
        function: &'static str,
        expected: usize,
        found: usize,
    },
}

/// The type each argument element evaluates to, or the position of
/// the first that does not evaluate.
pub open spec fn spec_argument_types(args: Seq<(Element, Location)>) -> Result<
    Seq<(Type, Location)>,
    int,
>
    decreases args.len(),
{
    if args.len() == 0 {
        Ok(Seq::empty())
    } else {
        match args[0].0 {
            Element::Value(t) => match spec_argument_types(args.skip(1)) {
                Ok(rest) => Ok(seq![(t, args[0].1)] + rest),
                Err(p) => Err(p + 1),
            },
            Element::Constant(c) => match spec_argument_types(args.skip(1)) {
                Ok(rest) => Ok(seq![(c.spec_type_of(), args[0].1)] + rest),
                Err(p) => Err(p + 1),
            },
            Element::NotEvaluable => Err(0),
        }
    }
}

/// Evaluates each argument to its type, or reports the position and
/// location of the first argument that does not evaluate.
pub fn argument_types(args: Vec<(Element, Location)>) -> (r: Result<
    Vec<(Type, Location)>,
    (usize, Location),
>)
    ensures
        match spec_argument_types(args@) {
            Ok(params) => r is Ok && r->Ok_0@ == params,
            Err(p) => r is Err && 0 <= p < args@.len() && r->Err_0.0 == p && r->Err_0.1
                == args@[p].1,
        },
    decreases args@.len(),
{
    let mut args = args;
    if args.len() == 0 {
        let out: Vec<(Type, Location)> = Vec::new();
        proof {
            assert(out@ =~= Seq::<(Type, Location)>::empty());
        }
        return Ok(out);
    }
    let ghost args0 = args@;
    let (el, loc) = args.remove(0);
    proof {
        assert(args@ =~= args0.skip(1));
    }
    let ty = match el {
        Element::Value(t) => t,
        Element::Constant(c) => c.type_of(),
        Element::NotEvaluable => {
            return Err((0, loc));
        },
    };
    match argument_types(args) {
        Ok(rest) => {
            let mut out = rest;
            out.insert(0, (ty, loc));
            proof {
                assert(out@ =~= seq![(ty, loc)] + spec_argument_types(args0.skip(1))->Ok_0);
            }
            Ok(out)
        },
        Err((p, l)) => {
            proof {
                assert(args0.skip(1)[p as int] == args0[p as int + 1]);
            }
            Err((p + 1, l))
        },
    }
}

} // verus!
