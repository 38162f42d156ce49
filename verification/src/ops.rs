//! The operations layer: one method per primitive, each computing a
//! result value and recording the shape of the constraints the
//! computation stands on.
//!
//! The layer is a capability interface with two backends: a
//! witness-computing backend that carries concrete scalars, and a
//! setup-only backend that carries none and records shapes alone.  Both
//! record identical shapes for identical operand types, which is what
//! keeps the emitted constraint system independent of the witness.

use vstd::prelude::*;

use crate::scalar::{fits_carrier, ScalarType};

verus! {

/// One scalar value handle: the concrete scalar when the run computes a
/// witness, and the bit-length/signedness tag it carries either way.
#[derive(Debug, Clone, Copy, PartialEq, Eq)]
pub struct Value {
    pub value: Option<i128>,
    pub ty: ScalarType,
}

impl Value {
    /// A well-formed handle: the tag fits the carrier, and so does the
    /// scalar when one is present.
    pub open spec fn wf(self) -> bool {
        self.ty.wf() && match self.value {
            Some(v) => fits_carrier(v as int),
            None => true,
        }
    }

    /// Whether the handle carries a scalar exactly when the mode asks
    /// for one.
    pub open spec fn mode_ok(self, computes: bool) -> bool {
        computes == (self.value is Some)
    }
}

/// One stack or frame slot: a value handle, or not yet assigned.
#[derive(Debug, Clone, Copy, PartialEq, Eq)]
pub enum Cell {
    Value(Value),
    Undefined,
}

impl Cell {
    pub open spec fn wf(self) -> bool {
        match self {
            Cell::Value(v) => v.wf(),
            Cell::Undefined => true,
        }
    }

    /// The shape of the slot: definedness and type tag, with the
    /// scalar forgotten.
    pub open spec fn shape(self) -> Option<ScalarType> {
        match self {
            Cell::Value(v) => Some(v.ty),
            Cell::Undefined => None,
        }
    }
}

/// Why a run faults.  A fault is fatal to the run; the engine reports
/// it with the offset of the faulting instruction and recovers nothing.
#[derive(Debug, Clone, Copy, PartialEq, Eq, Structural)]
pub enum RuntimeError {
    /// An instruction asked for more stack cells than there are.
    StackUnderflow,
    /// A read of a frame slot that was never assigned.
    UninitializedAccess,
    /// Operand types that the primitive is undefined for.
    TypeMismatch,
    /// A condition or logical operand that is not a boolean.
    ExpectedBoolean,
    /// A handle missing the scalar the mode asks for.
    UndefinedValue,
    /// Division or remainder by zero.
    DivisionByZero,
    /// An intermediate result beyond the carrier bounds.
    NumericOverflow,
    /// A cast target that cannot represent the value.
    CastOverflow,
    /// A constant outside the range of its declared type.
    InvalidConstant,
    /// A call target that names no instruction.
    UnresolvedCallTarget,
    /// A frame handed fewer argument cells than the callee declares.
    FrameSizeMismatch,
    /// Mismatched or misplaced control brackets in the bytecode.
    MalformedBytecode,
    /// The two branch bodies left different numbers of stack cells.
    BranchStackMismatch,
    /// The call depth limit handed to the run was exhausted.
    RecursionLimit,
    /// A built-in applied to an argument its precondition refuses.
    BuiltinPrecondition,
    /// A built-in this operations layer does not provide.
    UnsupportedBuiltin,
}

/// The arithmetic primitives, named in constraint shapes.
#[derive(Debug, Clone, Copy, PartialEq, Eq, Structural)]
pub enum ArithOp {
    Add,
    Sub,
    Mul,
    DivRem,
    Neg,
}

/// The boolean primitives, named in constraint shapes.
#[derive(Debug, Clone, Copy, PartialEq, Eq, Structural)]
pub enum LogicOp {
    And,
    Or,
    Xor,
    Not,
}

/// The comparison primitives, named in constraint shapes.
#[derive(Debug, Clone, Copy, PartialEq, Eq, Structural)]
pub enum CmpOp {
    Lt,
    Le,
    Gt,
    Ge,
    Eq,
    Ne,
}

/// The shape of one emitted constraint bundle: which primitive it
/// proves and over which operand type — never which values.
#[derive(Debug, Clone, Copy, PartialEq, Eq, Structural)]
pub enum Gate {
    Arith(ArithOp, ScalarType),
    Logic(LogicOp),
    Cmp(CmpOp, ScalarType),
    Cast(ScalarType, ScalarType),
    Select(ScalarType),
}

/// The Euclidean quotient: the unique `q` with
/// `a == q * b + r` and `0 <= r < |b|`.
pub open spec fn euclid_q(a: int, b: int) -> int
    recommends
        b != 0,
{
    if b > 0 {
        a / b
    } else {
        -(a / (-b))
    }
}

/// The Euclidean remainder, always non-negative.
pub open spec fn euclid_r(a: int, b: int) -> int
    recommends
        b != 0,
{
    a - b * euclid_q(a, b)
}

/// The defining property of Euclidean division.
pub proof fn lemma_euclid(a: int, b: int)
    requires
        b != 0,
    ensures
        a == euclid_q(a, b) * b + euclid_r(a, b),
        0 <= euclid_r(a, b) < if b > 0 {
            b
        } else {
            -b
        },
{
    if b > 0 {
        vstd::arithmetic::div_mod::lemma_fundamental_div_mod(a, b);
        vstd::arithmetic::div_mod::lemma_mod_bound(a, b);
        let q = a / b;
        assert(q * b == b * q) by (nonlinear_arith);
        assert(euclid_r(a, b) == a % b);
    } else {
        let c = -b;
        vstd::arithmetic::div_mod::lemma_fundamental_div_mod(a, c);
        vstd::arithmetic::div_mod::lemma_mod_bound(a, c);
        let q = a / c;
        assert((-q) * b == b * (-q)) by (nonlinear_arith);
        assert(b * (-q) == c * q) by (nonlinear_arith)
            requires
                b == -c,
        ;
        assert(euclid_r(a, b) == a % c);
    }
}

/// Any pair with the defining property is the Euclidean pair.
pub proof fn lemma_euclid_unique(a: int, b: int, q: int, r: int)
    requires
        b != 0,
        a == q * b + r,
        0 <= r,
        r < if b > 0 {
            b
        } else {
            -b
        },
    ensures
        q == euclid_q(a, b),
        r == euclid_r(a, b),
{
    lemma_euclid(a, b);
    let q0 = euclid_q(a, b);
    let r0 = euclid_r(a, b);
    assert((q - q0) * b == r0 - r) by (nonlinear_arith)
        requires
            a == q * b + r,
            a == q0 * b + r0,
    ;
    if q != q0 {
        let babs = if b > 0 {
            b
        } else {
            -b
        };
        assert((q - q0) * b >= babs || (q - q0) * b <= -babs) by (nonlinear_arith)
            requires
                q != q0,
                b != 0,
                babs == if b > 0 {
                    b
                } else {
                    -b
                },
        ;
        assert(false);
    }
}

/// The boolean scalar type.
pub open spec fn bool_ty() -> ScalarType {
    ScalarType::spec_boolean()
}

/// What a binary arithmetic primitive returns, before carrier checks.
pub open spec fn arith_result(op: ArithOp, a: int, b: int) -> int
    recommends
        op != ArithOp::DivRem,
{
    match op {
        ArithOp::Add => a + b,
        ArithOp::Sub => a - b,
        ArithOp::Mul => a * b,
        _ => 0,
    }
}

/// What a binary arithmetic primitive (other than division) returns:
/// the value relation, the carried type, the error taxonomy.
pub open spec fn spec_arith(computes: bool, op: ArithOp, a: Value, b: Value) -> Result<
    Value,
    RuntimeError,
> {
    if a.ty != b.ty {
        Err(RuntimeError::TypeMismatch)
    } else if !computes {
        Ok(Value { value: None, ty: a.ty })
    } else {
        match (a.value, b.value) {
            (Some(x), Some(y)) => {
                let s = arith_result(op, x as int, y as int);
                if !fits_carrier(s) {
                    Err(RuntimeError::NumericOverflow)
                } else {
                    Ok(Value { value: Some(s as i128), ty: a.ty })
                }
            },
            _ => Err(RuntimeError::UndefinedValue),
        }
    }
}

/// What negation returns.
pub open spec fn spec_neg(computes: bool, a: Value) -> Result<Value, RuntimeError> {
    if !computes {
        Ok(Value { value: None, ty: a.ty })
    } else {
        match a.value {
            Some(x) => {
                if !fits_carrier(-(x as int)) {
                    Err(RuntimeError::NumericOverflow)
                } else {
                    Ok(Value { value: Some((-(x as int)) as i128), ty: a.ty })
                }
            },
            None => Err(RuntimeError::UndefinedValue),
        }
    }
}

/// What the combined division/remainder primitive returns: the
/// Euclidean pair, quotient first.
pub open spec fn spec_div_rem(computes: bool, a: Value, b: Value) -> Result<
    (Value, Value),
    RuntimeError,
> {
    if a.ty != b.ty {
        Err(RuntimeError::TypeMismatch)
    } else if !computes {
        Ok((Value { value: None, ty: a.ty }, Value { value: None, ty: a.ty }))
    } else {
        match (a.value, b.value) {
            (Some(x), Some(y)) => {
                if y == 0 {
                    Err(RuntimeError::DivisionByZero)
                } else {
                    let q = euclid_q(x as int, y as int);
                    let r = euclid_r(x as int, y as int);
                    if !fits_carrier(q) {
                        Err(RuntimeError::NumericOverflow)
                    } else {
                        Ok(
                            (
                                Value { value: Some(q as i128), ty: a.ty },
                                Value { value: Some(r as i128), ty: a.ty },
                            ),
                        )
                    }
                }
            },
            _ => Err(RuntimeError::UndefinedValue),
        }
    }
}

/// Whether a handle is a boolean with an in-range scalar for the mode.
pub open spec fn boolean_operand_ok(computes: bool, a: Value) -> bool {
    a.ty == bool_ty() && (computes ==> match a.value {
        Some(x) => x == 0 || x == 1,
        None => false,
    })
}

/// What a boolean value holds, read as a proposition.
pub open spec fn truthy(a: Value) -> bool {
    a.value == Some(1i128)
}

/// What a binary logical primitive returns.
pub open spec fn spec_logic(computes: bool, op: LogicOp, a: Value, b: Value) -> Result<
    Value,
    RuntimeError,
> {
    if !(boolean_operand_ok(computes, a) && boolean_operand_ok(computes, b)) {
        Err(RuntimeError::ExpectedBoolean)
    } else if !computes {
        Ok(Value { value: None, ty: bool_ty() })
    } else {
        let p = truthy(a);
        let q = truthy(b);
        let c = match op {
            LogicOp::And => p && q,
            LogicOp::Or => p || q,
            LogicOp::Xor => p != q,
            LogicOp::Not => !p,
        };
        Ok(
            Value {
                value: Some(
                    if c {
                        1
                    } else {
                        0
                    },
                ),
                ty: bool_ty(),
            },
        )
    }
}

/// What logical negation returns.
pub open spec fn spec_not(computes: bool, a: Value) -> Result<Value, RuntimeError> {
    if !boolean_operand_ok(computes, a) {
        Err(RuntimeError::ExpectedBoolean)
    } else if !computes {
        Ok(Value { value: None, ty: bool_ty() })
    } else {
        Ok(
            Value {
                value: Some(
                    if truthy(a) {
                        0
                    } else {
                        1
                    },
                ),
                ty: bool_ty(),
            },
        )
    }
}

/// Whether a comparison holds of two scalars.
pub open spec fn cmp_holds(op: CmpOp, a: int, b: int) -> bool {
    match op {
        CmpOp::Lt => a < b,
        CmpOp::Le => a <= b,
        CmpOp::Gt => a > b,
        CmpOp::Ge => a >= b,
        CmpOp::Eq => a == b,
        CmpOp::Ne => a != b,
    }
}

/// What a comparison primitive returns: a boolean handle.
pub open spec fn spec_cmp(computes: bool, op: CmpOp, a: Value, b: Value) -> Result<
    Value,
    RuntimeError,
> {
    if a.ty != b.ty {
        Err(RuntimeError::TypeMismatch)
    } else if !computes {
        Ok(Value { value: None, ty: bool_ty() })
    } else {
        match (a.value, b.value) {
            (Some(x), Some(y)) => Ok(
                Value {
                    value: Some(
                        if cmp_holds(op, x as int, y as int) {
                            1
                        } else {
                            0
                        },
                    ),
                    ty: bool_ty(),
                },
            ),
            _ => Err(RuntimeError::UndefinedValue),
        }
    }
}

/// What a cast returns: the same scalar under the new tag, faulting
/// when the target range cannot represent it.
pub open spec fn spec_cast(computes: bool, a: Value, target: ScalarType) -> Result<
    Value,
    RuntimeError,
> {
    if !target.wf() {
        Err(RuntimeError::TypeMismatch)
    } else if !computes {
        Ok(Value { value: None, ty: target })
    } else {
        match a.value {
            Some(x) => if target.contains(x as int) {
                Ok(Value { value: Some(x), ty: target })
            } else {
                Err(RuntimeError::CastOverflow)
            },
            None => Err(RuntimeError::UndefinedValue),
        }
    }
}

/// What conditional selection returns: `a` under a true condition and
/// `b` otherwise, with no branch in the constraint graph — both arms
/// are already computed and constrained when selection happens.
pub open spec fn spec_select(computes: bool, cond: Value, a: Value, b: Value) -> Result<
    Value,
    RuntimeError,
> {
    if !boolean_operand_ok(computes, cond) {
        Err(RuntimeError::ExpectedBoolean)
    } else if a.ty != b.ty {
        Err(RuntimeError::TypeMismatch)
    } else if !computes {
        Ok(Value { value: None, ty: a.ty })
    } else {
        match (a.value, b.value) {
            (Some(x), Some(y)) => Ok(
                Value {
                    value: Some(
                        if truthy(cond) {
                            x
                        } else {
                            y
                        },
                    ),
                    ty: a.ty,
                },
            ),
            _ => Err(RuntimeError::UndefinedValue),
        }
    }
}

/// What a constant allocation returns: a handle of the declared type,
/// faulting when the constant leaves the declared range.  Constants
/// emit no constraint.
pub open spec fn spec_constant(computes: bool, value: i128, ty: ScalarType) -> Result<
    Value,
    RuntimeError,
> {
    if !ty.wf() || !ty.contains(value as int) {
        Err(RuntimeError::InvalidConstant)
    } else if computes {
        Ok(Value { value: Some(value), ty })
    } else {
        Ok(Value { value: None, ty })
    }
}


/// Performs a binary arithmetic primitive (not division), recording
/// its constraint shape.
fn do_arith(computes: bool, trace: &mut Vec<Gate>, op: ArithOp, a: Value, b: Value) -> (r: Result<
    Value,
    RuntimeError,
>)
    requires
        a.wf(),
        b.wf(),
        op == ArithOp::Add || op == ArithOp::Sub || op == ArithOp::Mul,
    ensures
        r == spec_arith(computes, op, a, b),
        final(trace)@ == if r is Ok {
            old(trace)@.push(Gate::Arith(op, a.ty))
        } else {
            old(trace)@
        },
        r is Ok ==> r->Ok_0.wf() && r->Ok_0.mode_ok(computes),
{
    if a.ty != b.ty {
        return Err(RuntimeError::TypeMismatch);
    }
    if !computes {
        trace.push(Gate::Arith(op, a.ty));
        return Ok(Value { value: None, ty: a.ty });
    }
    let (x, y) = match (a.value, b.value) {
        (Some(x), Some(y)) => (x, y),
        _ => {
            return Err(RuntimeError::UndefinedValue);
        },
    };
    proof {
        crate::scalar::lemma_pow2_126_value();
    }
    let s: i128 = match op {
        ArithOp::Add => x + y,
        ArithOp::Sub => x - y,
        _ => {
            match x.checked_mul(y) {
                Some(p) => p,
                None => {
                    return Err(RuntimeError::NumericOverflow);
                },
            }
        },
    };
    if !crate::scalar::check_carrier(s) {
        return Err(RuntimeError::NumericOverflow);
    }
    trace.push(Gate::Arith(op, a.ty));
    Ok(Value { value: Some(s), ty: a.ty })
}

/// Performs negation, recording its constraint shape.
fn do_neg(computes: bool, trace: &mut Vec<Gate>, a: Value) -> (r: Result<Value, RuntimeError>)
    requires
        a.wf(),
    ensures
        r == spec_neg(computes, a),
        final(trace)@ == if r is Ok {
            old(trace)@.push(Gate::Arith(ArithOp::Neg, a.ty))
        } else {
            old(trace)@
        },
        r is Ok ==> r->Ok_0.wf() && r->Ok_0.mode_ok(computes),
{
    if !computes {
        trace.push(Gate::Arith(ArithOp::Neg, a.ty));
        return Ok(Value { value: None, ty: a.ty });
    }
    let x = match a.value {
        Some(x) => x,
        None => {
            return Err(RuntimeError::UndefinedValue);
        },
    };
    proof {
        crate::scalar::lemma_pow2_126_value();
    }
    let s: i128 = -x;
    if !crate::scalar::check_carrier(s) {
        return Err(RuntimeError::NumericOverflow);
    }
    trace.push(Gate::Arith(ArithOp::Neg, a.ty));
    Ok(Value { value: Some(s), ty: a.ty })
}

/// Performs combined division and remainder, recording one shape for
/// the pair.  The result is the Euclidean pair: the remainder is
/// non-negative and smaller than the divisor magnitude.
fn do_div_rem(computes: bool, trace: &mut Vec<Gate>, a: Value, b: Value) -> (r: Result<
    (Value, Value),
    RuntimeError,
>)
    requires
        a.wf(),
        b.wf(),
    ensures
        r == spec_div_rem(computes, a, b),
        final(trace)@ == if r is Ok {
            old(trace)@.push(Gate::Arith(ArithOp::DivRem, a.ty))
        } else {
            old(trace)@
        },
        r is Ok ==> r->Ok_0.0.wf() && r->Ok_0.0.mode_ok(computes) && r->Ok_0.1.wf()
            && r->Ok_0.1.mode_ok(computes),
{
    if a.ty != b.ty {
        return Err(RuntimeError::TypeMismatch);
    }
    if !computes {
        trace.push(Gate::Arith(ArithOp::DivRem, a.ty));
        return Ok((Value { value: None, ty: a.ty }, Value { value: None, ty: a.ty }));
    }
    let (x, y) = match (a.value, b.value) {
        (Some(x), Some(y)) => (x, y),
        _ => {
            return Err(RuntimeError::UndefinedValue);
        },
    };
    if y == 0 {
        return Err(RuntimeError::DivisionByZero);
    }
    proof {
        crate::scalar::lemma_pow2_126_value();
    }
    let am: u128 = if x < 0 {
        (-x) as u128
    } else {
        x as u128
    };
    let bm: u128 = if y < 0 {
        (-y) as u128
    } else {
        y as u128
    };
    let qm: u128 = am / bm;
    let rm: u128 = am % bm;
    proof {
        assert(am == bm * qm + rm && qm <= am) by (nonlinear_arith)
            requires
                bm >= 1,
                qm == am as int / bm as int,
                rm == am as int % bm as int,
        ;
    }
    let q: i128 = if x >= 0 {
        if y > 0 {
            qm as i128
        } else {
            -(qm as i128)
        }
    } else if rm == 0 {
        if y > 0 {
            -(qm as i128)
        } else {
            qm as i128
        }
    } else {
        if y > 0 {
            -(qm as i128) - 1
        } else {
            (qm as i128) + 1
        }
    };
    let r_: i128 = if x >= 0 || rm == 0 {
        rm as i128
    } else {
        (bm - rm) as i128
    };
    proof {
        let xi = x as int;
        let yi = y as int;
        let qi = q as int;
        let ri = r_ as int;
        let yabs: int = if yi > 0 { yi } else { -yi };
        assert(xi == qi * yi + ri && 0 <= ri < yabs) by (nonlinear_arith)
            requires
                yi != 0,
                yabs == if yi > 0 { yi } else { -yi },
                am == if xi < 0 { -xi } else { xi },
                bm == yabs,
                am == bm * qm + rm,
                0 <= rm < bm,
                qi == if xi >= 0 {
                    if yi > 0 { qm as int } else { -(qm as int) }
                } else if rm == 0 {
                    if yi > 0 { -(qm as int) } else { qm as int }
                } else {
                    if yi > 0 { -(qm as int) - 1 } else { qm as int + 1 }
                },
                ri == if xi >= 0 || rm == 0 { rm as int } else { bm - rm },
        ;
        lemma_euclid_unique(xi, yi, qi, ri);
    }
    if !crate::scalar::check_carrier(q) {
        return Err(RuntimeError::NumericOverflow);
    }
    trace.push(Gate::Arith(ArithOp::DivRem, a.ty));
    Ok((Value { value: Some(q), ty: a.ty }, Value { value: Some(r_), ty: a.ty }))
}

/// Checks a boolean operand for the mode.
pub fn boolean_check(computes: bool, a: &Value) -> (ok: bool)
    ensures
        ok == boolean_operand_ok(computes, *a),
{
    let is_bool = a.ty.is_boolean();
    if !is_bool {
        return false;
    }
    if computes {
        match a.value {
            Some(x) => x == 0 || x == 1,
            None => false,
        }
    } else {
        true
    }
}

/// Performs a binary logical primitive, recording its constraint shape.
fn do_logic(computes: bool, trace: &mut Vec<Gate>, op: LogicOp, a: Value, b: Value) -> (r: Result<
    Value,
    RuntimeError,
>)
    requires
        op != LogicOp::Not,
    ensures
        r == spec_logic(computes, op, a, b),
        final(trace)@ == if r is Ok {
            old(trace)@.push(Gate::Logic(op))
        } else {
            old(trace)@
        },
        r is Ok ==> r->Ok_0.wf() && r->Ok_0.mode_ok(computes),
{
    if !(boolean_check(computes, &a) && boolean_check(computes, &b)) {
        return Err(RuntimeError::ExpectedBoolean);
    }
    trace.push(Gate::Logic(op));
    if !computes {
        return Ok(Value { value: None, ty: ScalarType::boolean() });
    }
    let p = match a.value {
        Some(x) => x == 1,
        None => false,
    };
    let q = match b.value {
        Some(x) => x == 1,
        None => false,
    };
    let c = match op {
        LogicOp::And => p && q,
        LogicOp::Or => p || q,
        _ => p != q,
    };
    proof {
        crate::scalar::lemma_pow2_126_value();
    }
    Ok(
        Value {
            value: Some(
                if c {
                    1
                } else {
                    0
                },
            ),
            ty: ScalarType::boolean(),
        },
    )
}

/// Performs logical negation, recording its constraint shape.
fn do_not(computes: bool, trace: &mut Vec<Gate>, a: Value) -> (r: Result<Value, RuntimeError>)
    ensures
        r == spec_not(computes, a),
        final(trace)@ == if r is Ok {
            old(trace)@.push(Gate::Logic(LogicOp::Not))
        } else {
            old(trace)@
        },
        r is Ok ==> r->Ok_0.wf() && r->Ok_0.mode_ok(computes),
{
    if !boolean_check(computes, &a) {
        return Err(RuntimeError::ExpectedBoolean);
    }
    trace.push(Gate::Logic(LogicOp::Not));
    if !computes {
        return Ok(Value { value: None, ty: ScalarType::boolean() });
    }
    let p = match a.value {
        Some(x) => x == 1,
        None => false,
    };
    proof {
        crate::scalar::lemma_pow2_126_value();
    }
    Ok(
        Value {
            value: Some(
                if p {
                    0
                } else {
                    1
                },
            ),
            ty: ScalarType::boolean(),
        },
    )
}

/// Performs a comparison primitive, recording its constraint shape.
fn do_cmp(computes: bool, trace: &mut Vec<Gate>, op: CmpOp, a: Value, b: Value) -> (r: Result<
    Value,
    RuntimeError,
>)
    ensures
        r == spec_cmp(computes, op, a, b),
        final(trace)@ == if r is Ok {
            old(trace)@.push(Gate::Cmp(op, a.ty))
        } else {
            old(trace)@
        },
        r is Ok ==> r->Ok_0.wf() && r->Ok_0.mode_ok(computes),
{
    if a.ty != b.ty {
        return Err(RuntimeError::TypeMismatch);
    }
    if !computes {
        trace.push(Gate::Cmp(op, a.ty));
        return Ok(Value { value: None, ty: ScalarType::boolean() });
    }
    let (x, y) = match (a.value, b.value) {
        (Some(x), Some(y)) => (x, y),
        _ => {
            return Err(RuntimeError::UndefinedValue);
        },
    };
    let c = match op {
        CmpOp::Lt => x < y,
        CmpOp::Le => x <= y,
        CmpOp::Gt => x > y,
        CmpOp::Ge => x >= y,
        CmpOp::Eq => x == y,
        CmpOp::Ne => x != y,
    };
    trace.push(Gate::Cmp(op, a.ty));
    proof {
        crate::scalar::lemma_pow2_126_value();
    }
    Ok(
        Value {
            value: Some(
                if c {
                    1
                } else {
                    0
                },
            ),
            ty: ScalarType::boolean(),
        },
    )
}

/// Performs a cast, recording its constraint shape.  The cast pins a
/// full bit decomposition at the target width, which is how range
/// checks are enforced.
fn do_cast(computes: bool, trace: &mut Vec<Gate>, a: Value, target: ScalarType) -> (r: Result<
    Value,
    RuntimeError,
>)
    requires
        a.wf(),
    ensures
        r == spec_cast(computes, a, target),
        final(trace)@ == if r is Ok {
            old(trace)@.push(Gate::Cast(a.ty, target))
        } else {
            old(trace)@
        },
        r is Ok ==> r->Ok_0.wf() && r->Ok_0.mode_ok(computes),
{
    if !target.check_wf() {
        return Err(RuntimeError::TypeMismatch);
    }
    if !computes {
        trace.push(Gate::Cast(a.ty, target));
        return Ok(Value { value: None, ty: target });
    }
    let x = match a.value {
        Some(x) => x,
        None => {
            return Err(RuntimeError::UndefinedValue);
        },
    };
    if !target.check_contains(x) {
        return Err(RuntimeError::CastOverflow);
    }
    trace.push(Gate::Cast(a.ty, target));
    Ok(Value { value: Some(x), ty: target })
}

/// Performs conditional selection, recording its constraint shape.
fn do_select(computes: bool, trace: &mut Vec<Gate>, cond: Value, a: Value, b: Value) -> (r: Result<
    Value,
    RuntimeError,
>)
    requires
        a.wf(),
        b.wf(),
    ensures
        r == spec_select(computes, cond, a, b),
        final(trace)@ == if r is Ok {
            old(trace)@.push(Gate::Select(a.ty))
        } else {
            old(trace)@
        },
        r is Ok ==> r->Ok_0.wf() && r->Ok_0.mode_ok(computes),
{
    if !boolean_check(computes, &cond) {
        return Err(RuntimeError::ExpectedBoolean);
    }
    if a.ty != b.ty {
        return Err(RuntimeError::TypeMismatch);
    }
    if !computes {
        trace.push(Gate::Select(a.ty));
        return Ok(Value { value: None, ty: a.ty });
    }
    let (x, y) = match (a.value, b.value) {
        (Some(x), Some(y)) => (x, y),
        _ => {
            return Err(RuntimeError::UndefinedValue);
        },
    };
    let c = match cond.value {
        Some(v) => v == 1,
        None => false,
    };
    trace.push(Gate::Select(a.ty));
    Ok(
        Value {
            value: Some(
                if c {
                    x
                } else {
                    y
                },
            ),
            ty: a.ty,
        },
    )
}

/// Allocates a constant of a declared type.  Constants emit no
/// constraint; out-of-range constants are refused.
fn do_constant(computes: bool, value: i128, ty: ScalarType) -> (r: Result<Value, RuntimeError>)
    ensures
        r == spec_constant(computes, value, ty),
        r is Ok ==> r->Ok_0.wf() && r->Ok_0.mode_ok(computes),
{
    if !ty.check_wf() {
        return Err(RuntimeError::InvalidConstant);
    }
    if !ty.check_contains(value) {
        return Err(RuntimeError::InvalidConstant);
    }
    proof {
        crate::scalar::lemma_type_range_fits_carrier(ty, value as int);
    }
    if computes {
        Ok(Value { value: Some(value), ty })
    } else {
        Ok(Value { value: None, ty })
    }
}

/// The capability interface of the operations layer.  The execution
/// engine is written once against it; each method both returns a value
/// handle and appends the shape of the constraints it emitted.
pub trait Operations: Sized {
    /// The shapes of every constraint emitted so far, in order.
    spec fn shapes(&self) -> Seq<Gate>;

    /// Whether this backend computes a witness (concrete scalars).
    spec fn computes(&self) -> bool;

    /// Returns the mode of the backend.
    fn is_witness(&self) -> (b: bool)
        ensures
            b == self.computes(),
    ;

    fn add(&mut self, a: Value, b: Value) -> (r: Result<Value, RuntimeError>)
        requires
            a.wf(),
            b.wf(),
        ensures
            final(self).computes() == old(self).computes(),
            r == spec_arith(old(self).computes(), ArithOp::Add, a, b),
            final(self).shapes() == if r is Ok {
                old(self).shapes().push(Gate::Arith(ArithOp::Add, a.ty))
            } else {
                old(self).shapes()
            },
            r is Ok ==> r->Ok_0.wf() && r->Ok_0.mode_ok(old(self).computes()),
    ;

    fn sub(&mut self, a: Value, b: Value) -> (r: Result<Value, RuntimeError>)
        requires
            a.wf(),
            b.wf(),
        ensures
            final(self).computes() == old(self).computes(),
            r == spec_arith(old(self).computes(), ArithOp::Sub, a, b),
            final(self).shapes() == if r is Ok {
                old(self).shapes().push(Gate::Arith(ArithOp::Sub, a.ty))
            } else {
                old(self).shapes()
            },
            r is Ok ==> r->Ok_0.wf() && r->Ok_0.mode_ok(old(self).computes()),
    ;

    fn mul(&mut self, a: Value, b: Value) -> (r: Result<Value, RuntimeError>)
        requires
            a.wf(),
            b.wf(),
        ensures
            final(self).computes() == old(self).computes(),
            r == spec_arith(old(self).computes(), ArithOp::Mul, a, b),
            final(self).shapes() == if r is Ok {
                old(self).shapes().push(Gate::Arith(ArithOp::Mul, a.ty))
            } else {
                old(self).shapes()
            },
            r is Ok ==> r->Ok_0.wf() && r->Ok_0.mode_ok(old(self).computes()),
    ;

    /// Truncating-free division: the Euclidean quotient and remainder
    /// together, so that on success `a == q * b + r` with
    /// `0 <= r < |b|`.
    fn div_rem(&mut self, a: Value, b: Value) -> (r: Result<(Value, Value), RuntimeError>)
        requires
            a.wf(),
            b.wf(),
        ensures
            final(self).computes() == old(self).computes(),
            r == spec_div_rem(old(self).computes(), a, b),
            final(self).shapes() == if r is Ok {
                old(self).shapes().push(Gate::Arith(ArithOp::DivRem, a.ty))
            } else {
                old(self).shapes()
            },
            r is Ok ==> r->Ok_0.0.wf() && r->Ok_0.0.mode_ok(old(self).computes())
                && r->Ok_0.1.wf() && r->Ok_0.1.mode_ok(old(self).computes()),
            r is Ok && old(self).computes() ==> {
                let av = a.value->Some_0 as int;
                let bv = b.value->Some_0 as int;
                let qv = r->Ok_0.0.value->Some_0 as int;
                let rv = r->Ok_0.1.value->Some_0 as int;
                av == qv * bv + rv && 0 <= rv < (if bv > 0 { bv } else { -bv })
            },
    ;

    fn neg(&mut self, a: Value) -> (r: Result<Value, RuntimeError>)
        requires
            a.wf(),
        ensures
            final(self).computes() == old(self).computes(),
            r == spec_neg(old(self).computes(), a),
            final(self).shapes() == if r is Ok {
                old(self).shapes().push(Gate::Arith(ArithOp::Neg, a.ty))
            } else {
                old(self).shapes()
            },
            r is Ok ==> r->Ok_0.wf() && r->Ok_0.mode_ok(old(self).computes()),
    ;

    fn and(&mut self, a: Value, b: Value) -> (r: Result<Value, RuntimeError>)
        ensures
            final(self).computes() == old(self).computes(),
            r == spec_logic(old(self).computes(), LogicOp::And, a, b),
            final(self).shapes() == if r is Ok {
                old(self).shapes().push(Gate::Logic(LogicOp::And))
            } else {
                old(self).shapes()
            },
            r is Ok ==> r->Ok_0.wf() && r->Ok_0.mode_ok(old(self).computes()),
    ;

    fn or(&mut self, a: Value, b: Value) -> (r: Result<Value, RuntimeError>)
        ensures
            final(self).computes() == old(self).computes(),
            r == spec_logic(old(self).computes(), LogicOp::Or, a, b),
            final(self).shapes() == if r is Ok {
                old(self).shapes().push(Gate::Logic(LogicOp::Or))
            } else {
                old(self).shapes()
            },
            r is Ok ==> r->Ok_0.wf() && r->Ok_0.mode_ok(old(self).computes()),
    ;

    fn xor(&mut self, a: Value, b: Value) -> (r: Result<Value, RuntimeError>)
        ensures
            final(self).computes() == old(self).computes(),
            r == spec_logic(old(self).computes(), LogicOp::Xor, a, b),
            final(self).shapes() == if r is Ok {
                old(self).shapes().push(Gate::Logic(LogicOp::Xor))
            } else {
                old(self).shapes()
            },
            r is Ok ==> r->Ok_0.wf() && r->Ok_0.mode_ok(old(self).computes()),
    ;

    fn not(&mut self, a: Value) -> (r: Result<Value, RuntimeError>)
        ensures
            final(self).computes() == old(self).computes(),
            r == spec_not(old(self).computes(), a),
            final(self).shapes() == if r is Ok {
                old(self).shapes().push(Gate::Logic(LogicOp::Not))
            } else {
                old(self).shapes()
            },
            r is Ok ==> r->Ok_0.wf() && r->Ok_0.mode_ok(old(self).computes()),
    ;

    fn cmp(&mut self, op: CmpOp, a: Value, b: Value) -> (r: Result<Value, RuntimeError>)
        ensures
            final(self).computes() == old(self).computes(),
            r == spec_cmp(old(self).computes(), op, a, b),
            final(self).shapes() == if r is Ok {
                old(self).shapes().push(Gate::Cmp(op, a.ty))
            } else {
                old(self).shapes()
            },
            r is Ok ==> r->Ok_0.wf() && r->Ok_0.mode_ok(old(self).computes()),
    ;

    /// Reinterprets a value at a new bit-length and signedness by a
    /// full bit decomposition, faulting when the value does not fit:
    /// the range-check mechanism.
    fn cast(&mut self, a: Value, target: ScalarType) -> (r: Result<Value, RuntimeError>)
        requires
            a.wf(),
        ensures
            final(self).computes() == old(self).computes(),
            r == spec_cast(old(self).computes(), a, target),
            final(self).shapes() == if r is Ok {
                old(self).shapes().push(Gate::Cast(a.ty, target))
            } else {
                old(self).shapes()
            },
            r is Ok ==> r->Ok_0.wf() && r->Ok_0.mode_ok(old(self).computes()),
    ;

    /// Returns `a` when the condition is true and `b` otherwise,
    /// without branching in the constraint graph.
    fn conditional_select(&mut self, cond: Value, a: Value, b: Value) -> (r: Result<
        Value,
        RuntimeError,
    >)
        requires
            a.wf(),
            b.wf(),
        ensures
            final(self).computes() == old(self).computes(),
            r == spec_select(old(self).computes(), cond, a, b),
            final(self).shapes() == if r is Ok {
                old(self).shapes().push(Gate::Select(a.ty))
            } else {
                old(self).shapes()
            },
            r is Ok ==> r->Ok_0.wf() && r->Ok_0.mode_ok(old(self).computes()),
    ;

    /// Allocates a constant of a declared type, emitting no constraint.
    fn constant(&mut self, value: i128, ty: ScalarType) -> (r: Result<Value, RuntimeError>)
        ensures
            final(self).computes() == old(self).computes(),
            final(self).shapes() == old(self).shapes(),
            r == spec_constant(old(self).computes(), value, ty),
            r is Ok ==> r->Ok_0.wf() && r->Ok_0.mode_ok(old(self).computes()),
    ;
}

/// The witness-computing backend: carries concrete scalars through
/// every primitive and records the constraint shapes beside them.
pub struct WitnessOps {
    pub trace: Vec<Gate>,
}

impl WitnessOps {
    pub fn new() -> (r: WitnessOps)
        ensures
            r.shapes() == Seq::<Gate>::empty(),
            r.computes(),
    {
        let r = WitnessOps { trace: Vec::new() };
        proof {
            assert(r.trace@ =~= Seq::<Gate>::empty());
        }
        r
    }
}

/// The setup-only backend: carries no scalars and records the
/// constraint shapes alone, for key generation.
pub struct SetupOps {
    pub trace: Vec<Gate>,
}

impl SetupOps {
    pub fn new() -> (r: SetupOps)
        ensures
            r.shapes() == Seq::<Gate>::empty(),
            !r.computes(),
    {
        let r = SetupOps { trace: Vec::new() };
        proof {
            assert(r.trace@ =~= Seq::<Gate>::empty());
        }
        r
    }
}

impl Operations for WitnessOps {
    open spec fn shapes(&self) -> Seq<Gate> {
        self.trace@
    }

    open spec fn computes(&self) -> bool {
        true
    }

    fn is_witness(&self) -> (b: bool) {
        true
    }

    fn add(&mut self, a: Value, b: Value) -> (r: Result<Value, RuntimeError>) {
        do_arith(true, &mut self.trace, ArithOp::Add, a, b)
    }

    fn sub(&mut self, a: Value, b: Value) -> (r: Result<Value, RuntimeError>) {
        do_arith(true, &mut self.trace, ArithOp::Sub, a, b)
    }

    fn mul(&mut self, a: Value, b: Value) -> (r: Result<Value, RuntimeError>) {
        do_arith(true, &mut self.trace, ArithOp::Mul, a, b)
    }

    fn div_rem(&mut self, a: Value, b: Value) -> (r: Result<(Value, Value), RuntimeError>) {
        let r = do_div_rem(true, &mut self.trace, a, b);
        proof {
            if r is Ok {
                let x = a.value->Some_0 as int;
                let y = b.value->Some_0 as int;
                lemma_euclid(x, y);
                crate::scalar::lemma_pow2_126_value();
            }
        }
        r
    }

    fn neg(&mut self, a: Value) -> (r: Result<Value, RuntimeError>) {
        do_neg(true, &mut self.trace, a)
    }

    fn and(&mut self, a: Value, b: Value) -> (r: Result<Value, RuntimeError>) {
        do_logic(true, &mut self.trace, LogicOp::And, a, b)
    }

    fn or(&mut self, a: Value, b: Value) -> (r: Result<Value, RuntimeError>) {
        do_logic(true, &mut self.trace, LogicOp::Or, a, b)
    }

    fn xor(&mut self, a: Value, b: Value) -> (r: Result<Value, RuntimeError>) {
        do_logic(true, &mut self.trace, LogicOp::Xor, a, b)
    }

    fn not(&mut self, a: Value) -> (r: Result<Value, RuntimeError>) {
        do_not(true, &mut self.trace, a)
    }

    fn cmp(&mut self, op: CmpOp, a: Value, b: Value) -> (r: Result<Value, RuntimeError>) {
        do_cmp(true, &mut self.trace, op, a, b)
    }

    fn cast(&mut self, a: Value, target: ScalarType) -> (r: Result<Value, RuntimeError>) {
        do_cast(true, &mut self.trace, a, target)
    }

    fn conditional_select(&mut self, cond: Value, a: Value, b: Value) -> (r: Result<
        Value,
        RuntimeError,
    >) {
        do_select(true, &mut self.trace, cond, a, b)
    }

    fn constant(&mut self, value: i128, ty: ScalarType) -> (r: Result<Value, RuntimeError>) {
        do_constant(true, value, ty)
    }
}

impl Operations for SetupOps {
    open spec fn shapes(&self) -> Seq<Gate> {
        self.trace@
    }

    open spec fn computes(&self) -> bool {
        false
    }

    fn is_witness(&self) -> (b: bool) {
        false
    }

    fn add(&mut self, a: Value, b: Value) -> (r: Result<Value, RuntimeError>) {
        do_arith(false, &mut self.trace, ArithOp::Add, a, b)
    }

    fn sub(&mut self, a: Value, b: Value) -> (r: Result<Value, RuntimeError>) {
        do_arith(false, &mut self.trace, ArithOp::Sub, a, b)
    }

    fn mul(&mut self, a: Value, b: Value) -> (r: Result<Value, RuntimeError>) {
        do_arith(false, &mut self.trace, ArithOp::Mul, a, b)
    }

    fn div_rem(&mut self, a: Value, b: Value) -> (r: Result<(Value, Value), RuntimeError>) {
        do_div_rem(false, &mut self.trace, a, b)
    }

    fn neg(&mut self, a: Value) -> (r: Result<Value, RuntimeError>) {
        do_neg(false, &mut self.trace, a)
    }

    fn and(&mut self, a: Value, b: Value) -> (r: Result<Value, RuntimeError>) {
        do_logic(false, &mut self.trace, LogicOp::And, a, b)
    }

    fn or(&mut self, a: Value, b: Value) -> (r: Result<Value, RuntimeError>) {
        do_logic(false, &mut self.trace, LogicOp::Or, a, b)
    }

    fn xor(&mut self, a: Value, b: Value) -> (r: Result<Value, RuntimeError>) {
        do_logic(false, &mut self.trace, LogicOp::Xor, a, b)
    }

    fn not(&mut self, a: Value) -> (r: Result<Value, RuntimeError>) {
        do_not(false, &mut self.trace, a)
    }

    fn cmp(&mut self, op: CmpOp, a: Value, b: Value) -> (r: Result<Value, RuntimeError>) {
        do_cmp(false, &mut self.trace, op, a, b)
    }

    fn cast(&mut self, a: Value, target: ScalarType) -> (r: Result<Value, RuntimeError>) {
        do_cast(false, &mut self.trace, a, target)
    }

    fn conditional_select(&mut self, cond: Value, a: Value, b: Value) -> (r: Result<
        Value,
        RuntimeError,
    >) {
        do_select(false, &mut self.trace, cond, a, b)
    }

    fn constant(&mut self, value: i128, ty: ScalarType) -> (r: Result<Value, RuntimeError>) {
        do_constant(false, value, ty)
    }
}

} // verus!
