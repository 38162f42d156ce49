//! The closed instruction set of the virtual machine: every opcode, the
//! operands each variant carries, the per-instruction stack-effect
//! metadata, and the stable textual assembly form.

use vstd::prelude::*;

use crate::scalar::ScalarType;
use crate::text::{
    push_bool, push_idec, push_udec, spec_bool_text, spec_idec, spec_udec,
};

verus! {

/// The cast instruction: reinterprets the top of the stack at a new
/// bit-length and signedness, faulting when the value does not fit.
#[derive(Debug, Clone, Copy, PartialEq, Eq, Structural, Default)]
pub struct Cast {
    pub signed: bool,
    pub length: usize,
}

impl Cast {
    pub fn new(signed: bool, length: usize) -> (r: Self)
        ensures
            r == (Cast { signed, length }),
    {
        Self { signed, length }
    }

    /// The scalar type this cast converts to.
    pub open spec fn spec_target(self) -> ScalarType {
        ScalarType { signed: self.signed, length: self.length }
    }

    /// Returns the scalar type this cast converts to.
    pub fn target(&self) -> (t: ScalarType)
        ensures
            t == self.spec_target(),
    {
        ScalarType { signed: self.signed, length: self.length }
    }

    pub open spec fn wf(self) -> bool {
        self.spec_target().wf()
    }

    /// How many stack cells the instruction consumes.
    pub fn inputs_count(&self) -> (n: usize)
        ensures
            n == 1,
    {
        1
    }

    /// How many stack cells the instruction produces.
    pub fn outputs_count(&self) -> (n: usize)
        ensures
            n == 1,
    {
        1
    }

    /// Wraps the instruction into the closed instruction set.
    pub fn wrap(&self) -> (i: Instruction)
        ensures
            i == Instruction::Cast(*self),
    {
        Instruction::Cast(*self)
    }
}

/// The loop-opening instruction: the bracketed range up to the matching
/// `LoopEnd` is re-executed `iterations` times.  The count is a
/// compile-time constant so the emitted constraint set has a fixed size.
#[derive(Debug, Clone, Copy, PartialEq, Eq, Structural)]
pub struct LoopBegin {
    pub iterations: usize,
}

impl LoopBegin {
    pub fn new(iterations: usize) -> (r: Self)
        ensures
            r == (LoopBegin { iterations }),
    {
        Self { iterations }
    }

    /// How many stack cells the instruction consumes.
    pub fn inputs_count(&self) -> (n: usize)
        ensures
            n == 0,
    {
        0
    }

    /// How many stack cells the instruction produces.
    pub fn outputs_count(&self) -> (n: usize)
        ensures
            n == 0,
    {
        0
    }

    /// Wraps the instruction into the closed instruction set.
    pub fn wrap(&self) -> (i: Instruction)
        ensures
            i == Instruction::LoopBegin(*self),
    {
        Instruction::LoopBegin(*self)
    }
}

/// One instruction of the bytecode.  Each variant carries exactly the
/// operands needed to reconstruct it from its encoded form.
#[derive(Debug, Clone, Copy, PartialEq, Eq, Structural)]
pub enum Instruction {
    NoOperation,
    /// Discards the top stack cell.
    Pop,
    /// Pushes a constant scalar.
    PushConst { value: i128, signed: bool, length: usize },
    /// Pushes a duplicate of the top stack cell.
    Copy,
    /// Pushes a copy of the local cell at `address`.
    Load { address: usize },
    /// Pops the top cell into the local cell at `address`.
    Store { address: usize },
    /// Pops `array_len` cells and pushes the `slice_len` of them that
    /// start `offset` cells above the bottom of the popped block.
    Slice { offset: usize, array_len: usize, slice_len: usize },
    Add,
    Sub,
    Mul,
    Div,
    Rem,
    Neg,
    And,
    Or,
    Xor,
    Not,
    Lt,
    Le,
    Gt,
    Ge,
    Eq,
    Ne,
    Cast(Cast),
    /// Opens a conditional region over the popped boolean condition.
    If,
    Else,
    EndIf,
    LoopBegin(LoopBegin),
    LoopEnd,
    /// Runs the function whose body starts at instruction `address`,
    /// moving the top `inputs` stack cells into its fresh frame.
    Call { address: usize, inputs: usize },
    /// Ends the current function, leaving `outputs` result cells on the
    /// stack for the caller.
    Return { outputs: usize },
    /// Ends the entry function, leaving `outputs` result cells.
    Exit { outputs: usize },
    /// Pops `size` cells and pushes them in reversed order.
    ArrayReverse { size: usize },
    /// Pops `input_size` boolean cells holding the preimage bits and
    /// pushes the 256 digest bits.
    Sha256 { input_size: usize },
}

/// The number of digest bits every hash instruction produces.
pub const SHA256_DIGEST_BITS: usize = 256;

impl Instruction {
    /// Operand well-formedness: constants fit the scalar type they
    /// declare, and declared scalar types fit the carrier.
    pub open spec fn wf(self) -> bool {
        match self {
            Instruction::PushConst { value, signed, length } => {
                let t = ScalarType { signed, length };
                t.wf() && t.contains(value as int)
            },
            Instruction::Cast(c) => c.wf(),
            Instruction::Slice { offset, array_len, slice_len } => {
                offset + slice_len <= array_len
            },
            _ => true,
        }
    }

    /// How many stack cells the instruction consumes.
    pub open spec fn spec_inputs_count(self) -> nat {
        match self {
            Instruction::NoOperation => 0,
            Instruction::Pop => 1,
            Instruction::PushConst { .. } => 0,
            Instruction::Copy => 0,
            Instruction::Load { .. } => 0,
            Instruction::Store { .. } => 1,
            Instruction::Slice { array_len, .. } => array_len as nat,
            Instruction::Add => 2,
            Instruction::Sub => 2,
            Instruction::Mul => 2,
            Instruction::Div => 2,
            Instruction::Rem => 2,
            Instruction::Neg => 1,
            Instruction::And => 2,
            Instruction::Or => 2,
            Instruction::Xor => 2,
            Instruction::Not => 1,
            Instruction::Lt => 2,
            Instruction::Le => 2,
            Instruction::Gt => 2,
            Instruction::Ge => 2,
            Instruction::Eq => 2,
            Instruction::Ne => 2,
            Instruction::Cast(..) => 1,
            Instruction::If => 1,
            Instruction::Else => 0,
            Instruction::EndIf => 0,
            Instruction::LoopBegin(..) => 0,
            Instruction::LoopEnd => 0,
            Instruction::Call { inputs, .. } => inputs as nat,
            Instruction::Return { outputs } => outputs as nat,
            Instruction::Exit { outputs } => outputs as nat,
            Instruction::ArrayReverse { size } => size as nat,
            Instruction::Sha256 { input_size } => input_size as nat,
        }
    }

    /// How many stack cells the instruction produces.
    pub open spec fn spec_outputs_count(self) -> nat {
        match self {
            Instruction::NoOperation => 0,
            Instruction::Pop => 0,
            Instruction::PushConst { .. } => 1,
            Instruction::Copy => 1,
            Instruction::Load { .. } => 1,
            Instruction::Store { .. } => 0,
            Instruction::Slice { slice_len, .. } => slice_len as nat,
            Instruction::Add => 1,
            Instruction::Sub => 1,
            Instruction::Mul => 1,
            Instruction::Div => 1,
            Instruction::Rem => 1,
            Instruction::Neg => 1,
            Instruction::And => 1,
            Instruction::Or => 1,
            Instruction::Xor => 1,
            Instruction::Not => 1,
            Instruction::Lt => 1,
            Instruction::Le => 1,
            Instruction::Gt => 1,
            Instruction::Ge => 1,
            Instruction::Eq => 1,
            Instruction::Ne => 1,
            Instruction::Cast(..) => 1,
            Instruction::If => 0,
            Instruction::Else => 0,
            Instruction::EndIf => 0,
            Instruction::LoopBegin(..) => 0,
            Instruction::LoopEnd => 0,
            Instruction::Call { .. } => 0,
            Instruction::Return { .. } => 0,
            Instruction::Exit { .. } => 0,
            Instruction::ArrayReverse { size } => size as nat,
            Instruction::Sha256 { .. } => SHA256_DIGEST_BITS as nat,
        }
    }

    /// Returns how many stack cells the instruction consumes.
    pub fn inputs_count(&self) -> (n: usize)
        ensures
            n == self.spec_inputs_count(),
    {
        match self {
            Instruction::Pop => 1,
            Instruction::Store { .. } => 1,
            Instruction::Slice { array_len, .. } => *array_len,
            Instruction::Add | Instruction::Sub | Instruction::Mul => 2,
            Instruction::Div | Instruction::Rem => 2,
            Instruction::Neg => 1,
            Instruction::And | Instruction::Or | Instruction::Xor => 2,
            Instruction::Not => 1,
            Instruction::Lt | Instruction::Le | Instruction::Gt => 2,
            Instruction::Ge | Instruction::Eq | Instruction::Ne => 2,
            Instruction::Cast(..) => 1,
            Instruction::If => 1,
            Instruction::Call { inputs, .. } => *inputs,
            Instruction::Return { outputs } => *outputs,
            Instruction::Exit { outputs } => *outputs,
            Instruction::ArrayReverse { size } => *size,
            Instruction::Sha256 { input_size } => *input_size,
            _ => 0,
        }
    }

    /// Returns how many stack cells the instruction produces.
    pub fn outputs_count(&self) -> (n: usize)
        ensures
            n == self.spec_outputs_count(),
    {
        match self {
            Instruction::PushConst { .. } => 1,
            Instruction::Copy => 1,
            Instruction::Load { .. } => 1,
            Instruction::Slice { slice_len, .. } => *slice_len,
            Instruction::Add | Instruction::Sub | Instruction::Mul => 1,
            Instruction::Div | Instruction::Rem => 1,
            Instruction::Neg => 1,
            Instruction::And | Instruction::Or | Instruction::Xor => 1,
            Instruction::Not => 1,
            Instruction::Lt | Instruction::Le | Instruction::Gt => 1,
            Instruction::Ge | Instruction::Eq | Instruction::Ne => 1,
            Instruction::Cast(..) => 1,
            Instruction::ArrayReverse { size } => *size,
            Instruction::Sha256 { .. } => SHA256_DIGEST_BITS,
            _ => 0,
        }
    }
}

impl Instruction {
    /// The stable one-line textual form: a mnemonic followed by the
    /// operands, separated by single spaces.
    pub open spec fn spec_assembly(self) -> Seq<char> {
        match self {
            Instruction::NoOperation => "noop"@,
            Instruction::Pop => "pop"@,
            Instruction::PushConst { value, signed, length } => "push_const "@
                + spec_idec(value as int) + " "@ + spec_bool_text(signed) + " "@ + spec_udec(
                length as nat,
            ),
            Instruction::Copy => "copy"@,
            Instruction::Load { address } => "load "@ + spec_udec(address as nat),
            Instruction::Store { address } => "store "@ + spec_udec(address as nat),
            Instruction::Slice { offset, array_len, slice_len } => "slice "@ + spec_udec(
                offset as nat,
            ) + " "@ + spec_udec(array_len as nat) + " "@ + spec_udec(slice_len as nat),
            Instruction::Add => "add"@,
            Instruction::Sub => "sub"@,
            Instruction::Mul => "mul"@,
            Instruction::Div => "div"@,
            Instruction::Rem => "rem"@,
            Instruction::Neg => "neg"@,
            Instruction::And => "and"@,
            Instruction::Or => "or"@,
            Instruction::Xor => "xor"@,
            Instruction::Not => "not"@,
            Instruction::Lt => "lt"@,
            Instruction::Le => "le"@,
            Instruction::Gt => "gt"@,
            Instruction::Ge => "ge"@,
            Instruction::Eq => "eq"@,
            Instruction::Ne => "ne"@,
            Instruction::Cast(c) => "cast "@ + spec_bool_text(c.signed) + " "@ + spec_udec(
                c.length as nat,
            ),
            Instruction::If => "if"@,
            Instruction::Else => "else"@,
            Instruction::EndIf => "endif"@,
            Instruction::LoopBegin(l) => "loop_begin "@ + spec_udec(l.iterations as nat),
            Instruction::LoopEnd => "loop_end"@,
            Instruction::Call { address, inputs } => "call "@ + spec_udec(address as nat) + " "@
                + spec_udec(inputs as nat),
            Instruction::Return { outputs } => "return "@ + spec_udec(outputs as nat),
            Instruction::Exit { outputs } => "exit "@ + spec_udec(outputs as nat),
            Instruction::ArrayReverse { size } => "array_reverse "@ + spec_udec(size as nat),
            Instruction::Sha256 { input_size } => "sha256 "@ + spec_udec(input_size as nat),
        }
    }

    /// Renders the stable one-line textual form of the instruction.
    pub fn to_assembly(&self) -> (s: String)
        requires
            self.wf(),
        ensures
            s@ == self.spec_assembly(),
    {
        match self {
            Instruction::NoOperation => String::from_str("noop"),
            Instruction::Pop => String::from_str("pop"),
            Instruction::PushConst { value, signed, length } => {
                let mut s = String::from_str("push_const ");
                proof {
                    crate::scalar::lemma_pow2_monotone((length - 1) as nat, 126);
                    crate::scalar::lemma_pow2_monotone(*length as nat, 126);
                    crate::scalar::lemma_pow2_126_value();
                }
                push_idec(&mut s, *value);
                s.append(" ");
                push_bool(&mut s, *signed);
                s.append(" ");
                push_udec(&mut s, *length as u128);
                proof {
                    assert(s@ =~= self.spec_assembly());
                }
                s
            },
            Instruction::Copy => String::from_str("copy"),
            Instruction::Load { address } => {
                let mut s = String::from_str("load ");
                push_udec(&mut s, *address as u128);
                s
            },
            Instruction::Store { address } => {
                let mut s = String::from_str("store ");
                push_udec(&mut s, *address as u128);
                s
            },
            Instruction::Slice { offset, array_len, slice_len } => {
                let mut s = String::from_str("slice ");
                push_udec(&mut s, *offset as u128);
                s.append(" ");
                push_udec(&mut s, *array_len as u128);
                s.append(" ");
                push_udec(&mut s, *slice_len as u128);
                proof {
                    assert(s@ =~= self.spec_assembly());
                }
                s
            },
            Instruction::Add => String::from_str("add"),
            Instruction::Sub => String::from_str("sub"),
            Instruction::Mul => String::from_str("mul"),
            Instruction::Div => String::from_str("div"),
            Instruction::Rem => String::from_str("rem"),
            Instruction::Neg => String::from_str("neg"),
            Instruction::And => String::from_str("and"),
            Instruction::Or => String::from_str("or"),
            Instruction::Xor => String::from_str("xor"),
            Instruction::Not => String::from_str("not"),
            Instruction::Lt => String::from_str("lt"),
            Instruction::Le => String::from_str("le"),
            Instruction::Gt => String::from_str("gt"),
            Instruction::Ge => String::from_str("ge"),
            Instruction::Eq => String::from_str("eq"),
            Instruction::Ne => String::from_str("ne"),
            Instruction::Cast(c) => {
                let mut s = String::from_str("cast ");
                push_bool(&mut s, c.signed);
                s.append(" ");
                push_udec(&mut s, c.length as u128);
                proof {
                    assert(s@ =~= self.spec_assembly());
                }
                s
            },
            Instruction::If => String::from_str("if"),
            Instruction::Else => String::from_str("else"),
            Instruction::EndIf => String::from_str("endif"),
            Instruction::LoopBegin(l) => {
                let mut s = String::from_str("loop_begin ");
                push_udec(&mut s, l.iterations as u128);
                s
            },
            Instruction::LoopEnd => String::from_str("loop_end"),
            Instruction::Call { address, inputs } => {
                let mut s = String::from_str("call ");
                push_udec(&mut s, *address as u128);
                s.append(" ");
                push_udec(&mut s, *inputs as u128);
                proof {
                    assert(s@ =~= self.spec_assembly());
                }
                s
            },
            Instruction::Return { outputs } => {
                let mut s = String::from_str("return ");
                push_udec(&mut s, *outputs as u128);
                s
            },
            Instruction::Exit { outputs } => {
                let mut s = String::from_str("exit ");
                push_udec(&mut s, *outputs as u128);
                s
            },
            Instruction::ArrayReverse { size } => {
                let mut s = String::from_str("array_reverse ");
                push_udec(&mut s, *size as u128);
                s
            },
            Instruction::Sha256 { input_size } => {
                let mut s = String::from_str("sha256 ");
                push_udec(&mut s, *input_size as u128);
                s
            },
        }
    }
}

impl Cast {
    /// Renders the textual form of the cast instruction.
    pub fn to_assembly(&self) -> (s: String)
        requires
            self.wf(),
        ensures
            s@ == Instruction::Cast(*self).spec_assembly(),
    {
        self.wrap().to_assembly()
    }
}

impl LoopBegin {
    /// Renders the textual form of the loop-opening instruction.
    pub fn to_assembly(&self) -> (s: String)
        ensures
            s@ == Instruction::LoopBegin(*self).spec_assembly(),
    {
        self.wrap().to_assembly()
    }
}

/// The opcode numbering of the earliest revision of this bytecode,
/// kept for reading programs emitted in that format.
#[derive(Debug, Clone, Copy, PartialEq, Eq, Structural)]
pub enum OperationCode {
    NoOperation,
    Pop,
    Push,
    Add,
    Subtract,
    Multiply,
    Divide,
    Remainder,
    Negate,
}

impl OperationCode {
    /// Reads the legacy opcode with the given number, or hands the
    /// number back when it names no operation.
    pub fn try_from(value: u8) -> (r: Result<OperationCode, u8>)
        ensures
            match r {
                Ok(c) => value < 9,
                Err(v) => v == value && value >= 9,
            },
            r == OperationCode::spec_try_from(value),
    {
        match value {
            0 => Ok(Self::NoOperation),
            1 => Ok(Self::Pop),
            2 => Ok(Self::Push),
            3 => Ok(Self::Add),
            4 => Ok(Self::Subtract),
            5 => Ok(Self::Multiply),
            6 => Ok(Self::Divide),
            7 => Ok(Self::Remainder),
            8 => Ok(Self::Negate),
            _ => Err(value),
        }
    }

    /// The legacy opcode named by each byte.
    pub open spec fn spec_try_from(value: u8) -> Result<OperationCode, u8> {
        if value == 0 {
            Ok(OperationCode::NoOperation)
        } else if value == 1 {
            Ok(OperationCode::Pop)
        } else if value == 2 {
            Ok(OperationCode::Push)
        } else if value == 3 {
            Ok(OperationCode::Add)
        } else if value == 4 {
            Ok(OperationCode::Subtract)
        } else if value == 5 {
            Ok(OperationCode::Multiply)
        } else if value == 6 {
            Ok(OperationCode::Divide)
        } else if value == 7 {
            Ok(OperationCode::Remainder)
        } else if value == 8 {
            Ok(OperationCode::Negate)
        } else {
            Err(value)
        }
    }
}

} // verus!
