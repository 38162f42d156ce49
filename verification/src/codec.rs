//! The byte encoding of instructions.
//!
//! Every instruction encodes to a self-describing byte sequence: a
//! one-byte opcode tag followed by the operands.  Numeric operands use a
//! variable-length base-128 encoding, least significant group first, the
//! high bit of each byte marking a continuation.  Decoding reads exactly
//! the bytes the matching encoder produced; a numeric operand that does
//! not fit the target's native width fails with `ConstantTooLong`.

use vstd::prelude::*;

use vstd::slice::slice_index_get;

use crate::instruction::{Cast, Instruction, LoopBegin};

verus! {

/// Why a byte stream could not be decoded.
#[derive(Debug, Clone, Copy, PartialEq, Eq, Structural)]
pub enum DecodingError {
    /// The stream ended inside an instruction.
    UnexpectedEnd,
    /// The opcode tag names no instruction.
    UnknownInstruction,
    /// A numeric operand exceeds the platform's addressable size.
    ConstantTooLong,
    /// A flag byte holds neither zero nor one.
    MalformedOperand,
}

pub const TAG_NOOP: u8 = 0;

pub const TAG_POP: u8 = 1;

pub const TAG_PUSH_CONST: u8 = 2;

pub const TAG_COPY: u8 = 3;

pub const TAG_LOAD: u8 = 4;

pub const TAG_STORE: u8 = 5;

pub const TAG_SLICE: u8 = 6;

pub const TAG_ADD: u8 = 7;

pub const TAG_SUB: u8 = 8;

pub const TAG_MUL: u8 = 9;

pub const TAG_DIV: u8 = 10;

pub const TAG_REM: u8 = 11;

pub const TAG_NEG: u8 = 12;

pub const TAG_AND: u8 = 13;

pub const TAG_OR: u8 = 14;

pub const TAG_XOR: u8 = 15;

pub const TAG_NOT: u8 = 16;

pub const TAG_LT: u8 = 17;

pub const TAG_LE: u8 = 18;

pub const TAG_GT: u8 = 19;

pub const TAG_GE: u8 = 20;

pub const TAG_EQ: u8 = 21;

pub const TAG_NE: u8 = 22;

pub const TAG_CAST: u8 = 23;

pub const TAG_IF: u8 = 24;

pub const TAG_ELSE: u8 = 25;

pub const TAG_END_IF: u8 = 26;

pub const TAG_LOOP_BEGIN: u8 = 27;

pub const TAG_LOOP_END: u8 = 28;

pub const TAG_CALL: u8 = 29;

pub const TAG_RETURN: u8 = 30;

pub const TAG_EXIT: u8 = 31;

pub const TAG_ARRAY_REVERSE: u8 = 32;

pub const TAG_SHA256: u8 = 33;

/// The variable-length base-128 encoding of `n`, least significant
/// group first; the high bit marks a continuation byte.
pub open spec fn spec_varint(n: nat) -> Seq<u8>
    decreases n,
{
    if n < 128 {
        seq![n as u8]
    } else {
        seq![(128 + n % 128) as u8] + spec_varint(n / 128)
    }
}

/// Reads one variable-length number from the front of `bytes`:
/// the value and how many bytes it occupied.
pub open spec fn spec_varint_decode(bytes: Seq<u8>) -> Option<(nat, nat)>
    decreases bytes.len(),
{
    if bytes.len() == 0 {
        None
    } else if bytes[0] < 128 {
        Some((bytes[0] as nat, 1))
    } else {
        match spec_varint_decode(bytes.skip(1)) {
            None => None,
            Some((v, k)) => Some((((bytes[0] - 128) + 128 * v) as nat, (k + 1) as nat)),
        }
    }
}

/// Reading back an encoded number returns the number, consuming exactly
/// its own bytes, whatever follows it in the stream.
pub proof fn lemma_varint_round_trip(n: nat, rest: Seq<u8>)
    ensures
        spec_varint_decode(spec_varint(n) + rest) == Some::<(nat, nat)>(
            (n, spec_varint(n).len()),
        ),
    decreases n,
{
    let enc = spec_varint(n) + rest;
    if n < 128 {
        assert(enc[0] == n as u8);
    } else {
        lemma_varint_round_trip(n / 128, rest);
        assert(enc.skip(1) =~= spec_varint(n / 128) + rest);
        assert(enc[0] == (128 + n % 128) as u8);
        assert((enc[0] - 128) + 128 * (n / 128) == n);
    }
}

/// A successful read consumes at least one and at most all bytes.
proof fn lemma_varint_decode_count(bytes: Seq<u8>)
    requires
        spec_varint_decode(bytes) is Some,
    ensures
        1 <= spec_varint_decode(bytes)->Some_0.1 <= bytes.len(),
    decreases bytes.len(),
{
    if bytes.len() > 0 && bytes[0] >= 128 {
        lemma_varint_decode_count(bytes.skip(1));
    }
}

/// A decoded value is at least the value of any suffix reached by
/// dropping leading continuation bytes, and the suffix consumes
/// correspondingly fewer bytes.
proof fn lemma_varint_decode_suffix_le(bytes: Seq<u8>, i: nat)
    requires
        spec_varint_decode(bytes) is Some,
        i < spec_varint_decode(bytes)->Some_0.1,
    ensures
        spec_varint_decode(bytes.skip(i as int)) is Some,
        spec_varint_decode(bytes.skip(i as int))->Some_0.0 <= spec_varint_decode(bytes)->Some_0.0,
        spec_varint_decode(bytes.skip(i as int))->Some_0.1 + i == spec_varint_decode(
            bytes,
        )->Some_0.1,
    decreases i,
{
    lemma_varint_decode_count(bytes);
    if i == 0 {
        assert(bytes.skip(0) =~= bytes);
    } else {
        if bytes[0] < 128 {
            assert(spec_varint_decode(bytes)->Some_0.1 == 1);
            assert(false);
        }
        assert(bytes.skip(1).skip(i - 1) =~= bytes.skip(i as int)) by {
            assert forall|m: int| 0 <= m < bytes.skip(i as int).len() implies bytes.skip(1).skip(
                i - 1,
            )[m] == bytes.skip(i as int)[m] by {
                assert(bytes.skip(1).skip(i - 1)[m] == bytes.skip(1)[m + i - 1]);
                assert(bytes.skip(1)[m + i - 1] == bytes[m + i]);
            };
        };
        lemma_varint_decode_suffix_le(bytes.skip(1), (i - 1) as nat);
        let v1 = spec_varint_decode(bytes.skip(1))->Some_0.0;
        assert(spec_varint_decode(bytes)->Some_0.0 >= 128 * v1 >= v1);
    }
}

/// A stream whose first `k` bytes carry the continuation bit and whose
/// byte `k` does not decodes successfully, consuming `k + 1` bytes.
proof fn lemma_varint_terminated_decodes(bytes: Seq<u8>, k: nat)
    requires
        k < bytes.len(),
        forall|i: int| 0 <= i < k ==> bytes[i] >= 128,
        bytes[k as int] < 128,
    ensures
        spec_varint_decode(bytes) is Some,
        spec_varint_decode(bytes)->Some_0.1 == k + 1,
    decreases k,
{
    if k > 0 {
        assert(bytes.skip(1)[k - 1] == bytes[k as int]);
        assert(forall|i: int| 0 <= i < k - 1 ==> bytes.skip(1)[i] == bytes[i + 1]);
        lemma_varint_terminated_decodes(bytes.skip(1), (k - 1) as nat);
    }
}

/// A stream of continuation bytes alone never decodes.
proof fn lemma_varint_all_continuation_none(bytes: Seq<u8>)
    requires
        forall|i: int| 0 <= i < bytes.len() ==> bytes[i] >= 128,
    ensures
        spec_varint_decode(bytes) is None,
    decreases bytes.len(),
{
    if bytes.len() > 0 {
        assert(forall|i: int| 0 <= i < bytes.skip(1).len() ==> bytes.skip(1)[i] == bytes[i + 1]);
        lemma_varint_all_continuation_none(bytes.skip(1));
    }
}

/// Appends the variable-length encoding of `n` to `out`.
pub fn push_varint(out: &mut Vec<u8>, n: u128)
    ensures
        final(out)@ == old(out)@ + spec_varint(n as nat),
{
    let ghost n0 = n as nat;
    let ghost base = old(out)@;
    let mut rem = n;
    while rem >= 128
        invariant
            base + spec_varint(n0) == out@ + spec_varint(rem as nat),
        decreases rem,
    {
        let ghost pre = out@;
        let b: u8 = 128 + (rem % 128) as u8;
        out.push(b);
        proof {
            assert(spec_varint(rem as nat) == seq![b] + spec_varint((rem / 128) as nat));
            assert(out@ + spec_varint((rem / 128) as nat) =~= pre + spec_varint(rem as nat));
        }
        rem = rem / 128;
    }
    let ghost pre = out@;
    out.push(rem as u8);
    proof {
        assert(spec_varint(rem as nat) == seq![rem as u8]);
        assert(out@ =~= pre + spec_varint(rem as nat));
        assert(out@ =~= base + spec_varint(n0));
    }
}

/// Reads one variable-length number starting at `pos`, as the matching
/// spec-level reader does, failing with `ConstantTooLong` when the
/// value does not fit the carrier width.
pub fn read_varint(bytes: &[u8], pos: usize) -> (r: Result<(u128, usize), DecodingError>)
    requires
        pos <= bytes@.len(),
    ensures
        match spec_varint_decode(bytes@.skip(pos as int)) {
            None => r == Err::<(u128, usize), DecodingError>(DecodingError::UnexpectedEnd),
            Some((v, k)) => if v <= u128::MAX {
                r == Ok::<(u128, usize), DecodingError>((v as u128, k as usize)) && pos + k
                    <= bytes@.len()
            } else {
                r == Err::<(u128, usize), DecodingError>(DecodingError::ConstantTooLong)
            },
        },
{
    let ghost tail = bytes@.skip(pos as int);
    // Find the terminating byte: the first without the continuation bit.
    let n = bytes.len();
    let mut end = pos;
    while end < n && *slice_index_get(bytes, end) >= 128
        invariant
            n == bytes@.len(),
            pos <= end <= n,
            forall|j: int| pos <= j < end ==> bytes@[j] >= 128,
        decreases n - end,
    {
        end = end + 1;
    }
    if end == n {
        proof {
            assert(forall|i: int| 0 <= i < tail.len() ==> tail[i] == bytes@[pos + i]);
            lemma_varint_all_continuation_none(tail);
        }
        return Err(DecodingError::UnexpectedEnd);
    }
    proof {
        assert(tail[end - pos] == bytes@[end as int]);
        assert(forall|i: int| 0 <= i < end - pos ==> tail[i] == bytes@[pos + i] && tail[i] >= 128);
        lemma_varint_terminated_decodes(tail, (end - pos) as nat);
    }
    let ghost total = spec_varint_decode(tail)->Some_0.0;
    // Accumulate from the most significant group backwards.
    let mut v: u128 = *slice_index_get(bytes, end) as u128;
    proof {
        assert(bytes@.skip(end as int)[0] == bytes@[end as int]);
    }
    let mut j = end;
    while j > pos
        invariant
            pos <= j <= end < bytes@.len(),
            bytes@[end as int] < 128,
            forall|i: int| pos <= i < end ==> bytes@[i] >= 128,
            tail == bytes@.skip(pos as int),
            spec_varint_decode(bytes@.skip(j as int)) == Some::<(nat, nat)>(
                (v as nat, (end + 1 - j) as nat),
            ),
            spec_varint_decode(bytes@.skip(pos as int)) is Some,
            spec_varint_decode(bytes@.skip(pos as int))->Some_0 == ((total, (end + 1
                - pos) as nat)),
        decreases j - pos,
    {
        let low = (*slice_index_get(bytes, j - 1) - 128) as u128;
        let ghost vprev = v as nat;
        proof {
            assert(bytes@.skip(j - 1)[0] == bytes@[j - 1]);
            assert(bytes@.skip(j - 1).skip(1) =~= bytes@.skip(j as int)) by {
                assert forall|m: int| 0 <= m < bytes@.skip(j as int).len() implies bytes@.skip(
                    j - 1,
                ).skip(1)[m] == bytes@.skip(j as int)[m] by {
                    assert(bytes@.skip(j - 1).skip(1)[m] == bytes@.skip(j - 1)[m + 1]);
                    assert(bytes@.skip(j - 1)[m + 1] == bytes@[j + m]);
                };
            };
            assert(spec_varint_decode(bytes@.skip(j - 1)) == Some::<(nat, nat)>(
                ((low as nat + 128 * vprev) as nat, (end + 1 - (j - 1)) as nat),
            ));
        }
        if v > (u128::MAX - low) / 128 {
            proof {
                lemma_varint_decode_suffix_le(tail, (j - 1 - pos) as nat);
                assert(tail.skip(j - 1 - pos) =~= bytes@.skip(j - 1)) by {
                    assert forall|m: int| 0 <= m < bytes@.skip(j - 1).len() implies #[trigger] tail.skip(
                        j - 1 - pos,
                    )[m] == bytes@.skip(j - 1)[m] by {
                        assert(tail.skip(j - 1 - pos)[m] == tail[m + j - 1 - pos]);
                        assert(tail[m + j - 1 - pos] == bytes@[m + j - 1]);
                    };
                };
                assert(total >= low as nat + 128 * vprev);
                assert(128 * vprev > u128::MAX - low);
            }
            return Err(DecodingError::ConstantTooLong);
        }
        v = low + 128 * v;
        j = j - 1;
    }
    Ok((v, end + 1 - pos))
}

/// The flag byte standing for a boolean operand.
pub open spec fn spec_flag(b: bool) -> u8 {
    if b {
        1
    } else {
        0
    }
}

/// The magnitude of a signed operand.
pub open spec fn spec_mag(v: int) -> nat {
    if v < 0 {
        (-v) as nat
    } else {
        v as nat
    }
}

/// The byte encoding of one instruction: a one-byte opcode tag followed
/// by the operands.
pub open spec fn spec_encode(i: Instruction) -> Seq<u8> {
    match i {
        Instruction::NoOperation => seq![TAG_NOOP],
        Instruction::Pop => seq![TAG_POP],
        Instruction::PushConst { value, signed, length } => seq![TAG_PUSH_CONST]
            + seq![spec_flag(value < 0)] + spec_varint(spec_mag(value as int)) + seq![
            spec_flag(signed),
        ] + spec_varint(length as nat),
        Instruction::Copy => seq![TAG_COPY],
        Instruction::Load { address } => seq![TAG_LOAD] + spec_varint(address as nat),
        Instruction::Store { address } => seq![TAG_STORE] + spec_varint(address as nat),
        Instruction::Slice { offset, array_len, slice_len } => seq![TAG_SLICE] + spec_varint(
            offset as nat,
        ) + spec_varint(array_len as nat) + spec_varint(slice_len as nat),
        Instruction::Add => seq![TAG_ADD],
        Instruction::Sub => seq![TAG_SUB],
        Instruction::Mul => seq![TAG_MUL],
        Instruction::Div => seq![TAG_DIV],
        Instruction::Rem => seq![TAG_REM],
        Instruction::Neg => seq![TAG_NEG],
        Instruction::And => seq![TAG_AND],
        Instruction::Or => seq![TAG_OR],
        Instruction::Xor => seq![TAG_XOR],
        Instruction::Not => seq![TAG_NOT],
        Instruction::Lt => seq![TAG_LT],
        Instruction::Le => seq![TAG_LE],
        Instruction::Gt => seq![TAG_GT],
        Instruction::Ge => seq![TAG_GE],
        Instruction::Eq => seq![TAG_EQ],
        Instruction::Ne => seq![TAG_NE],
        Instruction::Cast(c) => seq![TAG_CAST] + seq![spec_flag(c.signed)] + spec_varint(
            c.length as nat,
        ),
        Instruction::If => seq![TAG_IF],
        Instruction::Else => seq![TAG_ELSE],
        Instruction::EndIf => seq![TAG_END_IF],
        Instruction::LoopBegin(l) => seq![TAG_LOOP_BEGIN] + spec_varint(l.iterations as nat),
        Instruction::LoopEnd => seq![TAG_LOOP_END],
        Instruction::Call { address, inputs } => seq![TAG_CALL] + spec_varint(address as nat)
            + spec_varint(inputs as nat),
        Instruction::Return { outputs } => seq![TAG_RETURN] + spec_varint(outputs as nat),
        Instruction::Exit { outputs } => seq![TAG_EXIT] + spec_varint(outputs as nat),
        Instruction::ArrayReverse { size } => seq![TAG_ARRAY_REVERSE] + spec_varint(size as nat),
        Instruction::Sha256 { input_size } => seq![TAG_SHA256] + spec_varint(input_size as nat),
    }
}

/// Reads one numeric operand at `pos`: the value and the position after
/// it.  A value beyond the carrier width is `ConstantTooLong`.
pub open spec fn spec_read_num(bytes: Seq<u8>, pos: nat) -> Result<(nat, nat), DecodingError> {
    match spec_varint_decode(bytes.skip(pos as int)) {
        None => Err(DecodingError::UnexpectedEnd),
        Some((v, k)) => if v > u128::MAX {
            Err(DecodingError::ConstantTooLong)
        } else {
            Ok((v, pos + k))
        },
    }
}

/// Reads one index-sized operand: `ConstantTooLong` when the decoded
/// magnitude exceeds the platform's addressable size.
pub open spec fn spec_read_usize(bytes: Seq<u8>, pos: nat) -> Result<
    (usize, nat),
    DecodingError,
> {
    match spec_read_num(bytes, pos) {
        Err(e) => Err(e),
        Ok((v, p)) => if v > usize::MAX {
            Err(DecodingError::ConstantTooLong)
        } else {
            Ok((v as usize, p))
        },
    }
}

/// Reads one flag byte: zero or one.
pub open spec fn spec_read_flag(bytes: Seq<u8>, pos: nat) -> Result<(bool, nat), DecodingError> {
    if pos >= bytes.len() {
        Err(DecodingError::UnexpectedEnd)
    } else if bytes[pos as int] == 0 {
        Ok((false, pos + 1))
    } else if bytes[pos as int] == 1 {
        Ok((true, pos + 1))
    } else {
        Err(DecodingError::MalformedOperand)
    }
}

/// Reads one signed constant operand: a sign flag and a magnitude.
pub open spec fn spec_read_const(bytes: Seq<u8>, pos: nat) -> Result<(i128, nat), DecodingError> {
    match spec_read_flag(bytes, pos) {
        Err(e) => Err(e),
        Ok((neg, p1)) => match spec_read_num(bytes, p1) {
            Err(e) => Err(e),
            Ok((mag, p2)) => if mag > i128::MAX {
                Err(DecodingError::ConstantTooLong)
            } else if neg {
                Ok(((-(mag as int)) as i128, p2))
            } else {
                Ok((mag as i128, p2))
            },
        },
    }
}

/// Reads one instruction from the front of the stream: the instruction
/// and how many bytes it occupied.
pub open spec fn spec_decode(bytes: Seq<u8>) -> Result<(Instruction, nat), DecodingError> {
    if bytes.len() == 0 {
        Err(DecodingError::UnexpectedEnd)
    } else {
        let tag = bytes[0];
        if tag == TAG_NOOP {
            Ok((Instruction::NoOperation, 1))
        } else if tag == TAG_POP {
            Ok((Instruction::Pop, 1))
        } else if tag == TAG_PUSH_CONST {
            match spec_read_const(bytes, 1) {
                Err(e) => Err(e),
                Ok((value, p1)) => match spec_read_flag(bytes, p1) {
                    Err(e) => Err(e),
                    Ok((signed, p2)) => match spec_read_usize(bytes, p2) {
                        Err(e) => Err(e),
                        Ok((length, p3)) => Ok(
                            (Instruction::PushConst { value, signed, length }, p3),
                        ),
                    },
                },
            }
        } else if tag == TAG_COPY {
            Ok((Instruction::Copy, 1))
        } else if tag == TAG_LOAD {
            match spec_read_usize(bytes, 1) {
                Err(e) => Err(e),
                Ok((address, p)) => Ok((Instruction::Load { address }, p)),
            }
        } else if tag == TAG_STORE {
            match spec_read_usize(bytes, 1) {
                Err(e) => Err(e),
                Ok((address, p)) => Ok((Instruction::Store { address }, p)),
            }
        } else if tag == TAG_SLICE {
            match spec_read_usize(bytes, 1) {
                Err(e) => Err(e),
                Ok((offset, p1)) => match spec_read_usize(bytes, p1) {
                    Err(e) => Err(e),
                    Ok((array_len, p2)) => match spec_read_usize(bytes, p2) {
                        Err(e) => Err(e),
                        Ok((slice_len, p3)) => Ok(
                            (Instruction::Slice { offset, array_len, slice_len }, p3),
                        ),
                    },
                },
            }
        } else if tag == TAG_ADD {
            Ok((Instruction::Add, 1))
        } else if tag == TAG_SUB {
            Ok((Instruction::Sub, 1))
        } else if tag == TAG_MUL {
            Ok((Instruction::Mul, 1))
        } else if tag == TAG_DIV {
            Ok((Instruction::Div, 1))
        } else if tag == TAG_REM {
            Ok((Instruction::Rem, 1))
        } else if tag == TAG_NEG {
            Ok((Instruction::Neg, 1))
        } else if tag == TAG_AND {
            Ok((Instruction::And, 1))
        } else if tag == TAG_OR {
            Ok((Instruction::Or, 1))
        } else if tag == TAG_XOR {
            Ok((Instruction::Xor, 1))
        } else if tag == TAG_NOT {
            Ok((Instruction::Not, 1))
        } else if tag == TAG_LT {
            Ok((Instruction::Lt, 1))
        } else if tag == TAG_LE {
            Ok((Instruction::Le, 1))
        } else if tag == TAG_GT {
            Ok((Instruction::Gt, 1))
        } else if tag == TAG_GE {
            Ok((Instruction::Ge, 1))
        } else if tag == TAG_EQ {
            Ok((Instruction::Eq, 1))
        } else if tag == TAG_NE {
            Ok((Instruction::Ne, 1))
        } else if tag == TAG_CAST {
            match spec_read_flag(bytes, 1) {
                Err(e) => Err(e),
                Ok((signed, p1)) => match spec_read_usize(bytes, p1) {
                    Err(e) => Err(e),
                    Ok((length, p2)) => Ok((Instruction::Cast(Cast { signed, length }), p2)),
                },
            }
        } else if tag == TAG_IF {
            Ok((Instruction::If, 1))
        } else if tag == TAG_ELSE {
            Ok((Instruction::Else, 1))
        } else if tag == TAG_END_IF {
            Ok((Instruction::EndIf, 1))
        } else if tag == TAG_LOOP_BEGIN {
            match spec_read_usize(bytes, 1) {
                Err(e) => Err(e),
                Ok((iterations, p)) => Ok((Instruction::LoopBegin(LoopBegin { iterations }), p)),
            }
        } else if tag == TAG_LOOP_END {
            Ok((Instruction::LoopEnd, 1))
        } else if tag == TAG_CALL {
            match spec_read_usize(bytes, 1) {
                Err(e) => Err(e),
                Ok((address, p1)) => match spec_read_usize(bytes, p1) {
                    Err(e) => Err(e),
                    Ok((inputs, p2)) => Ok((Instruction::Call { address, inputs }, p2)),
                },
            }
        } else if tag == TAG_RETURN {
            match spec_read_usize(bytes, 1) {
                Err(e) => Err(e),
                Ok((outputs, p)) => Ok((Instruction::Return { outputs }, p)),
            }
        } else if tag == TAG_EXIT {
            match spec_read_usize(bytes, 1) {
                Err(e) => Err(e),
                Ok((outputs, p)) => Ok((Instruction::Exit { outputs }, p)),
            }
        } else if tag == TAG_ARRAY_REVERSE {
            match spec_read_usize(bytes, 1) {
                Err(e) => Err(e),
                Ok((size, p)) => Ok((Instruction::ArrayReverse { size }, p)),
            }
        } else if tag == TAG_SHA256 {
            match spec_read_usize(bytes, 1) {
                Err(e) => Err(e),
                Ok((input_size, p)) => Ok((Instruction::Sha256 { input_size }, p)),
            }
        } else {
            Err(DecodingError::UnknownInstruction)
        }
    }
}

proof fn lemma_read_usize_at(bytes: Seq<u8>, pos: nat, x: usize, rest: Seq<u8>)
    requires
        bytes.skip(pos as int) == spec_varint(x as nat) + rest,
    ensures
        spec_read_usize(bytes, pos) == Ok::<(usize, nat), DecodingError>(
            (x, (pos + spec_varint(x as nat).len()) as nat),
        ),
{
    lemma_varint_round_trip(x as nat, rest);
}

proof fn lemma_read_flag_at(bytes: Seq<u8>, pos: nat, b: bool)
    requires
        pos < bytes.len(),
        bytes[pos as int] == spec_flag(b),
    ensures
        spec_read_flag(bytes, pos) == Ok::<(bool, nat), DecodingError>((b, (pos + 1) as nat)),
{
}

/// Every instruction reads back from its own encoding, consuming
/// exactly its own bytes, whatever follows them in the stream: the
/// encoding is self-describing and never partially consumed.
proof fn lemma_rt_push_const(value: i128, signed: bool, length: usize, rest: Seq<u8>)
    requires
        (Instruction::PushConst { value, signed, length }).wf(),
    ensures
        spec_decode(spec_encode(Instruction::PushConst { value, signed, length }) + rest)
            == Ok::<(Instruction, nat), DecodingError>(
            (
                Instruction::PushConst { value, signed, length },
                spec_encode(Instruction::PushConst { value, signed, length }).len(),
            ),
        ),
{
    let i = Instruction::PushConst { value, signed, length };
    let enc = spec_encode(i) + rest;
    let t = crate::scalar::ScalarType { signed, length };
    crate::scalar::lemma_type_range_fits_carrier(t, value as int);
    crate::scalar::lemma_pow2_126_value();
    let mag = spec_mag(value as int);
    let alen = spec_varint(mag).len();
    assert(enc[0] == TAG_PUSH_CONST);
    assert(enc[1] == spec_flag(value < 0));
    lemma_read_flag_at(enc, 1, value < 0);
    let rest2 = seq![spec_flag(signed)] + spec_varint(length as nat) + rest;
    assert(enc.skip(2) =~= spec_varint(mag) + rest2);
    lemma_varint_round_trip(mag, rest2);
    let p2 = (2 + alen) as nat;
    assert(spec_read_num(enc, 2) == Ok::<(nat, nat), DecodingError>((mag, p2)));
    assert(spec_read_const(enc, 1) == Ok::<(i128, nat), DecodingError>((value, p2)));
    assert(enc[p2 as int] == spec_flag(signed)) by {
        assert(enc.skip(2)[alen as int] == spec_flag(signed));
    };
    lemma_read_flag_at(enc, p2, signed);
    assert(enc.skip(p2 + 1 as int) =~= spec_varint(length as nat) + rest) by {
        assert forall|m: int| 0 <= m < enc.skip(p2 + 1 as int).len() implies #[trigger] enc.skip(
            p2 + 1 as int,
        )[m] == enc.skip(2)[m + alen + 1] by {
        }
    };
    lemma_read_usize_at(enc, (p2 + 1) as nat, length, rest);
}

proof fn lemma_rt_slice(offset: usize, array_len: usize, slice_len: usize, rest: Seq<u8>)
    ensures
        spec_decode(spec_encode(Instruction::Slice { offset, array_len, slice_len }) + rest)
            == Ok::<(Instruction, nat), DecodingError>(
            (
                Instruction::Slice { offset, array_len, slice_len },
                spec_encode(Instruction::Slice { offset, array_len, slice_len }).len(),
            ),
        ),
{
    let i = Instruction::Slice { offset, array_len, slice_len };
    let enc = spec_encode(i) + rest;
    let a = spec_varint(offset as nat);
    let b = spec_varint(array_len as nat);
    let c = spec_varint(slice_len as nat);
    assert(enc[0] == TAG_SLICE);
    assert(enc.skip(1) =~= a + (b + c + rest));
    lemma_read_usize_at(enc, 1, offset, b + c + rest);
    assert(enc.skip(1 + a.len() as int) =~= b + (c + rest)) by {
        assert forall|m: int| 0 <= m < enc.skip(1 + a.len() as int).len()
            implies #[trigger] enc.skip(1 + a.len() as int)[m] == enc.skip(1)[m + a.len()] by {
        }
    };
    lemma_read_usize_at(enc, (1 + a.len()) as nat, array_len, c + rest);
    assert(enc.skip(1 + a.len() as int + b.len() as int) =~= c + rest) by {
        assert forall|m: int| 0 <= m < enc.skip(1 + a.len() as int + b.len() as int).len()
            implies #[trigger] enc.skip(1 + a.len() as int + b.len() as int)[m] == enc.skip(1)[m
            + a.len() + b.len()] by {
        }
    };
    lemma_read_usize_at(enc, (1 + a.len() + b.len()) as nat, slice_len, rest);
}

proof fn lemma_rt_call(address: usize, inputs: usize, rest: Seq<u8>)
    ensures
        spec_decode(spec_encode(Instruction::Call { address, inputs }) + rest) == Ok::<
            (Instruction, nat),
            DecodingError,
        >(
            (
                Instruction::Call { address, inputs },
                spec_encode(Instruction::Call { address, inputs }).len(),
            ),
        ),
{
    let i = Instruction::Call { address, inputs };
    let enc = spec_encode(i) + rest;
    let a = spec_varint(address as nat);
    let b = spec_varint(inputs as nat);
    assert(enc[0] == TAG_CALL);
    assert(enc.skip(1) =~= a + (b + rest));
    lemma_read_usize_at(enc, 1, address, b + rest);
    assert(enc.skip(1 + a.len() as int) =~= b + rest) by {
        assert forall|m: int| 0 <= m < enc.skip(1 + a.len() as int).len()
            implies #[trigger] enc.skip(1 + a.len() as int)[m] == enc.skip(1)[m + a.len()] by {
        }
    };
    lemma_read_usize_at(enc, (1 + a.len()) as nat, inputs, rest);
}

proof fn lemma_rt_cast(c: Cast, rest: Seq<u8>)
    ensures
        spec_decode(spec_encode(Instruction::Cast(c)) + rest) == Ok::<
            (Instruction, nat),
            DecodingError,
        >((Instruction::Cast(c), spec_encode(Instruction::Cast(c)).len())),
{
    let enc = spec_encode(Instruction::Cast(c)) + rest;
    assert(enc[0] == TAG_CAST);
    assert(enc[1] == spec_flag(c.signed));
    lemma_read_flag_at(enc, 1, c.signed);
    assert(enc.skip(2) =~= spec_varint(c.length as nat) + rest);
    lemma_read_usize_at(enc, 2, c.length, rest);
}

/// Every instruction reads back from its own encoding, consuming
/// exactly its own bytes, whatever follows them in the stream: the
/// encoding is self-describing and never partially consumed.
#[verifier::rlimit(60)]
pub proof fn lemma_instruction_round_trip(i: Instruction, rest: Seq<u8>)
    requires
        i.wf(),
    ensures
        spec_decode(spec_encode(i) + rest) == Ok::<(Instruction, nat), DecodingError>(
            (i, spec_encode(i).len()),
        ),
{
    let enc = spec_encode(i) + rest;
    match i {
        Instruction::PushConst { value, signed, length } => {
            lemma_rt_push_const(value, signed, length, rest);
        },
        Instruction::Load { address } => {
            assert(enc[0] == TAG_LOAD);
            assert(enc.skip(1) =~= spec_varint(address as nat) + rest);
            lemma_read_usize_at(enc, 1, address, rest);
        },
        Instruction::Store { address } => {
            assert(enc[0] == TAG_STORE);
            assert(enc.skip(1) =~= spec_varint(address as nat) + rest);
            lemma_read_usize_at(enc, 1, address, rest);
        },
        Instruction::Slice { offset, array_len, slice_len } => {
            lemma_rt_slice(offset, array_len, slice_len, rest);
        },
        Instruction::Cast(c) => {
            lemma_rt_cast(c, rest);
        },
        Instruction::LoopBegin(l) => {
            assert(enc[0] == TAG_LOOP_BEGIN);
            assert(enc.skip(1) =~= spec_varint(l.iterations as nat) + rest);
            lemma_read_usize_at(enc, 1, l.iterations, rest);
        },
        Instruction::Call { address, inputs } => {
            lemma_rt_call(address, inputs, rest);
        },
        Instruction::Return { outputs } => {
            assert(enc[0] == TAG_RETURN);
            assert(enc.skip(1) =~= spec_varint(outputs as nat) + rest);
            lemma_read_usize_at(enc, 1, outputs, rest);
        },
        Instruction::Exit { outputs } => {
            assert(enc[0] == TAG_EXIT);
            assert(enc.skip(1) =~= spec_varint(outputs as nat) + rest);
            lemma_read_usize_at(enc, 1, outputs, rest);
        },
        Instruction::ArrayReverse { size } => {
            assert(enc[0] == TAG_ARRAY_REVERSE);
            assert(enc.skip(1) =~= spec_varint(size as nat) + rest);
            lemma_read_usize_at(enc, 1, size, rest);
        },
        Instruction::Sha256 { input_size } => {
            assert(enc[0] == TAG_SHA256);
            assert(enc.skip(1) =~= spec_varint(input_size as nat) + rest);
            lemma_read_usize_at(enc, 1, input_size, rest);
        },
        _ => {
            assert(spec_encode(i).len() == 1);
            assert(enc[0] == spec_encode(i)[0]);
        },
    }
}

/// Reads one numeric operand, as the spec-level reader does.
fn read_num(bytes: &[u8], pos: usize) -> (r: Result<(u128, usize), DecodingError>)
    requires
        pos <= bytes@.len(),
    ensures
        match spec_read_num(bytes@, pos as nat) {
            Ok((v, p)) => r is Ok && r->Ok_0.0 == v && r->Ok_0.1 == p && p <= bytes@.len(),
            Err(e) => r == Err::<(u128, usize), DecodingError>(e),
        },
{
    let n = bytes.len();
    match read_varint(bytes, pos) {
        Ok((v, k)) => {
            proof {
                assert(pos + k <= n);
            }
            Ok((v, pos + k))
        },
        Err(e) => Err(e),
    }
}

/// Reads one index-sized operand, as the spec-level reader does.
fn read_usize_op(bytes: &[u8], pos: usize) -> (r: Result<(usize, usize), DecodingError>)
    requires
        pos <= bytes@.len(),
    ensures
        match spec_read_usize(bytes@, pos as nat) {
            Ok((v, p)) => r is Ok && r->Ok_0.0 == v && r->Ok_0.1 == p && p <= bytes@.len(),
            Err(e) => r == Err::<(usize, usize), DecodingError>(e),
        },
{
    match read_num(bytes, pos) {
        Ok((v, p)) => {
            if v > usize::MAX as u128 {
                Err(DecodingError::ConstantTooLong)
            } else {
                Ok((v as usize, p))
            }
        },
        Err(e) => Err(e),
    }
}

/// Reads one flag byte, as the spec-level reader does.
fn read_flag(bytes: &[u8], pos: usize) -> (r: Result<(bool, usize), DecodingError>)
    requires
        pos <= bytes@.len(),
    ensures
        match spec_read_flag(bytes@, pos as nat) {
            Ok((v, p)) => r is Ok && r->Ok_0.0 == v && r->Ok_0.1 == p && p <= bytes@.len(),
            Err(e) => r == Err::<(bool, usize), DecodingError>(e),
        },
{
    if pos >= bytes.len() {
        Err(DecodingError::UnexpectedEnd)
    } else {
        let b = *slice_index_get(bytes, pos);
        if b == 0 {
            Ok((false, pos + 1))
        } else if b == 1 {
            Ok((true, pos + 1))
        } else {
            Err(DecodingError::MalformedOperand)
        }
    }
}

/// Reads one signed constant operand, as the spec-level reader does.
fn read_const(bytes: &[u8], pos: usize) -> (r: Result<(i128, usize), DecodingError>)
    requires
        pos <= bytes@.len(),
    ensures
        match spec_read_const(bytes@, pos as nat) {
            Ok((v, p)) => r is Ok && r->Ok_0.0 == v && r->Ok_0.1 == p && p <= bytes@.len(),
            Err(e) => r == Err::<(i128, usize), DecodingError>(e),
        },
{
    let (neg, p1) = match read_flag(bytes, pos) {
        Ok(x) => x,
        Err(e) => {
            return Err(e);
        },
    };
    let (mag, p2) = match read_num(bytes, p1) {
        Ok(x) => x,
        Err(e) => {
            return Err(e);
        },
    };
    if mag > i128::MAX as u128 {
        Err(DecodingError::ConstantTooLong)
    } else if neg {
        Ok((-(mag as i128), p2))
    } else {
        Ok((mag as i128, p2))
    }
}

impl Instruction {
    /// Encodes the instruction, appending its bytes to `out`.
    pub fn encode_to(&self, out: &mut Vec<u8>)
        requires
            self.wf(),
        ensures
            final(out)@ == old(out)@ + spec_encode(*self),
    {
        let tag = self.tag();
        out.push(tag);
        let ghost tagged = out@;
        match self {
            Instruction::PushConst { value, signed, length } => {
                out.push(if *value < 0 {
                    1u8
                } else {
                    0u8
                });
                proof {
                    crate::scalar::lemma_type_range_fits_carrier(
                        crate::scalar::ScalarType { signed: *signed, length: *length },
                        *value as int,
                    );
                    crate::scalar::lemma_pow2_126_value();
                }
                let mag: u128 = if *value < 0 {
                    (-*value) as u128
                } else {
                    *value as u128
                };
                push_varint(out, mag);
                out.push(if *signed {
                    1u8
                } else {
                    0u8
                });
                push_varint(out, *length as u128);
                proof {
                    assert(out@ =~= old(out)@ + spec_encode(*self));
                }
            },
            Instruction::Load { address } => {
                push_varint(out, *address as u128);
                proof {
                    assert(out@ =~= old(out)@ + spec_encode(*self));
                }
            },
            Instruction::Store { address } => {
                push_varint(out, *address as u128);
                proof {
                    assert(out@ =~= old(out)@ + spec_encode(*self));
                }
            },
            Instruction::Slice { offset, array_len, slice_len } => {
                push_varint(out, *offset as u128);
                push_varint(out, *array_len as u128);
                push_varint(out, *slice_len as u128);
                proof {
                    assert(out@ =~= old(out)@ + spec_encode(*self));
                }
            },
            Instruction::Cast(c) => {
                out.push(if c.signed {
                    1u8
                } else {
                    0u8
                });
                push_varint(out, c.length as u128);
                proof {
                    assert(out@ =~= old(out)@ + spec_encode(*self));
                }
            },
            Instruction::LoopBegin(l) => {
                push_varint(out, l.iterations as u128);
                proof {
                    assert(out@ =~= old(out)@ + spec_encode(*self));
                }
            },
            Instruction::Call { address, inputs } => {
                push_varint(out, *address as u128);
                push_varint(out, *inputs as u128);
                proof {
                    assert(out@ =~= old(out)@ + spec_encode(*self));
                }
            },
            Instruction::Return { outputs } => {
                push_varint(out, *outputs as u128);
                proof {
                    assert(out@ =~= old(out)@ + spec_encode(*self));
                }
            },
            Instruction::Exit { outputs } => {
                push_varint(out, *outputs as u128);
                proof {
                    assert(out@ =~= old(out)@ + spec_encode(*self));
                }
            },
            Instruction::ArrayReverse { size } => {
                push_varint(out, *size as u128);
                proof {
                    assert(out@ =~= old(out)@ + spec_encode(*self));
                }
            },
            Instruction::Sha256 { input_size } => {
                push_varint(out, *input_size as u128);
                proof {
                    assert(out@ =~= old(out)@ + spec_encode(*self));
                }
            },
            _ => {
                proof {
                    assert(out@ =~= old(out)@ + spec_encode(*self));
                }
            },
        }
    }

    /// The opcode tag that opens the encoding of this instruction.
    pub fn tag(&self) -> (t: u8)
        ensures
            spec_encode(*self).len() >= 1,
            t == spec_encode(*self)[0],
    {
        let t: u8 = match self {
            Instruction::NoOperation => TAG_NOOP,
            Instruction::Pop => TAG_POP,
            Instruction::PushConst { .. } => TAG_PUSH_CONST,
            Instruction::Copy => TAG_COPY,
            Instruction::Load { .. } => TAG_LOAD,
            Instruction::Store { .. } => TAG_STORE,
            Instruction::Slice { .. } => TAG_SLICE,
            Instruction::Add => TAG_ADD,
            Instruction::Sub => TAG_SUB,
            Instruction::Mul => TAG_MUL,
            Instruction::Div => TAG_DIV,
            Instruction::Rem => TAG_REM,
            Instruction::Neg => TAG_NEG,
            Instruction::And => TAG_AND,
            Instruction::Or => TAG_OR,
            Instruction::Xor => TAG_XOR,
            Instruction::Not => TAG_NOT,
            Instruction::Lt => TAG_LT,
            Instruction::Le => TAG_LE,
            Instruction::Gt => TAG_GT,
            Instruction::Ge => TAG_GE,
            Instruction::Eq => TAG_EQ,
            Instruction::Ne => TAG_NE,
            Instruction::Cast(..) => TAG_CAST,
            Instruction::If => TAG_IF,
            Instruction::Else => TAG_ELSE,
            Instruction::EndIf => TAG_END_IF,
            Instruction::LoopBegin(..) => TAG_LOOP_BEGIN,
            Instruction::LoopEnd => TAG_LOOP_END,
            Instruction::Call { .. } => TAG_CALL,
            Instruction::Return { .. } => TAG_RETURN,
            Instruction::Exit { .. } => TAG_EXIT,
            Instruction::ArrayReverse { .. } => TAG_ARRAY_REVERSE,
            Instruction::Sha256 { .. } => TAG_SHA256,
        };
        proof {
            assert(spec_encode(*self).len() >= 1 && t == spec_encode(*self)[0]);
        }
        t
    }

    /// Encodes the instruction into a fresh byte vector.
    pub fn encode(&self) -> (r: Vec<u8>)
        requires
            self.wf(),
        ensures
            r@ == spec_encode(*self),
    {
        let mut out: Vec<u8> = Vec::new();
        self.encode_to(&mut out);
        proof {
            assert(out@ =~= spec_encode(*self));
        }
        out
    }

    /// Decodes one instruction from the front of `bytes`, returning it
    /// with the number of bytes it occupied.
    #[verifier::rlimit(80)]
    pub fn decode(bytes: &[u8]) -> (r: Result<(Instruction, usize), DecodingError>)
        ensures
            match spec_decode(bytes@) {
                Ok((i, n)) => r is Ok && r->Ok_0.0 == i && r->Ok_0.1 == n && n <= bytes@.len(),
                Err(e) => r == Err::<(Instruction, usize), DecodingError>(e),
            },
{
        if bytes.len() == 0 {
            return Err(DecodingError::UnexpectedEnd);
        }
        let tag = *slice_index_get(bytes, 0);
        if tag == TAG_NOOP {
            Ok((Instruction::NoOperation, 1))
        } else if tag == TAG_POP {
            Ok((Instruction::Pop, 1))
        } else if tag == TAG_PUSH_CONST {
            let (value, p1) = match read_const(bytes, 1) {
                Ok(x) => x,
                Err(e) => {
                    return Err(e);
                },
            };
            let (signed, p2) = match read_flag(bytes, p1) {
                Ok(x) => x,
                Err(e) => {
                    return Err(e);
                },
            };
            let (length, p3) = match read_usize_op(bytes, p2) {
                Ok(x) => x,
                Err(e) => {
                    return Err(e);
                },
            };
            Ok((Instruction::PushConst { value, signed, length }, p3))
        } else if tag == TAG_COPY {
            Ok((Instruction::Copy, 1))
        } else if tag == TAG_LOAD {
            match read_usize_op(bytes, 1) {
                Ok((address, p)) => Ok((Instruction::Load { address }, p)),
                Err(e) => Err(e),
            }
        } else if tag == TAG_STORE {
            match read_usize_op(bytes, 1) {
                Ok((address, p)) => Ok((Instruction::Store { address }, p)),
                Err(e) => Err(e),
            }
        } else if tag == TAG_SLICE {
            let (offset, p1) = match read_usize_op(bytes, 1) {
                Ok(x) => x,
                Err(e) => {
                    return Err(e);
                },
            };
            let (array_len, p2) = match read_usize_op(bytes, p1) {
                Ok(x) => x,
                Err(e) => {
                    return Err(e);
                },
            };
            let (slice_len, p3) = match read_usize_op(bytes, p2) {
                Ok(x) => x,
                Err(e) => {
                    return Err(e);
                },
            };
            Ok((Instruction::Slice { offset, array_len, slice_len }, p3))
        } else if tag == TAG_ADD {
            Ok((Instruction::Add, 1))
        } else if tag == TAG_SUB {
            Ok((Instruction::Sub, 1))
        } else if tag == TAG_MUL {
            Ok((Instruction::Mul, 1))
        } else if tag == TAG_DIV {
            Ok((Instruction::Div, 1))
        } else if tag == TAG_REM {
            Ok((Instruction::Rem, 1))
        } else if tag == TAG_NEG {
            Ok((Instruction::Neg, 1))
        } else if tag == TAG_AND {
            Ok((Instruction::And, 1))
        } else if tag == TAG_OR {
            Ok((Instruction::Or, 1))
        } else if tag == TAG_XOR {
            Ok((Instruction::Xor, 1))
        } else if tag == TAG_NOT {
            Ok((Instruction::Not, 1))
        } else if tag == TAG_LT {
            Ok((Instruction::Lt, 1))
        } else if tag == TAG_LE {
            Ok((Instruction::Le, 1))
        } else if tag == TAG_GT {
            Ok((Instruction::Gt, 1))
        } else if tag == TAG_GE {
            Ok((Instruction::Ge, 1))
        } else if tag == TAG_EQ {
            Ok((Instruction::Eq, 1))
        } else if tag == TAG_NE {
            Ok((Instruction::Ne, 1))
        } else if tag == TAG_CAST {
            let (signed, p1) = match read_flag(bytes, 1) {
                Ok(x) => x,
                Err(e) => {
                    return Err(e);
                },
            };
            let (length, p2) = match read_usize_op(bytes, p1) {
                Ok(x) => x,
                Err(e) => {
                    return Err(e);
                },
            };
            Ok((Instruction::Cast(Cast { signed, length }), p2))
        } else if tag == TAG_IF {
            Ok((Instruction::If, 1))
        } else if tag == TAG_ELSE {
            Ok((Instruction::Else, 1))
        } else if tag == TAG_END_IF {
            Ok((Instruction::EndIf, 1))
        } else if tag == TAG_LOOP_BEGIN {
            match read_usize_op(bytes, 1) {
                Ok((iterations, p)) => Ok((Instruction::LoopBegin(LoopBegin { iterations }), p)),
                Err(e) => Err(e),
            }
        } else if tag == TAG_LOOP_END {
            Ok((Instruction::LoopEnd, 1))
        } else if tag == TAG_CALL {
            let (address, p1) = match read_usize_op(bytes, 1) {
                Ok(x) => x,
                Err(e) => {
                    return Err(e);
                },
            };
            let (inputs, p2) = match read_usize_op(bytes, p1) {
                Ok(x) => x,
                Err(e) => {
                    return Err(e);
                },
            };
            Ok((Instruction::Call { address, inputs }, p2))
        } else if tag == TAG_RETURN {
            match read_usize_op(bytes, 1) {
                Ok((outputs, p)) => Ok((Instruction::Return { outputs }, p)),
                Err(e) => Err(e),
            }
        } else if tag == TAG_EXIT {
            match read_usize_op(bytes, 1) {
                Ok((outputs, p)) => Ok((Instruction::Exit { outputs }, p)),
                Err(e) => Err(e),
            }
        } else if tag == TAG_ARRAY_REVERSE {
            match read_usize_op(bytes, 1) {
                Ok((size, p)) => Ok((Instruction::ArrayReverse { size }, p)),
                Err(e) => Err(e),
            }
        } else if tag == TAG_SHA256 {
            match read_usize_op(bytes, 1) {
                Ok((input_size, p)) => Ok((Instruction::Sha256 { input_size }, p)),
                Err(e) => Err(e),
            }
        } else {
            Err(DecodingError::UnknownInstruction)
        }
    }
}

impl Cast {
    /// Encodes this instruction into a fresh byte vector.
    pub fn encode(&self) -> (r: Vec<u8>)
        requires
            self.wf(),
        ensures
            r@ == spec_encode(Instruction::Cast(*self)),
    {
        self.wrap().encode()
    }

    /// Decodes a cast instruction from the front of `bytes`; any other
    /// opcode there is an unknown instruction for this reader.
    pub fn decode(bytes: &[u8]) -> (r: Result<(Cast, usize), DecodingError>)
        ensures
            match spec_decode(bytes@) {
                Ok((i, n)) => if i is Cast {
                    r == Ok::<(Cast, usize), DecodingError>((i->Cast_0, n as usize))
                } else {
                    r == Err::<(Cast, usize), DecodingError>(DecodingError::UnknownInstruction)
                },
                Err(e) => r == Err::<(Cast, usize), DecodingError>(e),
            },
    {
        match Instruction::decode(bytes) {
            Ok((Instruction::Cast(c), n)) => Ok((c, n)),
            Ok(_) => Err(DecodingError::UnknownInstruction),
            Err(e) => Err(e),
        }
    }
}

impl LoopBegin {
    /// Encodes this instruction into a fresh byte vector.
    pub fn encode(&self) -> (r: Vec<u8>)
        ensures
            r@ == spec_encode(Instruction::LoopBegin(*self)),
    {
        self.wrap().encode()
    }

    /// Decodes a loop-opening instruction from the front of `bytes`;
    /// any other opcode there is an unknown instruction for this reader.
    pub fn decode(bytes: &[u8]) -> (r: Result<(LoopBegin, usize), DecodingError>)
        ensures
            match spec_decode(bytes@) {
                Ok((i, n)) => if i is LoopBegin {
                    r == Ok::<(LoopBegin, usize), DecodingError>((i->LoopBegin_0, n as usize))
                } else {
                    r == Err::<(LoopBegin, usize), DecodingError>(
                        DecodingError::UnknownInstruction,
                    )
                },
                Err(e) => r == Err::<(LoopBegin, usize), DecodingError>(e),
            },
    {
        match Instruction::decode(bytes) {
            Ok((Instruction::LoopBegin(l), n)) => Ok((l, n)),
            Ok(_) => Err(DecodingError::UnknownInstruction),
            Err(e) => Err(e),
        }
    }
}

} // verus!
