//! Round trips and error cases of the instruction byte codec.

use zinc_vm::codec::DecodingError;
use zinc_vm::instruction::{Cast, Instruction, LoopBegin, OperationCode};
use zinc_vm::program::Program;

fn round_trip(i: Instruction) {
    let bytes = i.encode();
    let (decoded, used) = Instruction::decode(&bytes).expect("decoding succeeds");
    assert_eq!(decoded, i);
    assert_eq!(used, bytes.len());
}

#[test]
fn test_round_trip_every_variant() {
    round_trip(Instruction::NoOperation);
    round_trip(Instruction::Pop);
    round_trip(Instruction::PushConst { value: -1234567890123, signed: true, length: 64 });
    round_trip(Instruction::PushConst { value: 0, signed: false, length: 1 });
    round_trip(Instruction::Copy);
    round_trip(Instruction::Load { address: 300 });
    round_trip(Instruction::Store { address: 0 });
    round_trip(Instruction::Slice { offset: 2, array_len: 9, slice_len: 3 });
    round_trip(Instruction::Add);
    round_trip(Instruction::Sub);
    round_trip(Instruction::Mul);
    round_trip(Instruction::Div);
    round_trip(Instruction::Rem);
    round_trip(Instruction::Neg);
    round_trip(Instruction::And);
    round_trip(Instruction::Or);
    round_trip(Instruction::Xor);
    round_trip(Instruction::Not);
    round_trip(Instruction::Lt);
    round_trip(Instruction::Le);
    round_trip(Instruction::Gt);
    round_trip(Instruction::Ge);
    round_trip(Instruction::Eq);
    round_trip(Instruction::Ne);
    round_trip(Instruction::Cast(Cast::new(true, 16)));
    round_trip(Instruction::If);
    round_trip(Instruction::Else);
    round_trip(Instruction::EndIf);
    round_trip(Instruction::LoopBegin(LoopBegin::new(1000000)));
    round_trip(Instruction::LoopEnd);
    round_trip(Instruction::Call { address: 17, inputs: 2 });
    round_trip(Instruction::Return { outputs: 1 });
    round_trip(Instruction::Exit { outputs: 2 });
    round_trip(Instruction::ArrayReverse { size: 4 });
    round_trip(Instruction::Sha256 { input_size: 512 });
}

#[test]
fn test_decode_consumes_exactly_with_trailing_bytes() {
    let i = Instruction::LoopBegin(LoopBegin::new(300));
    let mut bytes = i.encode();
    let own = bytes.len();
    bytes.push(0xAA);
    bytes.push(0xBB);
    let (decoded, used) = Instruction::decode(&bytes).expect("decoding succeeds");
    assert_eq!(decoded, i);
    assert_eq!(used, own);
}

#[test]
fn test_decode_truncated_stream() {
    // A push-constant tag with nothing after it.
    let err = Instruction::decode(&[2u8]).unwrap_err();
    assert_eq!(err, DecodingError::UnexpectedEnd);
    let err = Instruction::decode(&[]).unwrap_err();
    assert_eq!(err, DecodingError::UnexpectedEnd);
}

#[test]
fn test_decode_unknown_opcode() {
    let err = Instruction::decode(&[200u8]).unwrap_err();
    assert_eq!(err, DecodingError::UnknownInstruction);
}

#[test]
fn test_decode_constant_too_long() {
    // A load whose address operand holds twenty continuation groups:
    // far beyond the addressable size.
    let mut bytes = vec![4u8];
    for _ in 0..20 {
        bytes.push(0x81);
    }
    bytes.push(0x01);
    let err = Instruction::decode(&bytes).unwrap_err();
    assert_eq!(err, DecodingError::ConstantTooLong);
}

#[test]
fn test_program_from_bytes() {
    let mut bytes = Vec::new();
    bytes.extend(Instruction::Add.encode());
    bytes.extend(Instruction::LoopBegin(LoopBegin::new(7)).encode());
    bytes.extend(Instruction::LoopEnd.encode());
    let prog = Program::from_bytes(&bytes).expect("loading succeeds");
    assert_eq!(prog.instructions.len(), 3);
    assert_eq!(prog.instructions[1], Instruction::LoopBegin(LoopBegin::new(7)));
}

#[test]
fn test_cast_struct_codec() {
    let c = Cast::new(true, 8);
    let bytes = c.encode();
    let (decoded, used) = Cast::decode(&bytes).expect("decoding succeeds");
    assert_eq!(decoded, c);
    assert_eq!(used, bytes.len());
    assert_eq!(c.inputs_count(), 1);
    assert_eq!(c.outputs_count(), 1);
    assert_eq!(c.wrap(), Instruction::Cast(c));
}

#[test]
fn test_loop_begin_struct_codec() {
    let l = LoopBegin::new(42);
    let bytes = l.encode();
    let (decoded, used) = LoopBegin::decode(&bytes).expect("decoding succeeds");
    assert_eq!(decoded, l);
    assert_eq!(used, bytes.len());
    assert_eq!(l.inputs_count(), 0);
    assert_eq!(l.outputs_count(), 0);
}

#[test]
fn test_assembly_text() {
    assert_eq!(Instruction::Cast(Cast::new(true, 8)).to_assembly(), "cast true 8");
    assert_eq!(Instruction::LoopBegin(LoopBegin::new(5)).to_assembly(), "loop_begin 5");
    assert_eq!(
        Instruction::PushConst { value: -42, signed: true, length: 8 }.to_assembly(),
        "push_const -42 true 8"
    );
    assert_eq!(Instruction::Add.to_assembly(), "add");
}

#[test]
fn test_operation_code_try_from() {
    assert_eq!(OperationCode::try_from(0), Ok(OperationCode::NoOperation));
    assert_eq!(OperationCode::try_from(3), Ok(OperationCode::Add));
    assert_eq!(OperationCode::try_from(8), Ok(OperationCode::Negate));
    assert_eq!(OperationCode::try_from(9), Err(9));
}
