//! Runs of the virtual machine over both backends.

use zinc_vm::engine::VirtualMachine;
use zinc_vm::instruction::{Cast, Instruction, LoopBegin};
use zinc_vm::ops::{Cell, Operations, RuntimeError, SetupOps, Value, WitnessOps};
use zinc_vm::program::Program;
use zinc_vm::scalar::ScalarType;

fn boolean(v: i128) -> Instruction {
    Instruction::PushConst { value: v, signed: false, length: 1 }
}

fn int8(v: i128) -> Instruction {
    Instruction::PushConst { value: v, signed: true, length: 8 }
}

fn program(instructions: Vec<Instruction>) -> Program {
    Program { instructions, functions: Vec::new() }
}

fn run_witness(instructions: Vec<Instruction>) -> Result<Vec<Cell>, RuntimeError> {
    let prog = program(instructions);
    let mut vm = VirtualMachine::new(WitnessOps::new());
    vm.run_program(&prog, 0, Vec::new(), 16)
}

fn scalar(cell: &Cell) -> i128 {
    match cell {
        Cell::Value(v) => v.value.expect("witness cell carries a scalar"),
        Cell::Undefined => panic!("undefined cell"),
    }
}

#[test]
fn test_and() {
    let out = run_witness(vec![
        boolean(0),
        boolean(0),
        Instruction::And,
        boolean(0),
        boolean(1),
        Instruction::And,
        boolean(1),
        boolean(0),
        Instruction::And,
        boolean(1),
        boolean(1),
        Instruction::And,
        Instruction::Return { outputs: 4 },
    ])
    .expect("run succeeds");
    // Top of stack first: [1, 0, 0, 0].
    assert_eq!(scalar(&out[3]), 1);
    assert_eq!(scalar(&out[2]), 0);
    assert_eq!(scalar(&out[1]), 0);
    assert_eq!(scalar(&out[0]), 0);
}

#[test]
fn test_div() {
    let out = run_witness(vec![
        int8(9),
        int8(4),
        Instruction::Div,
        int8(9),
        int8(-4),
        Instruction::Div,
        int8(-9),
        int8(4),
        Instruction::Div,
        int8(-9),
        int8(-4),
        Instruction::Div,
        Instruction::Return { outputs: 4 },
    ])
    .expect("run succeeds");
    // Top of stack first: [3, -3, -2, 2].
    assert_eq!(scalar(&out[3]), 3);
    assert_eq!(scalar(&out[2]), -3);
    assert_eq!(scalar(&out[1]), -2);
    assert_eq!(scalar(&out[0]), 2);
}

#[test]
fn test_rem_euclidean_triples() {
    // a == q * b + r with 0 <= r < |b|.
    let cases: [(i128, i128, i128, i128); 4] =
        [(9, 4, 2, 1), (9, -4, -2, 1), (-9, 4, -3, 3), (-9, -4, 3, 3)];
    for (a, b, q, r) in cases {
        let out = run_witness(vec![
            int8(a),
            int8(b),
            Instruction::Div,
            int8(a),
            int8(b),
            Instruction::Rem,
            Instruction::Return { outputs: 2 },
        ])
        .expect("run succeeds");
        assert_eq!(scalar(&out[0]), q);
        assert_eq!(scalar(&out[1]), r);
        assert_eq!(a, q * b + r);
        assert!(0 <= r && r < b.abs());
    }
}

#[test]
fn test_division_by_zero_faults() {
    let err = run_witness(vec![
        int8(9),
        int8(0),
        Instruction::Div,
        Instruction::Return { outputs: 1 },
    ])
    .unwrap_err();
    assert_eq!(err, RuntimeError::DivisionByZero);
}

#[test]
fn test_end_to_end_arithmetic() {
    // (3 + 4) * 2 == 14.
    let instructions = vec![
        int8(3),
        int8(4),
        Instruction::Add,
        int8(2),
        Instruction::Mul,
        Instruction::Return { outputs: 1 },
    ];
    let out = run_witness(instructions.clone()).expect("witness run succeeds");
    assert_eq!(out.len(), 1);
    assert_eq!(scalar(&out[0]), 14);

    // The setup pass accepts the same program and emits the same
    // constraint shapes, carrying no scalars.
    let prog = program(instructions);
    let mut witness_vm = VirtualMachine::new(WitnessOps::new());
    witness_vm.run_program(&prog, 0, Vec::new(), 16).expect("witness run succeeds");
    let mut setup_vm = VirtualMachine::new(SetupOps::new());
    let setup_out = setup_vm.run_program(&prog, 0, Vec::new(), 16).expect("setup run succeeds");
    assert_eq!(witness_vm.ops.trace, setup_vm.ops.trace);
    match &setup_out[0] {
        Cell::Value(v) => assert!(v.value.is_none()),
        Cell::Undefined => panic!("defined result expected"),
    }
}

fn conditional_program(cond: i128) -> Vec<Instruction> {
    // `x` is declared in the enclosing scope, then written by both
    // branches; the merge selects the branch value.
    vec![
        int8(0),
        Instruction::Store { address: 0 },
        boolean(cond),
        Instruction::If,
        int8(1),
        Instruction::Store { address: 0 },
        Instruction::Else,
        int8(2),
        Instruction::Store { address: 0 },
        Instruction::EndIf,
        Instruction::Load { address: 0 },
        Instruction::Return { outputs: 1 },
    ]
}

#[test]
fn test_conditional_assignment() {
    let out_true = run_witness(conditional_program(1)).expect("run succeeds");
    assert_eq!(scalar(&out_true[0]), 1);
    let out_false = run_witness(conditional_program(0)).expect("run succeeds");
    assert_eq!(scalar(&out_false[0]), 2);
}

#[test]
fn test_branch_shape_independence() {
    // The emitted constraint shapes are identical whichever branch the
    // witness takes; only the selected value differs.
    let mut vm_true = VirtualMachine::new(WitnessOps::new());
    vm_true
        .run_program(&program(conditional_program(1)), 0, Vec::new(), 16)
        .expect("run succeeds");
    let mut vm_false = VirtualMachine::new(WitnessOps::new());
    vm_false
        .run_program(&program(conditional_program(0)), 0, Vec::new(), 16)
        .expect("run succeeds");
    assert!(!vm_true.ops.trace.is_empty());
    assert_eq!(vm_true.ops.trace, vm_false.ops.trace);
}

#[test]
fn test_loop_unrolls_declared_iterations() {
    let out = run_witness(vec![
        int8(0),
        Instruction::LoopBegin(LoopBegin::new(3)),
        int8(1),
        Instruction::Add,
        Instruction::LoopEnd,
        Instruction::Return { outputs: 1 },
    ])
    .expect("run succeeds");
    assert_eq!(scalar(&out[0]), 3);
}

#[test]
fn test_loop_zero_iterations_changes_nothing() {
    let out = run_witness(vec![
        int8(7),
        Instruction::LoopBegin(LoopBegin::new(0)),
        int8(1),
        Instruction::Add,
        Instruction::LoopEnd,
        Instruction::Return { outputs: 1 },
    ])
    .expect("run succeeds");
    assert_eq!(scalar(&out[0]), 7);
}

#[test]
fn test_cast_range_check() {
    // 200 fits an unsigned byte and survives the cast unchanged.
    let out = run_witness(vec![
        Instruction::PushConst { value: 200, signed: false, length: 16 },
        Instruction::Cast(Cast::new(false, 8)),
        Instruction::Return { outputs: 1 },
    ])
    .expect("run succeeds");
    assert_eq!(scalar(&out[0]), 200);

    // 300 does not fit an unsigned byte: the cast faults.
    let err = run_witness(vec![
        Instruction::PushConst { value: 300, signed: false, length: 16 },
        Instruction::Cast(Cast::new(false, 8)),
        Instruction::Return { outputs: 1 },
    ])
    .unwrap_err();
    assert_eq!(err, RuntimeError::CastOverflow);
}

#[test]
fn test_stack_underflow_faults() {
    let err = run_witness(vec![Instruction::Add, Instruction::Return { outputs: 1 }])
        .unwrap_err();
    assert_eq!(err, RuntimeError::StackUnderflow);
}

#[test]
fn test_call_and_return() {
    // Entry at 0: push 5, call doubler at 4 with one argument, return.
    // Doubler at 4: load the argument, copy it, add, return one cell.
    let out = run_witness(vec![
        int8(5),
        Instruction::Call { address: 4, inputs: 1 },
        Instruction::Return { outputs: 1 },
        Instruction::NoOperation,
        Instruction::Load { address: 0 },
        Instruction::Copy,
        Instruction::Add,
        Instruction::Return { outputs: 1 },
    ])
    .expect("run succeeds");
    assert_eq!(scalar(&out[0]), 10);
}

#[test]
fn test_array_reverse_instruction() {
    let out = run_witness(vec![
        int8(1),
        int8(2),
        int8(3),
        Instruction::ArrayReverse { size: 3 },
        Instruction::Return { outputs: 3 },
    ])
    .expect("run succeeds");
    assert_eq!(scalar(&out[0]), 3);
    assert_eq!(scalar(&out[1]), 2);
    assert_eq!(scalar(&out[2]), 1);
}

#[test]
fn test_conditional_select_balance() {
    // A conditional whose branches each push one cell: the merged cell
    // is selected by the condition.
    let out = run_witness(vec![
        boolean(1),
        Instruction::If,
        int8(10),
        Instruction::Else,
        int8(20),
        Instruction::EndIf,
        Instruction::Return { outputs: 1 },
    ])
    .expect("run succeeds");
    assert_eq!(scalar(&out[0]), 10);
}

#[test]
fn test_invalid_constant_faults() {
    let err = run_witness(vec![
        Instruction::PushConst { value: 2, signed: false, length: 1 },
        Instruction::Return { outputs: 1 },
    ])
    .unwrap_err();
    assert_eq!(err, RuntimeError::InvalidConstant);
}

#[test]
fn test_scalar_type_bounds() {
    let byte = ScalarType { signed: false, length: 8 };
    let val = Value { value: Some(255), ty: byte };
    assert_eq!(val.ty.length, 8);
}
