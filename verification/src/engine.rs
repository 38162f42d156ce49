//! The execution engine: interprets a program against an operations
//! layer, keeping an explicit stack, one frame of local cells per
//! function activation, and merging conditional branches by selection
//! instead of jumps.
//!
//! Control flow is structural.  Both arms of every conditional region
//! run; the cells they touch are merged under the popped condition, so
//! the emitted constraints do not depend on which arm a concrete
//! witness takes.  Loops are unrolled: the bracketed range runs once
//! per declared iteration, and cells a body iteration allocates are
//! dropped when the iteration ends.  The active branch conditions form
//! a context that nests with the conditional regions themselves;
//! nested conditions compose by selecting the inner merge under the
//! outer condition.

use vstd::prelude::*;

use crate::instruction::Instruction;
use crate::program::Program;
use crate::ops::{
    boolean_operand_ok, spec_arith, spec_cast, spec_cmp, spec_constant, spec_div_rem, spec_logic,
    spec_neg, spec_not, spec_select, ArithOp, Cell, CmpOp, Gate, LogicOp, Operations,
    RuntimeError, Value,
};

verus! {

/// The spec-level engine state: the current frame's cells, which of
/// them the enclosing block has written, the data stack, and the
/// shapes of every constraint emitted so far.
pub struct EngineState {
    pub mem: Seq<Cell>,
    pub writes: Seq<bool>,
    pub stack: Seq<Cell>,
    pub shapes: Seq<Gate>,
}

impl EngineState {
    pub open spec fn wf(self) -> bool {
        self.writes.len() == self.mem.len() && (forall|i: int|
            0 <= i < self.mem.len() ==> self.mem[i].wf()) && (forall|i: int|
            0 <= i < self.stack.len() ==> self.stack[i].wf())
    }
}

/// Pointwise disjunction of write flags of equal length.
pub open spec fn or_flags(a: Seq<bool>, b: Seq<bool>) -> Seq<bool> {
    Seq::new(a.len(), |i: int| a[i] || (i < b.len() && b[i]))
}

/// A sequence of `n` cleared write flags.
pub open spec fn no_writes(n: nat) -> Seq<bool> {
    Seq::new(n, |i: int| false)
}

/// The position of the `EndIf` matching an `If` just before `pos`,
/// scanning no further than `end`.
pub open spec fn find_branch_end(prog: Seq<Instruction>, pos: int, end: int, nest: nat) -> Option<
    int,
>
    decreases end - pos,
{
    if pos < 0 || pos >= end || end > prog.len() {
        None
    } else {
        match prog[pos] {
            Instruction::If => find_branch_end(prog, pos + 1, end, nest + 1),
            Instruction::EndIf => if nest == 0 {
                Some(pos)
            } else {
                find_branch_end(prog, pos + 1, end, (nest - 1) as nat)
            },
            _ => find_branch_end(prog, pos + 1, end, nest),
        }
    }
}

/// The position of the `Else` splitting the conditional region that
/// starts just before `pos`, scanning no further than its `EndIf`.
pub open spec fn find_else(prog: Seq<Instruction>, pos: int, end: int, nest: nat) -> Option<int>
    decreases end - pos,
{
    if pos < 0 || pos >= end || end > prog.len() {
        None
    } else {
        match prog[pos] {
            Instruction::If => find_else(prog, pos + 1, end, nest + 1),
            Instruction::EndIf => if nest == 0 {
                None
            } else {
                find_else(prog, pos + 1, end, (nest - 1) as nat)
            },
            Instruction::Else => if nest == 0 {
                Some(pos)
            } else {
                find_else(prog, pos + 1, end, nest)
            },
            _ => find_else(prog, pos + 1, end, nest),
        }
    }
}

/// The position of the `LoopEnd` matching a `LoopBegin` just before
/// `pos`.
pub open spec fn find_loop_end(prog: Seq<Instruction>, pos: int, end: int, nest: nat) -> Option<
    int,
>
    decreases end - pos,
{
    if pos < 0 || pos >= end || end > prog.len() {
        None
    } else {
        match prog[pos] {
            Instruction::LoopBegin(..) => find_loop_end(prog, pos + 1, end, nest + 1),
            Instruction::LoopEnd => if nest == 0 {
                Some(pos)
            } else {
                find_loop_end(prog, pos + 1, end, (nest - 1) as nat)
            },
            _ => find_loop_end(prog, pos + 1, end, nest),
        }
    }
}

/// The first `Return` or `Exit` from `pos` on: its position, whether
/// it is an `Exit`, and its output count.
pub open spec fn find_return(prog: Seq<Instruction>, pos: int) -> Option<(int, bool, usize)>
    decreases prog.len() - pos,
{
    if pos < 0 || pos >= prog.len() {
        None
    } else {
        match prog[pos] {
            Instruction::Return { outputs } => Some((pos, false, outputs)),
            Instruction::Exit { outputs } => Some((pos, true, outputs)),
            _ => find_return(prog, pos + 1),
        }
    }
}

/// Matching positions lie inside the scanned range.
pub proof fn lemma_find_branch_end_range(prog: Seq<Instruction>, pos: int, end: int, nest: nat)
    requires
        find_branch_end(prog, pos, end, nest) is Some,
    ensures
        pos <= find_branch_end(prog, pos, end, nest)->Some_0 < end,
        end <= prog.len(),
    decreases end - pos,
{
    if !(pos < 0 || pos >= end || end > prog.len()) {
        match prog[pos] {
            Instruction::If => lemma_find_branch_end_range(prog, pos + 1, end, nest + 1),
            Instruction::EndIf => if nest != 0 {
                lemma_find_branch_end_range(prog, pos + 1, end, (nest - 1) as nat)
            },
            _ => lemma_find_branch_end_range(prog, pos + 1, end, nest),
        }
    }
}

pub proof fn lemma_find_else_range(prog: Seq<Instruction>, pos: int, end: int, nest: nat)
    requires
        find_else(prog, pos, end, nest) is Some,
    ensures
        pos <= find_else(prog, pos, end, nest)->Some_0 < end,
    decreases end - pos,
{
    if !(pos < 0 || pos >= end || end > prog.len()) {
        match prog[pos] {
            Instruction::If => lemma_find_else_range(prog, pos + 1, end, nest + 1),
            Instruction::EndIf => if nest != 0 {
                lemma_find_else_range(prog, pos + 1, end, (nest - 1) as nat)
            },
            Instruction::Else => if nest != 0 {
                lemma_find_else_range(prog, pos + 1, end, nest)
            },
            _ => lemma_find_else_range(prog, pos + 1, end, nest),
        }
    }
}

pub proof fn lemma_find_loop_end_range(prog: Seq<Instruction>, pos: int, end: int, nest: nat)
    requires
        find_loop_end(prog, pos, end, nest) is Some,
    ensures
        pos <= find_loop_end(prog, pos, end, nest)->Some_0 < end,
        end <= prog.len(),
    decreases end - pos,
{
    if !(pos < 0 || pos >= end || end > prog.len()) {
        match prog[pos] {
            Instruction::LoopBegin(..) => lemma_find_loop_end_range(prog, pos + 1, end, nest + 1),
            Instruction::LoopEnd => if nest != 0 {
                lemma_find_loop_end_range(prog, pos + 1, end, (nest - 1) as nat)
            },
            _ => lemma_find_loop_end_range(prog, pos + 1, end, nest),
        }
    }
}

pub proof fn lemma_find_return_range(prog: Seq<Instruction>, pos: int)
    requires
        find_return(prog, pos) is Some,
    ensures
        pos <= find_return(prog, pos)->Some_0.0 < prog.len(),
    decreases prog.len() - pos,
{
    if !(pos < 0 || pos >= prog.len()) {
        match prog[pos] {
            Instruction::Return { .. } => {},
            Instruction::Exit { .. } => {},
            _ => lemma_find_return_range(prog, pos + 1),
        }
    }
}

/// What one simple (non-control) instruction does to the state.
/// Control instructions are handled by the block interpreter; here
/// they are malformed.
pub open spec fn spec_step(computes: bool, i: Instruction, floor: nat, st: EngineState) -> Result<
    EngineState,
    RuntimeError,
> {
    let stack = st.stack;
    let len = stack.len();
    match i {
        Instruction::NoOperation => Ok(st),
        Instruction::Pop => {
            if len <= floor {
                Err(RuntimeError::StackUnderflow)
            } else {
                Ok(EngineState { stack: stack.drop_last(), ..st })
            }
        },
        Instruction::PushConst { value, signed, length } => {
            let ty = crate::scalar::ScalarType { signed, length };
            match spec_constant(computes, value, ty) {
                Err(e) => Err(e),
                Ok(v) => Ok(EngineState { stack: stack.push(Cell::Value(v)), ..st }),
            }
        },
        Instruction::Copy => {
            if len <= floor {
                Err(RuntimeError::StackUnderflow)
            } else {
                Ok(EngineState { stack: stack.push(stack.last()), ..st })
            }
        },
        Instruction::Load { address } => {
            if address >= st.mem.len() {
                Err(RuntimeError::UninitializedAccess)
            } else if st.mem[address as int] is Undefined {
                Err(RuntimeError::UninitializedAccess)
            } else {
                Ok(EngineState { stack: stack.push(st.mem[address as int]), ..st })
            }
        },
        Instruction::Store { address } => {
            if len <= floor {
                Err(RuntimeError::StackUnderflow)
            } else if address > st.mem.len() {
                Err(RuntimeError::MalformedBytecode)
            } else {
                let c = stack.last();
                let mem = if address == st.mem.len() {
                    st.mem.push(c)
                } else {
                    st.mem.update(address as int, c)
                };
                let writes = if address == st.writes.len() {
                    st.writes.push(true)
                } else {
                    st.writes.update(address as int, true)
                };
                Ok(EngineState { mem, writes, stack: stack.drop_last(), ..st })
            }
        },
        Instruction::Slice { offset, array_len, slice_len } => {
            if offset + slice_len > array_len {
                Err(RuntimeError::MalformedBytecode)
            } else if len - floor < array_len {
                Err(RuntimeError::StackUnderflow)
            } else {
                let block = stack.skip(len - array_len);
                let taken = block.subrange(offset as int, offset + slice_len);
                Ok(EngineState { stack: stack.take(len - array_len) + taken, ..st })
            }
        },
        Instruction::ArrayReverse { size } => {
            if len - floor < size {
                Err(RuntimeError::StackUnderflow)
            } else {
                let block = stack.skip(len - size);
                Ok(EngineState { stack: stack.take(len - size) + block.reverse(), ..st })
            }
        },
        Instruction::Add | Instruction::Sub | Instruction::Mul => {
            let op = if i == Instruction::Add {
                ArithOp::Add
            } else if i == Instruction::Sub {
                ArithOp::Sub
            } else {
                ArithOp::Mul
            };
            if len - floor < 2 {
                Err(RuntimeError::StackUnderflow)
            } else {
                match (stack[len - 2], stack[len - 1]) {
                    (Cell::Value(a), Cell::Value(b)) => match spec_arith(computes, op, a, b) {
                        Err(e) => Err(e),
                        Ok(v) => Ok(
                            EngineState {
                                stack: stack.take(len - 2).push(Cell::Value(v)),
                                shapes: st.shapes.push(Gate::Arith(op, a.ty)),
                                ..st
                            },
                        ),
                    },
                    _ => Err(RuntimeError::UninitializedAccess),
                }
            }
        },
        Instruction::Div | Instruction::Rem => {
            if len - floor < 2 {
                Err(RuntimeError::StackUnderflow)
            } else {
                match (stack[len - 2], stack[len - 1]) {
                    (Cell::Value(a), Cell::Value(b)) => match spec_div_rem(computes, a, b) {
                        Err(e) => Err(e),
                        Ok((q, r)) => {
                            let out = if i == Instruction::Div {
                                q
                            } else {
                                r
                            };
                            Ok(
                                EngineState {
                                    stack: stack.take(len - 2).push(Cell::Value(out)),
                                    shapes: st.shapes.push(Gate::Arith(ArithOp::DivRem, a.ty)),
                                    ..st
                                },
                            )
                        },
                    },
                    _ => Err(RuntimeError::UninitializedAccess),
                }
            }
        },
        Instruction::Neg => {
            if len <= floor {
                Err(RuntimeError::StackUnderflow)
            } else {
                match stack.last() {
                    Cell::Value(a) => match spec_neg(computes, a) {
                        Err(e) => Err(e),
                        Ok(v) => Ok(
                            EngineState {
                                stack: stack.drop_last().push(Cell::Value(v)),
                                shapes: st.shapes.push(Gate::Arith(ArithOp::Neg, a.ty)),
                                ..st
                            },
                        ),
                    },
                    _ => Err(RuntimeError::UninitializedAccess),
                }
            }
        },
        Instruction::And | Instruction::Or | Instruction::Xor => {
            let op = if i == Instruction::And {
                LogicOp::And
            } else if i == Instruction::Or {
                LogicOp::Or
            } else {
                LogicOp::Xor
            };
            if len - floor < 2 {
                Err(RuntimeError::StackUnderflow)
            } else {
                match (stack[len - 2], stack[len - 1]) {
                    (Cell::Value(a), Cell::Value(b)) => match spec_logic(computes, op, a, b) {
                        Err(e) => Err(e),
                        Ok(v) => Ok(
                            EngineState {
                                stack: stack.take(len - 2).push(Cell::Value(v)),
                                shapes: st.shapes.push(Gate::Logic(op)),
                                ..st
                            },
                        ),
                    },
                    _ => Err(RuntimeError::UninitializedAccess),
                }
            }
        },
        Instruction::Not => {
            if len <= floor {
                Err(RuntimeError::StackUnderflow)
            } else {
                match stack.last() {
                    Cell::Value(a) => match spec_not(computes, a) {
                        Err(e) => Err(e),
                        Ok(v) => Ok(
                            EngineState {
                                stack: stack.drop_last().push(Cell::Value(v)),
                                shapes: st.shapes.push(Gate::Logic(LogicOp::Not)),
                                ..st
                            },
                        ),
                    },
                    _ => Err(RuntimeError::UninitializedAccess),
                }
            }
        },
        Instruction::Lt | Instruction::Le | Instruction::Gt | Instruction::Ge | Instruction::Eq
            | Instruction::Ne => {
            let op = if i == Instruction::Lt {
                CmpOp::Lt
            } else if i == Instruction::Le {
                CmpOp::Le
            } else if i == Instruction::Gt {
                CmpOp::Gt
            } else if i == Instruction::Ge {
                CmpOp::Ge
            } else if i == Instruction::Eq {
                CmpOp::Eq
            } else {
                CmpOp::Ne
            };
            if len - floor < 2 {
                Err(RuntimeError::StackUnderflow)
            } else {
                match (stack[len - 2], stack[len - 1]) {
                    (Cell::Value(a), Cell::Value(b)) => match spec_cmp(computes, op, a, b) {
                        Err(e) => Err(e),
                        Ok(v) => Ok(
                            EngineState {
                                stack: stack.take(len - 2).push(Cell::Value(v)),
                                shapes: st.shapes.push(Gate::Cmp(op, a.ty)),
                                ..st
                            },
                        ),
                    },
                    _ => Err(RuntimeError::UninitializedAccess),
                }
            }
        },
        Instruction::Cast(c) => {
            if len <= floor {
                Err(RuntimeError::StackUnderflow)
            } else {
                match stack.last() {
                    Cell::Value(a) => match spec_cast(computes, a, c.spec_target()) {
                        Err(e) => Err(e),
                        Ok(v) => Ok(
                            EngineState {
                                stack: stack.drop_last().push(Cell::Value(v)),
                                shapes: st.shapes.push(Gate::Cast(a.ty, c.spec_target())),
                                ..st
                            },
                        ),
                    },
                    _ => Err(RuntimeError::UninitializedAccess),
                }
            }
        },
        _ => Err(RuntimeError::MalformedBytecode),
    }
}

/// Merges one pair of branch results under the condition.
pub open spec fn spec_select_cell(computes: bool, cond: Value, c1: Cell, c2: Cell) -> Result<
    (Cell, Gate),
    RuntimeError,
> {
    match (c1, c2) {
        (Cell::Value(a), Cell::Value(b)) => match spec_select(computes, cond, a, b) {
            Err(e) => Err(e),
            Ok(v) => Ok((Cell::Value(v), Gate::Select(a.ty))),
        },
        _ => Err(RuntimeError::UninitializedAccess),
    }
}

/// Merges the frame cells the two branches wrote, from index `k` up,
/// in ascending address order.  Cells neither branch wrote pass the
/// enclosing value through unchanged.
pub open spec fn spec_merge_mem(
    computes: bool,
    cond: Value,
    base: Seq<Cell>,
    m1: Seq<Cell>,
    m2: Seq<Cell>,
    w: Seq<bool>,
    k: nat,
) -> Result<(Seq<Cell>, Seq<Gate>), RuntimeError>
    decreases base.len() - k,
{
    if k >= base.len() {
        Ok((Seq::empty(), Seq::empty()))
    } else {
        let head = if k < w.len() && w[k as int] {
            spec_select_cell(computes, cond, m1[k as int], m2[k as int])
        } else {
            Ok((base[k as int], Gate::Select(crate::ops::bool_ty())))
        };
        let emitted = k < w.len() && w[k as int];
        match head {
            Err(e) => Err(e),
            Ok((c, g)) => match spec_merge_mem(computes, cond, base, m1, m2, w, k + 1) {
                Err(e) => Err(e),
                Ok((cells, gates)) => Ok(
                    (
                        seq![c] + cells,
                        if emitted {
                            seq![g] + gates
                        } else {
                            gates
                        },
                    ),
                ),
            },
        }
    }
}

/// Merges the cells the two branches pushed above the conditional
/// region's stack floor, bottom to top.
pub open spec fn spec_merge_ext(computes: bool, cond: Value, e1: Seq<Cell>, e2: Seq<Cell>) -> Result<
    (Seq<Cell>, Seq<Gate>),
    RuntimeError,
>
    decreases e1.len(),
{
    if e1.len() == 0 {
        Ok((Seq::empty(), Seq::empty()))
    } else {
        match spec_select_cell(computes, cond, e1[0], e2[0]) {
            Err(e) => Err(e),
            Ok((c, g)) => match spec_merge_ext(computes, cond, e1.skip(1), e2.skip(1)) {
                Err(e) => Err(e),
                Ok((cells, gates)) => Ok((seq![c] + cells, seq![g] + gates)),
            },
        }
    }
}

/// Runs the instructions of one straight-line block: simple steps,
/// conditional regions (both arms, then a merge), unrolled loops and
/// calls.  `Return`, `Exit` and stray brackets are malformed here.
pub open spec fn spec_run_block(
    prog: Seq<Instruction>,
    start: int,
    end: int,
    computes: bool,
    floor: nat,
    depth: nat,
    st: EngineState,
) -> Result<EngineState, RuntimeError>
    decreases depth, end - start, 1int,
{
    if start >= end {
        Ok(st)
    } else if start < 0 || end > prog.len() {
        Err(RuntimeError::MalformedBytecode)
    } else {
        match prog[start] {
            Instruction::If => {
                if st.stack.len() <= floor {
                    Err(RuntimeError::StackUnderflow)
                } else {
                    match st.stack.last() {
                        Cell::Value(cond) => {
                            if !boolean_operand_ok(computes, cond) {
                                Err(RuntimeError::ExpectedBoolean)
                            } else {
                                let stack0 = st.stack.drop_last();
                                match find_branch_end(prog, start + 1, end, 0) {
                                    None => Err(RuntimeError::MalformedBytecode),
                                    Some(endp) => {
                                        if !(start < endp < end) {
                                            Err(RuntimeError::MalformedBytecode)
                                        } else {
                                            spec_run_if(
                                                prog,
                                                start,
                                                end,
                                                computes,
                                                floor,
                                                depth,
                                                st,
                                                cond,
                                                stack0,
                                                endp,
                                            )
                                        }
                                    },
                                }
                            }
                        },
                        _ => Err(RuntimeError::UninitializedAccess),
                    }
                }
            },
            Instruction::LoopBegin(l) => {
                match find_loop_end(prog, start + 1, end, 0) {
                    None => Err(RuntimeError::MalformedBytecode),
                    Some(endp) => {
                        if !(start < endp < end) {
                            Err(RuntimeError::MalformedBytecode)
                        } else {
                            match spec_run_loop(
                                prog,
                                start + 1,
                                endp,
                                computes,
                                floor,
                                depth,
                                l.iterations as nat,
                                st,
                            ) {
                                Err(e) => Err(e),
                                Ok(st1) => spec_run_block(
                                    prog,
                                    endp + 1,
                                    end,
                                    computes,
                                    floor,
                                    depth,
                                    st1,
                                ),
                            }
                        }
                    },
                }
            },
            Instruction::Call { address, inputs } => {
                if depth == 0 {
                    Err(RuntimeError::RecursionLimit)
                } else if address >= prog.len() {
                    Err(RuntimeError::UnresolvedCallTarget)
                } else if st.stack.len() - floor < inputs {
                    Err(RuntimeError::StackUnderflow)
                } else {
                    let args = st.stack.skip(st.stack.len() - inputs);
                    let stack1 = st.stack.take(st.stack.len() - inputs);
                    match spec_run_function(
                        prog,
                        address as int,
                        computes,
                        (depth - 1) as nat,
                        args,
                        stack1,
                        st.shapes,
                        false,
                    ) {
                        Err(e) => Err(e),
                        Ok((stack2, shapes2, k)) => spec_run_block(
                            prog,
                            start + 1,
                            end,
                            computes,
                            floor,
                            depth,
                            EngineState { mem: st.mem, writes: st.writes, stack: stack2, shapes: shapes2 },
                        ),
                    }
                }
            },
            Instruction::Else => Err(RuntimeError::MalformedBytecode),
            Instruction::EndIf => Err(RuntimeError::MalformedBytecode),
            Instruction::LoopEnd => Err(RuntimeError::MalformedBytecode),
            Instruction::Return { .. } => Err(RuntimeError::MalformedBytecode),
            Instruction::Exit { .. } => Err(RuntimeError::MalformedBytecode),
            Instruction::Sha256 { .. } => Err(RuntimeError::UnsupportedBuiltin),
            _ => match spec_step(computes, prog[start], floor, st) {
                Err(e) => Err(e),
                Ok(st1) => spec_run_block(prog, start + 1, end, computes, floor, depth, st1),
            },
        }
    }
}

/// Runs one conditional region whose condition is already popped:
/// both arms on the same incoming cells, then one merge per touched
/// frame cell and per pushed stack cell.
pub open spec fn spec_run_if(
    prog: Seq<Instruction>,
    start: int,
    end: int,
    computes: bool,
    floor: nat,
    depth: nat,
    st: EngineState,
    cond: Value,
    stack0: Seq<Cell>,
    endp: int,
) -> Result<EngineState, RuntimeError>
    recommends
        0 <= start < endp < end <= prog.len(),
    decreases depth, end - start, 0int,
{
    if !(0 <= start < endp < end <= prog.len()) {
        Err(RuntimeError::MalformedBytecode)
    } else {
        let else_opt = find_else(prog, start + 1, endp, 0);
        let tend = match else_opt {
            Some(ep) => ep,
            None => endp,
        };
        if !(start < tend <= endp) {
            Err(RuntimeError::MalformedBytecode)
        } else {
            let floor2 = stack0.len();
            let baselen = st.mem.len();
            let st_then_in = EngineState {
                mem: st.mem,
                writes: no_writes(baselen),
                stack: stack0,
                shapes: st.shapes,
            };
            match spec_run_block(prog, start + 1, tend, computes, floor2, depth, st_then_in) {
                Err(e) => Err(e),
                Ok(st1) => {
                    if st1.stack.len() < floor2 || st1.mem.len() < baselen {
                        Err(RuntimeError::BranchStackMismatch)
                    } else {
                        let st_else_in = EngineState {
                            mem: st.mem,
                            writes: no_writes(baselen),
                            stack: st1.stack.take(floor2 as int),
                            shapes: st1.shapes,
                        };
                        let else_res = match else_opt {
                            Some(ep) => if !(start < ep < endp) {
                                Err(RuntimeError::MalformedBytecode)
                            } else {
                                spec_run_block(
                                    prog,
                                    ep + 1,
                                    endp,
                                    computes,
                                    floor2,
                                    depth,
                                    st_else_in,
                                )
                            },
                            None => Ok(st_else_in),
                        };
                        match else_res {
                            Err(e) => Err(e),
                            Ok(st2) => {
                                if st2.stack.len() < floor2 || st2.mem.len() < baselen
                                    || st1.stack.len() != st2.stack.len() {
                                    Err(RuntimeError::BranchStackMismatch)
                                } else {
                                    let m1 = st1.mem.take(baselen as int);
                                    let m2 = st2.mem.take(baselen as int);
                                    let w = or_flags(
                                        st1.writes.take(baselen as int),
                                        st2.writes.take(baselen as int),
                                    );
                                    match spec_merge_mem(computes, cond, st.mem, m1, m2, w, 0) {
                                        Err(e) => Err(e),
                                        Ok(merged_mem) => {
                                            match spec_merge_ext(
                                                computes,
                                                cond,
                                                st1.stack.skip(floor2 as int),
                                                st2.stack.skip(floor2 as int),
                                            ) {
                                                Err(e) => Err(e),
                                                Ok(merged_ext) => spec_run_block(
                                                    prog,
                                                    endp + 1,
                                                    end,
                                                    computes,
                                                    floor,
                                                    depth,
                                                    spec_if_merged(
                                                        computes,
                                                        st,
                                                        cond,
                                                        st1,
                                                        st2,
                                                        floor2 as nat,
                                                    ),
                                                ),
                                            }
                                        },
                                    }
                                }
                            },
                        }
                    }
                },
            }
        }
    }
}

/// Runs the bracketed loop body `n` times.  Frame cells an iteration
/// allocates above the loop's entry length are dropped when the
/// iteration ends, so loop-local declarations do not leak.
pub open spec fn spec_run_loop(
    prog: Seq<Instruction>,
    bs: int,
    be: int,
    computes: bool,
    floor: nat,
    depth: nat,
    n: nat,
    st: EngineState,
) -> Result<EngineState, RuntimeError>
    decreases depth, be + 1 - bs, n,
{
    if !(0 <= bs <= be <= prog.len()) {
        Err(RuntimeError::MalformedBytecode)
    } else if n == 0 {
        Ok(st)
    } else {
        match spec_run_block(prog, bs, be, computes, floor, depth, st) {
            Err(e) => Err(e),
            Ok(st1) => {
                if st1.mem.len() < st.mem.len() {
                    Err(RuntimeError::MalformedBytecode)
                } else {
                    let st2 = EngineState {
                        mem: st1.mem.take(st.mem.len() as int),
                        writes: st1.writes.take(st.mem.len() as int),
                        stack: st1.stack,
                        shapes: st1.shapes,
                    };
                    spec_run_loop(prog, bs, be, computes, floor, depth, (n - 1) as nat, st2)
                }
            },
        }
    }
}

/// Runs one function activation: a fresh frame holding the argument
/// cells, the body up to its `Return` (or, for the entry function,
/// `Exit`), and an exact balance check on the declared output count.
pub open spec fn spec_run_function(
    prog: Seq<Instruction>,
    addr: int,
    computes: bool,
    depth: nat,
    args: Seq<Cell>,
    stack: Seq<Cell>,
    shapes: Seq<Gate>,
    is_entry: bool,
) -> Result<(Seq<Cell>, Seq<Gate>, usize), RuntimeError>
    decreases depth, prog.len() + 1 - addr, 0int,
{
    match find_return(prog, addr) {
        None => Err(RuntimeError::MalformedBytecode),
        Some((rpos, is_exit, k)) => {
            if !(0 <= addr <= rpos < prog.len()) {
                Err(RuntimeError::MalformedBytecode)
            } else if is_exit && !is_entry {
                Err(RuntimeError::MalformedBytecode)
            } else {
                let floor = stack.len();
                let st_in = EngineState {
                    mem: args,
                    writes: no_writes(args.len()),
                    stack,
                    shapes,
                };
                match spec_run_block(prog, addr, rpos, computes, floor, depth, st_in) {
                    Err(e) => Err(e),
                    Ok(st1) => if st1.stack.len() != floor + k {
                        Err(RuntimeError::FrameSizeMismatch)
                    } else {
                        Ok((st1.stack, st1.shapes, k))
                    },
                }
            }
        },
    }
}

/// Runs a whole program from an entry offset: the argument cells fill
/// the entry frame, and the run ends at the entry function's `Return`
/// or `Exit` with the output cells as the whole stack.
pub open spec fn spec_run_program(
    prog: Seq<Instruction>,
    entry: int,
    computes: bool,
    depth: nat,
    inputs: Seq<Cell>,
) -> Result<(Seq<Cell>, Seq<Gate>), RuntimeError> {
    match spec_run_function(
        prog,
        entry,
        computes,
        depth,
        inputs,
        Seq::empty(),
        Seq::empty(),
        true,
    ) {
        Err(e) => Err(e),
        Ok((stack, shapes, k)) => Ok((stack, shapes)),
    }
}

/// Well-formedness of every cell of a sequence.
pub open spec fn cells_wf(s: Seq<Cell>) -> bool {
    forall|i: int| 0 <= i < s.len() ==> s[i].wf()
}

/// A fresh vector of `n` cleared write flags.
fn false_flags(n: usize) -> (r: Vec<bool>)
    ensures
        r@ == no_writes(n as nat),
{
    let mut r: Vec<bool> = Vec::new();
    let mut k: usize = 0;
    while k < n
        invariant
            k <= n,
            r@ == no_writes(k as nat),
        decreases n - k,
    {
        r.push(false);
        proof {
            assert(r@ =~= no_writes((k + 1) as nat));
        }
        k = k + 1;
    }
    proof {
        assert(r@ =~= no_writes(n as nat));
    }
    r
}

/// A copy of a cell vector.
fn clone_cells(v: &Vec<Cell>) -> (r: Vec<Cell>)
    ensures
        r@ == v@,
{
    let mut r: Vec<Cell> = Vec::new();
    let mut k: usize = 0;
    while k < v.len()
        invariant
            k <= v@.len(),
            r@ == v@.take(k as int),
        decreases v@.len() - k,
    {
        r.push(v[k]);
        proof {
            assert(r@ =~= v@.take((k + 1) as int));
        }
        k = k + 1;
    }
    proof {
        assert(v@.take(v@.len() as int) =~= v@);
    }
    r
}

/// A copy of a flag vector.
fn clone_flags(v: &Vec<bool>) -> (r: Vec<bool>)
    ensures
        r@ == v@,
{
    let mut r: Vec<bool> = Vec::new();
    let mut k: usize = 0;
    while k < v.len()
        invariant
            k <= v@.len(),
            r@ == v@.take(k as int),
        decreases v@.len() - k,
    {
        r.push(v[k]);
        proof {
            assert(r@ =~= v@.take((k + 1) as int));
        }
        k = k + 1;
    }
    proof {
        assert(v@.take(v@.len() as int) =~= v@);
    }
    r
}

/// Finds the `EndIf` matching the `If` just before `pos`.
fn exec_find_branch_end(prog: &Vec<Instruction>, pos: usize, end: usize) -> (r: Option<usize>)
    requires
        end <= prog@.len(),
    ensures
        match r {
            Some(p) => find_branch_end(prog@, pos as int, end as int, 0) == Some(p as int) && pos
                <= p < end,
            None => find_branch_end(prog@, pos as int, end as int, 0) is None,
        },
{
    let mut p = pos;
    let mut nest: usize = 0;
    while p < end
        invariant
            pos <= p,
            end <= prog@.len(),
            nest <= p,
            find_branch_end(prog@, pos as int, end as int, 0) == find_branch_end(
                prog@,
                p as int,
                end as int,
                nest as nat,
            ),
        decreases end - p,
    {
        match prog[p] {
            Instruction::If => {
                nest = nest + 1;
            },
            Instruction::EndIf => {
                if nest == 0 {
                    return Some(p);
                }
                nest = nest - 1;
            },
            _ => {},
        }
        p = p + 1;
    }
    None
}

/// Finds the `Else` of the conditional region ending at `end`.
fn exec_find_else(prog: &Vec<Instruction>, pos: usize, end: usize) -> (r: Option<usize>)
    requires
        end <= prog@.len(),
    ensures
        match r {
            Some(p) => find_else(prog@, pos as int, end as int, 0) == Some(p as int) && pos <= p
                < end,
            None => find_else(prog@, pos as int, end as int, 0) is None,
        },
{
    let mut p = pos;
    let mut nest: usize = 0;
    while p < end
        invariant
            pos <= p,
            end <= prog@.len(),
            nest <= p,
            find_else(prog@, pos as int, end as int, 0) == find_else(
                prog@,
                p as int,
                end as int,
                nest as nat,
            ),
        decreases end - p,
    {
        match prog[p] {
            Instruction::If => {
                nest = nest + 1;
            },
            Instruction::EndIf => {
                if nest == 0 {
                    return None;
                }
                nest = nest - 1;
            },
            Instruction::Else => {
                if nest == 0 {
                    return Some(p);
                }
            },
            _ => {},
        }
        p = p + 1;
    }
    None
}

/// Finds the `LoopEnd` matching the `LoopBegin` just before `pos`.
fn exec_find_loop_end(prog: &Vec<Instruction>, pos: usize, end: usize) -> (r: Option<usize>)
    requires
        end <= prog@.len(),
    ensures
        match r {
            Some(p) => find_loop_end(prog@, pos as int, end as int, 0) == Some(p as int) && pos
                <= p < end,
            None => find_loop_end(prog@, pos as int, end as int, 0) is None,
        },
{
    let mut p = pos;
    let mut nest: usize = 0;
    while p < end
        invariant
            pos <= p,
            end <= prog@.len(),
            nest <= p,
            find_loop_end(prog@, pos as int, end as int, 0) == find_loop_end(
                prog@,
                p as int,
                end as int,
                nest as nat,
            ),
        decreases end - p,
    {
        match prog[p] {
            Instruction::LoopBegin(..) => {
                nest = nest + 1;
            },
            Instruction::LoopEnd => {
                if nest == 0 {
                    return Some(p);
                }
                nest = nest - 1;
            },
            _ => {},
        }
        p = p + 1;
    }
    None
}

/// Finds the first `Return` or `Exit` from `pos` on.
fn exec_find_return(prog: &Vec<Instruction>, pos: usize) -> (r: Option<(usize, bool, usize)>)
    ensures
        match r {
            Some((p, ex, k)) => find_return(prog@, pos as int) == Some((p as int, ex, k)) && pos
                <= p && (p as int) < prog@.len(),
            None => find_return(prog@, pos as int) is None,
        },
{
    let mut p = pos;
    let n = prog.len();
    while p < n
        invariant
            pos <= p,
            n == prog@.len(),
            find_return(prog@, pos as int) == find_return(prog@, p as int),
        decreases n - p,
    {
        match prog[p] {
            Instruction::Return { outputs } => {
                return Some((p, false, outputs));
            },
            Instruction::Exit { outputs } => {
                return Some((p, true, outputs));
            },
            _ => {},
        }
        p = p + 1;
    }
    None
}

/// The virtual machine: an operations-layer backend and the data
/// stack.  One instance owns its constraint accumulator exclusively
/// for the whole run.
pub struct VirtualMachine<O: Operations> {
    pub ops: O,
    pub stack: Vec<Cell>,
}

impl<O: Operations> VirtualMachine<O> {
    /// The spec-level state this machine is in, for a given frame.
    pub open spec fn st(self, mem: Seq<Cell>, writes: Seq<bool>) -> EngineState {
        EngineState { mem, writes, stack: self.stack@, shapes: self.ops.shapes() }
    }

    /// A machine over a fresh stack.
    pub fn new(ops: O) -> (vm: Self)
        ensures
            vm.ops == ops,
            vm.stack@ == Seq::<Cell>::empty(),
    {
        let vm = VirtualMachine { ops, stack: Vec::new() };
        proof {
            assert(vm.stack@ =~= Seq::<Cell>::empty());
        }
        vm
    }

    /// Executes one simple (non-control) instruction: pops the
    /// declared operands, calls the matching operations-layer
    /// primitive, pushes the results.
    #[verifier::rlimit(100)]
    #[verifier::spinoff_prover]
    fn step_simple(
        &mut self,
        i: &Instruction,
        floor: usize,
        mem: &mut Vec<Cell>,
        writes: &mut Vec<bool>,
    ) -> (r: Result<(), RuntimeError>)
        requires
            cells_wf(old(self).stack@),
            cells_wf(old(mem)@),
            old(writes)@.len() == old(mem)@.len(),
            floor <= old(self).stack@.len(),
        ensures
            final(self).ops.computes() == old(self).ops.computes(),
            match spec_step(
                old(self).ops.computes(),
                *i,
                floor as nat,
                old(self).st(old(mem)@, old(writes)@),
            ) {
                Ok(st1) => r is Ok && final(self).st(final(mem)@, final(writes)@) == st1
                    && cells_wf(final(self).stack@) && cells_wf(final(mem)@)
                    && final(writes)@.len() == final(mem)@.len() && floor <= final(self).stack@.len(),
                Err(e) => r == Err::<(), RuntimeError>(e),
            },
    {
        let len = self.stack.len();
        match *i {
            Instruction::NoOperation => Ok(()),
            Instruction::Pop => {
                if len <= floor {
                    return Err(RuntimeError::StackUnderflow);
                }
                self.stack.pop().unwrap();
                Ok(())
            },
            Instruction::PushConst { value, signed, length } => {
                let ty = crate::scalar::ScalarType { signed, length };
                match self.ops.constant(value, ty) {
                    Ok(v) => {
                        self.stack.push(Cell::Value(v));
                        Ok(())
                    },
                    Err(e) => Err(e),
                }
            },
            Instruction::Copy => {
                if len <= floor {
                    return Err(RuntimeError::StackUnderflow);
                }
                let c = self.stack[len - 1];
                self.stack.push(c);
                Ok(())
            },
            Instruction::Load { address } => {
                if address >= mem.len() {
                    return Err(RuntimeError::UninitializedAccess);
                }
                let c = mem[address];
                match c {
                    Cell::Undefined => Err(RuntimeError::UninitializedAccess),
                    Cell::Value(..) => {
                        self.stack.push(c);
                        Ok(())
                    },
                }
            },
            Instruction::Store { address } => {
                if len <= floor {
                    return Err(RuntimeError::StackUnderflow);
                }
                if address > mem.len() {
                    return Err(RuntimeError::MalformedBytecode);
                }
                let c = self.stack.pop().unwrap();
                if address == mem.len() {
                    mem.push(c);
                    writes.push(true);
                } else {
                    mem[address] = c;
                    writes[address] = true;
                }
                Ok(())
            },
            Instruction::Slice { offset, array_len, slice_len } => {
                if offset > array_len || slice_len > array_len - offset {
                    return Err(RuntimeError::MalformedBytecode);
                }
                if len - floor < array_len {
                    return Err(RuntimeError::StackUnderflow);
                }
                let block = self.stack.split_off(len - array_len);
                let mut j = offset;
                while j < offset + slice_len
                    invariant
                        offset <= j <= offset + slice_len,
                        offset + slice_len <= array_len == block@.len(),
                        self.stack@ == old(self).stack@.take((len - array_len) as int)
                            + block@.subrange(offset as int, j as int),
                        self.ops == old(self).ops,
                    decreases offset + slice_len - j,
                {
                    self.stack.push(block[j]);
                    proof {
                        assert(self.stack@ =~= old(self).stack@.take((len - array_len) as int)
                            + block@.subrange(offset as int, (j + 1) as int));
                    }
                    j = j + 1;
                }
                Ok(())
            },
            Instruction::ArrayReverse { size } => {
                if len - floor < size {
                    return Err(RuntimeError::StackUnderflow);
                }
                let block = self.stack.split_off(len - size);
                let mut j: usize = 0;
                while j < size
                    invariant
                        j <= size == block@.len(),
                        self.stack@ == old(self).stack@.take((len - size) as int)
                            + block@.reverse().take(j as int),
                        self.ops == old(self).ops,
                    decreases size - j,
                {
                    self.stack.push(block[size - 1 - j]);
                    proof {
                        assert(block@.reverse()[j as int] == block@[size - 1 - j]);
                        assert(self.stack@ =~= old(self).stack@.take((len - size) as int)
                            + block@.reverse().take((j + 1) as int));
                    }
                    j = j + 1;
                }
                proof {
                    assert(block@.reverse().take(size as int) =~= block@.reverse());
                }
                Ok(())
            },
            Instruction::Add | Instruction::Sub | Instruction::Mul => {
                if len - floor < 2 {
                    return Err(RuntimeError::StackUnderflow);
                }
                let bc = self.stack[len - 1];
                let ac = self.stack[len - 2];
                self.stack.truncate(len - 2);
                match (ac, bc) {
                    (Cell::Value(a), Cell::Value(b)) => {
                        let res = match *i {
                            Instruction::Add => self.ops.add(a, b),
                            Instruction::Sub => self.ops.sub(a, b),
                            _ => self.ops.mul(a, b),
                        };
                        match res {
                            Ok(v) => {
                                self.stack.push(Cell::Value(v));
                                Ok(())
                            },
                            Err(e) => Err(e),
                        }
                    },
                    _ => Err(RuntimeError::UninitializedAccess),
                }
            },
            Instruction::Div | Instruction::Rem => {
                if len - floor < 2 {
                    return Err(RuntimeError::StackUnderflow);
                }
                let bc = self.stack[len - 1];
                let ac = self.stack[len - 2];
                self.stack.truncate(len - 2);
                match (ac, bc) {
                    (Cell::Value(a), Cell::Value(b)) => {
                        match self.ops.div_rem(a, b) {
                            Ok((q, rr)) => {
                                let out = match *i {
                                    Instruction::Div => q,
                                    _ => rr,
                                };
                                self.stack.push(Cell::Value(out));
                                Ok(())
                            },
                            Err(e) => Err(e),
                        }
                    },
                    _ => Err(RuntimeError::UninitializedAccess),
                }
            },
            Instruction::Neg => {
                if len <= floor {
                    return Err(RuntimeError::StackUnderflow);
                }
                let ac = self.stack.pop().unwrap();
                match ac {
                    Cell::Value(a) => {
                        match self.ops.neg(a) {
                            Ok(v) => {
                                self.stack.push(Cell::Value(v));
                                Ok(())
                            },
                            Err(e) => Err(e),
                        }
                    },
                    _ => Err(RuntimeError::UninitializedAccess),
                }
            },
            Instruction::And | Instruction::Or | Instruction::Xor => {
                if len - floor < 2 {
                    return Err(RuntimeError::StackUnderflow);
                }
                let bc = self.stack[len - 1];
                let ac = self.stack[len - 2];
                self.stack.truncate(len - 2);
                match (ac, bc) {
                    (Cell::Value(a), Cell::Value(b)) => {
                        let res = match *i {
                            Instruction::And => self.ops.and(a, b),
                            Instruction::Or => self.ops.or(a, b),
                            _ => self.ops.xor(a, b),
                        };
                        match res {
                            Ok(v) => {
                                self.stack.push(Cell::Value(v));
                                Ok(())
                            },
                            Err(e) => Err(e),
                        }
                    },
                    _ => Err(RuntimeError::UninitializedAccess),
                }
            },
            Instruction::Not => {
                if len <= floor {
                    return Err(RuntimeError::StackUnderflow);
                }
                let ac = self.stack.pop().unwrap();
                match ac {
                    Cell::Value(a) => {
                        match self.ops.not(a) {
                            Ok(v) => {
                                self.stack.push(Cell::Value(v));
                                Ok(())
                            },
                            Err(e) => Err(e),
                        }
                    },
                    _ => Err(RuntimeError::UninitializedAccess),
                }
            },
            Instruction::Lt | Instruction::Le | Instruction::Gt | Instruction::Ge
                | Instruction::Eq | Instruction::Ne => {
                if len - floor < 2 {
                    return Err(RuntimeError::StackUnderflow);
                }
                let bc = self.stack[len - 1];
                let ac = self.stack[len - 2];
                self.stack.truncate(len - 2);
                match (ac, bc) {
                    (Cell::Value(a), Cell::Value(b)) => {
                        let op = match *i {
                            Instruction::Lt => CmpOp::Lt,
                            Instruction::Le => CmpOp::Le,
                            Instruction::Gt => CmpOp::Gt,
                            Instruction::Ge => CmpOp::Ge,
                            Instruction::Eq => CmpOp::Eq,
                            _ => CmpOp::Ne,
                        };
                        match self.ops.cmp(op, a, b) {
                            Ok(v) => {
                                self.stack.push(Cell::Value(v));
                                Ok(())
                            },
                            Err(e) => Err(e),
                        }
                    },
                    _ => Err(RuntimeError::UninitializedAccess),
                }
            },
            Instruction::Cast(c) => {
                if len <= floor {
                    return Err(RuntimeError::StackUnderflow);
                }
                let ac = self.stack.pop().unwrap();
                match ac {
                    Cell::Value(a) => {
                        match self.ops.cast(a, c.target()) {
                            Ok(v) => {
                                self.stack.push(Cell::Value(v));
                                Ok(())
                            },
                            Err(e) => Err(e),
                        }
                    },
                    _ => Err(RuntimeError::UninitializedAccess),
                }
            },
            _ => Err(RuntimeError::MalformedBytecode),
        }
    }

    /// Merges the frame cells the two branch runs wrote, ascending
    /// from address `k`, emitting one selection per written address.
    fn merge_mem_from(
        &mut self,
        cond: Value,
        base: &Vec<Cell>,
        m1: &Vec<Cell>,
        m2: &Vec<Cell>,
        w1: &Vec<bool>,
        w2: &Vec<bool>,
        k: usize,
    ) -> (r: Result<Vec<Cell>, RuntimeError>)
        requires
            base@.len() <= m1@.len(),
            base@.len() <= m2@.len(),
            base@.len() <= w1@.len(),
            base@.len() <= w2@.len(),
            cells_wf(m1@),
            cells_wf(m2@),
            cells_wf(base@),
            k <= base@.len(),
        ensures
            final(self).ops.computes() == old(self).ops.computes(),
            final(self).stack == old(self).stack,
            match spec_merge_mem(
                old(self).ops.computes(),
                cond,
                base@,
                m1@.take(base@.len() as int),
                m2@.take(base@.len() as int),
                or_flags(w1@.take(base@.len() as int), w2@.take(base@.len() as int)),
                k as nat,
            ) {
                Ok((cells, gates)) => r is Ok && r->Ok_0@ == cells && final(self).ops.shapes()
                    == old(self).ops.shapes() + gates && cells_wf(r->Ok_0@) && cells.len()
                    == base@.len() - k,
                Err(e) => r == Err::<Vec<Cell>, RuntimeError>(e),
            },
        decreases base@.len() - k,
    {
        let baselen = base.len();
        if k >= baselen {
            let out: Vec<Cell> = Vec::new();
            proof {
                assert(out@ =~= Seq::<Cell>::empty());
                assert(final(self).ops.shapes() =~= old(self).ops.shapes()
                    + Seq::<Gate>::empty());
            }
            return Ok(out);
        }
        let ghost w = or_flags(w1@.take(baselen as int), w2@.take(baselen as int));
        let wk = w1[k] || w2[k];
        proof {
            assert(w[k as int] == wk);
        }
        let head: Cell;
        if wk {
            let c1 = m1[k];
            let c2 = m2[k];
            match (c1, c2) {
                (Cell::Value(a), Cell::Value(b)) => {
                    match self.ops.conditional_select(cond, a, b) {
                        Ok(v) => {
                            head = Cell::Value(v);
                        },
                        Err(e) => {
                            return Err(e);
                        },
                    }
                },
                _ => {
                    return Err(RuntimeError::UninitializedAccess);
                },
            }
        } else {
            head = base[k];
        }
        let ghost shapes_mid = self.ops.shapes();
        let rest = match self.merge_mem_from(cond, base, m1, m2, w1, w2, k + 1) {
            Ok(v) => v,
            Err(e) => {
                return Err(e);
            },
        };
        let mut out = rest;
        out.insert(0, head);
        proof {
            let sm = spec_merge_mem(
                old(self).ops.computes(),
                cond,
                base@,
                m1@.take(baselen as int),
                m2@.take(baselen as int),
                w,
                k as nat,
            );
            let smt = spec_merge_mem(
                old(self).ops.computes(),
                cond,
                base@,
                m1@.take(baselen as int),
                m2@.take(baselen as int),
                w,
                (k + 1) as nat,
            );
            assert(out@ =~= seq![head] + smt->Ok_0.0);
            if wk {
                assert(self.ops.shapes() =~= old(self).ops.shapes() + (seq![
                    Gate::Select(m1@[k as int]->Value_0.ty),
                ] + smt->Ok_0.1));
            } else {
                assert(self.ops.shapes() =~= old(self).ops.shapes() + smt->Ok_0.1);
            }
        }
        Ok(out)
    }

    /// Merges the stack cells the two branch runs pushed, bottom to
    /// top, emitting one selection per pair.
    fn merge_ext_from(&mut self, cond: Value, e1: &Vec<Cell>, e2: &Vec<Cell>, k: usize) -> (r:
        Result<Vec<Cell>, RuntimeError>)
        requires
            e1@.len() == e2@.len(),
            cells_wf(e1@),
            cells_wf(e2@),
            k <= e1@.len(),
        ensures
            final(self).ops.computes() == old(self).ops.computes(),
            final(self).stack == old(self).stack,
            match spec_merge_ext(
                old(self).ops.computes(),
                cond,
                e1@.skip(k as int),
                e2@.skip(k as int),
            ) {
                Ok((cells, gates)) => r is Ok && r->Ok_0@ == cells && final(self).ops.shapes()
                    == old(self).ops.shapes() + gates && cells_wf(r->Ok_0@),
                Err(e) => r == Err::<Vec<Cell>, RuntimeError>(e),
            },
        decreases e1@.len() - k,
    {
        let n = e1.len();
        if k >= n {
            let out: Vec<Cell> = Vec::new();
            proof {
                assert(e1@.skip(k as int).len() == 0);
                assert(out@ =~= Seq::<Cell>::empty());
                assert(final(self).ops.shapes() =~= old(self).ops.shapes()
                    + Seq::<Gate>::empty());
            }
            return Ok(out);
        }
        proof {
            assert(e1@.skip(k as int)[0] == e1@[k as int]);
            assert(e2@.skip(k as int)[0] == e2@[k as int]);
            assert(e1@.skip(k as int).skip(1) =~= e1@.skip(k + 1));
            assert(e2@.skip(k as int).skip(1) =~= e2@.skip(k + 1));
        }
        let head: Cell;
        match (e1[k], e2[k]) {
            (Cell::Value(a), Cell::Value(b)) => {
                match self.ops.conditional_select(cond, a, b) {
                    Ok(v) => {
                        head = Cell::Value(v);
                    },
                    Err(e) => {
                        return Err(e);
                    },
                }
            },
            _ => {
                return Err(RuntimeError::UninitializedAccess);
            },
        }
        let rest = match self.merge_ext_from(cond, e1, e2, k + 1) {
            Ok(v) => v,
            Err(e) => {
                return Err(e);
            },
        };
        let mut out = rest;
        out.insert(0, head);
        proof {
            let smt = spec_merge_ext(
                old(self).ops.computes(),
                cond,
                e1@.skip(k + 1),
                e2@.skip(k + 1),
            );
            assert(out@ =~= seq![head] + smt->Ok_0.0);
            assert(self.ops.shapes() =~= old(self).ops.shapes() + (seq![
                Gate::Select(e1@[k as int]->Value_0.ty),
            ] + smt->Ok_0.1));
        }
        Ok(out)
    }


    /// Runs one conditional region: pops the condition, runs both
    /// arms, merges the touched cells under the condition, and
    /// reports where execution continues.
    #[verifier::rlimit(100)]
    #[verifier::spinoff_prover]
    #[verifier::loop_isolation(false)]
    fn run_if(
        &mut self,
        prog: &Vec<Instruction>,
        pc: usize,
        end: usize,
        floor: usize,
        depth: u64,
        mem: &mut Vec<Cell>,
        writes: &mut Vec<bool>,
    ) -> (r: Result<usize, RuntimeError>)
        requires
            end <= prog@.len(),
            pc < end,
            prog@[pc as int] is If,
            floor <= old(self).stack@.len(),
            cells_wf(old(self).stack@),
            cells_wf(old(mem)@),
            old(writes)@.len() == old(mem)@.len(),
        ensures
            final(self).ops.computes() == old(self).ops.computes(),
            match r {
                Ok(next) => pc < next <= end && cells_wf(final(self).stack@) && cells_wf(
                    final(mem)@,
                ) && final(writes)@.len() == final(mem)@.len() && floor <= final(self).stack@.len()
                    && spec_run_block(
                    prog@,
                    pc as int,
                    end as int,
                    old(self).ops.computes(),
                    floor as nat,
                    depth as nat,
                    old(self).st(old(mem)@, old(writes)@),
                ) == spec_run_block(
                    prog@,
                    next as int,
                    end as int,
                    old(self).ops.computes(),
                    floor as nat,
                    depth as nat,
                    final(self).st(final(mem)@, final(writes)@),
                ),
                Err(e) => spec_run_block(
                    prog@,
                    pc as int,
                    end as int,
                    old(self).ops.computes(),
                    floor as nat,
                    depth as nat,
                    old(self).st(old(mem)@, old(writes)@),
                ) == Err::<EngineState, RuntimeError>(e),
            },
        decreases depth, end - pc, 0int,
    {
        let ghost computes = old(self).ops.computes();
        let ghost cur0 = old(self).st(old(mem)@, old(writes)@);
        if self.stack.len() <= floor {
            return Err(RuntimeError::StackUnderflow);
        }
        let cond_cell = self.stack.pop().unwrap();
        let cond = match cond_cell {
            Cell::Value(v) => v,
            Cell::Undefined => {
                return Err(RuntimeError::UninitializedAccess);
            },
        };
        let computes_rt = self.ops.is_witness();
        if !crate::ops::boolean_check(computes_rt, &cond) {
            return Err(RuntimeError::ExpectedBoolean);
        }
        let endp = match exec_find_branch_end(prog, pc + 1, end) {
            Some(p) => p,
            None => {
                return Err(RuntimeError::MalformedBytecode);
            },
        };
        let else_opt = exec_find_else(prog, pc + 1, endp);
        let tend = match else_opt {
            Some(ep) => ep,
            None => endp,
        };
        proof {
            assert(spec_run_block(
                prog@,
                pc as int,
                end as int,
                computes,
                floor as nat,
                depth as nat,
                cur0,
            ) == spec_run_if(
                prog@,
                pc as int,
                end as int,
                computes,
                floor as nat,
                depth as nat,
                cur0,
                cond,
                cur0.stack.drop_last(),
                endp as int,
            ));
        }
        let floor2 = self.stack.len();
        let baselen = mem.len();
        let mem0 = clone_cells(mem);
        let writes0 = clone_flags(writes);
        *writes = false_flags(baselen);
        let ghost st_then_in = EngineState {
            mem: cur0.mem,
            writes: no_writes(baselen as nat),
            stack: cur0.stack.drop_last(),
            shapes: cur0.shapes,
        };
        proof {
            assert(self.st(mem@, writes@) == st_then_in);
        }
        match self.run_block(prog, pc + 1, tend, floor2, depth, mem, writes) {
            Ok(()) => {},
            Err(e) => {
                return Err(e);
            },
        }
        let ghost st1 = self.st(mem@, writes@);
        if self.stack.len() < floor2 || mem.len() < baselen {
            return Err(RuntimeError::BranchStackMismatch);
        }
        let ext1 = self.stack.split_off(floor2);
        let m1 = clone_cells(mem);
        let w1 = clone_flags(writes);
        *mem = clone_cells(&mem0);
        *writes = false_flags(baselen);
        let ghost st_else_in = EngineState {
            mem: cur0.mem,
            writes: no_writes(baselen as nat),
            stack: st1.stack.take(floor2 as int),
            shapes: st1.shapes,
        };
        proof {
            assert(self.st(mem@, writes@) == st_else_in);
        }
        match else_opt {
            Some(ep) => {
                match self.run_block(prog, ep + 1, endp, floor2, depth, mem, writes) {
                    Ok(()) => {},
                    Err(e) => {
                        return Err(e);
                    },
                }
            },
            None => {},
        }
        let ghost st2 = self.st(mem@, writes@);
        if self.stack.len() < floor2 || mem.len() < baselen {
            return Err(RuntimeError::BranchStackMismatch);
        }
        let ext2 = self.stack.split_off(floor2);
        if ext1.len() != ext2.len() {
            return Err(RuntimeError::BranchStackMismatch);
        }
        let m2 = clone_cells(mem);
        let w2 = clone_flags(writes);
        let ghost w = or_flags(
            st1.writes.take(baselen as int),
            st2.writes.take(baselen as int),
        );
        let newmem = match self.merge_mem_from(cond, &mem0, &m1, &m2, &w1, &w2, 0) {
            Ok(v) => v,
            Err(e) => {
                return Err(e);
            },
        };
        proof {
            assert(ext1@.skip(0) =~= st1.stack.skip(floor2 as int));
            assert(ext2@.skip(0) =~= st2.stack.skip(floor2 as int));
        }
        let extm = match self.merge_ext_from(cond, &ext1, &ext2, 0) {
            Ok(v) => v,
            Err(e) => {
                return Err(e);
            },
        };
        // Commit the merge: frame cells, write flags, stack.
        let mut new_writes: Vec<bool> = Vec::new();
        let mut a: usize = 0;
        while a < baselen
            invariant
                a <= baselen,
                baselen == writes0@.len(),
                baselen <= w1@.len(),
                baselen <= w2@.len(),
                new_writes@ == or_flags(writes0@, w).take(a as int),
                w == or_flags(
                    st1.writes.take(baselen as int),
                    st2.writes.take(baselen as int),
                ),
                w1@ == st1.writes,
                w2@ == st2.writes,
            decreases baselen - a,
        {
            new_writes.push(writes0[a] || (w1[a] || w2[a]));
            proof {
                assert(new_writes@ =~= or_flags(writes0@, w).take((a + 1) as int));
            }
            a = a + 1;
        }
        proof {
            assert(or_flags(writes0@, w).take(baselen as int) =~= or_flags(
                writes0@,
                w,
            ));
        }
        *mem = newmem;
        *writes = new_writes;
        let mut j: usize = 0;
        let ghost stack_base = self.stack@;
        let ghost ops_snap = self.ops;
        while j < extm.len()
            invariant
                j <= extm@.len(),
                self.stack@ == stack_base + extm@.take(j as int),
                self.ops == ops_snap,
            decreases extm@.len() - j,
        {
            self.stack.push(extm[j]);
            proof {
                assert(self.stack@ =~= stack_base + extm@.take((j + 1) as int));
            }
            j = j + 1;
        }
        proof {
            assert(extm@.take(extm@.len() as int) =~= extm@);
            let st3 = spec_if_merged(computes, cur0, cond, st1, st2, floor2 as nat);
            assert(self.st(mem@, writes@) == st3) by {
                assert(self.st(mem@, writes@).shapes =~= st3.shapes);
                assert(self.st(mem@, writes@).stack =~= st3.stack);
            };
            assert(spec_run_block(
                prog@,
                pc as int,
                end as int,
                computes,
                floor as nat,
                depth as nat,
                cur0,
            ) == spec_run_block(
                prog@,
                (endp + 1) as int,
                end as int,
                computes,
                floor as nat,
                depth as nat,
                st3,
            ));
        }
        Ok(endp + 1)
    }

    /// Runs the instructions of one straight-line block against the
    /// operations layer, as the spec-level interpreter describes.
    #[verifier::rlimit(100)]
    #[verifier::spinoff_prover]
    #[verifier::loop_isolation(false)]
    fn run_block(
        &mut self,
        prog: &Vec<Instruction>,
        start: usize,
        end: usize,
        floor: usize,
        depth: u64,
        mem: &mut Vec<Cell>,
        writes: &mut Vec<bool>,
    ) -> (r: Result<(), RuntimeError>)
        requires
            end <= prog@.len(),
            floor <= old(self).stack@.len(),
            cells_wf(old(self).stack@),
            cells_wf(old(mem)@),
            old(writes)@.len() == old(mem)@.len(),
        ensures
            final(self).ops.computes() == old(self).ops.computes(),
            match spec_run_block(
                prog@,
                start as int,
                end as int,
                old(self).ops.computes(),
                floor as nat,
                depth as nat,
                old(self).st(old(mem)@, old(writes)@),
            ) {
                Ok(st1) => r is Ok && final(self).st(final(mem)@, final(writes)@) == st1
                    && cells_wf(final(self).stack@) && cells_wf(final(mem)@)
                    && final(writes)@.len() == final(mem)@.len() && floor <= final(self).stack@.len(),
                Err(e) => r == Err::<(), RuntimeError>(e),
            },
        decreases depth, end - start, 1int,
    {
        let ghost computes = old(self).ops.computes();
        let ghost st_init = old(self).st(old(mem)@, old(writes)@);
        let mut pc = start;
        if pc >= end {
            return Ok(());
        }
        while pc < end
            invariant
                start <= pc <= end,
                end <= prog@.len(),
                floor <= self.stack@.len(),
                cells_wf(self.stack@),
                cells_wf(mem@),
                writes@.len() == mem@.len(),
                self.ops.computes() == computes,
                spec_run_block(
                    prog@,
                    start as int,
                    end as int,
                    computes,
                    floor as nat,
                    depth as nat,
                    st_init,
                ) == spec_run_block(
                    prog@,
                    pc as int,
                    end as int,
                    computes,
                    floor as nat,
                    depth as nat,
                    self.st(mem@, writes@),
                ),
            decreases end - pc,
        {
            let ghost cur0 = self.st(mem@, writes@);
            let i = prog[pc];
            match i {
                Instruction::If => {
                    match self.run_if(prog, pc, end, floor, depth, mem, writes) {
                        Ok(next) => {
                            pc = next;
                        },
                        Err(e) => {
                            return Err(e);
                        },
                    }
                },
                Instruction::LoopBegin(l) => {
                    let endp = match exec_find_loop_end(prog, pc + 1, end) {
                        Some(p) => p,
                        None => {
                            return Err(RuntimeError::MalformedBytecode);
                        },
                    };
                    let n = l.iterations;
                    let ghost st_loop_in = self.st(mem@, writes@);
                    let mut it: usize = 0;
                    while it < n
                        invariant
                            it <= n,
                            pc + 1 <= endp < end <= prog@.len(),
                            floor <= self.stack@.len(),
                            cells_wf(self.stack@),
                            cells_wf(mem@),
                            writes@.len() == mem@.len(),
                            self.ops.computes() == computes,
                            spec_run_loop(
                                prog@,
                                (pc + 1) as int,
                                endp as int,
                                computes,
                                floor as nat,
                                depth as nat,
                                n as nat,
                                st_loop_in,
                            ) == spec_run_loop(
                                prog@,
                                (pc + 1) as int,
                                endp as int,
                                computes,
                                floor as nat,
                                depth as nat,
                                (n - it) as nat,
                                self.st(mem@, writes@),
                            ),
                        decreases n - it,
                    {
                        let entry_len = mem.len();
                        match self.run_block(prog, pc + 1, endp, floor, depth, mem, writes) {
                            Ok(()) => {},
                            Err(e) => {
                                return Err(e);
                            },
                        }
                        if mem.len() < entry_len {
                            return Err(RuntimeError::MalformedBytecode);
                        }
                        mem.truncate(entry_len);
                        writes.truncate(entry_len);
                        it = it + 1;
                    }
                    proof {
                        assert(spec_run_block(
                            prog@,
                            pc as int,
                            end as int,
                            computes,
                            floor as nat,
                            depth as nat,
                            cur0,
                        ) == spec_run_block(
                            prog@,
                            (endp + 1) as int,
                            end as int,
                            computes,
                            floor as nat,
                            depth as nat,
                            self.st(mem@, writes@),
                        ));
                    }
                    pc = endp + 1;
                },
                Instruction::Call { address, inputs } => {
                    if depth == 0 {
                        return Err(RuntimeError::RecursionLimit);
                    }
                    if address >= prog.len() {
                        return Err(RuntimeError::UnresolvedCallTarget);
                    }
                    if self.stack.len() - floor < inputs {
                        return Err(RuntimeError::StackUnderflow);
                    }
                    let at = self.stack.len() - inputs;
                    let args = self.stack.split_off(at);
                    match self.run_function(prog, address, depth - 1, args, false) {
                        Ok(_k) => {},
                        Err(e) => {
                            return Err(e);
                        },
                    }
                    pc = pc + 1;
                },
                Instruction::Else => {
                    return Err(RuntimeError::MalformedBytecode);
                },
                Instruction::EndIf => {
                    return Err(RuntimeError::MalformedBytecode);
                },
                Instruction::LoopEnd => {
                    return Err(RuntimeError::MalformedBytecode);
                },
                Instruction::Return { .. } => {
                    return Err(RuntimeError::MalformedBytecode);
                },
                Instruction::Exit { .. } => {
                    return Err(RuntimeError::MalformedBytecode);
                },
                Instruction::Sha256 { .. } => {
                    return Err(RuntimeError::UnsupportedBuiltin);
                },
                _ => {
                    match self.step_simple(&i, floor, mem, writes) {
                        Ok(()) => {},
                        Err(e) => {
                            return Err(e);
                        },
                    }
                    pc = pc + 1;
                },
            }
        }
        Ok(())
    }

    /// Runs one function activation: a fresh frame filled with the
    /// argument cells, the body up to its `Return` (or `Exit` for the
    /// entry function), and the declared-output balance check.
    fn run_function(
        &mut self,
        prog: &Vec<Instruction>,
        addr: usize,
        depth: u64,
        args: Vec<Cell>,
        is_entry: bool,
    ) -> (r: Result<usize, RuntimeError>)
        requires
            cells_wf(old(self).stack@),
            cells_wf(args@),
        ensures
            final(self).ops.computes() == old(self).ops.computes(),
            match spec_run_function(
                prog@,
                addr as int,
                old(self).ops.computes(),
                depth as nat,
                args@,
                old(self).stack@,
                old(self).ops.shapes(),
                is_entry,
            ) {
                Ok((stack2, shapes2, k)) => r == Ok::<usize, RuntimeError>(k)
                    && final(self).stack@ == stack2 && final(self).ops.shapes() == shapes2
                    && cells_wf(final(self).stack@)
                    && final(self).stack@.len() == old(self).stack@.len() + k,
                Err(e) => r == Err::<usize, RuntimeError>(e),
            },
        decreases depth, prog@.len() - addr + 1, 0int,
    {
        let (rpos, is_exit, k) = match exec_find_return(prog, addr) {
            Some(x) => x,
            None => {
                return Err(RuntimeError::MalformedBytecode);
            },
        };
        if is_exit && !is_entry {
            return Err(RuntimeError::MalformedBytecode);
        }
        proof {
            assert(addr <= rpos < prog@.len());
        }
        let floor = self.stack.len();
        let mut mem = args;
        let mut writes = false_flags(mem.len());
        match self.run_block(prog, addr, rpos, floor, depth, &mut mem, &mut writes) {
            Ok(()) => {},
            Err(e) => {
                return Err(e);
            },
        }
        if self.stack.len() - floor != k {
            return Err(RuntimeError::FrameSizeMismatch);
        }
        Ok(k)
    }

    /// The run-to-completion entry: takes a program, an input
    /// assignment and this machine's operations layer, and returns the
    /// output cells; the finalized constraint trace stays on the
    /// operations layer.  A fault aborts the run with no usable
    /// output.
    pub fn run_program(&mut self, prog: &Program, entry: usize, inputs: Vec<Cell>, depth: u64) -> (r:
        Result<Vec<Cell>, RuntimeError>)
        requires
            old(self).stack@.len() == 0,
            old(self).ops.shapes() == Seq::<Gate>::empty(),
            cells_wf(inputs@),
        ensures
            final(self).ops.computes() == old(self).ops.computes(),
            match spec_run_program(
                prog.instructions@,
                entry as int,
                old(self).ops.computes(),
                depth as nat,
                inputs@,
            ) {
                Ok((cells, shapes)) => r is Ok && r->Ok_0@ == cells && final(self).ops.shapes()
                    == shapes,
                Err(e) => r == Err::<Vec<Cell>, RuntimeError>(e),
            },
    {
        proof {
            assert(old(self).stack@ =~= Seq::<Cell>::empty());
        }
        match self.run_function(&prog.instructions, entry, depth, inputs, true) {
            Ok(_k) => {
                let ghost full = self.stack@;
                let out = self.stack.split_off(0);
                proof {
                    assert(out@ =~= full);
                }
                Ok(out)
            },
            Err(e) => Err(e),
        }
    }
}

/// Stack balance: a simple instruction that does not fault leaves the
/// stack with exactly `outputs_count` more cells than it had after the
/// instruction's `inputs_count` cells were consumed — the net change
/// is always `outputs_count - inputs_count`.
pub proof fn lemma_stack_balance(computes: bool, i: Instruction, floor: nat, st: EngineState)
    requires
        spec_step(computes, i, floor, st) is Ok,
    ensures
        spec_step(computes, i, floor, st)->Ok_0.stack.len() == st.stack.len()
            - i.spec_inputs_count() + i.spec_outputs_count(),
{
    let st1 = spec_step(computes, i, floor, st)->Ok_0;
    match i {
        Instruction::Slice { offset, array_len, slice_len } => {
            assert(st1.stack.len() == st.stack.len() - array_len + slice_len);
        },
        Instruction::ArrayReverse { size } => {
            assert(st1.stack.len() == st.stack.len() - size + size);
        },
        _ => {},
    }
}

/// Loop unrolling: `LoopBegin(n) … LoopEnd` produces exactly `n`
/// repetitions of the bracketed body — one run of the body followed by
/// `n - 1` more, each on the previous iteration's outcome with its
/// loop-local cells dropped; zero iterations leave the state untouched
/// and leak nothing.
pub proof fn lemma_loop_unrolling(
    prog: Seq<Instruction>,
    bs: int,
    be: int,
    computes: bool,
    floor: nat,
    depth: nat,
    n: nat,
    st: EngineState,
)
    requires
        0 <= bs <= be <= prog.len(),
    ensures
        n == 0 ==> spec_run_loop(prog, bs, be, computes, floor, depth, n, st) == Ok::<
            EngineState,
            RuntimeError,
        >(st),
        n > 0 ==> spec_run_loop(prog, bs, be, computes, floor, depth, n, st) == (match
            spec_run_block(prog, bs, be, computes, floor, depth, st) {
            Err(e) => Err(e),
            Ok(st1) => if st1.mem.len() < st.mem.len() {
                Err(RuntimeError::MalformedBytecode)
            } else {
                spec_run_loop(
                    prog,
                    bs,
                    be,
                    computes,
                    floor,
                    depth,
                    (n - 1) as nat,
                    EngineState {
                        mem: st1.mem.take(st.mem.len() as int),
                        writes: st1.writes.take(st.mem.len() as int),
                        stack: st1.stack,
                        shapes: st1.shapes,
                    },
                )
            },
        }),
{
}

/// The state a conditional region leaves behind, assembled from the
/// two branch results.  Spelled out here so the interpreter and the
/// engine agree on one definition.
pub open spec fn spec_if_merged(
    computes: bool,
    st: EngineState,
    cond: Value,
    st1: EngineState,
    st2: EngineState,
    floor2: nat,
) -> EngineState {
    let baselen = st.mem.len();
    let w = or_flags(st1.writes.take(baselen as int), st2.writes.take(baselen as int));
    let merged_mem = spec_merge_mem(
        computes,
        cond,
        st.mem,
        st1.mem.take(baselen as int),
        st2.mem.take(baselen as int),
        w,
        0,
    );
    let merged_ext = spec_merge_ext(
        computes,
        cond,
        st1.stack.skip(floor2 as int),
        st2.stack.skip(floor2 as int),
    );
    EngineState {
        mem: merged_mem->Ok_0.0,
        writes: or_flags(st.writes, w),
        stack: st2.stack.take(floor2 as int) + merged_ext->Ok_0.0,
        shapes: st2.shapes + merged_mem->Ok_0.1 + merged_ext->Ok_0.1,
    }
}

} // verus!
