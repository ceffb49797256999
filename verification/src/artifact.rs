//! How a compiled program is wrapped into a directly runnable artifact: a
//! driver block that sets the stack pointer and calls `main`, and a block that
//! halts, appended after the program's own blocks, the driver being the entry.

use vstd::prelude::*;

verus! {

/// The operations the wrapping blocks use.
#[derive(Debug, Clone, Copy, PartialEq, Eq, Structural)]
pub enum WrapOp {
    /// Load an immediate into a register.
    LoadI,
    /// Call the block at the immediate.
    Call,
    /// Stop the machine.
    Halt,
}

/// One instruction of a wrapping block: an operation, three register
/// operands and an immediate.
#[derive(Debug, Clone, Copy, PartialEq, Eq, Structural)]
pub struct WrapInstruction {
    pub op: WrapOp,
    pub dst: u8,
    pub src1: u8,
    pub src2: u8,
    pub imm: i32,
}

/// Where the wrapping blocks go and what they hold.
#[derive(Debug, Clone)]
pub struct WrapPlan {
    /// Index of the driver block, labelled `driver`.
    pub driver: usize,
    /// Index of the halting block, labelled `halt`.
    pub halt: usize,
    /// The program's entry block.
    pub entry: usize,
    pub driver_instructions: Vec<WrapInstruction>,
    pub halt_instructions: Vec<WrapInstruction>,
}

/// The instruction with operation `op`, no register operand but `dst`, and
/// immediate `imm`.
pub open spec fn instruction(op: WrapOp, dst: u8, imm: i32) -> WrapInstruction {
    WrapInstruction { op, dst, src1: 0, src2: 0, imm }
}

/// The wrapping of a program of `block_count` blocks whose `main` starts at
/// block `main_entry`, on a machine whose stack pointer is register
/// `stack_ptr` and whose stack starts at `stack_base`: the driver block comes
/// right after the program's blocks and is the entry; it loads the stack base
/// (as a 32-bit immediate) into the stack pointer and calls `main`'s block; the
/// halting block comes after it.
pub fn wrap_plan(block_count: usize, main_entry: usize, stack_ptr: u8, stack_base: u64) -> (p:
    WrapPlan)
    requires
        block_count + 2 <= usize::MAX,
    ensures
        p.driver == block_count,
        p.halt == block_count + 1,
        p.entry == block_count,
        p.driver_instructions@ == seq![
            instruction(WrapOp::LoadI, stack_ptr, stack_base as i32),
            instruction(WrapOp::Call, 0, main_entry as i32),
        ],
        p.halt_instructions@ == seq![instruction(WrapOp::Halt, 0, 0)],
{
    let mut driver_instructions: Vec<WrapInstruction> = Vec::new();
    driver_instructions.push(
        WrapInstruction {
            op: WrapOp::LoadI,
            dst: stack_ptr,
            src1: 0,
            src2: 0,
            imm: #[verifier::truncate] (stack_base as i32),
        },
    );
    driver_instructions.push(
        WrapInstruction {
            op: WrapOp::Call,
            dst: 0,
            src1: 0,
            src2: 0,
            imm: #[verifier::truncate] (main_entry as i32),
        },
    );
    let mut halt_instructions: Vec<WrapInstruction> = Vec::new();
    halt_instructions.push(WrapInstruction { op: WrapOp::Halt, dst: 0, src1: 0, src2: 0, imm: 0 });
    assert(driver_instructions@ =~= seq![
        instruction(WrapOp::LoadI, stack_ptr, stack_base as i32),
        instruction(WrapOp::Call, 0, main_entry as i32),
    ]);
    assert(halt_instructions@ =~= seq![instruction(WrapOp::Halt, 0, 0)]);
    WrapPlan {
        driver: block_count,
        halt: block_count + 1,
        entry: block_count,
        driver_instructions,
        halt_instructions,
    }
}

} // verus!
