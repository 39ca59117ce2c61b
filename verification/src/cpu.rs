//! The architectural state of the processor, and the boundary at which the
//! execution loop reads the loaded image.
//!
//! Instructions are not decoded here.  One step fetches the half-word at the
//! program counter, moves the program counter past it and halts.

use vstd::prelude::*;
use crate::memory::{half_at, AddressSpace};

verus! {

/// The number of core registers: thirteen general ones, the stack pointer,
/// the link register and the program counter.
pub const REGISTER_COUNT: usize = 16;

/// The index of the program counter in the register file.
pub const PC: usize = 15;

/// The address at which execution begins.
pub const START_OFFSET: u32 = 0x0000;

/// The width in bytes of an instruction as it is fetched.
pub const INSTRUCTION_WIDTH: u32 = 2;

/// The zero flag of the condition flags.
pub const ZERO_FLAG: u32 = 0x4000_0000;

/// The condition flags after a result that was not positive.
pub const NON_POSITIVE_FLAGS: u32 = ZERO_FLAG;

/// The registers and the condition flags.
#[derive(Clone, Copy, Debug, PartialEq, Eq)]
pub struct ArchitecturalState {
    /// The core registers.
    pub registers: [u32; 16],
    /// The condition flags.
    pub apsr: u32,
}

/// Whether the processor runs.
#[derive(Clone, Copy, Debug, PartialEq, Eq, Structural)]
pub enum RunState {
    /// The next step fetches an instruction.
    Running,
    /// Execution has ended.
    Halted,
    /// The program counter left the address space.
    Faulted,
}

/// The register file after a reset.
pub open spec fn reset_registers() -> Seq<u32> {
    Seq::new(16, |i: int| if i == PC { START_OFFSET } else { 0u32 })
}

/// Whether an instruction can be fetched at `pc` from a memory of `size`
/// bytes.
pub open spec fn can_fetch(size: nat, pc: u32) -> bool {
    pc + INSTRUCTION_WIDTH <= size
}

/// The program counter after the instruction at `pc`.
pub open spec fn advanced(pc: u32) -> u32 {
    if pc + INSTRUCTION_WIDTH > u32::MAX {
        (pc + INSTRUCTION_WIDTH - 0x1_0000_0000) as u32
    } else {
        (pc + INSTRUCTION_WIDTH) as u32
    }
}

/// The run state after a step.
pub open spec fn run_after(run: RunState, size: nat, pc: u32) -> RunState {
    if run != RunState::Running {
        run
    } else if can_fetch(size, pc) {
        RunState::Halted
    } else {
        RunState::Faulted
    }
}

/// The register file after a step.
pub open spec fn registers_after(run: RunState, size: nat, registers: Seq<u32>) -> Seq<u32> {
    if run == RunState::Running && can_fetch(size, registers[PC as int]) {
        registers.update(PC as int, advanced(registers[PC as int]))
    } else {
        registers
    }
}

/// The half-word that a step fetches, if it fetches one.
pub open spec fn fetched(run: RunState, memory: Seq<u8>, pc: u32) -> Option<u16> {
    if run == RunState::Running && can_fetch(memory.len(), pc) {
        Some(half_at(memory, pc as int))
    } else {
        None
    }
}

impl ArchitecturalState {
    /// The state in which execution begins: every register zero, the program
    /// counter at the start offset, the condition flags those of a result
    /// that was not positive.
    pub fn reset() -> (state: Self)
        ensures
            state.registers@ == reset_registers(),
            state.apsr == NON_POSITIVE_FLAGS,
    {
        let mut registers: [u32; 16] = [0u32; 16];
        registers[PC] = START_OFFSET;
        assert(registers@ =~= reset_registers());
        ArchitecturalState { registers, apsr: NON_POSITIVE_FLAGS }
    }

    /// The program counter.
    pub fn pc(&self) -> (pc: u32)
        ensures
            pc == self.registers@[PC as int],
    {
        self.registers[PC]
    }
}

/// Reads the instruction at `address`, more significant byte first.
pub fn fetch(memory: &AddressSpace, address: usize) -> (instruction: u16)
    requires
        address + INSTRUCTION_WIDTH <= memory@.len(),
    ensures
        instruction == half_at(memory@, address as int),
{
    memory.read_u16(address)
}

/// Takes one step of the execution loop.
///
/// A processor that runs fetches the instruction at the program counter,
/// moves the program counter past it, and halts; if the instruction does not
/// lie in the address space, it faults and nothing else changes.  A processor
/// that does not run stays as it is.
pub fn step(state: &mut ArchitecturalState, run: RunState, memory: &AddressSpace) -> (res: (
    RunState,
    Option<u16>,
))
    ensures
        res.0 == run_after(run, memory@.len(), old(state).registers@[PC as int]),
        res.1 == fetched(run, memory@, old(state).registers@[PC as int]),
        final(state).registers@ == registers_after(run, memory@.len(), old(state).registers@),
        final(state).apsr == old(state).apsr,
{
    if run != RunState::Running {
        return (run, None);
    }
    let pc: u32 = state.registers[PC];
    if pc as u64 + INSTRUCTION_WIDTH as u64 > memory.len() as u64 {
        return (RunState::Faulted, None);
    }
    let instruction: u16 = fetch(memory, pc as usize);
    state.registers[PC] = pc.wrapping_add(INSTRUCTION_WIDTH);
    assert(state.registers@ =~= registers_after(run, memory@.len(), old(state).registers@));
    (RunState::Halted, Some(instruction))
}

} // verus!
