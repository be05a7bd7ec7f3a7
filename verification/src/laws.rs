//! Architecture-level laws: properties of the decoder and of the step
//! transition that hold for every state and every instruction word.

use vstd::prelude::*;

use crate::isa::{
    decode, lemma_decode_wf, lemma_field_bounds, nor, spec_opcode, wrap_add, wrap_offset,
    Instruction, MEMORY_SIZE,
};
use crate::machine::{
    fault_state, lemma_steps_spec_add, lemma_steps_spec_wf, next_count, step_faults, step_spec,
    steps_spec, MachineState, StepOutcome,
};

verus! {

/// Decoding is total: every 32-bit word decodes to a well-formed
/// instruction, and the 3-bit opcode alone selects which of the eight forms
/// it is. Determinism needs no separate statement: `decode` is a function of
/// the word alone.
pub proof fn lemma_decode_total(code: u32)
    ensures
        decode(code).wf(),
        decode(code) is Add <==> spec_opcode(code) == 0,
        decode(code) is Nor <==> spec_opcode(code) == 1,
        decode(code) is Lw <==> spec_opcode(code) == 2,
        decode(code) is Sw <==> spec_opcode(code) == 3,
        decode(code) is Beq <==> spec_opcode(code) == 4,
        decode(code) is Jalr <==> spec_opcode(code) == 5,
        decode(code) is Halt <==> spec_opcode(code) == 6,
        decode(code) is Noop <==> spec_opcode(code) == 7,
{
    lemma_field_bounds(code);
}

/// Wrapping addition is commutative, so the two source operands of an ADD
/// are interchangeable.
pub proof fn lemma_add_commutes(a: u32, b: u32)
    ensures
        wrap_add(a, b) == wrap_add(b, a),
{
}

/// Wrapping addition agrees with modular arithmetic: the sum is reduced
/// modulo 2^32, so an overflowing ADD wraps instead of faulting.
pub proof fn lemma_add_wraps(a: u32, b: u32)
    ensures
        wrap_add(a, b) == (a + b) % 0x1_0000_0000,
{
}

/// NOR obeys De Morgan's law: `!(a | b)` is `!a & !b`, bitwise, for all
/// words.
pub proof fn lemma_nor_de_morgan(a: u32, b: u32)
    ensures
        nor(a, b) == (!a) & (!b),
{
    assert(!(a | b) == (!a) & (!b)) by (bit_vector);
}

/// A store followed by a load through the same base register and a zero
/// offset reads back the stored value: after `SW reg_a, reg_b, 0` and
/// `LW reg_a, reg_c, 0`, register `reg_c` holds the value `reg_b` had.
/// The base address must lie in memory (else the store faults) and must not
/// be the address of the load instruction itself (else the store overwrites
/// it).
pub proof fn lemma_store_load_round_trip(s: MachineState, reg_a: u8, reg_b: u8, reg_c: u8)
    requires
        s.wf(),
        !s.halted,
        s.pc + 1 < MEMORY_SIZE,
        decode(s.mem[s.pc as int]) == (Instruction::Sw { reg_a, reg_b, offset_field: 0i16 }),
        decode(s.mem[s.pc as int + 1]) == (Instruction::Lw {
            reg_a,
            reg_b: reg_c,
            offset_field: 0i16,
        }),
        s.regs[reg_a as int] < MEMORY_SIZE,
        s.regs[reg_a as int] != s.pc + 1,
    ensures
        steps_spec(s, 2).regs[reg_c as int] == s.regs[reg_b as int],
        step_spec(s).1 == StepOutcome::Continued,
        step_spec(step_spec(s).0).1 == StepOutcome::Continued,
{
    lemma_decode_wf(s.mem[s.pc as int]);
    lemma_decode_wf(s.mem[s.pc as int + 1]);
    let stored = step_spec(s).0;
    assert(wrap_offset(s.regs[reg_a as int], 0i16) == s.regs[reg_a as int]);
    assert(stored.mem[s.pc as int + 1] == s.mem[s.pc as int + 1]);
    let loaded = step_spec(stored).0;
    assert(loaded.regs[reg_c as int] == s.regs[reg_b as int]);
    assert(steps_spec(s, 2) == steps_spec(stored, 1));
    assert(steps_spec(stored, 1) == steps_spec(loaded, 0));
    assert(steps_spec(loaded, 0) == loaded);
}

/// A branch is taken exactly when its two operands are equal: a taken
/// branch moves `pc` by the signed offset relative to the branch's own
/// address, an untaken one advances `pc` by one. Registers and memory are
/// untouched either way.
pub proof fn lemma_beq_taken_iff_equal(s: MachineState, reg_a: u8, reg_b: u8, offset_field: i16)
    requires
        s.wf(),
        !s.halted,
        s.pc < MEMORY_SIZE,
        decode(s.mem[s.pc as int]) == (Instruction::Beq { reg_a, reg_b, offset_field }),
    ensures
        step_spec(s).1 == StepOutcome::Continued,
        s.regs[reg_a as int] == s.regs[reg_b as int] ==> step_spec(s).0.pc == wrap_offset(
            s.pc,
            offset_field,
        ),
        s.regs[reg_a as int] != s.regs[reg_b as int] ==> step_spec(s).0.pc == s.pc + 1,
        step_spec(s).0.regs == s.regs,
        step_spec(s).0.mem == s.mem,
        !step_spec(s).0.halted,
{
}

/// Jump-and-link writes the return address `pc + 1` into `reg_b` and then
/// jumps to the address `reg_a` held; since the link is written first,
/// `reg_a == reg_b` jumps to the link value itself.
pub proof fn lemma_jalr(s: MachineState, reg_a: u8, reg_b: u8)
    requires
        s.wf(),
        !s.halted,
        s.pc < MEMORY_SIZE,
        decode(s.mem[s.pc as int]) == (Instruction::Jalr { reg_a, reg_b }),
    ensures
        step_spec(s).1 == StepOutcome::Continued,
        step_spec(s).0.regs == s.regs.update(reg_b as int, (s.pc + 1) as u32),
        reg_a != reg_b ==> step_spec(s).0.pc == s.regs[reg_a as int],
        reg_a == reg_b ==> step_spec(s).0.pc == s.pc + 1,
        step_spec(s).0.mem == s.mem,
{
    lemma_decode_wf(s.mem[s.pc as int]);
}

/// Executing a halt stops the machine: the halt itself is counted, `pc`
/// still advances by one for inspection, and registers and memory are
/// untouched.
pub proof fn lemma_halt_stops(s: MachineState)
    requires
        !s.halted,
        s.pc < MEMORY_SIZE,
        decode(s.mem[s.pc as int]) is Halt,
    ensures
        step_spec(s).1 == StepOutcome::HaltedThisStep,
        step_spec(s).0.halted,
        step_spec(s).0.pc == s.pc + 1,
        step_spec(s).0.regs == s.regs,
        step_spec(s).0.mem == s.mem,
        step_spec(s).0.count == next_count(s.count),
{
}

/// A halted machine is terminal: a step reports it as already halted and
/// changes nothing, and so any number of further steps leave the state —
/// registers, memory, pc, counter — exactly as it was.
pub proof fn lemma_halted_is_terminal(s: MachineState, n: nat)
    requires
        s.halted,
    ensures
        step_spec(s).0 == s,
        step_spec(s).1 == StepOutcome::AlreadyHalted,
        steps_spec(s, n) == s,
{
}

/// The counter counts executed instructions, and nothing else: it grows by
/// exactly one when an instruction is executed (a halt included), and stays
/// put when the machine was already halted or the step faulted. A program
/// of `k` instructions ending in a halt therefore ends with the counter at
/// `k`.
pub proof fn lemma_count_tracks_execution(s: MachineState)
    ensures
        step_spec(s).1 == StepOutcome::Continued || step_spec(s).1 == StepOutcome::HaltedThisStep
            ==> step_spec(s).0.count == next_count(s.count),
        step_spec(s).1 == StepOutcome::AlreadyHalted || step_spec(s).1
            == StepOutcome::MemoryFault ==> step_spec(s).0.count == s.count,
{
}

/// While the machine keeps running, the counter counts the steps: after `n`
/// steps that leave the machine unhalted, the counter has grown by exactly
/// `n` (stated below the 64-bit limit, where no wraparound intervenes).
pub proof fn lemma_counter_counts_running_steps(s: MachineState, n: nat)
    requires
        s.count + n <= u64::MAX,
        !steps_spec(s, n).halted,
    ensures
        steps_spec(s, n).count == s.count + n,
    decreases n,
{
    if n != 0 {
        assert(!s.halted);
        let s1 = step_spec(s).0;
        assert(steps_spec(s, n) == steps_spec(s1, (n - 1) as nat));
        if s1.halted {
            assert(steps_spec(s1, (n - 1) as nat) == s1);
        }
        assert(!s1.halted);
        assert(s1.count == next_count(s.count));
        lemma_counter_counts_running_steps(s1, (n - 1) as nat);
    }
}

/// A program of `k` instructions, the last of which halts the machine,
/// leaves the counter at exactly `k` more than it started: the first
/// `k - 1` executed instructions and the halting instruction itself are all
/// counted.
pub proof fn lemma_run_to_halt_counts(s: MachineState, k: nat)
    requires
        s.wf(),
        k >= 1,
        s.count + k <= u64::MAX,
        !steps_spec(s, (k - 1) as nat).halted,
        steps_spec(s, k).halted,
        !steps_spec(s, k).faulted,
    ensures
        steps_spec(s, k).count == s.count + k,
{
    let before_halt = steps_spec(s, (k - 1) as nat);
    lemma_steps_spec_add(s, (k - 1) as nat, 1);
    assert(steps_spec(before_halt, 1) == steps_spec(step_spec(before_halt).0, 0));
    assert(steps_spec(s, k) == step_spec(before_halt).0);
    lemma_counter_counts_running_steps(s, (k - 1) as nat);
    lemma_steps_spec_wf(s, (k - 1) as nat);
    assert(!before_halt.faulted);
    assert(step_spec(before_halt).0.count == next_count(before_halt.count));
}

/// A step faults exactly when the machine is running and the fetch address,
/// or the address of a load or store, lies outside the memory; the fault
/// halts the machine, records the fault, and leaves registers, memory, pc
/// and counter untouched.
pub proof fn lemma_fault_iff_out_of_range(s: MachineState)
    ensures
        step_spec(s).1 == StepOutcome::MemoryFault <==> step_faults(s),
        step_faults(s) ==> step_spec(s).0 == fault_state(s),
        step_faults(s) ==> step_spec(s).0.halted && step_spec(s).0.faulted,
{
}

} // verus!
