//! The execution engine: machine state, the one-step transition function,
//! and the engine type that implements it.

use vstd::prelude::*;

use crate::isa::{
    decode, lemma_decode_wf, nor, nor_words, offset_memory, wrap_add, wrap_offset, add_words,
    Instruction, MEMORY_SIZE, REGISTER_COUNT,
};

verus! {

/// A construction-time or step-time failure of the engine.
#[derive(Clone, Copy, Debug, PartialEq, Eq, Structural)]
pub enum MachineError {
    /// The program image holds more words than the memory.
    ImageTooLarge,
    /// An address outside the memory was used.
    MemoryFault,
}

/// What one call of `step` did.
#[derive(Clone, Copy, Debug, PartialEq, Eq, Structural)]
pub enum StepOutcome {
    /// An instruction was executed and the machine keeps running.
    Continued,
    /// The instruction executed this step was a halt.
    HaltedThisStep,
    /// The machine was already halted; nothing changed.
    AlreadyHalted,
    /// The fetch, load or store address was outside the memory; the machine
    /// is halted with the fault recorded.
    MemoryFault,
}

/// The abstract machine state: the model every contract speaks of.
pub ghost struct MachineState {
    /// The eight register values.
    pub regs: Seq<u32>,
    /// The 65536 memory words.
    pub mem: Seq<u32>,
    /// The program counter: the word index of the next instruction.
    pub pc: u32,
    /// Whether the machine has stopped for good.
    pub halted: bool,
    /// Whether the stop was caused by a memory fault.
    pub faulted: bool,
    /// How many instructions have been executed.
    pub count: u64,
}

impl MachineState {
    /// The state has the fixed register and memory shape, and a fault
    /// implies a halt.
    pub open spec fn wf(self) -> bool {
        &&& self.regs.len() == REGISTER_COUNT
        &&& self.mem.len() == MEMORY_SIZE
        &&& (self.faulted ==> self.halted)
    }
}

/// The executed-instruction counter after one more instruction, wrapping at
/// the 64-bit limit.
pub open spec fn next_count(count: u64) -> u64 {
    if count == u64::MAX {
        0
    } else {
        (count + 1) as u64
    }
}

/// The state after a memory fault: halted with the fault recorded, and
/// registers, memory, pc and counter untouched.
pub open spec fn fault_state(s: MachineState) -> MachineState {
    MachineState { halted: true, faulted: true, ..s }
}

/// The machine state produced by loading an image: memory holds the image
/// words followed by zeroes, every register is zero, and execution starts
/// at address 0.
pub open spec fn init_state(image: Seq<u32>) -> MachineState {
    MachineState {
        regs: Seq::new(REGISTER_COUNT as nat, |i: int| 0u32),
        mem: Seq::new(
            MEMORY_SIZE as nat,
            |i: int| if 0 <= i < image.len() { image[i] } else { 0u32 },
        ),
        pc: 0u32,
        halted: false,
        faulted: false,
        count: 0u64,
    }
}

/// The entire observable semantics of the machine: what one step does to a
/// state, and what outcome it reports.
///
/// A halted machine is left untouched. Otherwise the word at `pc` is fetched
/// (a fault if `pc` is outside the memory), decoded, and applied; every
/// executed instruction bumps the counter, and `pc` either advances by one,
/// is redirected by a taken branch or a jump, or stays put on a fault.
pub open spec fn step_spec(s: MachineState) -> (MachineState, StepOutcome) {
    if s.halted {
        (s, StepOutcome::AlreadyHalted)
    } else if s.pc >= MEMORY_SIZE {
        (fault_state(s), StepOutcome::MemoryFault)
    } else {
        let advanced = MachineState { pc: (s.pc + 1) as u32, count: next_count(s.count), ..s };
        match decode(s.mem[s.pc as int]) {
            Instruction::Add { reg_a, reg_b, dst_reg } => (
                MachineState {
                    regs: s.regs.update(
                        dst_reg as int,
                        wrap_add(s.regs[reg_a as int], s.regs[reg_b as int]),
                    ),
                    ..advanced
                },
                StepOutcome::Continued,
            ),
            Instruction::Nor { reg_a, reg_b, dst_reg } => (
                MachineState {
                    regs: s.regs.update(
                        dst_reg as int,
                        nor(s.regs[reg_a as int], s.regs[reg_b as int]),
                    ),
                    ..advanced
                },
                StepOutcome::Continued,
            ),
            Instruction::Lw { reg_a, reg_b, offset_field } => {
                let addr = wrap_offset(s.regs[reg_a as int], offset_field);
                if addr >= MEMORY_SIZE {
                    (fault_state(s), StepOutcome::MemoryFault)
                } else {
                    (
                        MachineState {
                            regs: s.regs.update(reg_b as int, s.mem[addr as int]),
                            ..advanced
                        },
                        StepOutcome::Continued,
                    )
                }
            },
            Instruction::Sw { reg_a, reg_b, offset_field } => {
                let addr = wrap_offset(s.regs[reg_a as int], offset_field);
                if addr >= MEMORY_SIZE {
                    (fault_state(s), StepOutcome::MemoryFault)
                } else {
                    (
                        MachineState {
                            mem: s.mem.update(addr as int, s.regs[reg_b as int]),
                            ..advanced
                        },
                        StepOutcome::Continued,
                    )
                }
            },
            Instruction::Beq { reg_a, reg_b, offset_field } => (
                MachineState {
                    pc: if s.regs[reg_a as int] == s.regs[reg_b as int] {
                        wrap_offset(s.pc, offset_field)
                    } else {
                        (s.pc + 1) as u32
                    },
                    count: next_count(s.count),
                    ..s
                },
                StepOutcome::Continued,
            ),
            Instruction::Jalr { reg_a, reg_b } => {
                let linked = s.regs.update(reg_b as int, (s.pc + 1) as u32);
                (
                    MachineState {
                        regs: linked,
                        pc: linked[reg_a as int],
                        count: next_count(s.count),
                        ..s
                    },
                    StepOutcome::Continued,
                )
            },
            Instruction::Halt => (
                MachineState { halted: true, ..advanced },
                StepOutcome::HaltedThisStep,
            ),
            Instruction::Noop => (advanced, StepOutcome::Continued),
        }
    }
}

/// Whether a step from `s` stops on a memory fault: the machine is running
/// and either the fetch address or a load/store address lies outside the
/// memory.
pub open spec fn step_faults(s: MachineState) -> bool {
    !s.halted && (s.pc >= MEMORY_SIZE || {
        match decode(s.mem[s.pc as int]) {
            Instruction::Lw { reg_a, offset_field, .. } => {
                wrap_offset(s.regs[reg_a as int], offset_field) >= MEMORY_SIZE
            },
            Instruction::Sw { reg_a, offset_field, .. } => {
                wrap_offset(s.regs[reg_a as int], offset_field) >= MEMORY_SIZE
            },
            _ => false,
        }
    })
}

/// The state after up to `n` steps, stopping as soon as the machine halts.
pub open spec fn steps_spec(s: MachineState, n: nat) -> MachineState
    decreases n,
{
    if n == 0 || s.halted {
        s
    } else {
        steps_spec(step_spec(s).0, (n - 1) as nat)
    }
}

/// Stepping composes: `m + n` steps reach the same state as `m` steps
/// followed by `n` more.
pub proof fn lemma_steps_spec_add(s: MachineState, m: nat, n: nat)
    ensures
        steps_spec(s, m + n) == steps_spec(steps_spec(s, m), n),
    decreases m,
{
    if s.halted {
        assert(steps_spec(s, m + n) == s);
        assert(steps_spec(s, m) == s);
        assert(steps_spec(s, n) == s);
    } else if m == 0 {
        assert(steps_spec(s, 0) == s);
    } else {
        let s1 = step_spec(s).0;
        assert(steps_spec(s, m + n) == steps_spec(s1, (m + n - 1) as nat));
        assert(steps_spec(s, m) == steps_spec(s1, (m - 1) as nat));
        lemma_steps_spec_add(s1, (m - 1) as nat, n);
    }
}

/// One step preserves well-formedness of the state.
pub proof fn lemma_step_spec_wf(s: MachineState)
    requires
        s.wf(),
    ensures
        step_spec(s).0.wf(),
{
    if !s.halted && s.pc < MEMORY_SIZE {
        lemma_decode_wf(s.mem[s.pc as int]);
    }
}

/// Any number of steps preserves well-formedness of the state.
pub proof fn lemma_steps_spec_wf(s: MachineState, n: nat)
    requires
        s.wf(),
    ensures
        steps_spec(s, n).wf(),
    decreases n,
{
    if n != 0 && !s.halted {
        lemma_step_spec_wf(s);
        lemma_steps_spec_wf(step_spec(s).0, (n - 1) as nat);
    }
}

/// The emulated machine: register file, memory image, program counter,
/// halt and fault flags, and the executed-instruction counter.
#[derive(Debug)]
pub struct CPU {
    register_file: Vec<u32>,
    memory: Vec<u32>,
    pc: u32,
    halted: bool,
    faulted: bool,
    instruction_count: u64,
}

impl View for CPU {
    type V = MachineState;

    closed spec fn view(&self) -> MachineState {
        MachineState {
            regs: self.register_file@,
            mem: self.memory@,
            pc: self.pc,
            halted: self.halted,
            faulted: self.faulted,
            count: self.instruction_count,
        }
    }
}

impl CPU {
    /// The engine's representation matches the fixed machine shape.
    pub open spec fn wf(&self) -> bool {
        self@.wf()
    }

    /// Build a machine from a program image: the image words go to the
    /// start of memory, the rest of memory and all registers are zero, and
    /// execution starts at address 0. An image longer than the memory is
    /// rejected.
    pub fn new(image: &[u32]) -> (result: Result<CPU, MachineError>)
        ensures
            image@.len() <= MEMORY_SIZE ==> (result matches Ok(cpu) && cpu.wf() && cpu@
                == init_state(image@)),
            image@.len() > MEMORY_SIZE ==> (result matches Err(e) && e
                == MachineError::ImageTooLarge),
    {
        if image.len() > MEMORY_SIZE {
            return Err(MachineError::ImageTooLarge);
        }
        let mut register_file: Vec<u32> = Vec::new();
        while register_file.len() < REGISTER_COUNT
            invariant
                register_file@.len() <= REGISTER_COUNT,
                forall|j: int| 0 <= j < register_file@.len() ==> register_file@[j] == 0u32,
            decreases REGISTER_COUNT - register_file@.len(),
        {
            register_file.push(0);
        }
        let mut memory: Vec<u32> = Vec::new();
        let mut i: usize = 0;
        while i < image.len()
            invariant
                i == memory@.len(),
                i <= image@.len() <= MEMORY_SIZE,
                forall|j: int| 0 <= j < i ==> memory@[j] == image@[j],
            decreases image@.len() - i,
        {
            memory.push(image[i]);
            i += 1;
        }
        while memory.len() < MEMORY_SIZE
            invariant
                image@.len() <= memory@.len() <= MEMORY_SIZE,
                forall|j: int| 0 <= j < memory@.len() ==> memory@[j] == (if j < image@.len() {
                    image@[j]
                } else {
                    0u32
                }),
            decreases MEMORY_SIZE - memory@.len(),
        {
            memory.push(0);
        }
        let cpu = CPU {
            register_file,
            memory,
            pc: 0,
            halted: false,
            faulted: false,
            instruction_count: 0,
        };
        proof {
            assert(cpu@.regs =~= init_state(image@).regs);
            assert(cpu@.mem =~= init_state(image@).mem);
        }
        Ok(cpu)
    }

    /// Read one register.
    pub fn read_register(&self, register: u8) -> (value: u32)
        requires
            self.wf(),
            register < REGISTER_COUNT,
        ensures
            value == self@.regs[register as int],
    {
        self.register_file[register as usize]
    }

    /// The current program counter.
    pub fn read_pc(&self) -> (pc: u32)
        ensures
            pc == self@.pc,
    {
        self.pc
    }

    /// How many instructions have been executed so far.
    pub fn read_instruction_count(&self) -> (count: u64)
        ensures
            count == self@.count,
    {
        self.instruction_count
    }

    /// Whether the machine has halted.
    pub fn is_halted(&self) -> (halted: bool)
        ensures
            halted == self@.halted,
    {
        self.halted
    }

    /// Whether the machine stopped on a memory fault.
    pub fn has_faulted(&self) -> (faulted: bool)
        ensures
            faulted == self@.faulted,
    {
        self.faulted
    }

    /// Copy out a window of memory. A window that leaves the address space
    /// is a fault, reported rather than read.
    pub fn read_memory_range(&self, start_addr: u32, count: u32) -> (result: Result<
        Vec<u32>,
        MachineError,
    >)
        requires
            self.wf(),
        ensures
            (result is Ok) <==> start_addr + count <= MEMORY_SIZE,
            result matches Ok(window) ==> window@ == self@.mem.subrange(
                start_addr as int,
                start_addr + count,
            ),
            result matches Err(e) ==> e == MachineError::MemoryFault,
    {
        if (start_addr as u64) + (count as u64) > (MEMORY_SIZE as u64) {
            return Err(MachineError::MemoryFault);
        }
        let start = start_addr as usize;
        let n = count as usize;
        let mut window: Vec<u32> = Vec::new();
        let mut i: usize = 0;
        while i < n
            invariant
                self.wf(),
                i == window@.len() <= n,
                start == start_addr,
                n == count,
                start + n <= MEMORY_SIZE,
                forall|j: int| 0 <= j < i ==> window@[j] == self@.mem[start + j],
            decreases n - i,
        {
            window.push(self.memory[start + i]);
            i += 1;
        }
        proof {
            assert(window@ =~= self@.mem.subrange(start_addr as int, start_addr + count));
        }
        Ok(window)
    }

    /// Decode the next `count` memory words starting at `pc` without
    /// executing them: a read-only disassembly window of address/instruction
    /// pairs. A window that leaves the address space is a fault.
    pub fn peek_instructions(&self, count: usize) -> (result: Result<
        Vec<(u32, Instruction)>,
        MachineError,
    >)
        requires
            self.wf(),
        ensures
            (result is Ok) <==> self@.pc + count <= MEMORY_SIZE,
            result matches Ok(window) ==> {
                &&& window@.len() == count
                &&& forall|j: int|
                    0 <= j < count ==> #[trigger] window@[j] == (
                        (self@.pc + j) as u32,
                        decode(self@.mem[self@.pc + j]),
                    )
            },
            result matches Err(e) ==> e == MachineError::MemoryFault,
    {
        if count > MEMORY_SIZE || (self.pc as u64) + (count as u64) > (MEMORY_SIZE as u64) {
            return Err(MachineError::MemoryFault);
        }
        let mut window: Vec<(u32, Instruction)> = Vec::new();
        let mut i: usize = 0;
        while i < count
            invariant
                self.wf(),
                i == window@.len() <= count,
                self@.pc + count <= MEMORY_SIZE,
                forall|j: int|
                    0 <= j < i ==> #[trigger] window@[j] == (
                        (self@.pc + j) as u32,
                        decode(self@.mem[self@.pc + j]),
                    ),
            decreases count - i,
        {
            let addr = self.pc + (i as u32);
            let word = self.memory[addr as usize];
            window.push((addr, Instruction::new(word)));
            i += 1;
        }
        Ok(window)
    }

    /// Read one register of the register file.
    fn get_register(&self, register: u8) -> (value: u32)
        requires
            self.wf(),
            register < REGISTER_COUNT,
        ensures
            value == self@.regs[register as int],
    {
        self.register_file[register as usize]
    }

    /// Overwrite one register of the register file.
    fn set_register(&mut self, register: u8, value: u32)
        requires
            old(self).wf(),
            register < REGISTER_COUNT,
        ensures
            final(self).wf(),
            final(self)@ == (MachineState {
                regs: old(self)@.regs.update(register as int, value),
                ..old(self)@
            }),
    {
        self.register_file[register as usize] = value;
    }

    /// Record that one more instruction was executed.
    fn count_one_instruction(&mut self)
        requires
            old(self).wf(),
        ensures
            final(self).wf(),
            final(self)@ == (MachineState { count: next_count(old(self)@.count), ..old(self)@ }),
    {
        self.instruction_count = if self.instruction_count == u64::MAX {
            0
        } else {
            self.instruction_count + 1
        };
    }

    /// Execute one instruction, exactly as `step_spec` describes: fetch the
    /// word at `pc`, decode it, apply it, and count it. A halted machine is
    /// left untouched; an out-of-range fetch, load or store address halts
    /// the machine with the fault recorded instead of touching any state.
    pub fn step(&mut self) -> (outcome: StepOutcome)
        requires
            old(self).wf(),
        ensures
            final(self).wf(),
            final(self)@ == step_spec(old(self)@).0,
            outcome == step_spec(old(self)@).1,
    {
        if self.halted {
            return StepOutcome::AlreadyHalted;
        }
        if self.pc as usize >= MEMORY_SIZE {
            self.halted = true;
            self.faulted = true;
            return StepOutcome::MemoryFault;
        }
        let code = self.memory[self.pc as usize];
        let instruction = Instruction::new(code);
        proof {
            lemma_decode_wf(code);
        }
        match instruction {
            Instruction::Add { reg_a, reg_b, dst_reg } => {
                let sum = add_words(self.get_register(reg_a), self.get_register(reg_b));
                self.set_register(dst_reg, sum);
                self.pc = self.pc + 1;
                self.count_one_instruction();
                StepOutcome::Continued
            },
            Instruction::Nor { reg_a, reg_b, dst_reg } => {
                let value = nor_words(self.get_register(reg_a), self.get_register(reg_b));
                self.set_register(dst_reg, value);
                self.pc = self.pc + 1;
                self.count_one_instruction();
                StepOutcome::Continued
            },
            Instruction::Lw { reg_a, reg_b, offset_field } => {
                let addr = offset_memory(self.get_register(reg_a), offset_field);
                if addr as usize >= MEMORY_SIZE {
                    self.halted = true;
                    self.faulted = true;
                    return StepOutcome::MemoryFault;
                }
                let value = self.memory[addr as usize];
                self.set_register(reg_b, value);
                self.pc = self.pc + 1;
                self.count_one_instruction();
                StepOutcome::Continued
            },
            Instruction::Sw { reg_a, reg_b, offset_field } => {
                let addr = offset_memory(self.get_register(reg_a), offset_field);
                if addr as usize >= MEMORY_SIZE {
                    self.halted = true;
                    self.faulted = true;
                    return StepOutcome::MemoryFault;
                }
                let value = self.get_register(reg_b);
                self.memory[addr as usize] = value;
                self.pc = self.pc + 1;
                self.count_one_instruction();
                StepOutcome::Continued
            },
            Instruction::Beq { reg_a, reg_b, offset_field } => {
                if self.get_register(reg_a) == self.get_register(reg_b) {
                    self.pc = offset_memory(self.pc, offset_field);
                } else {
                    self.pc = self.pc + 1;
                }
                self.count_one_instruction();
                StepOutcome::Continued
            },
            Instruction::Jalr { reg_a, reg_b } => {
                let link = self.pc + 1;
                self.set_register(reg_b, link);
                let target = self.get_register(reg_a);
                self.pc = target;
                self.count_one_instruction();
                StepOutcome::Continued
            },
            Instruction::Halt => {
                self.pc = self.pc + 1;
                self.halted = true;
                self.count_one_instruction();
                StepOutcome::HaltedThisStep
            },
            Instruction::Noop => {
                self.pc = self.pc + 1;
                self.count_one_instruction();
                StepOutcome::Continued
            },
        }
    }

    /// Apply `step` up to `count` times, stopping as soon as the machine
    /// halts; report whether it is halted afterwards.
    pub fn step_n(&mut self, count: usize) -> (halted: bool)
        requires
            old(self).wf(),
        ensures
            final(self).wf(),
            final(self)@ == steps_spec(old(self)@, count as nat),
            halted == final(self)@.halted,
    {
        let mut i: usize = 0;
        while i < count && !self.halted
            invariant
                old(self).wf(),
                self.wf(),
                i <= count,
                steps_spec(old(self)@, count as nat) == steps_spec(self@, (count - i) as nat),
            decreases count - i,
        {
            self.step();
            i += 1;
        }
        proof {
            if self@.halted {
                assert(steps_spec(self@, (count - i) as nat) == self@);
            }
        }
        self.halted
    }
}

} // verus!
