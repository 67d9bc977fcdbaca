pub mod instructions;
pub mod memory;
pub mod display;
pub mod keyboard;
pub mod cycles;
pub mod cpu;

use vstd::prelude::*;
use crate::cpu::{CPU, Fault, executed};
use crate::display::{Display, blank};
use crate::instructions::Instruction;
use crate::keyboard::Keyboard;
use crate::memory::{RAM, RAM_INTPT_OFFSET, RAM_SIZE, INTPT_SPRITES, word_at, loaded_len};
use crate::instructions::read_result;

verus! {

/// The whole machine: processor, memory, keypad and screen.
pub struct Chip8 {
    pub cpu: CPU,
    pub ram: RAM,
    pub keyboard: Keyboard,
    pub display: Display,
}

impl Default for Chip8 {
    fn default() -> (r: Chip8)
        ensures
            r.cpu@.v == Seq::new(16, |j: int| 0u8),
            r.cpu@.i == 0,
            r.cpu@.delay == 0,
            r.cpu@.sound == 0,
            r.cpu@.pc == 0,
            r.cpu@.stack.len() == 0,
            r.ram@.len() == RAM_SIZE,
            forall|i: int| 0 <= i < 80 ==> r.ram@[i] == INTPT_SPRITES@[i],
            forall|i: int| 80 <= i < RAM_SIZE ==> r.ram@[i] == 0,
            forall|k: int| 0 <= k < 16 ==> !#[trigger] r.keyboard.key_states@[k],
            r.keyboard.last_pressed is None,
            r.display@ == blank(),
            !r.display.dirty,
    {
        let cpu = CPU::default();
        let ram = RAM::default();
        let keyboard = Keyboard::default();
        let display = Display::default();
        Chip8 { cpu, ram, keyboard, display }
    }
}

impl Chip8 {
    /// Runs one instruction against the machine's own memory, keypad and screen.
    pub fn execute(&mut self, instruction: Instruction) -> (r: Result<(), Fault>)
        ensures
            exists|random: u8|
                #[trigger] executed(
                    old(self).cpu@,
                    old(self).ram@,
                    old(self).display,
                    old(self).keyboard,
                    instruction,
                    random,
                    r,
                    final(self).cpu@,
                    final(self).ram@,
                    final(self).display,
                ),
            final(self).keyboard == old(self).keyboard,
    {
        let ghost pre = *self;
        let r = self.cpu.execute(&mut self.ram, &self.keyboard, &mut self.display, instruction);
        proof {
            let random = choose|random: u8|
                #[trigger] executed(
                    pre.cpu@,
                    pre.ram@,
                    pre.display,
                    pre.keyboard,
                    instruction,
                    random,
                    r,
                    self.cpu@,
                    self.ram@,
                    self.display,
                );
            assert(executed(pre.cpu@, pre.ram@, pre.display, pre.keyboard, instruction, random, r, self.cpu@, self.ram@, self.display));
        }
        r
    }

    /// Fetches the instruction at the program counter and runs it. A program
    /// counter past the last full word of memory, or a word that encodes no
    /// instruction, is a fault that changes nothing.
    pub fn step(&mut self) -> (r: Result<(), Fault>)
        ensures
            final(self).keyboard == old(self).keyboard,
            old(self).cpu.program_counter + 1 >= RAM_SIZE ==> r == Err::<(), Fault>(
                Fault::InvalidFetch(old(self).cpu.program_counter),
            ) && *final(self) == *old(self),
            old(self).cpu.program_counter + 1 < RAM_SIZE ==> {
                let w = word_at(old(self).ram@, old(self).cpu.program_counter as int);
                match read_result(w) {
                    Err(_) => r == Err::<(), Fault>(Fault::InvalidInstruction(w)) && *final(self) == *old(self),
                    Ok(i) => exists|random: u8|
                        #[trigger] executed(
                            old(self).cpu@,
                            old(self).ram@,
                            old(self).display,
                            old(self).keyboard,
                            i,
                            random,
                            r,
                            final(self).cpu@,
                            final(self).ram@,
                            final(self).display,
                        ),
                }
            },
    {
        let pc = self.cpu.program_counter;
        if pc as usize + 1 >= RAM_SIZE {
            return Err(Fault::InvalidFetch(pc));
        }
        match self.ram.read_instruction(pc as usize) {
            Err(e) => Err(Fault::InvalidInstruction(e.word())),
            Ok(inst) => self.execute(inst),
        }
    }

    /// Copies a program into the program region, as much as fits, and points
    /// the program counter at its start.
    pub fn load_program(&mut self, program_data: &[u8])
        ensures
            final(self).cpu@ == (cpu::CpuState { pc: RAM_INTPT_OFFSET as u16, ..old(self).cpu@ }),
            final(self).ram@ == old(self).ram@.subrange(0, RAM_INTPT_OFFSET as int)
                + program_data@.subrange(0, loaded_len(program_data@.len()))
                + old(self).ram@.subrange(RAM_INTPT_OFFSET + loaded_len(program_data@.len()), RAM_SIZE as int),
            final(self).keyboard == old(self).keyboard,
            final(self).display == old(self).display,
    {
        let program_offset = self.ram.copy_program(program_data);
        self.cpu.program_counter = program_offset as u16;
    }
}

} // verus!
