use vstd::prelude::*;
use crate::display::{blank, blit, collides, Display};
use crate::instructions::Instruction;
use crate::keyboard::Keyboard;
use crate::memory::{RAM, RAM_SIZE, INTPT_SPRITE_LENGTH};

pub use crate::cycles::Coordinator;

verus! {

/// The deepest the call stack may grow.
pub const STACK_DEPTH: usize = 16;

/// The index of the flag register VF.
pub const FLAG_REGISTER: usize = 0xF;

/// Why an instruction cannot run. Every fault is fatal to the program.
#[derive(Debug, Clone, Copy, PartialEq, Eq, Structural)]
pub enum Fault {
    /// The program counter points past the last full word of memory.
    InvalidFetch(u16),
    /// The word at the program counter encodes no instruction.
    InvalidInstruction(u16),
    /// The deprecated machine-code call `SYS`, with its address.
    Unsupported(u16),
    /// `RET` with an empty call stack.
    StackUnderflow,
    /// `CALL` with a full call stack.
    StackOverflow,
    /// A register operand that is not 0 to 15.
    RegisterOutOfRange(u8),
    /// A key index, read from a register, that is not 0 to 15.
    KeyOutOfRange(u8),
    /// A memory range that reaches past the end of memory.
    MemoryOutOfRange,
    /// A program counter or address register that would pass `u16::MAX`.
    AddressOverflow,
}

/// Relies on `rand::random::<u8>`: a byte from the thread-local generator.
/// Nothing is known of its value.
#[verifier::external_body]
fn random_byte() -> (r: u8) {
    rand::random::<u8>()
}

/// The registers, timers, program counter and call stack of the processor.
#[derive(Debug)]
pub struct CPU {
    pub v_reg: [u8; 16],
    pub i_reg: u16,
    pub delay_timer: u8,
    pub sound_timer: u8,
    pub program_counter: u16,
    pub stack: Vec<u16>,
}

/// The state of a processor as plain values.
#[verifier::ext_equal]
pub struct CpuState {
    pub v: Seq<u8>,
    pub i: u16,
    pub delay: u8,
    pub sound: u8,
    pub pc: u16,
    pub stack: Seq<u16>,
}

impl View for CPU {
    type V = CpuState;

    open spec fn view(&self) -> CpuState {
        CpuState {
            v: self.v_reg@,
            i: self.i_reg,
            delay: self.delay_timer,
            sound: self.sound_timer,
            pc: self.program_counter,
            stack: self.stack@,
        }
    }
}

/// A fault for the first of two register operands that is out of range.
pub open spec fn register_fault(a: u8, b: u8) -> Option<Fault> {
    if a >= 16 {
        Some(Fault::RegisterOutOfRange(a))
    } else if b >= 16 {
        Some(Fault::RegisterOutOfRange(b))
    } else {
        None
    }
}

/// A fault for a skip that is taken when the program counter cannot move past
/// the next word.
pub open spec fn skip_fault(s: CpuState, taken: bool) -> Option<Fault> {
    if taken && s.pc + 4 > u16::MAX {
        Some(Fault::AddressOverflow)
    } else {
        None
    }
}

/// Why `instr` cannot run on `s` with key states `keys`, or `None` when it can.
pub open spec fn fault_of(s: CpuState, keys: Seq<bool>, instr: Instruction) -> Option<Fault> {
    if s.pc + 2 > u16::MAX {
        Some(Fault::AddressOverflow)
    } else {
        match instr {
            Instruction::SYS(a) => Some(Fault::Unsupported(a)),
            Instruction::CLS => None,
            Instruction::RET => if s.stack.len() == 0 {
                Some(Fault::StackUnderflow)
            } else {
                None
            },
            Instruction::JP(_) => None,
            Instruction::CALL(_) => if s.stack.len() >= STACK_DEPTH {
                Some(Fault::StackOverflow)
            } else {
                None
            },
            Instruction::SE_RV(r, k) => if r >= 16 {
                Some(Fault::RegisterOutOfRange(r))
            } else {
                skip_fault(s, s.v[r as int] == k)
            },
            Instruction::SNE_RV(r, k) => if r >= 16 {
                Some(Fault::RegisterOutOfRange(r))
            } else {
                skip_fault(s, s.v[r as int] != k)
            },
            Instruction::SE_RR(a, b) => if register_fault(a, b) is Some {
                register_fault(a, b)
            } else {
                skip_fault(s, s.v[a as int] == s.v[b as int])
            },
            Instruction::SNE_RR(a, b) => if register_fault(a, b) is Some {
                register_fault(a, b)
            } else {
                skip_fault(s, s.v[a as int] != s.v[b as int])
            },
            Instruction::LD_RV(r, _) => register_fault(r, 0),
            Instruction::ADD_RV(r, _) => register_fault(r, 0),
            Instruction::LD_RR(a, b) => register_fault(a, b),
            Instruction::OR(a, b) => register_fault(a, b),
            Instruction::AND(a, b) => register_fault(a, b),
            Instruction::XOR(a, b) => register_fault(a, b),
            Instruction::ADD_RR(a, b) => register_fault(a, b),
            Instruction::SUB(a, b) => register_fault(a, b),
            Instruction::SHR(a, _) => register_fault(a, 0),
            Instruction::SUBN(a, b) => register_fault(a, b),
            Instruction::SHL(a, _) => register_fault(a, 0),
            Instruction::LD_IV(_) => None,
            Instruction::JP_RV(a) => if a + s.v[0] > u16::MAX {
                Some(Fault::AddressOverflow)
            } else {
                None
            },
            Instruction::RND(r, _) => register_fault(r, 0),
            Instruction::DRW(x, y, n) => if register_fault(x, y) is Some {
                register_fault(x, y)
            } else if s.i + n > RAM_SIZE {
                Some(Fault::MemoryOutOfRange)
            } else {
                None
            },
            Instruction::SKP(r) => if r >= 16 {
                Some(Fault::RegisterOutOfRange(r))
            } else if s.v[r as int] >= 16 {
                Some(Fault::KeyOutOfRange(s.v[r as int]))
            } else {
                skip_fault(s, keys[s.v[r as int] as int])
            },
            Instruction::SKNP(r) => if r >= 16 {
                Some(Fault::RegisterOutOfRange(r))
            } else if s.v[r as int] >= 16 {
                Some(Fault::KeyOutOfRange(s.v[r as int]))
            } else {
                skip_fault(s, !keys[s.v[r as int] as int])
            },
            Instruction::LD_RD(r) => register_fault(r, 0),
            Instruction::LD_RK(r) => register_fault(r, 0),
            Instruction::LD_DR(r) => register_fault(r, 0),
            Instruction::LD_SR(r) => register_fault(r, 0),
            Instruction::ADD_IR(r) => if r >= 16 {
                Some(Fault::RegisterOutOfRange(r))
            } else if s.i + s.v[r as int] > u16::MAX {
                Some(Fault::AddressOverflow)
            } else {
                None
            },
            Instruction::LD_RF(r) => register_fault(r, 0),
            Instruction::LD_BR(r) => if r >= 16 {
                Some(Fault::RegisterOutOfRange(r))
            } else if s.i + 3 > RAM_SIZE {
                Some(Fault::MemoryOutOfRange)
            } else {
                None
            },
            Instruction::LD_IRR(x) => if x >= 16 {
                Some(Fault::RegisterOutOfRange(x))
            } else if s.i + x + 1 > RAM_SIZE {
                Some(Fault::MemoryOutOfRange)
            } else {
                None
            },
            Instruction::LD_RRI(x) => if x >= 16 {
                Some(Fault::RegisterOutOfRange(x))
            } else if s.i + x + 1 > RAM_SIZE {
                Some(Fault::MemoryOutOfRange)
            } else {
                None
            },
        }
    }
}

/// `v` with register `r` set to `val`.
pub open spec fn set_reg(v: Seq<u8>, r: u8, val: int) -> Seq<u8> {
    v.update(r as int, val as u8)
}

/// `v` with register `r` set to `val` and then the flag register set to `flag`.
pub open spec fn set_with_flag(v: Seq<u8>, r: u8, val: int, flag: bool) -> Seq<u8> {
    v.update(r as int, val as u8).update(FLAG_REGISTER as int, if flag { 1u8 } else { 0u8 })
}

/// The program counter after a skip: one more word when it is taken.
pub open spec fn skip_pc(s: CpuState, taken: bool) -> u16 {
    if taken {
        (s.pc + 4) as u16
    } else {
        (s.pc + 2) as u16
    }
}

/// The sprite that `DRW` with height `n` draws: `n` bytes of memory from I.
pub open spec fn sprite_of(s: CpuState, mem: Seq<u8>, n: u8) -> Seq<u8> {
    mem.subrange(s.i as int, s.i + n)
}

/// The processor after `instr` runs without fault, with memory `mem`, screen
/// `grid`, key states `keys`, last pressed key `last` and random byte `rnd`.
pub open spec fn cpu_after(
    s: CpuState,
    mem: Seq<u8>,
    grid: Seq<Seq<bool>>,
    keys: Seq<bool>,
    last: Option<u8>,
    instr: Instruction,
    rnd: u8,
) -> CpuState {
    let next = CpuState { pc: (s.pc + 2) as u16, ..s };
    let v = s.v;
    match instr {
        Instruction::SYS(_) => s,
        Instruction::CLS => next,
        Instruction::RET => CpuState { pc: s.stack.last(), stack: s.stack.drop_last(), ..s },
        Instruction::JP(a) => CpuState { pc: a, ..s },
        Instruction::CALL(a) => CpuState { pc: a, stack: s.stack.push((s.pc + 2) as u16), ..s },
        Instruction::SE_RV(r, k) => CpuState { pc: skip_pc(s, v[r as int] == k), ..s },
        Instruction::SNE_RV(r, k) => CpuState { pc: skip_pc(s, v[r as int] != k), ..s },
        Instruction::SE_RR(a, b) => CpuState { pc: skip_pc(s, v[a as int] == v[b as int]), ..s },
        Instruction::SNE_RR(a, b) => CpuState { pc: skip_pc(s, v[a as int] != v[b as int]), ..s },
        Instruction::LD_RV(r, k) => CpuState { v: set_reg(v, r, k as int), ..next },
        Instruction::ADD_RV(r, k) => CpuState { v: set_reg(v, r, (v[r as int] + k) % 256), ..next },
        Instruction::LD_RR(a, b) => CpuState { v: set_reg(v, a, v[b as int] as int), ..next },
        Instruction::OR(a, b) => CpuState { v: set_reg(v, a, (v[a as int] | v[b as int]) as int), ..next },
        Instruction::AND(a, b) => CpuState { v: set_reg(v, a, (v[a as int] & v[b as int]) as int), ..next },
        Instruction::XOR(a, b) => CpuState { v: set_reg(v, a, (v[a as int] ^ v[b as int]) as int), ..next },
        Instruction::ADD_RR(a, b) => CpuState {
            v: set_with_flag(v, a, (v[a as int] + v[b as int]) % 256, v[a as int] + v[b as int] >= 256),
            ..next
        },
        Instruction::SUB(a, b) => CpuState {
            v: set_with_flag(v, a, (v[a as int] - v[b as int]) % 256, v[a as int] >= v[b as int]),
            ..next
        },
        Instruction::SUBN(a, b) => CpuState {
            v: set_with_flag(v, a, (v[b as int] - v[a as int]) % 256, v[b as int] >= v[a as int]),
            ..next
        },
        Instruction::SHR(a, _) => CpuState {
            v: set_reg(set_reg(v, FLAG_REGISTER as u8, (v[a as int] % 2) as int), a, (v[a as int] / 2) as int),
            ..next
        },
        Instruction::SHL(a, _) => CpuState {
            v: set_reg(set_reg(v, FLAG_REGISTER as u8, (v[a as int] / 128) as int), a, (v[a as int] * 2) % 256),
            ..next
        },
        Instruction::LD_IV(a) => CpuState { i: a, ..next },
        Instruction::JP_RV(a) => CpuState { pc: (a + v[0]) as u16, ..s },
        Instruction::RND(r, k) => CpuState { v: set_reg(v, r, (rnd & k) as int), ..next },
        Instruction::DRW(x, y, n) => CpuState {
            v: set_reg(
                v,
                FLAG_REGISTER as u8,
                if collides(grid, sprite_of(s, mem, n), v[x as int] as int, v[y as int] as int) {
                    1
                } else {
                    0
                },
            ),
            ..next
        },
        Instruction::SKP(r) => CpuState { pc: skip_pc(s, keys[v[r as int] as int]), ..s },
        Instruction::SKNP(r) => CpuState { pc: skip_pc(s, !keys[v[r as int] as int]), ..s },
        Instruction::LD_RD(r) => CpuState { v: set_reg(v, r, s.delay as int), ..next },
        Instruction::LD_RK(r) => match last {
            Some(k) => CpuState { v: set_reg(v, r, k as int), ..next },
            None => s,
        },
        Instruction::LD_DR(r) => CpuState { delay: v[r as int], ..next },
        Instruction::LD_SR(r) => CpuState { sound: v[r as int], ..next },
        Instruction::ADD_IR(r) => CpuState { i: (s.i + v[r as int]) as u16, ..next },
        Instruction::LD_RF(r) => CpuState { i: (v[r as int] * INTPT_SPRITE_LENGTH) as u16, ..next },
        Instruction::LD_BR(_) => next,
        Instruction::LD_IRR(_) => next,
        Instruction::LD_RRI(x) => CpuState {
            v: Seq::new(16, |j: int| if j <= x { mem[s.i + j] } else { v[j] }),
            ..next
        },
    }
}

/// Memory after `instr` runs on `s` without fault.
pub open spec fn ram_after(s: CpuState, mem: Seq<u8>, instr: Instruction) -> Seq<u8> {
    match instr {
        Instruction::LD_BR(r) => {
            let val = s.v[r as int];
            mem.update(s.i as int, val / 100).update(s.i + 1, val % 100 / 10).update(s.i + 2, val % 10)
        },
        Instruction::LD_IRR(x) => Seq::new(
            mem.len(),
            |a: int| if s.i <= a <= s.i + x { s.v[a - s.i] } else { mem[a] },
        ),
        _ => mem,
    }
}

/// The screen after `instr` runs on `s` without fault.
pub open spec fn grid_after(s: CpuState, mem: Seq<u8>, grid: Seq<Seq<bool>>, instr: Instruction) -> Seq<Seq<bool>> {
    match instr {
        Instruction::CLS => blank(),
        Instruction::DRW(x, y, n) => blit(grid, sprite_of(s, mem, n), s.v[x as int] as int, s.v[y as int] as int),
        _ => grid,
    }
}

/// Whether `instr` changes the screen and so marks it dirty.
pub open spec fn redraws(instr: Instruction) -> bool {
    instr is CLS || instr is DRW
}

/// What running `instr` does, with random byte `rnd`: either it fails with
/// the fault that `fault_of` gives and changes nothing, or it succeeds and
/// leaves the processor, memory and screen as `cpu_after`, `ram_after` and
/// `grid_after` say.
pub open spec fn executed(
    cpu0: CpuState,
    mem0: Seq<u8>,
    disp0: Display,
    keyboard: Keyboard,
    instr: Instruction,
    rnd: u8,
    r: Result<(), Fault>,
    cpu1: CpuState,
    mem1: Seq<u8>,
    disp1: Display,
) -> bool {
    match fault_of(cpu0, keyboard.key_states@, instr) {
        Some(f) => r == Err::<(), Fault>(f) && cpu1 == cpu0 && mem1 == mem0 && disp1 == disp0,
        None => {
            &&& r is Ok
            &&& cpu1 == cpu_after(cpu0, mem0, disp0@, keyboard.key_states@, keyboard.last_pressed, instr, rnd)
            &&& mem1 == ram_after(cpu0, mem0, instr)
            &&& disp1@ == grid_after(cpu0, mem0, disp0@, instr)
            &&& disp1.dirty == (disp0.dirty || redraws(instr))
        },
    }
}

/// Stores `regs[0..count]` into `dst[0..count]`.
fn store_registers(dst: &mut [u8], regs: &[u8; 16], count: usize)
    requires
        count <= 16,
        old(dst)@.len() == count,
    ensures
        final(dst)@ == regs@.take(count as int),
{
    let mut j: usize = 0;
    while j < count
        invariant
            j <= count <= 16,
            dst@.len() == count,
            forall|k: int| 0 <= k < j ==> dst@[k] == regs@[k],
        decreases count - j,
    {
        dst[j] = regs[j];
        j = j + 1;
    }
    assert(dst@ =~= regs@.take(count as int));
}

impl Default for CPU {
    fn default() -> (r: CPU)
        ensures
            r@.v == Seq::new(16, |j: int| 0u8),
            r@.i == 0,
            r@.delay == 0,
            r@.sound == 0,
            r@.pc == 0,
            r@.stack.len() == 0,
    {
        let r = CPU {
            v_reg: [0; 16],
            i_reg: 0,
            delay_timer: 0,
            sound_timer: 0,
            program_counter: 0,
            stack: Vec::with_capacity(STACK_DEPTH),
        };
        assert(r@.v =~= Seq::new(16, |j: int| 0u8));
        r
    }
}

impl CPU {
    /// Why `instruction` cannot run now, or `None` when it can.
    pub fn fault(&self, keyboard: &Keyboard, instruction: Instruction) -> (r: Option<Fault>)
        ensures
            r == fault_of(self@, keyboard.key_states@, instruction),
    {
        if self.program_counter > u16::MAX - 2 {
            return Some(Fault::AddressOverflow);
        }
        let pc = self.program_counter;
        match instruction {
            Instruction::SYS(a) => Some(Fault::Unsupported(a)),
            Instruction::CLS => None,
            Instruction::RET => if self.stack.len() == 0 {
                Some(Fault::StackUnderflow)
            } else {
                None
            },
            Instruction::JP(_) => None,
            Instruction::CALL(_) => if self.stack.len() >= STACK_DEPTH {
                Some(Fault::StackOverflow)
            } else {
                None
            },
            Instruction::SE_RV(r, k) => if r >= 16 {
                Some(Fault::RegisterOutOfRange(r))
            } else {
                find_skip_fault(pc, self.v_reg[r as usize] == k)
            },
            Instruction::SNE_RV(r, k) => if r >= 16 {
                Some(Fault::RegisterOutOfRange(r))
            } else {
                find_skip_fault(pc, self.v_reg[r as usize] != k)
            },
            Instruction::SE_RR(a, b) => if a >= 16 || b >= 16 {
                find_register_fault(a, b)
            } else {
                find_skip_fault(pc, self.v_reg[a as usize] == self.v_reg[b as usize])
            },
            Instruction::SNE_RR(a, b) => if a >= 16 || b >= 16 {
                find_register_fault(a, b)
            } else {
                find_skip_fault(pc, self.v_reg[a as usize] != self.v_reg[b as usize])
            },
            Instruction::LD_RV(r, _) => find_register_fault(r, 0),
            Instruction::ADD_RV(r, _) => find_register_fault(r, 0),
            Instruction::LD_RR(a, b) => find_register_fault(a, b),
            Instruction::OR(a, b) => find_register_fault(a, b),
            Instruction::AND(a, b) => find_register_fault(a, b),
            Instruction::XOR(a, b) => find_register_fault(a, b),
            Instruction::ADD_RR(a, b) => find_register_fault(a, b),
            Instruction::SUB(a, b) => find_register_fault(a, b),
            Instruction::SHR(a, _) => find_register_fault(a, 0),
            Instruction::SUBN(a, b) => find_register_fault(a, b),
            Instruction::SHL(a, _) => find_register_fault(a, 0),
            Instruction::LD_IV(_) => None,
            Instruction::JP_RV(a) => if a as u32 + self.v_reg[0] as u32 > u16::MAX as u32 {
                Some(Fault::AddressOverflow)
            } else {
                None
            },
            Instruction::RND(r, _) => find_register_fault(r, 0),
            Instruction::DRW(x, y, n) => if x >= 16 || y >= 16 {
                find_register_fault(x, y)
            } else if self.i_reg as usize + n as usize > RAM_SIZE {
                Some(Fault::MemoryOutOfRange)
            } else {
                None
            },
            Instruction::SKP(r) => if r >= 16 {
                Some(Fault::RegisterOutOfRange(r))
            } else if self.v_reg[r as usize] >= 16 {
                Some(Fault::KeyOutOfRange(self.v_reg[r as usize]))
            } else {
                find_skip_fault(pc, keyboard.is_pressed(self.v_reg[r as usize] as usize))
            },
            Instruction::SKNP(r) => if r >= 16 {
                Some(Fault::RegisterOutOfRange(r))
            } else if self.v_reg[r as usize] >= 16 {
                Some(Fault::KeyOutOfRange(self.v_reg[r as usize]))
            } else {
                find_skip_fault(pc, !keyboard.is_pressed(self.v_reg[r as usize] as usize))
            },
            Instruction::LD_RD(r) => find_register_fault(r, 0),
            Instruction::LD_RK(r) => find_register_fault(r, 0),
            Instruction::LD_DR(r) => find_register_fault(r, 0),
            Instruction::LD_SR(r) => find_register_fault(r, 0),
            Instruction::ADD_IR(r) => if r >= 16 {
                Some(Fault::RegisterOutOfRange(r))
            } else if self.i_reg as u32 + self.v_reg[r as usize] as u32 > u16::MAX as u32 {
                Some(Fault::AddressOverflow)
            } else {
                None
            },
            Instruction::LD_RF(r) => find_register_fault(r, 0),
            Instruction::LD_BR(r) => if r >= 16 {
                Some(Fault::RegisterOutOfRange(r))
            } else if self.i_reg as usize + 3 > RAM_SIZE {
                Some(Fault::MemoryOutOfRange)
            } else {
                None
            },
            Instruction::LD_IRR(x) => if x >= 16 {
                Some(Fault::RegisterOutOfRange(x))
            } else if self.i_reg as usize + x as usize + 1 > RAM_SIZE {
                Some(Fault::MemoryOutOfRange)
            } else {
                None
            },
            Instruction::LD_RRI(x) => if x >= 16 {
                Some(Fault::RegisterOutOfRange(x))
            } else if self.i_reg as usize + x as usize + 1 > RAM_SIZE {
                Some(Fault::MemoryOutOfRange)
            } else {
                None
            },
        }
    }
}

/// The fault for two register operands.
fn find_register_fault(a: u8, b: u8) -> (r: Option<Fault>)
    ensures
        r == register_fault(a, b),
{
    if a >= 16 {
        Some(Fault::RegisterOutOfRange(a))
    } else if b >= 16 {
        Some(Fault::RegisterOutOfRange(b))
    } else {
        None
    }
}

/// The fault for a skip from program counter `pc`.
fn find_skip_fault(pc: u16, taken: bool) -> (r: Option<Fault>)
    ensures
        forall|s: CpuState| s.pc == pc ==> r == #[trigger] skip_fault(s, taken),
{
    if taken && pc as u32 + 4 > u16::MAX as u32 {
        Some(Fault::AddressOverflow)
    } else {
        None
    }
}

/// Instructions that only move the program counter or the stack.
spec fn is_control(i: Instruction) -> bool {
    i is RET || i is JP || i is CALL || i is SE_RV || i is SNE_RV || i is SE_RR || i is SNE_RR
        || i is JP_RV || i is SKP || i is SKNP || i is LD_RK
}

/// The two-register copy and logic instructions.
spec fn is_logic(i: Instruction) -> bool {
    i is LD_RR || i is OR || i is AND || i is XOR
}

/// The arithmetic instructions that set the flag register.
spec fn is_arith(i: Instruction) -> bool {
    i is ADD_RR || i is SUB || i is SUBN || i is SHR || i is SHL
}

/// The other instructions that change registers or timers only.
spec fn is_register_load(i: Instruction) -> bool {
    i is LD_RV || i is ADD_RV || i is LD_IV || i is RND || i is LD_RD || i is LD_DR || i is LD_SR
        || i is ADD_IR || i is LD_RF
}

impl CPU {
    /// Runs a control-flow instruction that `fault_of` admits.
    fn apply_control(&mut self, ram: &RAM, keyboard: &Keyboard, display: &Display, instruction: Instruction)
        requires
            is_control(instruction),
            fault_of(old(self)@, keyboard.key_states@, instruction) is None,
        ensures
            final(self)@ == cpu_after(old(self)@, ram@, display@, keyboard.key_states@, keyboard.last_pressed, instruction, 0),
    {
        let ghost s0 = self@;
        let next = self.program_counter + 2;
        match instruction {
            Instruction::RET => {
                let top = self.stack.pop().unwrap();
                self.program_counter = top;
            },
            Instruction::JP(a) => {
                self.program_counter = a;
            },
            Instruction::CALL(a) => {
                self.stack.push(next);
                self.program_counter = a;
            },
            Instruction::SE_RV(r, k) => {
                self.program_counter = if self.v_reg[r as usize] == k { next + 2 } else { next };
            },
            Instruction::SNE_RV(r, k) => {
                self.program_counter = if self.v_reg[r as usize] != k { next + 2 } else { next };
            },
            Instruction::SE_RR(a, b) => {
                self.program_counter = if self.v_reg[a as usize] == self.v_reg[b as usize] { next + 2 } else { next };
            },
            Instruction::SNE_RR(a, b) => {
                self.program_counter = if self.v_reg[a as usize] != self.v_reg[b as usize] { next + 2 } else { next };
            },
            Instruction::JP_RV(a) => {
                self.program_counter = a + self.v_reg[0] as u16;
            },
            Instruction::SKP(r) => {
                let pressed = keyboard.is_pressed(self.v_reg[r as usize] as usize);
                self.program_counter = if pressed { next + 2 } else { next };
            },
            Instruction::SKNP(r) => {
                let pressed = keyboard.is_pressed(self.v_reg[r as usize] as usize);
                self.program_counter = if !pressed { next + 2 } else { next };
            },
            Instruction::LD_RK(r) => {
                match keyboard.last_pressed {
                    Some(k) => {
                        self.v_reg[r as usize] = k;
                        self.program_counter = next;
                    },
                    None => {},
                }
            },
            _ => {},
        }
        assert(self@ =~= cpu_after(s0, ram@, display@, keyboard.key_states@, keyboard.last_pressed, instruction, 0));
    }

    /// Runs a copy or logic instruction that `fault_of` admits.
    fn apply_logic(&mut self, ram: &RAM, keyboard: &Keyboard, display: &Display, instruction: Instruction)
        requires
            is_logic(instruction),
            fault_of(old(self)@, keyboard.key_states@, instruction) is None,
        ensures
            final(self)@ == cpu_after(old(self)@, ram@, display@, keyboard.key_states@, keyboard.last_pressed, instruction, 0),
    {
        let ghost s0 = self@;
        let next = self.program_counter + 2;
        match instruction {
            Instruction::LD_RR(a, b) => {
                self.v_reg[a as usize] = self.v_reg[b as usize];
            },
            Instruction::OR(a, b) => {
                self.v_reg[a as usize] = self.v_reg[a as usize] | self.v_reg[b as usize];
            },
            Instruction::AND(a, b) => {
                self.v_reg[a as usize] = self.v_reg[a as usize] & self.v_reg[b as usize];
            },
            Instruction::XOR(a, b) => {
                self.v_reg[a as usize] = self.v_reg[a as usize] ^ self.v_reg[b as usize];
            },
            _ => {},
        }
        self.program_counter = next;
        assert(self@ =~= cpu_after(s0, ram@, display@, keyboard.key_states@, keyboard.last_pressed, instruction, 0));
    }

    /// Runs a flag-setting arithmetic instruction that `fault_of` admits.
    fn apply_arith(&mut self, ram: &RAM, keyboard: &Keyboard, display: &Display, instruction: Instruction)
        requires
            is_arith(instruction),
            fault_of(old(self)@, keyboard.key_states@, instruction) is None,
        ensures
            final(self)@ == cpu_after(old(self)@, ram@, display@, keyboard.key_states@, keyboard.last_pressed, instruction, 0),
    {
        let ghost s0 = self@;
        let next = self.program_counter + 2;
        let (a, b) = match instruction {
            Instruction::ADD_RR(a, b) => (a, b),
            Instruction::SUB(a, b) => (a, b),
            Instruction::SUBN(a, b) => (a, b),
            Instruction::SHR(a, _) => (a, 0),
            Instruction::SHL(a, _) => (a, 0),
            _ => (0, 0),
        };
        let x = self.v_reg[a as usize];
        let y = self.v_reg[b as usize];
        match instruction {
            Instruction::ADD_RR(_, _) => {
                let sum = x as u16 + y as u16;
                let val = (sum % 256) as u8;
                assert(val as int == (x + y) % 256);
                self.v_reg[a as usize] = val;
                self.v_reg[FLAG_REGISTER] = if sum >= 256 { 1 } else { 0 };
            },
            Instruction::SUB(_, _) => {
                let val = if x >= y { x - y } else { (x as u16 + 256 - y as u16) as u8 };
                assert(val as int == (x - y) % 256);
                self.v_reg[a as usize] = val;
                self.v_reg[FLAG_REGISTER] = if x >= y { 1 } else { 0 };
            },
            Instruction::SUBN(_, _) => {
                let val = if y >= x { y - x } else { (y as u16 + 256 - x as u16) as u8 };
                assert(val as int == (y - x) % 256);
                self.v_reg[a as usize] = val;
                self.v_reg[FLAG_REGISTER] = if y >= x { 1 } else { 0 };
            },
            Instruction::SHR(_, _) => {
                self.v_reg[FLAG_REGISTER] = x % 2;
                self.v_reg[a as usize] = x / 2;
            },
            _ => {
                let val = ((x as u16 * 2) % 256) as u8;
                assert(val as int == (x * 2) % 256);
                self.v_reg[FLAG_REGISTER] = x / 128;
                self.v_reg[a as usize] = val;
            },
        }
        self.program_counter = next;
        assert(self@ =~= cpu_after(s0, ram@, display@, keyboard.key_states@, keyboard.last_pressed, instruction, 0));
    }

    /// Runs a register or timer load that `fault_of` admits.
    fn apply_register_load(
        &mut self,
        ram: &RAM,
        keyboard: &Keyboard,
        display: &Display,
        instruction: Instruction,
        random: u8,
    )
        requires
            is_register_load(instruction),
            fault_of(old(self)@, keyboard.key_states@, instruction) is None,
        ensures
            final(self)@ == cpu_after(old(self)@, ram@, display@, keyboard.key_states@, keyboard.last_pressed, instruction, random),
    {
        let ghost s0 = self@;
        let next = self.program_counter + 2;
        match instruction {
            Instruction::LD_RV(r, k) => {
                self.v_reg[r as usize] = k;
            },
            Instruction::ADD_RV(r, k) => {
                self.v_reg[r as usize] = ((self.v_reg[r as usize] as u16 + k as u16) % 256) as u8;
            },
            Instruction::LD_IV(a) => {
                self.i_reg = a;
            },
            Instruction::RND(r, k) => {
                self.v_reg[r as usize] = random & k;
            },
            Instruction::LD_RD(r) => {
                self.v_reg[r as usize] = self.delay_timer;
            },
            Instruction::LD_DR(r) => {
                self.delay_timer = self.v_reg[r as usize];
            },
            Instruction::LD_SR(r) => {
                self.sound_timer = self.v_reg[r as usize];
            },
            Instruction::ADD_IR(r) => {
                self.i_reg = self.i_reg + self.v_reg[r as usize] as u16;
            },
            Instruction::LD_RF(r) => {
                let digit = self.v_reg[r as usize] as u16;
                assert(digit * 5 <= 1275) by (nonlinear_arith)
                    requires
                        digit <= 255,
                ;
                self.i_reg = digit * INTPT_SPRITE_LENGTH as u16;
            },
            _ => {},
        }
        self.program_counter = next;
        assert(self@ =~= cpu_after(s0, ram@, display@, keyboard.key_states@, keyboard.last_pressed, instruction, random));
    }

    /// Runs an instruction that `fault_of` admits.
    fn apply(&mut self, ram: &mut RAM, keyboard: &Keyboard, display: &mut Display, instruction: Instruction, random: u8)
        requires
            fault_of(old(self)@, keyboard.key_states@, instruction) is None,
        ensures
            final(self)@ == cpu_after(
                old(self)@,
                old(ram)@,
                old(display)@,
                keyboard.key_states@,
                keyboard.last_pressed,
                instruction,
                random,
            ),
            final(ram)@ == ram_after(old(self)@, old(ram)@, instruction),
            final(display)@ == grid_after(old(self)@, old(ram)@, old(display)@, instruction),
            final(display).dirty == (old(display).dirty || redraws(instruction)),
    {
        proof {
            ram.lemma_size();
        }
        let ghost s0 = self@;
        let ghost mem0 = ram@;
        let ghost grid0 = display@;
        let next = self.program_counter + 2;
        match instruction {
            Instruction::CLS => {
                display.clear();
                self.program_counter = next;
                assert(self@ =~= cpu_after(s0, mem0, grid0, keyboard.key_states@, keyboard.last_pressed, instruction, random));
            },
            Instruction::DRW(x, y, n) => {
                let sprite = ram.borrow_memory_range(self.i_reg as usize, n as usize);
                let collision = display.draw_sprite(self.v_reg[x as usize], self.v_reg[y as usize], sprite);
                self.v_reg[FLAG_REGISTER] = if collision { 1 } else { 0 };
                self.program_counter = next;
                assert(self@ =~= cpu_after(s0, mem0, grid0, keyboard.key_states@, keyboard.last_pressed, instruction, random));
            },
            Instruction::LD_BR(r) => {
                let val = self.v_reg[r as usize];
                let memory = ram.borrow_memory_range_mut(self.i_reg as usize, 3);
                memory[0] = val / 100;
                memory[1] = val % 100 / 10;
                memory[2] = val % 10;
                self.program_counter = next;
                proof {
                    ram.lemma_size();
                    assert(ram@ =~= ram_after(s0, mem0, instruction));
                    assert(self@ =~= cpu_after(s0, mem0, grid0, keyboard.key_states@, keyboard.last_pressed, instruction, random));
                }
            },
            Instruction::LD_IRR(x) => {
                let memory = ram.borrow_memory_range_mut(self.i_reg as usize, x as usize + 1);
                store_registers(memory, &self.v_reg, x as usize + 1);
                self.program_counter = next;
                proof {
                    ram.lemma_size();
                    assert(ram@ =~= ram_after(s0, mem0, instruction));
                    assert(self@ =~= cpu_after(s0, mem0, grid0, keyboard.key_states@, keyboard.last_pressed, instruction, random));
                }
            },
            Instruction::LD_RRI(x) => {
                let memory = ram.borrow_memory_range(self.i_reg as usize, x as usize + 1);
                let mut j: usize = 0;
                while j <= x as usize
                    invariant
                        x < 16,
                        j <= x + 1,
                        memory@ == mem0.subrange(s0.i as int, s0.i + x + 1),
                        memory@.len() == x + 1,
                        mem0.len() == RAM_SIZE,
                        s0.i + x + 1 <= RAM_SIZE,
                        s0.v.len() == 16,
                        self@ == (CpuState { v: self@.v, ..s0 }),
                        self.v_reg@.len() == 16,
                        forall|k: int| 0 <= k < j ==> self.v_reg@[k] == mem0[s0.i + k],
                        forall|k: int| j <= k < 16 ==> self.v_reg@[k] == s0.v[k],
                    decreases x + 1 - j,
                {
                    self.v_reg[j] = memory[j];
                    j = j + 1;
                }
                self.program_counter = next;
                assert(self@ =~= cpu_after(s0, mem0, grid0, keyboard.key_states@, keyboard.last_pressed, instruction, random));
            },
            Instruction::SYS(_) => {},
            Instruction::RET | Instruction::JP(_) | Instruction::CALL(_) | Instruction::SE_RV(_, _)
            | Instruction::SNE_RV(_, _) | Instruction::SE_RR(_, _) | Instruction::SNE_RR(_, _)
            | Instruction::JP_RV(_) | Instruction::SKP(_) | Instruction::SKNP(_) | Instruction::LD_RK(_) => {
                self.apply_control(ram, keyboard, display, instruction);
            },
            Instruction::LD_RR(_, _) | Instruction::OR(_, _) | Instruction::AND(_, _) | Instruction::XOR(_, _) => {
                self.apply_logic(ram, keyboard, display, instruction);
            },
            Instruction::ADD_RR(_, _) | Instruction::SUB(_, _) | Instruction::SUBN(_, _)
            | Instruction::SHR(_, _) | Instruction::SHL(_, _) => {
                self.apply_arith(ram, keyboard, display, instruction);
            },
            Instruction::LD_RV(_, _) | Instruction::ADD_RV(_, _) | Instruction::LD_IV(_) | Instruction::RND(_, _)
            | Instruction::LD_RD(_) | Instruction::LD_DR(_) | Instruction::LD_SR(_) | Instruction::ADD_IR(_)
            | Instruction::LD_RF(_) => {
                self.apply_register_load(ram, keyboard, display, instruction, random);
            },
        }
    }
}

impl CPU {
    /// Runs one instruction with `random` as the byte that `RND` draws. The
    /// program counter first moves past the instruction word; a taken skip
    /// moves it one word more. On a fault nothing changes.
    pub fn execute_with(
        &mut self,
        ram: &mut RAM,
        keyboard: &Keyboard,
        display: &mut Display,
        instruction: Instruction,
        random: u8,
    ) -> (r: Result<(), Fault>)
        ensures
            executed(
                old(self)@,
                old(ram)@,
                *old(display),
                *keyboard,
                instruction,
                random,
                r,
                final(self)@,
                final(ram)@,
                *final(display),
            ),
    {
        match self.fault(keyboard, instruction) {
            Some(f) => Err(f),
            None => {
                self.apply(ram, keyboard, display, instruction, random);
                Ok(())
            },
        }
    }

    /// Runs one instruction; `RND` draws its byte from the thread-local
    /// random generator.
    pub fn execute(&mut self, ram: &mut RAM, keyboard: &Keyboard, display: &mut Display, instruction: Instruction) -> (r: Result<(), Fault>)
        ensures
            exists|random: u8|
                #[trigger] executed(
                    old(self)@,
                    old(ram)@,
                    *old(display),
                    *keyboard,
                    instruction,
                    random,
                    r,
                    final(self)@,
                    final(ram)@,
                    *final(display),
                ),
    {
        let random = if matches!(instruction, Instruction::RND(_, _)) {
            random_byte()
        } else {
            0
        };
        self.execute_with(ram, keyboard, display, instruction, random)
    }

    /// Counts each timer that is above zero down by one.
    pub fn countdown_timers(&mut self)
        ensures
            final(self)@ == (CpuState {
                delay: if old(self).delay_timer > 0 { (old(self).delay_timer - 1) as u8 } else { 0 },
                sound: if old(self).sound_timer > 0 { (old(self).sound_timer - 1) as u8 } else { 0 },
                ..old(self)@
            }),
    {
        if self.sound_timer > 0 {
            self.sound_timer = self.sound_timer - 1;
        }
        if self.delay_timer > 0 {
            self.delay_timer = self.delay_timer - 1;
        }
    }

    /// Whether a tone should sound: while the sound timer is above zero.
    pub fn is_tone_on(&self) -> (r: bool)
        ensures
            r == (self.sound_timer > 0),
    {
        self.sound_timer > 0
    }
}

/// A call stack of at most `STACK_DEPTH` return addresses stays within that
/// depth through any instruction that runs without fault.
pub proof fn lemma_stack_depth_bounded(
    s: CpuState,
    mem: Seq<u8>,
    grid: Seq<Seq<bool>>,
    keys: Seq<bool>,
    last: Option<u8>,
    instr: Instruction,
    rnd: u8,
)
    requires
        s.stack.len() <= STACK_DEPTH,
        fault_of(s, keys, instr) is None,
    ensures
        cpu_after(s, mem, grid, keys, last, instr, rnd).stack.len() <= STACK_DEPTH,
{
}

/// Adding two registers leaves their sum modulo 256 in the first and sets the
/// flag register to 1 exactly when the sum carries past 255; the first register
/// here is not the flag register itself, which the flag would overwrite.
pub proof fn lemma_add_registers(
    s: CpuState,
    mem: Seq<u8>,
    grid: Seq<Seq<bool>>,
    keys: Seq<bool>,
    last: Option<u8>,
    rnd: u8,
    r1: u8,
    r2: u8,
)
    requires
        s.v.len() == 16,
        r1 < 16,
        r2 < 16,
        r1 != FLAG_REGISTER,
    ensures
        ({
            let a = s.v[r1 as int];
            let b = s.v[r2 as int];
            let t = cpu_after(s, mem, grid, keys, last, Instruction::ADD_RR(r1, r2), rnd);
            &&& t.v[r1 as int] == (a + b) % 256
            &&& t.v[FLAG_REGISTER as int] == (if a + b >= 256 { 1u8 } else { 0u8 })
        }),
{
}

/// Subtracting leaves the difference modulo 256 and sets the flag register to 1
/// exactly when no borrow occurred: `SUB` takes the second register from the
/// first, `SUBN` the first from the second. The first register here is not the
/// flag register itself.
pub proof fn lemma_subtract_registers(
    s: CpuState,
    mem: Seq<u8>,
    grid: Seq<Seq<bool>>,
    keys: Seq<bool>,
    last: Option<u8>,
    rnd: u8,
    r1: u8,
    r2: u8,
)
    requires
        s.v.len() == 16,
        r1 < 16,
        r2 < 16,
        r1 != FLAG_REGISTER,
    ensures
        ({
            let a = s.v[r1 as int];
            let b = s.v[r2 as int];
            let t = cpu_after(s, mem, grid, keys, last, Instruction::SUB(r1, r2), rnd);
            let u = cpu_after(s, mem, grid, keys, last, Instruction::SUBN(r1, r2), rnd);
            &&& t.v[r1 as int] == (a - b) % 256
            &&& t.v[FLAG_REGISTER as int] == (if a >= b { 1u8 } else { 0u8 })
            &&& u.v[r1 as int] == (b - a) % 256
            &&& u.v[FLAG_REGISTER as int] == (if b >= a { 1u8 } else { 0u8 })
        }),
{
}

} // verus!
