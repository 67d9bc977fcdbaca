use vstd::prelude::*;
use crate::instructions::{Instruction, InstructionReadError, read_result};

verus! {

/// Where the program region begins, and the entry point of a loaded program.
pub const RAM_INTPT_OFFSET: usize = 0x200;

/// The size of memory in bytes.
pub const RAM_SIZE: usize = 0x1000;

/// How many bytes of program fit in memory.
pub const PROGRAM_MEMORY_SIZE: usize = RAM_SIZE - RAM_INTPT_OFFSET;

/// The height in bytes of each built-in glyph.
pub const INTPT_SPRITE_LENGTH: usize = 5;

/// The sixteen built-in hexadecimal glyphs, five bytes each; glyph `g` starts at `5 * g`.
pub const INTPT_SPRITES: [u8; 80] = [
    0xF0, 0x90, 0x90, 0x90, 0xF0, // 0
    0x20, 0x60, 0x20, 0x20, 0x70, // 1
    0xF0, 0x10, 0xF0, 0x80, 0xF0, // 2
    0xF0, 0x10, 0xF0, 0x10, 0xF0, // 3
    0x90, 0x90, 0xF0, 0x10, 0x10, // 4
    0xF0, 0x80, 0xF0, 0x10, 0xF0, // 5
    0xF0, 0x80, 0xF0, 0x90, 0xF0, // 6
    0xF0, 0x90, 0xF0, 0x10, 0xF0, // 7
    0xF0, 0x90, 0xF0, 0x90, 0xF0, // 8
    0xF0, 0x90, 0xF0, 0x10, 0xF0, // 9
    0xF0, 0x90, 0xF0, 0x90, 0x90, // A
    0xE0, 0x90, 0xE0, 0x90, 0xE0, // B
    0xF0, 0x80, 0x80, 0x80, 0xF0, // C
    0xE0, 0x90, 0x90, 0x90, 0xE0, // D
    0xF0, 0x80, 0xF0, 0x80, 0xF0, // E
    0xF0, 0x80, 0xF0, 0x80, 0x80, // F
];

/// The big-endian instruction word stored at `pc` and `pc + 1`.
pub open spec fn word_at(mem: Seq<u8>, pc: int) -> u16 {
    (mem[pc] * 0x100 + mem[pc + 1]) as u16
}

/// The memory of the machine: a fixed array of bytes whose low region holds the glyphs.
pub struct RAM {
    mem: [u8; RAM_SIZE],
}

impl View for RAM {
    type V = Seq<u8>;

    closed spec fn view(&self) -> Seq<u8> {
        self.mem@
    }
}

impl Default for RAM {
    fn default() -> (r: RAM)
        ensures
            r@.len() == RAM_SIZE,
            forall|i: int| 0 <= i < 80 ==> r@[i] == INTPT_SPRITES@[i],
            forall|i: int| 80 <= i < RAM_SIZE ==> r@[i] == 0,
    {
        let mut mem = [0u8; RAM_SIZE];
        let mut i: usize = 0;
        while i < 80
            invariant
                i <= 80,
                forall|j: int| 0 <= j < i ==> mem@[j] == INTPT_SPRITES@[j],
                forall|j: int| i <= j < RAM_SIZE ==> mem@[j] == 0,
            decreases 80 - i,
        {
            mem[i] = INTPT_SPRITES[i];
            i = i + 1;
        }
        RAM { mem }
    }
}

impl RAM {
    /// Memory always holds exactly `RAM_SIZE` bytes.
    pub proof fn lemma_size(&self)
        ensures
            self@.len() == RAM_SIZE,
    {
    }

    /// A writable view of `range` bytes from `address`.
    pub fn borrow_memory_range_mut(&mut self, address: usize, range: usize) -> (r: &mut [u8])
        requires
            address + range <= RAM_SIZE,
        ensures
            r@ == old(self)@.subrange(address as int, address + range),
            final(self)@ == old(self)@.subrange(0, address as int) + final(r)@
                + old(self)@.subrange(address + range, RAM_SIZE as int),
    {
        let whole: &mut [u8] = &mut self.mem;
        let (_, tail) = whole.split_at_mut(address);
        let (mid, _) = tail.split_at_mut(range);
        mid
    }

    /// A read-only view of `range` bytes from `address`.
    pub fn borrow_memory_range(&self, address: usize, range: usize) -> (r: &[u8])
        requires
            address + range <= RAM_SIZE,
        ensures
            r@ == self@.subrange(address as int, address + range),
    {
        &self.mem[address..address + range]
    }

    /// A writable view of the whole memory.
    pub fn borrow_memory_mut(&mut self) -> (r: &mut [u8])
        ensures
            r@ == old(self)@,
            final(self)@ == final(r)@,
    {
        &mut self.mem
    }

    /// A read-only view of the whole memory.
    pub fn borrow_memory(&self) -> (r: &[u8])
        ensures
            r@ == self@,
    {
        &self.mem
    }

    /// Copies as much of a program as fits into the program region and returns
    /// the region's base, where execution starts.
    pub fn copy_program(&mut self, program_data: &[u8]) -> (r: usize)
        ensures
            r == RAM_INTPT_OFFSET,
            final(self)@ == old(self)@.subrange(0, RAM_INTPT_OFFSET as int)
                + program_data@.subrange(0, loaded_len(program_data@.len()))
                + old(self)@.subrange(RAM_INTPT_OFFSET + loaded_len(program_data@.len()), RAM_SIZE as int),
    {
        let len: usize = if program_data.len() < PROGRAM_MEMORY_SIZE {
            program_data.len()
        } else {
            PROGRAM_MEMORY_SIZE
        };
        let mut i: usize = 0;
        while i < len
            invariant
                len == loaded_len(program_data@.len()),
                i <= len,
                self.mem@.len() == RAM_SIZE,
                forall|j: int| 0 <= j < RAM_INTPT_OFFSET ==> self.mem@[j] == old(self).mem@[j],
                forall|j: int| 0 <= j < i ==> self.mem@[RAM_INTPT_OFFSET + j] == program_data@[j],
                forall|j: int| RAM_INTPT_OFFSET + i <= j < RAM_SIZE ==> self.mem@[j] == old(self).mem@[j],
            decreases len - i,
        {
            self.mem[RAM_INTPT_OFFSET + i] = program_data[i];
            i = i + 1;
        }
        assert(self@ =~= old(self)@.subrange(0, RAM_INTPT_OFFSET as int)
            + program_data@.subrange(0, len as int)
            + old(self)@.subrange(RAM_INTPT_OFFSET + len, RAM_SIZE as int));
        RAM_INTPT_OFFSET
    }

    /// Reads the big-endian word at `pc` and decodes it.
    pub fn read_instruction(&self, pc: usize) -> (r: Result<Instruction, InstructionReadError>)
        requires
            pc + 1 < RAM_SIZE,
        ensures
            r == read_result(word_at(self@, pc as int)),
    {
        let hi = self.mem[pc] as u16;
        let lo = self.mem[pc + 1] as u16;
        let inst_data = hi << 8u16 | lo;
        assert(hi << 8u16 | lo == hi * 0x100 + lo) by (bit_vector)
            requires
                hi < 0x100,
                lo < 0x100,
        ;
        Instruction::read(inst_data)
    }
}

/// How many bytes of a program of `n` bytes are loaded: all, up to the region's capacity.
pub open spec fn loaded_len(n: nat) -> int {
    if n < PROGRAM_MEMORY_SIZE {
        n as int
    } else {
        PROGRAM_MEMORY_SIZE as int
    }
}

} // verus!
