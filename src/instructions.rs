use vstd::prelude::*;

verus! {

/// A 16-bit word that does not encode any instruction of the architecture.
#[derive(Debug, Clone, Copy, PartialEq, Eq, Structural)]
pub struct InstructionReadError(pub u16);

impl InstructionReadError {
    /// The offending word.
    pub fn word(&self) -> (r: u16)
        ensures
            r == self.0,
    {
        self.0
    }
}

/// One decoded instruction. Register operands are indices 0 to 15, addresses
/// are 12 bits wide, and the last operand of `DRW` is the sprite height.
#[allow(non_camel_case_types)]
#[derive(Debug, Clone, Copy, PartialEq, Eq, Structural)]
pub enum Instruction {
    SYS(u16),
    CLS,
    RET,
    JP(u16),
    CALL(u16),
    SE_RV(u8, u8),
    SNE_RV(u8, u8),
    SE_RR(u8, u8),
    LD_RV(u8, u8),
    ADD_RV(u8, u8),
    LD_RR(u8, u8),
    OR(u8, u8),
    AND(u8, u8),
    XOR(u8, u8),
    ADD_RR(u8, u8),
    SUB(u8, u8),
    SHR(u8, u8),
    SUBN(u8, u8),
    SHL(u8, u8),
    SNE_RR(u8, u8),
    LD_IV(u16),
    JP_RV(u16),
    RND(u8, u8),
    DRW(u8, u8, u8),
    SKP(u8),
    SKNP(u8),
    LD_RD(u8),
    LD_RK(u8),
    LD_DR(u8),
    LD_SR(u8),
    ADD_IR(u8),
    LD_RF(u8),
    LD_BR(u8),
    LD_IRR(u8),
    LD_RRI(u8),
}

/// The top nibble, which selects the instruction family.
pub open spec fn op_family(w: u16) -> u16 {
    w / 0x1000
}

/// The second nibble: the first register operand.
pub open spec fn op_x(w: u16) -> u8 {
    (w / 0x100 % 0x10) as u8
}

/// The third nibble: the second register operand.
pub open spec fn op_y(w: u16) -> u8 {
    (w / 0x10 % 0x10) as u8
}

/// The lowest nibble.
pub open spec fn op_n(w: u16) -> u8 {
    (w % 0x10) as u8
}

/// The low byte: an immediate value.
pub open spec fn op_kk(w: u16) -> u8 {
    (w % 0x100) as u8
}

/// The low twelve bits: an address.
pub open spec fn op_nnn(w: u16) -> u16 {
    w % 0x1000
}

/// The instruction that a word encodes, or `None` where it encodes none.
pub open spec fn decode(w: u16) -> Option<Instruction> {
    let x = op_x(w);
    let y = op_y(w);
    let kk = op_kk(w);
    let nnn = op_nnn(w);
    let f = op_family(w);
    if f == 0x0 {
        if w == 0x00E0 {
            Some(Instruction::CLS)
        } else if w == 0x00EE {
            Some(Instruction::RET)
        } else {
            Some(Instruction::SYS(nnn))
        }
    } else if f == 0x1 {
        Some(Instruction::JP(nnn))
    } else if f == 0x2 {
        Some(Instruction::CALL(nnn))
    } else if f == 0x3 {
        Some(Instruction::SE_RV(x, kk))
    } else if f == 0x4 {
        Some(Instruction::SNE_RV(x, kk))
    } else if f == 0x5 {
        if op_n(w) == 0x0 {
            Some(Instruction::SE_RR(x, y))
        } else {
            None
        }
    } else if f == 0x6 {
        Some(Instruction::LD_RV(x, kk))
    } else if f == 0x7 {
        Some(Instruction::ADD_RV(x, kk))
    } else if f == 0x8 {
        let n = op_n(w);
        if n == 0x0 {
            Some(Instruction::LD_RR(x, y))
        } else if n == 0x1 {
            Some(Instruction::OR(x, y))
        } else if n == 0x2 {
            Some(Instruction::AND(x, y))
        } else if n == 0x3 {
            Some(Instruction::XOR(x, y))
        } else if n == 0x4 {
            Some(Instruction::ADD_RR(x, y))
        } else if n == 0x5 {
            Some(Instruction::SUB(x, y))
        } else if n == 0x6 {
            Some(Instruction::SHR(x, y))
        } else if n == 0x7 {
            Some(Instruction::SUBN(x, y))
        } else if n == 0xE {
            Some(Instruction::SHL(x, y))
        } else {
            None
        }
    } else if f == 0x9 {
        if op_n(w) == 0x0 {
            Some(Instruction::SNE_RR(x, y))
        } else {
            None
        }
    } else if f == 0xA {
        Some(Instruction::LD_IV(nnn))
    } else if f == 0xB {
        Some(Instruction::JP_RV(nnn))
    } else if f == 0xC {
        Some(Instruction::RND(x, kk))
    } else if f == 0xD {
        Some(Instruction::DRW(x, y, op_n(w)))
    } else if f == 0xE {
        if kk == 0x9E {
            Some(Instruction::SKP(x))
        } else if kk == 0xA1 {
            Some(Instruction::SKNP(x))
        } else {
            None
        }
    } else {
        if kk == 0x07 {
            Some(Instruction::LD_RD(x))
        } else if kk == 0x0A {
            Some(Instruction::LD_RK(x))
        } else if kk == 0x15 {
            Some(Instruction::LD_DR(x))
        } else if kk == 0x18 {
            Some(Instruction::LD_SR(x))
        } else if kk == 0x1E {
            Some(Instruction::ADD_IR(x))
        } else if kk == 0x29 {
            Some(Instruction::LD_RF(x))
        } else if kk == 0x33 {
            Some(Instruction::LD_BR(x))
        } else if kk == 0x55 {
            Some(Instruction::LD_IRR(x))
        } else if kk == 0x65 {
            Some(Instruction::LD_RRI(x))
        } else {
            None
        }
    }
}

/// What reading a word gives: its instruction, or an error that carries the word.
pub open spec fn read_result(w: u16) -> Result<Instruction, InstructionReadError> {
    match decode(w) {
        Some(i) => Ok(i),
        None => Err(InstructionReadError(w)),
    }
}

impl Instruction {
    /// Decodes one instruction word.
    pub fn read(x: u16) -> (r: Result<Instruction, InstructionReadError>)
        ensures
            r == read_result(x),
    {
        let reg_x = ((x & 0x0F00) >> 8) as u8;
        let reg_y = ((x & 0x00F0) >> 4) as u8;
        let n = (x & 0x000F) as u8;
        let kk = (x & 0x00FF) as u8;
        let nnn = x & 0x0FFF;
        assert((x & 0x0F00) >> 8 == x / 0x100 % 0x10) by (bit_vector);
        assert((x & 0x00F0) >> 4 == x / 0x10 % 0x10) by (bit_vector);
        assert(x & 0x000F == x % 0x10) by (bit_vector);
        assert(x & 0x00FF == x % 0x100) by (bit_vector);
        assert(x & 0x0FFF == x % 0x1000) by (bit_vector);
        assert(x >> 12 == x / 0x1000) by (bit_vector);
        match x >> 12 {
            0x0 => match x {
                0x00E0 => Ok(Instruction::CLS),
                0x00EE => Ok(Instruction::RET),
                _ => Ok(Instruction::SYS(nnn)),
            },
            0x1 => Ok(Instruction::JP(nnn)),
            0x2 => Ok(Instruction::CALL(nnn)),
            0x3 => Ok(Instruction::SE_RV(reg_x, kk)),
            0x4 => Ok(Instruction::SNE_RV(reg_x, kk)),
            0x5 => match n {
                0x0 => Ok(Instruction::SE_RR(reg_x, reg_y)),
                _ => Err(InstructionReadError(x)),
            },
            0x6 => Ok(Instruction::LD_RV(reg_x, kk)),
            0x7 => Ok(Instruction::ADD_RV(reg_x, kk)),
            0x8 => match n {
                0x0 => Ok(Instruction::LD_RR(reg_x, reg_y)),
                0x1 => Ok(Instruction::OR(reg_x, reg_y)),
                0x2 => Ok(Instruction::AND(reg_x, reg_y)),
                0x3 => Ok(Instruction::XOR(reg_x, reg_y)),
                0x4 => Ok(Instruction::ADD_RR(reg_x, reg_y)),
                0x5 => Ok(Instruction::SUB(reg_x, reg_y)),
                0x6 => Ok(Instruction::SHR(reg_x, reg_y)),
                0x7 => Ok(Instruction::SUBN(reg_x, reg_y)),
                0xE => Ok(Instruction::SHL(reg_x, reg_y)),
                _ => Err(InstructionReadError(x)),
            },
            0x9 => match n {
                0x0 => Ok(Instruction::SNE_RR(reg_x, reg_y)),
                _ => Err(InstructionReadError(x)),
            },
            0xA => Ok(Instruction::LD_IV(nnn)),
            0xB => Ok(Instruction::JP_RV(nnn)),
            0xC => Ok(Instruction::RND(reg_x, kk)),
            0xD => Ok(Instruction::DRW(reg_x, reg_y, n)),
            0xE => match kk {
                0x9E => Ok(Instruction::SKP(reg_x)),
                0xA1 => Ok(Instruction::SKNP(reg_x)),
                _ => Err(InstructionReadError(x)),
            },
            _ => match kk {
                0x07 => Ok(Instruction::LD_RD(reg_x)),
                0x0A => Ok(Instruction::LD_RK(reg_x)),
                0x15 => Ok(Instruction::LD_DR(reg_x)),
                0x18 => Ok(Instruction::LD_SR(reg_x)),
                0x1E => Ok(Instruction::ADD_IR(reg_x)),
                0x29 => Ok(Instruction::LD_RF(reg_x)),
                0x33 => Ok(Instruction::LD_BR(reg_x)),
                0x55 => Ok(Instruction::LD_IRR(reg_x)),
                0x65 => Ok(Instruction::LD_RRI(reg_x)),
                _ => Err(InstructionReadError(x)),
            },
        }
    }
}

} // verus!
