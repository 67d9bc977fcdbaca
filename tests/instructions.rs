use chip8::instructions::{Instruction, InstructionReadError};

#[test]
fn decodes_clear_and_return() {
    assert_eq!(Instruction::read(0x00E0), Ok(Instruction::CLS));
    assert_eq!(Instruction::read(0x00EE), Ok(Instruction::RET));
}

#[test]
fn decodes_jump_and_load() {
    assert_eq!(Instruction::read(0x1228), Ok(Instruction::JP(0x228)));
    assert_eq!(Instruction::read(0x6A02), Ok(Instruction::LD_RV(0xA, 0x02)));
}

#[test]
fn rejects_skip_equal_with_nonzero_low_nibble() {
    let r = Instruction::read(0x5123);
    assert_eq!(r, Err(InstructionReadError(0x5123)));
    assert_eq!(r.unwrap_err().word(), 0x5123);
}

#[test]
fn decodes_machine_call_with_address() {
    assert_eq!(Instruction::read(0x0123), Ok(Instruction::SYS(0x123)));
}

#[test]
fn decodes_arithmetic_family() {
    assert_eq!(Instruction::read(0x8230), Ok(Instruction::LD_RR(2, 3)));
    assert_eq!(Instruction::read(0x8231), Ok(Instruction::OR(2, 3)));
    assert_eq!(Instruction::read(0x8232), Ok(Instruction::AND(2, 3)));
    assert_eq!(Instruction::read(0x8233), Ok(Instruction::XOR(2, 3)));
    assert_eq!(Instruction::read(0x8234), Ok(Instruction::ADD_RR(2, 3)));
    assert_eq!(Instruction::read(0x8235), Ok(Instruction::SUB(2, 3)));
    assert_eq!(Instruction::read(0x8236), Ok(Instruction::SHR(2, 3)));
    assert_eq!(Instruction::read(0x8237), Ok(Instruction::SUBN(2, 3)));
    assert_eq!(Instruction::read(0x823E), Ok(Instruction::SHL(2, 3)));
    assert_eq!(Instruction::read(0x8238), Err(InstructionReadError(0x8238)));
}

#[test]
fn decodes_other_families() {
    assert_eq!(Instruction::read(0x2ABC), Ok(Instruction::CALL(0xABC)));
    assert_eq!(Instruction::read(0x3A12), Ok(Instruction::SE_RV(0xA, 0x12)));
    assert_eq!(Instruction::read(0x4A12), Ok(Instruction::SNE_RV(0xA, 0x12)));
    assert_eq!(Instruction::read(0x5AB0), Ok(Instruction::SE_RR(0xA, 0xB)));
    assert_eq!(Instruction::read(0x7A12), Ok(Instruction::ADD_RV(0xA, 0x12)));
    assert_eq!(Instruction::read(0x9AB0), Ok(Instruction::SNE_RR(0xA, 0xB)));
    assert_eq!(Instruction::read(0x9AB1), Err(InstructionReadError(0x9AB1)));
    assert_eq!(Instruction::read(0xA123), Ok(Instruction::LD_IV(0x123)));
    assert_eq!(Instruction::read(0xB123), Ok(Instruction::JP_RV(0x123)));
    assert_eq!(Instruction::read(0xC3F0), Ok(Instruction::RND(3, 0xF0)));
    assert_eq!(Instruction::read(0xD125), Ok(Instruction::DRW(1, 2, 5)));
    assert_eq!(Instruction::read(0xE59E), Ok(Instruction::SKP(5)));
    assert_eq!(Instruction::read(0xE5A1), Ok(Instruction::SKNP(5)));
    assert_eq!(Instruction::read(0xE5FF), Err(InstructionReadError(0xE5FF)));
}

#[test]
fn decodes_f_family() {
    assert_eq!(Instruction::read(0xF107), Ok(Instruction::LD_RD(1)));
    assert_eq!(Instruction::read(0xF10A), Ok(Instruction::LD_RK(1)));
    assert_eq!(Instruction::read(0xF115), Ok(Instruction::LD_DR(1)));
    assert_eq!(Instruction::read(0xF118), Ok(Instruction::LD_SR(1)));
    assert_eq!(Instruction::read(0xF11E), Ok(Instruction::ADD_IR(1)));
    assert_eq!(Instruction::read(0xF129), Ok(Instruction::LD_RF(1)));
    assert_eq!(Instruction::read(0xF133), Ok(Instruction::LD_BR(1)));
    assert_eq!(Instruction::read(0xF155), Ok(Instruction::LD_IRR(1)));
    assert_eq!(Instruction::read(0xF165), Ok(Instruction::LD_RRI(1)));
    assert_eq!(Instruction::read(0xF199), Err(InstructionReadError(0xF199)));
}
