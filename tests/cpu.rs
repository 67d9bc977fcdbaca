use chip8::cpu::{Fault, CPU};
use chip8::display::Display;
use chip8::instructions::Instruction;
use chip8::keyboard::{KeyEvent, Keyboard};
use chip8::memory::RAM;
use chip8::Chip8;

struct Rig {
    cpu: CPU,
    ram: RAM,
    keyboard: Keyboard,
    display: Display,
}

fn rig() -> Rig {
    let mut cpu = CPU::default();
    cpu.program_counter = 0x200;
    Rig { cpu, ram: RAM::default(), keyboard: Keyboard::default(), display: Display::default() }
}

fn run(r: &mut Rig, i: Instruction) -> Result<(), Fault> {
    r.cpu.execute_with(&mut r.ram, &r.keyboard, &mut r.display, i, 0xA5)
}

#[test]
fn add_registers_wraps_and_sets_carry() {
    let mut r = rig();
    r.cpu.v_reg[1] = 200;
    r.cpu.v_reg[2] = 100;
    assert_eq!(run(&mut r, Instruction::ADD_RR(1, 2)), Ok(()));
    assert_eq!(r.cpu.v_reg[1], 44);
    assert_eq!(r.cpu.v_reg[0xF], 1);
    assert_eq!(r.cpu.program_counter, 0x202);
    r.cpu.v_reg[3] = 10;
    r.cpu.v_reg[4] = 20;
    run(&mut r, Instruction::ADD_RR(3, 4)).unwrap();
    assert_eq!(r.cpu.v_reg[3], 30);
    assert_eq!(r.cpu.v_reg[0xF], 0);
    r.cpu.v_reg[5] = 128;
    run(&mut r, Instruction::ADD_RR(5, 5)).unwrap();
    assert_eq!(r.cpu.v_reg[5], 0);
    assert_eq!(r.cpu.v_reg[0xF], 1);
}

#[test]
fn subtract_sets_flag_when_no_borrow() {
    let mut r = rig();
    r.cpu.v_reg[1] = 5;
    r.cpu.v_reg[2] = 7;
    run(&mut r, Instruction::SUB(1, 2)).unwrap();
    assert_eq!(r.cpu.v_reg[1], 254);
    assert_eq!(r.cpu.v_reg[0xF], 0);
    r.cpu.v_reg[1] = 7;
    r.cpu.v_reg[2] = 7;
    run(&mut r, Instruction::SUB(1, 2)).unwrap();
    assert_eq!(r.cpu.v_reg[1], 0);
    assert_eq!(r.cpu.v_reg[0xF], 1);
}

#[test]
fn subtract_reversed_mirrors_operands() {
    let mut r = rig();
    r.cpu.v_reg[1] = 5;
    r.cpu.v_reg[2] = 7;
    run(&mut r, Instruction::SUBN(1, 2)).unwrap();
    assert_eq!(r.cpu.v_reg[1], 2);
    assert_eq!(r.cpu.v_reg[0xF], 1);
    r.cpu.v_reg[1] = 9;
    run(&mut r, Instruction::SUBN(1, 2)).unwrap();
    assert_eq!(r.cpu.v_reg[1], 254);
    assert_eq!(r.cpu.v_reg[0xF], 0);
}

#[test]
fn shifts_put_the_lost_bit_in_the_flag() {
    let mut r = rig();
    r.cpu.v_reg[1] = 0b1000_0011;
    run(&mut r, Instruction::SHR(1, 0)).unwrap();
    assert_eq!(r.cpu.v_reg[1], 0b0100_0001);
    assert_eq!(r.cpu.v_reg[0xF], 1);
    r.cpu.v_reg[1] = 0b1000_0011;
    run(&mut r, Instruction::SHL(1, 0)).unwrap();
    assert_eq!(r.cpu.v_reg[1], 0b0000_0110);
    assert_eq!(r.cpu.v_reg[0xF], 1);
    r.cpu.v_reg[1] = 0b0100_0000;
    run(&mut r, Instruction::SHL(1, 0)).unwrap();
    assert_eq!(r.cpu.v_reg[1], 0b1000_0000);
    assert_eq!(r.cpu.v_reg[0xF], 0);
}

#[test]
fn logic_and_loads() {
    let mut r = rig();
    run(&mut r, Instruction::LD_RV(1, 0b1100)).unwrap();
    run(&mut r, Instruction::LD_RV(2, 0b1010)).unwrap();
    run(&mut r, Instruction::LD_RR(3, 1)).unwrap();
    run(&mut r, Instruction::OR(3, 2)).unwrap();
    assert_eq!(r.cpu.v_reg[3], 0b1110);
    run(&mut r, Instruction::LD_RR(3, 1)).unwrap();
    run(&mut r, Instruction::XOR(3, 2)).unwrap();
    assert_eq!(r.cpu.v_reg[3], 0b0110);
    run(&mut r, Instruction::ADD_RV(3, 0xFF)).unwrap();
    assert_eq!(r.cpu.v_reg[3], 0b0101);
    assert_eq!(r.cpu.program_counter, 0x20E);
}

#[test]
fn random_is_masked() {
    let mut r = rig();
    run(&mut r, Instruction::RND(4, 0x0F)).unwrap();
    assert_eq!(r.cpu.v_reg[4], 0x05);
    r.cpu.execute(&mut r.ram, &r.keyboard, &mut r.display, Instruction::RND(4, 0x0F)).unwrap();
    assert!(r.cpu.v_reg[4] <= 0x0F);
}

#[test]
fn skips_advance_one_more_word() {
    let mut r = rig();
    r.cpu.v_reg[1] = 3;
    run(&mut r, Instruction::SE_RV(1, 3)).unwrap();
    assert_eq!(r.cpu.program_counter, 0x204);
    run(&mut r, Instruction::SNE_RV(1, 3)).unwrap();
    assert_eq!(r.cpu.program_counter, 0x206);
    r.cpu.v_reg[2] = 3;
    run(&mut r, Instruction::SE_RR(1, 2)).unwrap();
    assert_eq!(r.cpu.program_counter, 0x20A);
    run(&mut r, Instruction::SNE_RR(1, 2)).unwrap();
    assert_eq!(r.cpu.program_counter, 0x20C);
}

#[test]
fn key_skips_follow_key_state() {
    let mut r = rig();
    r.cpu.v_reg[1] = 7;
    r.keyboard.update_key_states(vec![KeyEvent::Pressed(7)]);
    run(&mut r, Instruction::SKP(1)).unwrap();
    assert_eq!(r.cpu.program_counter, 0x204);
    run(&mut r, Instruction::SKNP(1)).unwrap();
    assert_eq!(r.cpu.program_counter, 0x206);
    r.cpu.v_reg[1] = 16;
    assert_eq!(run(&mut r, Instruction::SKP(1)), Err(Fault::KeyOutOfRange(16)));
    assert_eq!(r.cpu.program_counter, 0x206);
}

#[test]
fn key_wait_repeats_until_a_press() {
    let mut r = rig();
    run(&mut r, Instruction::LD_RK(2)).unwrap();
    assert_eq!(r.cpu.program_counter, 0x200);
    r.keyboard.update_key_states(vec![KeyEvent::Pressed(0xB)]);
    run(&mut r, Instruction::LD_RK(2)).unwrap();
    assert_eq!(r.cpu.program_counter, 0x202);
    assert_eq!(r.cpu.v_reg[2], 0xB);
}

#[test]
fn calls_and_returns_use_the_stack() {
    let mut r = rig();
    run(&mut r, Instruction::CALL(0x300)).unwrap();
    assert_eq!(r.cpu.program_counter, 0x300);
    assert_eq!(r.cpu.stack, vec![0x202]);
    run(&mut r, Instruction::RET).unwrap();
    assert_eq!(r.cpu.program_counter, 0x202);
    assert!(r.cpu.stack.is_empty());
    assert_eq!(run(&mut r, Instruction::RET), Err(Fault::StackUnderflow));
}

#[test]
fn stack_holds_sixteen_returns() {
    let mut r = rig();
    for _ in 0..16 {
        run(&mut r, Instruction::CALL(0x300)).unwrap();
    }
    assert_eq!(run(&mut r, Instruction::CALL(0x300)), Err(Fault::StackOverflow));
    assert_eq!(r.cpu.stack.len(), 16);
    assert_eq!(r.cpu.program_counter, 0x300);
}

#[test]
fn jumps() {
    let mut r = rig();
    run(&mut r, Instruction::JP(0x345)).unwrap();
    assert_eq!(r.cpu.program_counter, 0x345);
    r.cpu.v_reg[0] = 0x10;
    run(&mut r, Instruction::JP_RV(0x300)).unwrap();
    assert_eq!(r.cpu.program_counter, 0x310);
    r.cpu.v_reg[0] = 0xFF;
    run(&mut r, Instruction::JP_RV(0xFFF)).unwrap();
    assert_eq!(r.cpu.program_counter, 0x10FE);
}

#[test]
fn timers_and_index_register() {
    let mut r = rig();
    r.cpu.v_reg[1] = 2;
    run(&mut r, Instruction::LD_DR(1)).unwrap();
    run(&mut r, Instruction::LD_SR(1)).unwrap();
    assert!(r.cpu.is_tone_on());
    r.cpu.countdown_timers();
    run(&mut r, Instruction::LD_RD(3)).unwrap();
    assert_eq!(r.cpu.v_reg[3], 1);
    r.cpu.countdown_timers();
    r.cpu.countdown_timers();
    assert_eq!(r.cpu.delay_timer, 0);
    assert!(!r.cpu.is_tone_on());
    run(&mut r, Instruction::LD_IV(0x123)).unwrap();
    run(&mut r, Instruction::ADD_IR(1)).unwrap();
    assert_eq!(r.cpu.i_reg, 0x125);
    r.cpu.v_reg[4] = 0xA;
    run(&mut r, Instruction::LD_RF(4)).unwrap();
    assert_eq!(r.cpu.i_reg, 50);
}

#[test]
fn bcd_store_writes_three_digits() {
    let mut r = rig();
    r.cpu.v_reg[1] = 254;
    r.cpu.i_reg = 0x400;
    run(&mut r, Instruction::LD_BR(1)).unwrap();
    assert_eq!(r.ram.borrow_memory_range(0x400, 4), &[2, 5, 4, 0]);
    r.cpu.i_reg = 0xFFE;
    assert_eq!(run(&mut r, Instruction::LD_BR(1)), Err(Fault::MemoryOutOfRange));
}

#[test]
fn register_range_store_and_load() {
    let mut r = rig();
    for i in 0..16 {
        r.cpu.v_reg[i] = i as u8 + 1;
    }
    r.cpu.i_reg = 0x500;
    run(&mut r, Instruction::LD_IRR(2)).unwrap();
    assert_eq!(r.ram.borrow_memory_range(0x500, 4), &[1, 2, 3, 0]);
    r.cpu.i_reg = 0x000;
    run(&mut r, Instruction::LD_RRI(4)).unwrap();
    assert_eq!(&r.cpu.v_reg[..6], &[0xF0, 0x90, 0x90, 0x90, 0xF0, 6]);
    assert_eq!(run(&mut r, Instruction::LD_RRI(16)), Err(Fault::RegisterOutOfRange(16)));
}

#[test]
fn draw_reads_sprite_from_index_and_flags_collision() {
    let mut r = rig();
    r.cpu.v_reg[1] = 0;
    r.cpu.v_reg[2] = 0;
    r.cpu.i_reg = 0;
    run(&mut r, Instruction::DRW(1, 2, 5)).unwrap();
    assert_eq!(r.cpu.v_reg[0xF], 0);
    assert!(r.display.dirty);
    assert!(r.display.borrow_display()[0][0]);
    assert!(!r.display.borrow_display()[1][1]);
    run(&mut r, Instruction::DRW(1, 2, 5)).unwrap();
    assert_eq!(r.cpu.v_reg[0xF], 1);
    assert!(!r.display.borrow_display()[0][0]);
    r.display.dirty = false;
    r.display.draw_sprite(9, 9, &[0xFF]);
    run(&mut r, Instruction::CLS).unwrap();
    assert!(r.display.dirty);
    assert!(!r.display.borrow_display()[9][9]);
}

#[test]
fn faults_leave_state_alone() {
    let mut r = rig();
    assert_eq!(run(&mut r, Instruction::SYS(0x123)), Err(Fault::Unsupported(0x123)));
    assert_eq!(run(&mut r, Instruction::LD_RV(16, 1)), Err(Fault::RegisterOutOfRange(16)));
    assert_eq!(run(&mut r, Instruction::ADD_RR(1, 20)), Err(Fault::RegisterOutOfRange(20)));
    r.cpu.i_reg = 0xFFF;
    assert_eq!(run(&mut r, Instruction::DRW(0, 0, 2)), Err(Fault::MemoryOutOfRange));
    r.cpu.i_reg = 0xFFFF;
    r.cpu.v_reg[1] = 1;
    assert_eq!(run(&mut r, Instruction::ADD_IR(1)), Err(Fault::AddressOverflow));
    assert_eq!(r.cpu.program_counter, 0x200);
    assert_eq!(r.cpu.i_reg, 0xFFFF);
    r.cpu.program_counter = 0xFFFE;
    assert_eq!(run(&mut r, Instruction::CLS), Err(Fault::AddressOverflow));
}

#[test]
fn load_and_step_and_with_registers() {
    let mut system = Chip8::default();
    system.load_program(&[0x82, 0x32]);
    assert_eq!(system.cpu.program_counter, 0x200);
    system.cpu.v_reg[2] = 0xFF;
    system.cpu.v_reg[3] = 0x0F;
    assert_eq!(system.step(), Ok(()));
    assert_eq!(system.cpu.v_reg[2], 0x0F);
    assert_eq!(system.cpu.program_counter, 0x202);
}

#[test]
fn step_reports_bad_words_and_fetches() {
    let mut system = Chip8::default();
    system.load_program(&[0x51, 0x23]);
    assert_eq!(system.step(), Err(Fault::InvalidInstruction(0x5123)));
    assert_eq!(system.cpu.program_counter, 0x200);
    system.load_program(&[0x00, 0x00]);
    assert_eq!(system.step(), Err(Fault::Unsupported(0)));
    system.cpu.program_counter = 0xFFF;
    assert_eq!(system.step(), Err(Fault::InvalidFetch(0xFFF)));
}

#[test]
fn chip8_execute_draws_on_its_screen() {
    let mut system = Chip8::default();
    system.cpu.i_reg = 5;
    assert_eq!(system.execute(Instruction::DRW(0, 0, 5)), Ok(()));
    assert!(system.display.dirty);
    assert!(system.display.borrow_display()[2][0]);
    assert!(!system.display.borrow_display()[0][0]);
}
