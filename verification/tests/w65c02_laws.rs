use vm8::cpu::w65c02::cpu::{Flags, Status};
use vm8::cpu::w65c02::inst::{decode, Instruction, Mode, Opcode, Operand};
use vm8::cpu::w65c02::{Bus, FakeBus, CPU};

#[test]
fn pushed_byte_is_popped_back() {
    let mut cpu = CPU::new();
    let mut bus = FakeBus::new();
    cpu.sp = 0x00;
    cpu.push_byte(&mut bus, 0x5A);
    assert_eq!(cpu.sp, 0xFF);
    assert_eq!(bus.mem_read(0x0100), 0x5A);
    assert_eq!(cpu.pop_byte(&mut bus), 0x5A);
    assert_eq!(cpu.sp, 0x00);
}

#[test]
fn pushed_word_is_popped_back() {
    let mut cpu = CPU::new();
    let mut bus = FakeBus::new();
    cpu.sp = 0x01;
    cpu.push_word(&mut bus, 0xBEEF);
    assert_eq!(cpu.sp, 0xFF);
    assert_eq!(bus.mem_read(0x0101), 0xBE);
    assert_eq!(bus.mem_read(0x0100), 0xEF);
    assert_eq!(cpu.pop_word(&mut bus), 0xBEEF);
    assert_eq!(cpu.sp, 0x01);
}

#[test]
fn bus_word_round_trip() {
    let mut bus = FakeBus::new();
    bus.mem_write_word(0xFFFF, 0x1234);
    assert_eq!(bus.mem_read(0xFFFF), 0x34);
    assert_eq!(bus.mem_read(0x0000), 0x12);
    assert_eq!(bus.mem_read_word(0xFFFF), 0x1234);
    bus.mem_write_word_page_wrap(0x12FF, 0x5678);
    assert_eq!(bus.mem_read(0x12FF), 0x78);
    assert_eq!(bus.mem_read(0x1200), 0x56);
    assert_eq!(bus.mem_read(0x1300), 0x00);
    assert_eq!(bus.mem_read_word_page_wrap(0x12FF), 0x5678);
}

#[test]
fn zeropage_word_round_trip() {
    let mut cpu = CPU::new();
    let mut bus = FakeBus::new();
    cpu.zeropage_write_word(&mut bus, 0xF0, 0x0F, 0xCAFE);
    assert_eq!(bus.mem_read(0x00FF), 0xFE);
    assert_eq!(bus.mem_read(0x0000), 0xCA);
    assert_eq!(cpu.zeropage_read_word(&mut bus, 0xFF, 0x00), 0xCAFE);
}

#[test]
fn status_insert_and_remove() {
    let mut status = Status::from_bits_retain(0x00);
    status.insert(Flags::CARRY);
    status.insert(Flags::NEGATIVE);
    assert!(status.contains(Flags::CARRY));
    assert!(status.contains(Flags::NEGATIVE));
    assert!(!status.contains(Flags::ZERO));
    assert_eq!(status.bits(), 0x81);
    status.remove(Flags::CARRY);
    assert!(!status.contains(Flags::CARRY));
    assert!(status.contains(Flags::NEGATIVE));
    status.set(Flags::ZERO, true);
    assert_eq!(status.bits(), 0x82);
}

#[test]
fn instruction_text() {
    let i = Instruction { opcode: Opcode::LDA, operand: Operand::Immediate(0x42), cycles: 2 };
    assert_eq!(i.to_string(), "LDA #$42");
    assert_eq!(Operand::IndirectY(0x0A).to_string(), "($0A),Y");
    assert_eq!(Operand::IndirectX(0xFF).to_string(), "($FF,X)");
    assert_eq!(Operand::Indirect(0xBEEF).to_string(), "($BEEF)");
    assert_eq!(Operand::AbsoluteX(0x1234).to_string(), "$1234,X");
    assert_eq!(Operand::Accumulator.to_string(), "A");
    let i = Instruction { opcode: Opcode::NOP, operand: Operand::Implied, cycles: 2 };
    assert_eq!(i.to_string(), "NOP ");
    assert_eq!(Opcode::TYA.name(), "TYA");
}

#[test]
fn fresh_plain_bus_reads_zero_everywhere_sampled() {
    let bus = FakeBus::new();
    assert_eq!(bus.mem_read(0x0000), 0);
    assert_eq!(bus.mem_read(0x01FF), 0);
    assert_eq!(bus.mem_read(0xFFFF), 0);
}

#[test]
fn decode_reads_one_opcode_and_advances_pc() {
    let mut bus = FakeBus::new();
    bus.mem_write(0x0200, 0x6C);
    bus.mem_write(0x0201, 0x20);
    bus.mem_write(0x0202, 0x00);
    let mut cpu = CPU::new();
    cpu.pc = 0x0200;
    let before = (cpu.a, cpu.x, cpu.y, cpu.sp);
    let d = decode(&mut cpu, &mut bus);
    assert_eq!((d.opcode, d.address_mode, d.cycles), (Opcode::JMP, Mode::Indirect, 5));
    assert_eq!(cpu.pc, 0x0201);
    assert_eq!((cpu.a, cpu.x, cpu.y, cpu.sp), before);
    let d = decode(&mut cpu, &mut bus);
    assert_eq!((d.opcode, d.address_mode, d.cycles), (Opcode::JSR, Mode::Absolute, 6));
    let d = decode(&mut cpu, &mut bus);
    assert_eq!((d.opcode, d.address_mode, d.cycles), (Opcode::BRK, Mode::Implied, 7));
    assert_eq!(cpu.pc, 0x0203);
}

#[test]
fn operand_write_reads_back() {
    let mut bus = FakeBus::new();
    let mut cpu = CPU::new();
    cpu.x = 0x10;
    let op = Operand::ZeroPageX(0xF8);
    op.write(&mut cpu, &mut bus, 0x77);
    assert_eq!(bus.mem_read(0x0008), 0x77);
    assert_eq!(op.read(&mut cpu, &mut bus), 0x77);
    Operand::Accumulator.write(&mut cpu, &mut bus, 0x55);
    assert_eq!(cpu.a, 0x55);
    assert_eq!(Operand::Accumulator.read(&mut cpu, &mut bus), 0x55);
}
