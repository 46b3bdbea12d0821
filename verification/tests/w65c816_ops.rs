use std::str::FromStr;

use vm8::cpu::w65c816::bus::Fake;
use vm8::cpu::w65c816::ev::Retain;
use vm8::cpu::w65c816::status::FlagExpectation;
use vm8::cpu::w65c816::{Addr, AddrWrap, Bus, Event, NullReporter, CPU};

fn cpu_from(s: &str) -> CPU {
    CPU::from_str(s).unwrap()
}

fn bus_from(s: &str) -> Fake {
    let mut bus = Fake::new();
    if s == "" {
        return bus;
    }
    for prop in s.split(',') {
        let mut parts = prop.split(':');
        let left = parts.next().unwrap();
        let mut right = parts.next().unwrap();
        let bank = u8::from_str_radix(&left[0..2], 16).unwrap();
        let offset = u16::from_str_radix(&left[2..], 16).unwrap();
        let mut addr = Addr::from(bank, offset);
        while right.len() > 0 {
            let byte = u8::from_str_radix(&right[0..2], 16).unwrap();
            bus.write_byte(addr, byte);
            addr = addr.inc(AddrWrap::Long);
            right = &right[2..];
        }
    }
    bus
}

fn flags_from(s: &str) -> FlagExpectation {
    FlagExpectation::from_str(s).unwrap()
}

fn assert_flags(expected: &FlagExpectation, p: u8) {
    for &(flag, set) in expected.0.iter() {
        if set {
            assert_eq!(p & flag.mask(), flag.mask(), "flag {:?} is unexpectedly reset", flag);
        } else {
            assert_eq!(p & flag.mask(), 0, "flag {:?} is unexpectedly set", flag);
        }
    }
    assert!(expected.holds(p));
}

fn assert_exec(reporter: &Retain, expected_inst: &str, expected_ops: &str) {
    match reporter.last() {
        Some(Event::Exec { instruction, operands, .. }) => {
            assert_eq!(expected_inst, instruction);
            assert_eq!(expected_ops, operands);
        }
        None => panic!("Expected Event::Exec, got nothing"),
    }
}

fn assert_stack_byte(cpu: &CPU, bus: &impl Bus, offset: u16, expected: u8) {
    assert_eq!(
        bus.read_byte(Addr::from(0, cpu.regs.sp() + offset + 1)),
        expected,
        "unexpected stack byte at {:#X}",
        cpu.regs.sp() + offset + 1,
    );
}

fn assert_stack_bytes(cpu: &CPU, bus: &impl Bus, offset: u16, expected: &[u8]) {
    for (i, &expected) in expected.iter().enumerate() {
        assert_stack_byte(cpu, bus, offset + i as u16, expected);
    }
}

fn assert_program_counter(cpu: &CPU, expected_bank: u8, expected_pc: u16) {
    assert_eq!(cpu.regs.pbr(), expected_bank, "unexpected program bank: {:#X}", cpu.regs.pbr());
    assert_eq!(cpu.regs.pc(), expected_pc, "unexpected program counter: {:#X}", cpu.regs.pc());
}

fn assert_accum(cpu: &CPU, expected: u16) {
    assert_eq!(cpu.regs.a(), expected, "unexpected accumulator: {:#X}", cpu.regs.a());
}

fn assert_index_y(cpu: &CPU, expected: u16) {
    assert_eq!(cpu.regs.y(), expected, "unexpected index y: {:#X}", cpu.regs.y());
}

fn read_direct_word(cpu: &CPU, bus: &impl Bus, dir: u8, idx: u16) -> u16 {
    let wrap = if cpu.regs.mode_is_emulated() && cpu.regs.dl() == 0 {
        AddrWrap::Byte
    } else {
        AddrWrap::Word
    };
    let addr = Addr::from(0, cpu.regs.dp()).wrapping_add(dir, wrap).wrapping_add(idx as u8, wrap);
    bus.read_word(addr, wrap)
}

#[test]
fn adc_results_emulation() {
    let mut cpu = cpu_from("P.E:1,PC:A000,A:1123");
    let mut bus = bus_from("00A000:6945");
    let expected: u16 = 0x1168;
    let expected_flags = flags_from("C:0,Z:0,V:0,N:0");

    cpu.step(&mut bus, &mut NullReporter);

    assert_accum(&cpu, expected);
    assert_flags(&expected_flags, cpu.regs.p());
}

#[test]
fn adc_results_native_8bit() {
    let mut cpu = cpu_from("P.E:0,P.M:1,PC:A000,A:1123");
    let mut bus = bus_from("00A000:6945");
    let expected: u16 = 0x1168;
    let expected_flags = flags_from("C:0,Z:0,V:0,N:0");

    cpu.step(&mut bus, &mut NullReporter);

    assert_accum(&cpu, expected);
    assert_flags(&expected_flags, cpu.regs.p());
}

#[test]
fn adc_results_native_8bit_bcd() {
    let mut cpu = cpu_from("P.E:0,P.M:1,P.D:1,PC:A000,A:1123");
    let mut bus = bus_from("00A000:6929");
    let expected: u16 = 0x1152;
    let expected_flags = flags_from("C:0,Z:0,V:0,N:0");

    cpu.step(&mut bus, &mut NullReporter);

    assert_accum(&cpu, expected);
    assert_flags(&expected_flags, cpu.regs.p());
}

#[test]
fn adc_results_native_8bit_carry_in() {
    let mut cpu = cpu_from("P.E:0,P.M:1,P.C:1,PC:A000,A:1123");
    let mut bus = bus_from("00A000:6945");
    let expected: u16 = 0x1169;
    let expected_flags = flags_from("C:0,Z:0,V:0,N:0");

    cpu.step(&mut bus, &mut NullReporter);

    assert_accum(&cpu, expected);
    assert_flags(&expected_flags, cpu.regs.p());
}

#[test]
fn adc_results_native_8bit_carry_out() {
    let mut cpu = cpu_from("P.E:0,P.M:1,PC:A000,A:11F0");
    let mut bus = bus_from("00A000:6911");
    let expected: u16 = 0x1101;
    let expected_flags = flags_from("C:1,Z:0,V:0,N:0");

    cpu.step(&mut bus, &mut NullReporter);

    assert_accum(&cpu, expected);
    assert_flags(&expected_flags, cpu.regs.p());
}

#[test]
fn adc_results_native_8bit_zero() {
    let mut cpu = cpu_from("P.E:0,P.M:1,PC:A000,A:1100");
    let mut bus = bus_from("00A000:6900");
    let expected: u16 = 0x1100;
    let expected_flags = flags_from("C:0,Z:1,V:0,N:0");

    cpu.step(&mut bus, &mut NullReporter);

    assert_accum(&cpu, expected);
    assert_flags(&expected_flags, cpu.regs.p());
}

#[test]
fn adc_results_native_8bit_overflow() {
    let mut cpu = cpu_from("P.E:0,P.M:1,PC:A000,A:117F");
    let mut bus = bus_from("00A000:6901");
    let expected: u16 = 0x1180;
    let expected_flags = flags_from("C:0,Z:0,V:1,N:1");

    cpu.step(&mut bus, &mut NullReporter);

    assert_accum(&cpu, expected);
    assert_flags(&expected_flags, cpu.regs.p());
}

#[test]
fn adc_results_native_8bit_neg() {
    let mut cpu = cpu_from("P.E:0,P.M:1,PC:A000,A:1182");
    let mut bus = bus_from("00A000:6901");
    let expected: u16 = 0x1183;
    let expected_flags = flags_from("C:0,Z:0,V:0,N:1");

    cpu.step(&mut bus, &mut NullReporter);

    assert_accum(&cpu, expected);
    assert_flags(&expected_flags, cpu.regs.p());
}

#[test]
fn adc_results_native_16bit() {
    let mut cpu = cpu_from("P.E:0,P.M:0,PC:A000,A:1234");
    let mut bus = bus_from("00A000:697856");
    let expected: u16 = 0x68AC;
    let expected_flags = flags_from("C:0,Z:0,V:0,N:0");

    cpu.step(&mut bus, &mut NullReporter);

    assert_accum(&cpu, expected);
    assert_flags(&expected_flags, cpu.regs.p());
}

#[test]
fn adc_results_native_16bit_bcd() {
    let mut cpu = cpu_from("P.E:0,P.M:0,P.D:1,PC:A000,A:1234");
    let mut bus = bus_from("00A000:697856");
    let expected: u16 = 0x6912;
    let expected_flags = flags_from("C:0,Z:0,V:0,N:0");

    cpu.step(&mut bus, &mut NullReporter);

    assert_accum(&cpu, expected);
    assert_flags(&expected_flags, cpu.regs.p());
}

#[test]
fn adc_results_native_16bit_carry_in() {
    let mut cpu = cpu_from("P.E:0,P.M:0,P.C:1,PC:A000,A:1234");
    let mut bus = bus_from("00A000:697856");
    let expected: u16 = 0x68AD;
    let expected_flags = flags_from("C:0,Z:0,V:0,N:0");

    cpu.step(&mut bus, &mut NullReporter);

    assert_accum(&cpu, expected);
    assert_flags(&expected_flags, cpu.regs.p());
}

#[test]
fn adc_results_native_16bit_carry_out() {
    let mut cpu = cpu_from("P.E:0,P.M:0,PC:A000,A:FFF0");
    let mut bus = bus_from("00A000:691100");
    let expected: u16 = 0x0001;
    let expected_flags = flags_from("C:1,Z:0,V:0,N:0");

    cpu.step(&mut bus, &mut NullReporter);

    assert_accum(&cpu, expected);
    assert_flags(&expected_flags, cpu.regs.p());
}

#[test]
fn adc_results_native_16bit_zero() {
    let mut cpu = cpu_from("P.E:0,P.M:0,PC:A000,A:0000");
    let mut bus = bus_from("00A000:690000");
    let expected: u16 = 0x0000;
    let expected_flags = flags_from("C:0,Z:1,V:0,N:0");

    cpu.step(&mut bus, &mut NullReporter);

    assert_accum(&cpu, expected);
    assert_flags(&expected_flags, cpu.regs.p());
}

#[test]
fn adc_results_native_16bit_overflow() {
    let mut cpu = cpu_from("P.E:0,P.M:0,PC:A000,A:7FF0");
    let mut bus = bus_from("00A000:691100");
    let expected: u16 = 0x8001;
    let expected_flags = flags_from("C:0,Z:0,V:1,N:1");

    cpu.step(&mut bus, &mut NullReporter);

    assert_accum(&cpu, expected);
    assert_flags(&expected_flags, cpu.regs.p());
}

#[test]
fn adc_results_native_16bit_neg() {
    let mut cpu = cpu_from("P.E:0,P.M:0,PC:A000,A:8122");
    let mut bus = bus_from("00A000:690100");
    let expected: u16 = 0x8123;
    let expected_flags = flags_from("C:0,Z:0,V:0,N:1");

    cpu.step(&mut bus, &mut NullReporter);

    assert_accum(&cpu, expected);
    assert_flags(&expected_flags, cpu.regs.p());
}

#[test]
fn adc_decoding_absolute() {
    let mut cpu = cpu_from("PC:A000");
    let mut bus = bus_from("00A000:6D5634");
    let expected: (&'static str, &'static str) = ("ADC", "$3456");
    let expected_pc: u16 = 0xA003;

    let mut reporter = Retain::new();
    cpu.step(&mut bus, &mut reporter);

    let (expected_inst, expected_ops) = expected;
    assert_exec(&reporter, expected_inst, expected_ops);
    assert_program_counter(&cpu, cpu.regs.pbr(), expected_pc);
}

#[test]
fn adc_decoding_absolute_indexed_x() {
    let mut cpu = cpu_from("PC:A000");
    let mut bus = bus_from("00A000:7D5634");
    let expected: (&'static str, &'static str) = ("ADC", "$3456,X");
    let expected_pc: u16 = 0xA003;

    let mut reporter = Retain::new();
    cpu.step(&mut bus, &mut reporter);

    let (expected_inst, expected_ops) = expected;
    assert_exec(&reporter, expected_inst, expected_ops);
    assert_program_counter(&cpu, cpu.regs.pbr(), expected_pc);
}

#[test]
fn adc_decoding_absolute_indexed_y() {
    let mut cpu = cpu_from("PC:A000");
    let mut bus = bus_from("00A000:795634");
    let expected: (&'static str, &'static str) = ("ADC", "$3456,Y");
    let expected_pc: u16 = 0xA003;

    let mut reporter = Retain::new();
    cpu.step(&mut bus, &mut reporter);

    let (expected_inst, expected_ops) = expected;
    assert_exec(&reporter, expected_inst, expected_ops);
    assert_program_counter(&cpu, cpu.regs.pbr(), expected_pc);
}

#[test]
fn adc_decoding_absolute_long() {
    let mut cpu = cpu_from("PC:A000");
    let mut bus = bus_from("00A000:6F563412");
    let expected: (&'static str, &'static str) = ("ADC", "$123456");
    let expected_pc: u16 = 0xA004;

    let mut reporter = Retain::new();
    cpu.step(&mut bus, &mut reporter);

    let (expected_inst, expected_ops) = expected;
    assert_exec(&reporter, expected_inst, expected_ops);
    assert_program_counter(&cpu, cpu.regs.pbr(), expected_pc);
}

#[test]
fn adc_decoding_absolute_long_indexed() {
    let mut cpu = cpu_from("PC:A000");
    let mut bus = bus_from("00A000:7F563412");
    let expected: (&'static str, &'static str) = ("ADC", "$123456,X");
    let expected_pc: u16 = 0xA004;

    let mut reporter = Retain::new();
    cpu.step(&mut bus, &mut reporter);

    let (expected_inst, expected_ops) = expected;
    assert_exec(&reporter, expected_inst, expected_ops);
    assert_program_counter(&cpu, cpu.regs.pbr(), expected_pc);
}

#[test]
fn adc_decoding_direct() {
    let mut cpu = cpu_from("PC:A000");
    let mut bus = bus_from("00A000:6504");
    let expected: (&'static str, &'static str) = ("ADC", "$04");
    let expected_pc: u16 = 0xA002;

    let mut reporter = Retain::new();
    cpu.step(&mut bus, &mut reporter);

    let (expected_inst, expected_ops) = expected;
    assert_exec(&reporter, expected_inst, expected_ops);
    assert_program_counter(&cpu, cpu.regs.pbr(), expected_pc);
}

#[test]
fn adc_decoding_direct_indirect_indexed() {
    let mut cpu = cpu_from("PC:A000");
    let mut bus = bus_from("00A000:7104");
    let expected: (&'static str, &'static str) = ("ADC", "($04),Y");
    let expected_pc: u16 = 0xA002;

    let mut reporter = Retain::new();
    cpu.step(&mut bus, &mut reporter);

    let (expected_inst, expected_ops) = expected;
    assert_exec(&reporter, expected_inst, expected_ops);
    assert_program_counter(&cpu, cpu.regs.pbr(), expected_pc);
}

#[test]
fn adc_decoding_direct_indexed_indirect() {
    let mut cpu = cpu_from("PC:A000");
    let mut bus = bus_from("00A000:6104");
    let expected: (&'static str, &'static str) = ("ADC", "($04,X)");
    let expected_pc: u16 = 0xA002;

    let mut reporter = Retain::new();
    cpu.step(&mut bus, &mut reporter);

    let (expected_inst, expected_ops) = expected;
    assert_exec(&reporter, expected_inst, expected_ops);
    assert_program_counter(&cpu, cpu.regs.pbr(), expected_pc);
}

#[test]
fn adc_decoding_direct_indexed_x() {
    let mut cpu = cpu_from("PC:A000");
    let mut bus = bus_from("00A000:7504");
    let expected: (&'static str, &'static str) = ("ADC", "$04,X");
    let expected_pc: u16 = 0xA002;

    let mut reporter = Retain::new();
    cpu.step(&mut bus, &mut reporter);

    let (expected_inst, expected_ops) = expected;
    assert_exec(&reporter, expected_inst, expected_ops);
    assert_program_counter(&cpu, cpu.regs.pbr(), expected_pc);
}

#[test]
fn adc_decoding_direct_indirect() {
    let mut cpu = cpu_from("PC:A000");
    let mut bus = bus_from("00A000:7244");
    let expected: (&'static str, &'static str) = ("ADC", "($44)");
    let expected_pc: u16 = 0xA002;

    let mut reporter = Retain::new();
    cpu.step(&mut bus, &mut reporter);

    let (expected_inst, expected_ops) = expected;
    assert_exec(&reporter, expected_inst, expected_ops);
    assert_program_counter(&cpu, cpu.regs.pbr(), expected_pc);
}

#[test]
fn adc_decoding_direct_indirect_long() {
    let mut cpu = cpu_from("PC:A000");
    let mut bus = bus_from("00A000:6744");
    let expected: (&'static str, &'static str) = ("ADC", "[$44]");
    let expected_pc: u16 = 0xA002;

    let mut reporter = Retain::new();
    cpu.step(&mut bus, &mut reporter);

    let (expected_inst, expected_ops) = expected;
    assert_exec(&reporter, expected_inst, expected_ops);
    assert_program_counter(&cpu, cpu.regs.pbr(), expected_pc);
}

#[test]
fn adc_decoding_direct_indirect_long_indexed() {
    let mut cpu = cpu_from("PC:A000");
    let mut bus = bus_from("00A000:7744");
    let expected: (&'static str, &'static str) = ("ADC", "[$44],Y");
    let expected_pc: u16 = 0xA002;

    let mut reporter = Retain::new();
    cpu.step(&mut bus, &mut reporter);

    let (expected_inst, expected_ops) = expected;
    assert_exec(&reporter, expected_inst, expected_ops);
    assert_program_counter(&cpu, cpu.regs.pbr(), expected_pc);
}

#[test]
fn adc_decoding_immediate() {
    let mut cpu = cpu_from("PC:A000");
    let mut bus = bus_from("00A000:69FFFF");
    let expected: (&'static str, &'static str) = ("ADC", "#$FFFF");
    let expected_pc: u16 = 0xA003;

    let mut reporter = Retain::new();
    cpu.step(&mut bus, &mut reporter);

    let (expected_inst, expected_ops) = expected;
    assert_exec(&reporter, expected_inst, expected_ops);
    assert_program_counter(&cpu, cpu.regs.pbr(), expected_pc);
}

#[test]
fn adc_decoding_stack_relative() {
    let mut cpu = cpu_from("PC:A000");
    let mut bus = bus_from("00A000:6304");
    let expected: (&'static str, &'static str) = ("ADC", "$04,S");
    let expected_pc: u16 = 0xA002;

    let mut reporter = Retain::new();
    cpu.step(&mut bus, &mut reporter);

    let (expected_inst, expected_ops) = expected;
    assert_exec(&reporter, expected_inst, expected_ops);
    assert_program_counter(&cpu, cpu.regs.pbr(), expected_pc);
}

#[test]
fn adc_decoding_stack_relative_indirect_indexed() {
    let mut cpu = cpu_from("PC:A000");
    let mut bus = bus_from("00A000:7304");
    let expected: (&'static str, &'static str) = ("ADC", "($04,S),Y");
    let expected_pc: u16 = 0xA002;

    let mut reporter = Retain::new();
    cpu.step(&mut bus, &mut reporter);

    let (expected_inst, expected_ops) = expected;
    assert_exec(&reporter, expected_inst, expected_ops);
    assert_program_counter(&cpu, cpu.regs.pbr(), expected_pc);
}

#[test]
fn and_results_emulation() {
    let mut cpu = cpu_from("P.E:1,PC:A000,A:1122");
    let mut bus = bus_from("00A000:29F0");
    let expected: u16 = 0x1120;
    let expected_flags = flags_from("Z:0,N:0");

    cpu.step(&mut bus, &mut NullReporter);

    assert_accum(&cpu, expected);
    assert_flags(&expected_flags, cpu.regs.p());
}

#[test]
fn and_results_native_8bit() {
    let mut cpu = cpu_from("P.E:0,P.M:1,PC:A000,A:1122");
    let mut bus = bus_from("00A000:29F0");
    let expected: u16 = 0x1120;
    let expected_flags = flags_from("Z:0,N:0");

    cpu.step(&mut bus, &mut NullReporter);

    assert_accum(&cpu, expected);
    assert_flags(&expected_flags, cpu.regs.p());
}

#[test]
fn and_results_native_16bit() {
    let mut cpu = cpu_from("P.E:0,P.M:0,PC:A000,A:1122");
    let mut bus = bus_from("00A000:29F00F");
    let expected: u16 = 0x0120;
    let expected_flags = flags_from("Z:0,N:0");

    cpu.step(&mut bus, &mut NullReporter);

    assert_accum(&cpu, expected);
    assert_flags(&expected_flags, cpu.regs.p());
}

#[test]
fn and_results_native_8bit_zero() {
    let mut cpu = cpu_from("P.E:0,P.M:1,PC:A000,A:1122");
    let mut bus = bus_from("00A000:2900");
    let expected: u16 = 0x1100;
    let expected_flags = flags_from("Z:1,N:0");

    cpu.step(&mut bus, &mut NullReporter);

    assert_accum(&cpu, expected);
    assert_flags(&expected_flags, cpu.regs.p());
}

#[test]
fn and_results_native_16bit_zero() {
    let mut cpu = cpu_from("P.E:0,P.M:0,PC:A000,A:1122");
    let mut bus = bus_from("00A000:290000");
    let expected: u16 = 0x0000;
    let expected_flags = flags_from("Z:1,N:0");

    cpu.step(&mut bus, &mut NullReporter);

    assert_accum(&cpu, expected);
    assert_flags(&expected_flags, cpu.regs.p());
}

#[test]
fn and_results_native_8bit_neg() {
    let mut cpu = cpu_from("P.E:0,P.M:1,PC:A000,A:1182");
    let mut bus = bus_from("00A000:29F0");
    let expected: u16 = 0x1180;
    let expected_flags = flags_from("Z:0,N:1");

    cpu.step(&mut bus, &mut NullReporter);

    assert_accum(&cpu, expected);
    assert_flags(&expected_flags, cpu.regs.p());
}

#[test]
fn and_results_native_16bit_neg() {
    let mut cpu = cpu_from("P.E:0,P.M:0,PC:A000,A:8122");
    let mut bus = bus_from("00A000:29F0F0");
    let expected: u16 = 0x8020;
    let expected_flags = flags_from("Z:0,N:1");

    cpu.step(&mut bus, &mut NullReporter);

    assert_accum(&cpu, expected);
    assert_flags(&expected_flags, cpu.regs.p());
}

#[test]
fn and_decoding_absolute() {
    let mut cpu = cpu_from("PC:A000");
    let mut bus = bus_from("00A000:2D5634");
    let expected: (&'static str, &'static str) = ("AND", "$3456");
    let expected_pc: u16 = 0xA003;

    let mut reporter = Retain::new();
    cpu.step(&mut bus, &mut reporter);

    let (expected_inst, expected_ops) = expected;
    assert_exec(&reporter, expected_inst, expected_ops);
    assert_program_counter(&cpu, cpu.regs.pbr(), expected_pc);
}

#[test]
fn and_decoding_absolute_indexed_x() {
    let mut cpu = cpu_from("PC:A000");
    let mut bus = bus_from("00A000:3D5634");
    let expected: (&'static str, &'static str) = ("AND", "$3456,X");
    let expected_pc: u16 = 0xA003;

    let mut reporter = Retain::new();
    cpu.step(&mut bus, &mut reporter);

    let (expected_inst, expected_ops) = expected;
    assert_exec(&reporter, expected_inst, expected_ops);
    assert_program_counter(&cpu, cpu.regs.pbr(), expected_pc);
}

#[test]
fn and_decoding_absolute_indexed_y() {
    let mut cpu = cpu_from("PC:A000");
    let mut bus = bus_from("00A000:395634");
    let expected: (&'static str, &'static str) = ("AND", "$3456,Y");
    let expected_pc: u16 = 0xA003;

    let mut reporter = Retain::new();
    cpu.step(&mut bus, &mut reporter);

    let (expected_inst, expected_ops) = expected;
    assert_exec(&reporter, expected_inst, expected_ops);
    assert_program_counter(&cpu, cpu.regs.pbr(), expected_pc);
}

#[test]
fn and_decoding_absolute_long() {
    let mut cpu = cpu_from("PC:A000");
    let mut bus = bus_from("00A000:2F563412");
    let expected: (&'static str, &'static str) = ("AND", "$123456");
    let expected_pc: u16 = 0xA004;

    let mut reporter = Retain::new();
    cpu.step(&mut bus, &mut reporter);

    let (expected_inst, expected_ops) = expected;
    assert_exec(&reporter, expected_inst, expected_ops);
    assert_program_counter(&cpu, cpu.regs.pbr(), expected_pc);
}

#[test]
fn and_decoding_absolute_long_indexed() {
    let mut cpu = cpu_from("PC:A000");
    let mut bus = bus_from("00A000:3F563412");
    let expected: (&'static str, &'static str) = ("AND", "$123456,X");
    let expected_pc: u16 = 0xA004;

    let mut reporter = Retain::new();
    cpu.step(&mut bus, &mut reporter);

    let (expected_inst, expected_ops) = expected;
    assert_exec(&reporter, expected_inst, expected_ops);
    assert_program_counter(&cpu, cpu.regs.pbr(), expected_pc);
}

#[test]
fn and_decoding_direct() {
    let mut cpu = cpu_from("PC:A000");
    let mut bus = bus_from("00A000:2504");
    let expected: (&'static str, &'static str) = ("AND", "$04");
    let expected_pc: u16 = 0xA002;

    let mut reporter = Retain::new();
    cpu.step(&mut bus, &mut reporter);

    let (expected_inst, expected_ops) = expected;
    assert_exec(&reporter, expected_inst, expected_ops);
    assert_program_counter(&cpu, cpu.regs.pbr(), expected_pc);
}

#[test]
fn and_decoding_direct_indirect_indexed() {
    let mut cpu = cpu_from("PC:A000");
    let mut bus = bus_from("00A000:3104");
    let expected: (&'static str, &'static str) = ("AND", "($04),Y");
    let expected_pc: u16 = 0xA002;

    let mut reporter = Retain::new();
    cpu.step(&mut bus, &mut reporter);

    let (expected_inst, expected_ops) = expected;
    assert_exec(&reporter, expected_inst, expected_ops);
    assert_program_counter(&cpu, cpu.regs.pbr(), expected_pc);
}

#[test]
fn and_decoding_direct_indexed_indirect() {
    let mut cpu = cpu_from("PC:A000");
    let mut bus = bus_from("00A000:2104");
    let expected: (&'static str, &'static str) = ("AND", "($04,X)");
    let expected_pc: u16 = 0xA002;

    let mut reporter = Retain::new();
    cpu.step(&mut bus, &mut reporter);

    let (expected_inst, expected_ops) = expected;
    assert_exec(&reporter, expected_inst, expected_ops);
    assert_program_counter(&cpu, cpu.regs.pbr(), expected_pc);
}

#[test]
fn and_decoding_direct_indexed_x() {
    let mut cpu = cpu_from("PC:A000");
    let mut bus = bus_from("00A000:3504");
    let expected: (&'static str, &'static str) = ("AND", "$04,X");
    let expected_pc: u16 = 0xA002;

    let mut reporter = Retain::new();
    cpu.step(&mut bus, &mut reporter);

    let (expected_inst, expected_ops) = expected;
    assert_exec(&reporter, expected_inst, expected_ops);
    assert_program_counter(&cpu, cpu.regs.pbr(), expected_pc);
}

#[test]
fn and_decoding_direct_indirect() {
    let mut cpu = cpu_from("PC:A000");
    let mut bus = bus_from("00A000:3244");
    let expected: (&'static str, &'static str) = ("AND", "($44)");
    let expected_pc: u16 = 0xA002;

    let mut reporter = Retain::new();
    cpu.step(&mut bus, &mut reporter);

    let (expected_inst, expected_ops) = expected;
    assert_exec(&reporter, expected_inst, expected_ops);
    assert_program_counter(&cpu, cpu.regs.pbr(), expected_pc);
}

#[test]
fn and_decoding_direct_indirect_long() {
    let mut cpu = cpu_from("PC:A000");
    let mut bus = bus_from("00A000:2744");
    let expected: (&'static str, &'static str) = ("AND", "[$44]");
    let expected_pc: u16 = 0xA002;

    let mut reporter = Retain::new();
    cpu.step(&mut bus, &mut reporter);

    let (expected_inst, expected_ops) = expected;
    assert_exec(&reporter, expected_inst, expected_ops);
    assert_program_counter(&cpu, cpu.regs.pbr(), expected_pc);
}

#[test]
fn and_decoding_direct_indirect_long_indexed() {
    let mut cpu = cpu_from("PC:A000");
    let mut bus = bus_from("00A000:3744");
    let expected: (&'static str, &'static str) = ("AND", "[$44],Y");
    let expected_pc: u16 = 0xA002;

    let mut reporter = Retain::new();
    cpu.step(&mut bus, &mut reporter);

    let (expected_inst, expected_ops) = expected;
    assert_exec(&reporter, expected_inst, expected_ops);
    assert_program_counter(&cpu, cpu.regs.pbr(), expected_pc);
}

#[test]
fn and_decoding_immediate() {
    let mut cpu = cpu_from("PC:A000");
    let mut bus = bus_from("00A000:29FFFF");
    let expected: (&'static str, &'static str) = ("AND", "#$FFFF");
    let expected_pc: u16 = 0xA003;

    let mut reporter = Retain::new();
    cpu.step(&mut bus, &mut reporter);

    let (expected_inst, expected_ops) = expected;
    assert_exec(&reporter, expected_inst, expected_ops);
    assert_program_counter(&cpu, cpu.regs.pbr(), expected_pc);
}

#[test]
fn and_decoding_stack_relative() {
    let mut cpu = cpu_from("PC:A000");
    let mut bus = bus_from("00A000:2304");
    let expected: (&'static str, &'static str) = ("AND", "$04,S");
    let expected_pc: u16 = 0xA002;

    let mut reporter = Retain::new();
    cpu.step(&mut bus, &mut reporter);

    let (expected_inst, expected_ops) = expected;
    assert_exec(&reporter, expected_inst, expected_ops);
    assert_program_counter(&cpu, cpu.regs.pbr(), expected_pc);
}

#[test]
fn and_decoding_stack_relative_indirect_indexed() {
    let mut cpu = cpu_from("PC:A000");
    let mut bus = bus_from("00A000:3304");
    let expected: (&'static str, &'static str) = ("AND", "($04,S),Y");
    let expected_pc: u16 = 0xA002;

    let mut reporter = Retain::new();
    cpu.step(&mut bus, &mut reporter);

    let (expected_inst, expected_ops) = expected;
    assert_exec(&reporter, expected_inst, expected_ops);
    assert_program_counter(&cpu, cpu.regs.pbr(), expected_pc);
}

#[test]
fn bit_results_emulation() {
    let mut cpu = cpu_from("P.E:1,PC:A000,A:1122");
    let mut bus = bus_from("00A000:89F0");
    let expected_flags = flags_from("Z:0,N:0,V:0");

    cpu.step(&mut bus, &mut NullReporter);

    assert_flags(&expected_flags, cpu.regs.p());
}

#[test]
fn bit_results_native_8bit() {
    let mut cpu = cpu_from("P.E:0,P.M:1,PC:A000,A:1122");
    let mut bus = bus_from("00A000:89F0");
    let expected_flags = flags_from("Z:0,N:0,V:0");

    cpu.step(&mut bus, &mut NullReporter);

    assert_flags(&expected_flags, cpu.regs.p());
}

#[test]
fn bit_results_native_16bit() {
    let mut cpu = cpu_from("P.E:0,P.M:0,PC:A000,A:1122");
    let mut bus = bus_from("00A000:89F00F");
    let expected_flags = flags_from("Z:0,N:0,V:0");

    cpu.step(&mut bus, &mut NullReporter);

    assert_flags(&expected_flags, cpu.regs.p());
}

#[test]
fn bit_results_native_8bit_zero() {
    let mut cpu = cpu_from("P.E:0,P.M:1,PC:A000,A:1122");
    let mut bus = bus_from("00A000:8900");
    let expected_flags = flags_from("Z:1,N:0,V:0");

    cpu.step(&mut bus, &mut NullReporter);

    assert_flags(&expected_flags, cpu.regs.p());
}

#[test]
fn bit_results_native_16bit_zero() {
    let mut cpu = cpu_from("P.E:0,P.M:0,PC:A000,A:1122");
    let mut bus = bus_from("00A000:890000");
    let expected_flags = flags_from("Z:1,N:0,V:0");

    cpu.step(&mut bus, &mut NullReporter);

    assert_flags(&expected_flags, cpu.regs.p());
}

#[test]
fn bit_results_native_8bit_neg() {
    let mut cpu = cpu_from("P.E:0,P.M:1,DP:4000,PC:A000,A:110F");
    let mut bus = bus_from("004012:8F,00A000:2412");
    let expected_flags = flags_from("Z:0,N:1,V:0");

    cpu.step(&mut bus, &mut NullReporter);

    assert_flags(&expected_flags, cpu.regs.p());
}

#[test]
fn bit_results_native_8bit_neg_immediate() {
    let mut cpu = cpu_from("P.E:0,P.M:1,PC:A000,A:110F");
    let mut bus = bus_from("00A000:898F");
    let expected_flags = flags_from("Z:0,N:0,V:0");

    cpu.step(&mut bus, &mut NullReporter);

    assert_flags(&expected_flags, cpu.regs.p());
}

#[test]
fn bit_results_native_16bit_neg() {
    let mut cpu = cpu_from("P.E:0,P.M:0,DP:4000,PC:A000,A:00FF");
    let mut bus = bus_from("004012:FF8F,00A000:2412");
    let expected_flags = flags_from("Z:0,N:1,V:0");

    cpu.step(&mut bus, &mut NullReporter);

    assert_flags(&expected_flags, cpu.regs.p());
}

#[test]
fn bit_results_native_16bit_neg_immediate() {
    let mut cpu = cpu_from("P.E:0,P.M:0,PC:A000,A:00FF");
    let mut bus = bus_from("00A000:89FF8F");
    let expected_flags = flags_from("Z:0,N:0,V:0");

    cpu.step(&mut bus, &mut NullReporter);

    assert_flags(&expected_flags, cpu.regs.p());
}

#[test]
fn bit_results_native_8bit_neg_second() {
    let mut cpu = cpu_from("P.E:0,P.M:1,DP:4000,PC:A000,A:110F");
    let mut bus = bus_from("004012:4F,00A000:2412");
    let expected_flags = flags_from("Z:0,N:0,V:1");

    cpu.step(&mut bus, &mut NullReporter);

    assert_flags(&expected_flags, cpu.regs.p());
}

#[test]
fn bit_results_native_8bit_neg_second_immediate() {
    let mut cpu = cpu_from("P.E:0,P.M:1,PC:A000,A:110F");
    let mut bus = bus_from("00A000:894F");
    let expected_flags = flags_from("Z:0,N:0,V:0");

    cpu.step(&mut bus, &mut NullReporter);

    assert_flags(&expected_flags, cpu.regs.p());
}

#[test]
fn bit_results_native_16bit_neg_second() {
    let mut cpu = cpu_from("P.E:0,P.M:0,DP:4000,PC:A000,A:00FF");
    let mut bus = bus_from("004012:FF4F,00A000:2412");
    let expected_flags = flags_from("Z:0,N:0,V:1");

    cpu.step(&mut bus, &mut NullReporter);

    assert_flags(&expected_flags, cpu.regs.p());
}

#[test]
fn bit_results_native_16bit_neg_second_immediate() {
    let mut cpu = cpu_from("P.E:0,P.M:0,PC:A000,A:00FF");
    let mut bus = bus_from("00A000:89FF4F");
    let expected_flags = flags_from("Z:0,N:0,V:0");

    cpu.step(&mut bus, &mut NullReporter);

    assert_flags(&expected_flags, cpu.regs.p());
}

#[test]
fn bit_decoding_absolute() {
    let mut cpu = cpu_from("PC:A000");
    let mut bus = bus_from("00A000:2C5634");
    let expected: (&'static str, &'static str) = ("BIT", "$3456");
    let expected_pc: u16 = 0xA003;

    let mut reporter = Retain::new();
    cpu.step(&mut bus, &mut reporter);

    let (expected_inst, expected_ops) = expected;
    assert_exec(&reporter, expected_inst, expected_ops);
    assert_program_counter(&cpu, cpu.regs.pbr(), expected_pc);
}

#[test]
fn bit_decoding_absolute_indexed_x() {
    let mut cpu = cpu_from("PC:A000");
    let mut bus = bus_from("00A000:3C5634");
    let expected: (&'static str, &'static str) = ("BIT", "$3456,X");
    let expected_pc: u16 = 0xA003;

    let mut reporter = Retain::new();
    cpu.step(&mut bus, &mut reporter);

    let (expected_inst, expected_ops) = expected;
    assert_exec(&reporter, expected_inst, expected_ops);
    assert_program_counter(&cpu, cpu.regs.pbr(), expected_pc);
}

#[test]
fn bit_decoding_direct() {
    let mut cpu = cpu_from("PC:A000");
    let mut bus = bus_from("00A000:2404");
    let expected: (&'static str, &'static str) = ("BIT", "$04");
    let expected_pc: u16 = 0xA002;

    let mut reporter = Retain::new();
    cpu.step(&mut bus, &mut reporter);

    let (expected_inst, expected_ops) = expected;
    assert_exec(&reporter, expected_inst, expected_ops);
    assert_program_counter(&cpu, cpu.regs.pbr(), expected_pc);
}

#[test]
fn bit_decoding_direct_indexed_x() {
    let mut cpu = cpu_from("PC:A000");
    let mut bus = bus_from("00A000:3404");
    let expected: (&'static str, &'static str) = ("BIT", "$04,X");
    let expected_pc: u16 = 0xA002;

    let mut reporter = Retain::new();
    cpu.step(&mut bus, &mut reporter);

    let (expected_inst, expected_ops) = expected;
    assert_exec(&reporter, expected_inst, expected_ops);
    assert_program_counter(&cpu, cpu.regs.pbr(), expected_pc);
}

#[test]
fn bit_decoding_immediate() {
    let mut cpu = cpu_from("PC:A000");
    let mut bus = bus_from("00A000:89FFFF");
    let expected: (&'static str, &'static str) = ("BIT", "#$FFFF");
    let expected_pc: u16 = 0xA003;

    let mut reporter = Retain::new();
    cpu.step(&mut bus, &mut reporter);

    let (expected_inst, expected_ops) = expected;
    assert_exec(&reporter, expected_inst, expected_ops);
    assert_program_counter(&cpu, cpu.regs.pbr(), expected_pc);
}

#[test]
fn brk_brk_emulation() {
    let mut cpu = cpu_from("P.E:1,PC:A000,P:AA,SP:FF");
    let mut bus = bus_from("00A000:0000,00FFFE:3412");
    let expected_stack: &[u8] = &[0xBA, 0x02, 0xA0];
    let expected_pc: u16 = 0x1234;
    let expected_flags = flags_from("I:1,D:0,B:1");

    cpu.step(&mut bus, &mut NullReporter);

    assert_stack_bytes(&cpu, &bus, 0, &expected_stack[..]);
    assert_program_counter(&cpu, 0, expected_pc);
    assert_flags(&expected_flags, cpu.regs.p());
}

#[test]
fn brk_brk_native() {
    let mut cpu = cpu_from("P.E:0,PBR:B0,PC:A000,P:AA,SP:E0FF");
    let mut bus = bus_from("B0A000:0000,00FFE6:3412");
    let expected_stack: &[u8] = &[0xAA, 0x02, 0xA0, 0xB0];
    let expected_pc: u16 = 0x1234;
    let expected_flags = flags_from("I:1,D:0");

    cpu.step(&mut bus, &mut NullReporter);

    assert_stack_bytes(&cpu, &bus, 0, &expected_stack[..]);
    assert_program_counter(&cpu, 0, expected_pc);
    assert_flags(&expected_flags, cpu.regs.p());
}

#[test]
fn cmp_results_native_8bit_less_than() {
    let mut cpu = cpu_from("P.E:0,P.M:1,PC:A000,A:1123");
    let mut bus = bus_from("00A000:C945");
    let expected_flags = flags_from("C:0,Z:0,N:1");

    cpu.step(&mut bus, &mut NullReporter);

    assert_flags(&expected_flags, cpu.regs.p());
}

#[test]
fn cmp_results_native_8bit_greater_than() {
    let mut cpu = cpu_from("P.E:0,P.M:1,PC:A000,A:1145");
    let mut bus = bus_from("00A000:C923");
    let expected_flags = flags_from("C:1,Z:0,N:0");

    cpu.step(&mut bus, &mut NullReporter);

    assert_flags(&expected_flags, cpu.regs.p());
}

#[test]
fn cmp_results_native_8bit_equal() {
    let mut cpu = cpu_from("P.E:0,P.M:1,PC:A000,A:1142");
    let mut bus = bus_from("00A000:C942");
    let expected_flags = flags_from("C:1,Z:1,N:0");

    cpu.step(&mut bus, &mut NullReporter);

    assert_flags(&expected_flags, cpu.regs.p());
}

#[test]
fn cmp_results_native_8bit_neg() {
    let mut cpu = cpu_from("P.E:0,P.M:1,PC:A000,A:1182");
    let mut bus = bus_from("00A000:C901");
    let expected_flags = flags_from("C:1,Z:0,V:0,N:1");

    cpu.step(&mut bus, &mut NullReporter);

    assert_flags(&expected_flags, cpu.regs.p());
}

#[test]
fn cmp_results_native_16bit_less_than() {
    let mut cpu = cpu_from("P.E:0,P.M:0,PC:A000,A:1234");
    let mut bus = bus_from("00A000:C97856");
    let expected_flags = flags_from("C:0,Z:0,V:0,N:1");

    cpu.step(&mut bus, &mut NullReporter);

    assert_flags(&expected_flags, cpu.regs.p());
}

#[test]
fn cmp_results_native_16bit_greater_than() {
    let mut cpu = cpu_from("P.E:0,P.M:0,PC:A000,A:5678");
    let mut bus = bus_from("00A000:C93412");
    let expected_flags = flags_from("C:1,Z:0,V:0,N:0");

    cpu.step(&mut bus, &mut NullReporter);

    assert_flags(&expected_flags, cpu.regs.p());
}

#[test]
fn cmp_results_native_16bit_equal() {
    let mut cpu = cpu_from("P.E:0,P.M:0,PC:A000,A:1234");
    let mut bus = bus_from("00A000:C93412");
    let expected_flags = flags_from("C:1,Z:1,V:0,N:0");

    cpu.step(&mut bus, &mut NullReporter);

    assert_flags(&expected_flags, cpu.regs.p());
}

#[test]
fn cmp_results_native_16bit_neg() {
    let mut cpu = cpu_from("P.E:0,P.M:0,PC:A000,A:ABCD");
    let mut bus = bus_from("00A000:C93412");
    let expected_flags = flags_from("C:1,Z:0,V:0,N:1");

    cpu.step(&mut bus, &mut NullReporter);

    assert_flags(&expected_flags, cpu.regs.p());
}

#[test]
fn cmp_decoding_absolute() {
    let mut cpu = cpu_from("PC:A000");
    let mut bus = bus_from("00A000:CD5634");
    let expected: (&'static str, &'static str) = ("CMP", "$3456");
    let expected_pc: u16 = 0xA003;

    let mut reporter = Retain::new();
    cpu.step(&mut bus, &mut reporter);

    let (expected_inst, expected_ops) = expected;
    assert_exec(&reporter, expected_inst, expected_ops);
    assert_program_counter(&cpu, cpu.regs.pbr(), expected_pc);
}

#[test]
fn cmp_decoding_absolute_indexed_x() {
    let mut cpu = cpu_from("PC:A000");
    let mut bus = bus_from("00A000:DD5634");
    let expected: (&'static str, &'static str) = ("CMP", "$3456,X");
    let expected_pc: u16 = 0xA003;

    let mut reporter = Retain::new();
    cpu.step(&mut bus, &mut reporter);

    let (expected_inst, expected_ops) = expected;
    assert_exec(&reporter, expected_inst, expected_ops);
    assert_program_counter(&cpu, cpu.regs.pbr(), expected_pc);
}

#[test]
fn cmp_decoding_absolute_indexed_y() {
    let mut cpu = cpu_from("PC:A000");
    let mut bus = bus_from("00A000:D95634");
    let expected: (&'static str, &'static str) = ("CMP", "$3456,Y");
    let expected_pc: u16 = 0xA003;

    let mut reporter = Retain::new();
    cpu.step(&mut bus, &mut reporter);

    let (expected_inst, expected_ops) = expected;
    assert_exec(&reporter, expected_inst, expected_ops);
    assert_program_counter(&cpu, cpu.regs.pbr(), expected_pc);
}

#[test]
fn cmp_decoding_absolute_long() {
    let mut cpu = cpu_from("PC:A000");
    let mut bus = bus_from("00A000:CF563412");
    let expected: (&'static str, &'static str) = ("CMP", "$123456");
    let expected_pc: u16 = 0xA004;

    let mut reporter = Retain::new();
    cpu.step(&mut bus, &mut reporter);

    let (expected_inst, expected_ops) = expected;
    assert_exec(&reporter, expected_inst, expected_ops);
    assert_program_counter(&cpu, cpu.regs.pbr(), expected_pc);
}

#[test]
fn cmp_decoding_absolute_long_indexed() {
    let mut cpu = cpu_from("PC:A000");
    let mut bus = bus_from("00A000:DF563412");
    let expected: (&'static str, &'static str) = ("CMP", "$123456,X");
    let expected_pc: u16 = 0xA004;

    let mut reporter = Retain::new();
    cpu.step(&mut bus, &mut reporter);

    let (expected_inst, expected_ops) = expected;
    assert_exec(&reporter, expected_inst, expected_ops);
    assert_program_counter(&cpu, cpu.regs.pbr(), expected_pc);
}

#[test]
fn cmp_decoding_direct() {
    let mut cpu = cpu_from("PC:A000");
    let mut bus = bus_from("00A000:C504");
    let expected: (&'static str, &'static str) = ("CMP", "$04");
    let expected_pc: u16 = 0xA002;

    let mut reporter = Retain::new();
    cpu.step(&mut bus, &mut reporter);

    let (expected_inst, expected_ops) = expected;
    assert_exec(&reporter, expected_inst, expected_ops);
    assert_program_counter(&cpu, cpu.regs.pbr(), expected_pc);
}

#[test]
fn cmp_decoding_direct_indirect_indexed() {
    let mut cpu = cpu_from("PC:A000");
    let mut bus = bus_from("00A000:D104");
    let expected: (&'static str, &'static str) = ("CMP", "($04),Y");
    let expected_pc: u16 = 0xA002;

    let mut reporter = Retain::new();
    cpu.step(&mut bus, &mut reporter);

    let (expected_inst, expected_ops) = expected;
    assert_exec(&reporter, expected_inst, expected_ops);
    assert_program_counter(&cpu, cpu.regs.pbr(), expected_pc);
}

#[test]
fn cmp_decoding_direct_indexed_indirect() {
    let mut cpu = cpu_from("PC:A000");
    let mut bus = bus_from("00A000:C104");
    let expected: (&'static str, &'static str) = ("CMP", "($04,X)");
    let expected_pc: u16 = 0xA002;

    let mut reporter = Retain::new();
    cpu.step(&mut bus, &mut reporter);

    let (expected_inst, expected_ops) = expected;
    assert_exec(&reporter, expected_inst, expected_ops);
    assert_program_counter(&cpu, cpu.regs.pbr(), expected_pc);
}

#[test]
fn cmp_decoding_direct_indexed_x() {
    let mut cpu = cpu_from("PC:A000");
    let mut bus = bus_from("00A000:D504");
    let expected: (&'static str, &'static str) = ("CMP", "$04,X");
    let expected_pc: u16 = 0xA002;

    let mut reporter = Retain::new();
    cpu.step(&mut bus, &mut reporter);

    let (expected_inst, expected_ops) = expected;
    assert_exec(&reporter, expected_inst, expected_ops);
    assert_program_counter(&cpu, cpu.regs.pbr(), expected_pc);
}

#[test]
fn cmp_decoding_direct_indirect() {
    let mut cpu = cpu_from("PC:A000");
    let mut bus = bus_from("00A000:D244");
    let expected: (&'static str, &'static str) = ("CMP", "($44)");
    let expected_pc: u16 = 0xA002;

    let mut reporter = Retain::new();
    cpu.step(&mut bus, &mut reporter);

    let (expected_inst, expected_ops) = expected;
    assert_exec(&reporter, expected_inst, expected_ops);
    assert_program_counter(&cpu, cpu.regs.pbr(), expected_pc);
}

#[test]
fn cmp_decoding_direct_indirect_long() {
    let mut cpu = cpu_from("PC:A000");
    let mut bus = bus_from("00A000:C744");
    let expected: (&'static str, &'static str) = ("CMP", "[$44]");
    let expected_pc: u16 = 0xA002;

    let mut reporter = Retain::new();
    cpu.step(&mut bus, &mut reporter);

    let (expected_inst, expected_ops) = expected;
    assert_exec(&reporter, expected_inst, expected_ops);
    assert_program_counter(&cpu, cpu.regs.pbr(), expected_pc);
}

#[test]
fn cmp_decoding_direct_indirect_long_indexed() {
    let mut cpu = cpu_from("PC:A000");
    let mut bus = bus_from("00A000:D744");
    let expected: (&'static str, &'static str) = ("CMP", "[$44],Y");
    let expected_pc: u16 = 0xA002;

    let mut reporter = Retain::new();
    cpu.step(&mut bus, &mut reporter);

    let (expected_inst, expected_ops) = expected;
    assert_exec(&reporter, expected_inst, expected_ops);
    assert_program_counter(&cpu, cpu.regs.pbr(), expected_pc);
}

#[test]
fn cmp_decoding_immediate() {
    let mut cpu = cpu_from("PC:A000");
    let mut bus = bus_from("00A000:C9FFFF");
    let expected: (&'static str, &'static str) = ("CMP", "#$FFFF");
    let expected_pc: u16 = 0xA003;

    let mut reporter = Retain::new();
    cpu.step(&mut bus, &mut reporter);

    let (expected_inst, expected_ops) = expected;
    assert_exec(&reporter, expected_inst, expected_ops);
    assert_program_counter(&cpu, cpu.regs.pbr(), expected_pc);
}

#[test]
fn cmp_decoding_stack_relative() {
    let mut cpu = cpu_from("PC:A000");
    let mut bus = bus_from("00A000:C304");
    let expected: (&'static str, &'static str) = ("CMP", "$04,S");
    let expected_pc: u16 = 0xA002;

    let mut reporter = Retain::new();
    cpu.step(&mut bus, &mut reporter);

    let (expected_inst, expected_ops) = expected;
    assert_exec(&reporter, expected_inst, expected_ops);
    assert_program_counter(&cpu, cpu.regs.pbr(), expected_pc);
}

#[test]
fn cmp_decoding_stack_relative_indirect_indexed() {
    let mut cpu = cpu_from("PC:A000");
    let mut bus = bus_from("00A000:D304");
    let expected: (&'static str, &'static str) = ("CMP", "($04,S),Y");
    let expected_pc: u16 = 0xA002;

    let mut reporter = Retain::new();
    cpu.step(&mut bus, &mut reporter);

    let (expected_inst, expected_ops) = expected;
    assert_exec(&reporter, expected_inst, expected_ops);
    assert_program_counter(&cpu, cpu.regs.pbr(), expected_pc);
}

#[test]
fn cpy_results_native_8bit_less_than() {
    let mut cpu = cpu_from("P.E:0,P.M:1,PC:A000,Y:1123");
    let mut bus = bus_from("00A000:C045");
    let expected_flags = flags_from("C:0,Z:0,N:1");

    cpu.step(&mut bus, &mut NullReporter);

    assert_flags(&expected_flags, cpu.regs.p());
}

#[test]
fn cpy_results_native_8bit_greater_than() {
    let mut cpu = cpu_from("P.E:0,P.M:1,PC:A000,Y:1145");
    let mut bus = bus_from("00A000:C023");
    let expected_flags = flags_from("C:1,Z:0,N:0");

    cpu.step(&mut bus, &mut NullReporter);

    assert_flags(&expected_flags, cpu.regs.p());
}

#[test]
fn cpy_results_native_8bit_equal() {
    let mut cpu = cpu_from("P.E:0,P.M:1,PC:A000,Y:1142");
    let mut bus = bus_from("00A000:C042");
    let expected_flags = flags_from("C:1,Z:1,N:0");

    cpu.step(&mut bus, &mut NullReporter);

    assert_flags(&expected_flags, cpu.regs.p());
}

#[test]
fn cpy_results_native_8bit_neg() {
    let mut cpu = cpu_from("P.E:0,P.M:1,PC:A000,Y:1182");
    let mut bus = bus_from("00A000:C001");
    let expected_flags = flags_from("C:1,Z:0,V:0,N:1");

    cpu.step(&mut bus, &mut NullReporter);

    assert_flags(&expected_flags, cpu.regs.p());
}

#[test]
fn cpy_results_native_16bit_less_than() {
    let mut cpu = cpu_from("P.E:0,P.M:0,PC:A000,Y:1234");
    let mut bus = bus_from("00A000:C07856");
    let expected_flags = flags_from("C:0,Z:0,V:0,N:1");

    cpu.step(&mut bus, &mut NullReporter);

    assert_flags(&expected_flags, cpu.regs.p());
}

#[test]
fn cpy_results_native_16bit_greater_than() {
    let mut cpu = cpu_from("P.E:0,P.M:0,PC:A000,Y:5678");
    let mut bus = bus_from("00A000:C03412");
    let expected_flags = flags_from("C:1,Z:0,V:0,N:0");

    cpu.step(&mut bus, &mut NullReporter);

    assert_flags(&expected_flags, cpu.regs.p());
}

#[test]
fn cpy_results_native_16bit_equal() {
    let mut cpu = cpu_from("P.E:0,P.M:0,PC:A000,Y:1234");
    let mut bus = bus_from("00A000:C03412");
    let expected_flags = flags_from("C:1,Z:1,V:0,N:0");

    cpu.step(&mut bus, &mut NullReporter);

    assert_flags(&expected_flags, cpu.regs.p());
}

#[test]
fn cpy_results_native_16bit_neg() {
    let mut cpu = cpu_from("P.E:0,P.M:0,PC:A000,Y:ABCD");
    let mut bus = bus_from("00A000:C03412");
    let expected_flags = flags_from("C:1,Z:0,V:0,N:1");

    cpu.step(&mut bus, &mut NullReporter);

    assert_flags(&expected_flags, cpu.regs.p());
}

#[test]
fn cpy_decoding_absolute() {
    let mut cpu = cpu_from("PC:A000");
    let mut bus = bus_from("00A000:CC5634");
    let expected: (&'static str, &'static str) = ("CPY", "$3456");
    let expected_pc: u16 = 0xA003;

    let mut reporter = Retain::new();
    cpu.step(&mut bus, &mut reporter);

    let (expected_inst, expected_ops) = expected;
    assert_exec(&reporter, expected_inst, expected_ops);
    assert_program_counter(&cpu, cpu.regs.pbr(), expected_pc);
}

#[test]
fn cpy_decoding_direct() {
    let mut cpu = cpu_from("PC:A000");
    let mut bus = bus_from("00A000:C404");
    let expected: (&'static str, &'static str) = ("CPY", "$04");
    let expected_pc: u16 = 0xA002;

    let mut reporter = Retain::new();
    cpu.step(&mut bus, &mut reporter);

    let (expected_inst, expected_ops) = expected;
    assert_exec(&reporter, expected_inst, expected_ops);
    assert_program_counter(&cpu, cpu.regs.pbr(), expected_pc);
}

#[test]
fn cpy_decoding_immediate() {
    let mut cpu = cpu_from("PC:A000");
    let mut bus = bus_from("00A000:C0FFFF");
    let expected: (&'static str, &'static str) = ("CPY", "#$FFFF");
    let expected_pc: u16 = 0xA003;

    let mut reporter = Retain::new();
    cpu.step(&mut bus, &mut reporter);

    let (expected_inst, expected_ops) = expected;
    assert_exec(&reporter, expected_inst, expected_ops);
    assert_program_counter(&cpu, cpu.regs.pbr(), expected_pc);
}

#[test]
fn dec_results_native_8bit() {
    let mut cpu = cpu_from("P.E:0,P.M:1,PC:A000,A:1112");
    let mut bus = bus_from("00A000:3A");
    let expected: u16 = 0x1111;
    let expected_flags = flags_from("Z:0,N:0");

    cpu.step(&mut bus, &mut NullReporter);

    assert_accum(&cpu, expected);
    assert_flags(&expected_flags, cpu.regs.p());
}

#[test]
fn dec_results_native_8bit_negative() {
    let mut cpu = cpu_from("P.E:0,P.M:1,PC:A000,A:1100");
    let mut bus = bus_from("00A000:3A");
    let expected: u16 = 0x11FF;
    let expected_flags = flags_from("Z:0,N:1");

    cpu.step(&mut bus, &mut NullReporter);

    assert_accum(&cpu, expected);
    assert_flags(&expected_flags, cpu.regs.p());
}

#[test]
fn dec_results_native_8bit_zero() {
    let mut cpu = cpu_from("P.E:0,P.M:1,PC:A000,A:1101");
    let mut bus = bus_from("00A000:3A");
    let expected: u16 = 0x1100;
    let expected_flags = flags_from("Z:1,N:0");

    cpu.step(&mut bus, &mut NullReporter);

    assert_accum(&cpu, expected);
    assert_flags(&expected_flags, cpu.regs.p());
}

#[test]
fn dec_results_native_16bit() {
    let mut cpu = cpu_from("P.E:0,P.M:0,PC:A000,A:1100");
    let mut bus = bus_from("00A000:3A");
    let expected: u16 = 0x10FF;
    let expected_flags = flags_from("Z:0,N:0");

    cpu.step(&mut bus, &mut NullReporter);

    assert_accum(&cpu, expected);
    assert_flags(&expected_flags, cpu.regs.p());
}

#[test]
fn dec_results_native_16bit_negative() {
    let mut cpu = cpu_from("P.E:0,P.M:0,PC:A000,A:0000");
    let mut bus = bus_from("00A000:3A");
    let expected: u16 = 0xFFFF;
    let expected_flags = flags_from("Z:0,N:1");

    cpu.step(&mut bus, &mut NullReporter);

    assert_accum(&cpu, expected);
    assert_flags(&expected_flags, cpu.regs.p());
}

#[test]
fn dec_results_native_16bit_zero() {
    let mut cpu = cpu_from("P.E:0,P.M:0,PC:A000,A:0001");
    let mut bus = bus_from("00A000:3A");
    let expected: u16 = 0x0000;
    let expected_flags = flags_from("Z:1,N:0");

    cpu.step(&mut bus, &mut NullReporter);

    assert_accum(&cpu, expected);
    assert_flags(&expected_flags, cpu.regs.p());
}

#[test]
fn dec_decoding_accumulator() {
    let mut cpu = cpu_from("PC:A000");
    let mut bus = bus_from("00A000:3A");
    let expected: (&'static str, &'static str) = ("DEC", "");
    let expected_pc: u16 = 0xA001;

    let mut reporter = Retain::new();
    cpu.step(&mut bus, &mut reporter);

    let (expected_inst, expected_ops) = expected;
    assert_exec(&reporter, expected_inst, expected_ops);
    assert_program_counter(&cpu, cpu.regs.pbr(), expected_pc);
}

#[test]
fn dec_decoding_direct() {
    let mut cpu = cpu_from("PC:A000");
    let mut bus = bus_from("00A000:C6AB");
    let expected: (&'static str, &'static str) = ("DEC", "$AB");
    let expected_pc: u16 = 0xA002;

    let mut reporter = Retain::new();
    cpu.step(&mut bus, &mut reporter);

    let (expected_inst, expected_ops) = expected;
    assert_exec(&reporter, expected_inst, expected_ops);
    assert_program_counter(&cpu, cpu.regs.pbr(), expected_pc);
}

#[test]
fn dec_decoding_absolute() {
    let mut cpu = cpu_from("PC:A000");
    let mut bus = bus_from("00A000:CECDAB");
    let expected: (&'static str, &'static str) = ("DEC", "$ABCD");
    let expected_pc: u16 = 0xA003;

    let mut reporter = Retain::new();
    cpu.step(&mut bus, &mut reporter);

    let (expected_inst, expected_ops) = expected;
    assert_exec(&reporter, expected_inst, expected_ops);
    assert_program_counter(&cpu, cpu.regs.pbr(), expected_pc);
}

#[test]
fn dec_decoding_direct_indexed_x() {
    let mut cpu = cpu_from("PC:A000");
    let mut bus = bus_from("00A000:D6AB");
    let expected: (&'static str, &'static str) = ("DEC", "$AB,X");
    let expected_pc: u16 = 0xA002;

    let mut reporter = Retain::new();
    cpu.step(&mut bus, &mut reporter);

    let (expected_inst, expected_ops) = expected;
    assert_exec(&reporter, expected_inst, expected_ops);
    assert_program_counter(&cpu, cpu.regs.pbr(), expected_pc);
}

#[test]
fn dec_decoding_absolute_indexed_x() {
    let mut cpu = cpu_from("PC:A000");
    let mut bus = bus_from("00A000:DECDAB");
    let expected: (&'static str, &'static str) = ("DEC", "$ABCD,X");
    let expected_pc: u16 = 0xA003;

    let mut reporter = Retain::new();
    cpu.step(&mut bus, &mut reporter);

    let (expected_inst, expected_ops) = expected;
    assert_exec(&reporter, expected_inst, expected_ops);
    assert_program_counter(&cpu, cpu.regs.pbr(), expected_pc);
}

#[test]
fn iny_results_native_8bit() {
    let mut cpu = cpu_from("P.E:0,P.X:1,PC:A000,Y:12");
    let mut bus = bus_from("00A000:C8");
    let expected: u16 = 0x0013;
    let expected_flags = flags_from("Z:0,N:0");

    cpu.step(&mut bus, &mut NullReporter);

    assert_index_y(&cpu, expected);
    assert_flags(&expected_flags, cpu.regs.p());
}

#[test]
fn iny_results_native_8bit_negative() {
    let mut cpu = cpu_from("P.E:0,P.X:1,PC:A000,Y:7F");
    let mut bus = bus_from("00A000:C8");
    let expected: u16 = 0x0080;
    let expected_flags = flags_from("Z:0,N:1");

    cpu.step(&mut bus, &mut NullReporter);

    assert_index_y(&cpu, expected);
    assert_flags(&expected_flags, cpu.regs.p());
}

#[test]
fn iny_results_native_8bit_zero() {
    let mut cpu = cpu_from("P.E:0,P.X:1,PC:A000,Y:FF");
    let mut bus = bus_from("00A000:C8");
    let expected: u16 = 0x0000;
    let expected_flags = flags_from("Z:1,N:0");

    cpu.step(&mut bus, &mut NullReporter);

    assert_index_y(&cpu, expected);
    assert_flags(&expected_flags, cpu.regs.p());
}

#[test]
fn iny_results_native_16bit() {
    let mut cpu = cpu_from("P.E:0,P.X:0,PC:A000,Y:11FF");
    let mut bus = bus_from("00A000:C8");
    let expected: u16 = 0x1200;
    let expected_flags = flags_from("Z:0,N:0");

    cpu.step(&mut bus, &mut NullReporter);

    assert_index_y(&cpu, expected);
    assert_flags(&expected_flags, cpu.regs.p());
}

#[test]
fn iny_results_native_16bit_negative() {
    let mut cpu = cpu_from("P.E:0,P.X:0,PC:A000,Y:7FFF");
    let mut bus = bus_from("00A000:C8");
    let expected: u16 = 0x8000;
    let expected_flags = flags_from("Z:0,N:1");

    cpu.step(&mut bus, &mut NullReporter);

    assert_index_y(&cpu, expected);
    assert_flags(&expected_flags, cpu.regs.p());
}

#[test]
fn iny_results_native_16bit_zero() {
    let mut cpu = cpu_from("P.E:0,P.X:0,PC:A000,Y:FFFF");
    let mut bus = bus_from("00A000:C8");
    let expected: u16 = 0x0000;
    let expected_flags = flags_from("Z:1,N:0");

    cpu.step(&mut bus, &mut NullReporter);

    assert_index_y(&cpu, expected);
    assert_flags(&expected_flags, cpu.regs.p());
}

#[test]
fn iny_decoding_implicit() {
    let mut cpu = cpu_from("PC:A000");
    let mut bus = bus_from("00A000:C8");
    let expected: (&'static str, &'static str) = ("INY", "");
    let expected_pc: u16 = 0xA001;

    let mut reporter = Retain::new();
    cpu.step(&mut bus, &mut reporter);

    let (expected_inst, expected_ops) = expected;
    assert_exec(&reporter, expected_inst, expected_ops);
    assert_program_counter(&cpu, cpu.regs.pbr(), expected_pc);
}

#[test]
fn sbc_results_emulation() {
    let mut cpu = cpu_from("P.E:1,P.C:1,PC:A000,A:117A");
    let mut bus = bus_from("00A000:E912");
    let expected: u16 = 0x1168;
    let expected_flags = flags_from("C:1,Z:0,V:0,N:0");

    cpu.step(&mut bus, &mut NullReporter);

    assert_accum(&cpu, expected);
    assert_flags(&expected_flags, cpu.regs.p());
}

#[test]
fn sbc_results_native_8bit() {
    let mut cpu = cpu_from("P.E:0,P.M:1,P.C:1,PC:A000,A:117A");
    let mut bus = bus_from("00A000:E912");
    let expected: u16 = 0x1168;
    let expected_flags = flags_from("C:1,Z:0,V:0,N:0");

    cpu.step(&mut bus, &mut NullReporter);

    assert_accum(&cpu, expected);
    assert_flags(&expected_flags, cpu.regs.p());
}

#[test]
fn sbc_results_native_8bit_bcd() {
    let mut cpu = cpu_from("P.E:0,P.M:1,P.C:1,P.D:1,PC:A000,A:1143");
    let mut bus = bus_from("00A000:E929");
    let expected: u16 = 0x1114;
    let expected_flags = flags_from("C:1,Z:0,V:0,N:0");

    cpu.step(&mut bus, &mut NullReporter);

    assert_accum(&cpu, expected);
    assert_flags(&expected_flags, cpu.regs.p());
}

#[test]
fn sbc_results_native_8bit_borrow_in() {
    let mut cpu = cpu_from("P.E:0,P.M:1,P.C:0,PC:A000,A:117A");
    let mut bus = bus_from("00A000:E912");
    let expected: u16 = 0x1167;
    let expected_flags = flags_from("C:1,Z:0,V:0,N:0");

    cpu.step(&mut bus, &mut NullReporter);

    assert_accum(&cpu, expected);
    assert_flags(&expected_flags, cpu.regs.p());
}

#[test]
fn sbc_results_native_8bit_borrow_out() {
    let mut cpu = cpu_from("P.E:0,P.M:1,P.C:1,PC:A000,A:1102");
    let mut bus = bus_from("00A000:E911");
    let expected: u16 = 0x11F1;
    let expected_flags = flags_from("C:0,Z:0,V:0,N:1");

    cpu.step(&mut bus, &mut NullReporter);

    assert_accum(&cpu, expected);
    assert_flags(&expected_flags, cpu.regs.p());
}

#[test]
fn sbc_results_native_8bit_zero() {
    let mut cpu = cpu_from("P.E:0,P.M:1,P.C:1,PC:A000,A:1142");
    let mut bus = bus_from("00A000:E942");
    let expected: u16 = 0x1100;
    let expected_flags = flags_from("C:1,Z:1,V:0,N:0");

    cpu.step(&mut bus, &mut NullReporter);

    assert_accum(&cpu, expected);
    assert_flags(&expected_flags, cpu.regs.p());
}

#[test]
fn sbc_results_native_8bit_overflow() {
    let mut cpu = cpu_from("P.E:0,P.M:1,P.C:1,PC:A000,A:1182");
    let mut bus = bus_from("00A000:E911");
    let expected: u16 = 0x1171;
    let expected_flags = flags_from("C:1,Z:0,V:1,N:0");

    cpu.step(&mut bus, &mut NullReporter);

    assert_accum(&cpu, expected);
    assert_flags(&expected_flags, cpu.regs.p());
}

#[test]
fn sbc_results_native_8bit_neg() {
    let mut cpu = cpu_from("P.E:0,P.M:1,P.C:1,PC:A000,A:1182");
    let mut bus = bus_from("00A000:E901");
    let expected: u16 = 0x1181;
    let expected_flags = flags_from("C:1,Z:0,V:0,N:1");

    cpu.step(&mut bus, &mut NullReporter);

    assert_accum(&cpu, expected);
    assert_flags(&expected_flags, cpu.regs.p());
}

#[test]
fn sbc_results_native_16bit() {
    let mut cpu = cpu_from("P.E:0,P.M:0,P.C:1,PC:A000,A:5678");
    let mut bus = bus_from("00A000:E93412");
    let expected: u16 = 0x4444;
    let expected_flags = flags_from("C:1,Z:0,V:0,N:0");

    cpu.step(&mut bus, &mut NullReporter);

    assert_accum(&cpu, expected);
    assert_flags(&expected_flags, cpu.regs.p());
}

#[test]
fn sbc_results_native_16bit_bcd() {
    let mut cpu = cpu_from("P.E:0,P.M:0,P.C:1,P.D:1,PC:A000,A:9843");
    let mut bus = bus_from("00A000:E92978");
    let expected: u16 = 0x2014;
    let expected_flags = flags_from("C:1,Z:0,V:1,N:0");

    cpu.step(&mut bus, &mut NullReporter);

    assert_accum(&cpu, expected);
    assert_flags(&expected_flags, cpu.regs.p());
}

#[test]
fn sbc_results_native_16bit_borrow_in() {
    let mut cpu = cpu_from("P.E:0,P.M:0,P.C:0,PC:A000,A:5678");
    let mut bus = bus_from("00A000:E93412");
    let expected: u16 = 0x4443;
    let expected_flags = flags_from("C:1,Z:0,V:0,N:0");

    cpu.step(&mut bus, &mut NullReporter);

    assert_accum(&cpu, expected);
    assert_flags(&expected_flags, cpu.regs.p());
}

#[test]
fn sbc_results_native_16bit_borrow_out() {
    let mut cpu = cpu_from("P.E:0,P.M:0,P.C:1,PC:A000,A:1234");
    let mut bus = bus_from("00A000:E97856");
    let expected: u16 = 0xBBBC;
    let expected_flags = flags_from("C:0,Z:0,V:0,N:1");

    cpu.step(&mut bus, &mut NullReporter);

    assert_accum(&cpu, expected);
    assert_flags(&expected_flags, cpu.regs.p());
}

#[test]
fn sbc_results_native_16bit_zero() {
    let mut cpu = cpu_from("P.E:0,P.M:0,P.C:1,PC:A000,A:1234");
    let mut bus = bus_from("00A000:E93412");
    let expected: u16 = 0x0000;
    let expected_flags = flags_from("C:1,Z:1,V:0,N:0");

    cpu.step(&mut bus, &mut NullReporter);

    assert_accum(&cpu, expected);
    assert_flags(&expected_flags, cpu.regs.p());
}

#[test]
fn sbc_results_native_16bit_overflow() {
    let mut cpu = cpu_from("P.E:0,P.M:0,P.C:1,PC:A000,A:8123");
    let mut bus = bus_from("00A000:E93412");
    let expected: u16 = 0x6EEF;
    let expected_flags = flags_from("C:1,Z:0,V:1,N:0");

    cpu.step(&mut bus, &mut NullReporter);

    assert_accum(&cpu, expected);
    assert_flags(&expected_flags, cpu.regs.p());
}

#[test]
fn sbc_results_native_16bit_neg() {
    let mut cpu = cpu_from("P.E:0,P.M:0,P.C:1,PC:A000,A:ABCD");
    let mut bus = bus_from("00A000:E93412");
    let expected: u16 = 0x9999;
    let expected_flags = flags_from("C:1,Z:0,V:0,N:1");

    cpu.step(&mut bus, &mut NullReporter);

    assert_accum(&cpu, expected);
    assert_flags(&expected_flags, cpu.regs.p());
}

#[test]
fn sbc_decoding_absolute() {
    let mut cpu = cpu_from("PC:A000");
    let mut bus = bus_from("00A000:ED5634");
    let expected: (&'static str, &'static str) = ("SBC", "$3456");
    let expected_pc: u16 = 0xA003;

    let mut reporter = Retain::new();
    cpu.step(&mut bus, &mut reporter);

    let (expected_inst, expected_ops) = expected;
    assert_exec(&reporter, expected_inst, expected_ops);
    assert_program_counter(&cpu, cpu.regs.pbr(), expected_pc);
}

#[test]
fn sbc_decoding_absolute_indexed_x() {
    let mut cpu = cpu_from("PC:A000");
    let mut bus = bus_from("00A000:FD5634");
    let expected: (&'static str, &'static str) = ("SBC", "$3456,X");
    let expected_pc: u16 = 0xA003;

    let mut reporter = Retain::new();
    cpu.step(&mut bus, &mut reporter);

    let (expected_inst, expected_ops) = expected;
    assert_exec(&reporter, expected_inst, expected_ops);
    assert_program_counter(&cpu, cpu.regs.pbr(), expected_pc);
}

#[test]
fn sbc_decoding_absolute_indexed_y() {
    let mut cpu = cpu_from("PC:A000");
    let mut bus = bus_from("00A000:F95634");
    let expected: (&'static str, &'static str) = ("SBC", "$3456,Y");
    let expected_pc: u16 = 0xA003;

    let mut reporter = Retain::new();
    cpu.step(&mut bus, &mut reporter);

    let (expected_inst, expected_ops) = expected;
    assert_exec(&reporter, expected_inst, expected_ops);
    assert_program_counter(&cpu, cpu.regs.pbr(), expected_pc);
}

#[test]
fn sbc_decoding_absolute_long() {
    let mut cpu = cpu_from("PC:A000");
    let mut bus = bus_from("00A000:EF563412");
    let expected: (&'static str, &'static str) = ("SBC", "$123456");
    let expected_pc: u16 = 0xA004;

    let mut reporter = Retain::new();
    cpu.step(&mut bus, &mut reporter);

    let (expected_inst, expected_ops) = expected;
    assert_exec(&reporter, expected_inst, expected_ops);
    assert_program_counter(&cpu, cpu.regs.pbr(), expected_pc);
}

#[test]
fn sbc_decoding_absolute_long_indexed() {
    let mut cpu = cpu_from("PC:A000");
    let mut bus = bus_from("00A000:FF563412");
    let expected: (&'static str, &'static str) = ("SBC", "$123456,X");
    let expected_pc: u16 = 0xA004;

    let mut reporter = Retain::new();
    cpu.step(&mut bus, &mut reporter);

    let (expected_inst, expected_ops) = expected;
    assert_exec(&reporter, expected_inst, expected_ops);
    assert_program_counter(&cpu, cpu.regs.pbr(), expected_pc);
}

#[test]
fn sbc_decoding_direct() {
    let mut cpu = cpu_from("PC:A000");
    let mut bus = bus_from("00A000:E504");
    let expected: (&'static str, &'static str) = ("SBC", "$04");
    let expected_pc: u16 = 0xA002;

    let mut reporter = Retain::new();
    cpu.step(&mut bus, &mut reporter);

    let (expected_inst, expected_ops) = expected;
    assert_exec(&reporter, expected_inst, expected_ops);
    assert_program_counter(&cpu, cpu.regs.pbr(), expected_pc);
}

#[test]
fn sbc_decoding_direct_indirect_indexed() {
    let mut cpu = cpu_from("PC:A000");
    let mut bus = bus_from("00A000:F104");
    let expected: (&'static str, &'static str) = ("SBC", "($04),Y");
    let expected_pc: u16 = 0xA002;

    let mut reporter = Retain::new();
    cpu.step(&mut bus, &mut reporter);

    let (expected_inst, expected_ops) = expected;
    assert_exec(&reporter, expected_inst, expected_ops);
    assert_program_counter(&cpu, cpu.regs.pbr(), expected_pc);
}

#[test]
fn sbc_decoding_direct_indexed_indirect() {
    let mut cpu = cpu_from("PC:A000");
    let mut bus = bus_from("00A000:E104");
    let expected: (&'static str, &'static str) = ("SBC", "($04,X)");
    let expected_pc: u16 = 0xA002;

    let mut reporter = Retain::new();
    cpu.step(&mut bus, &mut reporter);

    let (expected_inst, expected_ops) = expected;
    assert_exec(&reporter, expected_inst, expected_ops);
    assert_program_counter(&cpu, cpu.regs.pbr(), expected_pc);
}

#[test]
fn sbc_decoding_direct_indexed_x() {
    let mut cpu = cpu_from("PC:A000");
    let mut bus = bus_from("00A000:F504");
    let expected: (&'static str, &'static str) = ("SBC", "$04,X");
    let expected_pc: u16 = 0xA002;

    let mut reporter = Retain::new();
    cpu.step(&mut bus, &mut reporter);

    let (expected_inst, expected_ops) = expected;
    assert_exec(&reporter, expected_inst, expected_ops);
    assert_program_counter(&cpu, cpu.regs.pbr(), expected_pc);
}

#[test]
fn sbc_decoding_direct_indirect() {
    let mut cpu = cpu_from("PC:A000");
    let mut bus = bus_from("00A000:F244");
    let expected: (&'static str, &'static str) = ("SBC", "($44)");
    let expected_pc: u16 = 0xA002;

    let mut reporter = Retain::new();
    cpu.step(&mut bus, &mut reporter);

    let (expected_inst, expected_ops) = expected;
    assert_exec(&reporter, expected_inst, expected_ops);
    assert_program_counter(&cpu, cpu.regs.pbr(), expected_pc);
}

#[test]
fn sbc_decoding_direct_indirect_long() {
    let mut cpu = cpu_from("PC:A000");
    let mut bus = bus_from("00A000:E744");
    let expected: (&'static str, &'static str) = ("SBC", "[$44]");
    let expected_pc: u16 = 0xA002;

    let mut reporter = Retain::new();
    cpu.step(&mut bus, &mut reporter);

    let (expected_inst, expected_ops) = expected;
    assert_exec(&reporter, expected_inst, expected_ops);
    assert_program_counter(&cpu, cpu.regs.pbr(), expected_pc);
}

#[test]
fn sbc_decoding_direct_indirect_long_indexed() {
    let mut cpu = cpu_from("PC:A000");
    let mut bus = bus_from("00A000:F744");
    let expected: (&'static str, &'static str) = ("SBC", "[$44],Y");
    let expected_pc: u16 = 0xA002;

    let mut reporter = Retain::new();
    cpu.step(&mut bus, &mut reporter);

    let (expected_inst, expected_ops) = expected;
    assert_exec(&reporter, expected_inst, expected_ops);
    assert_program_counter(&cpu, cpu.regs.pbr(), expected_pc);
}

#[test]
fn sbc_decoding_immediate() {
    let mut cpu = cpu_from("PC:A000");
    let mut bus = bus_from("00A000:E9FFFF");
    let expected: (&'static str, &'static str) = ("SBC", "#$FFFF");
    let expected_pc: u16 = 0xA003;

    let mut reporter = Retain::new();
    cpu.step(&mut bus, &mut reporter);

    let (expected_inst, expected_ops) = expected;
    assert_exec(&reporter, expected_inst, expected_ops);
    assert_program_counter(&cpu, cpu.regs.pbr(), expected_pc);
}

#[test]
fn sbc_decoding_stack_relative() {
    let mut cpu = cpu_from("PC:A000");
    let mut bus = bus_from("00A000:E304");
    let expected: (&'static str, &'static str) = ("SBC", "$04,S");
    let expected_pc: u16 = 0xA002;

    let mut reporter = Retain::new();
    cpu.step(&mut bus, &mut reporter);

    let (expected_inst, expected_ops) = expected;
    assert_exec(&reporter, expected_inst, expected_ops);
    assert_program_counter(&cpu, cpu.regs.pbr(), expected_pc);
}

#[test]
fn sbc_decoding_stack_relative_indirect_indexed() {
    let mut cpu = cpu_from("PC:A000");
    let mut bus = bus_from("00A000:F304");
    let expected: (&'static str, &'static str) = ("SBC", "($04,S),Y");
    let expected_pc: u16 = 0xA002;

    let mut reporter = Retain::new();
    cpu.step(&mut bus, &mut reporter);

    let (expected_inst, expected_ops) = expected;
    assert_exec(&reporter, expected_inst, expected_ops);
    assert_program_counter(&cpu, cpu.regs.pbr(), expected_pc);
}

#[test]
fn tsb_results_emulation() {
    let mut cpu = cpu_from("P.E:1,DP:4000,PC:A000,A:110F");
    let mut bus = bus_from("004012:55,00A000:0412");
    let expected_dir: u8 = 0x12;
    let expected: u16 = 0x5F;
    let expected_flags = flags_from("Z:0");

    cpu.step(&mut bus, &mut NullReporter);

    assert_eq!(read_direct_word(&cpu, &bus, expected_dir, 0), expected);
    assert_flags(&expected_flags, cpu.regs.p());
}

#[test]
fn tsb_results_native_8bit() {
    let mut cpu = cpu_from("P.E:0,P.M:1,DP:4000,PC:A000,A:110F");
    let mut bus = bus_from("004012:55,00A000:0412");
    let expected_dir: u8 = 0x12;
    let expected: u16 = 0x5F;
    let expected_flags = flags_from("Z:0");

    cpu.step(&mut bus, &mut NullReporter);

    assert_eq!(read_direct_word(&cpu, &bus, expected_dir, 0), expected);
    assert_flags(&expected_flags, cpu.regs.p());
}

#[test]
fn tsb_results_native_8bit_zero() {
    let mut cpu = cpu_from("P.E:0,P.M:1,DP:4000,PC:A000,A:110F");
    let mut bus = bus_from("004012:F0,00A000:0412");
    let expected_dir: u8 = 0x12;
    let expected: u16 = 0xFF;
    let expected_flags = flags_from("Z:1");

    cpu.step(&mut bus, &mut NullReporter);

    assert_eq!(read_direct_word(&cpu, &bus, expected_dir, 0), expected);
    assert_flags(&expected_flags, cpu.regs.p());
}

#[test]
fn tsb_results_native_16bit() {
    let mut cpu = cpu_from("P.E:0,P.M:0,DP:4000,PC:A000,A:0F0F");
    let mut bus = bus_from("004012:5555,00A000:0412");
    let expected_dir: u8 = 0x12;
    let expected: u16 = 0x5F5F;
    let expected_flags = flags_from("Z:0");

    cpu.step(&mut bus, &mut NullReporter);

    assert_eq!(read_direct_word(&cpu, &bus, expected_dir, 0), expected);
    assert_flags(&expected_flags, cpu.regs.p());
}

#[test]
fn tsb_results_native_16bit_zero() {
    let mut cpu = cpu_from("P.E:0,P.M:0,DP:4000,PC:A000,A:0F0F");
    let mut bus = bus_from("004012:F0F0,00A000:0412");
    let expected_dir: u8 = 0x12;
    let expected: u16 = 0xFFFF;
    let expected_flags = flags_from("Z:1");

    cpu.step(&mut bus, &mut NullReporter);

    assert_eq!(read_direct_word(&cpu, &bus, expected_dir, 0), expected);
    assert_flags(&expected_flags, cpu.regs.p());
}

#[test]
fn tsb_decoding_absolute() {
    let mut cpu = cpu_from("PC:A000");
    let mut bus = bus_from("00A000:0C5634");
    let expected: (&'static str, &'static str) = ("TSB", "$3456");
    let expected_pc: u16 = 0xA003;

    let mut reporter = Retain::new();
    cpu.step(&mut bus, &mut reporter);

    let (expected_inst, expected_ops) = expected;
    assert_exec(&reporter, expected_inst, expected_ops);
    assert_program_counter(&cpu, cpu.regs.pbr(), expected_pc);
}

#[test]
fn tsb_decoding_direct() {
    let mut cpu = cpu_from("PC:A000");
    let mut bus = bus_from("00A000:0404");
    let expected: (&'static str, &'static str) = ("TSB", "$04");
    let expected_pc: u16 = 0xA002;

    let mut reporter = Retain::new();
    cpu.step(&mut bus, &mut reporter);

    let (expected_inst, expected_ops) = expected;
    assert_exec(&reporter, expected_inst, expected_ops);
    assert_program_counter(&cpu, cpu.regs.pbr(), expected_pc);
}

