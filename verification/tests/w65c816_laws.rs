use vm8::cpu::w65c816::bus::Fake;
use vm8::cpu::w65c816::ev::Retain;
use vm8::cpu::w65c816::status::{Flag, FlagExpectation};
use vm8::cpu::w65c816::{Addr, AddrWrap, Bus, Event, Reporter, CPU};

#[test]
fn fake_bus_word_round_trip_for_each_wrap() {
    let mut bus = Fake::new();
    bus.write_word(Addr::from(0x12, 0x34FF), AddrWrap::Byte, 0xBEEF);
    assert_eq!(bus.read_byte(Addr::from(0x12, 0x34FF)), 0xEF);
    assert_eq!(bus.read_byte(Addr::from(0x12, 0x3400)), 0xBE);
    assert_eq!(bus.read_word(Addr::from(0x12, 0x34FF), AddrWrap::Byte), 0xBEEF);

    bus.write_word(Addr::from(0x12, 0xFFFF), AddrWrap::Word, 0x1234);
    assert_eq!(bus.read_byte(Addr::from(0x12, 0x0000)), 0x12);
    assert_eq!(bus.read_word(Addr::from(0x12, 0xFFFF), AddrWrap::Word), 0x1234);

    bus.write_word(Addr::from(0x12, 0xFFFF), AddrWrap::Long, 0x5678);
    assert_eq!(bus.read_byte(Addr::from(0x13, 0x0000)), 0x56);
    assert_eq!(bus.read_word(Addr::from(0x12, 0xFFFF), AddrWrap::Long), 0x5678);
}

#[test]
fn empty_bus_reads_all_ones() {
    let mut bus = ();
    bus.write_byte(Addr::from(0, 0), 0x00);
    assert_eq!(bus.read_byte(Addr::from(0, 0)), 0xFF);
    assert_eq!(bus.read_word(Addr::from(0, 0), AddrWrap::Long), 0xFFFF);
}

#[test]
fn addr_wrapping_stays_in_page_and_bank() {
    let a = Addr::from(0x7F, 0x12F0);
    assert_eq!(a.wrapping_add(0x20u8, AddrWrap::Byte).raw(), 0x7F1210);
    assert_eq!(a.wrapping_add(0xF000u16, AddrWrap::Word).raw(), 0x7F02F0);
    assert_eq!(a.wrapping_add(0x810000usize, AddrWrap::Long).raw(), 0x0012F0);
    assert!(a.same_page(Addr::from(0x7F, 0x1200)));
    assert!(!a.same_page(Addr::from(0x7E, 0x12F0)));
    assert_eq!(a.inc(AddrWrap::Long).raw(), 0x7F12F1);
    assert_eq!(usize::from(a), 0x7F12F0);
}

#[test]
fn flags_set_and_clear() {
    let mut p: u8 = 0x00;
    Flag::C.set(&mut p);
    Flag::N.set(&mut p);
    assert_eq!(p, 0x81);
    Flag::C.clear(&mut p);
    assert_eq!(p, 0x80);
    Flag::B.set(&mut p);
    assert_eq!(p, 0x90);
    assert_eq!(Flag::B, Flag::X);
}

#[test]
fn flag_expectation_holds() {
    let exp = FlagExpectation(vec![(Flag::C, true), (Flag::Z, false)]);
    assert!(exp.holds(0x01));
    assert!(exp.holds(0x81));
    assert!(!exp.holds(0x03));
    assert!(!exp.holds(0x00));
    assert!(FlagExpectation(vec![]).holds(0xFF));
}

#[test]
fn retain_keeps_the_last_event() {
    let mut rep = Retain::new();
    assert!(rep.last().is_none());
    rep.report(Event::Exec { pbr: 0, pc: 1, instruction: String::from("NOP"), operands: String::new() });
    rep.report(Event::Exec { pbr: 2, pc: 3, instruction: String::from("BRK"), operands: String::from("#$00") });
    match rep.last() {
        Some(Event::Exec { pbr, pc, instruction, operands }) => {
            assert_eq!((*pbr, *pc), (2, 3));
            assert_eq!(instruction, "BRK");
            assert_eq!(operands, "#$00");
        }
        None => panic!("no event kept"),
    }
}

#[test]
fn flag_expectation_text() {
    let exp = FlagExpectation::parse("C:1,Z:0,E:1,B:1").unwrap();
    assert_eq!(exp.0, vec![(Flag::C, true), (Flag::Z, false), (Flag::N, true), (Flag::X, true)]);
    let exp = FlagExpectation::parse("").unwrap();
    assert!(exp.0.is_empty());
    // Only the part between the first two colons is the value.
    let exp = FlagExpectation::parse("V:1:0,D:0").unwrap();
    assert_eq!(exp.0, vec![(Flag::V, true), (Flag::D, false)]);
    // Any value but 1 expects the flag clear.
    let exp = FlagExpectation::parse("M:11,I:").unwrap();
    assert_eq!(exp.0, vec![(Flag::M, false), (Flag::I, false)]);
}

#[test]
fn flag_expectation_text_errors() {
    match FlagExpectation::parse("C:1,Q:0") {
        Err(m) => assert_eq!(m, "Invalid flag expectation: C:1,Q:0"),
        Ok(_) => panic!("accepted an unknown flag"),
    }
    assert!(FlagExpectation::parse("C").is_err());
    assert!(FlagExpectation::parse("C:1,").is_err());
    assert!(FlagExpectation::parse("CZ:1").is_err());
    assert!("N:1".parse::<FlagExpectation>().is_ok());
}

#[test]
fn cpu_text() {
    let cpu = CPU::from_str("P.E:0,PBR:B0,PC:+a000,A:1234,X:00FF,P.M:1,P.C:1").unwrap();
    assert!(cpu.regs.mode_is_native());
    assert_eq!(cpu.regs.pbr(), 0xB0);
    assert_eq!(cpu.regs.pc(), 0xA000);
    assert_eq!(cpu.regs.a(), 0x1234);
    assert_eq!(cpu.regs.x(), 0x00FF);
    assert_eq!(cpu.regs.p(), 0x21);
    assert_eq!(cpu.cycles, 0);

    // Emulation mode keeps the stack in page one and forces M and X.
    let cpu = CPU::from_str("SP:E0FF,P.E:1,P:00").unwrap();
    assert_eq!(cpu.regs.sp(), 0x01FF);
    assert_eq!(cpu.regs.p(), 0x00);
    let cpu = CPU::from_str("P.E:1,P.C:1").unwrap();
    assert_eq!(cpu.regs.p(), 0x31);

    let cpu = CPU::from_str("").unwrap();
    assert_eq!(cpu.regs.pc(), 0);
}

#[test]
fn cpu_text_errors() {
    match CPU::from_str("PC:A000,Q:1,A:12") {
        Err(m) => assert_eq!(m, "Invalid property: Q:1"),
        Ok(_) => panic!("accepted an unknown register"),
    }
    match CPU::from_str("PC") {
        Err(m) => assert_eq!(m, "Invalid property: PC"),
        Ok(_) => panic!("accepted a property without value"),
    }
    // A property that names nothing stops the reading before a bad number after it.
    assert!(CPU::from_str("Z:0,PC:ZZZZ").is_err());
}

#[test]
fn addr_increment_is_the_same_address_as_adding_one() {
    assert_eq!(Addr::from(0x12, 0x34FF).inc(AddrWrap::Byte), Addr::from(0x12, 0x3400));
    assert_eq!(Addr::from(0x12, 0xFFFF).inc(AddrWrap::Word), Addr::from(0x12, 0x0000));
    assert_eq!(Addr::from(0xFF, 0xFFFF).inc(AddrWrap::Long), Addr::from(0, 0));
    let a = Addr::from(0x34, 0x56FF);
    assert_eq!(a.inc(AddrWrap::Byte), a.wrapping_add(1usize, AddrWrap::Byte));
    assert_ne!(Addr::from(0x12, 0x3400), Addr::from(0x13, 0x3400));
}

#[test]
fn fresh_fake_bus_reads_zero() {
    let bus = Fake::new();
    assert_eq!(bus.read_byte(Addr::from(0, 0)), 0);
    assert_eq!(bus.read_byte(Addr::from(0xFF, 0xFFFF)), 0);
    assert_eq!(bus.read_word(Addr::from(0x7E, 0x1234), AddrWrap::Long), 0);
}

#[test]
fn stored_banks_survive_mode_switches() {
    let mut regs = vm8::cpu::w65c816::reg::Bank::default();
    regs.pbr_set(0x12);
    regs.dbr_set(0x34);
    assert_eq!(regs.pbr(), 0x12);
    regs.set_mode_emulated();
    assert_eq!(regs.pbr(), 0);
    assert_eq!(regs.dbr(), 0);
    regs.set_mode_native();
    assert_eq!(regs.pbr(), 0x12);
    assert_eq!(regs.dbr(), 0x34);
    regs.set_mode_emulated();
    regs.set_mode_emulated();
    regs.set_mode_native();
    regs.set_mode_native();
    assert_eq!(regs.pbr(), 0x12);
}
