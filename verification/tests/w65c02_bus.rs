use vm8::cpu::w65c02::{Bus, FakeBus};

#[test]
fn test_read_u16_page_wrap() {
    let mut bus = FakeBus::new();
    bus.mem_write(0x0000, 0x12);
    bus.mem_write(0x00FF, 0x34);
    assert_eq!(bus.mem_read_word_page_wrap(0x00FF), 0x1234);
}

#[test]
fn test_write_u16_page_wrap() {
    let mut bus = FakeBus::new();
    bus.mem_write_word_page_wrap(0x00FF, 0x1234);
    assert_eq!(bus.mem_read(0x0000), 0x12);
    assert_eq!(bus.mem_read(0x00FF), 0x34);
}
