use byteorder::BigEndian;
use vm8::bus::addr::Address;
use vm8::bus::endian::Endianness;
use vm8::bus::memory::{Memory, MemoryBank};

#[test]
fn test_memory_bank() {
    let mut bank = MemoryBank::with_size(64 * 1024);
    bank.write_word::<BigEndian>(Address::from(0x0000), 0x5678);
    bank.write_word::<BigEndian>(Address::from(0xfffe), 0x1234);
    assert_eq!(0x1234, bank.read_word::<BigEndian>(Address::from(0xfffe)));
    assert_eq!(0x5678, bank.read_word::<BigEndian>(Address::from(0x0000)));
    assert_eq!(0x3456, bank.read_word::<BigEndian>(Address::from(0xffff)));
}

use byteorder::LittleEndian;
use vm8::bus::{Bus, Dead};

#[test]
fn bank_read_after_write() {
    let mut bank = MemoryBank::with_size(16);
    bank.write_byte(Address::from(5), 0xAB);
    assert_eq!(bank.read_byte(Address::from(5)), 0xAB);
    assert_eq!(bank.read_byte(Address::from(6)), 0x00);
    assert_eq!(bank.size(), 16);
}

#[test]
fn bank_mirrors_above_its_largest_power_of_two() {
    // A bank of 5 bytes decodes two address bits: its first 4 bytes repeat every 4 addresses.
    let mut bank = MemoryBank::with_size(5);
    bank.write_byte(Address::from(1), 0x42);
    assert_eq!(bank.read_byte(Address::from(5)), 0x42);
    assert_eq!(bank.read_byte(Address::from(0x1001)), 0x42);
    bank.write_byte(Address::from(7), 0x17);
    assert_eq!(bank.read_byte(Address::from(3)), 0x17);
    assert_eq!(bank.size(), 5);
}

#[test]
fn bank_of_one_byte_answers_every_address() {
    let mut bank = MemoryBank::with_size(1);
    bank.write_byte(Address::from(0x1234), 0x99);
    assert_eq!(bank.read_byte(Address::from(0)), 0x99);
    assert_eq!(bank.read_byte(Address::from(0xFFFF)), 0x99);
}

#[test]
fn bank_word_round_trip_little_endian() {
    let mut bank = MemoryBank::with_size(256);
    bank.write_word::<LittleEndian>(Address::from(0x10), 0xBEEF);
    assert_eq!(bank.read_byte(Address::from(0x10)), 0xEF);
    assert_eq!(bank.read_byte(Address::from(0x11)), 0xBE);
    assert_eq!(bank.read_word::<LittleEndian>(Address::from(0x10)), 0xBEEF);
    assert_eq!(bank.read_word::<BigEndian>(Address::from(0x10)), 0xEFBE);
}

#[test]
fn bank_readonly_mark_does_not_stop_writes() {
    let mut bank = MemoryBank::with_size(8);
    bank.set_readonly(true);
    bank.write_byte(Address::from(2), 0x55);
    assert_eq!(bank.read_byte(Address::from(2)), 0x55);
}

#[test]
fn bank_set_data_appends_without_changing_the_decoded_bits() {
    let mut bank = MemoryBank::with_size(4);
    let copied = bank.set_data(&[1, 2, 3]).unwrap();
    assert_eq!(copied, 3);
    assert_eq!(bank.size(), 7);
    // The bank still decodes two address bits: address 4 reaches its first byte.
    assert_eq!(bank.read_byte(Address::from(4)), 0);
}

#[test]
fn address_conversions() {
    let a = Address::from(0x1234);
    assert_eq!(u16::from(a), 0x1234);
    assert_eq!(usize::from(a), 0x1234);
    assert_eq!(a + 1, Address::from(0x1235));
    assert_eq!(a + Address::from(0x10), Address::from(0x1244));
    assert_eq!(u16::from(Address::from(0xFFFF) + 1), 0x0000);
    assert_eq!(usize::from(Address::from(0xFFFF) + 1), 0x10000);
    assert_eq!(a.offset(2).value(), 0x1236);
}

#[test]
fn dead_bus_reads_defaults_and_ignores_writes() {
    let mut dead = Dead;
    Bus::<u16, u8>::write_to(&mut dead, 0x10, 0xFF);
    assert_eq!(Bus::<u16, u8>::read_from(&mut dead, 0x10), 0);
    assert_eq!(Bus::<u8, u16>::read_from(&mut dead, 0x10), 0);
    let mut boxed: Box<Dead> = Box::new(Dead);
    Bus::<u8, u8>::write_to(&mut boxed, 1, 2);
    assert_eq!(Bus::<u8, u8>::read_from(&mut boxed, 1), 0);
}

#[test]
fn byte_orders_read_and_write_words() {
    assert_eq!(<BigEndian as Endianness>::read_u16(&[0x12, 0x34]), 0x1234);
    assert_eq!(<LittleEndian as Endianness>::read_u16(&[0x12, 0x34]), 0x3412);
    assert_eq!(<BigEndian as Endianness>::read_i16(&[0xFE, 0xFF]), -257);
    assert_eq!(<LittleEndian as Endianness>::read_i16(&[0xFE, 0xFF]), -2);
    let mut buf = [0u8; 2];
    <BigEndian as Endianness>::write_u16(&mut buf, 0xABCD);
    assert_eq!(buf, [0xAB, 0xCD]);
    <LittleEndian as Endianness>::write_u16(&mut buf, 0xABCD);
    assert_eq!(buf, [0xCD, 0xAB]);
}

#[test]
fn power_of_two_bank_maps_address_modulo_its_size() {
    let mut bank = MemoryBank::with_size(0x100);
    bank.write_byte(Address::from(0x1234), 0x5A);
    assert_eq!(bank.read_byte(Address::from(0x34)), 0x5A);
    assert_eq!(bank.read_byte(Address::from(0xFF34)), 0x5A);
    assert_eq!(bank.read_byte(Address::from(0x35)), 0x00);
}
