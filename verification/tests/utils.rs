use vm8::utils::bcd::{add_word, sub_word};
use vm8::utils::hex::{append_hex2, append_hex4};
use vm8::utils::word::{high, low, make_word};

#[test]
fn bcd_add_examples() {
    assert_eq!(add_word(0x1123, 0x29), 0x1152);
    assert_eq!(add_word(0x1234, 0x5678), 0x6912);
    assert_eq!(add_word(0x0009, 0x0001), 0x0010);
    assert_eq!(add_word(0x9999, 0x0001), 0x0000);
    assert_eq!(add_word(0x4567, 0x4567), 0x9134);
}

#[test]
fn bcd_sub_examples() {
    assert_eq!(sub_word(0x1143, 0x29), 0x1114);
    assert_eq!(sub_word(0x0010, 0x0001), 0x0009);
    assert_eq!(sub_word(0x0000, 0x0001), 0x9999);
    assert_eq!(sub_word(0x5000, 0x1234), 0x3766);
}

#[test]
fn bcd_add_then_sub_gives_back_the_value() {
    for a in [0x0000u16, 0x0042, 0x1234, 0x9999] {
        for b in [0x0000u16, 0x0001, 0x0999, 0x5678] {
            assert_eq!(sub_word(add_word(a, b), b), a);
        }
    }
}

#[test]
fn hex_text() {
    let mut s = String::new();
    append_hex2(&mut s, 0x0A);
    s.push(' ');
    append_hex4(&mut s, 0xBEEF);
    assert_eq!(s, "0A BEEF");
}

#[test]
fn words_and_bytes() {
    assert_eq!(make_word(0x34, 0x12), 0x1234);
    assert_eq!(low(0x1234), 0x34);
    assert_eq!(high(0x1234), 0x12);
}
