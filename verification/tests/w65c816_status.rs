use vm8::cpu::w65c816::status::Flag;

#[test]
fn flag_mask() {
    assert_eq!(Flag::C.mask(), 0b0000_0001);
    assert_eq!(Flag::Z.mask(), 0b0000_0010);
    assert_eq!(Flag::I.mask(), 0b0000_0100);
    assert_eq!(Flag::D.mask(), 0b0000_1000);
    assert_eq!(Flag::X.mask(), 0b0001_0000);
    assert_eq!(Flag::B.mask(), 0b0001_0000);
    assert_eq!(Flag::M.mask(), 0b0010_0000);
    assert_eq!(Flag::V.mask(), 0b0100_0000);
    assert_eq!(Flag::N.mask(), 0b1000_0000);
}
