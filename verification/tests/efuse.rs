use apple_silicon::efuse::EfuseCell;

#[test]
fn extracts_a_field() {
    let cell = EfuseCell { name: String::from("trim"), offset: 0x10, bit_offset: 4, bit_count: 5 };
    assert_eq!(cell.extract(0xffff_ffff), 0x1f);
    assert_eq!(cell.extract(0x0000_01a0), 0x1a);
    assert_eq!(cell.clone().offset, 0x10);
}
