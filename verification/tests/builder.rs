use exopteron::network::builder::ClassicPacketBuilder;

#[test]
fn fields_in_order_after_the_id() {
    let mut b = ClassicPacketBuilder::new();
    b.insert_byte(-1);
    b.insert_byte_raw(0x80);
    b.insert_short(0x0102);
    b.insert_int(-2);
    b.insert_long(1);
    assert_eq!(
        b.build(0x05).unwrap(),
        vec![0x05, 0xFF, 0x80, 0x01, 0x02, 0xFF, 0xFF, 0xFF, 0xFE, 0, 0, 0, 0, 0, 0, 0, 1]
    );
}

#[test]
fn strings_and_bytes() {
    let mut b = ClassicPacketBuilder::new();
    b.insert_string("hé");
    b.insert_string16("hé");
    b.insert_bytearray(vec![9, 8]);
    assert_eq!(
        b.build(1).unwrap(),
        vec![1, 0, 3, b'h', 0xC3, 0xA9, 0, 2, 0, b'h', 0, 0xE9, 9, 8]
    );
}

#[test]
fn utf16_strings_count_code_units() {
    let mut b = ClassicPacketBuilder::new();
    b.insert_string16("\u{1F600}");
    assert_eq!(b.build(2).unwrap(), vec![2, 0, 2, 0xD8, 0x3D, 0xDE, 0x00]);
}

#[test]
fn floats_by_their_bits() {
    let mut b = ClassicPacketBuilder::new();
    b.insert_float_bits(1.5f32.to_bits());
    b.insert_double_bits((-2.0f64).to_bits());
    let mut expected = vec![3];
    expected.extend_from_slice(&1.5f32.to_be_bytes());
    expected.extend_from_slice(&(-2.0f64).to_be_bytes());
    assert_eq!(b.build(3).unwrap(), expected);
}

#[test]
fn empty_packet_is_its_id() {
    assert_eq!(ClassicPacketBuilder::new().build(0xFF).unwrap(), vec![0xFF]);
}
