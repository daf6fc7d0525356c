use pmdhost::packet::PacketSend;

#[test]
fn packet_bytes_in_wire_order() {
    let p = PacketSend::new(PacketSend::INT_SELECT_A | PacketSend::BANK_SELECT, 0x27, 0x3F);
    assert_eq!(p.end_sym, 0xAA);
    assert_eq!(p.as_bytes(), [0x41, 0x27, 0x3F, 0xAA]);
}

#[test]
fn size_request_packet() {
    let p = PacketSend::new(PacketSend::SIZE_REQUEST, 0, 0);
    assert_eq!(p.as_bytes(), [0x08, 0x00, 0x00, 0xAA]);
}

#[test]
fn type_bits() {
    assert_eq!(PacketSend::INT_END, 0x80);
    assert_eq!(PacketSend::INT_SELECT_A, 0x40);
    assert_eq!(PacketSend::FORCE_TIMEOUT, 0x20);
    assert_eq!(PacketSend::FLUSH, 0x10);
    assert_eq!(PacketSend::SIZE_REQUEST, 0x08);
    assert_eq!(PacketSend::BANK_SELECT, 0x01);
}
