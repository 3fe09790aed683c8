use modbus_symbol_map::address::{offset_to_address, FailureKind};

#[test]
fn holdings_first_region_examples() {
    assert_eq!(offset_to_address(1, 512), Ok(768));
    assert_eq!(offset_to_address(1, 514), Ok(769));
    assert_eq!(offset_to_address(1, 1022), Ok(1023));
}

#[test]
fn holdings_second_region_examples() {
    assert_eq!(offset_to_address(1, 1024), Ok(24576));
    assert_eq!(offset_to_address(1, 1026), Ok(24577));
    assert_eq!(offset_to_address(1, 2048), Ok(25088));
}

#[test]
fn holdings_below_first_region_is_out_of_range() {
    assert_eq!(offset_to_address(1, 0), Err(FailureKind::OutOfRange));
    assert_eq!(offset_to_address(1, 510), Err(FailureKind::OutOfRange));
}

#[test]
fn odd_offsets_are_unaligned_in_every_space() {
    assert_eq!(offset_to_address(0, 1), Err(FailureKind::Unaligned));
    assert_eq!(offset_to_address(1, 513), Err(FailureKind::Unaligned));
    assert_eq!(offset_to_address(2, 9999), Err(FailureKind::Unaligned));
}

#[test]
fn inputs_examples() {
    assert_eq!(offset_to_address(2, 510), Err(FailureKind::OutOfRange));
    assert_eq!(offset_to_address(2, 512), Ok(256));
    assert_eq!(offset_to_address(2, 514), Ok(257));
}

#[test]
fn marker_examples() {
    assert_eq!(offset_to_address(0, 0), Ok(12288));
    assert_eq!(offset_to_address(0, 100), Ok(12338));
}

#[test]
fn unknown_space_is_rejected() {
    assert_eq!(offset_to_address(3, 4), Err(FailureKind::UnknownSpace));
    // An unrecognized space wins over alignment: the odd offset is not
    // classified as unaligned here.
    assert_eq!(offset_to_address(7, 3), Err(FailureKind::UnknownSpace));
}

#[test]
fn reason_texts() {
    assert_eq!(FailureKind::Unaligned.reason_text(), "unaligned");
    assert_eq!(FailureKind::OutOfRange.reason_text(), "out of range");
    assert_eq!(FailureKind::UnknownSpace.reason_text(), "illegal ID");
}
