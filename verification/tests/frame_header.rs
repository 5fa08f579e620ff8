use ethercrab::frame_header::{EthercatFrameHeader, ProtocolType};

#[test]
fn pdu_header() {
    let header = EthercatFrameHeader::pdu(0x28);

    let packed = header.pack();

    let expected = 0b0001_0000_0010_1000u16.to_le_bytes();

    assert_eq!(packed, expected);
}

#[test]
fn decode_pdu_len() {
    let raw = 0b0001_0000_0010_1000u16;

    let header = EthercatFrameHeader::unpack_from_slice(&raw.to_le_bytes().to_vec()).unwrap();

    assert_eq!(header.payload_len, 0x28);
    assert_eq!(header.protocol, ProtocolType::DlPdu);
}

#[test]
fn parse() {
    // Header from a wire capture of a bus with one coupler
    let raw = vec![0x3cu8, 0x10];

    let header = EthercatFrameHeader::unpack_from_slice(&raw).unwrap();

    assert_eq!(header.payload_len, 0x3c);
    assert_eq!(header.protocol, ProtocolType::DlPdu);
}

#[test]
fn header_too_short() {
    assert_eq!(
        EthercatFrameHeader::unpack_from_slice(&vec![0x3c]),
        Err(ethercrab::WireError::ReadBufferTooShort)
    );
}

#[test]
fn header_bad_protocol() {
    // Protocol nibble 0x2 is not DLPDU
    assert_eq!(
        EthercatFrameHeader::unpack_from_slice(&vec![0x3c, 0x20]),
        Err(ethercrab::WireError::InvalidValue)
    );
}
