use ethercrab::eeprom::{DeviceEeprom, EepromRange};
use ethercrab::error::Error;
use ethercrab::maindevice::{MainDevice, Timeouts};
use ethercrab::maindevice_config::MainDeviceConfig;
use ethercrab::pdu_loop::PduStorage;
use ethercrab::subdevice::{DcSupport, IoRanges, Mailbox, SubDeviceIdentity};

#[test]
fn identity_unpacks_little_endian() {
    let mut raw = Vec::new();
    raw.extend_from_slice(&0x0000_0002u32.to_le_bytes());
    raw.extend_from_slice(&0x0445_0000u32.to_le_bytes());
    raw.extend_from_slice(&0x0011_0000u32.to_le_bytes());
    raw.extend_from_slice(&1234u32.to_le_bytes());

    let identity = SubDeviceIdentity::unpack_from_slice(&raw).unwrap();

    assert_eq!(identity.vendor_id, 0x0000_0002);
    assert_eq!(identity.product_id, 0x0445_0000);
    assert_eq!(identity.revision, 0x0011_0000);
    assert_eq!(identity.serial, 1234);
}

#[test]
fn identity_rejects_short_input() {
    assert_eq!(
        SubDeviceIdentity::unpack_from_slice(&vec![0u8; 15]),
        Err(ethercrab::WireError::ReadBufferTooShort)
    );
}

#[test]
fn dc_support_any() {
    assert!(!DcSupport::Absent.any());
    assert!(DcSupport::Bits32.any());
    assert!(DcSupport::Bits64.any());
}

#[test]
fn mailbox_and_io_ranges_hold_plain_values() {
    let mailbox = Mailbox { address: 0x1000, len: 128, sync_manager: 0 };
    assert_eq!(mailbox.address, 0x1000);

    let ranges = IoRanges::default();
    assert_eq!(ranges.input.bit_len, 0);
    assert_eq!(ranges.output.end_byte, 0);
}

#[test]
fn eeprom_range_skip_bounds() {
    // A range of 0x20 words starting at word 0x40: bytes 0x80 to 0xc0.
    let mut range = EepromRange::new(0u8, 0x40, 0x20);

    assert_eq!(range.byte_pos, 0x80);
    assert_eq!(range.skip_ahead_bytes(0x10), Ok(()));
    assert_eq!(range.byte_pos, 0x90);

    // Skipping to or past the end fails without moving.
    assert_eq!(range.skip_ahead_bytes(0x30), Err(Error::Internal));
    assert_eq!(range.byte_pos, 0x90);

    assert_eq!(range.into_inner(), 0u8);
}

#[test]
fn device_eeprom_remembers_address() {
    let storage = PduStorage::new(1, 28);
    let maindevice = MainDevice::new(storage, Timeouts::default(), MainDeviceConfig::default());

    let eeprom = DeviceEeprom::new(&maindevice, 0x1001);

    assert_eq!(eeprom.configured_address, 0x1001);
}

#[test]
fn error_descriptions_exist() {
    assert!(!Error::Timeout.describe().is_empty());
    assert!(!Error::Topology.describe().is_empty());
}
