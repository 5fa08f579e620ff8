use ethercrab::command::{Command, WrappedWrite};
use ethercrab::error::Error;
use ethercrab::layout::{
    parse_struct_layout, read_struct_fields, read_subbyte_field, write_struct_fields,
    write_subbyte_field, EnumLayout, EnumMatch, EnumVariant, FieldDef, FieldPos, FieldValue,
};
use ethercrab::WireError;

fn field(bits: usize) -> FieldDef {
    FieldDef { bits, pre_skip: 0, post_skip: 0, skip: false }
}

#[test]
fn layout_mixed_fields() {
    // One bit, two bits, three bits padded to the byte, then a byte and a
    // word: four bytes in total.
    let fields = vec![
        field(1),
        field(2),
        FieldDef { bits: 3, pre_skip: 0, post_skip: 2, skip: false },
        field(8),
        field(16),
    ];

    let pos = parse_struct_layout(32, &fields).expect("valid layout");

    assert_eq!(
        pos,
        vec![
            FieldPos { bit_start: 0, bits: 1, skip: false },
            FieldPos { bit_start: 1, bits: 2, skip: false },
            FieldPos { bit_start: 3, bits: 3, skip: false },
            FieldPos { bit_start: 8, bits: 8, skip: false },
            FieldPos { bit_start: 16, bits: 16, skip: false },
        ]
    );
}

#[test]
fn layout_rejects_unaligned_multibyte() {
    // Three bits followed directly by a whole byte: the byte field starts
    // five bits early.
    let fields = vec![field(3), field(8)];

    assert_eq!(parse_struct_layout(11, &fields), Err(WireError::InvalidValue));
}

#[test]
fn layout_rejects_straddling_subbyte() {
    // A six-bit field starting at bit 5 would cross the byte boundary.
    let fields = vec![field(5), field(6)];

    assert_eq!(parse_struct_layout(11, &fields), Err(WireError::InvalidValue));
}

#[test]
fn layout_rejects_width_mismatch() {
    let fields = vec![field(8)];

    assert_eq!(parse_struct_layout(16, &fields), Err(WireError::InvalidValue));
}

#[test]
fn layout_skips_consume_no_width() {
    let fields = vec![
        FieldDef { bits: 3, pre_skip: 2, post_skip: 3, skip: false },
        FieldDef { bits: 64, pre_skip: 0, post_skip: 0, skip: true },
    ];

    let pos = parse_struct_layout(8, &fields).expect("valid layout");

    assert_eq!(pos[0], FieldPos { bit_start: 2, bits: 3, skip: false });
    assert!(pos[1].skip);
}

#[test]
fn subbyte_round_trip() {
    let mut buf = vec![0u8; 2];

    // A three-bit field at bit offset 2 of the first byte.
    write_subbyte_field(&mut buf, 2, 3, 5);

    assert_eq!(buf[0], 5 << 2);
    assert_eq!(read_subbyte_field(&buf, 2, 3), 5);

    // A second field in the same byte does not disturb the first.
    write_subbyte_field(&mut buf, 5, 2, 3);
    assert_eq!(read_subbyte_field(&buf, 2, 3), 5);
    assert_eq!(read_subbyte_field(&buf, 5, 2), 3);
}

fn one_byte_layout(catch_all: bool) -> EnumLayout {
    EnumLayout {
        variants: vec![
            EnumVariant { canonical: 0x01, alternatives: vec![] },
            EnumVariant { canonical: 0x02, alternatives: vec![3, 4, 5, 6] },
            EnumVariant { canonical: 0x07, alternatives: vec![] },
            EnumVariant { canonical: 0xab, alternatives: vec![] },
        ],
        catch_all,
    }
}

#[test]
fn enum_reads_canonical() {
    let layout = one_byte_layout(true);

    assert_eq!(layout.read_value(0x07), Ok(EnumMatch::Variant(2)));
}

#[test]
fn enum_alternative_reads_like_canonical() {
    let layout = one_byte_layout(true);

    // Every alternative reads back to the same variant as the canonical
    // value.
    let canonical = layout.read_value(0x02);
    for alt in [3u32, 4, 5, 6] {
        assert_eq!(layout.read_value(alt), canonical);
    }
    assert_eq!(canonical, Ok(EnumMatch::Variant(1)));

    // The canonical value, never an alternative, goes to the wire.
    assert_eq!(layout.write_variant(1), 0x02);
}

#[test]
fn enum_catch_all_holds_raw_value() {
    let layout = one_byte_layout(true);

    assert_eq!(layout.read_value(0xaa), Ok(EnumMatch::CatchAll(0xaa)));
}

#[test]
fn enum_without_catch_all_rejects() {
    let layout = one_byte_layout(false);

    assert_eq!(layout.read_value(0xaa), Err(WireError::InvalidValue));
}

#[test]
fn command_codes() {
    assert_eq!(Command::Nop.code(), 0);
    assert_eq!(Command::from(Command::brd(0x0000)).code(), 7);
    assert_eq!(Command::from(Command::bwr(0x0900)).code(), 8);
    assert_eq!(Command::from(Command::fprd(0x1000, 0x0918)).code(), 4);
    assert_eq!(Command::from(Command::fpwr(0x1000, 0x0920)).code(), 5);
    assert_eq!(Command::from(Command::frmw(0x1000, 0x0910)).code(), 14);
}

#[test]
fn command_packs_address_little_endian() {
    let cmd: Command = Command::fpwr(0x1234, 0x5678).into();

    assert_eq!(cmd.pack(), [0x34, 0x12, 0x78, 0x56]);
}

#[test]
fn wrapped_write_builder() {
    let write = WrappedWrite::new(Command::bwr(0x0900));

    // The default expected working counter is one.
    assert_eq!(write.check_wkc(1), Ok(()));
    assert_eq!(
        write.check_wkc(0),
        Err(Error::WorkingCounter { expected: 1, actual: 0 })
    );

    let write = write.with_wkc(3);
    assert_eq!(write.check_wkc(3), Ok(()));

    // A disabled check accepts anything.
    let write = write.ignore_wkc();
    assert_eq!(write.check_wkc(55), Ok(()));

    let write = write.with_len(16);
    assert_eq!(write.len_override, Some(16));
}

#[test]
fn wire_u16_u32_round_trip() {
    let mut buf = vec![0u8; 8];

    ethercrab::wire::put_u16_le(&mut buf, 0, 0x1234);
    ethercrab::wire::put_u32_le(&mut buf, 2, 0xdead_beef);

    assert_eq!(&buf[0..6], &[0x34, 0x12, 0xef, 0xbe, 0xad, 0xde]);
    assert_eq!(ethercrab::wire::get_u16_le(&buf, 0), 0x1234);
    assert_eq!(ethercrab::wire::get_u32_le(&buf, 2), 0xdead_beef);
}

#[test]
fn enum_write_then_read_round_trips() {
    let layout = one_byte_layout(false);

    for k in 0..4 {
        let raw = layout.write_variant(k);
        assert_eq!(layout.read_value(raw), Ok(EnumMatch::Variant(k)));
    }
}

#[test]
fn struct_interpreter_round_trips() {
    // The mixed layout: three sub-byte fields padded to the byte, a byte, a
    // word, and a skipped field.
    let fields = vec![
        field(1),
        field(2),
        FieldDef { bits: 3, pre_skip: 0, post_skip: 2, skip: false },
        field(8),
        field(16),
        FieldDef { bits: 0, pre_skip: 0, post_skip: 0, skip: true },
    ];
    let pos = parse_struct_layout(32, &fields).expect("valid layout");

    let values = vec![
        FieldValue::Bits(1),
        FieldValue::Bits(0b10),
        FieldValue::Bits(0b101),
        FieldValue::Bytes(vec![0xab]),
        FieldValue::Bytes(0x1234u16.to_le_bytes().to_vec()),
        FieldValue::Bits(0),
    ];

    let packed = write_struct_fields(32, &pos, &values);

    // Bit 0, bits 1..3 and bits 3..6 of the first byte; then the bytes.
    assert_eq!(packed, vec![0b00101_10_1u8, 0xab, 0x34, 0x12]);

    let read = read_struct_fields(&pos, &packed);
    assert_eq!(read, values);
}
