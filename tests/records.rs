use multiboot2::tag::{parse_tag, walk_tags};
use multiboot2::{parse_record, FramebufferTag, FramebufferType, ParseError, Record};

fn record(typ: u32, size: u32, payload: &[u8]) -> Vec<u8> {
    let mut v = Vec::new();
    v.extend_from_slice(&typ.to_le_bytes());
    v.extend_from_slice(&size.to_le_bytes());
    v.extend_from_slice(payload);
    while v.len() % 8 != 0 {
        v.push(0xAA);
    }
    v
}

#[test]
fn zero_payload_record_of_kind_zero() {
    let buf = [0u8, 0, 0, 0, 8, 0, 0, 0];
    let view = parse_tag(&buf, 0).unwrap();
    assert_eq!(view.typ(), 0);
    assert_eq!(view.size(), 8);
    assert_eq!(view.offset(), 0);
    assert_eq!(view.as_bytes().len(), 8);
}

#[test]
fn terminator_alone_walks_to_no_records() {
    let buf = [0u8, 0, 0, 0, 8, 0, 0, 0];
    let records = walk_tags(&buf).unwrap();
    assert!(records.is_empty());
}

#[test]
fn walk_yields_records_in_buffer_order() {
    let mut buf = record(1, 13, &[b'h', b'e', b'l', b'l', b'o']);
    buf.extend(record(99, 8, &[]));
    buf.extend(record(4, 16, &[1, 2, 3, 4, 5, 6, 7, 8]));
    buf.extend(record(0, 8, &[]));
    buf.extend([0xFFu8; 8]);
    let records = walk_tags(&buf).unwrap();
    assert_eq!(records.len(), 3);
    assert_eq!((records[0].typ(), records[0].offset(), records[0].size()), (1, 0, 13));
    assert_eq!((records[1].typ(), records[1].offset(), records[1].size()), (99, 16, 8));
    assert_eq!((records[2].typ(), records[2].offset(), records[2].size()), (4, 24, 16));
    assert_eq!(&records[0].as_bytes()[8..], b"hello");
}

#[test]
fn undersized_record_is_malformed() {
    let mut buf = record(1, 4, &[]);
    buf.extend(record(0, 8, &[]));
    assert_eq!(parse_tag(&buf, 0).err(), Some(ParseError::MalformedRecord));
    assert_eq!(walk_tags(&buf).err(), Some(ParseError::MalformedRecord));
    let zero = record(7, 0, &[]);
    assert_eq!(parse_tag(&zero, 0).err(), Some(ParseError::MalformedRecord));
}

#[test]
fn oversized_record_is_truncated() {
    let buf = record(1, 100, &[0u8; 8]);
    assert_eq!(buf.len(), 16);
    assert_eq!(parse_tag(&buf, 0).err(), Some(ParseError::TruncatedBuffer));
    assert_eq!(walk_tags(&buf).err(), Some(ParseError::TruncatedBuffer));
}

#[test]
fn unterminated_sequence_is_truncated() {
    let buf = record(1, 12, &[1, 2, 3, 4]);
    assert_eq!(walk_tags(&buf).err(), Some(ParseError::TruncatedBuffer));
    let empty: [u8; 0] = [];
    assert_eq!(walk_tags(&empty).err(), Some(ParseError::TruncatedBuffer));
    assert_eq!(parse_tag(&[0u8, 0, 0, 0, 8], 0).err(), Some(ParseError::TruncatedBuffer));
}

#[test]
fn end_kind_with_payload_is_not_the_terminator() {
    let mut buf = record(0, 16, &[9u8; 8]);
    buf.extend(record(0, 8, &[]));
    let records = walk_tags(&buf).unwrap();
    assert_eq!(records.len(), 1);
    assert_eq!((records[0].typ(), records[0].size()), (0, 16));
}

#[test]
fn dispatch_by_kind_keeps_unknown_kinds_raw() {
    let mut buf = record(0x7777, 12, &[1, 2, 3, 4]);
    buf.extend(FramebufferTag::new(0xB8000, 160, 80, 25, 16, FramebufferType::Text).to_bytes());
    buf.extend(record(0, 8, &[]));
    let records = walk_tags(&buf).unwrap();
    assert_eq!(records.len(), 2);
    match parse_record(records[0].clone()) {
        Ok(Record::Other(v)) => {
            assert_eq!(v.typ(), 0x7777);
            assert_eq!(v.as_bytes(), &buf[0..12]);
        }
        _ => panic!("unknown kind must pass through"),
    }
    match parse_record(records[1].clone()) {
        Ok(Record::Framebuffer(fb)) => {
            assert_eq!(fb.width(), 80);
            assert_eq!(fb.buffer_type(), Ok(FramebufferType::Text));
        }
        _ => panic!("framebuffer kind must parse"),
    }
}

#[test]
fn misaligned_record_is_malformed() {
    let mut buf = vec![0u8; 4];
    buf.extend(record(0, 8, &[]));
    assert_eq!(parse_tag(&buf, 4).err(), Some(ParseError::MalformedRecord));
}
