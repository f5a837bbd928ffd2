use multiboot2::{
    FramebufferColor, FramebufferField, FramebufferTag, FramebufferType, FramebufferTypeId,
    ParseError, UnknownFramebufferType,
};

fn field(position: u8, size: u8) -> FramebufferField {
    FramebufferField { position, size }
}

#[test]
fn text_framebuffer_without_payload() {
    let tag = FramebufferTag::new(0xB8000, 160, 80, 25, 16, FramebufferType::Text);
    let bytes = tag.to_bytes();
    assert_eq!(bytes.len(), 32);
    assert_eq!(&bytes[0..8], &[8, 0, 0, 0, 32, 0, 0, 0]);
    assert_eq!(&bytes[8..16], &[0x00, 0x80, 0x0B, 0, 0, 0, 0, 0]);
    assert_eq!(&bytes[28..32], &[16, 2, 0, 0]);
    let parsed = FramebufferTag::parse(&bytes).unwrap();
    assert_eq!(parsed.address(), 0xB8000);
    assert_eq!(parsed.pitch(), 160);
    assert_eq!(parsed.width(), 80);
    assert_eq!(parsed.height(), 25);
    assert_eq!(parsed.bpp(), 16);
    assert_eq!(parsed.size(), 32);
    assert_eq!(parsed.buffer_type(), Ok(FramebufferType::Text));
    assert_eq!(parsed, tag);
}

#[test]
fn rgb_round_trip() {
    let typ = FramebufferType::RGB { red: field(16, 8), green: field(8, 8), blue: field(0, 8) };
    let tag = FramebufferTag::new(0xFD00_0000, 4096, 1024, 768, 32, typ.clone());
    let bytes = tag.to_bytes();
    assert_eq!(bytes.len(), 38);
    assert_eq!(&bytes[32..38], &[16, 8, 8, 8, 0, 8]);
    let parsed = FramebufferTag::parse(&bytes).unwrap();
    assert_eq!(
        (parsed.address(), parsed.pitch(), parsed.width(), parsed.height(), parsed.bpp()),
        (0xFD00_0000, 4096, 1024, 768, 32)
    );
    assert_eq!(parsed.buffer_type(), Ok(typ));
}

#[test]
fn rgb_payload_maps_to_fields_in_order() {
    let mut bytes = FramebufferTag::new(1, 2, 3, 4, 24, FramebufferType::Text).to_bytes();
    bytes[4] = 38;
    bytes[29] = 1;
    bytes.extend([1u8, 2, 3, 4, 5, 6]);
    let parsed = FramebufferTag::parse(&bytes).unwrap();
    assert_eq!(
        parsed.buffer_type(),
        Ok(FramebufferType::RGB { red: field(1, 2), green: field(3, 4), blue: field(5, 6) })
    );
}

#[test]
fn indexed_round_trip_keeps_palette_order() {
    let palette = vec![
        FramebufferColor { red: 255, green: 0, blue: 0 },
        FramebufferColor { red: 0, green: 255, blue: 0 },
        FramebufferColor { red: 1, green: 2, blue: 3 },
    ];
    let typ = FramebufferType::Indexed { palette: palette.clone() };
    let tag = FramebufferTag::new(0xA0000, 320, 320, 200, 8, typ);
    let bytes = tag.to_bytes();
    assert_eq!(bytes.len(), 32 + 4 + 9);
    assert_eq!(&bytes[32..36], &[3, 0, 0, 0]);
    assert_eq!(&bytes[36..45], &[255, 0, 0, 0, 255, 0, 1, 2, 3]);
    let parsed = FramebufferTag::parse(&bytes).unwrap();
    assert_eq!(parsed.buffer_type(), Ok(FramebufferType::Indexed { palette }));
}

#[test]
fn empty_palette_round_trip() {
    let typ = FramebufferType::Indexed { palette: Vec::new() };
    let bytes = FramebufferTag::new(0, 0, 0, 0, 8, typ.clone()).to_bytes();
    assert_eq!(bytes.len(), 36);
    assert_eq!(FramebufferTag::parse(&bytes).unwrap().buffer_type(), Ok(typ));
}

#[test]
fn palette_count_beyond_payload_is_malformed() {
    let palette = vec![FramebufferColor { red: 9, green: 8, blue: 7 }];
    let mut bytes = FramebufferTag::new(0, 0, 0, 0, 8, FramebufferType::Indexed { palette }).to_bytes();
    bytes[32] = 2;
    assert_eq!(FramebufferTag::parse(&bytes).err(), Some(ParseError::MalformedRecord));
}

#[test]
fn short_rgb_payload_is_malformed() {
    let mut bytes = FramebufferTag::new(0, 0, 0, 0, 8, FramebufferType::Text).to_bytes();
    bytes[29] = 1;
    assert_eq!(FramebufferTag::parse(&bytes).err(), Some(ParseError::MalformedRecord));
}

#[test]
fn framebuffer_size_errors() {
    let mut bytes = FramebufferTag::new(0, 0, 0, 0, 16, FramebufferType::Text).to_bytes();
    bytes[4] = 31;
    assert_eq!(FramebufferTag::parse(&bytes).err(), Some(ParseError::MalformedRecord));
    bytes[4] = 40;
    assert_eq!(FramebufferTag::parse(&bytes).err(), Some(ParseError::TruncatedBuffer));
    assert_eq!(FramebufferTag::parse(&bytes[..6]).err(), Some(ParseError::TruncatedBuffer));
}

#[test]
fn unknown_type_keeps_metadata_readable() {
    let mut bytes = FramebufferTag::new(0x1000, 8, 4, 2, 32, FramebufferType::Text).to_bytes();
    bytes[29] = 7;
    let parsed = FramebufferTag::parse(&bytes).unwrap();
    assert_eq!(parsed.width(), 4);
    assert_eq!(parsed.address(), 0x1000);
    let err = parsed.buffer_type().unwrap_err();
    assert_eq!(err, UnknownFramebufferType(7));
    assert_eq!(err.value(), 7);
}

#[test]
fn type_ids() {
    assert_eq!(FramebufferTypeId::try_from(0), Ok(FramebufferTypeId::Indexed));
    assert_eq!(FramebufferTypeId::try_from(1), Ok(FramebufferTypeId::RGB));
    assert_eq!(FramebufferTypeId::try_from(2), Ok(FramebufferTypeId::Text));
    assert_eq!(FramebufferTypeId::try_from(3), Err(UnknownFramebufferType(3)));
}
