use multiboot2::header::header_tags_end;
use multiboot2::{
    BuildError, EfiBootServiceHeaderTag, EndHeaderTag, HeaderBuilder, HeaderTagFlag,
    HeaderTagHeader, HeaderTagType, ParseError,
};

#[test]
fn end_tag_is_required_end_kind_of_minimal_size() {
    let end = EndHeaderTag::new();
    assert_eq!(end.typ(), HeaderTagType::End);
    assert_eq!(end.flags(), HeaderTagFlag::Required);
    assert_eq!(end.size(), 8);
    assert_eq!(end.to_bytes(), vec![0, 0, 0, 0, 8, 0, 0, 0]);
    assert_eq!(EndHeaderTag::default(), end);
}

#[test]
fn efi_boot_services_tag() {
    let tag = EfiBootServiceHeaderTag::new(HeaderTagFlag::Optional);
    assert_eq!(tag.typ(), HeaderTagType::EfiBS);
    assert_eq!(tag.flags(), HeaderTagFlag::Optional);
    assert_eq!(tag.size(), 8);
    assert_eq!(tag.to_bytes(), vec![7, 0, 1, 0, 8, 0, 0, 0]);
}

#[test]
fn header_tag_header_fields() {
    let h = HeaderTagHeader::new(HeaderTagType::Relocatable, HeaderTagFlag::Required, 24);
    assert_eq!(h.typ(), HeaderTagType::Relocatable);
    assert_eq!(h.flags(), HeaderTagFlag::Required);
    assert_eq!(h.size(), 24);
    assert_eq!(h.to_bytes(), vec![10, 0, 0, 0, 24, 0, 0, 0]);
}

#[test]
fn built_header_ends_at_its_length() {
    let mut b = HeaderBuilder::new();
    assert_eq!(b.add_tag(HeaderTagType::EfiBS, HeaderTagFlag::Optional, &[]), Ok(()));
    assert_eq!(b.add_tag(HeaderTagType::InformationRequest, HeaderTagFlag::Required, &[1, 0, 0, 0, 2, 0, 0, 0, 3, 0, 0, 0]), Ok(()));
    assert_eq!(b.add_tag(HeaderTagType::ModuleAlign, HeaderTagFlag::Required, &[]), Ok(()));
    let bytes = b.build();
    assert_eq!(bytes.len(), 8 + 24 + 8 + 8);
    assert_eq!(&bytes[8..16], &[1, 0, 0, 0, 20, 0, 0, 0]);
    assert_eq!(&bytes[28..32], &[0, 0, 0, 0]);
    assert_eq!(&bytes[40..48], &[0, 0, 0, 0, 8, 0, 0, 0]);
    assert_eq!(header_tags_end(&bytes), Ok(bytes.len()));
}

#[test]
fn empty_header_is_the_terminator() {
    let bytes = HeaderBuilder::new().build();
    assert_eq!(bytes, vec![0, 0, 0, 0, 8, 0, 0, 0]);
    assert_eq!(header_tags_end(&bytes), Ok(8));
}

#[test]
fn builder_refuses_a_second_terminator() {
    let mut b = HeaderBuilder::new();
    assert_eq!(b.add_tag(HeaderTagType::End, HeaderTagFlag::Required, &[]), Err(BuildError::Terminator));
    assert_eq!(b.build().len(), 8);
}

#[test]
fn header_walk_errors() {
    assert_eq!(header_tags_end(&[7, 0, 0, 0, 4, 0, 0, 0]), Err(ParseError::MalformedRecord));
    assert_eq!(header_tags_end(&[7, 0, 0, 0, 64, 0, 0, 0]), Err(ParseError::TruncatedBuffer));
    assert_eq!(header_tags_end(&[7, 0, 0, 0, 8, 0, 0, 0]), Err(ParseError::TruncatedBuffer));
    let trailing = [0u8, 0, 0, 0, 8, 0, 0, 0, 9, 9, 9, 9];
    assert_eq!(header_tags_end(&trailing), Ok(8));
}

#[test]
fn information_request_lists_kinds() {
    let mut b = HeaderBuilder::new();
    assert_eq!(b.add_information_request(HeaderTagFlag::Required, &[1, 2, 8]), Ok(()));
    let bytes = b.build();
    assert_eq!(
        &bytes[0..24],
        &[1, 0, 0, 0, 20, 0, 0, 0, 1, 0, 0, 0, 2, 0, 0, 0, 8, 0, 0, 0, 0, 0, 0, 0]
    );
    assert_eq!(header_tags_end(&bytes), Ok(32));
}

#[test]
fn empty_information_request_is_refused() {
    let mut b = HeaderBuilder::new();
    assert_eq!(b.add_information_request(HeaderTagFlag::Optional, &[]), Err(BuildError::EmptyRequest));
    assert_eq!(b.build(), vec![0, 0, 0, 0, 8, 0, 0, 0]);
}
