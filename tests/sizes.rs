use multiboot2::{EfiBootServiceHeaderTag, EndHeaderTag, FramebufferColor};

#[test]
fn end_test_assert_size() {
    assert_eq!(core::mem::size_of::<EndHeaderTag>(), 2 + 2 + 4);
}

#[test]
fn uefi_bs_test_assert_size() {
    assert_eq!(core::mem::size_of::<EfiBootServiceHeaderTag>(), 2 + 2 + 4);
}

#[test]
fn test_size() {
    assert_eq!(core::mem::size_of::<FramebufferColor>(), 3)
}
