//! Tagged boot-time records: the information records a bootloader hands to a
//! kernel, the header records a kernel image carries, and the framebuffer
//! record with its variant-dependent payload. Every parser works on a byte
//! slice and never reads past the bounds it has checked.
pub mod bytes;
pub mod reader;
pub mod tag;
pub mod framebuffer;
pub mod header;
pub mod record;

pub use framebuffer::{
    FramebufferColor, FramebufferField, FramebufferTag, FramebufferType, FramebufferTypeId,
    UnknownFramebufferType,
};
pub use header::{
    BuildError, EfiBootServiceHeaderTag, EndHeaderTag, HeaderBuilder, HeaderTagFlag,
    HeaderTagHeader, HeaderTagType,
};
pub use record::{parse_record, Record};
pub use tag::{ParseError, TagHeader, TagView};
