//! Dispatch of an information record to the parser of its kind. A kind
//! without a parser here is kept as its raw view, so that records of kinds
//! added to the format later pass through unharmed.
use vstd::prelude::*;
use crate::framebuffer::{FramebufferTag, model_of, record_error};
use crate::tag::{ParseError, TagView, FRAMEBUFFER_TAG_TYPE};

verus! {

/// An information record, parsed where its kind is known.
pub enum Record<'a> {
    Framebuffer(FramebufferTag),
    Other(TagView<'a>),
}

/// Parses the record that `view` shows by its kind.
pub fn parse_record<'a>(view: TagView<'a>) -> (r: Result<Record<'a>, ParseError>)
    ensures
        view@.typ == FRAMEBUFFER_TAG_TYPE ==> match r {
            Ok(Record::Framebuffer(t)) => record_error(view.bytes()) is None && t.wf() && t@ == model_of(
                view.bytes(),
            ),
            Ok(Record::Other(_)) => false,
            Err(e) => record_error(view.bytes()) == Some(e),
        },
        view@.typ != FRAMEBUFFER_TAG_TYPE ==> match r {
            Ok(Record::Other(v)) => v@ == view@ && v.bytes() == view.bytes(),
            _ => false,
        },
{
    if view.typ() == FRAMEBUFFER_TAG_TYPE {
        match FramebufferTag::parse(view.as_bytes()) {
            Ok(t) => Ok(Record::Framebuffer(t)),
            Err(e) => Err(e),
        }
    } else {
        Ok(Record::Other(view))
    }
}

} // verus!
