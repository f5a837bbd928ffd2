//! Information records: the common header, a zero-copy view of one record,
//! and the walk over a buffer of records packed back to back.
use vstd::prelude::*;
use crate::bytes::{u32_le, u32_bytes, push_u32};
use crate::reader::Reader;

verus! {

/// Size of the common prefix of every information record: kind and size.
pub const TAG_HEADER_SIZE: u32 = 8;

/// Kind of the terminator record that ends a sequence.
pub const END_TAG_TYPE: u32 = 0;

/// Kind of the framebuffer record.
pub const FRAMEBUFFER_TAG_TYPE: u32 = 8;

/// Why a record could not be parsed.
#[derive(Clone, Copy, Debug, PartialEq, Eq, Structural)]
pub enum ParseError {
    /// The declared size is below the minimal size, the record does not
    /// start on a multiple of eight, or a length field inside the record
    /// claims more bytes than the record holds.
    MalformedRecord,
    /// Fewer bytes remain than the declared or the minimal size asks for.
    TruncatedBuffer,
}

/// The common prefix of every information record. The size counts the
/// header's own bytes. Unknown kinds are legal.
#[derive(Clone, Copy, Debug, PartialEq, Eq, Structural)]
pub struct TagHeader {
    pub typ: u32,
    pub size: u32,
}

impl TagHeader {
    pub fn new(typ: u32, size: u32) -> (r: Self)
        ensures
            r.typ == typ,
            r.size == size,
    {
        TagHeader { typ, size }
    }

    /// Reads the header stored at `off`.
    pub fn read(buf: &[u8], off: usize) -> (r: Self)
        requires
            off + TAG_HEADER_SIZE <= buf@.len(),
        ensures
            r.typ == u32_le(buf@, off as int),
            r.size == u32_le(buf@, off + 4),
    {
        let mut reader = Reader::new(buf, off);
        let typ = reader.read_u32();
        let size = reader.read_u32();
        TagHeader { typ, size }
    }

    /// The header's eight bytes.
    pub fn to_bytes(&self) -> (r: Vec<u8>)
        ensures
            r@ == u32_bytes(self.typ) + u32_bytes(self.size),
    {
        let mut v: Vec<u8> = Vec::new();
        push_u32(&mut v, self.typ);
        push_u32(&mut v, self.size);
        assert(v@ =~= u32_bytes(self.typ) + u32_bytes(self.size));
        v
    }
}

/// Where a record lies in a buffer, and its kind.
pub ghost struct TagSpan {
    pub typ: u32,
    pub offset: int,
    pub size: int,
}

/// The record at `off` of `s`, or why there is none. It must start on a
/// multiple of eight, its declared size must be at least the header's, and
/// the bytes it declares must be in `s`.
pub open spec fn tag_at(s: Seq<u8>, off: int) -> Result<TagSpan, ParseError> {
    if off % 8 != 0 {
        Err(ParseError::MalformedRecord)
    } else if off < 0 || off + TAG_HEADER_SIZE > s.len() {
        Err(ParseError::TruncatedBuffer)
    } else if u32_le(s, off + 4) < TAG_HEADER_SIZE {
        Err(ParseError::MalformedRecord)
    } else if u32_le(s, off + 4) > s.len() - off {
        Err(ParseError::TruncatedBuffer)
    } else {
        Ok(TagSpan { typ: u32_le(s, off), offset: off, size: u32_le(s, off + 4) as int })
    }
}

/// `n` rounded up to a multiple of eight.
pub open spec fn align8(n: int) -> int {
    if n % 8 == 0 {
        n
    } else {
        n + (8 - n % 8)
    }
}

/// Whether the record is the terminator: the end kind at the minimal size.
pub open spec fn is_terminator(t: TagSpan) -> bool {
    t.typ == END_TAG_TYPE && t.size == TAG_HEADER_SIZE
}

/// `a` followed by the records of `r`, or the error of `r`.
pub open spec fn prepend(a: Seq<TagSpan>, r: Result<Seq<TagSpan>, ParseError>) -> Result<
    Seq<TagSpan>,
    ParseError,
> {
    match r {
        Ok(v) => Ok(a + v),
        Err(e) => Err(e),
    }
}

/// The records of `s` from `off` up to the terminator, which is not among
/// them; each next record starts at the following multiple of eight. A
/// sequence that runs out of bytes before its terminator is truncated.
pub open spec fn walk(s: Seq<u8>, off: int) -> Result<Seq<TagSpan>, ParseError>
    decreases s.len() - off,
{
    match tag_at(s, off) {
        Err(e) => Err(e),
        Ok(t) => if is_terminator(t) {
            Ok(Seq::empty())
        } else if align8(off + t.size) + TAG_HEADER_SIZE > s.len() {
            Err(ParseError::TruncatedBuffer)
        } else {
            prepend(seq![t], walk(s, align8(off + t.size)))
        },
    }
}

/// A read-only window onto one record of a buffer owned by the caller: no
/// byte is copied.
#[derive(Clone, Copy, Debug)]
pub struct TagView<'a> {
    typ: u32,
    size: u32,
    offset: usize,
    bytes: &'a [u8],
}

impl<'a> TagView<'a> {
    pub closed spec fn view(&self) -> TagSpan {
        TagSpan { typ: self.typ, offset: self.offset as int, size: self.size as int }
    }

    /// The record's bytes, header included.
    pub closed spec fn bytes(&self) -> Seq<u8> {
        self.bytes@
    }

    /// Whether this view is the record `t` of `s`.
    pub open spec fn views(&self, s: Seq<u8>, t: TagSpan) -> bool {
        self@ == t && self.bytes() == s.subrange(t.offset, t.offset + t.size)
    }

    pub fn typ(&self) -> (r: u32)
        ensures
            r == self@.typ,
    {
        self.typ
    }

    pub fn size(&self) -> (r: u32)
        ensures
            r == self@.size,
    {
        self.size
    }

    /// Where the record starts in the buffer that was walked.
    pub fn offset(&self) -> (r: usize)
        ensures
            r == self@.offset,
    {
        self.offset
    }

    /// The record's bytes, header included.
    pub fn as_bytes(&self) -> (r: &'a [u8])
        ensures
            r@ == self.bytes(),
    {
        self.bytes
    }
}

/// Parses the record at `off` of `buf`.
pub fn parse_tag<'a>(buf: &'a [u8], off: usize) -> (r: Result<TagView<'a>, ParseError>)
    ensures
        match r {
            Ok(v) => tag_at(buf@, off as int) == Ok::<TagSpan, ParseError>(v@)
                && v.views(buf@, v@),
            Err(e) => tag_at(buf@, off as int) == Err::<TagSpan, ParseError>(e),
        },
{
    let len = buf.len();
    if off % 8 != 0 {
        return Err(ParseError::MalformedRecord);
    }
    if off > len || len - off < 8 {
        return Err(ParseError::TruncatedBuffer);
    }
    let h = TagHeader::read(buf, off);
    if h.size < TAG_HEADER_SIZE {
        return Err(ParseError::MalformedRecord);
    }
    if h.size as usize > len - off {
        return Err(ParseError::TruncatedBuffer);
    }
    let bytes = vstd::slice::slice_subrange(buf, off, off + h.size as usize);
    Ok(TagView { typ: h.typ, size: h.size, offset: off, bytes })
}

/// The spans of the views in `v`.
pub open spec fn spans<'a>(v: Seq<TagView<'a>>) -> Seq<TagSpan> {
    v.map_values(|t: TagView<'a>| t@)
}

/// Walks the records of `buf` from its start up to the terminator.
pub fn walk_tags<'a>(buf: &'a [u8]) -> (r: Result<Vec<TagView<'a>>, ParseError>)
    ensures
        match r {
            Ok(v) => walk(buf@, 0) == Ok::<Seq<TagSpan>, ParseError>(spans(v@))
                && forall|i: int| 0 <= i < v.len() ==> #[trigger] v[i].views(buf@, v[i]@),
            Err(e) => walk(buf@, 0) == Err::<Seq<TagSpan>, ParseError>(e),
        },
{
    let len = buf.len();
    let mut out: Vec<TagView<'a>> = Vec::new();
    let mut off: usize = 0;
    assert(spans(out@) =~= Seq::<TagSpan>::empty());
    loop
        invariant
            off <= len,
            off % 8 == 0,
            len == buf@.len(),
            walk(buf@, 0) == prepend(spans(out@), walk(buf@, off as int)),
            forall|i: int| 0 <= i < out.len() ==> #[trigger] out[i].views(buf@, out[i]@),
        decreases len - off,
    {
        let t = match parse_tag(buf, off) {
            Ok(t) => t,
            Err(e) => {
                return Err(e);
            },
        };
        if t.typ == END_TAG_TYPE && t.size == TAG_HEADER_SIZE {
            assert(spans(out@) + Seq::<TagSpan>::empty() =~= spans(out@));
            return Ok(out);
        }
        let end = off + t.size as usize;
        let rem = end % 8;
        let pad: usize = if rem == 0 { 0 } else { 8 - rem };
        if len - end < pad || len - end - pad < 8 {
            return Err(ParseError::TruncatedBuffer);
        }
        let ghost old_out = out@;
        out.push(t);
        assert(spans(out@) =~= spans(old_out) + seq![t@]);
        proof {
            match walk(buf@, (end + pad) as int) {
                Ok(v) => {
                    assert(spans(old_out) + (seq![t@] + v) =~= spans(out@) + v);
                },
                Err(_) => {},
            }
        }
        off = end + pad;
    }
}

/// Walking is in buffer order: the first record starts where the walk
/// starts, each record is the one parsed at its offset, each next record
/// starts at the first multiple of eight after the previous one ends, and
/// so records never overlap and come in increasing order of offset.
pub proof fn lemma_walk_in_order(s: Seq<u8>, off: int, v: Seq<TagSpan>)
    requires
        0 <= off,
        walk(s, off) == Ok::<Seq<TagSpan>, ParseError>(v),
    ensures
        v.len() > 0 ==> v[0].offset == off,
        forall|i: int| 0 <= i < v.len() ==> tag_at(s, #[trigger] v[i].offset) == Ok::<TagSpan, ParseError>(v[i]),
        forall|i: int| 0 <= i < v.len() ==> off <= #[trigger] v[i].offset && v[i].offset + v[i].size <= s.len(),
        forall|i: int| 0 < i < v.len() ==> #[trigger] v[i].offset == align8(v[i - 1].offset + v[i - 1].size),
        forall|i: int, j: int| 0 <= i < j < v.len() ==> #[trigger] v[i].offset + v[i].size <= #[trigger] v[j].offset,
    decreases s.len() - off,
{
    let t = tag_at(s, off)->Ok_0;
    if !is_terminator(t) {
        let next = align8(off + t.size);
        let w = walk(s, next)->Ok_0;
        lemma_walk_in_order(s, next, w);
        assert(v =~= seq![t] + w);
        assert forall|i: int, j: int| 0 <= i < j < v.len() implies #[trigger] v[i].offset + v[i].size
            <= #[trigger] v[j].offset by {
            if i > 0 {
                assert(v[i] == w[i - 1] && v[j] == w[j - 1]);
            } else {
                assert(v[j] == w[j - 1]);
            }
        }
        assert forall|i: int| 0 < i < v.len() implies #[trigger] v[i].offset == align8(
            v[i - 1].offset + v[i - 1].size) by {
            assert(v[i] == w[i - 1]);
            if i > 1 {
                assert(v[i - 1] == w[i - 2]);
            }
        }
    }
}

/// A record whose declared size is below the header's size is malformed,
/// whatever the other bytes hold; a walk that reaches it fails the same way.
pub proof fn lemma_undersized_is_malformed(s: Seq<u8>, off: int)
    requires
        0 <= off,
        off % 8 == 0,
        off + TAG_HEADER_SIZE <= s.len(),
        u32_le(s, off + 4) < TAG_HEADER_SIZE,
    ensures
        tag_at(s, off) == Err::<TagSpan, ParseError>(ParseError::MalformedRecord),
        walk(s, off) == Err::<Seq<TagSpan>, ParseError>(ParseError::MalformedRecord),
{
}

/// A record whose declared size exceeds the bytes left in the buffer is
/// truncated; a walk that reaches it fails the same way.
pub proof fn lemma_oversized_is_truncated(s: Seq<u8>, off: int)
    requires
        0 <= off,
        off % 8 == 0,
        off + TAG_HEADER_SIZE <= s.len(),
        u32_le(s, off + 4) > s.len() - off,
    ensures
        tag_at(s, off) == Err::<TagSpan, ParseError>(ParseError::TruncatedBuffer),
        walk(s, off) == Err::<Seq<TagSpan>, ParseError>(ParseError::TruncatedBuffer),
{
}

} // verus!
