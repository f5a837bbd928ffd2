//! Header records: the requests a kernel image declares to its bootloader.
//! Each record starts with a 16-bit kind, 16-bit flags and a 32-bit size.
use vstd::prelude::*;
use crate::bytes::{u16_le, u32_le, u16_bytes, u32_bytes, push_u16, push_u32};
use crate::reader::Reader;
use crate::tag::{ParseError, TagSpan, align8, is_terminator};

verus! {

/// Size of a header record's common prefix, and of a record without payload.
pub const HEADER_TAG_HEADER_SIZE: u32 = 8;

/// The kinds of header records.
#[derive(Clone, Copy, Debug, PartialEq, Eq, Structural, PartialOrd, Ord, Hash)]
pub enum HeaderTagType {
    /// Ends the list of records.
    End,
    InformationRequest,
    Address,
    EntryAddress,
    ConsoleFlags,
    Framebuffer,
    ModuleAlign,
    EfiBS,
    EntryAddressEFI32,
    EntryAddressEFI64,
    Relocatable,
}

impl HeaderTagType {
    /// The kind's number in the binary format.
    pub open spec fn spec_val(self) -> u16 {
        match self {
            HeaderTagType::End => 0,
            HeaderTagType::InformationRequest => 1,
            HeaderTagType::Address => 2,
            HeaderTagType::EntryAddress => 3,
            HeaderTagType::ConsoleFlags => 4,
            HeaderTagType::Framebuffer => 5,
            HeaderTagType::ModuleAlign => 6,
            HeaderTagType::EfiBS => 7,
            HeaderTagType::EntryAddressEFI32 => 8,
            HeaderTagType::EntryAddressEFI64 => 9,
            HeaderTagType::Relocatable => 10,
        }
    }

    #[verifier::when_used_as_spec(spec_val)]
    pub fn val(self) -> (r: u16)
        ensures
            r == self.spec_val(),
    {
        match self {
            HeaderTagType::End => 0,
            HeaderTagType::InformationRequest => 1,
            HeaderTagType::Address => 2,
            HeaderTagType::EntryAddress => 3,
            HeaderTagType::ConsoleFlags => 4,
            HeaderTagType::Framebuffer => 5,
            HeaderTagType::ModuleAlign => 6,
            HeaderTagType::EfiBS => 7,
            HeaderTagType::EntryAddressEFI32 => 8,
            HeaderTagType::EntryAddressEFI64 => 9,
            HeaderTagType::Relocatable => 10,
        }
    }
}

/// Whether the bootloader must honour a record or may ignore it.
#[derive(Clone, Copy, Debug, PartialEq, Eq, Structural, PartialOrd, Ord, Hash)]
pub enum HeaderTagFlag {
    Required,
    Optional,
}

impl HeaderTagFlag {
    /// The flag's number in the binary format.
    pub open spec fn spec_val(self) -> u16 {
        match self {
            HeaderTagFlag::Required => 0,
            HeaderTagFlag::Optional => 1,
        }
    }

    #[verifier::when_used_as_spec(spec_val)]
    pub fn val(self) -> (r: u16)
        ensures
            r == self.spec_val(),
    {
        match self {
            HeaderTagFlag::Required => 0,
            HeaderTagFlag::Optional => 1,
        }
    }
}

/// The common prefix of every header record. The size counts the prefix.
#[derive(Clone, Copy, Debug, PartialEq, Eq, Structural, PartialOrd, Ord, Hash)]
pub struct HeaderTagHeader {
    typ: HeaderTagType,
    flags: HeaderTagFlag,
    size: u32,
}

/// The eight bytes of a header record's prefix.
pub open spec fn header_prefix_bytes(typ: HeaderTagType, flags: HeaderTagFlag, size: u32) -> Seq<u8> {
    u16_bytes(typ.spec_val()) + u16_bytes(flags.spec_val()) + u32_bytes(size)
}

impl HeaderTagHeader {
    pub closed spec fn spec_typ(&self) -> HeaderTagType {
        self.typ
    }

    pub closed spec fn spec_flags(&self) -> HeaderTagFlag {
        self.flags
    }

    pub closed spec fn spec_size(&self) -> u32 {
        self.size
    }

    pub fn new(typ: HeaderTagType, flags: HeaderTagFlag, size: u32) -> (r: Self)
        ensures
            r.spec_typ() == typ,
            r.spec_flags() == flags,
            r.spec_size() == size,
    {
        HeaderTagHeader { typ, flags, size }
    }

    #[verifier::when_used_as_spec(spec_typ)]
    pub fn typ(&self) -> (r: HeaderTagType)
        ensures
            r == self.spec_typ(),
    {
        self.typ
    }

    #[verifier::when_used_as_spec(spec_flags)]
    pub fn flags(&self) -> (r: HeaderTagFlag)
        ensures
            r == self.spec_flags(),
    {
        self.flags
    }

    #[verifier::when_used_as_spec(spec_size)]
    pub fn size(&self) -> (r: u32)
        ensures
            r == self.spec_size(),
    {
        self.size
    }

    /// The prefix's eight bytes.
    pub fn to_bytes(&self) -> (r: Vec<u8>)
        ensures
            r@ == header_prefix_bytes(self.spec_typ(), self.spec_flags(), self.spec_size()),
    {
        let mut v: Vec<u8> = Vec::new();
        push_u16(&mut v, self.typ.val());
        push_u16(&mut v, self.flags.val());
        push_u32(&mut v, self.size);
        assert(v@ =~= header_prefix_bytes(self.typ, self.flags, self.size));
        v
    }
}

/// Ends the list of records of a header: the end kind, required, with no
/// payload.
#[derive(Clone, Copy, Debug, PartialEq, Eq, Structural, PartialOrd, Ord, Hash)]
pub struct EndHeaderTag {
    header: HeaderTagHeader,
}

impl EndHeaderTag {
    pub closed spec fn spec_header(&self) -> HeaderTagHeader {
        self.header
    }

    pub fn new() -> (r: Self)
        ensures
            r.spec_header().spec_typ() == HeaderTagType::End,
            r.spec_header().spec_flags() == HeaderTagFlag::Required,
            r.spec_header().spec_size() == HEADER_TAG_HEADER_SIZE,
    {
        EndHeaderTag {
            header: HeaderTagHeader::new(HeaderTagType::End, HeaderTagFlag::Required, HEADER_TAG_HEADER_SIZE),
        }
    }

    pub fn typ(&self) -> (r: HeaderTagType)
        ensures
            r == self.spec_header().spec_typ(),
    {
        self.header.typ()
    }

    pub fn flags(&self) -> (r: HeaderTagFlag)
        ensures
            r == self.spec_header().spec_flags(),
    {
        self.header.flags()
    }

    pub fn size(&self) -> (r: u32)
        ensures
            r == self.spec_header().spec_size(),
    {
        self.header.size()
    }

    /// The record's eight bytes.
    pub fn to_bytes(&self) -> (r: Vec<u8>)
        ensures
            r@ == header_prefix_bytes(
                self.spec_header().spec_typ(),
                self.spec_header().spec_flags(),
                self.spec_header().spec_size(),
            ),
    {
        self.header.to_bytes()
    }
}

impl Default for EndHeaderTag {
    fn default() -> (r: Self)
        ensures
            r.spec_header().spec_typ() == HeaderTagType::End,
            r.spec_header().spec_flags() == HeaderTagFlag::Required,
            r.spec_header().spec_size() == HEADER_TAG_HEADER_SIZE,
    {
        Self::new()
    }
}

/// Asks the bootloader to start the kernel with the firmware's boot
/// services still running.
#[derive(Clone, Copy, Debug, PartialEq, Eq, Structural, PartialOrd, Ord, Hash)]
pub struct EfiBootServiceHeaderTag {
    header: HeaderTagHeader,
}

impl EfiBootServiceHeaderTag {
    pub closed spec fn spec_header(&self) -> HeaderTagHeader {
        self.header
    }

    pub fn new(flags: HeaderTagFlag) -> (r: Self)
        ensures
            r.spec_header().spec_typ() == HeaderTagType::EfiBS,
            r.spec_header().spec_flags() == flags,
            r.spec_header().spec_size() == HEADER_TAG_HEADER_SIZE,
    {
        EfiBootServiceHeaderTag {
            header: HeaderTagHeader::new(HeaderTagType::EfiBS, flags, HEADER_TAG_HEADER_SIZE),
        }
    }

    pub fn typ(&self) -> (r: HeaderTagType)
        ensures
            r == self.spec_header().spec_typ(),
    {
        self.header.typ()
    }

    pub fn flags(&self) -> (r: HeaderTagFlag)
        ensures
            r == self.spec_header().spec_flags(),
    {
        self.header.flags()
    }

    pub fn size(&self) -> (r: u32)
        ensures
            r == self.spec_header().spec_size(),
    {
        self.header.size()
    }

    /// The record's eight bytes.
    pub fn to_bytes(&self) -> (r: Vec<u8>)
        ensures
            r@ == header_prefix_bytes(
                self.spec_header().spec_typ(),
                self.spec_header().spec_flags(),
                self.spec_header().spec_size(),
            ),
    {
        self.header.to_bytes()
    }
}

/// The header record at `off` of `s`, or why there is none.
pub open spec fn header_tag_at(s: Seq<u8>, off: int) -> Result<TagSpan, ParseError> {
    if off < 0 || off + HEADER_TAG_HEADER_SIZE > s.len() {
        Err(ParseError::TruncatedBuffer)
    } else if u32_le(s, off + 4) < HEADER_TAG_HEADER_SIZE {
        Err(ParseError::MalformedRecord)
    } else if u32_le(s, off + 4) > s.len() - off {
        Err(ParseError::TruncatedBuffer)
    } else {
        Ok(TagSpan { typ: u16_le(s, off) as u32, offset: off, size: u32_le(s, off + 4) as int })
    }
}

/// The offset just past the terminator of the header records of `s` that
/// start at `off`, or why the records are not well formed.
pub open spec fn header_end(s: Seq<u8>, off: int) -> Result<int, ParseError>
    decreases s.len() - off,
{
    match header_tag_at(s, off) {
        Err(e) => Err(e),
        Ok(t) => if is_terminator(t) {
            Ok(off + HEADER_TAG_HEADER_SIZE)
        } else if align8(off + t.size) + HEADER_TAG_HEADER_SIZE > s.len() {
            Err(ParseError::TruncatedBuffer)
        } else {
            header_end(s, align8(off + t.size))
        },
    }
}

/// Whether well-formed header records other than the terminator lead from
/// `off` of `s` exactly to `end`, each padded to a multiple of eight.
pub open spec fn header_chain(s: Seq<u8>, off: int, end: int) -> bool
    decreases end - off,
{
    if off >= end {
        off == end
    } else {
        match header_tag_at(s, off) {
            Ok(t) => !is_terminator(t) && align8(off + t.size) <= end && header_chain(s, align8(off + t.size), end),
            Err(_) => false,
        }
    }
}

/// Finds the offset just past the terminator of the header records of `buf`.
pub fn header_tags_end(buf: &[u8]) -> (r: Result<usize, ParseError>)
    ensures
        match r {
            Ok(n) => header_end(buf@, 0) == Ok::<int, ParseError>(n as int),
            Err(e) => header_end(buf@, 0) == Err::<int, ParseError>(e),
        },
{
    let len = buf.len();
    let mut off: usize = 0;
    loop
        invariant
            off <= len,
            len == buf@.len(),
            header_end(buf@, 0) == header_end(buf@, off as int),
        decreases len - off,
    {
        if len - off < 8 {
            return Err(ParseError::TruncatedBuffer);
        }
        let mut reader = Reader::new(buf, off);
        let typ = reader.read_u16();
        let _flags = reader.read_u16();
        let size = reader.read_u32();
        if size < HEADER_TAG_HEADER_SIZE {
            return Err(ParseError::MalformedRecord);
        }
        if size as usize > len - off {
            return Err(ParseError::TruncatedBuffer);
        }
        if typ == 0 && size == HEADER_TAG_HEADER_SIZE {
            return Ok(off + 8);
        }
        let end = off + size as usize;
        let rem = end % 8;
        let pad: usize = if rem == 0 { 0 } else { 8 - rem };
        if len - end < pad || len - end - pad < 8 {
            return Err(ParseError::TruncatedBuffer);
        }
        off = end + pad;
    }
}

/// Reading a chain depends only on the bytes it spans.
pub proof fn lemma_chain_prefix(s: Seq<u8>, s2: Seq<u8>, off: int, end: int)
    requires
        header_chain(s, off, end),
        0 <= off,
        end <= s.len(),
        end <= s2.len(),
        s.subrange(0, end) == s2.subrange(0, end),
    ensures
        header_chain(s2, off, end),
    decreases end - off,
{
    if off < end {
        let t = header_tag_at(s, off)->Ok_0;
        assert(s[off] == s.subrange(0, end)[off] && s[off + 1] == s.subrange(0, end)[off + 1]);
        assert(s[off + 4] == s.subrange(0, end)[off + 4] && s[off + 5] == s.subrange(0, end)[off + 5]);
        assert(s[off + 6] == s.subrange(0, end)[off + 6] && s[off + 7] == s.subrange(0, end)[off + 7]);
        assert(s2[off] == s2.subrange(0, end)[off] && s2[off + 1] == s2.subrange(0, end)[off + 1]);
        assert(s2[off + 4] == s2.subrange(0, end)[off + 4] && s2[off + 5] == s2.subrange(0, end)[off + 5]);
        assert(s2[off + 6] == s2.subrange(0, end)[off + 6] && s2[off + 7] == s2.subrange(0, end)[off + 7]);
        assert(header_tag_at(s2, off) == header_tag_at(s, off));
        lemma_chain_prefix(s, s2, align8(off + t.size), end);
    }
}

/// A chain ending where a further record starts extends past that record.
pub proof fn lemma_chain_extend(s: Seq<u8>, off: int, end: int)
    requires
        header_chain(s, off, end),
        0 <= off,
        header_tag_at(s, end) is Ok,
        !is_terminator(header_tag_at(s, end)->Ok_0),
    ensures
        header_chain(s, off, align8(end + header_tag_at(s, end)->Ok_0.size)),
    decreases end - off,
{
    if off < end {
        let t = header_tag_at(s, off)->Ok_0;
        lemma_chain_extend(s, align8(off + t.size), end);
    } else {
        let e2 = align8(end + header_tag_at(s, end)->Ok_0.size);
        assert(header_chain(s, e2, e2));
    }
}

/// A chain followed by the terminator is walked to just past the terminator.
pub proof fn lemma_chain_end(s: Seq<u8>, off: int, end: int)
    requires
        header_chain(s, off, end),
        0 <= off,
        header_tag_at(s, end) is Ok,
        is_terminator(header_tag_at(s, end)->Ok_0),
    ensures
        header_end(s, off) == Ok::<int, ParseError>(end + HEADER_TAG_HEADER_SIZE),
    decreases end - off,
{
    if off < end {
        let t = header_tag_at(s, off)->Ok_0;
        lemma_chain_end(s, align8(off + t.size), end);
    }
}

/// The end record's eight bytes.
pub open spec fn end_tag_bytes() -> Seq<u8> {
    header_prefix_bytes(HeaderTagType::End, HeaderTagFlag::Required, HEADER_TAG_HEADER_SIZE)
}

/// `n` zero bytes.
pub open spec fn zeros(n: int) -> Seq<u8> {
    Seq::new(n as nat, |i: int| 0u8)
}

/// The bytes that a record of this kind, flags and payload adds to a
/// header: its prefix, its payload and the zero bytes up to the next
/// multiple of eight.
pub open spec fn header_record_bytes(typ: HeaderTagType, flags: HeaderTagFlag, payload: Seq<u8>) -> Seq<u8> {
    header_prefix_bytes(typ, flags, (HEADER_TAG_HEADER_SIZE + payload.len()) as u32) + payload
        + zeros(align8(HEADER_TAG_HEADER_SIZE + payload.len()) - (HEADER_TAG_HEADER_SIZE + payload.len()))
}

/// Why a record could not be added to a header.
#[derive(Clone, Copy, Debug, PartialEq, Eq, Structural)]
pub enum BuildError {
    /// The terminator is added by the builder itself, once, at the end.
    Terminator,
    /// The header would no longer fit its 32-bit size fields.
    TooLarge,
    /// An information request must name at least one record kind.
    EmptyRequest,
}

/// The little-endian bytes of each of `kinds`, one after the other.
pub open spec fn kinds_bytes(kinds: Seq<u32>) -> Seq<u8>
    decreases kinds.len(),
{
    if kinds.len() == 0 {
        Seq::empty()
    } else {
        kinds_bytes(kinds.drop_last()) + u32_bytes(kinds.last())
    }
}

/// Appends header records to a growing buffer and ends them with the
/// terminator. Each record's size field is written from its payload's
/// length; the buffer always ends on a record boundary.
pub struct HeaderBuilder {
    bytes: Vec<u8>,
}

impl HeaderBuilder {
    /// The records appended so far, without terminator.
    pub closed spec fn bytes(&self) -> Seq<u8> {
        self.bytes@
    }

    /// The records appended so far lead from the start to the end of the
    /// buffer, and a terminator still fits the 32-bit size.
    pub open spec fn wf(&self) -> bool {
        &&& header_chain(self.bytes(), 0, self.bytes().len() as int)
        &&& self.bytes().len() % 8 == 0
        &&& self.bytes().len() + HEADER_TAG_HEADER_SIZE <= u32::MAX
    }

    pub fn new() -> (r: Self)
        ensures
            r.wf(),
            r.bytes() == Seq::<u8>::empty(),
    {
        HeaderBuilder { bytes: Vec::new() }
    }

    /// Appends a record of kind `typ` with `flags` and `payload`. Fails,
    /// with nothing appended, for the end kind or where the header would
    /// outgrow its 32-bit size.
    pub fn add_tag(&mut self, typ: HeaderTagType, flags: HeaderTagFlag, payload: &[u8]) -> (r: Result<(), BuildError>)
        requires
            old(self).wf(),
        ensures
            final(self).wf(),
            typ == HeaderTagType::End ==> r == Err::<(), BuildError>(BuildError::Terminator) && final(self).bytes() == old(self).bytes(),
            typ != HeaderTagType::End && old(self).bytes().len() + align8(HEADER_TAG_HEADER_SIZE + payload@.len())
                + HEADER_TAG_HEADER_SIZE > u32::MAX ==> r == Err::<(), BuildError>(BuildError::TooLarge)
                && final(self).bytes() == old(self).bytes(),
            typ != HeaderTagType::End && old(self).bytes().len() + align8(HEADER_TAG_HEADER_SIZE + payload@.len())
                + HEADER_TAG_HEADER_SIZE <= u32::MAX ==> r == Ok::<(), BuildError>(())
                && final(self).bytes() == old(self).bytes() + header_record_bytes(typ, flags, payload@),
    {
        if typ == HeaderTagType::End {
            return Err(BuildError::Terminator);
        }
        let len = self.bytes.len();
        let plen = payload.len();
        let room: u64 = (u32::MAX - HEADER_TAG_HEADER_SIZE) as u64 - len as u64;
        if plen as u64 > room || plen as u64 + 8 > room {
            return Err(BuildError::TooLarge);
        }
        let size = HEADER_TAG_HEADER_SIZE + plen as u32;
        let rem = size % 8;
        let pad: u32 = if rem == 0 { 0 } else { 8 - rem };
        if size as u64 + pad as u64 > room {
            return Err(BuildError::TooLarge);
        }
        let ghost old_bytes = self.bytes@;
        let header = HeaderTagHeader::new(typ, flags, size);
        let mut prefix = header.to_bytes();
        self.bytes.append(&mut prefix);
        let mut i: usize = 0;
        while i < plen
            invariant
                plen == payload@.len(),
                i <= plen,
                self.bytes@ == old_bytes + header_prefix_bytes(typ, flags, size) + payload@.take(i as int),
            decreases plen - i,
        {
            self.bytes.push(payload[i]);
            assert(payload@.take(i + 1) =~= payload@.take(i as int) + seq![payload@[i as int]]);
            i = i + 1;
        }
        assert(payload@.take(plen as int) =~= payload@);
        let mut j: u32 = 0;
        while j < pad
            invariant
                j <= pad,
                self.bytes@ == old_bytes + header_prefix_bytes(typ, flags, size) + payload@ + zeros(j as int),
            decreases pad - j,
        {
            self.bytes.push(0u8);
            assert(zeros(j + 1) =~= zeros(j as int) + seq![0u8]);
            j = j + 1;
        }
        proof {
            assert(self.bytes@ =~= old_bytes + header_record_bytes(typ, flags, payload@));
            lemma_append_record(old_bytes, typ, flags, payload@);
        }
        Ok(())
    }

    /// Appends an information request for the record kinds `kinds`: its
    /// payload lists each kind as four bytes. Fails, with nothing appended,
    /// for an empty list, or where `add_tag` would.
    pub fn add_information_request(&mut self, flags: HeaderTagFlag, kinds: &[u32]) -> (r: Result<(), BuildError>)
        requires
            old(self).wf(),
        ensures
            final(self).wf(),
            kinds@.len() == 0 ==> r == Err::<(), BuildError>(BuildError::EmptyRequest) && final(self).bytes() == old(self).bytes(),
            kinds@.len() > 0 && old(self).bytes().len() + align8(HEADER_TAG_HEADER_SIZE + 4 * kinds@.len())
                + HEADER_TAG_HEADER_SIZE > u32::MAX ==> r == Err::<(), BuildError>(BuildError::TooLarge)
                && final(self).bytes() == old(self).bytes(),
            kinds@.len() > 0 && old(self).bytes().len() + align8(HEADER_TAG_HEADER_SIZE + 4 * kinds@.len())
                + HEADER_TAG_HEADER_SIZE <= u32::MAX ==> r == Ok::<(), BuildError>(())
                && final(self).bytes() == old(self).bytes() + header_record_bytes(
                HeaderTagType::InformationRequest,
                flags,
                kinds_bytes(kinds@),
            ),
    {
        let n = kinds.len();
        if n == 0 {
            return Err(BuildError::EmptyRequest);
        }
        let mut payload: Vec<u8> = Vec::new();
        let mut i: usize = 0;
        while i < n
            invariant
                n == kinds@.len(),
                i <= n,
                payload@ == kinds_bytes(kinds@.take(i as int)),
                payload@.len() == 4 * i,
            decreases n - i,
        {
            push_u32(&mut payload, kinds[i]);
            assert(kinds@.take(i + 1).drop_last() =~= kinds@.take(i as int));
            i = i + 1;
        }
        assert(kinds@.take(n as int) =~= kinds@);
        self.add_tag(HeaderTagType::InformationRequest, flags, payload.as_slice())
    }

    /// The header's records followed by the terminator.
    pub fn build(self) -> (r: Vec<u8>)
        requires
            self.wf(),
        ensures
            r@ == self.bytes() + end_tag_bytes(),
            header_end(r@, 0) == Ok::<int, ParseError>(r@.len() as int),
    {
        let ghost old_bytes = self.bytes@;
        let mut bytes = self.bytes;
        let mut end = EndHeaderTag::new().to_bytes();
        bytes.append(&mut end);
        proof {
            lemma_built_header_ends(old_bytes);
        }
        bytes
    }
}

/// Appending a record other than the terminator to a chain that ends on a
/// multiple of eight gives a chain that again ends on a multiple of eight.
#[verifier::spinoff_prover]
#[verifier::rlimit(40)]
pub proof fn lemma_append_record(b: Seq<u8>, typ: HeaderTagType, flags: HeaderTagFlag, payload: Seq<u8>)
    requires
        header_chain(b, 0, b.len() as int),
        b.len() % 8 == 0,
        typ != HeaderTagType::End,
        b.len() + align8(HEADER_TAG_HEADER_SIZE + payload.len()) + HEADER_TAG_HEADER_SIZE <= u32::MAX,
    ensures
        header_chain(b + header_record_bytes(typ, flags, payload), 0, (b + header_record_bytes(typ, flags, payload)).len() as int),
        (b + header_record_bytes(typ, flags, payload)).len() % 8 == 0,
{
    let s = b + header_record_bytes(typ, flags, payload);
    let o = b.len() as int;
    let size = (HEADER_TAG_HEADER_SIZE + payload.len()) as u32;
    assert(s.subrange(0, o) =~= b.subrange(0, o));
    lemma_chain_prefix(b, s, 0, o);
    assert(s.subrange(o, o + 2) =~= u16_bytes(typ.spec_val()));
    assert(s.subrange(o + 4, o + 8) =~= u32_bytes(size));
    crate::bytes::lemma_u16_round_trip(s, o, typ.spec_val());
    crate::bytes::lemma_u32_round_trip(s, o + 4, size);
    lemma_chain_extend(s, 0, o);
    assert((o + size) % 8 == (size as int) % 8);
    assert(align8(o + size) == s.len());
}

/// Records appended by the builder and closed by the terminator are walked
/// to the very end: the offset following the terminator is the total length.
pub proof fn lemma_built_header_ends(s: Seq<u8>)
    requires
        header_chain(s, 0, s.len() as int),
    ensures
        header_end(s + end_tag_bytes(), 0) == Ok::<int, ParseError>(s.len() + HEADER_TAG_HEADER_SIZE),
{
    let s2 = s + end_tag_bytes();
    let o = s.len() as int;
    assert(s2.subrange(0, o) =~= s.subrange(0, o));
    lemma_chain_prefix(s, s2, 0, o);
    assert(s2.subrange(o, o + 2) =~= u16_bytes(0));
    assert(s2.subrange(o + 4, o + 8) =~= u32_bytes(HEADER_TAG_HEADER_SIZE));
    crate::bytes::lemma_u16_round_trip(s2, o, 0);
    crate::bytes::lemma_u32_round_trip(s2, o + 4, HEADER_TAG_HEADER_SIZE);
    lemma_chain_end(s2, 0, o);
}

} // verus!
