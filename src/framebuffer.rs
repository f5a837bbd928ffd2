//! The framebuffer information record: fixed metadata followed by a payload
//! whose layout depends on the framebuffer type.
use vstd::prelude::*;
use crate::bytes::{
    lemma_u16_zero, lemma_u32_round_trip, lemma_u64_round_trip, push_u16, push_u32, push_u64,
    u16_bytes, u16_le, u32_bytes, u32_le, u64_bytes, u64_le,
};
use crate::reader::Reader;
use crate::tag::{ParseError, TagHeader, FRAMEBUFFER_TAG_TYPE, TAG_HEADER_SIZE};

verus! {

/// Size of the record up to its payload: the record header, the address,
/// pitch, width, height, bits per pixel, the type byte and two reserved
/// bytes.
pub const METADATA_SIZE: u32 = 32;

/// Type byte of an indexed-colour framebuffer.
pub const INDEXED_TYPE: u8 = 0;

/// Type byte of a direct RGB framebuffer.
pub const RGB_TYPE: u8 = 1;

/// Type byte of an EGA text framebuffer.
pub const TEXT_TYPE: u8 = 2;

/// One colour channel of a direct RGB framebuffer.
#[derive(Clone, Copy, Debug, PartialEq, Eq, Structural)]
pub struct FramebufferField {
    /// Bit position of the channel's least significant bit.
    pub position: u8,
    /// Width of the channel in bits.
    pub size: u8,
}

/// A colour of an indexed framebuffer's palette.
#[derive(Clone, Copy, Debug, PartialEq, Eq, Structural)]
pub struct FramebufferColor {
    pub red: u8,
    pub green: u8,
    pub blue: u8,
}

/// The type byte of the record names no known framebuffer type. The
/// metadata stays readable; only the payload cannot be interpreted.
#[derive(Clone, Copy, Debug, PartialEq, Eq, Structural)]
pub struct UnknownFramebufferType(pub u8);

impl UnknownFramebufferType {
    /// The type byte that was found.
    pub fn value(&self) -> (r: u8)
        ensures
            r == self.0,
    {
        self.0
    }
}

/// The known framebuffer types.
#[derive(Clone, Copy, Debug, PartialEq, Eq, Structural)]
pub enum FramebufferTypeId {
    Indexed,
    RGB,
    Text,
}

/// The type that a type byte names.
pub open spec fn type_id_of(v: u8) -> Result<FramebufferTypeId, UnknownFramebufferType> {
    if v == INDEXED_TYPE {
        Ok(FramebufferTypeId::Indexed)
    } else if v == RGB_TYPE {
        Ok(FramebufferTypeId::RGB)
    } else if v == TEXT_TYPE {
        Ok(FramebufferTypeId::Text)
    } else {
        Err(UnknownFramebufferType(v))
    }
}

impl FramebufferTypeId {
    pub fn try_from(value: u8) -> (r: Result<Self, UnknownFramebufferType>)
        ensures
            r == type_id_of(value),
    {
        if value == INDEXED_TYPE {
            Ok(FramebufferTypeId::Indexed)
        } else if value == RGB_TYPE {
            Ok(FramebufferTypeId::RGB)
        } else if value == TEXT_TYPE {
            Ok(FramebufferTypeId::Text)
        } else {
            Err(UnknownFramebufferType(value))
        }
    }
}

/// What a framebuffer type is, with its payload.
pub ghost enum FramebufferKind {
    Indexed(Seq<FramebufferColor>),
    RGB(FramebufferField, FramebufferField, FramebufferField),
    Text,
}

/// The type of a framebuffer, with the data its payload carries.
#[derive(Debug, PartialEq, Eq)]
pub enum FramebufferType {
    /// Indexed colour, with its palette.
    Indexed { palette: Vec<FramebufferColor> },
    /// Direct colour: where each channel lies in a pixel.
    RGB { red: FramebufferField, green: FramebufferField, blue: FramebufferField },
    /// EGA text: width and height count character cells, not pixels.
    Text,
}

impl View for FramebufferType {
    type V = FramebufferKind;

    open spec fn view(&self) -> FramebufferKind {
        match self {
            FramebufferType::Indexed { palette } => FramebufferKind::Indexed(palette@),
            FramebufferType::RGB { red, green, blue } => FramebufferKind::RGB(*red, *green, *blue),
            FramebufferType::Text => FramebufferKind::Text,
        }
    }
}

impl Clone for FramebufferType {
    fn clone(&self) -> (r: Self)
        ensures
            r@ == self@,
    {
        match self {
            FramebufferType::Indexed { palette } => {
                let p = palette.clone();
                assert(p@ =~= palette@);
                FramebufferType::Indexed { palette: p }
            },
            FramebufferType::RGB { red, green, blue } => FramebufferType::RGB { red: *red, green: *green, blue: *blue },
            FramebufferType::Text => FramebufferType::Text,
        }
    }
}

/// The three bytes of each colour, red first, one colour after the other.
pub open spec fn palette_bytes(p: Seq<FramebufferColor>) -> Seq<u8>
    decreases p.len(),
{
    if p.len() == 0 {
        Seq::empty()
    } else {
        palette_bytes(p.drop_last()) + seq![p.last().red, p.last().green, p.last().blue]
    }
}

/// The `n` colours stored one after the other from the start of `b`.
pub open spec fn palette_of(b: Seq<u8>, n: nat) -> Seq<FramebufferColor> {
    Seq::new(n, |i: int| FramebufferColor { red: b[3 * i], green: b[3 * i + 1], blue: b[3 * i + 2] })
}

/// The type byte of `t`.
pub open spec fn kind_type_no(t: FramebufferKind) -> u8 {
    match t {
        FramebufferKind::Indexed(_) => INDEXED_TYPE,
        FramebufferKind::RGB(_, _, _) => RGB_TYPE,
        FramebufferKind::Text => TEXT_TYPE,
    }
}

/// The payload that follows the metadata for `t`: a palette's four-byte
/// count and its colours; six bytes of channel positions and sizes; or
/// nothing.
pub open spec fn kind_payload(t: FramebufferKind) -> Seq<u8> {
    match t {
        FramebufferKind::Indexed(p) => u32_bytes(p.len() as u32) + palette_bytes(p),
        FramebufferKind::RGB(r, g, b) => seq![r.position, r.size, g.position, g.size, b.position, b.size],
        FramebufferKind::Text => Seq::empty(),
    }
}

/// Whether a record of type `t` has a size that fits its 32-bit size field.
pub open spec fn kind_fits(t: FramebufferKind) -> bool {
    match t {
        FramebufferKind::Indexed(p) => METADATA_SIZE + 4 + 3 * p.len() <= u32::MAX,
        _ => true,
    }
}

/// The type byte, the two reserved bytes and the payload of `t`.
pub open spec fn kind_bytes(t: FramebufferKind) -> Seq<u8> {
    seq![kind_type_no(t), 0u8, 0u8] + kind_payload(t)
}

/// Whether `payload` holds all that its type byte asks for: for a palette,
/// the count and that many colours; for RGB, the six channel bytes.
pub open spec fn payload_ok(type_no: u8, payload: Seq<u8>) -> bool {
    &&& type_no == INDEXED_TYPE ==> payload.len() >= 4 && 4 + 3 * u32_le(payload, 0) <= payload.len()
    &&& type_no == RGB_TYPE ==> payload.len() >= 6
}

/// What the payload of a record of type byte `type_no` says.
pub open spec fn payload_kind(type_no: u8, payload: Seq<u8>) -> Result<
    FramebufferKind,
    UnknownFramebufferType,
> {
    if type_no == INDEXED_TYPE {
        Ok(FramebufferKind::Indexed(palette_of(payload.subrange(4, payload.len() as int), u32_le(payload, 0) as nat)))
    } else if type_no == RGB_TYPE {
        Ok(FramebufferKind::RGB(
            FramebufferField { position: payload[0], size: payload[1] },
            FramebufferField { position: payload[2], size: payload[3] },
            FramebufferField { position: payload[4], size: payload[5] },
        ))
    } else if type_no == TEXT_TYPE {
        Ok(FramebufferKind::Text)
    } else {
        Err(UnknownFramebufferType(type_no))
    }
}

/// The bytes of a framebuffer record with these metadata and type.
pub open spec fn record_bytes(address: u64, pitch: u32, width: u32, height: u32, bpp: u8, t: FramebufferKind) -> Seq<u8> {
    u32_bytes(FRAMEBUFFER_TAG_TYPE) + u32_bytes((METADATA_SIZE + kind_payload(t).len()) as u32)
        + u64_bytes(address) + u32_bytes(pitch) + u32_bytes(width) + u32_bytes(height)
        + seq![bpp] + kind_bytes(t)
}

/// The fields of a framebuffer record.
pub ghost struct FramebufferTagModel {
    pub typ: u32,
    pub size: u32,
    pub address: u64,
    pub pitch: u32,
    pub width: u32,
    pub height: u32,
    pub bpp: u8,
    pub type_no: u8,
    pub reserved: u16,
    pub buffer: Seq<u8>,
}

/// The bytes of the record `m`.
pub open spec fn model_bytes(m: FramebufferTagModel) -> Seq<u8> {
    u32_bytes(m.typ) + u32_bytes(m.size) + u64_bytes(m.address) + u32_bytes(m.pitch)
        + u32_bytes(m.width) + u32_bytes(m.height) + seq![m.bpp, m.type_no]
        + u16_bytes(m.reserved) + m.buffer
}

/// The fields that the bytes `s` of a framebuffer record hold.
pub open spec fn model_of(s: Seq<u8>) -> FramebufferTagModel {
    FramebufferTagModel {
        typ: u32_le(s, 0),
        size: u32_le(s, 4),
        address: u64_le(s, 8),
        pitch: u32_le(s, 16),
        width: u32_le(s, 20),
        height: u32_le(s, 24),
        bpp: s[28],
        type_no: s[29],
        reserved: u16_le(s, 30),
        buffer: s.subrange(METADATA_SIZE as int, u32_le(s, 4) as int),
    }
}

/// Why the bytes `s` are no framebuffer record, if they are none.
pub open spec fn record_error(s: Seq<u8>) -> Option<ParseError> {
    if s.len() < TAG_HEADER_SIZE {
        Some(ParseError::TruncatedBuffer)
    } else if u32_le(s, 4) < METADATA_SIZE {
        Some(ParseError::MalformedRecord)
    } else if u32_le(s, 4) > s.len() {
        Some(ParseError::TruncatedBuffer)
    } else if !payload_ok(s[29], s.subrange(METADATA_SIZE as int, u32_le(s, 4) as int)) {
        Some(ParseError::MalformedRecord)
    } else {
        None
    }
}

impl FramebufferType {
    /// The payload that follows the metadata for this type.
    pub fn payload_bytes(&self) -> (r: Vec<u8>)
        requires
            kind_fits(self@),
        ensures
            r@ == kind_payload(self@),
    {
        let mut v: Vec<u8> = Vec::new();
        match self {
            FramebufferType::Indexed { palette } => {
                push_u32(&mut v, palette.len() as u32);
                let n = palette.len();
                let mut i: usize = 0;
                while i < n
                    invariant
                        n == palette@.len(),
                        i <= n,
                        v@ == u32_bytes(n as u32) + palette_bytes(palette@.take(i as int)),
                    decreases n - i,
                {
                    let c = palette[i];
                    v.push(c.red);
                    v.push(c.green);
                    v.push(c.blue);
                    assert(palette@.take(i + 1).drop_last() =~= palette@.take(i as int));
                    i = i + 1;
                }
                assert(palette@.take(n as int) =~= palette@);
            },
            FramebufferType::RGB { red, green, blue } => {
                v.push(red.position);
                v.push(red.size);
                v.push(green.position);
                v.push(green.size);
                v.push(blue.position);
                v.push(blue.size);
                assert(v@ =~= kind_payload(self@));
            },
            FramebufferType::Text => {
                assert(v@ =~= kind_payload(self@));
            },
        }
        v
    }

    /// The type byte, the two reserved bytes and the payload.
    pub fn to_bytes(&self) -> (r: Vec<u8>)
        requires
            kind_fits(self@),
        ensures
            r@ == kind_bytes(self@),
    {
        let mut v: Vec<u8> = Vec::new();
        let type_no: u8 = match self {
            FramebufferType::Indexed { .. } => INDEXED_TYPE,
            FramebufferType::RGB { .. } => RGB_TYPE,
            FramebufferType::Text => TEXT_TYPE,
        };
        v.push(type_no);
        push_u16(&mut v, 0);
        let mut payload = self.payload_bytes();
        v.append(&mut payload);
        proof {
            lemma_u16_zero();
        }
        assert(v@ =~= kind_bytes(self@));
        v
    }
}

/// A framebuffer record: where the framebuffer lies, its geometry and
/// depth, and its type with the payload that goes with it.
#[derive(Debug)]
pub struct FramebufferTag {
    typ: u32,
    size: u32,
    address: u64,
    pitch: u32,
    width: u32,
    height: u32,
    bpp: u8,
    type_no: u8,
    reserved: u16,
    buffer: Vec<u8>,
}

impl View for FramebufferTag {
    type V = FramebufferTagModel;

    closed spec fn view(&self) -> FramebufferTagModel {
        FramebufferTagModel {
            typ: self.typ,
            size: self.size,
            address: self.address,
            pitch: self.pitch,
            width: self.width,
            height: self.height,
            bpp: self.bpp,
            type_no: self.type_no,
            reserved: self.reserved,
            buffer: self.buffer@,
        }
    }
}

impl FramebufferTag {
    /// The size field counts the metadata and the payload, and the payload
    /// holds all that the type byte asks for.
    pub open spec fn wf(&self) -> bool {
        &&& self@.size == METADATA_SIZE + self@.buffer.len()
        &&& payload_ok(self@.type_no, self@.buffer)
    }

    /// A framebuffer record of the given metadata and type. The payload is
    /// laid out first; the size field is computed from its length after.
    pub fn new(address: u64, pitch: u32, width: u32, height: u32, bpp: u8, buffer_type: FramebufferType) -> (r: Self)
        requires
            kind_fits(buffer_type@),
        ensures
            r.wf(),
            r@.typ == FRAMEBUFFER_TAG_TYPE,
            r@.address == address,
            r@.pitch == pitch,
            r@.width == width,
            r@.height == height,
            r@.bpp == bpp,
            r@.type_no == kind_type_no(buffer_type@),
            r@.reserved == 0,
            r@.buffer == kind_payload(buffer_type@),
            model_bytes(r@) == record_bytes(address, pitch, width, height, bpp, buffer_type@),
    {
        let buffer = buffer_type.payload_bytes();
        proof {
            lemma_kind_payload_ok(buffer_type@);
        }
        let type_no: u8 = match &buffer_type {
            FramebufferType::Indexed { .. } => INDEXED_TYPE,
            FramebufferType::RGB { .. } => RGB_TYPE,
            FramebufferType::Text => TEXT_TYPE,
        };
        let size = METADATA_SIZE + buffer.len() as u32;
        let r = FramebufferTag {
            typ: FRAMEBUFFER_TAG_TYPE,
            size,
            address,
            pitch,
            width,
            height,
            bpp,
            type_no,
            reserved: 0,
            buffer,
        };
        proof {
            lemma_u16_zero();
            assert(model_bytes(r@) =~= record_bytes(address, pitch, width, height, bpp, buffer_type@));
        }
        r
    }

    /// Parses the framebuffer record at the start of `bytes`. The kind field
    /// is read as it stands: choosing the parser by kind is the caller's
    /// part (see `parse_record`).
    pub fn parse(bytes: &[u8]) -> (r: Result<Self, ParseError>)
        ensures
            match r {
                Ok(t) => record_error(bytes@) is None && t.wf() && t@ == model_of(bytes@),
                Err(e) => record_error(bytes@) == Some(e),
            },
    {
        let len = bytes.len();
        if len < 8 {
            return Err(ParseError::TruncatedBuffer);
        }
        let mut reader = Reader::new(bytes, 0);
        let typ = reader.read_u32();
        let size = reader.read_u32();
        if size < METADATA_SIZE {
            return Err(ParseError::MalformedRecord);
        }
        if size as usize > len {
            return Err(ParseError::TruncatedBuffer);
        }
        let address = reader.read_u64();
        let pitch = reader.read_u32();
        let width = reader.read_u32();
        let height = reader.read_u32();
        let bpp = reader.read_u8();
        let type_no = reader.read_u8();
        let reserved = reader.read_u16();
        let payload = vstd::slice::slice_subrange(bytes, METADATA_SIZE as usize, size as usize);
        let plen = payload.len();
        if type_no == INDEXED_TYPE {
            if plen < 4 {
                return Err(ParseError::MalformedRecord);
            }
            let mut pr = Reader::new(payload, 0);
            let n = pr.read_u32();
            if (plen - 4) / 3 < n as usize {
                return Err(ParseError::MalformedRecord);
            }
        } else if type_no == RGB_TYPE {
            if plen < 6 {
                return Err(ParseError::MalformedRecord);
            }
        }
        let buffer = vstd::slice::slice_to_vec(payload);
        let r = FramebufferTag { typ, size, address, pitch, width, height, bpp, type_no, reserved, buffer };
        assert(r@ =~= model_of(bytes@));
        Ok(r)
    }

    /// The record's bytes: metadata, then payload.
    pub fn to_bytes(&self) -> (r: Vec<u8>)
        ensures
            r@ == model_bytes(self@),
    {
        let mut v: Vec<u8> = Vec::new();
        push_u32(&mut v, self.typ);
        push_u32(&mut v, self.size);
        push_u64(&mut v, self.address);
        push_u32(&mut v, self.pitch);
        push_u32(&mut v, self.width);
        push_u32(&mut v, self.height);
        v.push(self.bpp);
        v.push(self.type_no);
        push_u16(&mut v, self.reserved);
        let mut i: usize = 0;
        let n = self.buffer.len();
        let ghost prefix = v@;
        while i < n
            invariant
                n == self.buffer@.len(),
                i <= n,
                v@ == prefix + self.buffer@.take(i as int),
            decreases n - i,
        {
            v.push(self.buffer[i]);
            assert(self.buffer@.take(i + 1) =~= self.buffer@.take(i as int) + seq![self.buffer@[i as int]]);
            i = i + 1;
        }
        assert(self.buffer@.take(n as int) =~= self.buffer@);
        assert(v@ =~= model_bytes(self@));
        v
    }

    /// Length of the payload of a framebuffer record with this header: the
    /// declared size less the metadata.
    pub fn dst_len(header: &TagHeader) -> (r: usize)
        requires
            header.size >= METADATA_SIZE,
        ensures
            r == header.size - METADATA_SIZE,
    {
        (header.size - METADATA_SIZE) as usize
    }

    /// Physical address of the framebuffer.
    pub fn address(&self) -> (r: u64)
        ensures
            r == self@.address,
    {
        self.address
    }

    /// Bytes per line.
    pub fn pitch(&self) -> (r: u32)
        ensures
            r == self@.pitch,
    {
        self.pitch
    }

    /// Width in pixels, or in character cells for a text framebuffer.
    pub fn width(&self) -> (r: u32)
        ensures
            r == self@.width,
    {
        self.width
    }

    /// Height in pixels, or in character cells for a text framebuffer.
    pub fn height(&self) -> (r: u32)
        ensures
            r == self@.height,
    {
        self.height
    }

    /// Bits per pixel.
    pub fn bpp(&self) -> (r: u8)
        ensures
            r == self@.bpp,
    {
        self.bpp
    }

    /// The record's declared size, metadata included.
    pub fn size(&self) -> (r: u32)
        ensures
            r == self@.size,
    {
        self.size
    }

    /// The type of framebuffer with what its payload says, or the unknown
    /// type byte.
    pub fn buffer_type(&self) -> (r: Result<FramebufferType, UnknownFramebufferType>)
        requires
            self.wf(),
        ensures
            match r {
                Ok(t) => payload_kind(self@.type_no, self@.buffer) == Ok::<FramebufferKind, UnknownFramebufferType>(t@),
                Err(e) => payload_kind(self@.type_no, self@.buffer) == Err::<FramebufferKind, UnknownFramebufferType>(e),
            },
    {
        let buf = self.buffer.as_slice();
        let mut reader = Reader::new(buf, 0);
        let typ = match FramebufferTypeId::try_from(self.type_no) {
            Ok(t) => t,
            Err(e) => {
                return Err(e);
            },
        };
        match typ {
            FramebufferTypeId::Indexed => {
                let n = reader.read_u32();
                let mut palette: Vec<FramebufferColor> = Vec::new();
                let mut i: u32 = 0;
                let ghost rest = buf@.subrange(4, buf@.len() as int);
                while i < n
                    invariant
                        reader.wf(),
                        reader.bytes() == buf@,
                        reader.offset() == 4 + 3 * i,
                        4 + 3 * n <= buf@.len(),
                        i <= n,
                        rest == buf@.subrange(4, buf@.len() as int),
                        palette@ =~= palette_of(rest, n as nat).take(i as int),
                    decreases n - i,
                {
                    let red = reader.read_u8();
                    let green = reader.read_u8();
                    let blue = reader.read_u8();
                    palette.push(FramebufferColor { red, green, blue });
                    i = i + 1;
                }
                assert(palette_of(rest, n as nat).take(n as int) =~= palette_of(rest, n as nat));
                Ok(FramebufferType::Indexed { palette })
            },
            FramebufferTypeId::RGB => {
                let red_pos = reader.read_u8();
                let red_size = reader.read_u8();
                let green_pos = reader.read_u8();
                let green_size = reader.read_u8();
                let blue_pos = reader.read_u8();
                let blue_size = reader.read_u8();
                Ok(FramebufferType::RGB {
                    red: FramebufferField { position: red_pos, size: red_size },
                    green: FramebufferField { position: green_pos, size: green_size },
                    blue: FramebufferField { position: blue_pos, size: blue_size },
                })
            },
            FramebufferTypeId::Text => Ok(FramebufferType::Text),
        }
    }
}

/// Whether two records say the same: every field but the reserved one.
pub open spec fn same_record(a: FramebufferTagModel, b: FramebufferTagModel) -> bool {
    &&& a.typ == b.typ
    &&& a.size == b.size
    &&& a.address == b.address
    &&& a.pitch == b.pitch
    &&& a.width == b.width
    &&& a.height == b.height
    &&& a.bpp == b.bpp
    &&& a.type_no == b.type_no
    &&& a.buffer == b.buffer
}

impl PartialEq for FramebufferTag {
    fn eq(&self, other: &Self) -> (r: bool) {
        if !(self.typ == other.typ && self.size == other.size && self.address == other.address
            && self.pitch == other.pitch && self.width == other.width && self.height == other.height
            && self.bpp == other.bpp && self.type_no == other.type_no) {
            return false;
        }
        let n = self.buffer.len();
        if n != other.buffer.len() {
            return false;
        }
        let mut i: usize = 0;
        while i < n
            invariant
                n == self.buffer@.len(),
                n == other.buffer@.len(),
                i <= n,
                self.buffer@.take(i as int) == other.buffer@.take(i as int),
            decreases n - i,
        {
            if self.buffer[i] != other.buffer[i] {
                assert(self.buffer@[i as int] != other.buffer@[i as int]);
                return false;
            }
            assert(self.buffer@.take(i + 1) =~= self.buffer@.take(i as int) + seq![self.buffer@[i as int]]);
            assert(other.buffer@.take(i + 1) =~= other.buffer@.take(i as int) + seq![other.buffer@[i as int]]);
            i = i + 1;
        }
        assert(self.buffer@ =~= self.buffer@.take(n as int));
        assert(other.buffer@ =~= other.buffer@.take(n as int));
        true
    }
}

impl vstd::std_specs::cmp::PartialEqSpecImpl for FramebufferTag {
    open spec fn obeys_eq_spec() -> bool {
        true
    }

    open spec fn eq_spec(&self, other: &Self) -> bool {
        same_record(self@, other@)
    }
}

impl Eq for FramebufferTag {}

impl Clone for FramebufferTag {
    fn clone(&self) -> (r: Self)
        ensures
            r@ == self@,
    {
        FramebufferTag {
            typ: self.typ,
            size: self.size,
            address: self.address,
            pitch: self.pitch,
            width: self.width,
            height: self.height,
            bpp: self.bpp,
            type_no: self.type_no,
            reserved: self.reserved,
            buffer: self.buffer.clone(),
        }
    }
}

/// The palette's bytes hold its colours at every third byte.
pub proof fn lemma_palette_bytes(p: Seq<FramebufferColor>)
    ensures
        palette_bytes(p).len() == 3 * p.len(),
        forall|i: int| #![trigger p[i]] 0 <= i < p.len() ==> palette_bytes(p)[3 * i] == p[i].red
            && palette_bytes(p)[3 * i + 1] == p[i].green && palette_bytes(p)[3 * i + 2] == p[i].blue,
    decreases p.len(),
{
    if p.len() > 0 {
        let q = p.drop_last();
        let b = palette_bytes(p);
        lemma_palette_bytes(q);
        assert(b == palette_bytes(q) + seq![p.last().red, p.last().green, p.last().blue]);
        assert forall|i: int| #![trigger p[i]] 0 <= i < p.len() implies b[3 * i] == p[i].red
            && b[3 * i + 1] == p[i].green && b[3 * i + 2] == p[i].blue by {
            if i < q.len() {
                assert(p[i] == q[i]);
            }
        }
    }
}

/// Reading the palette back from its bytes gives the palette.
pub proof fn lemma_palette_round_trip(p: Seq<FramebufferColor>)
    ensures
        palette_of(palette_bytes(p), p.len()) == p,
{
    lemma_palette_bytes(p);
    let r = palette_of(palette_bytes(p), p.len());
    assert forall|i: int| 0 <= i < p.len() implies r[i] == p[i] by {
        assert(p[i].red == palette_bytes(p)[3 * i]);
    }
    assert(r =~= p);
}

/// The payload of every type holds all that its type byte asks for, and
/// reads back as that type.
pub proof fn lemma_kind_payload_ok(t: FramebufferKind)
    requires
        kind_fits(t),
    ensures
        payload_ok(kind_type_no(t), kind_payload(t)),
        payload_kind(kind_type_no(t), kind_payload(t)) == Ok::<FramebufferKind, UnknownFramebufferType>(t),
        METADATA_SIZE + kind_payload(t).len() <= u32::MAX,
{
    let b = kind_payload(t);
    match t {
        FramebufferKind::Indexed(p) => {
            lemma_palette_bytes(p);
            assert(b.subrange(0, 4) =~= u32_bytes(p.len() as u32));
            lemma_u32_round_trip(b, 0, p.len() as u32);
            assert(b.subrange(4, b.len() as int) =~= palette_bytes(p));
            lemma_palette_round_trip(p);
        },
        FramebufferKind::RGB(r, g, bl) => {
            assert(payload_kind(kind_type_no(t), b) =~= Ok::<FramebufferKind, UnknownFramebufferType>(t));
        },
        FramebufferKind::Text => {},
    }
}

/// Building a framebuffer record and parsing its bytes gives back the
/// metadata and the type with its payload.
pub proof fn lemma_framebuffer_round_trip(address: u64, pitch: u32, width: u32, height: u32, bpp: u8, t: FramebufferKind)
    requires
        kind_fits(t),
    ensures
        record_error(record_bytes(address, pitch, width, height, bpp, t)) is None,
        model_of(record_bytes(address, pitch, width, height, bpp, t)).typ == FRAMEBUFFER_TAG_TYPE,
        model_of(record_bytes(address, pitch, width, height, bpp, t)).address == address,
        model_of(record_bytes(address, pitch, width, height, bpp, t)).pitch == pitch,
        model_of(record_bytes(address, pitch, width, height, bpp, t)).width == width,
        model_of(record_bytes(address, pitch, width, height, bpp, t)).height == height,
        model_of(record_bytes(address, pitch, width, height, bpp, t)).bpp == bpp,
        payload_kind(
            model_of(record_bytes(address, pitch, width, height, bpp, t)).type_no,
            model_of(record_bytes(address, pitch, width, height, bpp, t)).buffer,
        ) == Ok::<FramebufferKind, UnknownFramebufferType>(t),
{
    let s = record_bytes(address, pitch, width, height, bpp, t);
    let b = kind_payload(t);
    let size = (METADATA_SIZE + b.len()) as u32;
    lemma_kind_payload_ok(t);
    assert(s.len() == METADATA_SIZE + b.len());
    assert(s.subrange(0, 4) =~= u32_bytes(FRAMEBUFFER_TAG_TYPE));
    assert(s.subrange(4, 8) =~= u32_bytes(size));
    assert(s.subrange(8, 16) =~= u64_bytes(address));
    assert(s.subrange(16, 20) =~= u32_bytes(pitch));
    assert(s.subrange(20, 24) =~= u32_bytes(width));
    assert(s.subrange(24, 28) =~= u32_bytes(height));
    lemma_u32_round_trip(s, 0, FRAMEBUFFER_TAG_TYPE);
    lemma_u32_round_trip(s, 4, size);
    lemma_u64_round_trip(s, 8, address);
    lemma_u32_round_trip(s, 16, pitch);
    lemma_u32_round_trip(s, 20, width);
    lemma_u32_round_trip(s, 24, height);
    assert(s[28] == bpp);
    assert(s[29] == kind_type_no(t));
    assert(s.subrange(METADATA_SIZE as int, size as int) =~= b);
}

/// An indexed payload whose bytes hold the declared count of colours reads
/// as exactly that many colours, in the order of the bytes, each three
/// bytes red, green, blue.
pub proof fn lemma_indexed_payload(b: Seq<u8>)
    requires
        payload_ok(INDEXED_TYPE, b),
    ensures
        payload_kind(INDEXED_TYPE, b) is Ok,
        payload_kind(INDEXED_TYPE, b)->Ok_0 is Indexed,
        payload_kind(INDEXED_TYPE, b)->Ok_0->Indexed_0.len() == u32_le(b, 0),
        forall|i: int| 0 <= i < u32_le(b, 0) ==> #[trigger] payload_kind(INDEXED_TYPE, b)->Ok_0->Indexed_0[i]
            == (FramebufferColor { red: b[4 + 3 * i], green: b[5 + 3 * i], blue: b[6 + 3 * i] }),
{
}

/// An RGB payload's six bytes are the position and size of red, green and
/// blue, in that order.
pub proof fn lemma_rgb_payload(b: Seq<u8>)
    requires
        payload_ok(RGB_TYPE, b),
    ensures
        payload_kind(RGB_TYPE, b) == Ok::<FramebufferKind, UnknownFramebufferType>(FramebufferKind::RGB(
            FramebufferField { position: b[0], size: b[1] },
            FramebufferField { position: b[2], size: b[3] },
            FramebufferField { position: b[4], size: b[5] },
        )),
{
}

/// A type byte that names no known type is reported as it is, whatever the
/// payload holds.
pub proof fn lemma_unknown_type(type_no: u8, b: Seq<u8>)
    requires
        type_no > TEXT_TYPE,
    ensures
        payload_kind(type_no, b) == Err::<FramebufferKind, UnknownFramebufferType>(UnknownFramebufferType(type_no)),
{
}

} // verus!
