//! The binary package envelope and its codec.
//!
//! A [`NetworkPackage`] is one length-prefixed message: a fixed nine-byte
//! header (version triple, flags, three enumerated tags and the two extra
//! lengths), two optional opaque extras, and the payload. [`NetworkPackage::write_to_stream`]
//! emits exactly that layout; [`NetworkPackage::read_from_stream`] rebuilds a
//! package from it and rejects anything malformed. Both directions are
//! specified against one wire model, [`wire_bytes`], and the round-trip and
//! back-to-back framing laws are proved below it.

use vstd::prelude::*;

use crate::version::{lemma_spec_new_fields, lemma_version_eq, Version};

verus! {

/// The fixed header length in bytes: three version bytes and six single-byte
/// fields. The four-byte length prefix is not part of the header; the value
/// carried by the prefix counts the header, the extras and the payload.
pub const HEADER_SIZE: u32 = 9;

/// The bit-set carried in the header's flags byte. Only bit 0 is defined:
/// the payload is base64-encoded.
#[derive(PartialEq, Eq, Structural, Clone, Copy, Debug)]
pub struct PackageFlags {
    pub base64: bool,
}

impl PackageFlags {
    /// The flags packed into their wire byte.
    pub open spec fn tag(self) -> u8 {
        if self.base64 {
            1
        } else {
            0
        }
    }

    /// The flags read back from a wire byte; `None` when an undefined bit is
    /// set.
    pub open spec fn spec_from_tag(b: u8) -> Option<PackageFlags> {
        if b == 0 {
            Some(PackageFlags { base64: false })
        } else if b == 1 {
            Some(PackageFlags { base64: true })
        } else {
            None
        }
    }

    /// Packs the flags into their wire byte.
    pub fn to_byte(self) -> (b: u8)
        ensures
            b == self.tag(),
    {
        if self.base64 {
            1
        } else {
            0
        }
    }

    /// Reads flags back from a wire byte.
    pub fn from_byte(b: u8) -> (r: Option<PackageFlags>)
        ensures
            r == Self::spec_from_tag(b),
    {
        if b == 0 {
            Some(PackageFlags { base64: false })
        } else if b == 1 {
            Some(PackageFlags { base64: true })
        } else {
            None
        }
    }
}

/// How textual content inside the payload is encoded. The package only
/// records the tag; it never decodes text itself.
#[derive(PartialEq, Eq, Structural, Clone, Copy, Debug)]
pub enum StringEncoding {
    Unspecified,
    ASCII,
    UTF8,
    UTF16LE,
    UTF16BE,
    UTF32,
}

impl StringEncoding {
    /// The stable wire tag of each variant.
    pub open spec fn tag(self) -> u8 {
        match self {
            StringEncoding::Unspecified => 0,
            StringEncoding::ASCII => 1,
            StringEncoding::UTF8 => 2,
            StringEncoding::UTF16LE => 3,
            StringEncoding::UTF16BE => 4,
            StringEncoding::UTF32 => 5,
        }
    }

    /// The variant a wire byte names; `None` for an unknown tag.
    pub open spec fn spec_from_tag(b: u8) -> Option<StringEncoding> {
        if b == 0 {
            Some(StringEncoding::Unspecified)
        } else if b == 1 {
            Some(StringEncoding::ASCII)
        } else if b == 2 {
            Some(StringEncoding::UTF8)
        } else if b == 3 {
            Some(StringEncoding::UTF16LE)
        } else if b == 4 {
            Some(StringEncoding::UTF16BE)
        } else if b == 5 {
            Some(StringEncoding::UTF32)
        } else {
            None
        }
    }

    pub fn to_byte(self) -> (b: u8)
        ensures
            b == self.tag(),
    {
        match self {
            StringEncoding::Unspecified => 0,
            StringEncoding::ASCII => 1,
            StringEncoding::UTF8 => 2,
            StringEncoding::UTF16LE => 3,
            StringEncoding::UTF16BE => 4,
            StringEncoding::UTF32 => 5,
        }
    }

    pub fn from_byte(b: u8) -> (r: Option<StringEncoding>)
        ensures
            r == Self::spec_from_tag(b),
    {
        if b == 0 {
            Some(StringEncoding::Unspecified)
        } else if b == 1 {
            Some(StringEncoding::ASCII)
        } else if b == 2 {
            Some(StringEncoding::UTF8)
        } else if b == 3 {
            Some(StringEncoding::UTF16LE)
        } else if b == 4 {
            Some(StringEncoding::UTF16BE)
        } else if b == 5 {
            Some(StringEncoding::UTF32)
        } else {
            None
        }
    }
}

/// The payload's logical format. Only recorded, never interpreted.
#[derive(PartialEq, Eq, Structural, Clone, Copy, Debug)]
pub enum DataFormat {
    Unspecified,
    JSON,
    XML,
    CSV,
    TSV,
    Binary,
}

impl DataFormat {
    /// The stable wire tag of each variant.
    pub open spec fn tag(self) -> u8 {
        match self {
            DataFormat::Unspecified => 0,
            DataFormat::JSON => 1,
            DataFormat::XML => 2,
            DataFormat::CSV => 3,
            DataFormat::TSV => 4,
            DataFormat::Binary => 5,
        }
    }

    /// The variant a wire byte names; `None` for an unknown tag.
    pub open spec fn spec_from_tag(b: u8) -> Option<DataFormat> {
        if b == 0 {
            Some(DataFormat::Unspecified)
        } else if b == 1 {
            Some(DataFormat::JSON)
        } else if b == 2 {
            Some(DataFormat::XML)
        } else if b == 3 {
            Some(DataFormat::CSV)
        } else if b == 4 {
            Some(DataFormat::TSV)
        } else if b == 5 {
            Some(DataFormat::Binary)
        } else {
            None
        }
    }

    pub fn to_byte(self) -> (b: u8)
        ensures
            b == self.tag(),
    {
        match self {
            DataFormat::Unspecified => 0,
            DataFormat::JSON => 1,
            DataFormat::XML => 2,
            DataFormat::CSV => 3,
            DataFormat::TSV => 4,
            DataFormat::Binary => 5,
        }
    }

    pub fn from_byte(b: u8) -> (r: Option<DataFormat>)
        ensures
            r == Self::spec_from_tag(b),
    {
        if b == 0 {
            Some(DataFormat::Unspecified)
        } else if b == 1 {
            Some(DataFormat::JSON)
        } else if b == 2 {
            Some(DataFormat::XML)
        } else if b == 3 {
            Some(DataFormat::CSV)
        } else if b == 4 {
            Some(DataFormat::TSV)
        } else if b == 5 {
            Some(DataFormat::Binary)
        } else {
            None
        }
    }
}

/// Which external primitive, if any, produced the payload. The package only
/// carries the tag and the primitive's opaque side-data; it never encrypts.
#[derive(PartialEq, Eq, Structural, Clone, Copy, Debug)]
pub enum EncryptionKinds {
    Unencrypted,
    RSA,
    AES,
}

impl EncryptionKinds {
    /// The stable wire tag of each variant.
    pub open spec fn tag(self) -> u8 {
        match self {
            EncryptionKinds::Unencrypted => 0,
            EncryptionKinds::RSA => 1,
            EncryptionKinds::AES => 2,
        }
    }

    /// The variant a wire byte names; `None` for an unknown tag.
    pub open spec fn spec_from_tag(b: u8) -> Option<EncryptionKinds> {
        if b == 0 {
            Some(EncryptionKinds::Unencrypted)
        } else if b == 1 {
            Some(EncryptionKinds::RSA)
        } else if b == 2 {
            Some(EncryptionKinds::AES)
        } else {
            None
        }
    }

    pub fn to_byte(self) -> (b: u8)
        ensures
            b == self.tag(),
    {
        match self {
            EncryptionKinds::Unencrypted => 0,
            EncryptionKinds::RSA => 1,
            EncryptionKinds::AES => 2,
        }
    }

    pub fn from_byte(b: u8) -> (r: Option<EncryptionKinds>)
        ensures
            r == Self::spec_from_tag(b),
    {
        if b == 0 {
            Some(EncryptionKinds::Unencrypted)
        } else if b == 1 {
            Some(EncryptionKinds::RSA)
        } else if b == 2 {
            Some(EncryptionKinds::AES)
        } else {
            None
        }
    }
}

/// A field handed to the package constructor was larger than the wire format
/// can record: the field's name, its actual size, and the allowed maximum.
#[derive(Debug, PartialEq, Eq, Clone)]
pub struct TooLargeError {
    field: String,
    total_size: usize,
    allowed_max: usize,
}

impl TooLargeError {
    pub closed spec fn spec_field(&self) -> Seq<char> {
        self.field@
    }

    pub closed spec fn spec_total_size(&self) -> usize {
        self.total_size
    }

    pub closed spec fn spec_allowed_max(&self) -> usize {
        self.allowed_max
    }

    pub fn new(field: &str, total_size: usize, allowed_max: usize) -> (r: Self)
        ensures
            r.spec_field() == field@,
            r.spec_total_size() == total_size,
            r.spec_allowed_max() == allowed_max,
    {
        Self { field: field.to_owned(), total_size, allowed_max }
    }

    /// The name of the field that was too large.
    pub fn field(&self) -> (r: &String)
        ensures
            r@ == self.spec_field(),
    {
        &self.field
    }

    /// The size the field actually had.
    pub fn total_size(&self) -> (r: usize)
        ensures
            r == self.spec_total_size(),
    {
        self.total_size
    }

    /// The largest size the wire format allows the field.
    pub fn allowed_max(&self) -> (r: usize)
        ensures
            r == self.spec_allowed_max(),
    {
        self.allowed_max
    }
}

/// The mathematical content of a package: every header field plus the three
/// byte sequences, free of any representation detail.
pub struct PackageView {
    pub version: Version,
    pub flags: PackageFlags,
    pub str_encode: StringEncoding,
    pub data_kind: DataFormat,
    pub encrypt: EncryptionKinds,
    pub encrypt_extra: Seq<u8>,
    pub content_extra: Seq<u8>,
    pub data: Seq<u8>,
}

impl PackageView {
    /// The value carried by the wire length prefix: header plus extras plus
    /// payload, excluding the four prefix bytes themselves.
    pub open spec fn total_len(self) -> int {
        HEADER_SIZE + self.encrypt_extra.len() + self.content_extra.len() + self.data.len()
    }

    /// The construction invariant: each extra fits its one-byte length field
    /// and the whole message length fits the four-byte prefix.
    pub open spec fn wf(self) -> bool {
        &&& self.encrypt_extra.len() <= 255
        &&& self.content_extra.len() <= 255
        &&& self.total_len() <= u32::MAX
    }
}

/// One length-prefixed message: a version triple, flags, three enumerated
/// tags, two opaque extras of at most 255 bytes each, and the payload.
///
/// A package is built once through [`NetworkPackage::new`], which validates
/// the size invariants, and is consumed exactly once by
/// [`NetworkPackage::write_to_stream`] or produced exactly once by
/// [`NetworkPackage::read_from_stream`]; it is never mutated afterwards.
#[derive(Debug)]
pub struct NetworkPackage {
    version: Version,
    flags: PackageFlags,
    str_encode: StringEncoding,
    data_kind: DataFormat,
    encrypt: EncryptionKinds,
    encrypt_extra: Vec<u8>,
    content_extra: Vec<u8>,
    data: Vec<u8>,
}

impl View for NetworkPackage {
    type V = PackageView;

    closed spec fn view(&self) -> PackageView {
        PackageView {
            version: self.version,
            flags: self.flags,
            str_encode: self.str_encode,
            data_kind: self.data_kind,
            encrypt: self.encrypt,
            encrypt_extra: self.encrypt_extra@,
            content_extra: self.content_extra@,
            data: self.data@,
        }
    }
}

impl NetworkPackage {
    /// The only constructor: validates the size invariants and moves the
    /// three buffers in. Succeeds exactly when each extra fits its one-byte
    /// length field and the payload leaves the total length representable in
    /// the four-byte prefix.
    pub fn new(
        version: Version,
        flags: PackageFlags,
        str_encode: StringEncoding,
        data_kind: DataFormat,
        encrypt: EncryptionKinds,
        encrypt_extra: Vec<u8>,
        content_extra: Vec<u8>,
        data: Vec<u8>,
    ) -> (r: Result<Self, TooLargeError>)
        ensures
            r matches Ok(p) <==> (PackageView {
                version,
                flags,
                str_encode,
                data_kind,
                encrypt,
                encrypt_extra: encrypt_extra@,
                content_extra: content_extra@,
                data: data@,
            }).wf(),
            r matches Ok(p) ==> p@ == (PackageView {
                version,
                flags,
                str_encode,
                data_kind,
                encrypt,
                encrypt_extra: encrypt_extra@,
                content_extra: content_extra@,
                data: data@,
            }),
            r matches Err(e) ==> {
                if encrypt_extra@.len() > 255 {
                    &&& e.spec_field() == "encrypt_extra"@
                    &&& e.spec_total_size() == encrypt_extra@.len()
                    &&& e.spec_allowed_max() == 255
                } else if content_extra@.len() > 255 {
                    &&& e.spec_field() == "content_extra"@
                    &&& e.spec_total_size() == content_extra@.len()
                    &&& e.spec_allowed_max() == 255
                } else {
                    &&& e.spec_field() == "data"@
                    &&& e.spec_total_size() == data@.len()
                    &&& e.spec_allowed_max() == u32::MAX - HEADER_SIZE - encrypt_extra@.len()
                        - content_extra@.len()
                }
            },
    {
        if encrypt_extra.len() > u8::MAX as usize {
            return Err(TooLargeError::new("encrypt_extra", encrypt_extra.len(), u8::MAX as usize));
        }
        if content_extra.len() > u8::MAX as usize {
            return Err(TooLargeError::new("content_extra", content_extra.len(), u8::MAX as usize));
        }

        let max_data_size = (Self::max_data_size() - encrypt_extra.len() as u32 - content_extra.len()
            as u32) as usize;
        if data.len() > max_data_size {
            return Err(TooLargeError::new("data", data.len(), max_data_size));
        }

        Ok(Self { version, flags, str_encode, data_kind, encrypt, encrypt_extra, content_extra, data })
    }

    /// The largest payload any package may carry: what the four-byte length
    /// prefix can count beyond the fixed header.
    pub fn max_data_size() -> (r: u32)
        ensures
            r == u32::MAX - HEADER_SIZE,
    {
        u32::MAX - Self::header_size()
    }

    /// The fixed header length in bytes.
    pub fn header_size() -> (r: u32)
        ensures
            r == HEADER_SIZE,
    {
        HEADER_SIZE
    }

    pub fn version(&self) -> (r: &Version)
        ensures
            *r == self@.version,
    {
        &self.version
    }

    pub fn flags(&self) -> (r: &PackageFlags)
        ensures
            *r == self@.flags,
    {
        &self.flags
    }

    pub fn str_encode(&self) -> (r: &StringEncoding)
        ensures
            *r == self@.str_encode,
    {
        &self.str_encode
    }

    pub fn data_kind(&self) -> (r: &DataFormat)
        ensures
            *r == self@.data_kind,
    {
        &self.data_kind
    }

    pub fn encrypt(&self) -> (r: &EncryptionKinds)
        ensures
            *r == self@.encrypt,
    {
        &self.encrypt
    }

    pub fn encrypt_extra(&self) -> (r: &Vec<u8>)
        ensures
            r@ == self@.encrypt_extra,
    {
        &self.encrypt_extra
    }

    pub fn content_extra(&self) -> (r: &Vec<u8>)
        ensures
            r@ == self@.content_extra,
    {
        &self.content_extra
    }

    pub fn data(&self) -> (r: &Vec<u8>)
        ensures
            r@ == self@.data,
    {
        &self.data
    }

    /// Serializes the package onto a byte sink in the fixed wire layout,
    /// consuming it: the length prefix, the nine header bytes, the extras,
    /// then the payload. Appends exactly [`wire_bytes`] of the package.
    pub fn write_to_stream(self, stream: &mut Vec<u8>)
        requires
            self@.wf(),
        ensures
            final(stream)@ == old(stream)@ + wire_bytes(self@),
    {
        let ghost pre = stream@;
        let ghost v = self@;
        let total: u32 = Self::header_size() + self.encrypt_extra.len() as u32
            + self.content_extra.len() as u32 + self.data.len() as u32;
        proof {
            assert((total >> 24) & 0xFF < 256 && (total >> 16) & 0xFF < 256 && (total >> 8) & 0xFF
                < 256 && total & 0xFF < 256) by (bit_vector);
        }
        stream.push(((total >> 24) & 0xFF) as u8);
        stream.push(((total >> 16) & 0xFF) as u8);
        stream.push(((total >> 8) & 0xFF) as u8);
        stream.push((total & 0xFF) as u8);
        proof {
            assert(total == v.total_len() as u32);
            assert(stream@ =~= pre + spec_u32_to_be_bytes(v.total_len() as u32));
        }

        stream.push(*self.version.major());
        stream.push(*self.version.minor());
        stream.push(*self.version.build());
        stream.push(self.flags.to_byte());
        stream.push(self.str_encode.to_byte());
        stream.push(self.data_kind.to_byte());
        stream.push(self.encrypt.to_byte());
        stream.push(self.encrypt_extra.len() as u8);
        stream.push(self.content_extra.len() as u8);
        proof {
            assert(stream@ =~= pre + spec_u32_to_be_bytes(v.total_len() as u32) + header_bytes(v));
        }

        stream.extend_from_slice(self.encrypt_extra.as_slice());
        stream.extend_from_slice(self.content_extra.as_slice());
        stream.extend_from_slice(self.data.as_slice());
        proof {
            assert(stream@ =~= pre + wire_bytes(v));
        }
    }
}

/// The four big-endian bytes of a 32-bit value, most significant first.
pub open spec fn spec_u32_to_be_bytes(x: u32) -> Seq<u8> {
    seq![
        ((x >> 24) & 0xFF) as u8,
        ((x >> 16) & 0xFF) as u8,
        ((x >> 8) & 0xFF) as u8,
        (x & 0xFF) as u8,
    ]
}

/// The 32-bit value four big-endian bytes carry.
pub open spec fn spec_u32_from_be_bytes(s: Seq<u8>) -> u32
    recommends
        s.len() == 4,
{
    (((s[0] as u32) << 24) | ((s[1] as u32) << 16) | ((s[2] as u32) << 8) | (s[3] as u32)) as u32
}

/// The two big-endian conversions invert each other.
pub proof fn lemma_u32_be_bytes(x: u32, s: Seq<u8>)
    requires
        s.len() == 4,
    ensures
        spec_u32_from_be_bytes(spec_u32_to_be_bytes(x)) == x,
        spec_u32_to_be_bytes(spec_u32_from_be_bytes(s)) =~= s,
{
    assert((((((x >> 24) & 0xFF) as u8) as u32) << 24) | (((((x >> 16) & 0xFF) as u8) as u32)
        << 16) | (((((x >> 8) & 0xFF) as u8) as u32) << 8) | (((x & 0xFF) as u8) as u32) == x)
        by (bit_vector);
    let b0 = s[0];
    let b1 = s[1];
    let b2 = s[2];
    let b3 = s[3];
    let y = (((b0 as u32) << 24) | ((b1 as u32) << 16) | ((b2 as u32) << 8) | (b3 as u32)) as u32;
    assert(((y >> 24) & 0xFF) as u8 == b0 && ((y >> 16) & 0xFF) as u8 == b1 && ((y >> 8) & 0xFF)
        as u8 == b2 && (y & 0xFF) as u8 == b3) by (bit_vector)
        requires
            y == (((b0 as u32) << 24) | ((b1 as u32) << 16) | ((b2 as u32) << 8) | (b3 as u32))
                as u32,
    ;
}

/// The nine header bytes of a package: version triple, flags, the three
/// enumerated tags, and the two extra lengths.
pub open spec fn header_bytes(v: PackageView) -> Seq<u8> {
    seq![
        v.version.spec_major(),
        v.version.spec_minor(),
        v.version.spec_build(),
        v.flags.tag(),
        v.str_encode.tag(),
        v.data_kind.tag(),
        v.encrypt.tag(),
        v.encrypt_extra.len() as u8,
        v.content_extra.len() as u8,
    ]
}

/// The full wire image of a package: the big-endian length prefix, the nine
/// header bytes, the two extras, then the payload.
pub open spec fn wire_bytes(v: PackageView) -> Seq<u8> {
    spec_u32_to_be_bytes(v.total_len() as u32) + header_bytes(v) + v.encrypt_extra
        + v.content_extra + v.data
}

/// A wire image is the length prefix plus exactly `total_len` more bytes.
pub proof fn lemma_wire_bytes_len(v: PackageView)
    requires
        v.wf(),
    ensures
        wire_bytes(v).len() == 4 + v.total_len(),
{
}

/// Why a decode attempt failed. Any failure leaves the stream position
/// unspecified inside the failed message: the caller must discard the
/// stream rather than try to resynchronize.
#[derive(Debug, PartialEq, Eq, Clone)]
pub enum NetworkReadError {
    /// Fewer bytes were available than a length field declared.
    UnexpectedEof,
    /// A derived length underflowed: the declared total is smaller than the
    /// header, or the extras are larger than the declared total.
    MalformedLength,
    /// An enumerated header byte does not name a known tag; carries the
    /// field's name.
    MissingElement(String),
}

/// What decoding a byte sequence at a position yields: too few bytes, an
/// unknown tag byte (with the field's name), an impossible declared length,
/// or a complete package together with the position just past its frame.
pub enum ReadOutcome {
    Short,
    UnknownTag(Seq<char>),
    BadLength,
    Complete(PackageView, int),
}

/// The flags a defined flags byte names.
pub open spec fn flags_of(b: u8) -> PackageFlags {
    PackageFlags { base64: b == 1 }
}

/// The string-encoding variant a known tag byte names.
pub open spec fn str_encoding_of(b: u8) -> StringEncoding {
    if b == 1 {
        StringEncoding::ASCII
    } else if b == 2 {
        StringEncoding::UTF8
    } else if b == 3 {
        StringEncoding::UTF16LE
    } else if b == 4 {
        StringEncoding::UTF16BE
    } else if b == 5 {
        StringEncoding::UTF32
    } else {
        StringEncoding::Unspecified
    }
}

/// The data-format variant a known tag byte names.
pub open spec fn data_format_of(b: u8) -> DataFormat {
    if b == 1 {
        DataFormat::JSON
    } else if b == 2 {
        DataFormat::XML
    } else if b == 3 {
        DataFormat::CSV
    } else if b == 4 {
        DataFormat::TSV
    } else if b == 5 {
        DataFormat::Binary
    } else {
        DataFormat::Unspecified
    }
}

/// The encryption-kind variant a known tag byte names.
pub open spec fn encryption_kind_of(b: u8) -> EncryptionKinds {
    if b == 1 {
        EncryptionKinds::RSA
    } else if b == 2 {
        EncryptionKinds::AES
    } else {
        EncryptionKinds::Unencrypted
    }
}

/// What decoding `s` from position `pos` yields. The steps mirror the wire
/// layout: the four-byte prefix and nine header bytes must be present, the
/// four enumerated bytes must name known tags (checked in field order), the
/// declared total must cover the header, each extra must be present, the
/// declared total must cover the extras, and the payload it implies must be
/// present.
pub open spec fn read_spec(s: Seq<u8>, pos: int) -> ReadOutcome {
    let avail = s.len() - pos;
    if avail < 4 + HEADER_SIZE {
        ReadOutcome::Short
    } else {
        let total = spec_u32_from_be_bytes(s.subrange(pos, pos + 4)) as int;
        let fb = s[pos + 7];
        let se = s[pos + 8];
        let df = s[pos + 9];
        let ek = s[pos + 10];
        if PackageFlags::spec_from_tag(fb) is None {
            ReadOutcome::UnknownTag("flags"@)
        } else if StringEncoding::spec_from_tag(se) is None {
            ReadOutcome::UnknownTag("str_encode"@)
        } else if DataFormat::spec_from_tag(df) is None {
            ReadOutcome::UnknownTag("data_kind"@)
        } else if EncryptionKinds::spec_from_tag(ek) is None {
            ReadOutcome::UnknownTag("encrypt"@)
        } else if total < HEADER_SIZE {
            ReadOutcome::BadLength
        } else {
            let ee_len = s[pos + 11] as int;
            let ce_len = s[pos + 12] as int;
            if avail < 13 + ee_len + ce_len {
                ReadOutcome::Short
            } else if total - HEADER_SIZE - ee_len - ce_len < 0 {
                ReadOutcome::BadLength
            } else if avail < 4 + total {
                ReadOutcome::Short
            } else {
                ReadOutcome::Complete(
                    PackageView {
                        version: Version::spec_new(s[pos + 4], s[pos + 5], s[pos + 6]),
                        flags: flags_of(fb),
                        str_encode: str_encoding_of(se),
                        data_kind: data_format_of(df),
                        encrypt: encryption_kind_of(ek),
                        encrypt_extra: s.subrange(pos + 13, pos + 13 + ee_len),
                        content_extra: s.subrange(pos + 13 + ee_len, pos + 13 + ee_len + ce_len),
                        data: s.subrange(pos + 13 + ee_len + ce_len, pos + 4 + total),
                    },
                    pos + 4 + total,
                )
            }
        }
    }
}

/// Copies one index range of a byte buffer into a fresh vector.
fn copy_range(src: &Vec<u8>, from: usize, to: usize) -> (r: Vec<u8>)
    requires
        from <= to <= src@.len(),
    ensures
        r@ == src@.subrange(from as int, to as int),
{
    let mut out: Vec<u8> = Vec::new();
    let mut i: usize = from;
    while i < to
        invariant
            from <= i <= to <= src@.len(),
            out@ == src@.subrange(from as int, i as int),
        decreases to - i,
    {
        out.push(src[i]);
        i = i + 1;
        proof {
            assert(out@ =~= src@.subrange(from as int, i as int));
        }
    }
    out
}

impl NetworkPackage {
    /// The exact inverse of [`NetworkPackage::write_to_stream`]: rebuilds one
    /// package from the buffered stream starting at `pos`, validating every
    /// length against both the declared total and the bytes present, and
    /// never reading past the declared frame. On success it also returns the
    /// position just past the frame, where a following package may start.
    /// The result is exactly what [`read_spec`] says for these bytes, each
    /// error variant standing for one spec outcome.
    pub fn read_from_stream(stream: &Vec<u8>, pos: usize) -> (r: Result<
        (Self, usize),
        NetworkReadError,
    >)
        requires
            pos <= stream@.len(),
        ensures
            match r {
                Ok((p, end)) => {
                    &&& read_spec(stream@, pos as int) == ReadOutcome::Complete(p@, end as int)
                    &&& p@.wf()
                    &&& pos < end <= stream@.len()
                },
                Err(e) => match e {
                    NetworkReadError::UnexpectedEof => read_spec(stream@, pos as int)
                        is Short,
                    NetworkReadError::MalformedLength => read_spec(stream@, pos as int)
                        is BadLength,
                    NetworkReadError::MissingElement(f) => read_spec(stream@, pos as int)
                        == ReadOutcome::UnknownTag(f@),
                },
            },
    {
        let ghost s = stream@;
        let avail: usize = stream.len() - pos;
        if avail < 13 {
            return Err(NetworkReadError::UnexpectedEof);
        }

        let total: u32 = ((stream[pos] as u32) << 24) | ((stream[pos + 1] as u32) << 16) | ((
        stream[pos + 2] as u32) << 8) | (stream[pos + 3] as u32);
        proof {
            assert(s.subrange(pos as int, pos as int + 4)[0] == s[pos as int]);
            assert(s.subrange(pos as int, pos as int + 4)[1] == s[pos as int + 1]);
            assert(s.subrange(pos as int, pos as int + 4)[2] == s[pos as int + 2]);
            assert(s.subrange(pos as int, pos as int + 4)[3] == s[pos as int + 3]);
        }

        let flags = match PackageFlags::from_byte(stream[pos + 7]) {
            Some(f) => f,
            None => {
                return Err(NetworkReadError::MissingElement("flags".to_owned()));
            },
        };
        let str_encode = match StringEncoding::from_byte(stream[pos + 8]) {
            Some(f) => f,
            None => {
                return Err(NetworkReadError::MissingElement("str_encode".to_owned()));
            },
        };
        let data_kind = match DataFormat::from_byte(stream[pos + 9]) {
            Some(f) => f,
            None => {
                return Err(NetworkReadError::MissingElement("data_kind".to_owned()));
            },
        };
        let encrypt = match EncryptionKinds::from_byte(stream[pos + 10]) {
            Some(f) => f,
            None => {
                return Err(NetworkReadError::MissingElement("encrypt".to_owned()));
            },
        };

        if total < HEADER_SIZE {
            return Err(NetworkReadError::MalformedLength);
        }

        let ee_len: usize = stream[pos + 11] as usize;
        let ce_len: usize = stream[pos + 12] as usize;
        if avail < 13 + ee_len + ce_len {
            return Err(NetworkReadError::UnexpectedEof);
        }
        let remaining: usize = total as usize - HEADER_SIZE as usize;
        if ee_len + ce_len > remaining {
            return Err(NetworkReadError::MalformedLength);
        }
        let data_len: usize = remaining - ee_len - ce_len;
        if (avail as u64) < 13 + ee_len as u64 + ce_len as u64 + data_len as u64 {
            return Err(NetworkReadError::UnexpectedEof);
        }

        let version = Version::new(stream[pos + 4], stream[pos + 5], stream[pos + 6]);
        let encrypt_extra = copy_range(stream, pos + 13, pos + 13 + ee_len);
        let content_extra = copy_range(stream, pos + 13 + ee_len, pos + 13 + ee_len + ce_len);
        let data_start: usize = pos + 13 + ee_len + ce_len;
        let data = copy_range(stream, data_start, data_start + data_len);
        let end: usize = data_start + data_len;

        match Self::new(version, flags, str_encode, data_kind, encrypt, encrypt_extra, content_extra, data) {
            Ok(p) => Ok((p, end)),
            Err(_) => vstd::pervasive::unreached(),
        }
    }
}

/// Wherever a buffer holds the wire image of a valid package, decoding at
/// that position yields exactly that package and stops exactly at the image's
/// end. Round-trip and back-to-back framing are corollaries.
pub proof fn lemma_read_wire(s: Seq<u8>, pos: int, v: PackageView)
    requires
        v.wf(),
        0 <= pos,
        pos + wire_bytes(v).len() <= s.len(),
        s.subrange(pos, pos + wire_bytes(v).len()) == wire_bytes(v),
    ensures
        read_spec(s, pos) == ReadOutcome::Complete(v, pos + 4 + v.total_len()),
{
    let w = wire_bytes(v);
    let total = v.total_len();
    let n = w.len();
    assert(n == 4 + total);
    assert forall|i: int| 0 <= i < n implies s[pos + i] == w[i] by {
        assert(s.subrange(pos, pos + n)[i] == s[pos + i]);
    }

    let prefix = spec_u32_to_be_bytes(total as u32);
    let h = header_bytes(v);
    assert forall|i: int| 0 <= i < 4 implies w[i] == prefix[i] by {}
    assert forall|i: int| 0 <= i < 9 implies w[4 + i] == h[i] by {}

    assert(s.subrange(pos, pos + 4) =~= prefix);
    lemma_u32_be_bytes(total as u32, prefix);
    assert(spec_u32_from_be_bytes(s.subrange(pos, pos + 4)) == total as u32);

    let ee = v.encrypt_extra;
    let ce = v.content_extra;
    let ee_len = ee.len() as int;
    let ce_len = ce.len() as int;
    assert(s[pos + 11] == ee.len() as u8 && s[pos + 12] == ce.len() as u8);
    assert(s[pos + 7] == v.flags.tag() && s[pos + 8] == v.str_encode.tag() && s[pos + 9]
        == v.data_kind.tag() && s[pos + 10] == v.encrypt.tag());

    assert(flags_of(v.flags.tag()) == v.flags);
    assert(str_encoding_of(v.str_encode.tag()) == v.str_encode);
    assert(data_format_of(v.data_kind.tag()) == v.data_kind);
    assert(encryption_kind_of(v.encrypt.tag()) == v.encrypt);

    assert forall|i: int| 0 <= i < ee_len implies w[13 + i] == ee[i] by {}
    assert forall|i: int| 0 <= i < ce_len implies w[13 + ee_len + i] == ce[i] by {}
    assert forall|i: int| 0 <= i < v.data.len() implies w[13 + ee_len + ce_len + i] == v.data[i]
        by {}

    assert(s.subrange(pos + 13, pos + 13 + ee_len) =~= ee);
    assert(s.subrange(pos + 13 + ee_len, pos + 13 + ee_len + ce_len) =~= ce);
    assert(s.subrange(pos + 13 + ee_len + ce_len, pos + 4 + total) =~= v.data);

    lemma_spec_new_fields(s[pos + 4], s[pos + 5], s[pos + 6]);
    lemma_version_eq(
        Version::spec_new(s[pos + 4], s[pos + 5], s[pos + 6]),
        v.version,
    );

    match read_spec(s, pos) {
        ReadOutcome::Complete(pv, end) => {
            assert(pv == v);
            assert(end == pos + 4 + total);
        },
        _ => {
            assert(false);
        },
    }
}

/// The converse: whatever decoding accepts is the wire image of the decoded
/// package, occupying exactly the bytes up to the returned position. So the
/// decoder accepts nothing the encoder would not produce.
pub proof fn lemma_complete_is_wire(s: Seq<u8>, pos: int, v: PackageView, end: int)
    requires
        0 <= pos <= s.len(),
        read_spec(s, pos) == ReadOutcome::Complete(v, end),
    ensures
        v.wf(),
        end == pos + 4 + v.total_len(),
        end <= s.len(),
        s.subrange(pos, end) == wire_bytes(v),
{
    let total = spec_u32_from_be_bytes(s.subrange(pos, pos + 4)) as int;
    let ee_len = s[pos + 11] as int;
    let ce_len = s[pos + 12] as int;
    assert(v.encrypt_extra.len() == ee_len && v.content_extra.len() == ce_len && v.data.len()
        == total - HEADER_SIZE - ee_len - ce_len);
    assert(v.total_len() == total);
    assert(v.wf());

    let w = wire_bytes(v);
    let prefix = spec_u32_to_be_bytes(total as u32);
    lemma_u32_be_bytes(total as u32, s.subrange(pos, pos + 4));
    assert(prefix =~= s.subrange(pos, pos + 4));

    lemma_spec_new_fields(s[pos + 4], s[pos + 5], s[pos + 6]);
    assert(v.flags.tag() == s[pos + 7] && v.str_encode.tag() == s[pos + 8] && v.data_kind.tag()
        == s[pos + 9] && v.encrypt.tag() == s[pos + 10]);

    assert(s.subrange(pos, end) =~= w);
}

/// Round-trip: decoding the wire image of any valid package, from its first
/// byte, yields that package field-for-field and consumes the whole image.
pub proof fn lemma_round_trip(v: PackageView)
    requires
        v.wf(),
    ensures
        read_spec(wire_bytes(v), 0) == ReadOutcome::Complete(v, wire_bytes(v).len() as int),
{
    let w = wire_bytes(v);
    assert(w.subrange(0, w.len() as int) =~= w);
    lemma_read_wire(w, 0, v);
}

/// Framing is unambiguous: two valid packages with the same wire image are
/// the same package.
pub proof fn lemma_wire_bytes_injective(v1: PackageView, v2: PackageView)
    requires
        v1.wf(),
        v2.wf(),
        wire_bytes(v1) == wire_bytes(v2),
    ensures
        v1 == v2,
{
    lemma_round_trip(v1);
    lemma_round_trip(v2);
}

/// Multiplexing: two packages written back-to-back into one stream decode in
/// sequence, the second decode starting exactly at the first byte after the
/// first package's frame.
#[verifier::rlimit(50)]
pub proof fn lemma_multiplex(v1: PackageView, v2: PackageView)
    requires
        v1.wf(),
        v2.wf(),
    ensures
        read_spec(wire_bytes(v1) + wire_bytes(v2), 0) == ReadOutcome::Complete(
            v1,
            wire_bytes(v1).len() as int,
        ),
        read_spec(wire_bytes(v1) + wire_bytes(v2), wire_bytes(v1).len() as int)
            == ReadOutcome::Complete(v2, wire_bytes(v1).len() + wire_bytes(v2).len() as int),
{
    let w1 = wire_bytes(v1);
    let w2 = wire_bytes(v2);
    let s = w1 + w2;
    let n1 = w1.len() as int;
    let n2 = w2.len() as int;
    lemma_wire_bytes_len(v1);
    lemma_wire_bytes_len(v2);
    assert(s.subrange(0, n1) =~= w1);
    assert(s.subrange(n1, n1 + n2) =~= w2);
    lemma_read_wire(s, 0, v1);
    lemma_read_wire(s, n1, v2);
    assert(read_spec(s, 0) == ReadOutcome::Complete(v1, n1));
    assert(read_spec(s, n1) == ReadOutcome::Complete(v2, n1 + n2));
}

} // verus!
