//! The file header at the start of every `.blend` file.
use vstd::prelude::*;
use crate::error::{BlendFileErrorKind, Dot001Error, Result, blend_error_with, io_error_with, is_blend_error};
use crate::blendfile::header_len;
use crate::text::{decimal, parse_unsigned, parse_unsigned_bytes};

verus! {

/// The header of a `.blend` file.
///
/// Legacy files start with the 12 bytes `BLENDER`, `_` (4-byte pointers) or `-`
/// (8-byte pointers), `v` (little endian) or `V` (big endian) and a 3-digit
/// version. Files of format 1 start with the 17 bytes `BLENDER17-01v` and a
/// 4-digit version; they always have 8-byte pointers and are little endian.
#[derive(Debug, Clone, Copy)]
pub struct BlendFileHeader {
    pub magic: [u8; 7],
    pub file_format_version: u32,
    pub pointer_size: u8,
    pub is_little_endian: bool,
    pub version: u32,
}

/// What a header states: format version, pointer size, byte order, Blender version.
pub struct HeaderFields {
    pub file_format_version: u32,
    pub pointer_size: u8,
    pub is_little_endian: bool,
    pub version: u32,
}

/// The magic bytes `BLENDER`.
pub open spec fn magic_bytes() -> Seq<u8> {
    seq![66u8, 76u8, 69u8, 78u8, 68u8, 69u8, 82u8]
}

/// The header fields that `d` starts with, or the kind of error reading them.
///
/// Bytes missing before the header is complete make an `InvalidHeader` error.
/// The two size digits of a format-1 header are combined as `u8` arithmetic that
/// wraps.
pub open spec fn spec_read_header(d: Seq<u8>) -> core::result::Result<HeaderFields, BlendFileErrorKind> {
    if d.len() < 7 {
        Err(BlendFileErrorKind::InvalidHeader)
    } else if d.subrange(0, 7) != magic_bytes() {
        Err(BlendFileErrorKind::InvalidMagic)
    } else if d.len() < 8 {
        Err(BlendFileErrorKind::InvalidHeader)
    } else if d[7] == 95 || d[7] == 45 {
        if d.len() < 12 {
            Err(BlendFileErrorKind::InvalidHeader)
        } else if d[8] != 118 && d[8] != 86 {
            Err(BlendFileErrorKind::InvalidHeader)
        } else {
            match parse_unsigned(d.subrange(9, 12), u32::MAX as int) {
                Some(v) => Ok(HeaderFields {
                    file_format_version: 0,
                    pointer_size: if d[7] == 95 { 4 } else { 8 },
                    is_little_endian: d[8] == 118,
                    version: v as u32,
                }),
                None => Err(BlendFileErrorKind::InvalidHeader),
            }
        }
    } else if d.len() < 9 {
        Err(BlendFileErrorKind::InvalidHeader)
    } else if header_size_digits(d[7], d[8]) != 17 {
        Err(BlendFileErrorKind::InvalidHeader)
    } else if d.len() < 10 || d[9] != 45 {
        Err(BlendFileErrorKind::InvalidHeader)
    } else if d.len() < 12 {
        Err(BlendFileErrorKind::InvalidHeader)
    } else {
        match parse_unsigned(d.subrange(10, 12), u32::MAX as int) {
            None => Err(BlendFileErrorKind::InvalidHeader),
            Some(f) => if f != 1 {
                Err(BlendFileErrorKind::UnsupportedVersion)
            } else if d.len() < 13 || d[12] != 118 {
                Err(BlendFileErrorKind::InvalidHeader)
            } else if d.len() < 17 {
                Err(BlendFileErrorKind::InvalidHeader)
            } else {
                match parse_unsigned(d.subrange(13, 17), u32::MAX as int) {
                    Some(v) => Ok(HeaderFields {
                        file_format_version: 1,
                        pointer_size: 8,
                        is_little_endian: true,
                        version: v as u32,
                    }),
                    None => Err(BlendFileErrorKind::InvalidHeader),
                }
            },
        }
    }
}

/// A header that reads occupies exactly its header size: the bytes are there,
/// and whatever follows them leaves what is read unchanged; so a reader of the
/// header stops right after `header_len` bytes.
pub proof fn lemma_header_occupies(d: Seq<u8>, rest: Seq<u8>)
    requires
        spec_read_header(d) is Ok,
    ensures
        d.len() >= header_len(spec_read_header(d)->Ok_0),
        spec_read_header(d.take(header_len(spec_read_header(d)->Ok_0)) + rest) == spec_read_header(d),
{
    let n = header_len(spec_read_header(d)->Ok_0);
    let e = d.take(n) + rest;
    assert(d.len() >= n);
    assert forall|i: int| 0 <= i < n implies e[i] == d[i] by {}
    assert(e.subrange(0, 7) =~= d.subrange(0, 7));
    if n == 12 {
        assert(e.subrange(9, 12) =~= d.subrange(9, 12));
    } else {
        assert(e.subrange(10, 12) =~= d.subrange(10, 12));
        assert(e.subrange(13, 17) =~= d.subrange(13, 17));
    }
}

/// The header size written as two digits, combined with wrapping `u8` arithmetic.
pub open spec fn header_size_digits(a: u8, b: u8) -> u8 {
    vstd::wrapping::u8_specs::wrapping_add(
        vstd::wrapping::u8_specs::wrapping_mul(vstd::wrapping::u8_specs::wrapping_sub(a, 48), 10),
        vstd::wrapping::u8_specs::wrapping_sub(b, 48),
    )
}

/// Whether `h` holds the fields `f` and the magic bytes.
pub open spec fn header_matches(h: BlendFileHeader, f: HeaderFields) -> bool {
    &&& h.magic@ == magic_bytes()
    &&& h.file_format_version == f.file_format_version
    &&& h.pointer_size == f.pointer_size
    &&& h.is_little_endian == f.is_little_endian
    &&& h.version == f.version
}

/// Whether the bytes of `d` run out before its header is read, reading it in
/// order: the magic bytes, then byte by byte what each part of the header
/// needs before its check.
pub open spec fn header_short(d: Seq<u8>) -> bool {
    if d.len() < 7 {
        true
    } else if d.subrange(0, 7) != magic_bytes() {
        false
    } else if d.len() < 8 {
        true
    } else if d[7] == 95 || d[7] == 45 {
        d.len() < 9 || ((d[8] == 118 || d[8] == 86) && d.len() < 12)
    } else {
        d.len() < 9 || (header_size_digits(d[7], d[8]) == 17 && (d.len() < 10 || (d[9] == 45 && (d.len() < 12 || (
        parse_unsigned(d.subrange(10, 12), u32::MAX as int) == Some(1int) && (d.len() < 13 || (d[12] == 118
            && d.len() < 17)))))))
    }
}

/// Bytes written as decimal numbers separated by `, `.
pub open spec fn byte_list(s: Seq<u8>) -> Seq<char>
    decreases s.len(),
{
    if s.len() == 0 {
        Seq::empty()
    } else if s.len() == 1 {
        decimal(s[0] as nat)
    } else {
        byte_list(s.drop_last()) + ", "@ + decimal(s.last() as nat)
    }
}

/// The message for version digits `v` that do not parse.
pub open spec fn version_message(v: Seq<u8>) -> Seq<char> {
    if !vstd::utf8::valid_utf8(v) {
        "Invalid version format"@
    } else {
        "Invalid version number"@
    }
}

/// The message of the error that reading a header from `d` meets, when the
/// bytes do not run out first: the magic bytes found, the endian character,
/// the header size or the file format version that is wrong.
pub open spec fn header_message(d: Seq<u8>) -> Seq<char> {
    if d.subrange(0, 7) != magic_bytes() {
        "Invalid magic bytes: ["@ + byte_list(d.subrange(0, 7)) + "]"@
    } else if d[7] == 95 || d[7] == 45 {
        if d[8] != 118 && d[8] != 86 {
            "Invalid endian indicator: "@ + seq![d[8] as char]
        } else {
            version_message(d.subrange(9, 12))
        }
    } else if header_size_digits(d[7], d[8]) != 17 {
        "Unknown header size: "@ + decimal(header_size_digits(d[7], d[8]) as nat)
    } else if d[9] != 45 {
        "Expected '-' separator"@
    } else if !vstd::utf8::valid_utf8(d.subrange(10, 12)) {
        "Invalid file format version"@
    } else if parse_unsigned(d.subrange(10, 12), u32::MAX as int) is None {
        "Invalid file format version number"@
    } else if parse_unsigned(d.subrange(10, 12), u32::MAX as int) != Some(1int) {
        "Unsupported version: "@ + decimal(parse_unsigned(d.subrange(10, 12), u32::MAX as int)->Some_0 as nat)
    } else if d[12] != 118 {
        "Expected 'v' endian indicator"@
    } else {
        version_message(d.subrange(13, 17))
    }
}

/// The text of a byte as the character of that code point (`byte as char`).
fn latin1_text(b: u8) -> (r: String)
    ensures
        r@ == seq![b as char],
{
    let c: char = b as char;
    let bytes: Vec<u8> = if b < 128u8 {
        vec![b]
    } else {
        vec![0xC0u8 | (b >> 6u8), 0x80u8 | (b & 0x3Fu8)]
    };
    proof {
        let u = c as u32;
        assert(u == b as u32);
        let enc = vstd::utf8::encode_utf8(seq![c]);
        assert(seq![c].drop_first() =~= Seq::<char>::empty());
        reveal_with_fuel(vstd::utf8::encode_utf8, 2);
        assert(vstd::utf8::encode_utf8(Seq::<char>::empty()) =~= Seq::<u8>::empty());
        assert(enc =~= vstd::utf8::encode_scalar(u));
        if b < 128u8 {
            assert(vstd::utf8::leading_byte_width_1(u) == b) by (bit_vector)
                requires
                    u == b as u32,
                    b < 128u8,
            ;
            assert(bytes@ =~= enc);
        } else {
            assert(vstd::utf8::leading_byte_width_2(u) == 0xC0u8 | (b >> 6u8)) by (bit_vector)
                requires
                    u == b as u32,
                    b >= 128u8,
            ;
            assert(vstd::utf8::last_continuation_byte(u) == 0x80u8 | (b & 0x3Fu8)) by (bit_vector)
                requires
                    u == b as u32,
                    b >= 128u8,
            ;
            assert(bytes@ =~= enc);
        }
        vstd::utf8::encode_utf8_valid_utf8(seq![c]);
        vstd::utf8::encode_utf8_decode_utf8(seq![c]);
    }
    match crate::text::utf8_to_string(bytes.as_slice()) {
        Some(s) => s,
        None => String::new(),
    }
}

/// The decimal text of a byte.
fn byte_text(b: u8) -> (r: String)
    ensures
        r@ == decimal(b as nat),
{
    crate::text::usize_to_string(b as usize)
}

/// The message for magic bytes `m` that are not `BLENDER`.
fn magic_message(m: &[u8; 7]) -> (r: String)
    ensures
        r@ == "Invalid magic bytes: ["@ + byte_list(m@) + "]"@,
{
    let mut s = String::from_str("Invalid magic bytes: [");
    let ghost head = s@;
    let mut i: usize = 0;
    while i < 7
        invariant
            i <= 7,
            s@ == head + byte_list(m@.subrange(0, i as int)),
        decreases 7 - i,
    {
        let ghost before = m@.subrange(0, i as int);
        assert(m@.subrange(0, i + 1).drop_last() =~= before);
        if i > 0 {
            s.append(", ");
        }
        let t = byte_text(m[i]);
        s.append(t.as_str());
        i = i + 1;
    }
    assert(m@.subrange(0, 7) =~= m@);
    s.append("]");
    s
}

/// The message for version digits that do not parse (see `version_message`).
fn version_text(v: &[u8]) -> (r: &'static str)
    ensures
        r@ == version_message(v@),
{
    match crate::text::utf8_to_string(v) {
        Some(_) => "Invalid version number",
        None => "Invalid version format",
    }
}

impl BlendFileHeader {
    /// Reads the header at the start of `data`, in order: `Err(None)` when the
    /// bytes run out first (see `header_short`), else the error with its
    /// kind (see `spec_read_header`) and message (see `header_message`).
    fn parse(data: &[u8]) -> (r: core::result::Result<Self, Option<Dot001Error>>)
        ensures
            match r {
                Ok(h) => !header_short(data@) && (spec_read_header(data@) matches Ok(f) && header_matches(h, f)),
                Err(None) => header_short(data@) && spec_read_header(data@) == Err::<
                    HeaderFields,
                    BlendFileErrorKind,
                >(BlendFileErrorKind::InvalidHeader),
                Err(Some(e)) => !header_short(data@) && (spec_read_header(data@) matches Err(k) && blend_error_with(
                    e,
                    k,
                    header_message(data@),
                )),
            },
    {
        if data.len() < 7 {
            return Err(None);
        }
        let magic: [u8; 7] = [data[0], data[1], data[2], data[3], data[4], data[5], data[6]];
        let is_magic = magic[0] == 66u8 && magic[1] == 76u8 && magic[2] == 69u8 && magic[3] == 78u8
            && magic[4] == 68u8 && magic[5] == 69u8 && magic[6] == 82u8;
        assert(magic@ =~= data@.subrange(0, 7));
        if !is_magic {
            assert(data@.subrange(0, 7) != magic_bytes()) by {
                if data@.subrange(0, 7) == magic_bytes() {
                    assert(data@.subrange(0, 7)[0] == 66u8);
                }
            }
            let m = magic_message(&magic);
            return Err(Some(Dot001Error::blend_file(m.as_str(), BlendFileErrorKind::InvalidMagic)));
        }
        assert(magic@ =~= magic_bytes());
        if data.len() < 8 {
            return Err(None);
        }
        let byte_7 = data[7];
        if byte_7 == 95u8 || byte_7 == 45u8 {
            if data.len() < 9 {
                return Err(None);
            }
            let pointer_size: u8 = if byte_7 == 95u8 { 4 } else { 8 };
            let is_little_endian = if data[8] == 118u8 {
                true
            } else if data[8] == 86u8 {
                false
            } else {
                let mut m = String::from_str("Invalid endian indicator: ");
                let c = latin1_text(data[8]);
                m.append(c.as_str());
                return Err(Some(Dot001Error::blend_file(m.as_str(), BlendFileErrorKind::InvalidHeader)));
            };
            if data.len() < 12 {
                return Err(None);
            }
            let vb = [data[9], data[10], data[11]];
            assert(vb@ =~= data@.subrange(9, 12));
            match parse_unsigned_bytes(vb.as_slice(), u32::MAX as u64) {
                Some(v) => Ok(BlendFileHeader {
                    magic,
                    file_format_version: 0,
                    pointer_size,
                    is_little_endian,
                    version: v as u32,
                }),
                None => Err(Some(Dot001Error::blend_file(version_text(vb.as_slice()), BlendFileErrorKind::InvalidHeader))),
            }
        } else {
            if data.len() < 9 {
                return Err(None);
            }
            let header_size = byte_7.wrapping_sub(48u8).wrapping_mul(10u8).wrapping_add(data[8].wrapping_sub(48u8));
            if header_size != 17u8 {
                let mut m = String::from_str("Unknown header size: ");
                let t = byte_text(header_size);
                m.append(t.as_str());
                return Err(Some(Dot001Error::blend_file(m.as_str(), BlendFileErrorKind::InvalidHeader)));
            }
            if data.len() < 10 {
                return Err(None);
            }
            if data[9] != 45u8 {
                return Err(Some(Dot001Error::blend_file("Expected '-' separator", BlendFileErrorKind::InvalidHeader)));
            }
            if data.len() < 12 {
                return Err(None);
            }
            let fb = [data[10], data[11]];
            assert(fb@ =~= data@.subrange(10, 12));
            if crate::text::utf8_to_string(fb.as_slice()).is_none() {
                proof {
                    if parse_unsigned(fb@, u32::MAX as int) is Some {
                        crate::text::lemma_parsed_valid_utf8(fb@, u32::MAX as int);
                    }
                }
                return Err(
                    Some(Dot001Error::blend_file("Invalid file format version", BlendFileErrorKind::InvalidHeader)),
                );
            }
            let file_format_version = match parse_unsigned_bytes(fb.as_slice(), u32::MAX as u64) {
                Some(f) => f,
                None => {
                    return Err(
                        Some(
                            Dot001Error::blend_file(
                                "Invalid file format version number",
                                BlendFileErrorKind::InvalidHeader,
                            ),
                        ),
                    );
                },
            };
            if file_format_version != 1 {
                let mut m = String::from_str("Unsupported version: ");
                let t = crate::text::u64_to_string(file_format_version);
                m.append(t.as_str());
                return Err(Some(Dot001Error::blend_file(m.as_str(), BlendFileErrorKind::UnsupportedVersion)));
            }
            if data.len() < 13 {
                return Err(None);
            }
            if data[12] != 118u8 {
                return Err(
                    Some(Dot001Error::blend_file("Expected 'v' endian indicator", BlendFileErrorKind::InvalidHeader)),
                );
            }
            if data.len() < 17 {
                return Err(None);
            }
            let vb = [data[13], data[14], data[15], data[16]];
            assert(vb@ =~= data@.subrange(13, 17));
            match parse_unsigned_bytes(vb.as_slice(), u32::MAX as u64) {
                Some(v) => Ok(BlendFileHeader {
                    magic,
                    file_format_version: 1,
                    pointer_size: 8,
                    is_little_endian: true,
                    version: v as u32,
                }),
                None => Err(Some(Dot001Error::blend_file(version_text(vb.as_slice()), BlendFileErrorKind::InvalidHeader))),
            }
        }
    }

    /// Reads the header at the start of `data` as a reader would: bytes that
    /// run out first give the I/O error `failed to fill whole buffer` (what an
    /// exact read that meets the end reports); otherwise see `parse`.
    pub fn read(data: &[u8]) -> (r: Result<Self>)
        ensures
            match r {
                Ok(h) => spec_read_header(data@) matches Ok(f) && header_matches(h, f),
                Err(e) => spec_read_header(data@) matches Err(k) && if header_short(data@) {
                    io_error_with(e, "failed to fill whole buffer"@)
                } else {
                    blend_error_with(e, k, header_message(data@))
                },
            },
    {
        match Self::parse(data) {
            Ok(h) => Ok(h),
            Err(Some(e)) => Err(e),
            Err(None) => Err(Dot001Error::from_io_description("failed to fill whole buffer")),
        }
    }

    /// Reads the header at the start of `data` held in memory: bytes that run
    /// out first give an `InvalidHeader` error, `Header is incomplete`;
    /// otherwise as `read`.
    pub fn read_from_slice(data: &[u8]) -> (r: Result<Self>)
        ensures
            match r {
                Ok(h) => spec_read_header(data@) matches Ok(f) && header_matches(h, f),
                Err(e) => spec_read_header(data@) matches Err(k) && is_blend_error(e, k) && blend_error_with(
                    e,
                    k,
                    if header_short(data@) {
                        "Header is incomplete"@
                    } else {
                        header_message(data@)
                    },
                ),
            },
    {
        match Self::parse(data) {
            Ok(h) => Ok(h),
            Err(Some(e)) => Err(e),
            Err(None) => Err(Dot001Error::blend_file("Header is incomplete", BlendFileErrorKind::InvalidHeader)),
        }
    }

    /// 12 bytes for legacy headers (format version 0), 17 otherwise.
    pub fn header_size(&self) -> (r: usize)
        ensures
            r == (if self.file_format_version == 0 { 12usize } else { 17usize }),
    {
        if self.file_format_version == 0 {
            12
        } else {
            17
        }
    }

    /// Whether this is a legacy header (format version 0).
    pub fn is_legacy(&self) -> (r: bool)
        ensures
            r == (self.file_format_version == 0),
    {
        self.file_format_version == 0
    }
}

} // verus!
