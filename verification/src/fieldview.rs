//! Reading values and named fields from the data of one block.
use vstd::prelude::*;
use crate::binary::{read_u16_at, read_u32_at, read_u64_at, spec_u16, spec_u32, spec_u64};
use crate::dna::{DnaCollection, DnaField, DnaFieldView, DnaStructView, DnaView, field_pos};
use crate::error::{BlendFileErrorKind, Dot001Error, Result, is_blend_error};

verus! {

/// A view of the data of one block, read with a file's catalogue, pointer size
/// and byte order.
pub struct FieldView<'data> {
    data: &'data [u8],
    dna: &'data DnaCollection,
    pointer_size: usize,
    is_little_endian: bool,
}

/// What a `FieldView` reads from.
pub struct FieldViewModel {
    pub data: Seq<u8>,
    pub dna: DnaView,
    pub dna_wf: bool,
    pub pointer_size: usize,
    pub is_little_endian: bool,
}

impl<'data> View for FieldView<'data> {
    type V = FieldViewModel;

    closed spec fn view(&self) -> FieldViewModel {
        FieldViewModel {
            data: self.data@,
            dna: self.dna@,
            dna_wf: self.dna.wf(),
            pointer_size: self.pointer_size,
            is_little_endian: self.is_little_endian,
        }
    }
}

/// The first index from `i` on of a struct whose type name is `name`, or -1.
pub open spec fn first_struct(structs: Seq<DnaStructView>, name: Seq<char>, i: int) -> int
    decreases structs.len() - i,
{
    if i < 0 || i >= structs.len() {
        -1
    } else if structs[i].typename == name {
        i
    } else {
        first_struct(structs, name, i + 1)
    }
}

/// `first_struct` is -1 or an index of a struct with that name.
pub proof fn lemma_first_struct_bounds(structs: Seq<DnaStructView>, name: Seq<char>, i: int)
    requires
        0 <= i,
    ensures
        first_struct(structs, name, i) == -1 || (i <= first_struct(structs, name, i) < structs.len()
            && structs[first_struct(structs, name, i)].typename == name),
    decreases structs.len() - i,
{
    if i < structs.len() && structs[i].typename != name {
        lemma_first_struct_bounds(structs, name, i + 1);
    }
}

/// The field named `field` of the first struct named `st`: the last field of
/// that name in it.
pub open spec fn spec_find_field(dna: DnaView, st: Seq<char>, field: Seq<char>) -> Option<DnaFieldView> {
    let si = first_struct(dna.structs, st, 0);
    if si < 0 {
        None
    } else {
        let fi = field_pos(dna.structs[si].fields, field);
        if fi < 0 {
            None
        } else {
            Some(dna.structs[si].fields[fi])
        }
    }
}

/// The value a pointer of `ptr` bytes has at `off`, when the pointer size is 4 or 8.
pub open spec fn spec_pointer(d: Seq<u8>, off: int, ptr: usize, le: bool) -> Option<u64> {
    if ptr == 4 {
        if off + 4 <= d.len() {
            Some(spec_u32(d, off, le) as u64)
        } else {
            None
        }
    } else if ptr == 8 {
        if off + 8 <= d.len() {
            Some(spec_u64(d, off, le) as u64)
        } else {
            None
        }
    } else {
        None
    }
}

/// Whether `e` is an `InvalidField` error.
pub open spec fn invalid_field(e: Dot001Error) -> bool {
    is_blend_error(e, BlendFileErrorKind::InvalidField)
}

/// Whether `e` is the `InvalidField` error with message `m` and no file or block.
pub open spec fn field_error_with(e: Dot001Error, m: Seq<char>) -> bool {
    e matches Dot001Error::BlendFile { message, kind, file_path: None, block_index: None } && kind
        == BlendFileErrorKind::InvalidField && message@ == m
}

/// `Offset <offset> out of bounds for <what> read`.
pub open spec fn oob_message(offset: int, what: Seq<char>) -> Seq<char> {
    "Offset "@ + crate::text::decimal(offset as nat) + " out of bounds for "@ + what + " read"@
}

/// The error of a read of `what` at `offset` past the end of the data.
fn out_of_bounds(offset: usize, what: &str) -> (e: Dot001Error)
    ensures
        field_error_with(e, oob_message(offset as int, what@)),
{
    let mut m = String::from_str("Offset ");
    let n = crate::text::usize_to_string(offset);
    m.append(n.as_str());
    m.append(" out of bounds for ");
    m.append(what);
    m.append(" read");
    Dot001Error::blend_file(m.as_str(), BlendFileErrorKind::InvalidField)
}

/// What reading the `u32` at `offset` of the view `m` gives: the value when
/// four bytes are there, else the out-of-bounds error of a `u32` read.
pub open spec fn u32_read(m: FieldViewModel, offset: int, r: Result<u32>) -> bool {
    match r {
        Ok(v) => offset + 4 <= m.data.len() && v == spec_u32(m.data, offset, m.is_little_endian),
        Err(e) => offset + 4 > m.data.len() && field_error_with(e, oob_message(offset, "u32"@)),
    }
}

/// What reading the `u64` at `offset` of the view `m` gives.
pub open spec fn u64_read(m: FieldViewModel, offset: int, r: Result<u64>) -> bool {
    match r {
        Ok(v) => offset + 8 <= m.data.len() && v == spec_u64(m.data, offset, m.is_little_endian),
        Err(e) => offset + 8 > m.data.len() && field_error_with(e, oob_message(offset, "u64"@)),
    }
}

/// What reading the `i32` at `offset` of the view `m` gives.
pub open spec fn i32_read(m: FieldViewModel, offset: int, r: Result<i32>) -> bool {
    match r {
        Ok(v) => offset + 4 <= m.data.len() && v == (spec_u32(m.data, offset, m.is_little_endian) as u32) as i32,
        Err(e) => offset + 4 > m.data.len() && field_error_with(e, oob_message(offset, "i32"@)),
    }
}

/// `Invalid pointer size: <size>`.
pub open spec fn pointer_size_message(size: usize) -> Seq<char> {
    "Invalid pointer size: "@ + crate::text::decimal(size as nat)
}

/// What reading the pointer at `offset` of the view `m` gives: with 4-byte
/// pointers the `u32` read, with 8-byte ones the `u64` read, else an error
/// naming the pointer size.
pub open spec fn pointer_read(m: FieldViewModel, offset: int, r: Result<u64>) -> bool {
    if m.pointer_size == 4 {
        match r {
            Ok(v) => offset + 4 <= m.data.len() && v == spec_u32(m.data, offset, m.is_little_endian),
            Err(e) => offset + 4 > m.data.len() && field_error_with(e, oob_message(offset, "u32"@)),
        }
    } else if m.pointer_size == 8 {
        u64_read(m, offset, r)
    } else {
        r matches Err(e) && field_error_with(e, pointer_size_message(m.pointer_size))
    }
}

/// `Range <offset>..<offset + len> out of bounds for data of length <n>`.
pub open spec fn range_message(offset: int, len: int, n: int) -> Seq<char> {
    "Range "@ + crate::text::decimal(offset as nat) + ".."@ + crate::text::decimal((offset + len) as nat)
        + " out of bounds for data of length "@ + crate::text::decimal(n as nat)
}

/// The message when a struct, or a field of it, is not in the catalogue.
pub open spec fn missing_field_message(dna: DnaView, st: Seq<char>, fld: Seq<char>) -> Seq<char> {
    if first_struct(dna.structs, st, 0) < 0 {
        "Struct '"@ + st + "' not found in DNA"@
    } else {
        "Field '"@ + fld + "' not found in struct '"@ + st + "'"@
    }
}

impl<'data> FieldView<'data> {
    /// A view of `data` read with `dna`, the pointer size and the byte order.
    pub fn new(data: &'data [u8], dna: &'data DnaCollection, pointer_size: usize, is_little_endian: bool) -> (r:
        Self)
        ensures
            r@ == (FieldViewModel { data: data@, dna: dna@, dna_wf: dna.wf(), pointer_size, is_little_endian }),
            r.dna_structs() == dna.structs@,
    {
        FieldView { data, dna, pointer_size, is_little_endian }
    }

    /// The data viewed.
    pub fn data(&self) -> (r: &[u8])
        ensures
            r@ == self@.data,
    {
        self.data
    }

    /// The length of the data.
    pub fn len(&self) -> (r: usize)
        ensures
            r == self@.data.len(),
    {
        self.data.len()
    }

    /// Whether the data is empty.
    pub fn is_empty(&self) -> (r: bool)
        ensures
            r == (self@.data.len() == 0),
    {
        self.data.len() == 0
    }

    /// The byte at `offset`.
    pub fn read_u8(&self, offset: usize) -> (r: Result<u8>)
        ensures
            match r {
                Ok(v) => offset < self@.data.len() && v == self@.data[offset as int],
                Err(e) => offset >= self@.data.len() && field_error_with(e, oob_message(offset as int, "u8"@)),
            },
    {
        if offset < self.data.len() {
            Ok(self.data[offset])
        } else {
            Err(out_of_bounds(offset, "u8"))
        }
    }

    /// The `u16` at `offset`, in the file's byte order.
    pub fn read_u16(&self, offset: usize) -> (r: Result<u16>)
        ensures
            match r {
                Ok(v) => offset + 2 <= self@.data.len() && v == spec_u16(
                    self@.data,
                    offset as int,
                    self@.is_little_endian,
                ),
                Err(e) => offset + 2 > self@.data.len() && field_error_with(e, oob_message(offset as int, "u16"@)),
            },
    {
        if offset > self.data.len() || self.data.len() - offset < 2 {
            return Err(out_of_bounds(offset, "u16"));
        }
        Ok(read_u16_at(self.data, offset, self.is_little_endian))
    }

    /// The `u32` at `offset`, in the file's byte order.
    pub fn read_u32(&self, offset: usize) -> (r: Result<u32>)
        ensures
            u32_read(self@, offset as int, r),
    {
        if offset > self.data.len() || self.data.len() - offset < 4 {
            return Err(out_of_bounds(offset, "u32"));
        }
        Ok(read_u32_at(self.data, offset, self.is_little_endian))
    }

    /// The `u64` at `offset`, in the file's byte order.
    pub fn read_u64(&self, offset: usize) -> (r: Result<u64>)
        ensures
            u64_read(self@, offset as int, r),
    {
        if offset > self.data.len() || self.data.len() - offset < 8 {
            return Err(out_of_bounds(offset, "u64"));
        }
        Ok(read_u64_at(self.data, offset, self.is_little_endian))
    }

    /// The `i32` at `offset`: the four bytes as two's complement.
    pub fn read_i32(&self, offset: usize) -> (r: Result<i32>)
        ensures
            i32_read(self@, offset as int, r),
    {
        if offset > self.data.len() || self.data.len() - offset < 4 {
            return Err(out_of_bounds(offset, "i32"));
        }
        let v = read_u32_at(self.data, offset, self.is_little_endian);
        Ok(v as i32)
    }

    /// The pointer at `offset`; the pointer size must be 4 or 8.
    pub fn read_pointer(&self, offset: usize) -> (r: Result<u64>)
        ensures
            match r {
                Ok(v) => spec_pointer(self@.data, offset as int, self@.pointer_size, self@.is_little_endian)
                    == Some(v),
                Err(e) => spec_pointer(self@.data, offset as int, self@.pointer_size, self@.is_little_endian)
                    is None && invalid_field(e),
            },
            pointer_read(self@, offset as int, r),
    {
        if self.pointer_size == 4 {
            match self.read_u32(offset) {
                Ok(v) => Ok(v as u64),
                Err(e) => Err(e),
            }
        } else if self.pointer_size == 8 {
            self.read_u64(offset)
        } else {
            let mut m = String::from_str("Invalid pointer size: ");
            let n = crate::text::usize_to_string(self.pointer_size);
            m.append(n.as_str());
            Err(Dot001Error::blend_file(m.as_str(), BlendFileErrorKind::InvalidField))
        }
    }

    /// The `len` bytes at `offset`.
    pub fn slice(&self, offset: usize, len: usize) -> (r: Result<&[u8]>)
        ensures
            match r {
                Ok(s) => offset + len <= self@.data.len() && s@ == self@.data.subrange(
                    offset as int,
                    offset + len,
                ),
                Err(e) => offset + len > self@.data.len() && field_error_with(
                    e,
                    range_message(offset as int, len as int, self@.data.len() as int),
                ),
            },
    {
        if offset > self.data.len() || self.data.len() - offset < len {
            let mut m = String::from_str("Range ");
            let a = crate::text::usize_to_string(offset);
            m.append(a.as_str());
            m.append("..");
            let b = crate::text::u128_to_string(offset as u128 + len as u128);
            m.append(b.as_str());
            m.append(" out of bounds for data of length ");
            let c = crate::text::usize_to_string(self.data.len());
            m.append(c.as_str());
            return Err(Dot001Error::blend_file(m.as_str(), BlendFileErrorKind::InvalidField));
        }
        Ok(crate::text::sub_slice(self.data, offset, offset + len))
    }

    /// The field that reading field `fld` of struct `st` finds: in the first
    /// struct named `st`, the field its name index gives for `fld` (see
    /// `DnaStruct::field_index`); `None` when there is no such struct or the
    /// index gives no field. For a well-formed catalogue, which every catalogue
    /// this library reads is, this is `spec_find_field` (see
    /// `lemma_found_field_wf`).
    pub open spec fn found_field(&self, st: Seq<char>, fld: Seq<char>) -> Option<DnaFieldView> {
        let si = first_struct(self@.dna.structs, st, 0);
        if si < 0 {
            None
        } else {
            let fi = self.dna_structs()[si].field_index(fld);
            if fi < 0 {
                None
            } else {
                Some(self.dna_structs()[si]@.fields[fi])
            }
        }
    }

    /// The structs of the catalogue viewed, with their name indexes.
    pub closed spec fn dna_structs(&self) -> Seq<crate::dna::DnaStruct> {
        self.dna.structs@
    }

    /// With a well-formed catalogue, the field found is the last field of that
    /// name in the first struct of that name.
    pub proof fn lemma_found_field_wf(&self, st: Seq<char>, fld: Seq<char>)
        requires
            self@.dna_wf,
        ensures
            self.found_field(st, fld) == spec_find_field(self@.dna, st, fld),
    {
        let si = first_struct(self.dna@.structs, st, 0);
        lemma_first_struct_bounds(self.dna@.structs, st, 0);
        if si >= 0 {
            self.dna.lemma_struct_wf(si);
            let ds = self.dna.structs@[si];
            assert(self.dna@.structs[si] == ds@);
            crate::dna::lemma_field_pos_bounds(ds@.fields, fld);
            assert(ds.fields@.len() == ds@.fields.len());
            if ds.fields_by_name@.contains_key(fld) {
                assert(ds.fields_by_name@[fld] == field_pos(ds@.fields, fld));
            }
        }
    }

    /// The definition of field `field_name` of the first struct named
    /// `struct_name` (see `found_field`); when there is none, an `InvalidField`
    /// error naming the missing struct or field (see `missing_field_message`).
    pub fn find_field(&self, struct_name: &str, field_name: &str) -> (r: Result<&DnaField>)
        ensures
            match self.found_field(struct_name@, field_name@) {
                Some(fd) => r matches Ok(f) && f@ == fd,
                None => r matches Err(e) && field_error_with(
                    e,
                    missing_field_message(self@.dna, struct_name@, field_name@),
                ),
            },
            self@.dna_wf ==> match r {
                Ok(f) => spec_find_field(self@.dna, struct_name@, field_name@) == Some(f@),
                Err(e) => spec_find_field(self@.dna, struct_name@, field_name@) is None && invalid_field(e),
            },
    {
        let structs = &self.dna.structs;
        let mut i: usize = 0;
        while i < structs.len()
            invariant
                i <= structs.len(),
                structs == &self.dna.structs,
                first_struct(self.dna@.structs, struct_name@, 0) == first_struct(
                    self.dna@.structs,
                    struct_name@,
                    i as int,
                ),
            decreases structs.len() - i,
        {
            if crate::text::str_eq(structs[i].typename.as_str(), struct_name) {
                assert(self.dna@.structs[i as int].typename == struct_name@);
                proof {
                    if self.dna.wf() {
                        self.dna.lemma_struct_wf(i as int);
                    }
                    assert(self.dna@.structs[i as int] == self.dna.structs@[i as int]@);
                }
                return match structs[i].find_field(field_name) {
                    Some(f) => Ok(f),
                    None => {
                        let mut m = String::from_str("Field '");
                        m.append(field_name);
                        m.append("' not found in struct '");
                        m.append(struct_name);
                        m.append("'");
                        Err(Dot001Error::blend_file(m.as_str(), BlendFileErrorKind::InvalidField))
                    },
                };
            }
            i = i + 1;
        }
        let mut m = String::from_str("Struct '");
        m.append(struct_name);
        m.append("' not found in DNA");
        Err(Dot001Error::blend_file(m.as_str(), BlendFileErrorKind::InvalidField))
    }

    /// The `u32` field `field_name` of struct `struct_name`: the `u32` read at
    /// the offset of the field found (see `found_field` and `u32_read`), or the
    /// error of `find_field`.
    pub fn read_field_u32(&self, struct_name: &str, field_name: &str) -> (r: Result<u32>)
        ensures
            match self.found_field(struct_name@, field_name@) {
                Some(f) => u32_read(self@, f.offset as int, r),
                None => r matches Err(e) && field_error_with(
                    e,
                    missing_field_message(self@.dna, struct_name@, field_name@),
                ),
            },
            self@.dna_wf ==> match r {
                Ok(v) => spec_find_field(self@.dna, struct_name@, field_name@) matches Some(f) && f.offset + 4
                    <= self@.data.len() && v == spec_u32(self@.data, f.offset as int, self@.is_little_endian),
                Err(e) => invalid_field(e) && (spec_find_field(self@.dna, struct_name@, field_name@) matches Some(
                    f,
                ) ==> f.offset + 4 > self@.data.len()),
            },
    {
        match self.find_field(struct_name, field_name) {
            Ok(f) => self.read_u32(f.offset),
            Err(e) => Err(e),
        }
    }

    /// The pointer field `field_name` of struct `struct_name`: the pointer read
    /// at the offset of the field found (see `pointer_read`), or the error of
    /// `find_field`.
    pub fn read_field_pointer(&self, struct_name: &str, field_name: &str) -> (r: Result<u64>)
        ensures
            match self.found_field(struct_name@, field_name@) {
                Some(f) => pointer_read(self@, f.offset as int, r),
                None => r matches Err(e) && field_error_with(
                    e,
                    missing_field_message(self@.dna, struct_name@, field_name@),
                ),
            },
            self@.dna_wf ==> match r {
                Ok(v) => spec_find_field(self@.dna, struct_name@, field_name@) matches Some(f) && spec_pointer(
                    self@.data,
                    f.offset as int,
                    self@.pointer_size,
                    self@.is_little_endian,
                ) == Some(v),
                Err(e) => invalid_field(e) && (spec_find_field(self@.dna, struct_name@, field_name@) matches Some(
                    f,
                ) ==> spec_pointer(self@.data, f.offset as int, self@.pointer_size, self@.is_little_endian)
                    is None),
            },
    {
        match self.find_field(struct_name, field_name) {
            Ok(f) => self.read_pointer(f.offset),
            Err(e) => Err(e),
        }
    }

    /// The `i32` field `field_name` of struct `struct_name`: the `i32` read at
    /// the offset of the field found (see `i32_read`), or the error of `find_field`.
    pub fn read_field_i32(&self, struct_name: &str, field_name: &str) -> (r: Result<i32>)
        ensures
            match self.found_field(struct_name@, field_name@) {
                Some(f) => i32_read(self@, f.offset as int, r),
                None => r matches Err(e) && field_error_with(
                    e,
                    missing_field_message(self@.dna, struct_name@, field_name@),
                ),
            },
            self@.dna_wf ==> match r {
                Ok(v) => spec_find_field(self@.dna, struct_name@, field_name@) matches Some(f) && f.offset + 4
                    <= self@.data.len() && v == (spec_u32(
                    self@.data,
                    f.offset as int,
                    self@.is_little_endian,
                ) as u32) as i32,
                Err(e) => invalid_field(e) && (spec_find_field(self@.dna, struct_name@, field_name@) matches Some(
                    f,
                ) ==> f.offset + 4 > self@.data.len()),
            },
    {
        match self.find_field(struct_name, field_name) {
            Ok(f) => self.read_i32(f.offset),
            Err(e) => Err(e),
        }
    }

    /// The bytes of field `field_name` of struct `struct_name`: the slice at
    /// the offset and of the size of the field found, or the error of `find_field`.
    pub fn read_field_bytes(&self, struct_name: &str, field_name: &str) -> (r: Result<&[u8]>)
        ensures
            match self.found_field(struct_name@, field_name@) {
                Some(f) => match r {
                    Ok(b) => f.offset + f.size <= self@.data.len() && b@ == self@.data.subrange(
                        f.offset as int,
                        f.offset + f.size,
                    ),
                    Err(e) => f.offset + f.size > self@.data.len() && field_error_with(
                        e,
                        range_message(f.offset as int, f.size as int, self@.data.len() as int),
                    ),
                },
                None => r matches Err(e) && field_error_with(
                    e,
                    missing_field_message(self@.dna, struct_name@, field_name@),
                ),
            },
            self@.dna_wf ==> match r {
                Ok(s) => spec_find_field(self@.dna, struct_name@, field_name@) matches Some(f) && f.offset
                    + f.size <= self@.data.len() && s@ == self@.data.subrange(
                    f.offset as int,
                    f.offset + f.size,
                ),
                Err(e) => invalid_field(e) && (spec_find_field(self@.dna, struct_name@, field_name@) matches Some(
                    f,
                ) ==> f.offset + f.size > self@.data.len()),
            },
    {
        match self.find_field(struct_name, field_name) {
            Ok(f) => self.slice(f.offset, f.size),
            Err(e) => Err(e),
        }
    }
}

/// The bytes of `b` before its first NUL byte.
pub open spec fn until_nul(b: Seq<u8>) -> Seq<u8> {
    b.subrange(0, crate::dna::first_of(b, 0, 0, 0))
}

impl<'data> FieldView<'data> {
    /// The text of field `field_name` of struct `struct_name`: its bytes up to
    /// the first NUL, with invalid UTF-8 replaced.
    pub fn read_field_string(&self, struct_name: &str, field_name: &str) -> (r: Result<String>)
        ensures
            self@.dna_wf ==> match r {
                Ok(s) => spec_find_field(self@.dna, struct_name@, field_name@) matches Some(f) && f.offset
                    + f.size <= self@.data.len() && s@ == crate::text::lossy_utf8(
                    until_nul(self@.data.subrange(f.offset as int, f.offset + f.size)),
                ),
                Err(e) => invalid_field(e) && (spec_find_field(self@.dna, struct_name@, field_name@) matches Some(
                    f,
                ) ==> f.offset + f.size > self@.data.len()),
            },
    {
        match self.read_field_bytes(struct_name, field_name) {
            Ok(b) => {
                let z = crate::dna::find_first(b, 0, 0u8, 0u8);
                Ok(crate::text::utf8_lossy(crate::text::sub_slice(b, 0, z)))
            },
            Err(e) => Err(e),
        }
    }
}

/// Making a `FieldView` of a data source.
pub trait FieldViewExt<'data> {
    /// A view of this data read with `dna`, the pointer size and the byte order.
    fn create_field_view(&'data self, dna: &'data DnaCollection, pointer_size: usize, is_little_endian: bool) -> (r:
        FieldView<'data>);
}

impl<'data> FieldViewExt<'data> for [u8] {
    /// A view of these bytes (see `FieldView::new`).
    fn create_field_view(&'data self, dna: &'data DnaCollection, pointer_size: usize, is_little_endian: bool) -> (r:
        FieldView<'data>)
        ensures
            r@ == (FieldViewModel { data: self@, dna: dna@, dna_wf: dna.wf(), pointer_size, is_little_endian }),
    {
        FieldView::new(self, dna, pointer_size, is_little_endian)
    }
}

} // verus!