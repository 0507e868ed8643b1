//! A `.blend` file held in memory: its header, its blocks, its SDNA catalogue and
//! an index of the blocks by the address they had when the file was saved.
use vstd::prelude::*;
use std::collections::HashMap;
use crate::binary::{le_bytes_u32, push_u32_le};
use crate::block::{BlendFileBlock, code_eq};
use crate::dna::{DnaCollection, DnaView};
use crate::fieldview::{FieldView, FieldViewModel};
use crate::error::{BlendFileErrorKind, Dot001Error, Result, blend_error_with, is_blend_error};
use crate::header::{BlendFileHeader, HeaderFields, header_matches, header_message, header_short, spec_read_header};
use crate::scan::{DEFAULT_MAX_BLOCK_SIZE, scan_blocks, scan_message, spec_scan};
use crate::sdna::{DnaFail, dna_error_is, fail_matches, spec_read_dna};

verus! {

broadcast use vstd::std_specs::hash::group_hash_axioms;

/// The magic bytes of a Zstandard frame.
pub open spec fn zstd_magic() -> Seq<u8> {
    seq![0x28u8, 0xB5u8, 0x2Fu8, 0xFDu8]
}

/// The code `DNA1` of the block that holds the SDNA catalogue.
pub open spec fn dna1_code() -> Seq<u8> {
    seq![68u8, 78u8, 65u8, 49u8]
}

/// The first index from `i` on of a block with the given code, or -1.
pub open spec fn first_with_code(blocks: Seq<BlendFileBlock>, code: Seq<u8>, i: int) -> int
    decreases blocks.len() - i,
{
    if i < 0 || i >= blocks.len() {
        -1
    } else if blocks[i].header.code@ == code {
        i
    } else {
        first_with_code(blocks, code, i + 1)
    }
}

/// The bytes of the data of block `b`.
pub open spec fn block_bytes(d: Seq<u8>, b: BlendFileBlock) -> Seq<u8> {
    d.subrange(b.data_offset as int, b.data_offset + b.header.size)
}

/// Whether every block's data lies within `len` bytes.
pub open spec fn blocks_in_bounds(blocks: Seq<BlendFileBlock>, len: int) -> bool {
    forall|i: int| 0 <= i < blocks.len() ==> #[trigger] blocks[i].data_offset + blocks[i].header.size <= len
}

/// The length of a header with these fields.
pub open spec fn header_len(f: HeaderFields) -> int {
    if f.file_format_version == 0 {
        12
    } else {
        17
    }
}

/// What opening the bytes `d` gives: the header fields, the blocks up to `ENDB`
/// and the catalogue read from the first `DNA1` block; or why it fails.
///
/// Zstandard data is refused (`UnsupportedCompression`), as is data shorter
/// than 12 bytes (`InvalidHeader`); a file without a `DNA1` block is `NoDnaFound`.
#[verifier::opaque]
pub open spec fn spec_open(d: Seq<u8>) -> core::result::Result<
    (HeaderFields, Seq<BlendFileBlock>, DnaView),
    DnaFail,
> {
    if d.len() >= 4 && d.subrange(0, 4) == zstd_magic() {
        Err(DnaFail::Kind(BlendFileErrorKind::UnsupportedCompression))
    } else if d.len() < 12 {
        Err(DnaFail::Kind(BlendFileErrorKind::InvalidHeader))
    } else {
        match spec_read_header(d) {
            Err(k) => Err(DnaFail::Kind(k)),
            Ok(f) => match spec_scan(d, header_len(f), f.file_format_version, f.pointer_size, f.is_little_endian) {
                Err(k) => Err(DnaFail::Kind(k)),
                Ok(blocks) => {
                    let di = first_with_code(blocks, dna1_code(), 0);
                    if di < 0 {
                        Err(DnaFail::Kind(BlendFileErrorKind::NoDnaFound))
                    } else {
                        match spec_read_dna(block_bytes(d, blocks[di]), f.pointer_size, f.is_little_endian) {
                            Err(e) => Err(e),
                            Ok(dna) => Ok((f, blocks, dna)),
                        }
                    }
                },
            },
        }
    }
}

/// Whether `e` is the error that opening the bytes `d` fails with (see
/// `spec_open`), down to its message: the refusal of Zstandard data or of data
/// too short for a header, the header's error (see `header_message`), the
/// blocks' error (see `scan_message`), a missing `DNA1` block, or the
/// catalogue's error (see `dna_error_is`).
pub open spec fn open_error_is(d: Seq<u8>, e: Dot001Error) -> bool {
    if d.len() >= 4 && d.subrange(0, 4) == zstd_magic() {
        blend_error_with(
            e,
            BlendFileErrorKind::UnsupportedCompression,
            "Zstandard-compressed blend data requires decompression first."@,
        )
    } else if d.len() < 12 {
        blend_error_with(e, BlendFileErrorKind::InvalidHeader, "File too small to contain header"@)
    } else {
        match spec_read_header(d) {
            Err(k) => blend_error_with(
                e,
                k,
                if header_short(d) {
                    "Header is incomplete"@
                } else {
                    header_message(d)
                },
            ),
            Ok(f) => match spec_scan(d, header_len(f), f.file_format_version, f.pointer_size, f.is_little_endian) {
                Err(k) => blend_error_with(
                    e,
                    k,
                    scan_message(d, header_len(f), f.file_format_version, f.pointer_size, f.is_little_endian),
                ),
                Ok(blocks) => {
                    let di = first_with_code(blocks, dna1_code(), 0);
                    if di < 0 {
                        blend_error_with(e, BlendFileErrorKind::NoDnaFound, "DNA block not found"@)
                    } else {
                        match spec_read_dna(block_bytes(d, blocks[di]), f.pointer_size, f.is_little_endian) {
                            Err(fl) => dna_error_is(e, fl),
                            Ok(_) => false,
                        }
                    }
                },
            },
        }
    }
}

/// Whether two errors are the same: the same variant with the same kind,
/// message and context.
pub open spec fn same_error(a: Dot001Error, b: Dot001Error) -> bool {
    match (a, b) {
        (
            Dot001Error::BlendFile { message: m1, kind: k1, file_path: p1, block_index: i1 },
            Dot001Error::BlendFile { message: m2, kind: k2, file_path: p2, block_index: i2 },
        ) => m1@ == m2@ && k1 == k2 && p1 is None && p2 is None && i1 == i2,
        (
            Dot001Error::Io { message: m1, file_path: p1, source_message: s1 },
            Dot001Error::Io { message: m2, file_path: p2, source_message: s2 },
        ) => m1@ == m2@ && p1 is None && p2 is None && (match (s1, s2) {
            (Some(x1), Some(x2)) => x1@ == x2@,
            _ => false,
        }),
        _ => false,
    }
}

/// Opening the same bytes twice fails, if it fails, with the same error.
pub proof fn lemma_open_error_unique(d: Seq<u8>, e1: Dot001Error, e2: Dot001Error)
    requires
        open_error_is(d, e1),
        open_error_is(d, e2),
    ensures
        same_error(e1, e2),
{
}

/// The last index of a block saved at address `a`, or -1.
pub open spec fn addr_pos(blocks: Seq<BlendFileBlock>, a: u64) -> int
    decreases blocks.len(),
{
    if blocks.len() == 0 {
        -1
    } else if blocks.last().header.old_address == a {
        blocks.len() - 1
    } else {
        addr_pos(blocks.drop_last(), a)
    }
}

/// `addr_pos` is -1 or the index of a block saved at that address.
pub proof fn lemma_addr_pos_bounds(blocks: Seq<BlendFileBlock>, a: u64)
    ensures
        -1 <= addr_pos(blocks, a) < blocks.len(),
        addr_pos(blocks, a) >= 0 ==> blocks[addr_pos(blocks, a)].header.old_address == a,
    decreases blocks.len(),
{
    if blocks.len() > 0 && blocks.last().header.old_address != a {
        lemma_addr_pos_bounds(blocks.drop_last(), a);
    }
}

/// Whether `m` maps each address to the last block saved there.
pub open spec fn addr_index_matches(m: Map<u64, usize>, blocks: Seq<BlendFileBlock>) -> bool {
    &&& forall|a: u64| #[trigger] m.contains_key(a) <==> addr_pos(blocks, a) >= 0
    &&& forall|a: u64| #[trigger] m.contains_key(a) ==> m[a] == addr_pos(blocks, a)
}

/// The indices below `n` of the blocks with the given code, in order.
pub open spec fn indices_with_code(blocks: Seq<BlendFileBlock>, code: Seq<u8>, n: int) -> Seq<usize>
    decreases n,
{
    if n <= 0 {
        Seq::empty()
    } else if blocks[n - 1].header.code@ == code {
        indices_with_code(blocks, code, n - 1).push((n - 1) as usize)
    } else {
        indices_with_code(blocks, code, n - 1)
    }
}

/// The bytes hashed for a block: its SDNA index, count and size as
/// little-endian `u32`s, its code, then its data.
pub open spec fn hash_input(b: BlendFileBlock, data: Seq<u8>) -> Seq<u8> {
    le_bytes_u32(b.header.sdna_index as int) + le_bytes_u32(b.header.count as int) + le_bytes_u32(
        b.header.size as int,
    ) + b.header.code@ + data
}

/// The 64-bit xxHash of `bytes` with the given seed.
pub uninterp spec fn xxh64(seed: u64, bytes: Seq<u8>) -> u64;

/// Hashes `bytes` with 64-bit xxHash (`twox_hash::XxHash64::oneshot`).
///
/// The result is named by `xxh64`; the hash algorithm itself is not restated.
#[verifier::external_body]
fn xxhash64(seed: u64, bytes: &[u8]) -> (r: u64)
    ensures
        r == xxh64(seed, bytes@),
{
    twox_hash::XxHash64::oneshot(seed, bytes)
}

/// What a `BlendFile` holds.
pub struct BlendFileView {
    pub data: Seq<u8>,
    pub header: BlendFileHeader,
    pub blocks: Seq<BlendFileBlock>,
    pub dna: DnaView,
}

/// A parsed `.blend` file held in memory.
pub struct BlendFile {
    data: Vec<u8>,
    header: BlendFileHeader,
    blocks: Vec<BlendFileBlock>,
    dna: Option<DnaCollection>,
    address_index: HashMap<u64, usize>,
}

impl View for BlendFile {
    type V = BlendFileView;

    closed spec fn view(&self) -> BlendFileView {
        BlendFileView { data: self.data@, header: self.header, blocks: self.blocks@, dna: self.dna->Some_0@ }
    }
}

/// Blocks read by `spec_scan` lie within the data.
pub proof fn lemma_scan_bounds(d: Seq<u8>, off: int, fmt: u32, ptr: u8, le: bool)
    requires
        spec_scan(d, off, fmt, ptr, le) is Ok,
    ensures
        blocks_in_bounds(spec_scan(d, off, fmt, ptr, le)->Ok_0, d.len() as int),
    decreases d.len() - off,
{
    let hs = crate::scan::spec_block_header_size(fmt, ptr);
    let bh = crate::scan::spec_block_header(d, off, fmt, ptr, le);
    let data_off = off + hs;
    if bh.code@ != crate::scan::endb() {
        let next = data_off + bh.size;
        lemma_scan_bounds(d, next, fmt, ptr, le);
        let rest = spec_scan(d, next, fmt, ptr, le)->Ok_0;
        let s = spec_scan(d, off, fmt, ptr, le)->Ok_0;
        assert forall|i: int| 0 <= i < s.len() implies #[trigger] s[i].data_offset + s[i].header.size <= d.len() by {
            if i > 0 {
                assert(s[i] == rest[i - 1]);
            }
        }
    }
}

/// Indexes the blocks by the address they were saved at, the last block winning.
fn build_address_index(blocks: &Vec<BlendFileBlock>) -> (r: HashMap<u64, usize>)
    ensures
        addr_index_matches(r@, blocks@),
{
    let mut m: HashMap<u64, usize> = HashMap::new();
    let mut i: usize = 0;
    assert(blocks@.subrange(0, 0) =~= Seq::<BlendFileBlock>::empty());
    while i < blocks.len()
        invariant
            i <= blocks.len(),
            addr_index_matches(m@, blocks@.subrange(0, i as int)),
        decreases blocks.len() - i,
    {
        let ghost pre = blocks@.subrange(0, i as int);
        let ghost nxt = blocks@.subrange(0, i + 1);
        assert(nxt.drop_last() =~= pre);
        m.insert(blocks[i].header.old_address, i);
        i = i + 1;
    }
    assert(blocks@.subrange(0, blocks.len() as int) =~= blocks@);
    m
}

/// The first index of a block with code `DNA1`.
fn find_dna_block(blocks: &Vec<BlendFileBlock>) -> (r: Option<usize>)
    ensures
        match r {
            Some(i) => i < blocks.len() && first_with_code(blocks@, dna1_code(), 0) == i,
            None => first_with_code(blocks@, dna1_code(), 0) == -1,
        },
{
    let code: [u8; 4] = [68u8, 78u8, 65u8, 49u8];
    assert(code@ =~= dna1_code());
    let mut i: usize = 0;
    while i < blocks.len()
        invariant
            i <= blocks.len(),
            code@ == dna1_code(),
            first_with_code(blocks@, dna1_code(), 0) == first_with_code(blocks@, dna1_code(), i as int),
        decreases blocks.len() - i,
    {
        if code_eq(&blocks[i].header.code, &code) {
            return Some(i);
        }
        i = i + 1;
    }
    None
}

/// The error that reports `f`.
fn open_error(f: DnaFail) -> (e: Dot001Error)
    ensures
        fail_matches(e, f),
{
    match f {
        DnaFail::Eof => Dot001Error::from_io_description("failed to fill whole buffer"),
        DnaFail::Kind(k) => Dot001Error::blend_file("Cannot open blend data", k),
    }
}

impl BlendFile {
    #[verifier::type_invariant]
    spec fn inv(self) -> bool {
        &&& blocks_in_bounds(self.blocks@, self.data@.len() as int)
        &&& self.dna matches Some(c) && c.wf()
        &&& addr_index_matches(self.address_index@, self.blocks@)
    }

    /// Opens a file from its bytes (see `spec_open`).
    pub fn new(data: Vec<u8>) -> (r: Result<Self>)
        ensures
            match r {
                Ok(f) => opens_to(data@, f@),
                Err(e) => spec_open(data@) matches Err(k) && fail_matches(e, k) && open_error_is(data@, e),
            },
    {
        proof {
            reveal(spec_open);
        }
        if data.len() >= 4 && data[0] == 0x28u8 && data[1] == 0xB5u8 && data[2] == 0x2Fu8 && data[3] == 0xFDu8 {
            assert(data@.subrange(0, 4) =~= zstd_magic());
            return Err(
                Dot001Error::blend_file(
                    "Zstandard-compressed blend data requires decompression first.",
                    BlendFileErrorKind::UnsupportedCompression,
                ),
            );
        }
        assert(data@.len() >= 4 ==> data@.subrange(0, 4) != zstd_magic()) by {
            if data@.len() >= 4 && data@.subrange(0, 4) == zstd_magic() {
                assert(data@.subrange(0, 4)[0] == data@[0]);
                assert(data@.subrange(0, 4)[1] == data@[1]);
                assert(data@.subrange(0, 4)[2] == data@[2]);
                assert(data@.subrange(0, 4)[3] == data@[3]);
            }
        }
        if data.len() < 12 {
            return Err(Dot001Error::blend_file("File too small to contain header", BlendFileErrorKind::InvalidHeader));
        }
        let header = match BlendFileHeader::read_from_slice(data.as_slice()) {
            Ok(h) => h,
            Err(e) => {
                return Err(e);
            },
        };
        let hs = header.header_size();
        let blocks = match scan_blocks(data.as_slice(), hs, &header) {
            Ok(b) => b,
            Err(e) => {
                return Err(e);
            },
        };
        proof {
            lemma_scan_bounds(
                data@,
                hs as int,
                header.file_format_version,
                header.pointer_size,
                header.is_little_endian,
            );
        }
        let di = match find_dna_block(&blocks) {
            Some(i) => i,
            None => {
                return Err(Dot001Error::blend_file("DNA block not found", BlendFileErrorKind::NoDnaFound));
            },
        };
        let start = blocks[di].data_offset as usize;
        let end = start + blocks[di].header.size as usize;
        let dna = match DnaCollection::read(crate::text::sub_slice(data.as_slice(), start, end), &header) {
            Ok(c) => c,
            Err(e) => {
                return Err(e);
            },
        };
        let address_index = build_address_index(&blocks);
        Ok(BlendFile { data, header, blocks, dna: Some(dna), address_index })
    }

    /// The largest block size accepted (100 MB).
    pub fn max_block_size(&self) -> (r: u32)
        ensures
            r == DEFAULT_MAX_BLOCK_SIZE,
    {
        DEFAULT_MAX_BLOCK_SIZE
    }

    /// The file header.
    pub fn header(&self) -> (r: &BlendFileHeader)
        ensures
            *r == self@.header,
    {
        &self.header
    }

    /// The number of blocks before `ENDB`.
    pub fn blocks_len(&self) -> (r: usize)
        ensures
            r == self@.blocks.len(),
    {
        self.blocks.len()
    }

    /// The block at `index`.
    pub fn get_block(&self, index: usize) -> (r: Option<&BlendFileBlock>)
        ensures
            match r {
                Some(b) => index < self@.blocks.len() && *b == self@.blocks[index as int],
                None => index >= self@.blocks.len(),
            },
    {
        if index < self.blocks.len() {
            Some(&self.blocks[index])
        } else {
            None
        }
    }

    /// The indices of the blocks with the given code, in file order.
    pub fn blocks_by_type(&self, block_type: &[u8; 4]) -> (r: Vec<usize>)
        ensures
            r@ == indices_with_code(self@.blocks, block_type@, self@.blocks.len() as int),
    {
        let mut out: Vec<usize> = Vec::new();
        let mut i: usize = 0;
        while i < self.blocks.len()
            invariant
                i <= self.blocks.len(),
                out@ == indices_with_code(self.blocks@, block_type@, i as int),
            decreases self.blocks.len() - i,
        {
            if code_eq(&self.blocks[i].header.code, block_type) {
                out.push(i);
            }
            i = i + 1;
        }
        out
    }

    /// The indices of the blocks with the given code, in file order.
    pub fn blocks_by_type_iter(&self, code: &[u8; 4]) -> (r: Vec<usize>)
        ensures
            r@ == indices_with_code(self@.blocks, code@, self@.blocks.len() as int),
    {
        self.blocks_by_type(code)
    }

    /// The last block saved at `address`.
    pub fn find_block_by_address(&self, address: u64) -> (r: Option<usize>)
        ensures
            match r {
                Some(i) => addr_pos(self@.blocks, address) == i,
                None => addr_pos(self@.blocks, address) == -1,
            },
    {
        proof {
            use_type_invariant(self);
        }
        match self.address_index.get(&address) {
            Some(i) => {
                Some(*i)
            },
            None => {
                proof {
                    lemma_addr_pos_bounds(self.blocks@, address);
                }
                None
            },
        }
    }

    /// The last block saved at `address`.
    pub fn address_to_block_index(&self, address: u64) -> (r: Option<usize>)
        ensures
            match r {
                Some(i) => addr_pos(self@.blocks, address) == i,
                None => addr_pos(self@.blocks, address) == -1,
            },
    {
        self.find_block_by_address(address)
    }

    /// The SDNA catalogue; every open file has one.
    pub fn dna(&self) -> (r: Result<&DnaCollection>)
        ensures
            r matches Ok(c) && c@ == self@.dna && c.wf(),
    {
        proof {
            use_type_invariant(self);
        }
        match &self.dna {
            Some(c) => Ok(c),
            None => Err(Dot001Error::blend_file("DNA block not found", BlendFileErrorKind::NoDnaFound)),
        }
    }

    /// The data of block `block_index`, borrowed.
    pub fn read_block_slice(&self, block_index: usize) -> (r: Result<&[u8]>)
        ensures
            match r {
                Ok(s) => block_index < self@.blocks.len() && s@ == block_bytes(
                    self@.data,
                    self@.blocks[block_index as int],
                ),
                Err(e) => block_index >= self@.blocks.len() && is_blend_error(
                    e,
                    BlendFileErrorKind::InvalidBlockIndex,
                ),
            },
    {
        proof {
            use_type_invariant(self);
        }
        if block_index >= self.blocks.len() {
            return Err(Dot001Error::blend_file("Invalid block index", BlendFileErrorKind::InvalidBlockIndex));
        }
        let b = &self.blocks[block_index];
        assert(b.data_offset + b.header.size <= self.data@.len());
        assert(self.data@.len() == self.data.len());
        let start = b.data_offset as usize;
        let end = start + b.header.size as usize;
        Ok(crate::text::sub_slice(self.data.as_slice(), start, end))
    }

    /// The data of block `block_index`, copied.
    pub fn read_block_data(&self, block_index: usize) -> (r: Result<Vec<u8>>)
        ensures
            match r {
                Ok(v) => block_index < self@.blocks.len() && v@ == block_bytes(
                    self@.data,
                    self@.blocks[block_index as int],
                ),
                Err(e) => block_index >= self@.blocks.len() && is_blend_error(
                    e,
                    BlendFileErrorKind::InvalidBlockIndex,
                ),
            },
    {
        match self.read_block_slice(block_index) {
            Ok(s) => Ok(vstd::slice::slice_to_vec(s)),
            Err(e) => Err(e),
        }
    }

    /// A content hash of block `block_index`: the 64-bit xxHash, seed 0, of its
    /// SDNA index, count and size, its code and its data (see `hash_input`).
    pub fn block_content_hash(&self, block_index: usize) -> (r: Result<u64>)
        ensures
            match r {
                Ok(h) => block_index < self@.blocks.len() && h == xxh64(
                    0,
                    hash_input(
                        self@.blocks[block_index as int],
                        block_bytes(self@.data, self@.blocks[block_index as int]),
                    ),
                ),
                Err(e) => block_index >= self@.blocks.len() && is_blend_error(
                    e,
                    BlendFileErrorKind::InvalidBlockIndex,
                ),
            },
    {
        let data = match self.read_block_slice(block_index) {
            Ok(s) => s,
            Err(e) => {
                return Err(e);
            },
        };
        let b = &self.blocks[block_index];
        let mut input: Vec<u8> = Vec::new();
        push_u32_le(&mut input, b.header.sdna_index);
        push_u32_le(&mut input, b.header.count);
        push_u32_le(&mut input, b.header.size);
        let mut k: usize = 0;
        let ghost pre = input@;
        while k < 4
            invariant
                k <= 4,
                input@ == pre + b.header.code@.subrange(0, k as int),
            decreases 4 - k,
        {
            input.push(b.header.code[k]);
            assert(b.header.code@.subrange(0, k + 1) =~= b.header.code@.subrange(0, k as int).push(b.header.code@[k as int]));
            k = k + 1;
        }
        assert(b.header.code@.subrange(0, 4) =~= b.header.code@);
        let ghost pre2 = input@;
        let mut j: usize = 0;
        while j < data.len()
            invariant
                j <= data.len(),
                input@ == pre2 + data@.subrange(0, j as int),
            decreases data.len() - j,
        {
            input.push(data[j]);
            assert(data@.subrange(0, j + 1) =~= data@.subrange(0, j as int).push(data@[j as int]));
            j = j + 1;
        }
        assert(data@.subrange(0, data.len() as int) =~= data@);
        assert(input@ =~= hash_input(*b, data@));
        Ok(xxhash64(0, input.as_slice()))
    }
}

/// A file opened from `d` has a `DNA1` block, and its catalogue is what that
/// block's data reads as.
pub proof fn lemma_opened_dna(d: Seq<u8>, v: BlendFileView)
    requires
        opens_to(d, v),
    ensures
        0 <= first_with_code(v.blocks, dna1_code(), 0) < v.blocks.len(),
        spec_read_dna(
            block_bytes(d, v.blocks[first_with_code(v.blocks, dna1_code(), 0)]),
            v.header.pointer_size,
            v.header.is_little_endian,
        ) == Ok::<DnaView, DnaFail>(v.dna),
{
    reveal(spec_open);
    lemma_first_with_code_bounds(v.blocks, dna1_code(), 0);
}

proof fn lemma_first_with_code_bounds(blocks: Seq<BlendFileBlock>, code: Seq<u8>, i: int)
    requires
        0 <= i,
    ensures
        first_with_code(blocks, code, i) == -1 || i <= first_with_code(blocks, code, i) < blocks.len(),
    decreases blocks.len() - i,
{
    if i < blocks.len() && blocks[i].header.code@ != code {
        lemma_first_with_code_bounds(blocks, code, i + 1);
    }
}

/// Whether `v` is the file that opening the bytes `d` gives.
pub open spec fn opens_to(d: Seq<u8>, v: BlendFileView) -> bool {
    spec_open(d) matches Ok((h, blocks, dna)) && header_matches(v.header, h) && v.blocks == blocks && v.dna
        == dna && v.data == d
}

/// Opens a file from its bytes (see `BlendFile::new`).
pub fn from_bytes_buf(data: Vec<u8>) -> (r: Result<BlendFile>)
    ensures
        match r {
            Ok(f) => opens_to(data@, f@),
            Err(e) => spec_open(data@) matches Err(k) && fail_matches(e, k) && open_error_is(data@, e),
        },
{
    BlendFile::new(data)
}

/// How the data of a parsed file was obtained.
#[derive(PartialEq, Eq, Structural, Clone, Copy, Debug)]
pub enum DecompressionMode {
    /// The data was not compressed.
    Uncompressed,
    /// Zstandard data decompressed into memory.
    ZstdInMemory,
    /// Zstandard data decompressed into a mapped temporary file.
    ZstdTempMmap,
    /// Zstandard data decompressed into a temporary file.
    ZstdTempFile,
}

/// Whether `d` starts with the Zstandard magic bytes.
pub open spec fn is_zstd(d: Seq<u8>) -> bool {
    d.len() >= 4 && d.subrange(0, 4) == zstd_magic()
}

/// What `zstd::decode_all` makes of `b`, or `None` where it fails.
pub uninterp spec fn zstd_decoded(b: Seq<u8>) -> Option<Seq<u8>>;

/// Decompresses a whole Zstandard stream (`zstd::decode_all`).
///
/// The decompressed bytes, or the failure, are named by `zstd_decoded`; the
/// Zstandard format itself is not restated.
#[verifier::external_body]
fn zstd_decode_all(b: &[u8]) -> (r: Option<Vec<u8>>)
    ensures
        match r {
            Some(v) => zstd_decoded(b@) == Some(v@),
            None => zstd_decoded(b@) is None,
        },
{
    zstd::decode_all(b).ok()
}

/// Whether `d` starts with the Zstandard magic bytes.
fn has_zstd_magic(d: &[u8]) -> (r: bool)
    ensures
        r == is_zstd(d@),
{
    if d.len() >= 4 && d[0] == 0x28u8 && d[1] == 0xB5u8 && d[2] == 0x2Fu8 && d[3] == 0xFDu8 {
        assert(d@.subrange(0, 4) =~= zstd_magic());
        true
    } else {
        assert(d@.len() >= 4 ==> d@.subrange(0, 4) != zstd_magic()) by {
            if d@.len() >= 4 && d@.subrange(0, 4) == zstd_magic() {
                assert(d@.subrange(0, 4)[0] == d@[0]);
                assert(d@.subrange(0, 4)[1] == d@[1]);
                assert(d@.subrange(0, 4)[2] == d@[2]);
                assert(d@.subrange(0, 4)[3] == d@[3]);
            }
        }
        false
    }
}

/// Parses a file, decompressing Zstandard data in memory first.
///
/// Data that fails to decompress gives `DecompressionFailed`; otherwise the
/// file is opened from the (decompressed) bytes as `BlendFile::new` does.
pub fn parse_from_reader(data: Vec<u8>) -> (r: Result<(BlendFile, DecompressionMode)>)
    ensures
        is_zstd(data@) ==> match zstd_decoded(data@) {
            None => r matches Err(e) && is_blend_error(e, BlendFileErrorKind::DecompressionFailed),
            Some(dd) => match r {
                Ok((f, m)) => m == DecompressionMode::ZstdInMemory && opens_to(dd, f@),
                Err(e) => spec_open(dd) matches Err(k) && fail_matches(e, k) && open_error_is(dd, e),
            },
        },
        !is_zstd(data@) ==> match r {
            Ok((f, m)) => m == DecompressionMode::Uncompressed && opens_to(data@, f@),
            Err(e) => spec_open(data@) matches Err(k) && fail_matches(e, k) && open_error_is(data@, e),
        },
{
    if has_zstd_magic(data.as_slice()) {
        match zstd_decode_all(data.as_slice()) {
            None => Err(
                Dot001Error::blend_file("Zstandard decompression failed", BlendFileErrorKind::DecompressionFailed),
            ),
            Some(decoded) => match BlendFile::new(decoded) {
                Ok(f) => Ok((f, DecompressionMode::ZstdInMemory)),
                Err(e) => Err(e),
            },
        }
    } else {
        match BlendFile::new(data) {
            Ok(f) => Ok((f, DecompressionMode::Uncompressed)),
            Err(e) => Err(e),
        }
    }
}

impl BlendFile {
    /// A view of `block_data` read with this file's catalogue, pointer size and byte order.
    pub fn create_field_view<'a>(&'a self, block_data: &'a [u8]) -> (r: Result<FieldView<'a>>)
        ensures
            r matches Ok(v) && v@ == (FieldViewModel {
                data: block_data@,
                dna: self@.dna,
                dna_wf: true,
                pointer_size: self@.header.pointer_size as usize,
                is_little_endian: self@.header.is_little_endian,
            }),
    {
        let dna = match self.dna() {
            Ok(d) => d,
            Err(e) => {
                return Err(e);
            },
        };
        Ok(FieldView::new(block_data, dna, self.header.pointer_size as usize, self.header.is_little_endian))
    }

    /// A view of `block_data` read with this file's catalogue (as `create_field_view`).
    pub fn create_field_reader<'a>(&'a self, block_data: &'a [u8]) -> (r: Result<FieldView<'a>>)
        ensures
            r matches Ok(v) && v@ == (FieldViewModel {
                data: block_data@,
                dna: self@.dna,
                dna_wf: true,
                pointer_size: self@.header.pointer_size as usize,
                is_little_endian: self@.header.is_little_endian,
            }),
    {
        self.create_field_view(block_data)
    }

    /// A view of `block_data` read with this file's catalogue (as `create_field_view`).
    pub fn create_field_reader_for_block<'a>(&'a self, block_data: &'a [u8]) -> (r: Result<FieldView<'a>>)
        ensures
            r matches Ok(v) && v@ == (FieldViewModel {
                data: block_data@,
                dna: self@.dna,
                dna_wf: true,
                pointer_size: self@.header.pointer_size as usize,
                is_little_endian: self@.header.is_little_endian,
            }),
    {
        self.create_field_view(block_data)
    }
}

impl BlendFile {
    /// Replaces the `size` bytes at `offset` in the data of block `index` by
    /// their first `keep` bytes, `name` and NUL bytes (see `filled_field`).
    pub(crate) fn fill_field(&mut self, index: usize, offset: usize, size: usize, keep: usize, name: &[u8])
        requires
            index < old(self)@.blocks.len(),
            offset + size <= old(self)@.blocks[index as int].header.size,
            keep + name@.len() < size,
        ensures
            final(self)@.blocks == old(self)@.blocks,
            final(self)@.header == old(self)@.header,
            final(self)@.dna == old(self)@.dna,
            ({
                let start = old(self)@.blocks[index as int].data_offset + offset;
                final(self)@.data == old(self)@.data.subrange(0, start) + crate::editor::filled_field(
                    old(self)@.data.subrange(start, start + size),
                    keep as int,
                    name@,
                ) + old(self)@.data.subrange(start + size, old(self)@.data.len() as int)
            }),
    {
        proof {
            use_type_invariant(&*self);
        }
        let ghost d0 = self.data@;
        let b = self.blocks[index];
        assert(b.data_offset + b.header.size <= self.data@.len());
        assert(self.data@.len() == self.data.len());
        let start = b.data_offset as usize + offset;
        let ghost target = crate::editor::filled_field(d0.subrange(start as int, start + size), keep as int, name@);
        let n = self.data.len();
        let mut out: Vec<u8> = Vec::new();
        let mut k: usize = 0;
        while k < n
            invariant
                k <= n,
                n == d0.len(),
                self.data@ == d0,
                start + size <= d0.len(),
                keep + name@.len() < size,
                target == crate::editor::filled_field(d0.subrange(start as int, start + size), keep as int, name@),
                out@.len() == k,
                forall|j: int| 0 <= j < k && !(start + keep <= j < start + size) ==> out@[j] == d0[j],
                forall|j: int| 0 <= j < k && start + keep <= j < start + size ==> out@[j] == target[j - start],
            decreases n - k,
        {
            let v = if start + keep <= k && k < start + size {
                if k - start - keep < name.len() {
                    name[k - start - keep]
                } else {
                    0u8
                }
            } else {
                self.data[k]
            };
            out.push(v);
            k = k + 1;
        }
        assert(out@ =~= d0.subrange(0, start as int) + target + d0.subrange(start + size, d0.len() as int));
        self.data = out;
    }

    /// The bytes of the file.
    pub fn data(&self) -> (r: &[u8])
        ensures
            r@ == self@.data,
    {
        self.data.as_slice()
    }

    /// The bytes of the file, taken.
    pub fn into_data(self) -> (r: Vec<u8>)
        ensures
            r@ == self@.data,
    {
        self.data
    }
}

} // verus!
