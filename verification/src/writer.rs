//! Writing minimal files in the format-1 layout (17-byte header, 32-byte block headers).
use vstd::prelude::*;
use crate::binary::{le_bytes_u32, le_bytes_u64, lemma_le_u32_roundtrip, lemma_le_u64_roundtrip, push_u32_le, push_u64_le};
use crate::blendfile::{BlendFile, block_bytes, dna1_code, first_with_code, header_len, spec_open, zstd_magic};
use crate::block::BlendFileBlock;
use crate::dna::{DnaCollection, DnaView};
use crate::error::{BlendFileErrorKind, Dot001Error, Result};
use crate::fieldview::first_struct;
use crate::scan::{DEFAULT_MAX_BLOCK_SIZE, endb, spec_block_header, spec_scan};
use crate::header::{HeaderFields, spec_read_header};
use crate::text::digits_value;
use crate::sdna::{DnaFail, fail_matches, spec_read_dna};

verus! {

/// What a seed provider holds: the raw `DNA1` data and the catalogue read from it.
pub struct SeedModel {
    pub raw: Seq<u8>,
    pub dna: DnaView,
    pub dna_wf: bool,
}

/// The SDNA catalogue of a seed file, kept both raw (to copy into new files)
/// and parsed (to look up struct indices).
pub struct SeedDnaProvider {
    raw_dna_bytes: Vec<u8>,
    dna: DnaCollection,
}

impl View for SeedDnaProvider {
    type V = SeedModel;

    closed spec fn view(&self) -> SeedModel {
        SeedModel { raw: self.raw_dna_bytes@, dna: self.dna@, dna_wf: self.dna.wf() }
    }
}

/// What taking the seed from file bytes `d` gives: the data of the first
/// `DNA1` block and the catalogue read from it.
pub open spec fn spec_seed(d: Seq<u8>) -> core::result::Result<SeedModel, DnaFail> {
    match spec_open(d) {
        Err(e) => Err(e),
        Ok((h, blocks, dna)) => Ok(
            SeedModel { raw: block_bytes(d, blocks[first_with_code(blocks, dna1_code(), 0)]), dna, dna_wf: true },
        ),
    }
}

impl SeedDnaProvider {
    /// Takes the catalogue of the seed file whose bytes are `data`.
    pub fn from_seed_bytes(data: Vec<u8>) -> (r: Result<Self>)
        ensures
            match r {
                Ok(p) => spec_seed(data@) == Ok::<SeedModel, DnaFail>(p@),
                Err(e) => spec_seed(data@) matches Err(k) && fail_matches(e, k),
            },
    {
        let ghost d = data@;
        let file = match BlendFile::new(data) {
            Ok(f) => f,
            Err(e) => {
                return Err(e);
            },
        };
        proof {
            crate::blendfile::lemma_opened_dna(d, file@);
        }
        let code: [u8; 4] = [68u8, 78u8, 65u8, 49u8];
        let found = file.blocks_by_type(&code);
        let _nb = file.blocks_len();
        assert(code@ =~= dna1_code());
        proof {
            lemma_first_code_in_indices(file@.blocks, dna1_code(), file@.blocks.len() as int);
        }
        if found.len() == 0 {
            assert(first_with_code(file@.blocks, dna1_code(), 0) == -1);
            return Err(Dot001Error::blend_file("DNA1 block not found in seed", BlendFileErrorKind::NoDnaFound));
        }
        let idx = found[0];
        let raw = match file.read_block_data(idx) {
            Ok(v) => v,
            Err(e) => {
                return Err(e);
            },
        };
        let header = *file.header();
        proof {
            crate::blendfile::lemma_opened_dna(d, file@);
            reveal(spec_open);
        }
        let dna = match DnaCollection::read(raw.as_slice(), &header) {
            Ok(c) => c,
            Err(e) => {
                return Err(e);
            },
        };
        Ok(SeedDnaProvider { raw_dna_bytes: raw, dna })
    }

    /// The raw `DNA1` data, to be written into new files.
    pub fn raw_bytes(&self) -> (r: &[u8])
        ensures
            r@ == self@.raw,
    {
        self.raw_dna_bytes.as_slice()
    }

    /// The parsed catalogue.
    pub fn dna(&self) -> (r: &DnaCollection)
        ensures
            r@ == self@.dna,
            r.wf() == self@.dna_wf,
    {
        &self.dna
    }

    /// The index of the first struct named `name`.
    pub fn sdna_index_for_struct(&self, name: &str) -> (r: Option<u32>)
        ensures
            match r {
                Some(i) => first_struct(self@.dna.structs, name@, 0) >= 0 && i == first_struct(
                    self@.dna.structs,
                    name@,
                    0,
                ) as u32,
                None => first_struct(self@.dna.structs, name@, 0) == -1,
            },
    {
        let structs = &self.dna.structs;
        let mut i: usize = 0;
        while i < structs.len()
            invariant
                i <= structs.len(),
                structs == &self.dna.structs,
                first_struct(self@.dna.structs, name@, 0) == first_struct(self@.dna.structs, name@, i as int),
            decreases structs.len() - i,
        {
            if crate::text::str_eq(structs[i].typename.as_str(), name) {
                return Some(i as u32);
            }
            i = i + 1;
        }
        None
    }
}

/// The first index with a code is the first of the indices with that code.
proof fn lemma_first_code_in_indices(blocks: Seq<crate::block::BlendFileBlock>, code: Seq<u8>, n: int)
    requires
        0 <= n <= blocks.len(),
        blocks.len() <= usize::MAX,
    ensures
        crate::blendfile::indices_with_code(blocks, code, n).len() == 0 <==> (first_with_code(blocks, code, 0)
            == -1 || first_with_code(blocks, code, 0) >= n),
        crate::blendfile::indices_with_code(blocks, code, n).len() > 0 ==> crate::blendfile::indices_with_code(
            blocks,
            code,
            n,
        )[0] == first_with_code(blocks, code, 0),
    decreases n,
{
    lemma_first_code_props(blocks, code, 0);
    let f = first_with_code(blocks, code, 0);
    if n > 0 {
        lemma_first_code_in_indices(blocks, code, n - 1);
        let prev = crate::blendfile::indices_with_code(blocks, code, n - 1);
        let cur = crate::blendfile::indices_with_code(blocks, code, n);
        if blocks[n - 1].header.code@ == code {
            assert(cur == prev.push((n - 1) as usize));
            if prev.len() > 0 {
                assert(cur[0] == prev[0]);
            } else {
                assert(f != -1);
                assert(f <= n - 1);
                assert(cur[0] == n - 1);
            }
        } else {
            assert(cur == prev);
            assert(f != n - 1);
        }
    }
}

proof fn lemma_first_code_props(blocks: Seq<crate::block::BlendFileBlock>, code: Seq<u8>, i: int)
    requires
        0 <= i <= blocks.len(),
    ensures
        first_with_code(blocks, code, i) == -1 || (i <= first_with_code(blocks, code, i) < blocks.len()
            && blocks[first_with_code(blocks, code, i)].header.code@ == code),
        forall|j: int| i <= j < blocks.len() && (first_with_code(blocks, code, i) == -1 || j < first_with_code(
            blocks,
            code,
            i,
        )) ==> blocks[j].header.code@ != code,
    decreases blocks.len() - i,
{
    if i < blocks.len() && blocks[i].header.code@ != code {
        lemma_first_code_props(blocks, code, i + 1);
    }
}

/// What can be written.
#[derive(Clone, Copy, Debug)]
pub enum WriteTemplate {
    /// The header, the `DNA1` block and `ENDB`.
    Minimal,
}

/// Writes the 17-byte format-1 file header.
#[derive(Default)]
pub struct HeaderWriter;

/// The header `BLENDER17-01v0500`.
pub open spec fn header_bytes_v1() -> Seq<u8> {
    seq![66u8, 76u8, 69u8, 78u8, 68u8, 69u8, 82u8, 49u8, 55u8, 45u8, 48u8, 49u8, 118u8, 48u8, 53u8, 48u8, 48u8]
}

impl HeaderWriter {
    /// Appends the header `BLENDER17-01v0500`.
    pub fn write(&self, out: &mut Vec<u8>)
        ensures
            final(out)@ == old(out)@ + header_bytes_v1(),
    {
        let bytes: [u8; 17] = [66u8, 76u8, 69u8, 78u8, 68u8, 69u8, 82u8, 49u8, 55u8, 45u8, 48u8, 49u8, 118u8, 48u8, 53u8, 48u8, 48u8];
        let ghost pre = out@;
        let mut i: usize = 0;
        while i < 17
            invariant
                i <= 17,
                out@ == pre + bytes@.subrange(0, i as int),
            decreases 17 - i,
        {
            out.push(bytes[i]);
            assert(bytes@.subrange(0, i + 1) =~= bytes@.subrange(0, i as int).push(bytes@[i as int]));
            i = i + 1;
        }
        assert(bytes@.subrange(0, 17) =~= header_bytes_v1());
    }
}

/// The bytes of a format-1 block: code, SDNA index (`u32`), address, length
/// and count (`u64`s), all little endian, then the payload.
pub open spec fn block_v1(code: Seq<u8>, sdna_index: u32, old_address: u64, payload: Seq<u8>, count: u32) -> Seq<u8> {
    code + le_bytes_u32(sdna_index as int) + le_bytes_u64(old_address as int) + le_bytes_u64(payload.len() as int)
        + le_bytes_u64(count as int) + payload
}

/// The code `ENDB`.
pub open spec fn endb_code() -> Seq<u8> {
    seq![69u8, 78u8, 68u8, 66u8]
}

/// The minimal file: the header, a `DNA1` block holding `raw`, and `ENDB`.
pub open spec fn minimal_file(raw: Seq<u8>) -> Seq<u8> {
    header_bytes_v1() + block_v1(dna1_code(), 0, 0, raw, 1) + block_v1(endb_code(), 0, 0, Seq::empty(), 0)
}

/// Writes files of the minimal template.
#[derive(Default)]
pub struct BlendWriter {
    pub header: HeaderWriter,
}

impl BlendWriter {
    /// The bytes of a file of the given template, with the seed's catalogue.
    pub fn write_with_seed(&self, template: WriteTemplate, seed: &SeedDnaProvider) -> (r: Vec<u8>)
        ensures
            r@ == minimal_file(seed@.raw),
    {
        match template {
            WriteTemplate::Minimal => self.write_minimal(seed),
        }
    }

    fn write_minimal(&self, seed: &SeedDnaProvider) -> (r: Vec<u8>)
        ensures
            r@ == minimal_file(seed@.raw),
    {
        let mut w: Vec<u8> = Vec::new();
        self.header.write(&mut w);
        let dna1: [u8; 4] = [68u8, 78u8, 65u8, 49u8];
        let endb: [u8; 4] = [69u8, 78u8, 68u8, 66u8];
        assert(dna1@ =~= dna1_code());
        assert(endb@ =~= endb_code());
        write_block_v1(&mut w, &dna1, 0u32, 0, seed.raw_bytes(), 1);
        let empty: Vec<u8> = Vec::new();
        write_block_v1(&mut w, &endb, 0u32, 0, empty.as_slice(), 0);
        assert(w@ =~= minimal_file(seed@.raw));
        w
    }
}

/// Appends a format-1 block (see `block_v1`).
pub fn write_block_v1(out: &mut Vec<u8>, code: &[u8; 4], sdna_index: u32, old_address: u64, payload: &[u8], count: u32)
    ensures
        final(out)@ == old(out)@ + block_v1(code@, sdna_index, old_address, payload@, count),
{
    let ghost pre = out@;
    let mut i: usize = 0;
    while i < 4
        invariant
            i <= 4,
            out@ == pre + code@.subrange(0, i as int),
        decreases 4 - i,
    {
        out.push(code[i]);
        assert(code@.subrange(0, i + 1) =~= code@.subrange(0, i as int).push(code@[i as int]));
        i = i + 1;
    }
    assert(code@.subrange(0, 4) =~= code@);
    push_u32_le(out, sdna_index);
    push_u64_le(out, old_address);
    push_u64_le(out, payload.len() as u64);
    push_u64_le(out, count as u64);
    let ghost mid = out@;
    let mut k: usize = 0;
    while k < payload.len()
        invariant
            k <= payload.len(),
            out@ == mid + payload@.subrange(0, k as int),
        decreases payload.len() - k,
    {
        out.push(payload[k]);
        assert(payload@.subrange(0, k + 1) =~= payload@.subrange(0, k as int).push(payload@[k as int]));
        k = k + 1;
    }
    assert(payload@.subrange(0, payload.len() as int) =~= payload@);
    assert(out@ =~= pre + block_v1(code@, sdna_index, old_address, payload@, count));
}

/// Four bytes holding the little-endian bytes of `v` read back as `v`.
proof fn lemma_u32_at(d: Seq<u8>, off: int, v: int)
    requires
        0 <= off,
        off + 4 <= d.len(),
        0 <= v < 0x1_0000_0000,
        d.subrange(off, off + 4) == le_bytes_u32(v),
    ensures
        crate::binary::le_u32(d, off) == v,
{
    let pre = d.subrange(0, off);
    let post = d.subrange(off + 4, d.len() as int);
    assert(d =~= pre + le_bytes_u32(v) + post);
    lemma_le_u32_roundtrip(pre, v, post);
}

/// Eight bytes holding the little-endian bytes of `v` read back as `v`.
proof fn lemma_u64_at(d: Seq<u8>, off: int, v: int)
    requires
        0 <= off,
        off + 8 <= d.len(),
        0 <= v < 0x1_0000_0000_0000_0000,
        d.subrange(off, off + 8) == le_bytes_u64(v),
    ensures
        crate::binary::le_u64(d, off) == v,
{
    let pre = d.subrange(0, off);
    let post = d.subrange(off + 8, d.len() as int);
    assert(d =~= pre + le_bytes_u64(v) + post);
    lemma_le_u64_roundtrip(pre, v, post);
}

/// Reading back a block that `write_block_v1` wrote (format 1) gives its code,
/// SDNA index, address and count, and the payload length in its low 32 bits.
#[verifier::rlimit(40)]
pub proof fn lemma_block_v1_roundtrip(
    pre: Seq<u8>,
    code: Seq<u8>,
    sdna_index: u32,
    old_address: u64,
    payload: Seq<u8>,
    count: u32,
    post: Seq<u8>,
)
    requires
        code.len() == 4,
        payload.len() <= u64::MAX,
    ensures
        ({
            let d = pre + block_v1(code, sdna_index, old_address, payload, count) + post;
            let h = spec_block_header(d, pre.len() as int, 1, 8, true);
            &&& h.code@ == code
            &&& h.sdna_index == sdna_index
            &&& h.old_address == old_address
            &&& h.size == (payload.len() % 0x1_0000_0000) as u32
            &&& h.count == count
        }),
{
    let blk = block_v1(code, sdna_index, old_address, payload, count);
    let d = pre + blk + post;
    let o = pre.len() as int;
    assert(blk.len() == 32 + payload.len());
    assert forall|k: int| 0 <= k < blk.len() implies d[o + k] == blk[k] by {}
    assert(blk.subrange(0, 4) =~= code);
    assert(blk.subrange(4, 8) =~= le_bytes_u32(sdna_index as int));
    assert(blk.subrange(8, 16) =~= le_bytes_u64(old_address as int));
    assert(blk.subrange(16, 24) =~= le_bytes_u64(payload.len() as int));
    assert(blk.subrange(24, 32) =~= le_bytes_u64(count as int));
    assert(d.subrange(o + 4, o + 8) =~= blk.subrange(4, 8));
    assert(d.subrange(o + 8, o + 16) =~= blk.subrange(8, 16));
    assert(d.subrange(o + 16, o + 24) =~= blk.subrange(16, 24));
    assert(d.subrange(o + 24, o + 32) =~= blk.subrange(24, 32));
    lemma_u32_at(d, o + 4, sdna_index as int);
    lemma_u64_at(d, o + 8, old_address as int);
    lemma_u64_at(d, o + 16, payload.len() as int);
    lemma_u64_at(d, o + 24, count as int);
    let h = spec_block_header(d, o, 1, 8, true);
    assert(h.code@ =~= code) by {
        assert(d[o] == blk[0] && d[o + 1] == blk[1] && d[o + 2] == blk[2] && d[o + 3] == blk[3]);
        assert(blk[0] == code[0] && blk[1] == code[1] && blk[2] == code[2] && blk[3] == code[3]);
    }
}

/// The header `BLENDER17-01v0500` reads as format 1, 8-byte pointers, little
/// endian, version 500, whatever follows it.
proof fn lemma_header_v1_reads(rest: Seq<u8>)
    ensures
        spec_read_header(header_bytes_v1() + rest) == Ok::<HeaderFields, BlendFileErrorKind>(
            HeaderFields { file_format_version: 1, pointer_size: 8, is_little_endian: true, version: 500 },
        ),
{
    let d = header_bytes_v1() + rest;
    assert(d.subrange(0, 7) =~= crate::header::magic_bytes());
    assert(d[7] == 49 && d[8] == 55 && d[9] == 45 && d[12] == 118);
    assert(crate::header::header_size_digits(49, 55) == 17);
    let v = d.subrange(10, 12);
    assert(v =~= seq![48u8, 49u8]);
    reveal_with_fuel(digits_value, 5);
    assert(crate::text::all_digits(v));
    assert(digits_value(v) == 1) by {
        assert(v.drop_last() =~= seq![48u8]);
        assert(v.drop_last().drop_last() =~= Seq::<u8>::empty());
    }
    let w = d.subrange(13, 17);
    assert(w =~= seq![48u8, 53u8, 48u8, 48u8]);
    assert(crate::text::all_digits(w));
    assert(digits_value(w) == 500) by {
        assert(w.drop_last() =~= seq![48u8, 53u8, 48u8]);
        assert(w.drop_last().drop_last() =~= seq![48u8, 53u8]);
        assert(w.drop_last().drop_last().drop_last() =~= seq![48u8]);
        assert(w.drop_last().drop_last().drop_last().drop_last() =~= Seq::<u8>::empty());
    }
}

/// A minimal file written from a seed catalogue opens again: its header reads as
/// format 1 with 8-byte little-endian pointers and version 500, its only block
/// before `ENDB` is the `DNA1` block holding `raw`, and its catalogue is the one
/// that `raw` holds. Taken as a seed in turn, it gives back `raw` and that catalogue.
#[verifier::rlimit(60)]
pub proof fn lemma_minimal_file_opens(raw: Seq<u8>, dna: DnaView)
    requires
        spec_read_dna(raw, 8, true) == Ok::<DnaView, DnaFail>(dna),
        raw.len() <= DEFAULT_MAX_BLOCK_SIZE,
    ensures
        spec_open(minimal_file(raw)) matches Ok((h, blocks, dv)) && h == (HeaderFields {
            file_format_version: 1,
            pointer_size: 8,
            is_little_endian: true,
            version: 500,
        }) && blocks.len() == 1 && blocks[0].header.code@ == dna1_code() && block_bytes(minimal_file(raw), blocks[0])
            == raw && dv == dna,
        spec_seed(minimal_file(raw)) == Ok::<SeedModel, DnaFail>(SeedModel { raw, dna, dna_wf: true }),
{
    let hdr = header_bytes_v1();
    let b1 = block_v1(dna1_code(), 0, 0, raw, 1);
    let b2 = block_v1(endb_code(), 0, 0, Seq::empty(), 0);
    let d = minimal_file(raw);
    let n = raw.len() as int;
    assert(d.len() == 17 + 32 + n + 32);
    assert(d[0] == 66u8);
    assert(d.subrange(0, 4) != zstd_magic()) by {
        assert(d.subrange(0, 4)[0] == 66u8);
    }
    assert(d =~= hdr + (b1 + b2));
    lemma_header_v1_reads(b1 + b2);
    let f = HeaderFields { file_format_version: 1, pointer_size: 8, is_little_endian: true, version: 500 };
    assert(spec_read_header(d) == Ok::<HeaderFields, BlendFileErrorKind>(f));
    assert(header_len(f) == 17);
    lemma_block_v1_roundtrip(hdr, dna1_code(), 0, 0, raw, 1, b2);
    lemma_block_v1_roundtrip(hdr + b1, endb_code(), 0, 0, Seq::empty(), 0, Seq::empty());
    assert(hdr + b1 + b2 + Seq::<u8>::empty() =~= d);
    let bh1 = spec_block_header(d, 17, 1, 8, true);
    let bh2 = spec_block_header(d, 49 + n, 1, 8, true);
    assert(bh1.size == n);
    assert(bh1.code@ != endb()) by {
        assert(bh1.code@[0] == 68u8);
    }
    assert(bh2.code@ =~= endb());
    assert(spec_scan(d, 49 + n, 1, 8, true) == Ok::<Seq<BlendFileBlock>, BlendFileErrorKind>(Seq::empty()));
    let blk = BlendFileBlock { header: bh1, data_offset: 49, header_offset: 17 };
    assert(seq![blk] + Seq::<BlendFileBlock>::empty() =~= seq![blk]);
    assert(spec_scan(d, 17, 1, 8, true) == Ok::<Seq<BlendFileBlock>, BlendFileErrorKind>(seq![blk]));
    let blocks = seq![blk];
    assert(first_with_code(blocks, dna1_code(), 0) == 0);
    assert(blocks[0] == blk);
    assert(block_bytes(d, blk) =~= raw);
    assert(!(d.len() >= 4 && d.subrange(0, 4) == zstd_magic()));
    reveal(spec_open);
    assert(spec_open(d) == Ok::<(HeaderFields, Seq<BlendFileBlock>, DnaView), DnaFail>((f, blocks, dna)));
}

} // verus!
