//! Reading the block headers of a file held in memory.
use vstd::prelude::*;
use crate::binary::{read_u32_at, read_u64_at, spec_u32, spec_u64};
use crate::block::{BlendFileBlock, BlockHeader, code_eq};
use crate::error::{BlendFileErrorKind, Dot001Error, Result, blend_error_with, is_blend_error};
use crate::header::BlendFileHeader;

verus! {

/// Largest block size the parser accepts (100 MB).
pub const DEFAULT_MAX_BLOCK_SIZE: u32 = 100_000_000;

/// Length of a block header: 32 bytes in format 1, 20 with 4-byte pointers, 24 otherwise.
pub open spec fn spec_block_header_size(fmt: u32, ptr: u8) -> int {
    if fmt == 1 {
        32
    } else if ptr == 4 {
        20
    } else {
        24
    }
}

/// The block header stored at `off` (the bytes must be there).
///
/// Format 1: code, sdna index (4 bytes), address (8), size (8), count (8); the
/// size and count keep their low 32 bits. With 4-byte pointers: code, size,
/// address, sdna index, count, 4 bytes each. Otherwise: code, size (4),
/// address (8), sdna index (4), count (4).
pub open spec fn spec_block_header(d: Seq<u8>, off: int, fmt: u32, ptr: u8, le: bool) -> BlockHeader {
    let code = [d[off], d[off + 1], d[off + 2], d[off + 3]];
    if fmt == 1 {
        BlockHeader {
            code,
            sdna_index: spec_u32(d, off + 4, le) as u32,
            old_address: spec_u64(d, off + 8, le) as u64,
            size: (spec_u64(d, off + 16, le) % 0x1_0000_0000) as u32,
            count: (spec_u64(d, off + 24, le) % 0x1_0000_0000) as u32,
        }
    } else if ptr == 4 {
        BlockHeader {
            code,
            size: spec_u32(d, off + 4, le) as u32,
            old_address: spec_u32(d, off + 8, le) as u64,
            sdna_index: spec_u32(d, off + 12, le) as u32,
            count: spec_u32(d, off + 16, le) as u32,
        }
    } else {
        BlockHeader {
            code,
            size: spec_u32(d, off + 4, le) as u32,
            old_address: spec_u64(d, off + 8, le) as u64,
            sdna_index: spec_u32(d, off + 16, le) as u32,
            count: spec_u32(d, off + 20, le) as u32,
        }
    }
}

/// Whether two block headers hold the same values.
pub open spec fn same_header(a: BlockHeader, b: BlockHeader) -> bool {
    &&& a.code@ == b.code@
    &&& a.size == b.size
    &&& a.old_address == b.old_address
    &&& a.sdna_index == b.sdna_index
    &&& a.count == b.count
}

/// Whether two blocks hold the same values.
pub open spec fn same_block(a: BlendFileBlock, b: BlendFileBlock) -> bool {
    same_header(a.header, b.header) && a.data_offset == b.data_offset && a.header_offset == b.header_offset
}

/// The code `ENDB` that ends the list of blocks.
pub open spec fn endb() -> Seq<u8> {
    seq![69u8, 78u8, 68u8, 66u8]
}

/// The blocks stored from `off` up to the `ENDB` marker, or the kind of error met.
pub open spec fn spec_scan(d: Seq<u8>, off: int, fmt: u32, ptr: u8, le: bool) -> core::result::Result<
    Seq<BlendFileBlock>,
    BlendFileErrorKind,
>
    decreases d.len() - off,
{
    let hs = spec_block_header_size(fmt, ptr);
    if off < 0 || off + hs > d.len() {
        Err(BlendFileErrorKind::InvalidData)
    } else {
        let bh = spec_block_header(d, off, fmt, ptr, le);
        let data_off = off + hs;
        if bh.code@ == endb() {
            Ok(Seq::empty())
        } else if bh.size > DEFAULT_MAX_BLOCK_SIZE {
            Err(BlendFileErrorKind::SizeLimitExceeded)
        } else if data_off + bh.size > d.len() {
            Err(BlendFileErrorKind::InvalidData)
        } else {
            let blk = BlendFileBlock { header: bh, data_offset: data_off as u64, header_offset: off as u64 };
            match spec_scan(d, data_off + bh.size, fmt, ptr, le) {
                Ok(rest) => Ok(seq![blk] + rest),
                Err(k) => Err(k),
            }
        }
    }
}

/// The message of the error that reading the blocks from `off` meets (see
/// `spec_scan`): the data ending inside a block header, a block over the size
/// limit, or a block's data running past the end.
pub open spec fn scan_message(d: Seq<u8>, off: int, fmt: u32, ptr: u8, le: bool) -> Seq<char>
    decreases d.len() - off,
{
    let hs = spec_block_header_size(fmt, ptr);
    if off < 0 || off + hs > d.len() {
        "Unexpected end of data while scanning blocks"@
    } else {
        let bh = spec_block_header(d, off, fmt, ptr, le);
        let data_off = off + hs;
        if bh.code@ == endb() {
            Seq::empty()
        } else if bh.size > DEFAULT_MAX_BLOCK_SIZE {
            "Block size too large"@
        } else if data_off + bh.size > d.len() {
            "Block extends beyond data"@
        } else {
            scan_message(d, data_off + bh.size, fmt, ptr, le)
        }
    }
}

/// The length of a block header in this file's format.
pub fn block_header_size(header: &BlendFileHeader) -> (r: usize)
    ensures
        r == spec_block_header_size(header.file_format_version, header.pointer_size),
{
    if header.file_format_version == 1 {
        4 + 4 + 8 + 8 + 8
    } else if header.pointer_size == 4 {
        4 + 4 + 4 + 4 + 4
    } else {
        4 + 4 + 8 + 4 + 4
    }
}

/// Reads the block header at `offset`, whose bytes are known to be there.
fn parse_block_header_inline(data: &[u8], offset: usize, file_header: &BlendFileHeader) -> (r: BlockHeader)
    requires
        offset + spec_block_header_size(file_header.file_format_version, file_header.pointer_size)
            <= data.len(),
    ensures
        r == spec_block_header(
            data@,
            offset as int,
            file_header.file_format_version,
            file_header.pointer_size,
            file_header.is_little_endian,
        ),
{
    let le = file_header.is_little_endian;
    let code: [u8; 4] = [data[offset], data[offset + 1], data[offset + 2], data[offset + 3]];
    if file_header.file_format_version == 1 {
        let sdna_index = read_u32_at(data, offset + 4, le);
        let old_address = read_u64_at(data, offset + 8, le);
        let size = (read_u64_at(data, offset + 16, le) % 0x1_0000_0000) as u32;
        let count = (read_u64_at(data, offset + 24, le) % 0x1_0000_0000) as u32;
        BlockHeader { code, size, old_address, sdna_index, count }
    } else if file_header.pointer_size == 4 {
        let size = read_u32_at(data, offset + 4, le);
        let old_address = read_u32_at(data, offset + 8, le) as u64;
        let sdna_index = read_u32_at(data, offset + 12, le);
        let count = read_u32_at(data, offset + 16, le);
        BlockHeader { code, size, old_address, sdna_index, count }
    } else {
        let size = read_u32_at(data, offset + 4, le);
        let old_address = read_u64_at(data, offset + 8, le);
        let sdna_index = read_u32_at(data, offset + 16, le);
        let count = read_u32_at(data, offset + 20, le);
        BlockHeader { code, size, old_address, sdna_index, count }
    }
}

/// Reads the block header at `offset` and returns it with its length.
///
/// Fails with `InvalidData` when the header does not fit in `data`.
pub fn parse_block_header_at(data: &[u8], offset: usize, file_header: &BlendFileHeader) -> (r: Result<
    (BlockHeader, usize),
>)
    ensures
        match r {
            Ok((h, n)) => {
                &&& n == spec_block_header_size(file_header.file_format_version, file_header.pointer_size)
                &&& offset + n <= data.len()
                &&& h == spec_block_header(
                    data@,
                    offset as int,
                    file_header.file_format_version,
                    file_header.pointer_size,
                    file_header.is_little_endian,
                )
            },
            Err(e) => {
                &&& offset + spec_block_header_size(file_header.file_format_version, file_header.pointer_size)
                    > data.len()
                &&& is_blend_error(e, BlendFileErrorKind::InvalidData)
            },
        },
{
    let header_size = block_header_size(file_header);
    if offset > data.len() || data.len() - offset < header_size {
        return Err(Dot001Error::blend_file(
            "Insufficient data for block header",
            BlendFileErrorKind::InvalidData,
        ));
    }
    let h = parse_block_header_inline(data, offset, file_header);
    Ok((h, header_size))
}

/// Reads the blocks from `start_offset` up to the `ENDB` marker (see `spec_scan`).
pub fn scan_blocks(data: &[u8], start_offset: usize, file_header: &BlendFileHeader) -> (r: Result<
    Vec<BlendFileBlock>,
>)
    ensures
        match r {
            Ok(blocks) => spec_scan(
                data@,
                start_offset as int,
                file_header.file_format_version,
                file_header.pointer_size,
                file_header.is_little_endian,
            ) == Ok::<Seq<BlendFileBlock>, BlendFileErrorKind>(blocks@),
            Err(e) => spec_scan(
                data@,
                start_offset as int,
                file_header.file_format_version,
                file_header.pointer_size,
                file_header.is_little_endian,
            ) matches Err(k) && is_blend_error(e, k) && blend_error_with(
                e,
                k,
                scan_message(
                    data@,
                    start_offset as int,
                    file_header.file_format_version,
                    file_header.pointer_size,
                    file_header.is_little_endian,
                ),
            ),
        },
{
    let ghost fmt = file_header.file_format_version;
    let ghost ptr = file_header.pointer_size;
    let ghost le = file_header.is_little_endian;
    let ghost whole = spec_scan(data@, start_offset as int, fmt, ptr, le);
    let ghost wmsg = scan_message(data@, start_offset as int, fmt, ptr, le);
    let mut blocks: Vec<BlendFileBlock> = Vec::new();
    let mut current_offset = start_offset;
    let header_size = block_header_size(file_header);
    let data_len = data.len();
    let endb_code: [u8; 4] = [69u8, 78u8, 68u8, 66u8];
    assert(endb_code@ =~= endb());
    assert(prefixed(blocks@, spec_scan(data@, current_offset as int, fmt, ptr, le)) == whole) by {
        assert(Seq::<BlendFileBlock>::empty() + whole->Ok_0 =~= whole->Ok_0);
    }
    loop
        invariant
            fmt == file_header.file_format_version,
            ptr == file_header.pointer_size,
            le == file_header.is_little_endian,
            whole == spec_scan(data@, start_offset as int, fmt, ptr, le),
            header_size == spec_block_header_size(fmt, ptr),
            data_len == data.len(),
            endb_code@ == endb(),
            prefixed(blocks@, spec_scan(data@, current_offset as int, fmt, ptr, le)) == whole,
            wmsg == scan_message(data@, start_offset as int, fmt, ptr, le),
            scan_message(data@, current_offset as int, fmt, ptr, le) == wmsg,
        decreases data_len - current_offset,
    {
        if current_offset > data_len || data_len - current_offset < header_size {
            return Err(Dot001Error::blend_file(
                "Unexpected end of data while scanning blocks",
                BlendFileErrorKind::InvalidData,
            ));
        }
        let header_start = current_offset;
        let block_header = parse_block_header_inline(data, current_offset, file_header);
        current_offset = current_offset + header_size;
        if code_eq(&block_header.code, &endb_code) {
            assert(blocks@ + Seq::<BlendFileBlock>::empty() =~= blocks@);
            return Ok(blocks);
        }
        if block_header.size > DEFAULT_MAX_BLOCK_SIZE {
            return Err(Dot001Error::blend_file("Block size too large", BlendFileErrorKind::SizeLimitExceeded));
        }
        if data_len - current_offset < block_header.size as usize {
            return Err(Dot001Error::blend_file("Block extends beyond data", BlendFileErrorKind::InvalidData));
        }
        let block_end = current_offset + block_header.size as usize;
        let block = BlendFileBlock {
            header: block_header,
            data_offset: current_offset as u64,
            header_offset: header_start as u64,
        };
        proof {
            let next = spec_scan(data@, block_end as int, fmt, ptr, le);
            if let Ok(rest) = next {
                assert(blocks@.push(block) + rest =~= blocks@ + (seq![block] + rest));
            }
        }
        blocks.push(block);
        current_offset = block_end;
    }
}

/// `r` with `p` in front of its blocks.
pub open spec fn prefixed(
    p: Seq<BlendFileBlock>,
    r: core::result::Result<Seq<BlendFileBlock>, BlendFileErrorKind>,
) -> core::result::Result<Seq<BlendFileBlock>, BlendFileErrorKind> {
    match r {
        Ok(rest) => Ok(p + rest),
        Err(k) => Err(k),
    }
}

} // verus!
