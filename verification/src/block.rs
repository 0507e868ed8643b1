//! Block headers: the record in front of every block of a `.blend` file.
use vstd::prelude::*;

verus! {

/// The header of one block.
#[derive(Debug, Clone, Copy)]
pub struct BlockHeader {
    /// Four-character code such as `OB\0\0`, `DATA` or `DNA1`.
    pub code: [u8; 4],
    /// Size of the block's data in bytes.
    pub size: u32,
    /// Address the block had in memory when the file was saved.
    pub old_address: u64,
    /// Index of the block's struct in the SDNA catalogue.
    pub sdna_index: u32,
    /// Number of structs stored in the block.
    pub count: u32,
}

/// A block of a file: its header and where its header and data start.
#[derive(Debug, Clone, Copy)]
pub struct BlendFileBlock {
    pub header: BlockHeader,
    pub data_offset: u64,
    pub header_offset: u64,
}

/// Whether two block codes are equal.
pub fn code_eq(a: &[u8; 4], b: &[u8; 4]) -> (r: bool)
    ensures
        r == (a@ == b@),
{
    let r = a[0] == b[0] && a[1] == b[1] && a[2] == b[2] && a[3] == b[3];
    proof {
        if r {
            assert(a@ =~= b@);
        }
    }
    r
}

/// The name of a block code: the text of its bytes, without trailing NUL bytes.
pub open spec fn code_name_bytes(code: Seq<u8>) -> Seq<u8>
    decreases code.len(),
{
    if code.len() > 0 && code.last() == 0 {
        code_name_bytes(code.drop_last())
    } else {
        code
    }
}

/// The text of a block code without its trailing NUL bytes (`OB\0\0` is `OB`).
pub fn block_code_to_string(code: [u8; 4]) -> (r: String)
    ensures
        r@ == crate::text::lossy_utf8(code_name_bytes(code@)),
{
    let mut n: usize = 4;
    assert(code@.subrange(0, 4) =~= code@);
    while n > 0 && code[n - 1] == 0u8
        invariant
            n <= 4,
            code_name_bytes(code@) == code_name_bytes(code@.subrange(0, n as int)),
        decreases n,
    {
        assert(code@.subrange(0, n as int).drop_last() =~= code@.subrange(0, n - 1));
        n = n - 1;
    }
    let mut v: Vec<u8> = Vec::new();
    let mut i: usize = 0;
    while i < n
        invariant
            n <= 4,
            i <= n,
            v@ =~= code@.subrange(0, i as int),
        decreases n - i,
    {
        v.push(code[i]);
        i = i + 1;
    }
    assert(code_name_bytes(code@.subrange(0, n as int)) == code@.subrange(0, n as int));
    crate::text::utf8_lossy(v.as_slice())
}

} // verus!
