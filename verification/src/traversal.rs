//! Following pointer fields from block to block.
use vstd::prelude::*;
use crate::binary::{spec_u16, spec_u32};
use crate::blendfile::{BlendFile, BlendFileView, addr_pos, block_bytes, lemma_addr_pos_bounds};
use crate::error::{BlendFileErrorKind, Dot001Error, Result, is_blend_error};
use crate::fieldview::{FieldViewModel, spec_find_field, spec_pointer};

verus! {

/// The view of the data of block `i` of file `f`.
pub open spec fn bview(f: BlendFileView, i: int) -> FieldViewModel {
    FieldViewModel {
        data: block_bytes(f.data, f.blocks[i]),
        dna: f.dna,
        dna_wf: true,
        pointer_size: f.header.pointer_size as usize,
        is_little_endian: f.header.is_little_endian,
    }
}

/// The pointer field `fld` of struct `st` in block `i`, when it can be read.
pub open spec fn fptr(f: BlendFileView, i: int, st: Seq<char>, fld: Seq<char>) -> Option<u64> {
    let m = bview(f, i);
    match spec_find_field(m.dna, st, fld) {
        Some(fd) => spec_pointer(m.data, fd.offset as int, m.pointer_size, m.is_little_endian),
        None => None,
    }
}

/// The `u32` field `fld` of struct `st` in block `i`, when it can be read.
pub open spec fn fu32(f: BlendFileView, i: int, st: Seq<char>, fld: Seq<char>) -> Option<u32> {
    let m = bview(f, i);
    match spec_find_field(m.dna, st, fld) {
        Some(fd) => if fd.offset + 4 <= m.data.len() {
            Some(spec_u32(m.data, fd.offset as int, m.is_little_endian) as u32)
        } else {
            None
        },
        None => None,
    }
}

/// The `u16` field `fld` of struct `st` in block `i`, when it can be read.
pub open spec fn fu16(f: BlendFileView, i: int, st: Seq<char>, fld: Seq<char>) -> Option<u16> {
    let m = bview(f, i);
    match spec_find_field(m.dna, st, fld) {
        Some(fd) => if fd.offset + 2 <= m.data.len() {
            Some(spec_u16(m.data, fd.offset as int, m.is_little_endian) as u16)
        } else {
            None
        },
        None => None,
    }
}

/// The block a non-null pointer points to: the last block saved at that address.
pub open spec fn resolve(f: BlendFileView, p: u64) -> Option<usize> {
    if p != 0 && addr_pos(f.blocks, p) >= 0 {
        Some(addr_pos(f.blocks, p) as usize)
    } else {
        None
    }
}

/// The block that pointer field `fld` of struct `st` in block `i` points to, if any.
pub open spec fn ptr_deps(f: BlendFileView, i: int, st: Seq<char>, fld: Seq<char>) -> Seq<usize> {
    match fptr(f, i, st, fld) {
        Some(p) => match resolve(f, p) {
            Some(j) => seq![j],
            None => Seq::empty(),
        },
        None => Seq::empty(),
    }
}

/// Whether every index in `deps` is a block of a file with `n` blocks.
pub open spec fn deps_in_file(deps: Seq<usize>, n: int) -> bool {
    forall|k: int| 0 <= k < deps.len() ==> #[trigger] deps[k] < n
}

/// `resolve` gives blocks of the file.
pub proof fn lemma_resolve_in_file(f: BlendFileView, p: u64)
    ensures
        resolve(f, p) matches Some(j) ==> j < f.blocks.len(),
{
    lemma_addr_pos_bounds(f.blocks, p);
}

/// Reads pointer field `fld` of struct `st` in block `i` (see `fptr`).
pub fn field_pointer(file: &BlendFile, i: usize, st: &str, fld: &str) -> (r: Option<u64>)
    requires
        i < file@.blocks.len(),
    ensures
        r == fptr(file@, i as int, st@, fld@),
{
    let data = match file.read_block_slice(i) {
        Ok(d) => d,
        Err(_) => {
            return None;
        },
    };
    let view = match file.create_field_view(data) {
        Ok(v) => v,
        Err(_) => {
            return None;
        },
    };
    match view.read_field_pointer(st, fld) {
        Ok(p) => Some(p),
        Err(_) => None,
    }
}

/// Reads `u32` field `fld` of struct `st` in block `i` (see `fu32`).
pub fn field_u32(file: &BlendFile, i: usize, st: &str, fld: &str) -> (r: Option<u32>)
    requires
        i < file@.blocks.len(),
    ensures
        r == fu32(file@, i as int, st@, fld@),
{
    let data = match file.read_block_slice(i) {
        Ok(d) => d,
        Err(_) => {
            return None;
        },
    };
    let view = match file.create_field_view(data) {
        Ok(v) => v,
        Err(_) => {
            return None;
        },
    };
    match view.read_field_u32(st, fld) {
        Ok(v) => Some(v),
        Err(_) => None,
    }
}

/// Reads `u16` field `fld` of struct `st` in block `i` (see `fu16`).
pub fn field_u16(file: &BlendFile, i: usize, st: &str, fld: &str) -> (r: Option<u16>)
    requires
        i < file@.blocks.len(),
    ensures
        r == fu16(file@, i as int, st@, fld@),
{
    let data = match file.read_block_slice(i) {
        Ok(d) => d,
        Err(_) => {
            return None;
        },
    };
    let view = match file.create_field_view(data) {
        Ok(v) => v,
        Err(_) => {
            return None;
        },
    };
    match view.find_field(st, fld) {
        Ok(fd) => match view.read_u16(fd.offset) {
            Ok(v) => Some(v),
            Err(_) => None,
        },
        Err(_) => None,
    }
}

/// The block a pointer points to (see `resolve`).
pub fn resolve_pointer(file: &BlendFile, p: u64) -> (r: Option<usize>)
    ensures
        r == resolve(file@, p),
        r matches Some(j) ==> j < file@.blocks.len(),
{
    proof {
        lemma_resolve_in_file(file@, p);
    }
    if p == 0 {
        return None;
    }
    file.find_block_by_address(p)
}

/// Appends the block that pointer field `fld` of struct `st` in block `i` points to.
pub fn push_ptr_dep(file: &BlendFile, i: usize, st: &str, fld: &str, deps: &mut Vec<usize>)
    requires
        i < file@.blocks.len(),
    ensures
        final(deps)@ == old(deps)@ + ptr_deps(file@, i as int, st@, fld@),
        deps_in_file(old(deps)@, file@.blocks.len() as int) ==> deps_in_file(final(deps)@, file@.blocks.len() as int),
{
    let ghost pre = deps@;
    match field_pointer(file, i, st, fld) {
        Some(p) => match resolve_pointer(file, p) {
            Some(j) => {
                deps.push(j);
                assert(deps@ =~= pre + seq![j]);
            },
            None => {
                assert(deps@ =~= pre + Seq::<usize>::empty());
            },
        },
        None => {
            assert(deps@ =~= pre + Seq::<usize>::empty());
        },
    }
}

/// The blocks that pointer fields `names` of struct `st` in block `i` point to, in order.
pub open spec fn fields_deps(f: BlendFileView, i: int, st: Seq<char>, names: Seq<Seq<char>>) -> Seq<usize>
    decreases names.len(),
{
    if names.len() == 0 {
        Seq::empty()
    } else {
        fields_deps(f, i, st, names.drop_last()) + ptr_deps(f, i, st, names.last())
    }
}

/// The views of some strings.
pub open spec fn str_views(names: Seq<&str>) -> Seq<Seq<char>> {
    names.map_values(|s: &str| s@)
}

/// The count a `short` field gives: its value, or 0 when it is negative.
pub open spec fn count_of(v: u16) -> nat {
    if v >= 0x8000 {
        0
    } else {
        v as nat
    }
}

/// The block that pointer `k` of the pointer array in block `j` points to, if any.
pub open spec fn elem_deps(f: BlendFileView, j: int, k: int) -> Seq<usize> {
    let ptr = f.header.pointer_size as usize;
    match spec_pointer(block_bytes(f.data, f.blocks[j]), k * ptr, ptr, f.header.is_little_endian) {
        Some(q) => match resolve(f, q) {
            Some(t) => seq![t],
            None => Seq::empty(),
        },
        None => Seq::empty(),
    }
}

/// The blocks the first `n` pointers of the pointer array in block `j` point to.
pub open spec fn elems_deps(f: BlendFileView, j: int, n: nat) -> Seq<usize>
    decreases n,
{
    if n == 0 {
        Seq::empty()
    } else {
        elems_deps(f, j, (n - 1) as nat) + elem_deps(f, j, n - 1)
    }
}

/// The blocks a counted pointer array points to: the count comes from field
/// `cnt` and the array from pointer field `arr` of struct `st` in block `i`;
/// `None` when either field cannot be read.
pub open spec fn array_deps(f: BlendFileView, i: int, st: Seq<char>, cnt: Seq<char>, arr: Seq<char>) -> Option<
    Seq<usize>,
> {
    match (fu16(f, i, st, cnt), fptr(f, i, st, arr)) {
        (Some(c), Some(p)) => Some(
            match resolve(f, p) {
                Some(j) => elems_deps(f, j as int, count_of(c)),
                None => Seq::empty(),
            },
        ),
        _ => None,
    }
}

/// The `k`-th pointer of the pointer array in block `j`, when it can be read.
pub open spec fn array_pointer(f: BlendFileView, j: int, k: int) -> Option<u64> {
    spec_pointer(
        block_bytes(f.data, f.blocks[j]),
        k * (f.header.pointer_size as usize),
        f.header.pointer_size as usize,
        f.header.is_little_endian,
    )
}

/// Whether pointer `k` of the array in block `j` can be read and points to a
/// block.
pub open spec fn pointer_resolves(f: BlendFileView, j: int, k: int) -> bool {
    array_pointer(f, j, k) matches Some(q) && resolve(f, q) is Some
}

/// The first `n` pointers of the array in block `j`, all readable and all
/// resolving, give `n` blocks: the `k`-th the one pointer `k` points to.
proof fn lemma_elems_all(f: BlendFileView, j: int, n: nat)
    requires
        forall|k: int|
            0 <= k < n ==> #[trigger] pointer_resolves(f, j, k),
    ensures
        elems_deps(f, j, n).len() == n,
        forall|k: int|
            0 <= k < n ==> elems_deps(f, j, n)[k] == resolve(f, #[trigger] array_pointer(f, j, k)->Some_0)->Some_0,
    decreases n,
{
    if n > 0 {
        lemma_elems_all(f, j, (n - 1) as nat);
        assert(pointer_resolves(f, j, n - 1));
        let prev = elems_deps(f, j, (n - 1) as nat);
        let last = elem_deps(f, j, n - 1);
        assert(last.len() == 1);
        assert forall|k: int|
            0 <= k < n implies elems_deps(f, j, n)[k] == resolve(f, #[trigger] array_pointer(f, j, k)->Some_0)->Some_0 by {
            if k < n - 1 {
                assert(elems_deps(f, j, n)[k] == prev[k]);
            }
        }
    }
}

/// A counted pointer array is read whole: where the count field reads `c`
/// (below 0x8000, so not negative), the array field points to block `j`, and
/// the first `c` pointers of that block can be read and all resolve, the
/// result has exactly `c` blocks, the `k`-th the one pointer `k` points to.
pub proof fn lemma_pointer_array_whole(
    f: BlendFileView,
    i: int,
    st: Seq<char>,
    cnt: Seq<char>,
    arr: Seq<char>,
    c: u16,
    j: usize,
)
    requires
        fu16(f, i, st, cnt) == Some(c),
        c < 0x8000,
        fptr(f, i, st, arr) matches Some(p) && resolve(f, p) == Some(j),
        forall|k: int|
            0 <= k < c ==> #[trigger] pointer_resolves(f, j as int, k),
    ensures
        array_deps(f, i, st, cnt, arr) matches Some(s) && s.len() == c && forall|k: int|
            0 <= k < c ==> s[k] == resolve(f, #[trigger] array_pointer(f, j as int, k)->Some_0)->Some_0,
{
    lemma_elems_all(f, j as int, c as nat);
}

/// Following pointer fields of a block to the blocks they point to.
pub struct PointerTraversal;

impl PointerTraversal {
    /// The blocks that pointer fields `field_names` of struct `struct_name` in
    /// block `block_index` point to, in order; null and unknown addresses and
    /// unreadable fields are skipped.
    pub fn read_pointer_fields(file: &BlendFile, block_index: usize, struct_name: &str, field_names: &[&str]) -> (r:
        Result<Vec<usize>>)
        ensures
            match r {
                Ok(v) => block_index < file@.blocks.len() && v@ == fields_deps(
                    file@,
                    block_index as int,
                    struct_name@,
                    str_views(field_names@),
                ) && deps_in_file(v@, file@.blocks.len() as int),
                Err(e) => block_index >= file@.blocks.len() && is_blend_error(
                    e,
                    BlendFileErrorKind::InvalidBlockIndex,
                ),
            },
    {
        if block_index >= file.blocks_len() {
            return Err(Dot001Error::blend_file("Invalid block index", BlendFileErrorKind::InvalidBlockIndex));
        }
        let mut deps: Vec<usize> = Vec::new();
        let mut k: usize = 0;
        assert(str_views(field_names@).subrange(0, 0) =~= Seq::<Seq<char>>::empty());
        while k < field_names.len()
            invariant
                k <= field_names.len(),
                block_index < file@.blocks.len(),
                deps@ == fields_deps(
                    file@,
                    block_index as int,
                    struct_name@,
                    str_views(field_names@).subrange(0, k as int),
                ),
                deps_in_file(deps@, file@.blocks.len() as int),
            decreases field_names.len() - k,
        {
            let ghost names = str_views(field_names@);
            assert(names.subrange(0, k + 1).drop_last() =~= names.subrange(0, k as int));
            assert(names.subrange(0, k + 1).last() == field_names@[k as int]@);
            push_ptr_dep(file, block_index, struct_name, field_names[k], &mut deps);
            k = k + 1;
        }
        assert(str_views(field_names@).subrange(0, field_names.len() as int) =~= str_views(field_names@));
        Ok(deps)
    }

    /// The blocks a counted pointer array points to (see `array_deps`).
    ///
    /// Fails with `InvalidBlockIndex` for a block that does not exist and with
    /// `InvalidField` when the count or the array field cannot be read.
    pub fn read_pointer_array(
        file: &BlendFile,
        block_index: usize,
        struct_name: &str,
        count_field: &str,
        array_field: &str,
    ) -> (r: Result<Vec<usize>>)
        ensures
            match r {
                Ok(v) => block_index < file@.blocks.len() && array_deps(
                    file@,
                    block_index as int,
                    struct_name@,
                    count_field@,
                    array_field@,
                ) == Some(v@) && deps_in_file(v@, file@.blocks.len() as int),
                Err(e) => (block_index >= file@.blocks.len() && is_blend_error(
                    e,
                    BlendFileErrorKind::InvalidBlockIndex,
                )) || (block_index < file@.blocks.len() && array_deps(
                    file@,
                    block_index as int,
                    struct_name@,
                    count_field@,
                    array_field@,
                ) is None && is_blend_error(e, BlendFileErrorKind::InvalidField)),
            },
    {
        if block_index >= file.blocks_len() {
            return Err(Dot001Error::blend_file("Invalid block index", BlendFileErrorKind::InvalidBlockIndex));
        }
        let c = match field_u16(file, block_index, struct_name, count_field) {
            Some(c) => c,
            None => {
                return Err(Dot001Error::blend_file("Count field not readable", BlendFileErrorKind::InvalidField));
            },
        };
        let p = match field_pointer(file, block_index, struct_name, array_field) {
            Some(p) => p,
            None => {
                return Err(Dot001Error::blend_file("Array field not readable", BlendFileErrorKind::InvalidField));
            },
        };
        let mut deps: Vec<usize> = Vec::new();
        let j = match resolve_pointer(file, p) {
            Some(j) => j,
            None => {
                return Ok(deps);
            },
        };
        let n: u16 = if c >= 0x8000u16 {
            0
        } else {
            c
        };
        let data = match file.read_block_slice(j) {
            Ok(d) => d,
            Err(_) => {
                return Ok(deps);
            },
        };
        let ptr = file.header().pointer_size as usize;
        let le = file.header().is_little_endian;
        let mut k: u16 = 0;
        while k < n
            invariant
                k <= n,
                n == count_of(c),
                j < file@.blocks.len(),
                data@ == block_bytes(file@.data, file@.blocks[j as int]),
                ptr == file@.header.pointer_size as usize,
                le == file@.header.is_little_endian,
                deps@ == elems_deps(file@, j as int, k as nat),
                deps_in_file(deps@, file@.blocks.len() as int),
            decreases n - k,
        {
            assert((k as usize) * ptr <= 65535 * 255) by (nonlinear_arith)
                requires
                    k <= 65535,
                    ptr <= 255,
            ;
            let off = (k as usize) * ptr;
            let ghost pre = deps@;
            let q: Option<u64> = if ptr == 4 {
                if off <= data.len() && data.len() - off >= 4 {
                    Some(crate::binary::read_u32_at(data, off, le) as u64)
                } else {
                    None
                }
            } else if ptr == 8 {
                if off <= data.len() && data.len() - off >= 8 {
                    Some(crate::binary::read_u64_at(data, off, le))
                } else {
                    None
                }
            } else {
                None
            };
            assert(q == spec_pointer(data@, k * ptr, ptr, le));
            match q {
                Some(q) => match resolve_pointer(file, q) {
                    Some(t) => {
                        deps.push(t);
                    },
                    None => {},
                },
                None => {},
            }
            assert(deps@ =~= pre + elem_deps(file@, j as int, k as int));
            k = k + 1;
        }
        Ok(deps)
    }
}

/// The text field `fld` of struct `st` in block `i`, when it can be read.
pub open spec fn fstr(f: BlendFileView, i: int, st: Seq<char>, fld: Seq<char>) -> Option<Seq<char>> {
    let m = bview(f, i);
    match spec_find_field(m.dna, st, fld) {
        Some(fd) => if fd.offset + fd.size <= m.data.len() {
            Some(
                crate::text::lossy_utf8(
                    crate::fieldview::until_nul(m.data.subrange(fd.offset as int, fd.offset + fd.size)),
                ),
            )
        } else {
            None
        },
        None => None,
    }
}

/// Reads text field `fld` of struct `st` in block `i` (see `fstr`).
pub fn field_string(file: &BlendFile, i: usize, st: &str, fld: &str) -> (r: Option<String>)
    requires
        i < file@.blocks.len(),
    ensures
        match r {
            Some(s) => fstr(file@, i as int, st@, fld@) == Some(s@),
            None => fstr(file@, i as int, st@, fld@) is None,
        },
{
    let data = match file.read_block_slice(i) {
        Ok(d) => d,
        Err(_) => {
            return None;
        },
    };
    let view = match file.create_field_view(data) {
        Ok(v) => v,
        Err(_) => {
            return None;
        },
    };
    match view.read_field_string(st, fld) {
        Ok(s) => Some(s),
        Err(_) => None,
    }
}

} // verus!
