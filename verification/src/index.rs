//! Lookup tables over the blocks of a file: block indices by code, and the
//! block saved at each address. Both are `ahash` hash maps.
use vstd::prelude::*;
use ahash::AHashMap;
use crate::block::BlendFileBlock;
use crate::blendfile::{addr_index_matches, addr_pos, indices_with_code};

verus! {

#[verifier::external_type_specification]
#[verifier::external_body]
#[verifier::reject_recursive_types(K)]
#[verifier::reject_recursive_types(V)]
#[verifier::reject_recursive_types(S)]
pub struct ExAHashMap<K, V, S>(AHashMap<K, V, S>);

#[verifier::external_type_specification]
#[verifier::external_body]
pub struct ExRandomState(ahash::RandomState);

/// Block indices by block code.
pub type BlockIndex = AHashMap<[u8; 4], Vec<usize>>;

/// The index of the block saved at each address.
pub type AddressIndex = AHashMap<u64, usize>;

/// What a block index holds: for each code (by its bytes), the list of indices.
pub uninterp spec fn block_index_contents(m: AHashMap<[u8; 4], Vec<usize>>) -> Map<Seq<u8>, Seq<usize>>;

/// What an address index holds: for each address, a block index.
pub uninterp spec fn address_index_contents(m: AHashMap<u64, usize>) -> Map<u64, usize>;

/// An empty block index (`AHashMap::with_capacity`).
#[verifier::external_body]
fn new_block_index(capacity: usize) -> (r: BlockIndex)
    ensures
        block_index_contents(r).dom() == Set::<Seq<u8>>::empty(),
{
    AHashMap::with_capacity(capacity)
}

/// Appends `i` to the list of `code`, which starts empty when `code` has none
/// yet (`entry(code).or_default().push(i)`).
#[verifier::external_body]
fn block_index_push(m: &mut BlockIndex, code: [u8; 4], i: usize)
    ensures
        block_index_contents(*final(m)) == block_index_contents(*old(m)).insert(
            code@,
            (if block_index_contents(*old(m)).contains_key(code@) {
                block_index_contents(*old(m))[code@]
            } else {
                Seq::empty()
            }).push(i),
        ),
{
    m.entry(code).or_default().push(i);
}

/// The list of `code`, if it has one (`AHashMap::get`).
#[verifier::external_body]
fn block_index_get<'a>(m: &'a BlockIndex, code: &[u8; 4]) -> (r: Option<&'a Vec<usize>>)
    ensures
        match r {
            Some(v) => block_index_contents(*m).contains_key(code@) && v@ == block_index_contents(*m)[code@],
            None => !block_index_contents(*m).contains_key(code@),
        },
{
    m.get(code)
}

/// Releases spare capacity (`shrink_to_fit`); the contents stay.
#[verifier::external_body]
fn block_index_shrink(m: &mut BlockIndex)
    ensures
        block_index_contents(*final(m)) == block_index_contents(*old(m)),
{
    m.shrink_to_fit();
}

/// An empty address index (`AHashMap::with_capacity`).
#[verifier::external_body]
fn new_address_index(capacity: usize) -> (r: AddressIndex)
    ensures
        address_index_contents(r).dom() == Set::<u64>::empty(),
{
    AHashMap::with_capacity(capacity)
}

/// Maps `address` to `i`, replacing an earlier entry (`AHashMap::insert`).
#[verifier::external_body]
fn address_index_insert(m: &mut AddressIndex, address: u64, i: usize)
    ensures
        address_index_contents(*final(m)) == address_index_contents(*old(m)).insert(address, i),
{
    m.insert(address, i);
}

/// The entry of `address`, if it has one (`AHashMap::get`).
#[verifier::external_body]
fn address_index_get<'a>(m: &'a AddressIndex, address: u64) -> (r: Option<&'a usize>)
    ensures
        match r {
            Some(v) => address_index_contents(*m).contains_key(address) && *v == address_index_contents(*m)[address],
            None => !address_index_contents(*m).contains_key(address),
        },
{
    m.get(&address)
}

/// Releases spare capacity (`shrink_to_fit`); the contents stay.
#[verifier::external_body]
fn address_index_shrink(m: &mut AddressIndex)
    ensures
        address_index_contents(*final(m)) == address_index_contents(*old(m)),
{
    m.shrink_to_fit();
}

/// Whether `m` lists, for every code that occurs among the first `n` blocks,
/// the indices of the blocks with that code in order, and has no other codes.
pub open spec fn block_index_of(m: Map<Seq<u8>, Seq<usize>>, blocks: Seq<BlendFileBlock>, n: int) -> bool {
    &&& forall|c: Seq<u8>| #[trigger] m.contains_key(c) <==> indices_with_code(blocks, c, n).len() > 0
    &&& forall|c: Seq<u8>| #[trigger] m.contains_key(c) ==> m[c] == indices_with_code(blocks, c, n)
}

/// Builds the index of blocks by code.
pub fn build_block_index(blocks: &[BlendFileBlock]) -> (r: BlockIndex)
    ensures
        block_index_of(block_index_contents(r), blocks@, blocks@.len() as int),
{
    let mut index = new_block_index(32);
    let mut i: usize = 0;
    while i < blocks.len()
        invariant
            i <= blocks.len(),
            block_index_of(block_index_contents(index), blocks@, i as int),
        decreases blocks.len() - i,
    {
        let code = blocks[i].header.code;
        let ghost old_m = block_index_contents(index);
        block_index_push(&mut index, code, i);
        let ghost new_m = block_index_contents(index);
        assert forall|c: Seq<u8>| #[trigger] new_m.contains_key(c) <==> indices_with_code(
            blocks@,
            c,
            i + 1,
        ).len() > 0 by {
            if c == code@ {
                assert(indices_with_code(blocks@, c, i + 1) == indices_with_code(blocks@, c, i as int).push(i));
            }
        }
        assert forall|c: Seq<u8>| #[trigger] new_m.contains_key(c) implies new_m[c] == indices_with_code(
            blocks@,
            c,
            i + 1,
        ) by {
            if c == code@ {
                assert(indices_with_code(blocks@, c, i + 1) == indices_with_code(blocks@, c, i as int).push(i));
                if !old_m.contains_key(c) {
                    assert(indices_with_code(blocks@, c, i as int).len() == 0);
                    assert(indices_with_code(blocks@, c, i as int) =~= Seq::<usize>::empty());
                }
            }
        }
        i = i + 1;
    }
    block_index_shrink(&mut index);
    index
}

/// Builds the index of the last block saved at each address.
pub fn build_address_index(blocks: &[BlendFileBlock]) -> (r: AddressIndex)
    ensures
        addr_index_matches(address_index_contents(r), blocks@),
{
    let mut index = new_address_index(blocks.len());
    let mut i: usize = 0;
    assert(blocks@.subrange(0, 0) =~= Seq::<BlendFileBlock>::empty());
    while i < blocks.len()
        invariant
            i <= blocks.len(),
            addr_index_matches(address_index_contents(index), blocks@.subrange(0, i as int)),
        decreases blocks.len() - i,
    {
        let ghost nxt = blocks@.subrange(0, i + 1);
        assert(nxt.drop_last() =~= blocks@.subrange(0, i as int));
        address_index_insert(&mut index, blocks[i].header.old_address, i);
        i = i + 1;
    }
    assert(blocks@.subrange(0, blocks.len() as int) =~= blocks@);
    address_index_shrink(&mut index);
    index
}

/// Builds both indices, one after the other.
pub fn build_indices_sequential(blocks: &[BlendFileBlock]) -> (r: (BlockIndex, AddressIndex))
    ensures
        block_index_of(block_index_contents(r.0), blocks@, blocks@.len() as int),
        addr_index_matches(address_index_contents(r.1), blocks@),
{
    let block_index = build_block_index(blocks);
    let address_index = build_address_index(blocks);
    (block_index, address_index)
}

/// Builds both indices.
pub fn build_indices(blocks: &[BlendFileBlock]) -> (r: (BlockIndex, AddressIndex))
    ensures
        block_index_of(block_index_contents(r.0), blocks@, blocks@.len() as int),
        addr_index_matches(address_index_contents(r.1), blocks@),
{
    build_indices_sequential(blocks)
}

/// Lookups by block code.
pub trait BlockIndexExt {
    /// The indices of the blocks of a code (empty when there are none).
    fn blocks_by_type(&self, block_type: &[u8; 4]) -> Vec<usize>;

    /// Whether some block has the code.
    fn has_blocks_of_type(&self, block_type: &[u8; 4]) -> bool;

    /// The number of blocks with the code.
    fn count_blocks_of_type(&self, block_type: &[u8; 4]) -> usize;
}

/// The list a block index holds for `code`, or nothing.
pub open spec fn listed(m: Map<Seq<u8>, Seq<usize>>, code: Seq<u8>) -> Seq<usize> {
    if m.contains_key(code) {
        m[code]
    } else {
        Seq::empty()
    }
}

impl BlockIndexExt for AHashMap<[u8; 4], Vec<usize>> {
    fn blocks_by_type(&self, block_type: &[u8; 4]) -> (r: Vec<usize>)
        ensures
            r@ == listed(block_index_contents(*self), block_type@),
    {
        match block_index_get(self, block_type) {
            Some(v) => {
                let mut out: Vec<usize> = Vec::new();
                let mut k: usize = 0;
                while k < v.len()
                    invariant
                        k <= v.len(),
                        out@ == v@.subrange(0, k as int),
                    decreases v.len() - k,
                {
                    out.push(v[k]);
                    assert(v@.subrange(0, k + 1) =~= v@.subrange(0, k as int).push(v@[k as int]));
                    k = k + 1;
                }
                assert(v@.subrange(0, v.len() as int) =~= v@);
                out
            },
            None => Vec::new(),
        }
    }

    fn has_blocks_of_type(&self, block_type: &[u8; 4]) -> (r: bool)
        ensures
            r == (listed(block_index_contents(*self), block_type@).len() > 0),
    {
        match block_index_get(self, block_type) {
            Some(v) => v.len() > 0,
            None => false,
        }
    }

    fn count_blocks_of_type(&self, block_type: &[u8; 4]) -> (r: usize)
        ensures
            r == listed(block_index_contents(*self), block_type@).len(),
    {
        match block_index_get(self, block_type) {
            Some(v) => v.len(),
            None => 0,
        }
    }
}

/// Lookups by address.
pub trait AddressIndexExt {
    /// The block saved at the address, if any.
    fn find_block_by_address(&self, address: u64) -> Option<usize>;
}

impl AddressIndexExt for AHashMap<u64, usize> {
    fn find_block_by_address(&self, address: u64) -> (r: Option<usize>)
        ensures
            match r {
                Some(i) => address_index_contents(*self).contains_key(address) && i
                    == address_index_contents(*self)[address],
                None => !address_index_contents(*self).contains_key(address),
            },
    {
        match address_index_get(self, address) {
            Some(i) => Some(*i),
            None => None,
        }
    }
}

/// Looking an address up in a built address index gives the last block saved there.
pub proof fn lemma_address_lookup(m: Map<u64, usize>, blocks: Seq<BlendFileBlock>, a: u64)
    requires
        addr_index_matches(m, blocks),
    ensures
        m.contains_key(a) ==> m[a] == addr_pos(blocks, a),
        !m.contains_key(a) <==> addr_pos(blocks, a) == -1,
{
    crate::blendfile::lemma_addr_pos_bounds(blocks, a);
}

/// A built block index lists, for any code, exactly the blocks with that code
/// in file order (what `BlendFile::blocks_by_type` gives).
pub proof fn lemma_block_index_lists(m: Map<Seq<u8>, Seq<usize>>, blocks: Seq<BlendFileBlock>, code: Seq<u8>)
    requires
        block_index_of(m, blocks, blocks.len() as int),
    ensures
        listed(m, code) == indices_with_code(blocks, code, blocks.len() as int),
{
    if !m.contains_key(code) {
        assert(indices_with_code(blocks, code, blocks.len() as int).len() == 0);
        assert(indices_with_code(blocks, code, blocks.len() as int) =~= Seq::<usize>::empty());
    }
}

} // verus!
