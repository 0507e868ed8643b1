use dot001::block::{BlendFileBlock, BlockHeader};
use dot001::index::{
    build_address_index, build_block_index, build_indices, build_indices_sequential, AddressIndexExt,
    BlockIndexExt,
};

fn create_test_block(code: [u8; 4], address: u64) -> BlendFileBlock {
    BlendFileBlock {
        header: BlockHeader { code, size: 100, old_address: address, sdna_index: 1, count: 1 },
        data_offset: 0,
        header_offset: 0,
    }
}

#[test]
fn test_block_index_building() {
    let blocks = vec![
        create_test_block(*b"MESH", 0x1000),
        create_test_block(*b"OB  ", 0x2000),
        create_test_block(*b"MESH", 0x3000),
    ];

    let index = build_block_index(&blocks);

    assert_eq!(index.blocks_by_type(b"MESH"), vec![0, 2]);
    assert_eq!(index.blocks_by_type(b"OB  "), vec![1]);
    assert_eq!(index.blocks_by_type(b"XXXX"), Vec::<usize>::new());

    assert!(index.has_blocks_of_type(b"MESH"));
    assert!(index.has_blocks_of_type(b"OB  "));
    assert!(!index.has_blocks_of_type(b"XXXX"));

    assert_eq!(index.count_blocks_of_type(b"MESH"), 2);
    assert_eq!(index.count_blocks_of_type(b"OB  "), 1);
    assert_eq!(index.count_blocks_of_type(b"XXXX"), 0);
}

#[test]
fn test_address_index_building() {
    let blocks = vec![
        create_test_block(*b"MESH", 0x1000),
        create_test_block(*b"OB  ", 0x2000),
        create_test_block(*b"MESH", 0x3000),
    ];

    let index = build_address_index(&blocks);

    assert_eq!(index.find_block_by_address(0x1000), Some(0));
    assert_eq!(index.find_block_by_address(0x2000), Some(1));
    assert_eq!(index.find_block_by_address(0x3000), Some(2));
    assert_eq!(index.find_block_by_address(0x4000), None);
}

#[test]
fn test_build_indices() {
    let blocks = vec![create_test_block(*b"MESH", 0x1000), create_test_block(*b"OB  ", 0x2000)];

    let (block_index, address_index) = build_indices(&blocks);

    assert_eq!(block_index.blocks_by_type(b"MESH"), vec![0]);
    assert_eq!(address_index.find_block_by_address(0x1000), Some(0));
}

#[test]
fn the_last_block_at_an_address_wins() {
    let blocks = vec![
        create_test_block(*b"DATA", 0x10),
        create_test_block(*b"DATA", 0x10),
        create_test_block(*b"DATA", 0x20),
    ];
    let (by_code, by_addr) = build_indices_sequential(&blocks);
    assert_eq!(by_addr.find_block_by_address(0x10), Some(1));
    assert_eq!(by_code.blocks_by_type(b"DATA"), vec![0, 1, 2]);
    let empty = build_block_index(&[]);
    assert!(!empty.has_blocks_of_type(b"DATA"));
    assert_eq!(build_address_index(&[]).find_block_by_address(0), None);
}
