use dot001::blendfile::BlendFile;
use dot001::cli::{
    block_display, cmd_blocks, cmd_build_blend, cmd_lib_link, dependency_lines, determine_target_collection,
    filter_dependencies, find_collections_in_library, read_id_link_info, read_library_link,
    reconstruct_id_name, resolve_block_identifier, should_filter_block, DisplayTemplate, LibLinkOutcome,
};
use dot001::error::{CliErrorKind, Dot001Error};

fn cstrs(items: &[&str]) -> Vec<u8> {
    let mut out = Vec::new();
    for s in items {
        out.extend_from_slice(s.as_bytes());
        out.push(0);
    }
    while out.len() % 4 != 0 {
        out.push(0);
    }
    out
}

/// SDNA with types void, char, ID (266), Collection (266), Object (266) and
/// structs ID { char name[258]; void *lib; }, Collection { ID id; }, Object { ID id; }.
fn sdna() -> Vec<u8> {
    let mut d = b"SDNANAME".to_vec();
    d.extend_from_slice(&3u32.to_le_bytes());
    d.extend_from_slice(&cstrs(&["name[258]", "*lib", "id"]));
    d.extend_from_slice(b"TYPE");
    d.extend_from_slice(&5u32.to_le_bytes());
    d.extend_from_slice(&cstrs(&["void", "char", "ID", "Collection", "Object"]));
    d.extend_from_slice(b"TLEN");
    for s in [0u16, 1, 266, 266, 266] {
        d.extend_from_slice(&s.to_le_bytes());
    }
    while d.len() % 4 != 0 {
        d.push(0);
    }
    d.extend_from_slice(b"STRC");
    d.extend_from_slice(&3u32.to_le_bytes());
    for (t, fields) in [(2u16, vec![(1u16, 0u16), (0, 1)]), (3, vec![(2, 2)]), (4, vec![(2, 2)])] {
        d.extend_from_slice(&t.to_le_bytes());
        d.extend_from_slice(&(fields.len() as u16).to_le_bytes());
        for (ft, fname) in fields {
            d.extend_from_slice(&ft.to_le_bytes());
            d.extend_from_slice(&fname.to_le_bytes());
        }
    }
    d
}

fn block(out: &mut Vec<u8>, code: &[u8; 4], addr: u64, payload: &[u8]) {
    out.extend_from_slice(code);
    out.extend_from_slice(&(payload.len() as u32).to_le_bytes());
    out.extend_from_slice(&addr.to_le_bytes());
    out.extend_from_slice(&0u32.to_le_bytes());
    out.extend_from_slice(&1u32.to_le_bytes());
    out.extend_from_slice(payload);
}

fn id(name: &str, lib: u64) -> Vec<u8> {
    let mut p = vec![0u8; 266];
    p[..name.len()].copy_from_slice(name.as_bytes());
    p[258..266].copy_from_slice(&lib.to_le_bytes());
    p
}

/// 0 GR `Main`; 1 GR `Props`; 2 OB `Linked` from library 0x500; 3 DATA; 4 DNA1.
fn file() -> BlendFile {
    let mut f = b"BLENDER-v300".to_vec();
    block(&mut f, b"GR\0\0", 0x100, &id("GRMain", 0));
    block(&mut f, b"GR\0\0", 0x200, &id("GRProps", 0));
    block(&mut f, b"OB\0\0", 0x300, &id("OBLinked", 0x500));
    block(&mut f, b"DATA", 0x400, &[1, 2, 3, 4]);
    block(&mut f, b"DNA1", 0, &sdna());
    block(&mut f, b"ENDB", 0, &[]);
    BlendFile::new(f).expect("test file opens")
}

fn cli_kind(e: &Dot001Error) -> Option<CliErrorKind> {
    match e {
        Dot001Error::Cli { kind, .. } => Some(*kind),
        _ => None,
    }
}

#[test]
fn finds_the_collections_of_a_library() {
    let f = file();
    let cols = find_collections_in_library(&f);
    assert_eq!(cols, vec![(0, "Main".to_string()), (1, "Props".to_string())]);
}

#[test]
fn chooses_the_target_collection() {
    let two = vec![(0, "Main".to_string()), (1, "Props".to_string())];
    assert_eq!(determine_target_collection(&two, Some("Props".to_string())).unwrap(), "Props");
    let e = determine_target_collection(&two, Some("Nope".to_string())).unwrap_err();
    assert_eq!(cli_kind(&e), Some(CliErrorKind::InvalidArguments));
    assert_eq!(e.user_message(), "Command failed: Target collection 'Nope' not found in library");
    let e = determine_target_collection(&two, None).unwrap_err();
    assert_eq!(cli_kind(&e), Some(CliErrorKind::MissingArgument));
    assert_eq!(
        e.user_message(),
        "Command failed: Multiple collections available (2), specify --target-name"
    );
    let one = vec![(4, "Only".to_string())];
    assert_eq!(determine_target_collection(&one, None).unwrap(), "Only");
    let e = determine_target_collection(&[], None).unwrap_err();
    assert_eq!(cli_kind(&e), Some(CliErrorKind::ExecutionFailed));
}

#[test]
fn reads_link_info_and_rewrites_the_name() {
    let f = file();
    let info = read_id_link_info(&f, 2).unwrap();
    assert_eq!(info.name, "Linked");
    assert_eq!(info.lib_ptr, 0x500);
    let data = reconstruct_id_name(&f, 2, "Props").unwrap();
    assert_eq!(data.len(), 266);
    assert_eq!(&data[..8], b"GRProps\0");
    assert!(data[7..258].iter().all(|b| *b == 0));
    assert_eq!(&data[258..], &0x500u64.to_le_bytes());
    let long = "x".repeat(400);
    let data = reconstruct_id_name(&f, 2, &long).unwrap();
    assert_eq!(data[256], b'x');
    assert_eq!(data[257], 0);
    let e = reconstruct_id_name(&f, 3, "Props").unwrap_err();
    assert_eq!(cli_kind(&e), Some(CliErrorKind::ExecutionFailed));
    let e = reconstruct_id_name(&f, 40, "Props").unwrap_err();
    assert!(e.is_blend_file());
}

#[test]
fn lists_blocks_with_or_without_data() {
    let f = file();
    assert!(should_filter_block(3, &f, false));
    assert!(!should_filter_block(3, &f, true));
    assert!(!should_filter_block(2, &f, false));
    assert_eq!(filter_dependencies(&[3, 2, 3, 0], &f, false), vec![2, 0]);
    let mut out = Vec::new();
    cmd_blocks(&f, "lib.blend", false, DisplayTemplate::Simple, &mut out);
    assert_eq!(
        out,
        vec!["Blocks in lib.blend:", "  Block 0 (GR)", "  Block 1 (GR)", "  Block 2 (OB)", "  Block 4 (DNA1)"]
    );
    assert_eq!(block_display(&f, 3, DisplayTemplate::Detailed), "Block 3 (DATA), 4 bytes");
    assert_eq!(block_display(&f, 2, DisplayTemplate::Compact), "2:OB");
}

#[test]
fn lists_dependencies() {
    let f = file();
    assert_eq!(dependency_lines(&f, &[], DisplayTemplate::Simple), vec!["  No dependencies found"]);
    assert_eq!(
        dependency_lines(&f, &[2, 0], DisplayTemplate::Simple),
        vec!["  Found 2 dependencies:", "    1: Block 2 (OB)", "    2: Block 0 (GR)"]
    );
}

#[test]
fn build_blend_checks_its_arguments() {
    let e = cmd_build_blend("", "out.blend", Vec::new()).unwrap_err();
    assert_eq!(cli_kind(&e), Some(CliErrorKind::MissingArgument));
    assert_eq!(e.user_message(), "Command failed: Missing --seed path");
    let e = cmd_build_blend("seed.blend", "", Vec::new()).unwrap_err();
    assert_eq!(e.user_message(), "Command failed: Missing --out path");
    let e = cmd_build_blend("seed.blend", "out.blend", b"nonsense".to_vec()).unwrap_err();
    assert!(e.is_blend_file());
    let mut seed = b"BLENDER-v300".to_vec();
    block(&mut seed, b"DNA1", 0, &sdna());
    block(&mut seed, b"ENDB", 0, &[]);
    let out = cmd_build_blend("seed.blend", "out.blend", seed).unwrap();
    assert_eq!(&out[..17], b"BLENDER17-01v0500");
    let g = BlendFile::new(out).unwrap();
    assert_eq!(g.dna().unwrap().structs.len(), 3);
}

#[test]
fn resolves_block_identifiers() {
    let f = file();
    assert_eq!(resolve_block_identifier(&f, "2"), Some(2));
    assert_eq!(resolve_block_identifier(&f, "+0"), Some(0));
    assert_eq!(resolve_block_identifier(&f, "Props"), Some(1));
    assert_eq!(resolve_block_identifier(&f, "Linked"), Some(2));
    assert_eq!(resolve_block_identifier(&f, "99"), None);
    assert_eq!(resolve_block_identifier(&f, "Nope"), None);
}

/// SDNA of `sdna()` with one more struct, Library { ID id; char name[16]; }.
fn sdna_with_library() -> Vec<u8> {
    let mut d = b"SDNANAME".to_vec();
    d.extend_from_slice(&4u32.to_le_bytes());
    d.extend_from_slice(&cstrs(&["name[258]", "*lib", "id", "name[16]"]));
    d.extend_from_slice(b"TYPE");
    d.extend_from_slice(&6u32.to_le_bytes());
    d.extend_from_slice(&cstrs(&["void", "char", "ID", "Collection", "Object", "Library"]));
    d.extend_from_slice(b"TLEN");
    for s in [0u16, 1, 266, 266, 266, 282] {
        d.extend_from_slice(&s.to_le_bytes());
    }
    while d.len() % 4 != 0 {
        d.push(0);
    }
    d.extend_from_slice(b"STRC");
    d.extend_from_slice(&4u32.to_le_bytes());
    let structs = [
        (2u16, vec![(1u16, 0u16), (0, 1)]),
        (3, vec![(2, 2)]),
        (4, vec![(2, 2)]),
        (5, vec![(2, 2), (1, 3)]),
    ];
    for (t, fields) in structs {
        d.extend_from_slice(&t.to_le_bytes());
        d.extend_from_slice(&(fields.len() as u16).to_le_bytes());
        for (ft, fname) in fields {
            d.extend_from_slice(&ft.to_le_bytes());
            d.extend_from_slice(&fname.to_le_bytes());
        }
    }
    d
}

/// 0 GR `Main`; 1 OB `Local`; 2 OB `Linked` from the library at 0x500;
/// 3 OB `Dangling` from 0x900, where no block is; 4 LI `//lib.blend` at 0x500.
fn linked_file() -> BlendFile {
    let mut f = b"BLENDER-v300".to_vec();
    block(&mut f, b"GR\0\0", 0x100, &id("GRMain", 0));
    block(&mut f, b"OB\0\0", 0x200, &id("OBLocal", 0));
    block(&mut f, b"OB\0\0", 0x300, &id("OBLinked", 0x500));
    block(&mut f, b"OB\0\0", 0x400, &id("OBDangling", 0x900));
    let mut lib = id("LIlib", 0);
    let mut path = [0u8; 16];
    path[..11].copy_from_slice(b"//lib.blend");
    lib.extend_from_slice(&path);
    block(&mut f, b"LI\0\0", 0x500, &lib);
    block(&mut f, b"DNA1", 0, &sdna_with_library());
    block(&mut f, b"ENDB", 0, &[]);
    BlendFile::new(f).expect("linked test file opens")
}

#[test]
fn reads_the_library_link_of_an_id() {
    let f = linked_file();
    let link = read_library_link(&f, 2).unwrap().unwrap();
    assert_eq!(link.name, "Linked");
    assert_eq!(link.lib_index, 4);
    assert_eq!(link.lib_filepath, "//lib.blend");
    assert!(read_library_link(&f, 1).unwrap().is_none());
    let e = read_library_link(&f, 3).err().unwrap();
    assert_eq!(cli_kind(&e), Some(CliErrorKind::ExecutionFailed));
    assert_eq!(e.user_message(), "Command failed: Lib pointer does not point to a valid block");
}

#[test]
fn relinks_to_a_library_collection() {
    let f = linked_file();
    let available = vec![(0, "Main".to_string()), (1, "Props".to_string())];
    match cmd_lib_link(&f, 2, &available, Some("Props".to_string()), true).unwrap() {
        LibLinkOutcome::DryRun { target } => assert_eq!(target, "Props"),
        _ => panic!("a dry run writes nothing"),
    }
    match cmd_lib_link(&f, 2, &available, Some("Main".to_string()), false).unwrap() {
        LibLinkOutcome::Rewritten { target, data, data_offset } => {
            assert_eq!(target, "Main");
            assert_eq!(data, reconstruct_id_name(&f, 2, "Main").unwrap());
            assert_eq!(&data[..7], b"GRMain\0");
            assert_eq!(data_offset, f.get_block(2).unwrap().data_offset);
        }
        _ => panic!("expected new block data"),
    }
    let e = cmd_lib_link(&f, 2, &available, None, false).err().unwrap();
    assert_eq!(cli_kind(&e), Some(CliErrorKind::MissingArgument));
    let e = cmd_lib_link(&f, 2, &available, Some("Nope".to_string()), true).err().unwrap();
    assert_eq!(cli_kind(&e), Some(CliErrorKind::InvalidArguments));
    let e = cmd_lib_link(&f, 5, &available[..1], None, false).err().unwrap();
    assert_eq!(cli_kind(&e), Some(CliErrorKind::ExecutionFailed));
}
