use dot001::blendfile::{from_bytes_buf, parse_from_reader, BlendFile, DecompressionMode};
use dot001::bpath::BlendPath;
use dot001::editor::{validate_new_name, BlendEditor};
use dot001::error::{BlendFileErrorKind, Dot001Error, EditorErrorKind};
use dot001::expanders::{BlockExpander, LibraryExpander, MaterialExpander, MeshExpander, ObjectExpander};
use dot001::traversal::{field_string, PointerTraversal};
use dot001::cli::{build_text_tree, cmd_dependencies, DisplayTemplate, OutputFormat, TreeFormatter};
use dot001::error::CliErrorKind;
use dot001::tracer::{DependencyNode, DependencyTracer, ExpanderKind, TracerOptions};
use dot001::writer::{BlendWriter, SeedDnaProvider, WriteTemplate};

fn cstr_list(items: &[&str]) -> Vec<u8> {
    let mut out = Vec::new();
    for s in items {
        out.extend_from_slice(s.as_bytes());
        out.push(0);
    }
    out
}

fn pad4(v: &mut Vec<u8>) {
    while v.len() % 4 != 0 {
        v.push(0);
    }
}

/// The SDNA of the test file: types void, char, short, ID, Object, Mesh,
/// Material, Library; structs ID, Object, Mesh, Material, Library.
fn sdna() -> Vec<u8> {
    let names = ["name[64]", "id", "*data", "totcol", "pad[3]", "**mat", "*vert", "filepath[64]"];
    let types = ["void", "char", "short", "ID", "Object", "Mesh", "Material", "Library"];
    let sizes: [u16; 8] = [0, 1, 2, 64, 88, 88, 64, 128];
    // (type, [(field type, field name)])
    let structs: [(u16, &[(u16, u16)]); 5] = [
        (3, &[(1, 0)]),
        (4, &[(3, 1), (0, 2), (2, 3), (2, 4), (0, 5)]),
        (5, &[(3, 1), (0, 6), (2, 3), (2, 4), (0, 5)]),
        (6, &[(3, 1)]),
        (7, &[(3, 1), (1, 7)]),
    ];
    let mut d = b"SDNANAME".to_vec();
    d.extend_from_slice(&(names.len() as u32).to_le_bytes());
    d.extend_from_slice(&cstr_list(&names));
    pad4(&mut d);
    d.extend_from_slice(b"TYPE");
    d.extend_from_slice(&(types.len() as u32).to_le_bytes());
    d.extend_from_slice(&cstr_list(&types));
    pad4(&mut d);
    d.extend_from_slice(b"TLEN");
    for s in sizes {
        d.extend_from_slice(&s.to_le_bytes());
    }
    pad4(&mut d);
    d.extend_from_slice(b"STRC");
    d.extend_from_slice(&(structs.len() as u32).to_le_bytes());
    for (t, fields) in structs.iter() {
        d.extend_from_slice(&t.to_le_bytes());
        d.extend_from_slice(&(fields.len() as u16).to_le_bytes());
        for (ft, fname) in fields.iter() {
            d.extend_from_slice(&ft.to_le_bytes());
            d.extend_from_slice(&fname.to_le_bytes());
        }
    }
    d
}

fn block(out: &mut Vec<u8>, code: &[u8; 4], addr: u64, sdna_index: u32, payload: &[u8]) {
    out.extend_from_slice(code);
    out.extend_from_slice(&(payload.len() as u32).to_le_bytes());
    out.extend_from_slice(&addr.to_le_bytes());
    out.extend_from_slice(&sdna_index.to_le_bytes());
    out.extend_from_slice(&1u32.to_le_bytes());
    out.extend_from_slice(payload);
}

fn id_payload(name: &str, size: usize) -> Vec<u8> {
    let mut p = vec![0u8; size];
    p[..name.len()].copy_from_slice(name.as_bytes());
    p
}

fn with_ptrs(mut p: Vec<u8>, first: u64, totcol: u16, mat: u64) -> Vec<u8> {
    p[64..72].copy_from_slice(&first.to_le_bytes());
    p[72..74].copy_from_slice(&totcol.to_le_bytes());
    p[80..88].copy_from_slice(&mat.to_le_bytes());
    p
}

/// A small little-endian file with 8-byte pointers:
/// 0 OB (0x1000) -> data 0x2000, one material through the array at 0x4000;
/// 1 ME (0x2000) -> vert null, one material through the array at 0x4100;
/// 2 MA (0x3000); 3 DATA (0x4000) = [0x3000]; 4 DATA (0x4100) = [0x3000];
/// 5 LI (0x5000) with path `//lib.blend`; 6 DNA1; 7 ENDB.
fn fixture() -> Vec<u8> {
    let mut f = b"BLENDER-v300".to_vec();
    block(&mut f, b"OB\0\0", 0x1000, 1, &with_ptrs(id_payload("OBCube", 88), 0x2000, 1, 0x4000));
    block(&mut f, b"ME\0\0", 0x2000, 2, &with_ptrs(id_payload("MECube", 88), 0, 1, 0x4100));
    block(&mut f, b"MA\0\0", 0x3000, 3, &id_payload("MAred", 64));
    block(&mut f, b"DATA", 0x4000, 0, &0x3000u64.to_le_bytes());
    block(&mut f, b"DATA", 0x4100, 0, &0x3000u64.to_le_bytes());
    let mut li = id_payload("LIlib", 128);
    li[64..75].copy_from_slice(b"//lib.blend");
    block(&mut f, b"LI\0\0", 0x5000, 4, &li);
    block(&mut f, b"DNA1", 0, 0, &sdna());
    block(&mut f, b"ENDB", 0, 0, &[]);
    f
}

fn open() -> BlendFile {
    BlendFile::new(fixture()).expect("fixture opens")
}

#[test]
fn opens_the_fixture() {
    let f = open();
    assert_eq!(f.blocks_len(), 7);
    assert_eq!(f.header().pointer_size, 8);
    assert!(f.header().is_little_endian);
    assert_eq!(f.header().version, 300);
    assert_eq!(f.blocks_by_type(b"DATA"), vec![3, 4]);
    assert_eq!(f.blocks_by_type(b"XX\0\0"), Vec::<usize>::new());
    assert_eq!(f.find_block_by_address(0x3000), Some(2));
    assert_eq!(f.find_block_by_address(0x9999), None);
    let dna = f.dna().unwrap();
    assert_eq!(dna.structs.len(), 5);
    let ob = dna.find_struct("Object").unwrap();
    let mat = ob.find_field("mat").unwrap();
    assert_eq!(mat.offset, 80);
    assert_eq!(mat.size, 8);
    assert_eq!(f.read_block_data(2).unwrap(), id_payload("MAred", 64));
    assert!(f.read_block_data(99).is_err());
}

#[test]
fn open_errors() {
    let e = BlendFile::new(b"NOTBLEND".to_vec()).err().unwrap();
    assert!(e.is_blend_file());
    let e = BlendFile::new(b"BLENDIR-v300xxxxxxxxxxxxxxxx".to_vec()).err().unwrap();
    assert!(matches!(e, Dot001Error::BlendFile { kind: BlendFileErrorKind::InvalidMagic, .. }));
    let mut no_dna = b"BLENDER-v300".to_vec();
    block(&mut no_dna, b"ENDB", 0, 0, &[]);
    let e = BlendFile::new(no_dna).err().unwrap();
    assert!(matches!(e, Dot001Error::BlendFile { kind: BlendFileErrorKind::NoDnaFound, .. }));
    let e = BlendFile::new(vec![0x28, 0xB5, 0x2F, 0xFD, 0, 0, 0, 0, 0, 0, 0, 0]).err().unwrap();
    assert!(matches!(e, Dot001Error::BlendFile { kind: BlendFileErrorKind::UnsupportedCompression, .. }));
}

#[test]
fn reads_plain_data_without_decompression() {
    let (f, mode) = parse_from_reader(fixture()).unwrap();
    assert_eq!(mode, DecompressionMode::Uncompressed);
    assert_eq!(f.blocks_len(), 7);
    let g = from_bytes_buf(fixture()).unwrap();
    assert_eq!(g.blocks_len(), 7);
}

#[test]
fn both_openings_fail_with_the_same_error() {
    let user_message = |e: Dot001Error| e.user_message();
    let mut truncated = fixture();
    truncated.truncate(40);
    let a = parse_from_reader(truncated.clone()).err().unwrap();
    let b = BlendFile::new(truncated).err().unwrap();
    assert_eq!(user_message(a.clone()), user_message(b.clone()));
    match (a, b) {
        (
            Dot001Error::BlendFile { message: m1, kind: k1, .. },
            Dot001Error::BlendFile { message: m2, kind: k2, .. },
        ) => {
            assert_eq!(m1, m2);
            assert_eq!(k1, k2);
            assert_eq!(m1, "Block extends beyond data");
        }
        other => panic!("unexpected {:?}", other),
    }
    let mut no_dna = b"BLENDER-v300".to_vec();
    block(&mut no_dna, b"ENDB", 0, 0, &[]);
    match parse_from_reader(no_dna).err().unwrap() {
        Dot001Error::BlendFile { message, .. } => assert_eq!(message, "DNA block not found"),
        other => panic!("unexpected {:?}", other),
    }
}

#[test]
fn reads_zstd_compressed_data() {
    let packed = zstd::encode_all(&fixture()[..], 3).unwrap();
    let (f, mode) = parse_from_reader(packed).unwrap();
    assert_eq!(mode, DecompressionMode::ZstdInMemory);
    assert_eq!(f.blocks_len(), 7);
    assert_eq!(f.data(), &fixture()[..]);
}

#[test]
fn content_hash_depends_on_block_bytes() {
    let f = open();
    let a = f.block_content_hash(3).unwrap();
    let b = f.block_content_hash(4).unwrap();
    let c = f.block_content_hash(2).unwrap();
    assert_eq!(a, b);
    assert_ne!(a, c);
    assert!(f.block_content_hash(100).is_err());
}

#[test]
fn expanders_follow_pointers_and_arrays() {
    let f = open();
    let ob = ObjectExpander.expand_block(0, &f).unwrap();
    assert_eq!(ob.dependencies, vec![1, 2]);
    let me = MeshExpander.expand_block(1, &f).unwrap();
    assert_eq!(me.dependencies, vec![2]);
    let ma = MaterialExpander.expand_block(2, &f).unwrap();
    assert_eq!(ma.dependencies, Vec::<usize>::new());
    let li = LibraryExpander.expand_block(5, &f).unwrap();
    assert_eq!(li.dependencies, Vec::<usize>::new());
    assert_eq!(li.external_refs, vec!["lib.blend".to_string()]);
}

#[test]
fn pointer_traversal() {
    let f = open();
    assert_eq!(PointerTraversal::read_pointer_fields(&f, 0, "Object", &["data", "mat"]).unwrap(), vec![1, 3]);
    assert_eq!(PointerTraversal::read_pointer_array(&f, 0, "Object", "totcol", "mat").unwrap(), vec![2]);
    assert!(PointerTraversal::read_pointer_array(&f, 0, "Object", "nope", "mat").is_err());
    assert!(PointerTraversal::read_pointer_fields(&f, 42, "Object", &["data"]).is_err());
}

#[test]
fn rename_keeps_the_type_prefix() {
    let mut f = open();
    BlendEditor::rename_id_block(&mut f, 0, "Sphere").unwrap();
    let data = f.read_block_data(0).unwrap();
    assert_eq!(&data[..9], b"OBSphere\0");
    assert!(data[8..64].iter().all(|b| *b == 0));
    assert_eq!(&data[64..72], &0x2000u64.to_le_bytes());
}

#[test]
fn rename_errors() {
    let mut f = open();
    let before = f.data().to_vec();
    let e = BlendEditor::rename_id_block(&mut f, 99, "x").err().unwrap();
    assert!(matches!(e, Dot001Error::Editor { kind: EditorErrorKind::BlockNotFound, .. }));
    let long = "n".repeat(62);
    let e = BlendEditor::rename_id_block(&mut f, 0, &long).err().unwrap();
    assert!(matches!(e, Dot001Error::Editor { kind: EditorErrorKind::NameTooLong, .. }));
    let e = BlendEditor::rename_id_block(&mut f, 0, "").err().unwrap();
    assert!(e.is_editor());
    assert_eq!(f.data(), &before[..]);
    assert!(validate_new_name("Cube").is_ok());
    assert!(validate_new_name("").is_err());
}

#[test]
fn rename_and_save_round_trips() {
    let out = BlendEditor::rename_id_block_and_save(fixture(), 2, "MAblue").unwrap();
    let g = BlendFile::new(out).unwrap();
    assert_eq!(&g.read_block_data(2).unwrap()[..9], b"MAMAblue\0");
    assert_eq!(g.blocks_len(), 7);
}

#[test]
fn library_path_update() {
    let mut f = open();
    BlendEditor::update_libpath(&mut f, 5, "//other.blend", false).unwrap();
    let li = f.read_block_data(5).unwrap();
    assert_eq!(&li[64..78], b"//other.blend\0");
    assert_eq!(&li[..5], b"LIlib");
    let e = BlendEditor::update_libpath(&mut f, 0, "//x.blend", false).err().unwrap();
    assert!(matches!(e, Dot001Error::Editor { kind: EditorErrorKind::OperationNotPermitted, .. }));
    let e = BlendEditor::update_libpath(&mut f, 5, "   ", false).err().unwrap();
    assert!(matches!(e, Dot001Error::Editor { kind: EditorErrorKind::InvalidLibraryPath, .. }));
    let out = BlendEditor::update_libpath_and_save(fixture(), 5, "//third.blend", false).unwrap();
    let g = BlendFile::new(out).unwrap();
    let li = LibraryExpander.expand_block(5, &g).unwrap();
    assert_eq!(li.external_refs, vec!["third.blend".to_string()]);
    let p = BlendPath::new(li.external_refs[0].as_bytes());
    assert!(!p.is_blendfile_relative());
    assert!(!p.is_absolute());
}

#[test]
fn minimal_file_from_a_seed() {
    let seed = SeedDnaProvider::from_seed_bytes(fixture()).unwrap();
    assert_eq!(seed.raw_bytes(), &sdna()[..]);
    assert_eq!(seed.sdna_index_for_struct("Mesh"), Some(2));
    assert_eq!(seed.sdna_index_for_struct("Nope"), None);
    let bytes = BlendWriter::default().write_with_seed(WriteTemplate::Minimal, &seed);
    assert_eq!(&bytes[..17], b"BLENDER17-01v0500");
    assert_eq!(&bytes[17..21], b"DNA1");
    assert_eq!(&bytes[bytes.len() - 32..bytes.len() - 28], b"ENDB");
    let again = SeedDnaProvider::from_seed_bytes(bytes.clone()).unwrap();
    assert_eq!(again.raw_bytes(), seed.raw_bytes());
    assert_eq!(again.sdna_index_for_struct("Mesh"), Some(2));
    let g = BlendFile::new(bytes).unwrap();
    assert_eq!(g.blocks_len(), 1);
    assert_eq!(g.header().file_format_version, 1);
    assert_eq!(g.header().version, 500);
    assert_eq!(g.dna().unwrap().structs.len(), 5);
}

fn tracer() -> DependencyTracer {
    let mut t = DependencyTracer::new();
    t.register_expander(*b"OB\0\0", ExpanderKind::Object);
    t.register_expander(*b"ME\0\0", ExpanderKind::Mesh);
    t.register_expander(*b"MA\0\0", ExpanderKind::Material);
    t
}

#[test]
fn traces_dependencies_breadth_first() {
    let f = open();
    let mut t = tracer();
    assert_eq!(t.trace_dependencies(0, &f).unwrap(), vec![1, 2]);
    assert_eq!(t.trace_dependencies(1, &f).unwrap(), vec![2]);
    assert_eq!(t.trace_dependencies(2, &f).unwrap(), Vec::<usize>::new());
    assert_eq!(t.trace_dependencies(77, &f).unwrap(), Vec::<usize>::new());
}

#[test]
fn tracing_twice_gives_the_same_list() {
    let f = open();
    let mut t = tracer();
    let first = t.trace_dependencies(0, &f).unwrap();
    let second = t.trace_dependencies(0, &f).unwrap();
    assert_eq!(first, second);
    assert_eq!(first, vec![1, 2]);
}

#[test]
fn filters_and_depth_limit_the_trace() {
    let f = open();
    let mut t = tracer();
    t.apply_filters([0usize, 2].into_iter().collect());
    assert_eq!(t.trace_dependencies(0, &f).unwrap(), vec![2]);
    t.apply_filters([2usize].into_iter().collect());
    assert_eq!(t.trace_dependencies(0, &f).unwrap(), Vec::<usize>::new());
    t.clear_filters();
    let mut shallow = tracer().with_options(TracerOptions { max_depth: 1 });
    assert_eq!(shallow.trace_dependencies(1, &f).unwrap(), vec![2]);
    let mut none = tracer().with_options(TracerOptions { max_depth: 0 });
    assert_eq!(none.trace_dependencies(0, &f).unwrap(), Vec::<usize>::new());
    assert_eq!(t.trace_dependencies(0, &f).unwrap(), vec![1, 2]);
}

#[test]
fn dependency_tree_counts_nodes() {
    let f = open();
    let mut t = tracer();
    let tree = t.trace_dependency_tree(0, &f).unwrap();
    assert_eq!(tree.root.block_index, 0);
    assert_eq!(tree.root.block_code, "OB");
    assert_eq!(tree.root.children.len(), 2);
    assert_eq!(tree.root.children[0].block_index, 1);
    assert!(tree.max_depth <= 10);
    assert!(tree.total_dependencies >= 2);
    assert!(t.trace_dependency_tree(50, &f).is_err());
    let leaf = t.trace_dependency_tree(2, &f).unwrap();
    assert_eq!(leaf.total_dependencies, 0);
    assert_eq!(leaf.max_depth, 0);
}

#[test]
fn renamed_names_and_paths_read_back() {
    let mut f = open();
    BlendEditor::rename_id_block(&mut f, 1, "Suzanne").unwrap();
    assert_eq!(field_string(&f, 1, "ID", "name"), Some("MESuzanne".to_string()));
    BlendEditor::update_libpath(&mut f, 5, "/abs/ü.blend", false).unwrap();
    assert_eq!(field_string(&f, 5, "Library", "filepath"), Some("/abs/ü.blend".to_string()));
    assert_eq!(field_string(&f, 0, "ID", "name"), Some("OBCube".to_string()));
}

#[test]
fn dependency_tree_is_built_depth_first() {
    let f = open();
    let mut t = tracer();
    let tree = t.trace_dependency_tree(0, &f).unwrap();
    let root = &tree.root;
    assert_eq!(root.children.len(), 2);
    assert_eq!(root.children[0].block_index, 1);
    assert_eq!(root.children[0].block_code, "ME");
    assert_eq!(root.children[0].children.len(), 1);
    assert_eq!(root.children[0].children[0].block_index, 2);
    assert_eq!(root.children[1].block_index, 2);
    assert!(root.children[1].children.is_empty());
    assert_eq!(tree.total_dependencies, 3);
    assert_eq!(tree.max_depth, 2);
}

fn node(index: usize, code: &str, children: Vec<DependencyNode>) -> DependencyNode {
    DependencyNode { block_index: index, block_code: code.to_string(), block_size: 0, block_address: 0, children }
}

#[test]
fn text_tree_leaves_out_data_blocks() {
    let f = open();
    let tree = node(0, "OB", vec![node(3, "DATA", vec![]), node(1, "ME", vec![node(40, "XX", vec![])])]);
    let text_tree = build_text_tree(&tree, &f, false, DisplayTemplate::Simple);
    let text = TreeFormatter::new(true).format_tree(&text_tree).unwrap();
    assert_eq!(text, "Block 0 (OB)\n'-- Block 1 (ME)\n    '-- Block 40 (XX)\n");
    let with_data = build_text_tree(&tree, &f, true, DisplayTemplate::Compact);
    let mut out = Vec::new();
    assert_eq!(TreeFormatter::new(false).print_tree(&with_data, &mut out), None);
    assert_eq!(out, vec!["0:OB\n├── 3:DATA\n└── 1:ME\n    └── Block 40 (XX)".to_string()]);
}

#[test]
fn dependencies_command_lists_and_draws() {
    let f = open();
    let mut out = Vec::new();
    let report = cmd_dependencies(&f, "0", OutputFormat::Flat, true, false, DisplayTemplate::Simple, &mut out).unwrap();
    assert_eq!(report.root, 0);
    assert_eq!(report.dependencies, vec![1, 2]);
    assert_eq!(
        out,
        vec![
            "  Found 2 dependencies:".to_string(),
            "    1: Block 1 (ME)".to_string(),
            "    2: Block 2 (MA)".to_string(),
        ]
    );
    let mut out = Vec::new();
    let report = cmd_dependencies(&f, "0", OutputFormat::Tree, true, false, DisplayTemplate::Simple, &mut out).unwrap();
    assert!(report.problem.is_none());
    assert_eq!(
        out,
        vec![
            "Block 0 (OB)\n+-- Block 1 (ME)\n'-- Block 2 (MA)".to_string(),
            "Summary".to_string(),
            "  Total dependencies: 2".to_string(),
            "  Maximum depth: 1".to_string(),
            String::new(),
        ]
    );
    let mut out = Vec::new();
    let report = cmd_dependencies(&f, "2", OutputFormat::Json, true, false, DisplayTemplate::Simple, &mut out).unwrap();
    assert_eq!(report.root, 2);
    assert!(out.is_empty());
    let e = cmd_dependencies(&f, "nothing", OutputFormat::Flat, true, false, DisplayTemplate::Simple, &mut out)
        .err()
        .unwrap();
    assert!(matches!(e, Dot001Error::Cli { kind: CliErrorKind::InvalidArguments, .. }));
    assert_eq!(e.user_message(), "Command failed: Block 'nothing' not found");
}

#[test]
fn refused_names_are_named_in_the_message() {
    let long = "n".repeat(65);
    let e = validate_new_name(&long).unwrap_err();
    assert_eq!(e.user_message().contains(&long), true);
    match e {
        Dot001Error::Editor { message, .. } => {
            assert_eq!(message, format!("Name too long (max 64 characters after type prefix): {long}"))
        }
        _ => panic!("an editor error"),
    }
    match validate_new_name("tab\there").unwrap_err() {
        Dot001Error::Editor { message, .. } => {
            assert_eq!(message, "Invalid characters in name (only ASCII printable allowed): tab\there")
        }
        _ => panic!("an editor error"),
    }
    match validate_new_name("   ").unwrap_err() {
        Dot001Error::Editor { message, .. } => assert_eq!(message, "Empty name"),
        _ => panic!("an editor error"),
    }
}
