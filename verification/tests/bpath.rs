use dot001::bpath::{strip_root, BlendPath};
use std::path::{Path, PathBuf};

#[test]
fn test_blendfile_relative() {
    let bp = BlendPath::new(b"//textures/tex.png");
    assert!(bp.is_blendfile_relative());
    assert!(!bp.is_absolute());
}

#[test]
fn test_absolute_posix() {
    let bp = BlendPath::new(b"/usr/share/blender/asset.png");
    assert!(bp.is_absolute());
    assert!(!bp.is_blendfile_relative());
}

#[test]
fn test_absolute_windows() {
    let bp = BlendPath::new(b"C:/blender/asset.png");
    assert!(bp.is_absolute());
    assert!(!bp.is_blendfile_relative());
}

#[test]
fn test_to_pathbuf() {
    let bp = BlendPath::new(b"/tmp/foo/bar.png");
    let pb = PathBuf::from(bp.to_pathbuf());
    assert_eq!(pb, Path::new("/tmp/foo/bar.png"));
}

#[test]
fn test_string_path() {
    let p = BlendPath::new(b"//some/file.blend");
    assert_eq!(b"//some/file.blend", p.as_bytes());
    let p = BlendPath::new(b"C:/some/file.blend");
    assert_eq!(b"C:/some/file.blend", p.as_bytes());
}

#[test]
fn test_debug_repr() {
    let p = BlendPath::new(b"//some/file.blend");
    assert_eq!(p.debug_repr(), "BlendPath(\"//some/file.blend\")");
}

#[test]
fn test_to_path() {
    let p = BlendPath::new(b"/some/file.blend");
    assert_eq!(PathBuf::from(p.to_pathbuf()), Path::new("/some/file.blend"));
    let p = BlendPath::new(b"C:/some/file.blend");
    assert_eq!(PathBuf::from(p.to_pathbuf()), Path::new("C:/some/file.blend"));
    let p = BlendPath::new(b"C:\\some\\file.blend");
    assert_eq!(PathBuf::from(p.to_pathbuf()), Path::new("C:/some/file.blend"));
}

#[test]
fn test_is_absolute() {
    assert!(!BlendPath::new(b"//some/file.blend").is_absolute());
    assert!(BlendPath::new(b"/some/file.blend").is_absolute());
    assert!(BlendPath::new(b"C:/some/file.blend").is_absolute());
    assert!(BlendPath::new(b"C:\\some\\file.blend").is_absolute());
    assert!(!BlendPath::new(b"some/file.blend").is_absolute());
}

#[test]
fn test_is_blendfile_relative() {
    assert!(BlendPath::new(b"//some/file.blend").is_blendfile_relative());
    assert!(!BlendPath::new(b"/some/file.blend").is_blendfile_relative());
    assert!(!BlendPath::new(b"C:/some/file.blend").is_blendfile_relative());
    assert!(!BlendPath::new(b"some/file.blend").is_blendfile_relative());
}

#[test]
fn test_slash() {
    let a = BlendPath::new(b"/root/and");
    let b = BlendPath::new(b"parent.blend");
    assert_eq!(a.div(b.as_bytes()).as_bytes(), b"/root/and/parent.blend");
}

#[test]
fn slash_drops_trailing_slashes_of_the_base() {
    let a = BlendPath::new(b"/root/and///");
    assert_eq!(a.div(b"x\\y.png").as_bytes(), b"/root/and/x/y.png");
}

#[test]
fn new_turns_backslashes_into_slashes_and_is_idempotent() {
    let p = BlendPath::new(b"a\\b\\c");
    assert_eq!(p.as_bytes(), b"a/b/c");
    let q = BlendPath::new(p.as_bytes());
    assert_eq!(q.as_bytes(), p.as_bytes());
}

#[test]
fn drive_letter_needs_a_separator() {
    assert!(!BlendPath::new(b"C:file.blend").is_absolute());
    assert!(!BlendPath::new(b"1:/file.blend").is_absolute());
    assert!(BlendPath::new(b"z:/file.blend").is_absolute());
}

#[test]
fn relative_paths_are_never_absolute() {
    for p in [&b"//"[..], b"///abs", b"//C:/x"] {
        let bp = BlendPath::new(p);
        assert!(bp.is_blendfile_relative());
        assert!(!bp.is_absolute());
    }
}

#[test]
fn to_pathbuf_replaces_invalid_utf8() {
    let p = BlendPath::new(&[b'/', 0xff, b'a']);
    assert_eq!(p.to_pathbuf(), "/\u{fffd}a");
}

#[test]
fn debug_repr_escapes_quotes() {
    let p = BlendPath::new(b"/a\"b");
    assert_eq!(p.debug_repr(), "BlendPath(\"/a\\\"b\")");
}

#[test]
fn test_absolute_conversion() {
    let rel = BlendPath::new(b"//textures/tex.png");
    let abs = rel.absolute("/blend/project.blend");
    assert!(abs.is_absolute());
}

#[test]
fn test_make_absolute() {
    let root = "/root/to";
    let bp = BlendPath::new(b"//some/file.blend");
    assert_eq!(bp.absolute(root).as_bytes(), b"/root/to/some/file.blend");
    let bp = BlendPath::new(b"some/file.blend");
    assert_eq!(bp.absolute(root).as_bytes(), b"/root/to/some/file.blend");
    let bp = BlendPath::new(b"../some/file.blend");
    assert_eq!(bp.absolute(root).as_bytes(), b"/root/to/../some/file.blend");
    let bp = BlendPath::new(b"/shared/some/file.blend");
    assert_eq!(bp.absolute(root).as_bytes(), b"/shared/some/file.blend");
}

#[test]
fn absolute_joins_like_unix_paths() {
    assert_eq!(BlendPath::new(b"//a").absolute("/r/").as_bytes(), b"/r/a");
    assert_eq!(BlendPath::new(b"///abs").absolute("/r").as_bytes(), b"/abs");
    assert_eq!(BlendPath::new(b"a\\b").absolute("").as_bytes(), b"a/b");
    assert_eq!(BlendPath::new(b"C:\\x").absolute("/r").as_bytes(), b"C:/x");
    assert_eq!(BlendPath::new(b"//").absolute("/r").as_bytes(), b"/r/");
}

#[test]
fn displayed_paths_are_their_text() {
    let p = BlendPath::new(b"//some/file.blend");
    assert_eq!(p.display_text(), "//some/file.blend");
    let q = BlendPath::new(b"C:\\some\\file.blend");
    assert_eq!(q.display_text(), "C:/some/file.blend");
    let r = BlendPath::new(&[47, 0xFF, 97]);
    assert_eq!(r.display_text(), "/\u{FFFD}a");
}

#[test]
fn test_strip_root_unix() {
    // On Unix, test stripping the root directory "/"
    let stripped = strip_root(b"/usr/share/blender");
    assert_eq!(stripped, b"usr/share/blender".to_vec());
}

#[test]
fn test_strip_root_posix() {
    let stripped = strip_root(b"/C/path/to/blender");
    assert_eq!(stripped, b"C/path/to/blender".to_vec());
    let stripped = strip_root(b"C/path/to/blender");
    assert_eq!(stripped, b"C/path/to/blender".to_vec());
}

#[test]
fn stripping_drops_dots_and_doubled_slashes() {
    assert_eq!(strip_root(b"//a/./b/../c//"), b"a/b/c".to_vec());
    assert_eq!(strip_root(b"/"), Vec::<u8>::new());
    assert_eq!(strip_root(b""), Vec::<u8>::new());
}

#[test]
fn test_mkrelative_same_drive() {
    // Use valid absolute paths for this system (A: drive)
    let asset = "A:/blend/assets/tex.png";
    let blend = "A:/blend/project.blend";
    let rel = BlendPath::mkrelative(asset, blend);
    assert!(rel.is_blendfile_relative());
}

#[test]
fn test_mkrelative_different_drive() {
    let asset = "D:/assets/tex.png";
    let blend = "C:/blend/project.blend";
    let rel = BlendPath::mkrelative(asset, blend);
    assert!(!rel.is_blendfile_relative());
    assert!(rel.is_absolute());
}

#[test]
fn relative_paths_climb_the_blend_files_folders() {
    let rel = BlendPath::mkrelative("/blend/assets/tex.png", "/blend/project.blend");
    assert_eq!(rel.as_bytes(), b"//../assets/tex.png");
    let given = BlendPath::mkrelative_with(b"/a/b/tex.png", b"/a/b/c/p.blend", Some(b"../tex.png".to_vec()));
    assert_eq!(given.as_bytes(), b"//../../../../tex.png");
    let none = BlendPath::mkrelative_with(b"/x.png", b"/p.blend", None);
    assert_eq!(none.as_bytes(), b"///x.png");
    let other = BlendPath::mkrelative_with(b"D:\\x.png", b"C:/p.blend", None);
    assert_eq!(other.as_bytes(), b"D:/x.png");
}
