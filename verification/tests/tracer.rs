use dot001::expanders::{
    BlockExpander, CacheFileExpander, CollectionExpander, DataBlockExpander, ImageExpander,
    LampExpander, LibraryExpander, MaterialExpander, MeshExpander, NodeTreeExpander, ObjectExpander,
    SceneExpander, SceneExpanderMacro, SoundExpander, TextureExpander,
};
use dot001::tracer::{DependencyTracer, TracerOptions};
use std::collections::HashMap;

#[test]
fn test_scene_expander_macro_can_handle() {
    let expander = SceneExpanderMacro;
    assert!(expander.can_handle(b"SC\0\0"));
    assert!(!expander.can_handle(b"OB\0\0"));
}

#[test]
fn test_macro_consistency() {
    let object_expander = ObjectExpander;
    assert!(object_expander.can_handle(b"OB\0\0"));
    assert!(!object_expander.can_handle(b"XX\0\0"));

    let mesh_expander = MeshExpander;
    assert!(mesh_expander.can_handle(b"ME\0\0"));
    assert!(!mesh_expander.can_handle(b"XX\0\0"));

    let lamp_expander = LampExpander;
    assert!(lamp_expander.can_handle(b"LA\0\0"));
    assert!(!lamp_expander.can_handle(b"XX\0\0"));

    let sound_expander = SoundExpander;
    assert!(sound_expander.can_handle(b"SO\0\0"));
    assert!(!sound_expander.can_handle(b"XX\0\0"));

    let image_expander = ImageExpander;
    assert!(image_expander.can_handle(b"IM\0\0"));
    assert!(!image_expander.can_handle(b"XX\0\0"));

    let library_expander = LibraryExpander;
    assert!(library_expander.can_handle(b"LI\0\0"));
    assert!(!library_expander.can_handle(b"XX\0\0"));

    let texture_expander = TextureExpander;
    assert!(texture_expander.can_handle(b"TE\0\0"));
    assert!(!texture_expander.can_handle(b"XX\0\0"));

    let material_expander = MaterialExpander;
    assert!(material_expander.can_handle(b"MA\0\0"));
    assert!(!material_expander.can_handle(b"XX\0\0"));
}

#[test]
fn other_expanders_handle_their_codes() {
    assert!(SceneExpander.can_handle(b"SC\0\0"));
    assert!(CacheFileExpander.can_handle(b"CF\0\0"));
    assert!(NodeTreeExpander.can_handle(b"NT\0\0"));
    assert!(CollectionExpander.can_handle(b"GR\0\0"));
    assert!(DataBlockExpander.can_handle(b"DATA"));
    assert!(!DataBlockExpander.can_handle(b"DAT\0"));
    assert!(!SceneExpander.can_handle(b"SC\0X"));
}

#[test]
fn tracer_options_and_address_map() {
    assert_eq!(TracerOptions::default().max_depth, 10);
    let mut m = HashMap::new();
    m.insert(0x10u64, 0x99u64);
    let t = DependencyTracer::new().with_address_map(m);
    assert_eq!(t.remap_address(0x10), 0x99);
    assert_eq!(t.remap_address(0x11), 0x11);
    assert_eq!(DependencyTracer::new().remap_address(5), 5);
}

#[test]
fn tracer_error_helpers() {
    assert!(DependencyTracer::dependency_error("m").is_tracer());
    assert!(DependencyTracer::name_resolution_error("m").is_tracer());
    assert!(DependencyTracer::block_expansion_error("m").is_tracer());
    assert!(DependencyTracer::circular_dependency_error("m").is_tracer());
}
