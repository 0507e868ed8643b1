//! Block expanders: for each kind of block, the blocks it depends on.
use vstd::prelude::*;
use vstd::string::*;
use crate::blendfile::BlendFile;
use crate::blendfile::BlendFileView;
use crate::dna::strings_view;
use crate::error::{BlendFileErrorKind, Result, is_blend_error};
use crate::text::{decimal, strip_slashes, trim, trim_nuls};
use crate::traversal::{
    PointerTraversal, array_deps, deps_in_file, field_pointer, field_string, field_u32, fptr, fstr, fu32,
    ptr_deps, push_ptr_dep, resolve, resolve_pointer,
};

verus! {

/// What expanding a block gives: the blocks it depends on, an optional note,
/// and the external files it refers to.
#[derive(Debug, Clone)]
pub struct ExpandResult {
    pub dependencies: Vec<usize>,
    pub debug: Option<String>,
    pub external_refs: Vec<String>,
}

impl ExpandResult {
    /// A result with these dependencies and nothing else.
    pub fn new(dependencies: Vec<usize>) -> (r: Self)
        ensures
            r.dependencies@ == dependencies@,
            r.debug is None,
            r.external_refs@.len() == 0,
    {
        ExpandResult { dependencies, debug: None, external_refs: Vec::new() }
    }

    /// A result with these dependencies and a note.
    pub fn with_debug(dependencies: Vec<usize>, debug: String) -> (r: Self)
        ensures
            r.dependencies@ == dependencies@,
            r.debug == Some(debug),
            r.external_refs@.len() == 0,
    {
        ExpandResult { dependencies, debug: Some(debug), external_refs: Vec::new() }
    }

    /// A result with these dependencies and external file references.
    pub fn with_externals(dependencies: Vec<usize>, external_refs: Vec<String>) -> (r: Self)
        ensures
            r.dependencies@ == dependencies@,
            r.debug is None,
            r.external_refs@ == external_refs@,
    {
        ExpandResult { dependencies, debug: None, external_refs }
    }
}

/// Finds the blocks a block depends on.
pub trait BlockExpander {
    /// The dependencies of block `block_index`; they are blocks of the file.
    fn expand_block(&self, block_index: usize, blend_file: &BlendFile) -> (r: Result<ExpandResult>)
        ensures
            r matches Ok(res) ==> deps_in_file(res.dependencies@, blend_file@.blocks.len() as int),
    ;

    /// Whether this expander handles blocks with this code.
    fn can_handle(&self, code: &[u8; 4]) -> (r: bool);
}

/// The list `s` when it is there, else nothing.
pub open spec fn opt_deps(s: Option<Seq<usize>>) -> Seq<usize> {
    match s {
        Some(v) => v,
        None => Seq::empty(),
    }
}

/// Appends `more` to `deps`.
fn extend_deps(deps: &mut Vec<usize>, more: &Vec<usize>, n: Ghost<int>)
    ensures
        final(deps)@ == old(deps)@ + more@,
        deps_in_file(old(deps)@, n@) && deps_in_file(more@, n@) ==> deps_in_file(final(deps)@, n@),
{
    let ghost pre = deps@;
    let mut k: usize = 0;
    while k < more.len()
        invariant
            k <= more.len(),
            deps@ == pre + more@.subrange(0, k as int),
        decreases more.len() - k,
    {
        deps.push(more[k]);
        assert(more@.subrange(0, k + 1) =~= more@.subrange(0, k as int).push(more@[k as int]));
        k = k + 1;
    }
    assert(more@.subrange(0, more.len() as int) =~= more@);
    assert(deps_in_file(pre, n@) && deps_in_file(more@, n@) ==> deps_in_file(deps@, n@)) by {
        if deps_in_file(pre, n@) && deps_in_file(more@, n@) {
            assert forall|k: int| 0 <= k < deps@.len() implies #[trigger] deps@[k] < n@ by {
                if k >= pre.len() {
                    assert(deps@[k] == more@[k - pre.len()]);
                }
            }
        }
    }
}

/// Appends what a pointer array read gives, if it could be read.
fn push_array_deps(file: &BlendFile, i: usize, st: &str, cnt: &str, arr: &str, deps: &mut Vec<usize>)
    requires
        i < file@.blocks.len(),
    ensures
        final(deps)@ == old(deps)@ + opt_deps(array_deps(file@, i as int, st@, cnt@, arr@)),
        deps_in_file(old(deps)@, file@.blocks.len() as int) ==> deps_in_file(final(deps)@, file@.blocks.len() as int),
{
    match PointerTraversal::read_pointer_array(file, i, st, cnt, arr) {
        Ok(v) => {
            extend_deps(deps, &v, Ghost(file@.blocks.len() as int));
        },
        Err(_) => {
            assert(deps@ =~= deps@ + Seq::<usize>::empty());
        },
    }
}

/// Whether `code` is the code `a b \0 \0`.
fn is_code2(code: &[u8; 4], a: u8, b: u8) -> (r: bool)
    ensures
        r == (code@ == seq![a, b, 0u8, 0u8]),
{
    let r = code[0] == a && code[1] == b && code[2] == 0u8 && code[3] == 0u8;
    if r {
        assert(code@ =~= seq![a, b, 0u8, 0u8]);
    } else {
        assert(code@ != seq![a, b, 0u8, 0u8]) by {
            if code@ == seq![a, b, 0u8, 0u8] {
                assert(code@[0] == a && code@[1] == b && code@[2] == 0 && code@[3] == 0);
            }
        }
    }
    r
}

/// The code `DATA`.
pub open spec fn data_code() -> Seq<u8> {
    seq![68u8, 65u8, 84u8, 65u8]
}

/// Whether `code` is `DATA`.
fn is_data_code(code: &[u8; 4]) -> (r: bool)
    ensures
        r == (code@ == data_code()),
{
    let r = code[0] == 68u8 && code[1] == 65u8 && code[2] == 84u8 && code[3] == 65u8;
    if r {
        assert(code@ =~= data_code());
    } else {
        assert(code@ != data_code()) by {
            if code@ == data_code() {
                assert(code@[0] == 68 && code@[1] == 65 && code@[2] == 84 && code@[3] == 65);
            }
        }
    }
    r
}

// ---------------------------------------------------------------- Object

/// The dependencies of an object: its data and its materials.
pub open spec fn object_deps(f: BlendFileView, i: int) -> Seq<usize> {
    if 0 <= i < f.blocks.len() {
        ptr_deps(f, i, "Object"@, "data"@) + opt_deps(array_deps(f, i, "Object"@, "totcol"@, "mat"@))
    } else {
        Seq::empty()
    }
}

/// Expander for object (`OB`) blocks.
pub struct ObjectExpander;

impl BlockExpander for ObjectExpander {
    fn expand_block(&self, block_index: usize, blend_file: &BlendFile) -> (r: Result<ExpandResult>)
        ensures
            r matches Ok(res) && res.dependencies@ == object_deps(blend_file@, block_index as int) && res.debug is None
                && res.external_refs@.len() == 0,
    {
        let mut deps: Vec<usize> = Vec::new();
        if block_index < blend_file.blocks_len() {
            push_ptr_dep(blend_file, block_index, "Object", "data", &mut deps);
            push_array_deps(blend_file, block_index, "Object", "totcol", "mat", &mut deps);
        }
        Ok(ExpandResult::new(deps))
    }

    fn can_handle(&self, code: &[u8; 4]) -> (r: bool)
        ensures
            r == (code@ == seq![79u8, 66u8, 0u8, 0u8]),
    {
        is_code2(code, 79u8, 66u8)
    }
}

// ---------------------------------------------------------------- Mesh

/// The dependencies of a mesh: its geometry layers and its materials.
pub open spec fn mesh_deps(f: BlendFileView, i: int) -> Seq<usize> {
    if 0 <= i < f.blocks.len() {
        ptr_deps(f, i, "Mesh"@, "vert"@) + ptr_deps(f, i, "Mesh"@, "edge"@) + ptr_deps(f, i, "Mesh"@, "poly"@)
            + ptr_deps(f, i, "Mesh"@, "loop"@) + ptr_deps(f, i, "Mesh"@, "vert_normals"@) + ptr_deps(
            f,
            i,
            "Mesh"@,
            "poly_normals"@,
        ) + ptr_deps(f, i, "Mesh"@, "loop_normals"@) + ptr_deps(f, i, "Mesh"@, "face_sets"@) + opt_deps(
            array_deps(f, i, "Mesh"@, "totcol"@, "mat"@),
        )
    } else {
        Seq::empty()
    }
}

/// Expander for mesh (`ME`) blocks.
pub struct MeshExpander;

impl BlockExpander for MeshExpander {
    fn expand_block(&self, block_index: usize, blend_file: &BlendFile) -> (r: Result<ExpandResult>)
        ensures
            r matches Ok(res) && res.dependencies@ == mesh_deps(blend_file@, block_index as int) && res.debug is None
                && res.external_refs@.len() == 0,
    {
        let mut deps: Vec<usize> = Vec::new();
        if block_index < blend_file.blocks_len() {
            push_ptr_dep(blend_file, block_index, "Mesh", "vert", &mut deps);
            push_ptr_dep(blend_file, block_index, "Mesh", "edge", &mut deps);
            push_ptr_dep(blend_file, block_index, "Mesh", "poly", &mut deps);
            push_ptr_dep(blend_file, block_index, "Mesh", "loop", &mut deps);
            push_ptr_dep(blend_file, block_index, "Mesh", "vert_normals", &mut deps);
            push_ptr_dep(blend_file, block_index, "Mesh", "poly_normals", &mut deps);
            push_ptr_dep(blend_file, block_index, "Mesh", "loop_normals", &mut deps);
            push_ptr_dep(blend_file, block_index, "Mesh", "face_sets", &mut deps);
            push_array_deps(blend_file, block_index, "Mesh", "totcol", "mat", &mut deps);
        }
        Ok(ExpandResult::new(deps))
    }

    fn can_handle(&self, code: &[u8; 4]) -> (r: bool)
        ensures
            r == (code@ == seq![77u8, 69u8, 0u8, 0u8]),
    {
        is_code2(code, 77u8, 69u8)
    }
}

// ---------------------------------------------------------------- Lamp

/// The dependencies of a lamp: its node tree.
pub open spec fn lamp_deps(f: BlendFileView, i: int) -> Seq<usize> {
    if 0 <= i < f.blocks.len() {
        ptr_deps(f, i, "Lamp"@, "nodetree"@)
    } else {
        Seq::empty()
    }
}

/// Expander for lamp (`LA`) blocks.
pub struct LampExpander;

impl BlockExpander for LampExpander {
    fn expand_block(&self, block_index: usize, blend_file: &BlendFile) -> (r: Result<ExpandResult>)
        ensures
            r matches Ok(res) && res.dependencies@ == lamp_deps(blend_file@, block_index as int) && res.debug is None
                && res.external_refs@.len() == 0,
    {
        let mut deps: Vec<usize> = Vec::new();
        if block_index < blend_file.blocks_len() {
            push_ptr_dep(blend_file, block_index, "Lamp", "nodetree", &mut deps);
            assert(deps@ =~= ptr_deps(blend_file@, block_index as int, "Lamp"@, "nodetree"@));
        }
        Ok(ExpandResult::new(deps))
    }

    fn can_handle(&self, code: &[u8; 4]) -> (r: bool)
        ensures
            r == (code@ == seq![76u8, 65u8, 0u8, 0u8]),
    {
        is_code2(code, 76u8, 65u8)
    }
}

// ---------------------------------------------------------------- Material

/// The name of texture slot `k` of a material: `mtex[k]`.
pub open spec fn mtex_name(k: nat) -> Seq<char> {
    "mtex["@ + decimal(k) + "]"@
}

/// The texture that texture slot `k` of material block `i` refers to, if any.
pub open spec fn mtex_dep(f: BlendFileView, i: int, k: nat) -> Seq<usize> {
    match fptr(f, i, "Material"@, mtex_name(k)) {
        Some(p) => match resolve(f, p) {
            Some(m) => ptr_deps(f, m as int, "MTex"@, "tex"@),
            None => Seq::empty(),
        },
        None => Seq::empty(),
    }
}

/// The textures of the first `n` texture slots of material block `i`.
pub open spec fn mtex_deps(f: BlendFileView, i: int, n: nat) -> Seq<usize>
    decreases n,
{
    if n == 0 {
        Seq::empty()
    } else {
        mtex_deps(f, i, (n - 1) as nat) + mtex_dep(f, i, (n - 1) as nat)
    }
}

/// The dependencies of a material: its node tree and the textures of its 18 slots.
pub open spec fn material_deps(f: BlendFileView, i: int) -> Seq<usize> {
    if 0 <= i < f.blocks.len() {
        ptr_deps(f, i, "Material"@, "nodetree"@) + mtex_deps(f, i, 18)
    } else {
        Seq::empty()
    }
}

/// The text `mtex[k]`.
fn mtex_field(k: usize) -> (r: String)
    ensures
        r@ == mtex_name(k as nat),
{
    let mut s = String::from_str("mtex[");
    let n = crate::text::usize_to_string(k);
    s.append(n.as_str());
    s.append("]");
    s
}

/// Expander for material (`MA`) blocks.
pub struct MaterialExpander;

impl BlockExpander for MaterialExpander {
    fn expand_block(&self, block_index: usize, blend_file: &BlendFile) -> (r: Result<ExpandResult>)
        ensures
            r matches Ok(res) && res.dependencies@ == material_deps(blend_file@, block_index as int) && res.debug
                is None && res.external_refs@.len() == 0,
    {
        let mut deps: Vec<usize> = Vec::new();
        if block_index < blend_file.blocks_len() {
            push_ptr_dep(blend_file, block_index, "Material", "nodetree", &mut deps);
            let ghost base = deps@;
            let mut k: usize = 0;
            while k < 18
                invariant
                    k <= 18,
                    block_index < blend_file@.blocks.len(),
                    deps@ == base + mtex_deps(blend_file@, block_index as int, k as nat),
                    deps_in_file(deps@, blend_file@.blocks.len() as int),
                decreases 18 - k,
            {
                let name = mtex_field(k);
                let ghost pre = deps@;
                match field_pointer(blend_file, block_index, "Material", name.as_str()) {
                    Some(p) => match resolve_pointer(blend_file, p) {
                        Some(m) => {
                            push_ptr_dep(blend_file, m, "MTex", "tex", &mut deps);
                        },
                        None => {},
                    },
                    None => {},
                }
                assert(deps@ =~= pre + mtex_dep(blend_file@, block_index as int, k as nat));
                k = k + 1;
            }
        }
        Ok(ExpandResult::new(deps))
    }

    fn can_handle(&self, code: &[u8; 4]) -> (r: bool)
        ensures
            r == (code@ == seq![77u8, 65u8, 0u8, 0u8]),
    {
        is_code2(code, 77u8, 65u8)
    }
}

// ---------------------------------------------------------------- Sound

/// Expander for sound (`SO`) blocks: sounds depend on no other block.
pub struct SoundExpander;

impl BlockExpander for SoundExpander {
    fn expand_block(&self, block_index: usize, blend_file: &BlendFile) -> (r: Result<ExpandResult>)
        ensures
            r matches Ok(res) && res.dependencies@.len() == 0 && res.debug is None && res.external_refs@.len() == 0,
    {
        Ok(ExpandResult::new(Vec::new()))
    }

    fn can_handle(&self, code: &[u8; 4]) -> (r: bool)
        ensures
            r == (code@ == seq![83u8, 79u8, 0u8, 0u8]),
    {
        is_code2(code, 83u8, 79u8)
    }
}

// ---------------------------------------------------------------- Image

/// Expander for image (`IM`) blocks: images depend on no other block; only a
/// block that does not exist is an error.
pub struct ImageExpander;

impl BlockExpander for ImageExpander {
    fn expand_block(&self, block_index: usize, blend_file: &BlendFile) -> (r: Result<ExpandResult>)
        ensures
            match r {
                Ok(res) => block_index < blend_file@.blocks.len() && res.dependencies@.len() == 0 && res.debug
                    is None && res.external_refs@.len() == 0,
                Err(e) => block_index >= blend_file@.blocks.len() && is_blend_error(
                    e,
                    BlendFileErrorKind::InvalidBlockIndex,
                ),
            },
    {
        match blend_file.read_block_slice(block_index) {
            Ok(_) => Ok(ExpandResult::new(Vec::new())),
            Err(e) => Err(e),
        }
    }

    fn can_handle(&self, code: &[u8; 4]) -> (r: bool)
        ensures
            r == (code@ == seq![73u8, 77u8, 0u8, 0u8]),
    {
        is_code2(code, 73u8, 77u8)
    }
}

// ---------------------------------------------------------------- Library and cache file

/// The external file a path field names: the text without trailing NULs and
/// surrounding white space, without a leading `//`; nothing when it is empty.
pub open spec fn path_ref(s: Seq<char>) -> Seq<Seq<char>> {
    let t = trim(trim_nuls(s));
    if t.len() > 0 {
        seq![strip_slashes(t)]
    } else {
        Seq::empty()
    }
}

/// The external file text field `fld` of struct `st` in block `i` names.
pub open spec fn field_ref(f: BlendFileView, i: int, st: Seq<char>, fld: Seq<char>) -> Seq<Seq<char>> {
    match fstr(f, i, st, fld) {
        Some(s) => path_ref(s),
        None => Seq::empty(),
    }
}

/// The file a library links: its `filepath`, or else its `name`.
pub open spec fn library_refs(f: BlendFileView, i: int) -> Seq<Seq<char>> {
    let a = field_ref(f, i, "Library"@, "filepath"@);
    if a.len() > 0 {
        a
    } else {
        field_ref(f, i, "Library"@, "name"@)
    }
}

/// Appends the external file that text field `fld` of struct `st` in block `i` names.
fn push_field_ref(file: &BlendFile, i: usize, st: &str, fld: &str, refs: &mut Vec<String>)
    requires
        i < file@.blocks.len(),
    ensures
        strings_view(final(refs)@) == strings_view(old(refs)@) + field_ref(file@, i as int, st@, fld@),
{
    let ghost pre = strings_view(refs@);
    match field_string(file, i, st, fld) {
        Some(s) => {
            let a = crate::text::trim_nuls_str(s.as_str());
            let t = crate::text::trim_str(a.as_str());
            if t.unicode_len() > 0 {
                let c = crate::text::strip_slashes_str(t.as_str());
                let ghost cv = c@;
                refs.push(c);
                assert(strings_view(refs@) =~= pre.push(cv));
                assert(pre.push(cv) =~= pre + seq![cv]);
            } else {
                assert(strings_view(refs@) =~= pre + Seq::<Seq<char>>::empty());
            }
        },
        None => {
            assert(strings_view(refs@) =~= pre + Seq::<Seq<char>>::empty());
        },
    }
}

/// Expander for library (`LI`) blocks: a library depends on no block of this
/// file; it refers to the linked file.
pub struct LibraryExpander;

impl BlockExpander for LibraryExpander {
    fn expand_block(&self, block_index: usize, blend_file: &BlendFile) -> (r: Result<ExpandResult>)
        ensures
            match r {
                Ok(res) => block_index < blend_file@.blocks.len() && res.dependencies@.len() == 0 && strings_view(
                    res.external_refs@,
                ) == library_refs(blend_file@, block_index as int) && res.debug is None,
                Err(e) => block_index >= blend_file@.blocks.len() && is_blend_error(
                    e,
                    BlendFileErrorKind::InvalidBlockIndex,
                ),
            },
    {
        if let Err(e) = blend_file.read_block_slice(block_index) {
            return Err(e);
        }
        let mut refs: Vec<String> = Vec::new();
        assert(strings_view(refs@) =~= Seq::<Seq<char>>::empty());
        push_field_ref(blend_file, block_index, "Library", "filepath", &mut refs);
        assert(strings_view(refs@) =~= field_ref(blend_file@, block_index as int, "Library"@, "filepath"@));
        if refs.len() == 0 {
            push_field_ref(blend_file, block_index, "Library", "name", &mut refs);
            assert(strings_view(refs@) =~= field_ref(blend_file@, block_index as int, "Library"@, "name"@));
        }
        Ok(ExpandResult::with_externals(Vec::new(), refs))
    }

    fn can_handle(&self, code: &[u8; 4]) -> (r: bool)
        ensures
            r == (code@ == seq![76u8, 73u8, 0u8, 0u8]),
    {
        is_code2(code, 76u8, 73u8)
    }
}

/// Expander for cache file (`CF`) blocks: a cache file depends on no block; it
/// refers to the file in its `filepath`.
pub struct CacheFileExpander;

impl BlockExpander for CacheFileExpander {
    fn expand_block(&self, block_index: usize, blend_file: &BlendFile) -> (r: Result<ExpandResult>)
        ensures
            match r {
                Ok(res) => block_index < blend_file@.blocks.len() && res.dependencies@.len() == 0 && strings_view(
                    res.external_refs@,
                ) == field_ref(blend_file@, block_index as int, "CacheFile"@, "filepath"@) && res.debug is None,
                Err(e) => block_index >= blend_file@.blocks.len() && is_blend_error(
                    e,
                    BlendFileErrorKind::InvalidBlockIndex,
                ),
            },
    {
        if let Err(e) = blend_file.read_block_slice(block_index) {
            return Err(e);
        }
        let mut refs: Vec<String> = Vec::new();
        assert(strings_view(refs@) =~= Seq::<Seq<char>>::empty());
        push_field_ref(blend_file, block_index, "CacheFile", "filepath", &mut refs);
        assert(strings_view(refs@) =~= field_ref(blend_file@, block_index as int, "CacheFile"@, "filepath"@));
        Ok(ExpandResult::with_externals(Vec::new(), refs))
    }

    fn can_handle(&self, code: &[u8; 4]) -> (r: bool)
        ensures
            r == (code@ == seq![67u8, 70u8, 0u8, 0u8]),
    {
        is_code2(code, 67u8, 70u8)
    }
}

// ---------------------------------------------------------------- Texture

/// The dependencies of a texture: by its type, its image (0), voxel data (14),
/// point density (15) or ocean (16); then its node tree.
pub open spec fn texture_deps(f: BlendFileView, i: int) -> Seq<usize> {
    let by_type = match fu32(f, i, "Tex"@, "type"@) {
        Some(t) => if t == 0 {
            ptr_deps(f, i, "Tex"@, "ima"@)
        } else if t == 14 {
            ptr_deps(f, i, "Tex"@, "vd"@)
        } else if t == 15 {
            ptr_deps(f, i, "Tex"@, "pd"@)
        } else if t == 16 {
            ptr_deps(f, i, "Tex"@, "ot"@)
        } else {
            Seq::empty()
        },
        None => Seq::empty(),
    };
    by_type + ptr_deps(f, i, "Tex"@, "nodetree"@)
}

/// An image texture depends first on its image: where a texture block's
/// `Tex.type` reads 0 and its `Tex.ima` pointer resolves to block `j`, the
/// texture's dependencies start with `j`.
pub proof fn lemma_image_texture_finds_image(f: BlendFileView, i: int, j: usize)
    requires
        crate::traversal::fu32(f, i, "Tex"@, "type"@) == Some(0u32),
        crate::traversal::fptr(f, i, "Tex"@, "ima"@) matches Some(p) && crate::traversal::resolve(f, p) == Some(j),
    ensures
        texture_deps(f, i).len() >= 1,
        texture_deps(f, i)[0] == j,
{
}

/// Expander for texture (`TE`) blocks.
pub struct TextureExpander;

impl BlockExpander for TextureExpander {
    fn expand_block(&self, block_index: usize, blend_file: &BlendFile) -> (r: Result<ExpandResult>)
        ensures
            match r {
                Ok(res) => block_index < blend_file@.blocks.len() && res.dependencies@ == texture_deps(
                    blend_file@,
                    block_index as int,
                ) && res.debug is None && res.external_refs@.len() == 0,
                Err(e) => block_index >= blend_file@.blocks.len() && is_blend_error(
                    e,
                    BlendFileErrorKind::InvalidBlockIndex,
                ),
            },
    {
        if let Err(e) = blend_file.read_block_slice(block_index) {
            return Err(e);
        }
        let mut deps: Vec<usize> = Vec::new();
        match field_u32(blend_file, block_index, "Tex", "type") {
            Some(t) => {
                if t == 0 {
                    push_ptr_dep(blend_file, block_index, "Tex", "ima", &mut deps);
                } else if t == 14 {
                    push_ptr_dep(blend_file, block_index, "Tex", "vd", &mut deps);
                } else if t == 15 {
                    push_ptr_dep(blend_file, block_index, "Tex", "pd", &mut deps);
                } else if t == 16 {
                    push_ptr_dep(blend_file, block_index, "Tex", "ot", &mut deps);
                }
            },
            None => {},
        }
        push_ptr_dep(blend_file, block_index, "Tex", "nodetree", &mut deps);
        Ok(ExpandResult::new(deps))
    }

    fn can_handle(&self, code: &[u8; 4]) -> (r: bool)
        ensures
            r == (code@ == seq![84u8, 69u8, 0u8, 0u8]),
    {
        is_code2(code, 84u8, 69u8)
    }
}

// ---------------------------------------------------------------- Linked lists

/// The blocks reached from a linked list whose current item is at address
/// `cur`, after `count` items were seen: for each item (a block of struct `st`)
/// the block its pointer field `item` points to; the walk follows field `next`
/// and stops at a null or unknown address, an unreadable `next`, or 100 items.
pub open spec fn list_walk(f: BlendFileView, cur: u64, count: nat, st: Seq<char>, item: Seq<char>, next: Seq<
    char,
>) -> Seq<usize>
    decreases 100 - count,
{
    if cur == 0 || count >= 100 {
        Seq::empty()
    } else {
        match resolve(f, cur) {
            None => Seq::empty(),
            Some(b) => ptr_deps(f, b as int, st, item) + match fptr(f, b as int, st, next) {
                Some(nx) => list_walk(f, nx, count + 1, st, item, next),
                None => Seq::empty(),
            },
        }
    }
}

/// Walks a linked list (see `list_walk`) and appends what it reaches.
fn walk_list(file: &BlendFile, first: u64, st: &str, item: &str, next: &str, deps: &mut Vec<usize>)
    ensures
        final(deps)@ == old(deps)@ + list_walk(file@, first, 0, st@, item@, next@),
        deps_in_file(old(deps)@, file@.blocks.len() as int) ==> deps_in_file(final(deps)@, file@.blocks.len() as int),
{
    let ghost pre = deps@;
    let ghost n = file@.blocks.len() as int;
    let mut cur = first;
    let mut count: usize = 0;
    loop
        invariant
            count <= 100,
            pre + list_walk(file@, first, 0, st@, item@, next@) == deps@ + list_walk(
                file@,
                cur,
                count as nat,
                st@,
                item@,
                next@,
            ),
            deps_in_file(pre, n) ==> deps_in_file(deps@, n),
            n == file@.blocks.len(),
            pre == old(deps)@,
        decreases 100 - count,
    {
        if cur == 0 || count >= 100 {
            assert(deps@ + Seq::<usize>::empty() =~= deps@);
            return;
        }
        let b = match resolve_pointer(file, cur) {
            Some(b) => b,
            None => {
                assert(deps@ + Seq::<usize>::empty() =~= deps@);
                return;
            },
        };
        let ghost before = deps@;
        push_ptr_dep(file, b, st, item, deps);
        match field_pointer(file, b, st, next) {
            Some(nx) => {
                assert(before + (ptr_deps(file@, b as int, st@, item@) + list_walk(
                    file@,
                    nx,
                    (count + 1) as nat,
                    st@,
                    item@,
                    next@,
                )) =~= deps@ + list_walk(file@, nx, (count + 1) as nat, st@, item@, next@));
                cur = nx;
                count = count + 1;
            },
            None => {
                assert(before + (ptr_deps(file@, b as int, st@, item@) + Seq::<usize>::empty()) =~= deps@);
                return;
            },
        }
    }
}

// ---------------------------------------------------------------- Scene

/// The objects of a scene's legacy base list (`base.first`).
pub open spec fn scene_bases(f: BlendFileView, i: int) -> Seq<usize> {
    match fptr(f, i, "Scene"@, "base.first"@) {
        Some(p) => if p != 0 {
            list_walk(f, p, 0, "Base"@, "object"@, "next"@)
        } else {
            Seq::empty()
        },
        None => Seq::empty(),
    }
}

/// A scene's camera, world, background set and movie clip.
pub open spec fn scene_refs(f: BlendFileView, i: int) -> Seq<usize> {
    ptr_deps(f, i, "Scene"@, "camera"@) + ptr_deps(f, i, "Scene"@, "world"@) + ptr_deps(f, i, "Scene"@, "set"@)
        + ptr_deps(f, i, "Scene"@, "clip"@)
}

/// The dependencies of a scene: its references, the objects of its base list,
/// then its master collection.
pub open spec fn scene_deps(f: BlendFileView, i: int) -> Seq<usize> {
    scene_refs(f, i) + scene_bases(f, i) + ptr_deps(f, i, "Scene"@, "master_collection"@)
}

/// The dependencies a scene has as `SceneExpanderMacro` lists them: its
/// references, its master collection, then the objects of its base list.
pub open spec fn scene_macro_deps(f: BlendFileView, i: int) -> Seq<usize> {
    if 0 <= i < f.blocks.len() {
        scene_refs(f, i) + ptr_deps(f, i, "Scene"@, "master_collection"@) + scene_bases(f, i)
    } else {
        Seq::empty()
    }
}

/// Appends a scene's camera, world, background set and movie clip.
fn push_scene_refs(file: &BlendFile, i: usize, deps: &mut Vec<usize>)
    requires
        i < file@.blocks.len(),
    ensures
        final(deps)@ == old(deps)@ + scene_refs(file@, i as int),
        deps_in_file(old(deps)@, file@.blocks.len() as int) ==> deps_in_file(final(deps)@, file@.blocks.len() as int),
{
    let ghost pre = deps@;
    push_ptr_dep(file, i, "Scene", "camera", deps);
    push_ptr_dep(file, i, "Scene", "world", deps);
    push_ptr_dep(file, i, "Scene", "set", deps);
    push_ptr_dep(file, i, "Scene", "clip", deps);
    assert(deps@ =~= pre + scene_refs(file@, i as int));
}

/// Appends the objects of a scene's legacy base list.
fn push_scene_bases(file: &BlendFile, i: usize, deps: &mut Vec<usize>)
    requires
        i < file@.blocks.len(),
    ensures
        final(deps)@ == old(deps)@ + scene_bases(file@, i as int),
        deps_in_file(old(deps)@, file@.blocks.len() as int) ==> deps_in_file(final(deps)@, file@.blocks.len() as int),
{
    match field_pointer(file, i, "Scene", "base.first") {
        Some(p) => {
            if p != 0 {
                walk_list(file, p, "Base", "object", "next", deps);
            } else {
                assert(deps@ =~= deps@ + Seq::<usize>::empty());
            }
        },
        None => {
            assert(deps@ =~= deps@ + Seq::<usize>::empty());
        },
    }
}

/// Expander for scene (`SC`) blocks.
pub struct SceneExpander;

impl BlockExpander for SceneExpander {
    fn expand_block(&self, block_index: usize, blend_file: &BlendFile) -> (r: Result<ExpandResult>)
        ensures
            match r {
                Ok(res) => block_index < blend_file@.blocks.len() && res.dependencies@ == scene_deps(
                    blend_file@,
                    block_index as int,
                ) && res.debug is None && res.external_refs@.len() == 0,
                Err(e) => block_index >= blend_file@.blocks.len() && is_blend_error(
                    e,
                    BlendFileErrorKind::InvalidBlockIndex,
                ),
            },
    {
        if let Err(e) = blend_file.read_block_slice(block_index) {
            return Err(e);
        }
        let mut deps: Vec<usize> = Vec::new();
        push_scene_refs(blend_file, block_index, &mut deps);
        push_scene_bases(blend_file, block_index, &mut deps);
        push_ptr_dep(blend_file, block_index, "Scene", "master_collection", &mut deps);
        assert(deps@ =~= scene_deps(blend_file@, block_index as int));
        Ok(ExpandResult::new(deps))
    }

    fn can_handle(&self, code: &[u8; 4]) -> (r: bool)
        ensures
            r == (code@ == seq![83u8, 67u8, 0u8, 0u8]),
    {
        is_code2(code, 83u8, 67u8)
    }
}

/// Expander for scene (`SC`) blocks that lists the master collection before the
/// base list and treats a missing block as having no dependencies.
pub struct SceneExpanderMacro;

impl BlockExpander for SceneExpanderMacro {
    fn expand_block(&self, block_index: usize, blend_file: &BlendFile) -> (r: Result<ExpandResult>)
        ensures
            r matches Ok(res) && res.dependencies@ == scene_macro_deps(blend_file@, block_index as int) && res.debug is None
                && res.external_refs@.len() == 0,
    {
        let mut deps: Vec<usize> = Vec::new();
        if block_index < blend_file.blocks_len() {
            push_scene_refs(blend_file, block_index, &mut deps);
            push_ptr_dep(blend_file, block_index, "Scene", "master_collection", &mut deps);
            push_scene_bases(blend_file, block_index, &mut deps);
            assert(deps@ =~= scene_macro_deps(blend_file@, block_index as int));
        }
        Ok(ExpandResult::new(deps))
    }

    fn can_handle(&self, code: &[u8; 4]) -> (r: bool)
        ensures
            r == (code@ == seq![83u8, 67u8, 0u8, 0u8]),
    {
        is_code2(code, 83u8, 67u8)
    }
}

// ---------------------------------------------------------------- Node trees

/// A pointer read, or 0 when it could not be read.
pub open spec fn or_zero(o: Option<u64>) -> u64 {
    match o {
        Some(p) => p,
        None => 0,
    }
}

/// The first pointer that could be read, or 0.
pub open spec fn or_ptr(a: Option<u64>, b: Option<u64>) -> u64 {
    match a {
        Some(p) => p,
        None => or_zero(b),
    }
}

/// Where the node list of node tree block `i` starts: the `nodes` field of
/// `bNodeTree` (else of `NodeTree`) read as a pointer; when that is a known
/// block, the `first` pointer of the `ListBase` in it, else `nodes.first`.
pub open spec fn nodes_first(f: BlendFileView, i: int) -> u64 {
    let a = fptr(f, i, "bNodeTree"@, "nodes"@);
    let b = fptr(f, i, "NodeTree"@, "nodes"@);
    let nodes_ptr = or_ptr(a, b);
    let st = if a is Some {
        "bNodeTree"@
    } else {
        "NodeTree"@
    };
    if nodes_ptr == 0 {
        0
    } else {
        match resolve(f, nodes_ptr) {
            Some(lb) => or_zero(fptr(f, lb as int, "ListBase"@, "first"@)),
            None => or_zero(fptr(f, i, st, "nodes.first"@)),
        }
    }
}

/// The blocks the nodes of node tree block `i` refer to (their `id` fields).
pub open spec fn nodetree_deps(f: BlendFileView, i: int) -> Seq<usize> {
    let p = nodes_first(f, i);
    if p != 0 {
        list_walk(f, p, 0, "bNode"@, "id"@, "next"@)
    } else {
        Seq::empty()
    }
}

/// The note left when no node list is found.
pub open spec fn nodetree_note(i: nat) -> Seq<char> {
    "Could not find nodes.first in block "@ + decimal(i)
}

/// Expands block `block_index` as a node tree: the blocks its nodes refer to,
/// with a note when no node list is found.
pub fn try_expand_as_nodetree(block_index: usize, blend_file: &BlendFile) -> (r: Result<ExpandResult>)
    ensures
        match r {
            Ok(res) => {
                &&& block_index < blend_file@.blocks.len()
                &&& res.dependencies@ == nodetree_deps(blend_file@, block_index as int)
                &&& deps_in_file(res.dependencies@, blend_file@.blocks.len() as int)
                &&& res.external_refs@.len() == 0
                &&& match res.debug {
                    Some(s) => nodes_first(blend_file@, block_index as int) == 0 && s@ == nodetree_note(
                        block_index as nat,
                    ),
                    None => nodes_first(blend_file@, block_index as int) != 0,
                }
            },
            Err(e) => block_index >= blend_file@.blocks.len() && is_blend_error(
                e,
                BlendFileErrorKind::InvalidBlockIndex,
            ),
        },
{
    if let Err(e) = blend_file.read_block_slice(block_index) {
        return Err(e);
    }
    let a = field_pointer(blend_file, block_index, "bNodeTree", "nodes");
    let (nodes_ptr, use_b) = match a {
        Some(p) => (p, true),
        None => match field_pointer(blend_file, block_index, "NodeTree", "nodes") {
            Some(p) => (p, false),
            None => (0u64, true),
        },
    };
    let mut first: u64 = 0;
    if nodes_ptr != 0 {
        match resolve_pointer(blend_file, nodes_ptr) {
            Some(lb) => {
                if let Some(p) = field_pointer(blend_file, lb, "ListBase", "first") {
                    first = p;
                }
            },
            None => {
                let st = if use_b {
                    "bNodeTree"
                } else {
                    "NodeTree"
                };
                proof {
                    reveal_strlit("bNodeTree");
                    reveal_strlit("NodeTree");
                }
                if let Some(p) = field_pointer(blend_file, block_index, st, "nodes.first") {
                    first = p;
                }
            },
        }
    }
    assert(first == nodes_first(blend_file@, block_index as int));
    let mut deps: Vec<usize> = Vec::new();
    if first != 0 {
        walk_list(blend_file, first, "bNode", "id", "next", &mut deps);
        assert(deps@ =~= nodetree_deps(blend_file@, block_index as int));
        Ok(ExpandResult::new(deps))
    } else {
        let mut note = String::from_str("Could not find nodes.first in block ");
        let n = crate::text::usize_to_string(block_index);
        note.append(n.as_str());
        assert(deps@ =~= nodetree_deps(blend_file@, block_index as int));
        Ok(ExpandResult::with_debug(deps, note))
    }
}

/// Expander for node tree (`NT`) blocks.
pub struct NodeTreeExpander;

impl BlockExpander for NodeTreeExpander {
    fn expand_block(&self, block_index: usize, blend_file: &BlendFile) -> (r: Result<ExpandResult>)
        ensures
            match r {
                Ok(res) => block_index < blend_file@.blocks.len() && res.dependencies@ == nodetree_deps(
                    blend_file@,
                    block_index as int,
                ) && res.external_refs@.len() == 0 && match res.debug {
                    Some(s) => nodes_first(blend_file@, block_index as int) == 0 && s@ == nodetree_note(
                        block_index as nat,
                    ),
                    None => nodes_first(blend_file@, block_index as int) != 0,
                },
                Err(e) => block_index >= blend_file@.blocks.len() && is_blend_error(
                    e,
                    BlendFileErrorKind::InvalidBlockIndex,
                ),
            },
    {
        try_expand_as_nodetree(block_index, blend_file)
    }

    fn can_handle(&self, code: &[u8; 4]) -> (r: bool)
        ensures
            r == (code@ == seq![78u8, 84u8, 0u8, 0u8]),
    {
        is_code2(code, 78u8, 84u8)
    }
}

// ---------------------------------------------------------------- Collections

/// The objects of a collection's object list from the item at `cur`, walking
/// at most `steps` items (`CollectionObject`, else `GroupObject`, fields `ob`
/// and `next`).
///
/// A list longer than the number of blocks of the file must repeat a block and
/// so never ends; the walk is bounded by that number.
pub open spec fn obj_list(f: BlendFileView, cur: u64, steps: nat) -> Seq<usize>
    decreases steps,
{
    if cur == 0 || steps == 0 {
        Seq::empty()
    } else {
        match resolve(f, cur) {
            None => Seq::empty(),
            Some(it) => {
                let ob = or_ptr(fptr(f, it as int, "CollectionObject"@, "ob"@), fptr(f, it as int, "GroupObject"@, "ob"@));
                let nx = or_ptr(
                    fptr(f, it as int, "CollectionObject"@, "next"@),
                    fptr(f, it as int, "GroupObject"@, "next"@),
                );
                (match resolve(f, ob) {
                    Some(o) => seq![o],
                    None => Seq::empty(),
                }) + obj_list(f, nx, (steps - 1) as nat)
            },
        }
    }
}

/// The dependencies of collection block `i`, expanding child collections to
/// `fuel` levels: the objects of its object list, then those of its children.
///
/// A `DATA` block without `gobject` and `children` fields is not a collection.
/// Nesting deeper than the number of blocks must repeat a collection and so
/// never ends; the depth is bounded by that number.
pub open spec fn coll_deps(f: BlendFileView, i: int, fuel: nat) -> Seq<usize>
    decreases fuel, 1nat, 0nat,
{
    let n = f.blocks.len();
    let g1 = fptr(f, i, "Collection"@, "gobject"@);
    let c1 = fptr(f, i, "Collection"@, "children"@);
    if f.blocks[i].header.code@ == data_code() && g1 is None && c1 is None {
        Seq::empty()
    } else {
        let gob = or_ptr(g1, fptr(f, i, "Group"@, "gobject"@));
        let ch = or_zero(c1);
        (if gob != 0 {
            obj_list(f, gob, n)
        } else {
            Seq::empty()
        }) + (if ch != 0 {
            child_list(f, ch, n, fuel)
        } else {
            Seq::empty()
        })
    }
}

/// The dependencies of the child collections listed from the item at `cur`
/// (`CollectionChild`, fields `collection` and `next`), walking at most `steps`
/// items.
pub open spec fn child_list(f: BlendFileView, cur: u64, steps: nat, fuel: nat) -> Seq<usize>
    decreases fuel, 0nat, steps,
{
    if cur == 0 || steps == 0 {
        Seq::empty()
    } else {
        match resolve(f, cur) {
            None => Seq::empty(),
            Some(c) => {
                let col = or_zero(fptr(f, c as int, "CollectionChild"@, "collection"@));
                let nx = or_zero(fptr(f, c as int, "CollectionChild"@, "next"@));
                (match resolve(f, col) {
                    Some(ci) => if fuel == 0 || ci >= f.blocks.len() {
                        Seq::empty()
                    } else {
                        coll_deps(f, ci as int, (fuel - 1) as nat)
                    },
                    None => Seq::empty(),
                }) + child_list(f, nx, (steps - 1) as nat, fuel)
            },
        }
    }
}

/// A pointer field of one struct, else of another, else 0.
fn pointer_or(file: &BlendFile, i: usize, st1: &str, st2: &str, fld: &str) -> (r: u64)
    requires
        i < file@.blocks.len(),
    ensures
        r == or_ptr(fptr(file@, i as int, st1@, fld@), fptr(file@, i as int, st2@, fld@)),
{
    match field_pointer(file, i, st1, fld) {
        Some(p) => p,
        None => match field_pointer(file, i, st2, fld) {
            Some(p) => p,
            None => 0,
        },
    }
}

/// Appends the objects of a collection's object list (see `obj_list`).
fn walk_objects(file: &BlendFile, first: u64, deps: &mut Vec<usize>)
    ensures
        final(deps)@ == old(deps)@ + obj_list(file@, first, file@.blocks.len()),
        deps_in_file(old(deps)@, file@.blocks.len() as int) ==> deps_in_file(final(deps)@, file@.blocks.len() as int),
{
    let ghost pre = deps@;
    let ghost n = file@.blocks.len() as int;
    let mut cur = first;
    let mut steps = file.blocks_len();
    loop
        invariant
            pre + obj_list(file@, first, file@.blocks.len()) == deps@ + obj_list(file@, cur, steps as nat),
            deps_in_file(pre, n) ==> deps_in_file(deps@, n),
            n == file@.blocks.len(),
            pre == old(deps)@,
        decreases steps,
    {
        if cur == 0 || steps == 0 {
            assert(deps@ + Seq::<usize>::empty() =~= deps@);
            return;
        }
        let it = match resolve_pointer(file, cur) {
            Some(it) => it,
            None => {
                assert(deps@ + Seq::<usize>::empty() =~= deps@);
                return;
            },
        };
        let ob = pointer_or(file, it, "CollectionObject", "GroupObject", "ob");
        let nx = pointer_or(file, it, "CollectionObject", "GroupObject", "next");
        let ghost before = deps@;
        match resolve_pointer(file, ob) {
            Some(o) => {
                deps.push(o);
            },
            None => {},
        }
        let ghost here = match resolve(file@, ob) {
            Some(o) => seq![o],
            None => Seq::<usize>::empty(),
        };
        assert(deps@ =~= before + here);
        assert(before + (here + obj_list(file@, nx, (steps - 1) as nat)) =~= deps@ + obj_list(
            file@,
            nx,
            (steps - 1) as nat,
        ));
        cur = nx;
        steps = steps - 1;
    }
}

/// The dependencies of collection block `i` (see `coll_deps`).
fn expand_collection(file: &BlendFile, i: usize, fuel: usize) -> (r: Vec<usize>)
    requires
        i < file@.blocks.len(),
    ensures
        r@ == coll_deps(file@, i as int, fuel as nat),
        deps_in_file(r@, file@.blocks.len() as int),
    decreases fuel, 1nat,
{
    let mut deps: Vec<usize> = Vec::new();
    let g1 = field_pointer(file, i, "Collection", "gobject");
    let c1 = field_pointer(file, i, "Collection", "children");
    let b = match file.get_block(i) {
        Some(b) => b,
        None => {
            return deps;
        },
    };
    if is_data_code(&b.header.code) && g1.is_none() && c1.is_none() {
        return deps;
    }
    let gob = match g1 {
        Some(p) => p,
        None => match field_pointer(file, i, "Group", "gobject") {
            Some(p) => p,
            None => 0,
        },
    };
    let ch = match c1 {
        Some(p) => p,
        None => 0,
    };
    if gob != 0 {
        walk_objects(file, gob, &mut deps);
    }
    let ghost mid = deps@;
    if ch != 0 {
        walk_children(file, ch, fuel, &mut deps);
    }
    assert(deps@ =~= coll_deps(file@, i as int, fuel as nat));
    deps
}

/// Appends the dependencies of the child collections listed from `first`
/// (see `child_list`).
fn walk_children(file: &BlendFile, first: u64, fuel: usize, deps: &mut Vec<usize>)
    ensures
        final(deps)@ == old(deps)@ + child_list(file@, first, file@.blocks.len(), fuel as nat),
        deps_in_file(old(deps)@, file@.blocks.len() as int) ==> deps_in_file(final(deps)@, file@.blocks.len() as int),
    decreases fuel, 0nat,
{
    let ghost pre = deps@;
    let ghost n = file@.blocks.len() as int;
    let mut cur = first;
    let mut steps = file.blocks_len();
    loop
        invariant
            pre + child_list(file@, first, file@.blocks.len(), fuel as nat) == deps@ + child_list(
                file@,
                cur,
                steps as nat,
                fuel as nat,
            ),
            deps_in_file(pre, n) ==> deps_in_file(deps@, n),
            n == file@.blocks.len(),
            pre == old(deps)@,
        decreases steps,
    {
        if cur == 0 || steps == 0 {
            assert(deps@ + Seq::<usize>::empty() =~= deps@);
            return;
        }
        let c = match resolve_pointer(file, cur) {
            Some(c) => c,
            None => {
                assert(deps@ + Seq::<usize>::empty() =~= deps@);
                return;
            },
        };
        let col = match field_pointer(file, c, "CollectionChild", "collection") {
            Some(p) => p,
            None => 0,
        };
        let nx = match field_pointer(file, c, "CollectionChild", "next") {
            Some(p) => p,
            None => 0,
        };
        let ghost before = deps@;
        let ghost here = match resolve(file@, col) {
            Some(ci) => if fuel == 0 || ci >= file@.blocks.len() {
                Seq::<usize>::empty()
            } else {
                coll_deps(file@, ci as int, (fuel - 1) as nat)
            },
            None => Seq::<usize>::empty(),
        };
        match resolve_pointer(file, col) {
            Some(ci) => {
                if fuel > 0 {
                    let sub = expand_collection(file, ci, fuel - 1);
                    extend_deps(deps, &sub, Ghost(n));
                } else {
                    assert(deps@ =~= before + here);
                }
            },
            None => {
                assert(deps@ =~= before + here);
            },
        }
        assert(deps@ =~= before + here);
        assert(before + (here + child_list(file@, nx, (steps - 1) as nat, fuel as nat)) =~= deps@ + child_list(
            file@,
            nx,
            (steps - 1) as nat,
            fuel as nat,
        ));
        cur = nx;
        steps = steps - 1;
    }
}

/// Expander for collection (`GR`) blocks and collections stored in `DATA` blocks.
pub struct CollectionExpander;

impl BlockExpander for CollectionExpander {
    fn expand_block(&self, block_index: usize, blend_file: &BlendFile) -> (r: Result<ExpandResult>)
        ensures
            match r {
                Ok(res) => block_index < blend_file@.blocks.len() && res.dependencies@ == coll_deps(
                    blend_file@,
                    block_index as int,
                    blend_file@.blocks.len(),
                ) && res.debug is None && res.external_refs@.len() == 0,
                Err(e) => block_index >= blend_file@.blocks.len() && is_blend_error(
                    e,
                    BlendFileErrorKind::InvalidBlockIndex,
                ),
            },
    {
        if let Err(e) = blend_file.read_block_slice(block_index) {
            return Err(e);
        }
        let deps = expand_collection(blend_file, block_index, blend_file.blocks_len());
        Ok(ExpandResult::new(deps))
    }

    fn can_handle(&self, code: &[u8; 4]) -> (r: bool)
        ensures
            r == (code@ == seq![71u8, 82u8, 0u8, 0u8] || code@ == data_code()),
    {
        is_code2(code, 71u8, 82u8) || is_data_code(code)
    }
}

// ---------------------------------------------------------------- DATA blocks

/// The dependencies of a `DATA` block: as a node tree when it has a `nodes`
/// field, else as a collection when it has a `gobject` or `children` field,
/// else none.
pub open spec fn datablock_deps(f: BlendFileView, i: int) -> Seq<usize> {
    if fptr(f, i, "bNodeTree"@, "nodes"@) is Some || fptr(f, i, "NodeTree"@, "nodes"@) is Some {
        nodetree_deps(f, i)
    } else if fptr(f, i, "Collection"@, "gobject"@) is Some || fptr(f, i, "Collection"@, "children"@) is Some {
        coll_deps(f, i, f.blocks.len())
    } else {
        Seq::empty()
    }
}

/// Expander for `DATA` blocks, which may hold node trees or collections.
pub struct DataBlockExpander;

impl BlockExpander for DataBlockExpander {
    fn expand_block(&self, block_index: usize, blend_file: &BlendFile) -> (r: Result<ExpandResult>)
        ensures
            match r {
                Ok(res) => block_index < blend_file@.blocks.len() && res.dependencies@ == datablock_deps(
                    blend_file@,
                    block_index as int,
                ) && res.debug is None && res.external_refs@.len() == 0,
                Err(e) => block_index >= blend_file@.blocks.len() && is_blend_error(
                    e,
                    BlendFileErrorKind::InvalidBlockIndex,
                ),
            },
    {
        if let Err(e) = blend_file.read_block_slice(block_index) {
            return Err(e);
        }
        let has_nodes = field_pointer(blend_file, block_index, "bNodeTree", "nodes").is_some();
        let has_nodetree = field_pointer(blend_file, block_index, "NodeTree", "nodes").is_some();
        if has_nodes || has_nodetree {
            let deps = match try_expand_as_nodetree(block_index, blend_file) {
                Ok(res) => res.dependencies,
                Err(_) => Vec::new(),
            };
            return Ok(ExpandResult::new(deps));
        }
        let has_gobject = field_pointer(blend_file, block_index, "Collection", "gobject").is_some();
        let has_children = field_pointer(blend_file, block_index, "Collection", "children").is_some();
        if has_gobject || has_children {
            let deps = expand_collection(blend_file, block_index, blend_file.blocks_len());
            return Ok(ExpandResult::new(deps));
        }
        Ok(ExpandResult::new(Vec::new()))
    }

    fn can_handle(&self, code: &[u8; 4]) -> (r: bool)
        ensures
            r == (code@ == data_code()),
    {
        is_data_code(code)
    }
}

} // verus!
