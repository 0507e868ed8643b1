//! The dependency tracer: from a block, the blocks it depends on, directly or not.
use vstd::prelude::*;
use std::collections::{HashMap, HashSet};
use crate::blendfile::{BlendFile, BlendFileView};
use crate::error::{Dot001Error, Result, TracerErrorKind, is_tracer_error};
use crate::expanders::{
    BlockExpander, CacheFileExpander, CollectionExpander, DataBlockExpander, ExpandResult, ImageExpander,
    LampExpander, LibraryExpander, MaterialExpander, MeshExpander, NodeTreeExpander, ObjectExpander,
    SceneExpander, SceneExpanderMacro, SoundExpander, TextureExpander, coll_deps, datablock_deps, lamp_deps,
    material_deps, mesh_deps, nodetree_deps, object_deps, scene_deps, scene_macro_deps, texture_deps,
};
use crate::traversal::deps_in_file;

verus! {

broadcast use vstd::std_specs::hash::group_hash_axioms;

/// Limits of a traversal.
#[derive(Debug, Clone, Copy)]
pub struct TracerOptions {
    /// How many levels below the start block are followed.
    pub max_depth: usize,
}

impl Default for TracerOptions {
    fn default() -> (r: Self)
        ensures
            r.max_depth == 10,
    {
        TracerOptions { max_depth: 10 }
    }
}

/// The expanders a tracer can register for a block code.
#[derive(PartialEq, Eq, Structural, Clone, Copy, Debug)]
pub enum ExpanderKind {
    Object,
    Mesh,
    Lamp,
    Material,
    Sound,
    Image,
    Library,
    CacheFile,
    Texture,
    Scene,
    SceneMacro,
    NodeTree,
    Collection,
    DataBlock,
}

/// The dependencies expander `k` finds for block `i`.
pub open spec fn kind_deps(k: ExpanderKind, f: BlendFileView, i: int) -> Seq<usize> {
    match k {
        ExpanderKind::Object => object_deps(f, i),
        ExpanderKind::Mesh => mesh_deps(f, i),
        ExpanderKind::Lamp => lamp_deps(f, i),
        ExpanderKind::Material => material_deps(f, i),
        ExpanderKind::Sound => Seq::empty(),
        ExpanderKind::Image => Seq::empty(),
        ExpanderKind::Library => Seq::empty(),
        ExpanderKind::CacheFile => Seq::empty(),
        ExpanderKind::Texture => texture_deps(f, i),
        ExpanderKind::Scene => scene_deps(f, i),
        ExpanderKind::SceneMacro => scene_macro_deps(f, i),
        ExpanderKind::NodeTree => nodetree_deps(f, i),
        ExpanderKind::Collection => coll_deps(f, i, f.blocks.len()),
        ExpanderKind::DataBlock => datablock_deps(f, i),
    }
}

/// Runs expander `k` on block `i`, which exists.
fn run_expander(k: ExpanderKind, i: usize, file: &BlendFile) -> (r: Result<ExpandResult>)
    requires
        i < file@.blocks.len(),
    ensures
        r matches Ok(res) && res.dependencies@ == kind_deps(k, file@, i as int) && deps_in_file(
            res.dependencies@,
            file@.blocks.len() as int,
        ),
{
    match k {
        ExpanderKind::Object => ObjectExpander.expand_block(i, file),
        ExpanderKind::Mesh => MeshExpander.expand_block(i, file),
        ExpanderKind::Lamp => LampExpander.expand_block(i, file),
        ExpanderKind::Material => MaterialExpander.expand_block(i, file),
        ExpanderKind::Sound => SoundExpander.expand_block(i, file),
        ExpanderKind::Image => ImageExpander.expand_block(i, file),
        ExpanderKind::Library => LibraryExpander.expand_block(i, file),
        ExpanderKind::CacheFile => CacheFileExpander.expand_block(i, file),
        ExpanderKind::Texture => TextureExpander.expand_block(i, file),
        ExpanderKind::Scene => SceneExpander.expand_block(i, file),
        ExpanderKind::SceneMacro => SceneExpanderMacro.expand_block(i, file),
        ExpanderKind::NodeTree => NodeTreeExpander.expand_block(i, file),
        ExpanderKind::Collection => CollectionExpander.expand_block(i, file),
        ExpanderKind::DataBlock => DataBlockExpander.expand_block(i, file),
    }
}

/// The expander registered last for `code`.
pub open spec fn lookup(reg: Seq<([u8; 4], ExpanderKind)>, code: Seq<u8>) -> Option<ExpanderKind>
    decreases reg.len(),
{
    if reg.len() == 0 {
        None
    } else if reg.last().0@ == code {
        Some(reg.last().1)
    } else {
        lookup(reg.drop_last(), code)
    }
}

/// The expanders registered by default, one per block code: `OB` objects,
/// `ME` meshes, `LA` lamps, `MA` materials, `SO` sounds, `IM` images, `LI`
/// libraries, `CF` cache files, `TE` textures, `SC` scenes, `NT` node trees,
/// `GR` collections and `DATA` blocks.
pub open spec fn default_registry() -> Seq<([u8; 4], ExpanderKind)> {
    seq![
        ([79u8, 66u8, 0u8, 0u8], ExpanderKind::Object),
        ([77u8, 69u8, 0u8, 0u8], ExpanderKind::Mesh),
        ([76u8, 65u8, 0u8, 0u8], ExpanderKind::Lamp),
        ([77u8, 65u8, 0u8, 0u8], ExpanderKind::Material),
        ([83u8, 79u8, 0u8, 0u8], ExpanderKind::Sound),
        ([73u8, 77u8, 0u8, 0u8], ExpanderKind::Image),
        ([76u8, 73u8, 0u8, 0u8], ExpanderKind::Library),
        ([67u8, 70u8, 0u8, 0u8], ExpanderKind::CacheFile),
        ([84u8, 69u8, 0u8, 0u8], ExpanderKind::Texture),
        ([83u8, 67u8, 0u8, 0u8], ExpanderKind::Scene),
        ([78u8, 84u8, 0u8, 0u8], ExpanderKind::NodeTree),
        ([71u8, 82u8, 0u8, 0u8], ExpanderKind::Collection),
        ([68u8, 65u8, 84u8, 65u8], ExpanderKind::DataBlock),
    ]
}

/// What a tracer is set up with.
pub struct TracerModel {
    pub registry: Seq<([u8; 4], ExpanderKind)>,
    pub allowed: Option<Set<usize>>,
    pub address_map: Option<Map<u64, u64>>,
    pub max_depth: usize,
}

/// The dependencies the tracer `t` finds for block `y` of file `f`: those of
/// the expander registered for its code, or none.
pub open spec fn deps_of(t: TracerModel, f: BlendFileView, y: int) -> Seq<usize> {
    match lookup(t.registry, f.blocks[y].header.code@) {
        Some(k) => kind_deps(k, f, y),
        None => Seq::empty(),
    }
}

/// Whether the filter of `t` lets block `x` through.
pub open spec fn allowed_ok(t: TracerModel, x: usize) -> bool {
    match t.allowed {
        Some(s) => s.contains(x),
        None => true,
    }
}

/// Whether no value occurs twice in `s`.
pub open spec fn no_dups(s: Seq<usize>) -> bool {
    forall|i: int, j: int| 0 <= i < j < s.len() ==> s[i] != s[j]
}

/// The number of `false` entries of `s`.
pub open spec fn unvisited(s: Seq<bool>) -> nat
    decreases s.len(),
{
    if s.len() == 0 {
        0
    } else {
        unvisited(s.drop_last()) + if s.last() {
            0nat
        } else {
            1nat
        }
    }
}

proof fn lemma_unvisited_update(s: Seq<bool>, i: int)
    requires
        0 <= i < s.len(),
        !s[i],
    ensures
        unvisited(s.update(i, true)) + 1 == unvisited(s),
    decreases s.len(),
{
    let t = s.update(i, true);
    if i == s.len() - 1 {
        assert(t.drop_last() =~= s.drop_last());
    } else {
        assert(t.drop_last() =~= s.drop_last().update(i, true));
        lemma_unvisited_update(s.drop_last(), i);
    }
}

/// What a finished trace from `start` satisfies: no block twice, never the
/// start, only blocks of the file that the filter lets through, each a
/// dependency of the start or of a block listed before it; and every
/// dependency of the start that the filter lets through is listed when the
/// depth limit allows one level.
pub open spec fn trace_ok(t: TracerModel, f: BlendFileView, start: usize, res: Seq<usize>) -> bool {
    &&& no_dups(res)
    &&& forall|k: int| 0 <= k < res.len() ==> #[trigger] res[k] != start
    &&& forall|k: int| 0 <= k < res.len() ==> #[trigger] res[k] < f.blocks.len()
    &&& forall|k: int| 0 <= k < res.len() ==> allowed_ok(t, #[trigger] res[k])
    &&& forall|k: int|
        0 <= k < res.len() ==> deps_of(t, f, start as int).contains(#[trigger] res[k]) || exists|j: int|
            0 <= j < k && deps_of(t, f, res[j] as int).contains(res[k])
    &&& (start < f.blocks.len() && allowed_ok(t, start) && t.max_depth >= 1) ==> forall|x: usize|
        #[trigger] deps_of(t, f, start as int).contains(x) && allowed_ok(t, x) && x != start ==> res.contains(x)
}

/// Traces dependencies between the blocks of a file.
pub struct DependencyTracer {
    expanders: Vec<([u8; 4], ExpanderKind)>,
    allowed: Option<HashSet<usize>>,
    address_map: Option<HashMap<u64, u64>>,
    options: TracerOptions,
}

impl View for DependencyTracer {
    type V = TracerModel;

    closed spec fn view(&self) -> TracerModel {
        TracerModel {
            registry: self.expanders@,
            allowed: match self.allowed {
                Some(s) => Some(s@),
                None => None,
            },
            address_map: match self.address_map {
                Some(m) => Some(m@),
                None => None,
            },
            max_depth: self.options.max_depth,
        }
    }
}

/// An error of the tracer of the given kind.
pub open spec fn tracer_error(e: Dot001Error, k: TracerErrorKind) -> bool {
    is_tracer_error(e, k)
}

impl DependencyTracer {
    /// A tracer with no expanders, no filter, no address map and a depth limit of 10.
    pub fn new() -> (r: Self)
        ensures
            r@.registry.len() == 0,
            r@.allowed is None,
            r@.address_map is None,
            r@.max_depth == 10,
    {
        DependencyTracer { expanders: Vec::new(), allowed: None, address_map: None, options: TracerOptions::default() }
    }

    /// This tracer with the given options.
    pub fn with_options(self, options: TracerOptions) -> (r: Self)
        ensures
            r@ == (TracerModel { max_depth: options.max_depth, ..self@ }),
    {
        DependencyTracer { options, ..self }
    }

    /// This tracer with an address map applied to the addresses it reports.
    pub fn with_address_map(self, map: HashMap<u64, u64>) -> (r: Self)
        ensures
            r@ == (TracerModel { address_map: Some(map@), ..self@ }),
    {
        DependencyTracer { address_map: Some(map), ..self }
    }

    /// Restricts traversal to the given blocks.
    pub fn apply_filters(&mut self, allowed: HashSet<usize>)
        ensures
            final(self)@ == (TracerModel { allowed: Some(allowed@), ..old(self)@ }),
    {
        self.allowed = Some(allowed);
    }

    /// Removes any restriction set by `apply_filters`.
    pub fn clear_filters(&mut self)
        ensures
            final(self)@ == (TracerModel { allowed: None, ..old(self)@ }),
    {
        self.allowed = None;
    }

    /// Registers expander `expander` for blocks with code `code`; a later
    /// registration for a code replaces an earlier one.
    pub fn register_expander(&mut self, code: [u8; 4], expander: ExpanderKind)
        ensures
            final(self)@ == (TracerModel { registry: old(self)@.registry.push((code, expander)), ..old(self)@ }),
    {
        self.expanders.push((code, expander));
    }

    /// This tracer with an expander registered for each block code an
    /// expander handles (see `default_registry`).
    pub fn with_default_expanders(self) -> (r: Self)
        ensures
            r@ == (TracerModel { registry: self@.registry + default_registry(), ..self@ }),
    {
        let mut t = self;
        t.register_expander([79u8, 66u8, 0u8, 0u8], ExpanderKind::Object);
        t.register_expander([77u8, 69u8, 0u8, 0u8], ExpanderKind::Mesh);
        t.register_expander([76u8, 65u8, 0u8, 0u8], ExpanderKind::Lamp);
        t.register_expander([77u8, 65u8, 0u8, 0u8], ExpanderKind::Material);
        t.register_expander([83u8, 79u8, 0u8, 0u8], ExpanderKind::Sound);
        t.register_expander([73u8, 77u8, 0u8, 0u8], ExpanderKind::Image);
        t.register_expander([76u8, 73u8, 0u8, 0u8], ExpanderKind::Library);
        t.register_expander([67u8, 70u8, 0u8, 0u8], ExpanderKind::CacheFile);
        t.register_expander([84u8, 69u8, 0u8, 0u8], ExpanderKind::Texture);
        t.register_expander([83u8, 67u8, 0u8, 0u8], ExpanderKind::Scene);
        t.register_expander([78u8, 84u8, 0u8, 0u8], ExpanderKind::NodeTree);
        t.register_expander([71u8, 82u8, 0u8, 0u8], ExpanderKind::Collection);
        t.register_expander([68u8, 65u8, 84u8, 65u8], ExpanderKind::DataBlock);
        assert(t@.registry =~= self@.registry + default_registry());
        t
    }

    /// The expander registered last for `code`.
    fn find_expander(&self, code: &[u8; 4]) -> (r: Option<ExpanderKind>)
        ensures
            r == lookup(self@.registry, code@),
    {
        let mut k = self.expanders.len();
        assert(self.expanders@.subrange(0, k as int) =~= self.expanders@);
        while k > 0
            invariant
                k <= self.expanders.len(),
                lookup(self@.registry, code@) == lookup(self.expanders@.subrange(0, k as int), code@),
            decreases k,
        {
            let ghost sub = self.expanders@.subrange(0, k as int);
            assert(sub.drop_last() =~= self.expanders@.subrange(0, k - 1));
            if crate::block::code_eq(&self.expanders[k - 1].0, code) {
                return Some(self.expanders[k - 1].1);
            }
            k = k - 1;
        }
        None
    }

    /// Whether the filter lets block `x` through.
    fn is_allowed(&self, x: usize) -> (r: bool)
        ensures
            r == allowed_ok(self@, x),
    {
        match &self.allowed {
            Some(s) => s.contains(&x),
            None => true,
        }
    }

    /// `addr` mapped through the address map, when it has an entry for it.
    pub fn remap_address(&self, addr: u64) -> (r: u64)
        ensures
            r == (match self@.address_map {
                Some(m) => if m.contains_key(addr) {
                    m[addr]
                } else {
                    addr
                },
                None => addr,
            }),
    {
        match &self.address_map {
            Some(m) => match m.get(&addr) {
                Some(v) => *v,
                None => addr,
            },
            None => addr,
        }
    }
}

/// The block a queue entry was found from: the start block (-1) or a listed block.
pub open spec fn parent_block(start: usize, res: Seq<usize>, p: int) -> int {
    if p == -1 {
        start as int
    } else {
        res[p] as int
    }
}

/// Every dependency of the start block that the filter lets through is
/// visited or still waits in the queue from position `h` on.
pub open spec fn pending_or_visited(
    t: TracerModel,
    f: BlendFileView,
    start: usize,
    vis: Seq<bool>,
    q: Seq<(usize, usize)>,
    h: int,
) -> bool {
    forall|x: usize|
        #[trigger] deps_of(t, f, start as int).contains(x) && allowed_ok(t, x) ==> vis[x as int] || exists|k: int|
            h <= k < q.len() && q[k].0 == x
}

proof fn lemma_pending_grow(
    t: TracerModel,
    f: BlendFileView,
    start: usize,
    vis1: Seq<bool>,
    vis2: Seq<bool>,
    q1: Seq<(usize, usize)>,
    q2: Seq<(usize, usize)>,
    h: int,
)
    requires
        pending_or_visited(t, f, start, vis1, q1, h),
        0 <= h < q1.len(),
        q1.len() <= q2.len(),
        forall|k: int| 0 <= k < q1.len() ==> q2[k] == q1[k],
        vis1.len() == vis2.len(),
        forall|x: int| 0 <= x < vis1.len() && vis1[x] ==> vis2[x],
        vis2[q1[h].0 as int],
        forall|k: int| 0 <= k < q1.len() ==> q1[k].0 < vis1.len(),
        forall|x: usize| #[trigger] deps_of(t, f, start as int).contains(x) ==> x < vis1.len(),
    ensures
        pending_or_visited(t, f, start, vis2, q2, h + 1),
{
    assert forall|x: usize| #[trigger] deps_of(t, f, start as int).contains(x) && allowed_ok(t, x) implies vis2[x as int]
        || exists|k: int| h + 1 <= k < q2.len() && q2[k].0 == x by {
        if !vis1[x as int] {
            let k = choose|k: int| h <= k < q1.len() && q1[k].0 == x;
            if k != h {
                assert(q2[k] == q1[k]);
            }
        }
    }
}


/// Whether step `i` of chain `p` is followed by the tracer `t`: block `p[i]`
/// is a block of the file and `p[i + 1]` is one of its dependencies that the
/// filter lets through.
pub open spec fn link(t: TracerModel, f: BlendFileView, p: Seq<usize>, i: int) -> bool {
    p[i] < f.blocks.len() && deps_of(t, f, p[i] as int).contains(p[i + 1]) && allowed_ok(t, p[i + 1])
}

/// Whether `p` is a chain of blocks from `start` whose every step the
/// tracer follows.
pub open spec fn is_chain(t: TracerModel, f: BlendFileView, start: usize, p: Seq<usize>) -> bool {
    &&& p.len() >= 1
    &&& p[0] == start
    &&& forall|i: int| 0 <= i < p.len() - 1 ==> #[trigger] link(t, f, p, i)
}

/// Whether block `x` is reached from `start` in at most `k` steps, each from
/// a block to one of its dependencies that the filter lets through.
pub open spec fn reach(t: TracerModel, f: BlendFileView, start: usize, x: usize, k: nat) -> bool {
    exists|p: Seq<usize>| #[trigger] is_chain(t, f, start, p) && p.len() <= k + 1 && p.last() == x
}

/// The start block is reached in no steps.
proof fn lemma_reach_start(t: TracerModel, f: BlendFileView, start: usize)
    ensures
        reach(t, f, start, start, 0),
{
    let p = seq![start];
    assert(is_chain(t, f, start, p));
}

/// A dependency, let through by the filter, of a block reached in `k` steps
/// is reached in `k + 1` steps.
proof fn lemma_reach_extend(t: TracerModel, f: BlendFileView, start: usize, y: usize, k: nat, x: usize)
    requires
        reach(t, f, start, y, k),
        y < f.blocks.len(),
        deps_of(t, f, y as int).contains(x),
        allowed_ok(t, x),
    ensures
        reach(t, f, start, x, k + 1),
{
    let p = choose|p: Seq<usize>| #[trigger] is_chain(t, f, start, p) && p.len() <= k + 1 && p.last() == y;
    let q = p.push(x);
    assert forall|i: int| 0 <= i < q.len() - 1 implies #[trigger] link(t, f, q, i) by {
        if i < p.len() - 1 {
            assert(link(t, f, p, i));
        }
    }
    assert(is_chain(t, f, start, q));
}

/// A block reached in `k` steps is reached in `m >= k` steps.
proof fn lemma_reach_mono(t: TracerModel, f: BlendFileView, start: usize, x: usize, k: nat, m: nat)
    requires
        reach(t, f, start, x, k),
        k <= m,
    ensures
        reach(t, f, start, x, m),
{
    let p = choose|p: Seq<usize>| #[trigger] is_chain(t, f, start, p) && p.len() <= k + 1 && p.last() == x;
    assert(is_chain(t, f, start, p) && p.len() <= m + 1 && p.last() == x);
}

/// A reached block other than the start is let through by the filter.
proof fn lemma_reach_allowed(t: TracerModel, f: BlendFileView, start: usize, x: usize, k: nat)
    requires
        reach(t, f, start, x, k),
        x != start,
    ensures
        allowed_ok(t, x),
{
    let p = choose|p: Seq<usize>| #[trigger] is_chain(t, f, start, p) && p.len() <= k + 1 && p.last() == x;
    assert(link(t, f, p, p.len() - 2));
}

/// Every dependency of block `v` that the filter lets through has been
/// visited no deeper than one level below `v`, or waits in the queue from
/// position `h` on at such a depth.
pub open spec fn followed(
    t: TracerModel,
    f: BlendFileView,
    vis: Seq<bool>,
    vd: Seq<int>,
    q: Seq<(usize, usize)>,
    h: int,
    v: int,
) -> bool {
    forall|x: usize|
        #[trigger] deps_of(t, f, v).contains(x) && allowed_ok(t, x) ==> (x < vis.len() && vis[x as int] && vd[x as int]
            <= vd[v] + 1) || exists|k: int| h <= k < q.len() && q[k].0 == x && q[k].1 <= vd[v] + 1
}

/// Dequeuing the entry at `h` keeps `followed`: the block it names is
/// visited afterwards, no deeper than the entry's depth, and nothing visited
/// before changes.
proof fn lemma_followed_step(
    t: TracerModel,
    f: BlendFileView,
    vis1: Seq<bool>,
    vd1: Seq<int>,
    vis2: Seq<bool>,
    vd2: Seq<int>,
    q1: Seq<(usize, usize)>,
    q2: Seq<(usize, usize)>,
    h: int,
    v: int,
)
    requires
        followed(t, f, vis1, vd1, q1, h, v),
        0 <= h < q1.len(),
        q1.len() <= q2.len(),
        forall|k: int| 0 <= k < q1.len() ==> q2[k] == q1[k],
        vis1.len() == vis2.len(),
        vd1.len() == vis1.len(),
        vd2.len() == vis1.len(),
        0 <= v < vis1.len(),
        vis1[v],
        forall|x: int| 0 <= x < vis1.len() && vis1[x] ==> vis2[x] && vd2[x] == vd1[x],
        q1[h].0 < vis1.len(),
        vis2[q1[h].0 as int],
        vd2[q1[h].0 as int] <= q1[h].1,
    ensures
        followed(t, f, vis2, vd2, q2, h + 1, v),
{
    assert forall|x: usize| #[trigger] deps_of(t, f, v).contains(x) && allowed_ok(t, x) implies (x < vis2.len()
        && vis2[x as int] && vd2[x as int] <= vd2[v] + 1) || exists|k: int|
        h + 1 <= k < q2.len() && q2[k].0 == x && q2[k].1 <= vd2[v] + 1 by {
        if !(x < vis1.len() && vis1[x as int] && vd1[x as int] <= vd1[v] + 1) {
            let k = choose|k: int| h <= k < q1.len() && q1[k].0 == x && q1[k].1 <= vd1[v] + 1;
            if k != h {
                assert(q2[k] == q1[k]);
            }
        }
    }
}

/// What a trace from `start` lists, when the start block exists and the
/// filter lets it through: exactly the blocks other than the start that are
/// reached within the depth limit.
pub open spec fn trace_exact(t: TracerModel, f: BlendFileView, start: usize, res: Seq<usize>) -> bool {
    (start < f.blocks.len() && allowed_ok(t, start)) ==> forall|x: usize|
        #[trigger] res.contains(x) <==> (x != start && reach(t, f, start, x, t.max_depth as nat))
}

/// Once nothing waits, every block of a chain within the depth limit has
/// been visited, no deeper than its place in the chain.
proof fn lemma_chain_visited(
    t: TracerModel,
    f: BlendFileView,
    start: usize,
    vis: Seq<bool>,
    vd: Seq<int>,
    q: Seq<(usize, usize)>,
    p: Seq<usize>,
    i: int,
)
    requires
        vis.len() == f.blocks.len(),
        vd.len() == vis.len(),
        start < vis.len(),
        allowed_ok(t, start),
        vis[start as int],
        vd[start as int] == 0,
        forall|v: int|
            0 <= v < vis.len() && vis[v] && allowed_ok(t, v as usize) && vd[v] < t.max_depth ==> #[trigger] followed(
                t,
                f,
                vis,
                vd,
                q,
                q.len() as int,
                v,
            ),
        is_chain(t, f, start, p),
        0 <= i < p.len(),
        i <= t.max_depth,
    ensures
        p[i] < vis.len() && vis[p[i] as int] && vd[p[i] as int] <= i,
    decreases i,
{
    if i > 0 {
        lemma_chain_visited(t, f, start, vis, vd, q, p, i - 1);
        assert(link(t, f, p, i - 1));
        if i - 1 > 0 {
            assert(link(t, f, p, i - 2));
        }
        assert(allowed_ok(t, p[i - 1]));
        assert(followed(t, f, vis, vd, q, q.len() as int, p[i - 1] as int));
    }
}

/// Once nothing waits, every block reached within the depth limit has been
/// visited.
proof fn lemma_reach_visited(
    t: TracerModel,
    f: BlendFileView,
    start: usize,
    vis: Seq<bool>,
    vd: Seq<int>,
    q: Seq<(usize, usize)>,
    x: usize,
)
    requires
        vis.len() == f.blocks.len(),
        vd.len() == vis.len(),
        start < vis.len(),
        allowed_ok(t, start),
        vis[start as int],
        vd[start as int] == 0,
        forall|v: int|
            0 <= v < vis.len() && vis[v] && allowed_ok(t, v as usize) && vd[v] < t.max_depth ==> #[trigger] followed(
                t,
                f,
                vis,
                vd,
                q,
                q.len() as int,
                v,
            ),
        reach(t, f, start, x, t.max_depth as nat),
    ensures
        x < vis.len() && vis[x as int],
{
    let p = choose|p: Seq<usize>| #[trigger] is_chain(t, f, start, p) && p.len() <= t.max_depth + 1 && p.last() == x;
    lemma_chain_visited(t, f, start, vis, vd, q, p, p.len() - 1);
}

/// Breadth first: a block listed before another is reached within every
/// number of steps that the later one is reached within.
pub open spec fn trace_bfs(t: TracerModel, f: BlendFileView, start: usize, res: Seq<usize>) -> bool {
    forall|i: int, j: int, k: nat|
        #![trigger reach(t, f, start, res[j], k), res[i]]
        0 <= i < j < res.len() && reach(t, f, start, res[j], k) ==> reach(t, f, start, res[i], k)
}

/// The listed blocks are reached within the depths recorded for them, which
/// are within the depth limit and grow along the list.
#[verifier::opaque]
spec fn listed_by_depth(t: TracerModel, f: BlendFileView, start: usize, res: Seq<usize>, vd: Seq<int>) -> bool {
    &&& forall|k: int|
        0 <= k < res.len() ==> 0 <= #[trigger] vd[res[k] as int] <= t.max_depth && reach(
            t,
            f,
            start,
            res[k],
            vd[res[k] as int] as nat,
        )
    &&& forall|i: int, j: int| 0 <= i <= j < res.len() ==> vd[res[i] as int] <= vd[res[j] as int]
}

/// Recording a depth for a block that is not listed keeps the list in order.
proof fn lemma_listed_frame(
    t: TracerModel,
    f: BlendFileView,
    start: usize,
    res: Seq<usize>,
    vis: Seq<bool>,
    vd0: Seq<int>,
    b: int,
    d: int,
)
    requires
        listed_by_depth(t, f, start, res, vd0),
        forall|k: int| 0 <= k < res.len() ==> res[k] < vis.len() && vis[#[trigger] res[k] as int],
        vd0.len() == vis.len(),
        0 <= b < vis.len(),
        !vis[b],
    ensures
        listed_by_depth(t, f, start, res, vd0.update(b, d)),
{
    reveal(listed_by_depth);
    let vd = vd0.update(b, d);
    assert forall|k: int| 0 <= k < res.len() implies #[trigger] vd[res[k] as int] == vd0[res[k] as int] by {
        assert(vis[res[k] as int]);
        assert(res[k] as int != b);
    }
    assert forall|i: int, j: int| 0 <= i <= j < res.len() implies vd[res[i] as int] <= vd[res[j] as int] by {
        assert(vd[res[i] as int] == vd0[res[i] as int]);
        assert(vd[res[j] as int] == vd0[res[j] as int]);
    }
}

/// Listing the block dequeued at depth `d`, no shallower than any block
/// visited before, keeps the list in order.
proof fn lemma_listed_push(
    t: TracerModel,
    f: BlendFileView,
    start: usize,
    res: Seq<usize>,
    vis: Seq<bool>,
    vd0: Seq<int>,
    b: usize,
    d: int,
)
    requires
        listed_by_depth(t, f, start, res, vd0),
        forall|k: int| 0 <= k < res.len() ==> res[k] < vis.len() && vis[#[trigger] res[k] as int],
        vd0.len() == vis.len(),
        forall|v: int| 0 <= v < vis.len() && #[trigger] vis[v] ==> vd0[v] <= d,
        b < vis.len(),
        !vis[b as int],
        0 <= d <= t.max_depth,
        reach(t, f, start, b, d as nat),
    ensures
        listed_by_depth(t, f, start, res.push(b), vd0.update(b as int, d)),
{
    reveal(listed_by_depth);
    lemma_listed_frame(t, f, start, res, vis, vd0, b as int, d);
    reveal(listed_by_depth);
    let vd = vd0.update(b as int, d);
    let r2 = res.push(b);
    assert forall|k: int|
        0 <= k < r2.len() implies 0 <= #[trigger] vd[r2[k] as int] <= t.max_depth && reach(
            t,
            f,
            start,
            r2[k],
            vd[r2[k] as int] as nat,
        ) by {
        if k < res.len() {
            assert(r2[k] == res[k]);
        }
    }
    assert forall|i: int, j: int| 0 <= i <= j < r2.len() implies vd[r2[i] as int] <= vd[r2[j] as int] by {
        if j == res.len() && i < res.len() {
            assert(r2[i] == res[i]);
            assert(vis[res[i] as int]);
            assert(vd[res[i] as int] == vd0[res[i] as int]);
        } else if j < res.len() {
            assert(r2[i] == res[i] && r2[j] == res[j]);
        }
    }
}

/// Once nothing waits, the list is breadth first (see `trace_bfs`).
proof fn lemma_listed_bfs(
    t: TracerModel,
    f: BlendFileView,
    start: usize,
    res: Seq<usize>,
    vis: Seq<bool>,
    vd: Seq<int>,
    q: Seq<(usize, usize)>,
)
    requires
        listed_by_depth(t, f, start, res, vd),
        vis.len() == f.blocks.len(),
        vd.len() == vis.len(),
        start < vis.len(),
        allowed_ok(t, start),
        vis[start as int],
        vd[start as int] == 0,
        forall|v: int|
            0 <= v < vis.len() && vis[v] && allowed_ok(t, v as usize) && vd[v] < t.max_depth ==> #[trigger] followed(
                t,
                f,
                vis,
                vd,
                q,
                q.len() as int,
                v,
            ),
    ensures
        trace_bfs(t, f, start, res),
{
    reveal(listed_by_depth);
    assert forall|i: int, j: int, k: nat|
        0 <= i < j < res.len() && #[trigger] reach(t, f, start, res[j], k) implies reach(t, f, start, #[trigger] res[i], k) by {
        assert(vd[res[i] as int] <= vd[res[j] as int]);
        assert(0 <= vd[res[i] as int] <= t.max_depth);
        if k <= t.max_depth {
            let p = choose|p: Seq<usize>| #[trigger] is_chain(t, f, start, p) && p.len() <= k + 1 && p.last() == res[j];
            lemma_chain_visited(t, f, start, vis, vd, q, p, p.len() - 1);
            assert(vd[res[j] as int] <= k);
        }
        lemma_reach_mono(t, f, start, res[i], vd[res[i] as int] as nat, k);
    }
}

/// Where a breadth-first walk of the dependencies stands: which blocks were
/// seen, the queue of (block, depth) entries and the position of the next
/// one, and the blocks listed so far.
pub struct WalkState {
    pub visited: Seq<bool>,
    pub queue: Seq<(usize, usize)>,
    pub head: int,
    pub listed: Seq<usize>,
}

/// The queue entries that a block at depth `d` with dependencies `deps` adds,
/// in the order of `deps`: each one that the filter lets through and that was
/// not seen, one level deeper, while `d` is below the depth limit.
#[verifier::opaque]
pub open spec fn walk_entries(t: TracerModel, visited: Seq<bool>, deps: Seq<usize>, d: usize) -> Seq<(usize, usize)>
    decreases deps.len(),
{
    if deps.len() == 0 {
        Seq::empty()
    } else {
        let rest = walk_entries(t, visited, deps.drop_last(), d);
        let x = deps.last();
        if allowed_ok(t, x) && !visited[x as int] && d < t.max_depth {
            rest.push((x, (d + 1) as usize))
        } else {
            rest
        }
    }
}

/// The walk of block `start` before its first step: nothing seen or listed,
/// the start block queued at depth 0.
pub open spec fn walk_start(f: BlendFileView, start: usize) -> WalkState {
    WalkState {
        visited: Seq::new(f.blocks.len(), |i: int| false),
        queue: seq![(start, 0usize)],
        head: 0,
        listed: Seq::empty(),
    }
}

/// One step of the walk: the next queue entry is taken. A block seen before is
/// passed over; one the filter stops is marked seen; any other is marked seen,
/// listed unless it is the start block, and its entries (see `walk_entries`)
/// join the end of the queue. With the queue used up, nothing changes.
#[verifier::opaque]
pub open spec fn walk_step(t: TracerModel, f: BlendFileView, start: usize, s: WalkState) -> WalkState {
    if s.head < 0 || s.head >= s.queue.len() {
        s
    } else {
        let b = s.queue[s.head].0;
        let d = s.queue[s.head].1;
        if s.visited[b as int] {
            WalkState { visited: s.visited, queue: s.queue, head: s.head + 1, listed: s.listed }
        } else if !allowed_ok(t, b) {
            WalkState { visited: s.visited.update(b as int, true), queue: s.queue, head: s.head + 1, listed: s.listed }
        } else {
            WalkState {
                visited: s.visited.update(b as int, true),
                queue: s.queue + walk_entries(t, s.visited, deps_of(t, f, b as int), d),
                head: s.head + 1,
                listed: if b != start {
                    s.listed.push(b)
                } else {
                    s.listed
                },
            }
        }
    }
}

/// The walk after `k` steps.
#[verifier::opaque]
pub open spec fn walk_after(t: TracerModel, f: BlendFileView, start: usize, k: nat) -> WalkState
    decreases k,
{
    if k == 0 {
        walk_start(f, start)
    } else {
        walk_step(t, f, start, walk_after(t, f, start, (k - 1) as nat))
    }
}

/// Whether the queue of the walk is used up.
pub open spec fn walk_done(s: WalkState) -> bool {
    s.head >= s.queue.len()
}

/// The blocks a trace of block `start` lists, in the order in which the
/// breadth-first walk lists them: none for a start block outside the file or
/// stopped by the filter, else what the walk has listed once its queue is
/// used up.
pub open spec fn walk_list(t: TracerModel, f: BlendFileView, start: usize) -> Seq<usize> {
    if start >= f.blocks.len() || !allowed_ok(t, start) {
        Seq::empty()
    } else {
        walk_after(t, f, start, choose|k: nat| walk_done(#[trigger] walk_after(t, f, start, k))).listed
    }
}

/// A walk whose queue is used up stays as it is.
proof fn lemma_walk_stays(t: TracerModel, f: BlendFileView, start: usize, k1: nat, k2: nat)
    requires
        walk_done(walk_after(t, f, start, k1)),
        k1 <= k2,
    ensures
        walk_after(t, f, start, k2) == walk_after(t, f, start, k1),
    decreases k2,
{
    if k2 > k1 {
        lemma_walk_stays(t, f, start, k1, (k2 - 1) as nat);
        lemma_walk_next(t, f, start, (k2 - 1) as nat);
        reveal(walk_step);
    }
}

/// The walk starts as `walk_start` says.
proof fn lemma_walk_first(t: TracerModel, f: BlendFileView, start: usize)
    ensures
        walk_after(t, f, start, 0) == walk_start(f, start),
{
    reveal(walk_after);
}

/// Each walk step follows `walk_step`.
proof fn lemma_walk_next(t: TracerModel, f: BlendFileView, start: usize, k: nat)
    ensures
        walk_after(t, f, start, k + 1) == walk_step(t, f, start, walk_after(t, f, start, k)),
{
    reveal(walk_after);
    assert((k + 1) as nat - 1 == k);
}

/// A step that takes a block seen before only moves on.
proof fn lemma_step_seen(t: TracerModel, f: BlendFileView, start: usize, s: WalkState)
    requires
        0 <= s.head < s.queue.len(),
        s.visited[s.queue[s.head].0 as int],
    ensures
        walk_step(t, f, start, s) == (WalkState {
            visited: s.visited,
            queue: s.queue,
            head: s.head + 1,
            listed: s.listed,
        }),
{
    reveal(walk_step);
}

/// A step that takes a block the filter stops marks it seen.
proof fn lemma_step_stopped(t: TracerModel, f: BlendFileView, start: usize, s: WalkState)
    requires
        0 <= s.head < s.queue.len(),
        !s.visited[s.queue[s.head].0 as int],
        !allowed_ok(t, s.queue[s.head].0),
    ensures
        walk_step(t, f, start, s) == (WalkState {
            visited: s.visited.update(s.queue[s.head].0 as int, true),
            queue: s.queue,
            head: s.head + 1,
            listed: s.listed,
        }),
{
    reveal(walk_step);
}

/// A step that takes any other block marks it seen, lists it unless it is the
/// start block, and queues its entries.
proof fn lemma_step_listed(t: TracerModel, f: BlendFileView, start: usize, s: WalkState)
    requires
        0 <= s.head < s.queue.len(),
        !s.visited[s.queue[s.head].0 as int],
        allowed_ok(t, s.queue[s.head].0),
    ensures
        walk_step(t, f, start, s) == (WalkState {
            visited: s.visited.update(s.queue[s.head].0 as int, true),
            queue: s.queue + walk_entries(t, s.visited, deps_of(t, f, s.queue[s.head].0 as int), s.queue[s.head].1),
            head: s.head + 1,
            listed: if s.queue[s.head].0 != start {
                s.listed.push(s.queue[s.head].0)
            } else {
                s.listed
            },
        }),
{
    reveal(walk_step);
}

/// No dependencies add no entries.
proof fn lemma_entries_none(t: TracerModel, v: Seq<bool>, d: usize)
    ensures
        walk_entries(t, v, Seq::empty(), d) == Seq::<(usize, usize)>::empty(),
{
    reveal(walk_entries);
}

/// The entries of the first `j + 1` dependencies: those of the first `j`, and
/// then the next one if it is queued.
proof fn lemma_entries_next(t: TracerModel, v: Seq<bool>, deps: Seq<usize>, j: int, d: usize)
    requires
        0 <= j < deps.len(),
    ensures
        walk_entries(t, v, deps.take(j + 1), d) == (if allowed_ok(t, deps[j]) && !v[deps[j] as int] && d
            < t.max_depth {
            walk_entries(t, v, deps.take(j), d).push((deps[j], (d + 1) as usize))
        } else {
            walk_entries(t, v, deps.take(j), d)
        }),
{
    reveal(walk_entries);
    assert(deps.take(j + 1).drop_last() =~= deps.take(j));
}

/// Once the queue is used up after `k` steps, the walk lists what it listed
/// then.
proof fn lemma_walk_list(t: TracerModel, f: BlendFileView, start: usize, k: nat)
    requires
        start < f.blocks.len(),
        allowed_ok(t, start),
        walk_done(walk_after(t, f, start, k)),
    ensures
        walk_list(t, f, start) == walk_after(t, f, start, k).listed,
{
    let c = choose|c: nat| walk_done(#[trigger] walk_after(t, f, start, c));
    assert(walk_done(walk_after(t, f, start, c)));
    if c <= k {
        lemma_walk_stays(t, f, start, c, k);
    } else {
        lemma_walk_stays(t, f, start, k, c);
    }
}

/// Tracing one block of one file twice with one tracer gives the same list.
pub proof fn lemma_trace_repeats(t: TracerModel, f: BlendFileView, start: usize, r1: Seq<usize>, r2: Seq<usize>)
    requires
        r1 == walk_list(t, f, start),
        r2 == walk_list(t, f, start),
    ensures
        r1 == r2,
{
}

impl DependencyTracer {
    /// The blocks that block `start_block_index` depends on, directly or
    /// through other blocks, at most `max_depth` levels deep, in the order in
    /// which the breadth-first walk lists them (see `walk_list`): level by
    /// level (see `trace_bfs`), each block once; blocks the filter stops are
    /// neither listed nor followed (see `trace_ok` and `trace_exact`).
    #[verifier::rlimit(40)]
    #[verifier::spinoff_prover]
    pub fn trace_dependencies(&mut self, start_block_index: usize, blend_file: &BlendFile) -> (r: Result<
        Vec<usize>,
    >)
        ensures
            final(self)@ == old(self)@,
            r matches Ok(res) && trace_ok(old(self)@, blend_file@, start_block_index, res@),
            r matches Ok(res) && trace_exact(old(self)@, blend_file@, start_block_index, res@),
            r matches Ok(res) && trace_bfs(old(self)@, blend_file@, start_block_index, res@),
            !allowed_ok(old(self)@, start_block_index) ==> (r matches Ok(res) && res@.len() == 0),
            start_block_index >= blend_file@.blocks.len() ==> (r matches Ok(res) && res@.len() == 0),
            r matches Ok(res) && res@ == walk_list(old(self)@, blend_file@, start_block_index),
    {
        let start = start_block_index;
        let ghost t = self@;
        let ghost f = blend_file@;
        let n = blend_file.blocks_len();
        let mut result: Vec<usize> = Vec::new();
        if !self.is_allowed(start) {
            return Ok(result);
        }
        if start >= n {
            return Ok(result);
        }
        let mut visited: Vec<bool> = Vec::new();
        while visited.len() < n
            invariant
                visited.len() <= n,
                forall|x: int| 0 <= x < visited.len() ==> !visited@[x],
            decreases n - visited.len(),
        {
            visited.push(false);
        }
        let mut queue: Vec<(usize, usize)> = Vec::new();
        queue.push((start, 0));
        let ghost mut vd: Seq<int> = Seq::new(n as nat, |i: int| 0int);
        let ghost mut cur: int = 0;
        proof {
            lemma_reach_start(t, f, start);
            reveal(listed_by_depth);
        }
        let ghost mut qpar: Seq<int> = seq![-1int];
        let ghost mut qidx: Seq<int> = seq![0int];
        let ghost mut rpar: Seq<int> = Seq::empty();
        let ghost mut steps: nat = 0;
        proof {
            lemma_walk_first(t, f, start);
            assert(visited@ =~= walk_start(f, start).visited);
            assert(queue@ =~= walk_start(f, start).queue);
            assert(result@ =~= walk_start(f, start).listed);
        }
        let mut head: usize = 0;
        while head < queue.len()
            invariant
                t == self@,
                f == blend_file@,
                n == f.blocks.len(),
                visited.len() == n,
                start < n,
                allowed_ok(t, start),
                head <= queue.len(),
                queue@.len() == qpar.len(),
                queue@.len() == qidx.len(),
                queue@.len() >= 1,
                queue@[0].0 == start,
                queue@[0].1 == 0,
                head >= 1 ==> forall|x: usize| #[trigger] deps_of(t, f, start as int).contains(x) ==> x < n,
                forall|k: int| 0 <= k < queue.len() ==> #[trigger] queue@[k].0 < n && queue@[k].1 <= t.max_depth,
                forall|k: int| 0 <= k < head ==> visited@[#[trigger] queue@[k].0 as int],
                head == 0 ==> result.len() == 0 && forall|x: int| 0 <= x < n ==> !visited@[x],
                rpar.len() == result.len(),
                no_dups(result@),
                forall|k: int|
                    0 <= k < result.len() ==> #[trigger] result@[k] != start && result@[k] < n && allowed_ok(
                        t,
                        result@[k],
                    ) && visited@[result@[k] as int],
                forall|k: int|
                    #![trigger rpar[k]]
                    0 <= k < result.len() ==> (rpar[k] == -1 && deps_of(t, f, start as int).contains(result@[k]))
                        || (0 <= rpar[k] < k && deps_of(t, f, result@[rpar[k]] as int).contains(result@[k])),
                forall|k: int|
                    #![trigger qpar[k]]
                    1 <= k < queue.len() ==> (qpar[k] == -1 || 0 <= qpar[k] < result.len()) && 0 <= qidx[k]
                        < deps_of(t, f, parent_block(start, result@, qpar[k])).len() && deps_of(
                        t,
                        f,
                        parent_block(start, result@, qpar[k]),
                    )[qidx[k]] == queue@[k].0,
                forall|x: int|
                    0 <= x < n && #[trigger] visited@[x] && allowed_ok(t, x as usize) ==> x == start
                        || result@.contains(x as usize),
                head >= 1 && t.max_depth >= 1 ==> pending_or_visited(t, f, start, visited@, queue@, head as int),
                vd.len() == n,
                0 <= cur,
                forall|k: int|
                    0 <= k < queue.len() ==> reach(t, f, start, #[trigger] queue@[k].0, queue@[k].1 as nat),
                forall|k: int|
                    0 <= k < result.len() ==> reach(t, f, start, #[trigger] result@[k], t.max_depth as nat),
                forall|i: int, j: int|
                    head <= i <= j < queue.len() ==> #[trigger] queue@[i].1 <= #[trigger] queue@[j].1,
                forall|i: int| head <= i < queue.len() ==> cur <= #[trigger] queue@[i].1 <= cur + 1,
                forall|v: int| 0 <= v < n && #[trigger] visited@[v] ==> vd[v] <= cur,
                forall|v: int|
                    0 <= v < n && visited@[v] && allowed_ok(t, v as usize) && vd[v] < t.max_depth ==> #[trigger] followed(
                        t,
                        f,
                        visited@,
                        vd,
                        queue@,
                        head as int,
                        v,
                    ),
                head >= 1 ==> visited@[start as int] && vd[start as int] == 0,
                head == 0 ==> cur == 0,
                listed_by_depth(t, f, start, result@, vd),
                walk_after(t, f, start, steps).visited == visited@,
                walk_after(t, f, start, steps).queue == queue@,
                walk_after(t, f, start, steps).head == head as int,
                walk_after(t, f, start, steps).listed == result@,
            decreases unvisited(visited@), queue.len() - head,
        {
            let ghost s0 = walk_after(t, f, start, steps);
            let ghost v0 = visited@;
            let ghost qs0 = queue@;
            let ghost h0 = head as int;
            let ghost vd0 = vd;
            let ghost cur0 = cur;
            let (b, d) = queue[head];
            head = head + 1;
            proof {
                cur = d as int;
                assert(qs0[h0] == (b, d));
                assert(reach(t, f, start, b, d as nat));
                assert forall|i: int| head <= i < queue.len() implies cur <= #[trigger] queue@[i].1 <= cur + 1 by {
                    assert(qs0[h0].1 <= qs0[i].1);
                }
            }
            if visited[b] {
                proof {
                    if h0 >= 1 && t.max_depth >= 1 {
                        lemma_pending_grow(t, f, start, v0, visited@, qs0, queue@, h0);
                    }
                    assert forall|v: int|
                        0 <= v < n && visited@[v] && allowed_ok(t, v as usize) && vd[v] < t.max_depth implies #[trigger] followed(
                            t,
                            f,
                            visited@,
                            vd,
                            queue@,
                            head as int,
                            v,
                        ) by {
                        lemma_followed_step(t, f, v0, vd0, visited@, vd, qs0, queue@, h0, v);
                    }
                }
                proof {
                    lemma_walk_next(t, f, start, steps);
                    steps = steps + 1;
                    if v0[b as int] {
                        lemma_step_seen(t, f, start, s0);
                    } else {
                        lemma_step_stopped(t, f, start, s0);
                    }
                }
                continue;
            }
            if !self.is_allowed(b) {
                proof {
                    lemma_unvisited_update(visited@, b as int);
                }
                visited.set(b, true);
                proof {
                    lemma_listed_frame(t, f, start, result@, v0, vd, b as int, d as int);
                    vd = vd.update(b as int, d as int);
                    if h0 >= 1 && t.max_depth >= 1 {
                        lemma_pending_grow(t, f, start, v0, visited@, qs0, queue@, h0);
                    }
                    assert forall|v: int|
                        0 <= v < n && visited@[v] && allowed_ok(t, v as usize) && vd[v] < t.max_depth implies #[trigger] followed(
                            t,
                            f,
                            visited@,
                            vd,
                            queue@,
                            head as int,
                            v,
                        ) by {
                        lemma_followed_step(t, f, v0, vd0, visited@, vd, qs0, queue@, h0, v);
                    }
                    assert forall|v: int| 0 <= v < n && #[trigger] visited@[v] implies vd[v] <= cur by {
                        if v != b {
                            assert(v0[v]);
                        }
                    }
                }
                proof {
                    lemma_walk_next(t, f, start, steps);
                    steps = steps + 1;
                    if v0[b as int] {
                        lemma_step_seen(t, f, start, s0);
                    } else {
                        lemma_step_stopped(t, f, start, s0);
                    }
                }
                continue;
            }
            let code = match blend_file.get_block(b) {
                Some(blk) => blk.header.code,
                None => {
                    return Ok(result);
                },
            };
            let ghost pb: int = if b == start {
                -1
            } else {
                result.len() as int
            };
            let ghost q0 = queue.len() as int;
            let ghost qpar0 = qpar;
            let ghost qidx0 = qidx;
            match self.find_expander(&code) {
                Some(k) => {
                    let res = match run_expander(k, b, blend_file) {
                        Ok(res) => res,
                        Err(e) => {
                            return Err(e);
                        },
                    };
                    let deps = res.dependencies;
                    assert(deps@ == deps_of(t, f, b as int));
                    proof {
                        if h0 == 0 {
                            assert forall|x: usize| #[trigger] deps_of(t, f, start as int).contains(x) implies x < n by {
                                let jj = choose|jj: int| 0 <= jj < deps@.len() && deps@[jj] == x;
                            }
                        }
                    }
                    let mut j: usize = 0;
                    proof {
                        assert(deps@.take(0) =~= Seq::<usize>::empty());
                        lemma_entries_none(t, v0, d);
                        assert(queue@ =~= qs0 + walk_entries(t, v0, deps@.take(0), d));
                    }
                    while j < deps.len()
                        invariant
                            t == self@,
                            f == blend_file@,
                            n == f.blocks.len(),
                            visited.len() == n,
                            visited@ == v0,
                            deps@ == deps_of(t, f, b as int),
                            queue@ == qs0 + walk_entries(t, v0, deps@.take(j as int), d),
                            deps_in_file(deps@, n as int),
                            b < n,
                            d <= t.max_depth,
                            h0 + 1 == head,
                            head <= q0,
                            j <= deps.len(),
                            h0 == 0 ==> d == 0,
                            q0 == qs0.len(),
                            q0 <= queue.len(),
                            queue@.len() == qpar.len(),
                            queue@.len() == qidx.len(),
                            forall|k: int| 0 <= k < q0 ==> queue@[k] == qs0[k],
                            forall|k: int| 0 <= k < queue.len() ==> #[trigger] queue@[k].0 < n && queue@[k].1 <= t.max_depth,
                            forall|k: int|
                                #![trigger qpar[k]]
                                q0 <= k < queue.len() ==> qpar[k] == pb && 0 <= qidx[k] < j && deps_of(
                                    t,
                                    f,
                                    b as int,
                                )[qidx[k]] == queue@[k].0,
                            forall|k: int| 0 <= k < q0 ==> qpar[k] == qpar0[k] && qidx[k] == qidx0[k],
                            h0 == 0 && t.max_depth >= 1 ==> forall|jj: int|
                                0 <= jj < j && allowed_ok(t, #[trigger] deps@[jj]) ==> v0[deps@[jj] as int]
                                    || exists|k: int| head <= k < queue.len() && queue@[k].0 == deps@[jj],
                            forall|k: int| q0 <= k < queue.len() ==> #[trigger] queue@[k].1 == d + 1,
                            forall|k: int|
                                0 <= k < queue.len() ==> reach(t, f, start, #[trigger] queue@[k].0, queue@[k].1 as nat),
                            reach(t, f, start, b, d as nat),
                            forall|v: int| 0 <= v < n && #[trigger] v0[v] ==> vd0[v] <= d,
                            d < t.max_depth ==> forall|jj: int|
                                0 <= jj < j && allowed_ok(t, #[trigger] deps@[jj]) ==> (deps@[jj] < n && v0[deps@[jj]
                                    as int] && vd0[deps@[jj] as int] <= d + 1) || exists|k: int|
                                    head <= k < queue.len() && queue@[k].0 == deps@[jj] && queue@[k].1 <= d + 1,
                        decreases deps.len() - j,
                    {
                        let x = deps[j];
                        proof {
                            lemma_entries_next(t, v0, deps@, j as int, d);
                        }
                        let ghost qold = queue@;
                        let ghost qparold = qpar;
                        let ghost qidxold = qidx;
                        if self.is_allowed(x) && !visited[x] && d < self.options.max_depth {
                            queue.push((x, d + 1));
                            proof {
                                qpar = qpar.push(pb);
                                qidx = qidx.push(j as int);
                                assert(deps_of(t, f, b as int).contains(x)) by {
                                    assert(deps@[j as int] == x);
                                }
                                lemma_reach_extend(t, f, start, b, d as nat, x);
                            }
                        }
                        proof {
                            assert forall|k: int|
                                0 <= k < queue.len() implies reach(t, f, start, #[trigger] queue@[k].0, queue@[k].1 as nat) by {
                                if k < qold.len() {
                                    assert(queue@[k] == qold[k]);
                                }
                            }
                            if d < t.max_depth {
                                assert forall|jj: int|
                                    0 <= jj < j + 1 && allowed_ok(t, #[trigger] deps@[jj]) implies (deps@[jj] < n
                                        && v0[deps@[jj] as int] && vd0[deps@[jj] as int] <= d + 1) || exists|k: int|
                                        head <= k < queue.len() && queue@[k].0 == deps@[jj] && queue@[k].1 <= d + 1 by {
                                    if jj < j {
                                        if !(deps@[jj] < n && v0[deps@[jj] as int] && vd0[deps@[jj] as int] <= d + 1) {
                                            let k = choose|k: int|
                                                head <= k < qold.len() && qold[k].0 == deps@[jj] && qold[k].1 <= d + 1;
                                            assert(queue@[k] == qold[k]);
                                        }
                                    } else {
                                        if v0[deps@[jj] as int] {
                                            assert(vd0[deps@[jj] as int] <= d);
                                        } else {
                                            assert(queue@[queue@.len() - 1].0 == x && queue@[queue@.len() - 1].1 == d + 1);
                                        }
                                    }
                                }
                            }
                        }
                        proof {
                            assert forall|k: int| 0 <= k < qold.len() implies queue@[k] == qold[k] && qpar[k]
                                == qparold[k] && qidx[k] == qidxold[k] by {}
                            assert forall|k: int|
                                #![trigger qpar[k]]
                                q0 <= k < queue.len() implies qpar[k] == pb && 0 <= qidx[k] < j + 1 && deps_of(
                                    t,
                                    f,
                                    b as int,
                                )[qidx[k]] == queue@[k].0 by {
                                if k < qold.len() {
                                    assert(qparold[k] == pb && qidxold[k] < j && deps_of(t, f, b as int)[qidxold[k]]
                                        == qold[k].0);
                                }
                            }
                            if h0 == 0 && t.max_depth >= 1 {
                                assert forall|jj: int|
                                    0 <= jj < j + 1 && allowed_ok(t, #[trigger] deps@[jj]) implies v0[deps@[jj] as int]
                                    || exists|k: int| head <= k < queue.len() && queue@[k].0 == deps@[jj] by {
                                    if jj < j {
                                        if !v0[deps@[jj] as int] {
                                            let k = choose|k: int| head <= k < qold.len() && qold[k].0 == deps@[jj];
                                            assert(queue@[k] == qold[k]);
                                        }
                                    } else {
                                        if !v0[deps@[jj] as int] {
                                            assert(queue@.len() == qold.len() + 1);
                                            assert(head <= queue@.len() - 1);
                                            assert(queue@[queue@.len() - 1].0 == deps@[jj]);
                                        }
                                    }
                                }
                            }
                        }
                        assert(queue@ =~= qs0 + walk_entries(t, v0, deps@.take(j + 1), d));
                        j = j + 1;
                    }
                    assert(j == deps@.len());
                    assert(deps@ == deps_of(t, f, b as int));
                    assert(deps@.take(j as int) =~= deps@);
                    assert forall|k: int|
                        #![trigger qpar[k]]
                        q0 <= k < queue.len() implies qpar[k] == pb && 0 <= qidx[k] < deps_of(t, f, b as int).len()
                            && deps_of(t, f, b as int)[qidx[k]] == queue@[k].0 by {
                        assert(qpar[k] == pb);
                        assert(0 <= qidx[k]);
                        assert(qidx[k] < j);
                        assert(deps_of(t, f, b as int)[qidx[k]] == queue@[k].0);
                    }
                    proof {
                        if d < t.max_depth {
                            assert forall|x: usize|
                                #[trigger] deps_of(t, f, b as int).contains(x) && allowed_ok(t, x) implies (x < n
                                    && v0[x as int] && vd0[x as int] <= d + 1) || exists|k: int|
                                    head <= k < queue.len() && queue@[k].0 == x && queue@[k].1 <= d + 1 by {
                                let jj = choose|jj: int| 0 <= jj < deps@.len() && deps@[jj] == x;
                                assert(allowed_ok(t, deps@[jj]));
                            }
                        }
                    }
                },
                None => {
                    assert(deps_of(t, f, b as int) =~= Seq::<usize>::empty());
                    proof {
                        lemma_entries_none(t, v0, d);
                    }
                    assert(queue@ =~= qs0 + walk_entries(t, v0, deps_of(t, f, b as int), d));
                    assert forall|k: int| #![trigger qpar[k]] q0 <= k < queue.len() implies qpar[k] == pb && 0 <= qidx[k]
                        < deps_of(t, f, b as int).len() && deps_of(t, f, b as int)[qidx[k]] == queue@[k].0 by {}
                },
            }
            assert(forall|k: int| 0 <= k < q0 ==> queue@[k] == qs0[k]);
            assert(forall|k: int| 0 <= k < q0 ==> qpar[k] == qpar0[k] && qidx[k] == qidx0[k]);
            assert(forall|k: int| 0 <= k < queue.len() ==> reach(t, f, start, #[trigger] queue@[k].0, queue@[k].1 as nat));
            assert(forall|k: int| q0 <= k < queue.len() ==> #[trigger] queue@[k].1 == d + 1);
            assert(d < t.max_depth ==> forall|x: usize|
                #[trigger] deps_of(t, f, b as int).contains(x) && allowed_ok(t, x) ==> (x < n && v0[x as int]
                    && vd0[x as int] <= d + 1) || exists|k: int|
                    head <= k < queue.len() && queue@[k].0 == x && queue@[k].1 <= d + 1);
            proof {
                lemma_unvisited_update(visited@, b as int);
            }
            assert(queue@ == qs0 + walk_entries(t, v0, deps_of(t, f, b as int), d));
            let ghost rold = result@;
            visited.set(b, true);
            if b != start {
                proof {
                    rpar = rpar.push(qpar[h0]);
                }
                result.push(b);
            }
            proof {
                lemma_walk_next(t, f, start, steps);
                lemma_step_listed(t, f, start, s0);
                steps = steps + 1;
                assert(visited@ =~= v0.update(b as int, true));
                assert(qs0[h0].1 <= t.max_depth);
                if b != start {
                    lemma_listed_push(t, f, start, rold, v0, vd, b, d as int);
                } else {
                    lemma_listed_frame(t, f, start, rold, v0, vd, b as int, d as int);
                }
                vd = vd.update(b as int, d as int);
                assert forall|v: int|
                    0 <= v < n && visited@[v] && allowed_ok(t, v as usize) && vd[v] < t.max_depth implies #[trigger] followed(
                        t,
                        f,
                        visited@,
                        vd,
                        queue@,
                        head as int,
                        v,
                    ) by {
                    if v == b as int {
                        assert forall|x: usize| #[trigger] deps_of(t, f, v).contains(x) && allowed_ok(t, x) implies (x
                            < visited@.len() && visited@[x as int] && vd[x as int] <= vd[v] + 1) || exists|k: int|
                            head <= k < queue@.len() && queue@[k].0 == x && queue@[k].1 <= vd[v] + 1 by {
                            if x < n && v0[x as int] && vd0[x as int] <= d + 1 {
                                assert(x != b);
                                assert(visited@[x as int]);
                                assert(vd[x as int] == vd0[x as int]);
                            }
                        }
                    } else {
                        assert(v0[v]);
                        lemma_followed_step(t, f, v0, vd0, visited@, vd, qs0, queue@, h0, v);
                    }
                }
                assert forall|v: int| 0 <= v < n && #[trigger] visited@[v] implies vd[v] <= cur by {
                    if v != b {
                        assert(v0[v]);
                    }
                }
                assert forall|i: int, jx: int|
                    head <= i <= jx < queue.len() implies #[trigger] queue@[i].1 <= #[trigger] queue@[jx].1 by {
                    if jx < q0 {
                        assert(queue@[i] == qs0[i] && queue@[jx] == qs0[jx]);
                        assert(qs0[i].1 <= qs0[jx].1);
                    } else if i < q0 {
                        assert(queue@[i] == qs0[i]);
                        assert(qs0[i].1 <= cur0 + 1);
                    }
                }
                assert forall|i: int| head <= i < queue.len() implies cur <= #[trigger] queue@[i].1 <= cur + 1 by {
                    if i < q0 {
                        assert(queue@[i] == qs0[i]);
                        assert(qs0[h0].1 <= qs0[i].1);
                    }
                }
                if b != start {
                    lemma_reach_mono(t, f, start, b, d as nat, t.max_depth as nat);
                    assert forall|k: int|
                        0 <= k < result.len() implies reach(t, f, start, #[trigger] result@[k], t.max_depth as nat) by {
                        if k < rold.len() {
                            assert(result@[k] == rold[k]);
                        }
                    }
                }
                if h0 == 0 {
                    assert(b == start && d == 0);
                }
                assert forall|k: int| 0 <= k < rold.len() implies result@[k] == rold[k] by {}
                assert forall|k: int| 0 <= k < head implies visited@[#[trigger] queue@[k].0 as int] by {
                    if k < h0 {
                        assert(queue@[k] == qs0[k]);
                        assert(v0[qs0[k].0 as int]);
                    }
                }
                if b != start {
                    assert(result@[result@.len() - 1] == b);
                }
                assert forall|x: int|
                    0 <= x < n && #[trigger] visited@[x] && allowed_ok(t, x as usize) implies x == start
                        || result@.contains(x as usize) by {
                    if x != b {
                        assert(v0[x]);
                        if x != start {
                            let i = choose|i: int| 0 <= i < rold.len() && rold[i] == x as usize;
                            assert(result@[i] == rold[i]);
                        }
                    } else if b != start {
                        assert(result@[result@.len() - 1] == b);
                    }
                }
                assert forall|k: int|
                    #![trigger qpar[k]]
                    1 <= k < queue.len() implies (qpar[k] == -1 || 0 <= qpar[k] < result.len()) && 0 <= qidx[k]
                        < deps_of(t, f, parent_block(start, result@, qpar[k])).len() && deps_of(
                        t,
                        f,
                        parent_block(start, result@, qpar[k]),
                    )[qidx[k]] == queue@[k].0 by {
                    if k >= q0 {
                        assert(parent_block(start, result@, qpar[k]) == b);
                    } else {
                        assert(queue@[k] == qs0[k]);
                        assert(qpar[k] == qpar0[k] && qidx[k] == qidx0[k]);
                        if qpar[k] != -1 {
                            assert(result@[qpar[k]] == rold[qpar[k]]);
                        }
                    }
                }
                if t.max_depth >= 1 {
                    if h0 >= 1 {
                        lemma_pending_grow(t, f, start, v0, visited@, qs0, queue@, h0);
                    } else {
                        assert forall|x: usize|
                            #[trigger] deps_of(t, f, start as int).contains(x) && allowed_ok(t, x) implies visited@[x
                                as int] || exists|k: int| head <= k < queue@.len() && queue@[k].0 == x by {
                            let jj = choose|jj: int| 0 <= jj < deps_of(t, f, start as int).len() && deps_of(
                                t,
                                f,
                                start as int,
                            )[jj] == x;
                        }
                    }
                }
            }
        }
        proof {
            if t.max_depth >= 1 {
                assert forall|x: usize|
                    #[trigger] deps_of(t, f, start as int).contains(x) && allowed_ok(t, x) && x != start implies result@.contains(x) by {
                    assert(visited@[x as int]);
                }
            }
            assert forall|k: int| 0 <= k < result.len() implies deps_of(t, f, start as int).contains(
                #[trigger] result@[k],
            ) || exists|j: int| 0 <= j < k && deps_of(t, f, result@[j] as int).contains(result@[k]) by {
                if rpar[k] != -1 {
                    let j = rpar[k];
                    assert(deps_of(t, f, result@[j] as int).contains(result@[k]));
                }
            }
        }
        proof {
            assert(head == queue.len());
            assert forall|x: usize| #[trigger] result@.contains(x) <==> (x != start && reach(
                t,
                f,
                start,
                x,
                t.max_depth as nat,
            )) by {
                if result@.contains(x) {
                    let k = choose|k: int| 0 <= k < result.len() && result@[k] == x;
                    assert(reach(t, f, start, result@[k], t.max_depth as nat));
                }
                if x != start && reach(t, f, start, x, t.max_depth as nat) {
                    lemma_reach_visited(t, f, start, visited@, vd, queue@, x);
                    lemma_reach_allowed(t, f, start, x, t.max_depth as nat);
                    assert(visited@[x as int]);
                }
            }
            lemma_listed_bfs(t, f, start, result@, visited@, vd, queue@);
            lemma_walk_list(t, f, start, steps);
        }
        Ok(result)
    }
}

/// A block in a dependency tree.
#[derive(Debug)]
pub struct DependencyNode {
    /// Index of the block in the file.
    pub block_index: usize,
    /// Code of the block without trailing NULs (such as `OB`), or `FILTERED`.
    pub block_code: String,
    /// Size of the block's data.
    pub block_size: u32,
    /// Address of the block, through the tracer's address map.
    pub block_address: u64,
    /// The nodes of the blocks it depends on.
    pub children: Vec<DependencyNode>,
}

/// A dependency tree from one block.
#[derive(Debug)]
pub struct DependencyTree {
    /// The node of the start block.
    pub root: DependencyNode,
    /// The number of nodes below the root.
    pub total_dependencies: usize,
    /// The length of the longest path from the root.
    pub max_depth: usize,
}

/// The number of nodes of the tree at `n`.
pub open spec fn node_count(n: DependencyNode) -> nat
    decreases n, 1nat,
{
    1 + children_count(n.children@)
}

/// The number of nodes of the trees in `s`.
pub open spec fn children_count(s: Seq<DependencyNode>) -> nat
    decreases s, 0nat,
{
    if s.len() == 0 {
        0
    } else {
        children_count(s.drop_last()) + node_count(s.last())
    }
}

/// The length of the longest path down from `n`.
pub open spec fn height(n: DependencyNode) -> nat
    decreases n, 1nat,
{
    if n.children@.len() == 0 {
        0
    } else {
        1 + children_height(n.children@)
    }
}

/// The largest height of the trees in `s`.
pub open spec fn children_height(s: Seq<DependencyNode>) -> nat
    decreases s, 0nat,
{
    if s.len() == 0 {
        0
    } else {
        let a = children_height(s.drop_last());
        let b = height(s.last());
        if a >= b {
            a
        } else {
            b
        }
    }
}

/// `x`, or `usize::MAX` when it is larger.
pub open spec fn sat(x: nat) -> usize {
    if x > usize::MAX {
        usize::MAX
    } else {
        x as usize
    }
}

/// The number of nodes of the tree at `node` (saturating at `usize::MAX`).
fn count_nodes(node: &DependencyNode) -> (r: usize)
    ensures
        r == sat(node_count(*node)),
    decreases *node,
{
    let mut total: usize = 1;
    let mut k: usize = 0;
    while k < node.children.len()
        invariant
            k <= node.children.len(),
            total == sat(1 + children_count(node.children@.subrange(0, k as int))),
        decreases node.children.len() - k,
    {
        let c = count_nodes(&node.children[k]);
        assert(node.children@.subrange(0, k + 1).drop_last() =~= node.children@.subrange(0, k as int));
        total = total.saturating_add(c);
        k = k + 1;
    }
    assert(node.children@.subrange(0, node.children.len() as int) =~= node.children@);
    total
}

/// The length of the longest path down from `node` (saturating at `usize::MAX`).
fn node_height(node: &DependencyNode) -> (r: usize)
    ensures
        r == sat(height(*node)),
    decreases *node,
{
    if node.children.len() == 0 {
        return 0;
    }
    let mut best: usize = 0;
    let mut k: usize = 0;
    while k < node.children.len()
        invariant
            k <= node.children.len(),
            best == sat(children_height(node.children@.subrange(0, k as int))),
        decreases node.children.len() - k,
    {
        let h = node_height(&node.children[k]);
        assert(node.children@.subrange(0, k + 1).drop_last() =~= node.children@.subrange(0, k as int));
        if h > best {
            best = h;
        }
        k = k + 1;
    }
    assert(node.children@.subrange(0, node.children.len() as int) =~= node.children@);
    best.saturating_add(1)
}

proof fn lemma_children_height_bound(s: Seq<DependencyNode>, bound: nat)
    requires
        forall|k: int| 0 <= k < s.len() ==> #[trigger] height(s[k]) <= bound,
    ensures
        children_height(s) <= bound,
    decreases s.len(),
{
    if s.len() > 0 {
        let t = s.drop_last();
        assert forall|k: int| 0 <= k < t.len() implies #[trigger] height(t[k]) <= bound by {
            assert(t[k] == s[k]);
        }
        lemma_children_height_bound(t, bound);
        assert(height(s[s.len() - 1]) <= bound);
    }
}

/// The node of a block that is not followed: no children.
fn leaf(block_index: usize, block_code: String, block_size: u32, block_address: u64) -> (r: DependencyNode)
    ensures
        r.block_index == block_index,
        r.block_code@ == block_code@,
        r.block_size == block_size,
        r.block_address == block_address,
        r.children@.len() == 0,
        height(r) == 0,
{
    DependencyNode { block_index, block_code, block_size, block_address, children: Vec::new() }
}

/// A dependency node by its values.
pub struct NodeView {
    pub index: usize,
    pub code: Seq<char>,
    pub size: u32,
    pub address: u64,
    pub children: Seq<NodeView>,
}

/// The values of the tree at `n`.
pub open spec fn node_view(n: DependencyNode) -> NodeView
    decreases n, 1nat,
{
    NodeView {
        index: n.block_index,
        code: n.block_code@,
        size: n.block_size,
        address: n.block_address,
        children: children_view(n.children@),
    }
}

/// The values of the trees in `s`.
pub open spec fn children_view(s: Seq<DependencyNode>) -> Seq<NodeView>
    decreases s, 0nat,
{
    if s.len() == 0 {
        Seq::empty()
    } else {
        children_view(s.drop_last()).push(node_view(s.last()))
    }
}

/// Address `a` through the address map of `t`.
pub open spec fn remapped(t: TracerModel, a: u64) -> u64 {
    match t.address_map {
        Some(m) => if m.contains_key(a) {
            m[a]
        } else {
            a
        },
        None => a,
    }
}

/// The node that `t` builds for block `i` of `f` at `depth` when the blocks
/// marked in `vis` are already in the tree, and the marks afterwards. A marked
/// block is a leaf with its code, size and address; a block the filter stops is
/// a `FILTERED` leaf; any other block is marked and gets the children that
/// `children_at` builds from its dependencies.
pub open spec fn tree_at(t: TracerModel, f: BlendFileView, i: int, depth: int, vis: Seq<bool>) -> (NodeView, Seq<bool>)
    decreases t.max_depth - depth, 1int, 0int,
{
    let b = f.blocks[i];
    let code = crate::text::lossy_utf8(crate::block::code_name_bytes(b.header.code@));
    if vis[i] {
        (
            NodeView {
                index: i as usize,
                code,
                size: b.header.size,
                address: remapped(t, b.header.old_address),
                children: Seq::empty(),
            },
            vis,
        )
    } else if !allowed_ok(t, i as usize) {
        (NodeView { index: i as usize, code: "FILTERED"@, size: 0, address: 0, children: Seq::empty() }, vis)
    } else {
        let (kids, after) = children_at(t, f, deps_of(t, f, i), 0, depth, vis.update(i, true), Seq::empty());
        (
            NodeView {
                index: i as usize,
                code,
                size: b.header.size,
                address: remapped(t, b.header.old_address),
                children: kids,
            },
            after,
        )
    }
}

/// The children built from dependencies `deps[j..]` of a node at `depth`,
/// after those in `acc`, and the marks afterwards: below the depth limit each
/// dependency the filter lets through gets its node (`tree_at` at `depth + 1`),
/// in order, each seeing the marks the ones before it left.
pub open spec fn children_at(
    t: TracerModel,
    f: BlendFileView,
    deps: Seq<usize>,
    j: int,
    depth: int,
    vis: Seq<bool>,
    acc: Seq<NodeView>,
) -> (Seq<NodeView>, Seq<bool>)
    decreases t.max_depth - depth, 0int, deps.len() - j,
{
    if j < 0 || j >= deps.len() {
        (acc, vis)
    } else if allowed_ok(t, deps[j]) && depth < t.max_depth {
        let (c, after) = tree_at(t, f, deps[j] as int, depth + 1, vis);
        children_at(t, f, deps, j + 1, depth, after, acc.push(c))
    } else {
        children_at(t, f, deps, j + 1, depth, vis, acc)
    }
}

/// Whether every node of the tree at `n`, except a `FILTERED` one, carries the
/// size in bytes from its block's header.
pub open spec fn sized_tree(f: BlendFileView, n: NodeView) -> bool
    decreases n, 1nat,
{
    &&& (n.code != "FILTERED"@ ==> n.size == f.blocks[n.index as int].header.size)
    &&& sized_forest(f, n.children)
}

/// Whether every tree in `s` is `sized_tree`.
pub open spec fn sized_forest(f: BlendFileView, s: Seq<NodeView>) -> bool
    decreases s, 0nat,
{
    if s.len() == 0 {
        true
    } else {
        sized_forest(f, s.drop_last()) && sized_tree(f, s.last())
    }
}

/// Every node of a dependency tree that is not `FILTERED` gives its block's
/// size in bytes (the block header's size), whatever the tracer, the block,
/// the depth and the blocks already in the tree.
pub proof fn lemma_tree_sizes(t: TracerModel, f: BlendFileView, i: int, depth: int, vis: Seq<bool>)
    requires
        0 <= i <= usize::MAX,
    ensures
        sized_tree(f, tree_at(t, f, i, depth, vis).0),
    decreases t.max_depth - depth, 1int, 0int,
{
    if !vis[i] && allowed_ok(t, i as usize) {
        lemma_children_sizes(t, f, deps_of(t, f, i), 0, depth, vis.update(i, true), Seq::empty());
    }
}

/// The children built from dependencies are `sized_forest` when those built
/// before them are.
proof fn lemma_children_sizes(
    t: TracerModel,
    f: BlendFileView,
    deps: Seq<usize>,
    j: int,
    depth: int,
    vis: Seq<bool>,
    acc: Seq<NodeView>,
)
    requires
        sized_forest(f, acc),
    ensures
        sized_forest(f, children_at(t, f, deps, j, depth, vis, acc).0),
    decreases t.max_depth - depth, 0int, deps.len() - j,
{
    if j < 0 || j >= deps.len() {
    } else if allowed_ok(t, deps[j]) && depth < t.max_depth {
        let (c, after) = tree_at(t, f, deps[j] as int, depth + 1, vis);
        lemma_tree_sizes(t, f, deps[j] as int, depth + 1, vis);
        assert(acc.push(c).drop_last() =~= acc);
        lemma_children_sizes(t, f, deps, j + 1, depth, after, acc.push(c));
    } else {
        lemma_children_sizes(t, f, deps, j + 1, depth, vis, acc);
    }
}

impl DependencyTracer {
    /// The node of block `block_index` at `depth`: a leaf for a block already
    /// in the tree or stopped by the filter; else the block with the nodes of
    /// its dependencies that the filter lets through, while `depth` is below
    /// the depth limit.
    fn build_dependency_node(&self, block_index: usize, blend_file: &BlendFile, depth: usize, visited: &mut Vec<bool>) -> (r:
        DependencyNode)
        requires
            block_index < blend_file@.blocks.len(),
            old(visited).len() == blend_file@.blocks.len(),
            depth <= self@.max_depth,
        ensures
            final(visited).len() == old(visited).len(),
            r.block_index == block_index,
            height(r) <= self@.max_depth - depth,
            (node_view(r), final(visited)@) == tree_at(self@, blend_file@, block_index as int, depth as int, old(visited)@),
        decreases self@.max_depth - depth,
    {
        let blk = match blend_file.get_block(block_index) {
            Some(b) => *b,
            None => {
                return leaf(block_index, String::new(), 0, 0);
            },
        };
        if visited[block_index] {
            let code = crate::block::block_code_to_string(blk.header.code);
            let addr = self.remap_address(blk.header.old_address);
            return leaf(block_index, code, blk.header.size, addr);
        }
        if !self.is_allowed(block_index) {
            return leaf(block_index, String::from_str("FILTERED"), 0, 0);
        }
        let ghost t = self@;
        let ghost f = blend_file@;
        let ghost marked = old(visited)@.update(block_index as int, true);
        visited.set(block_index, true);
        let block_code = crate::block::block_code_to_string(blk.header.code);
        let block_address = self.remap_address(blk.header.old_address);
        let mut children: Vec<DependencyNode> = Vec::new();
        let ghost whole = children_at(t, f, deps_of(t, f, block_index as int), 0, depth as int, marked, Seq::empty());
        match self.find_expander(&blk.header.code) {
            Some(k) => {
                let res = match run_expander(k, block_index, blend_file) {
                    Ok(res) => res,
                    Err(_) => {
                        return leaf(block_index, block_code, blk.header.size, block_address);
                    },
                };
                let deps = res.dependencies;
                let mut j: usize = 0;
                while j < deps.len()
                    invariant
                        j <= deps.len(),
                        t == self@,
                        f == blend_file@,
                        deps@ == deps_of(t, f, block_index as int),
                        deps_in_file(deps@, blend_file@.blocks.len() as int),
                        visited.len() == blend_file@.blocks.len(),
                        depth <= self@.max_depth,
                        depth >= self@.max_depth ==> children@.len() == 0,
                        forall|c: int| 0 <= c < children.len() ==> #[trigger] height(children@[c]) + depth + 1
                            <= self@.max_depth,
                        children_at(t, f, deps@, j as int, depth as int, visited@, children_view(children@)) == whole,
                    decreases deps.len() - j,
                {
                    let dep = deps[j];
                    if self.is_allowed(dep) && depth < self.options.max_depth {
                        let child = self.build_dependency_node(dep, blend_file, depth + 1, visited);
                        proof {
                            assert(children@.push(child).drop_last() =~= children@);
                        }
                        children.push(child);
                    }
                    j = j + 1;
                }
            },
            None => {
                assert(deps_of(t, f, block_index as int) =~= Seq::<usize>::empty());
            },
        }
        assert(children_view(children@) == whole.0 && visited@ == whole.1);
        proof {
            if children@.len() > 0 {
                lemma_children_height_bound(children@, (self@.max_depth - depth - 1) as nat);
            }
        }
        DependencyNode { block_index, block_code, block_size: blk.header.size, block_address, children }
    }

    /// The dependency tree of block `start_block_index` (see `tree_at`), at most
    /// `max_depth` levels deep; a block already in the tree appears again as a
    /// leaf and a block the filter stops as a `FILTERED` leaf.
    ///
    /// Fails with `BlockExpansionFailed` for a start block that does not exist
    /// and that the filter lets through.
    pub fn trace_dependency_tree(&mut self, start_block_index: usize, blend_file: &BlendFile) -> (r: Result<
        DependencyTree,
    >)
        ensures
            final(self)@ == old(self)@,
            match r {
                Ok(t) => {
                    &&& t.root.block_index == start_block_index
                    &&& start_block_index < blend_file@.blocks.len() ==> node_view(t.root) == tree_at(
                        old(self)@,
                        blend_file@,
                        start_block_index as int,
                        0,
                        Seq::new(blend_file@.blocks.len(), |k: int| false),
                    ).0
                    &&& start_block_index >= blend_file@.blocks.len() ==> node_view(t.root) == (NodeView {
                        index: start_block_index,
                        code: "FILTERED"@,
                        size: 0,
                        address: 0,
                        children: Seq::empty(),
                    })
                    &&& t.total_dependencies == sat(node_count(t.root)) - 1
                    &&& t.max_depth == sat(height(t.root))
                    &&& height(t.root) <= old(self)@.max_depth
                },
                Err(e) => start_block_index >= blend_file@.blocks.len() && allowed_ok(old(self)@, start_block_index)
                    && tracer_error(e, TracerErrorKind::BlockExpansionFailed),
            },
            (start_block_index < blend_file@.blocks.len() || !allowed_ok(old(self)@, start_block_index)) ==> r is Ok,
    {
        let n = blend_file.blocks_len();
        let root = if start_block_index >= n {
            if !self.is_allowed(start_block_index) {
                leaf(start_block_index, String::from_str("FILTERED"), 0, 0)
            } else {
                return Err(
                    Dot001Error::tracer("Invalid block index", TracerErrorKind::BlockExpansionFailed),
                );
            }
        } else {
            let mut visited: Vec<bool> = Vec::new();
            while visited.len() < n
                invariant
                    visited.len() <= n,
                    forall|k: int| 0 <= k < visited.len() ==> !visited@[k],
                decreases n - visited.len(),
            {
                visited.push(false);
            }
            assert(visited@ =~= Seq::new(blend_file@.blocks.len(), |k: int| false));
            self.build_dependency_node(start_block_index, blend_file, 0, &mut visited)
        };
        let count = count_nodes(&root);
        let total_dependencies = count - 1;
        let max_depth = node_height(&root);
        Ok(DependencyTree { root, total_dependencies, max_depth })
    }
}

impl DependencyTracer {
    /// A tracer error for a dependency that could not be resolved.
    pub fn dependency_error(message: &str) -> (r: Dot001Error)
        ensures
            r matches Dot001Error::Tracer { message: m, kind, file_path: None, block_index: None } && m@ == message@
                && kind == TracerErrorKind::DependencyResolutionFailed,
    {
        Dot001Error::tracer(message, TracerErrorKind::DependencyResolutionFailed)
    }

    /// A tracer error for a name that could not be resolved.
    pub fn name_resolution_error(message: &str) -> (r: Dot001Error)
        ensures
            r matches Dot001Error::Tracer { message: m, kind, file_path: None, block_index: None } && m@ == message@
                && kind == TracerErrorKind::NameResolutionFailed,
    {
        Dot001Error::tracer(message, TracerErrorKind::NameResolutionFailed)
    }

    /// A tracer error for a block that could not be expanded.
    pub fn block_expansion_error(message: &str) -> (r: Dot001Error)
        ensures
            r matches Dot001Error::Tracer { message: m, kind, file_path: None, block_index: None } && m@ == message@
                && kind == TracerErrorKind::BlockExpansionFailed,
    {
        Dot001Error::tracer(message, TracerErrorKind::BlockExpansionFailed)
    }

    /// A tracer error for a circular dependency.
    pub fn circular_dependency_error(message: &str) -> (r: Dot001Error)
        ensures
            r matches Dot001Error::Tracer { message: m, kind, file_path: None, block_index: None } && m@ == message@
                && kind == TracerErrorKind::CircularDependency,
    {
        Dot001Error::tracer(message, TracerErrorKind::CircularDependency)
    }
}

/// A blend file error restated as a tracer error (dependency resolution
/// failed) with the same message, file path (empty when absent) and block
/// index (0 when absent); any other error unchanged.
pub fn to_tracer_error(unified_err: Dot001Error) -> (r: Dot001Error)
    ensures
        match unified_err {
            Dot001Error::BlendFile { message, file_path, block_index, .. } => r matches Dot001Error::Tracer {
                message: m,
                kind,
                file_path: Some(p),
                block_index: Some(i),
            } && m@ == message@ && kind == TracerErrorKind::DependencyResolutionFailed && p@ == (match file_path {
                Some(s) => s@,
                None => Seq::empty(),
            }) && i == (match block_index {
                Some(b) => b,
                None => 0,
            }),
            _ => r == unified_err,
        },
{
    match unified_err {
        Dot001Error::BlendFile { message, kind: _, file_path, block_index } => {
            let path = match file_path {
                Some(p) => p,
                None => String::new(),
            };
            let index = match block_index {
                Some(b) => b,
                None => 0,
            };
            Dot001Error::tracer(message.as_str(), TracerErrorKind::DependencyResolutionFailed).with_file_path(
                path.as_str(),
            ).with_block_index(index)
        },
        other => other,
    }
}

} // verus!
