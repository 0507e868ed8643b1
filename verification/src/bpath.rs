//! Paths as Blender stores them: bytes with forward slashes, where `//` at the
//! start means "relative to the blend file".
use vstd::prelude::*;
use vstd::string::*;
use crate::text::{lossy_utf8, sub_slice, utf8_lossy};

verus! {

/// A path as stored in a blend file, with `\` turned into `/`.
#[derive(Clone, PartialEq, Eq, PartialOrd, Ord, Hash)]
pub struct BlendPath(Vec<u8>);

impl View for BlendPath {
    type V = Seq<u8>;

    closed spec fn view(&self) -> Seq<u8> {
        self.0@
    }
}

/// `b` with every backslash turned into a forward slash.
pub open spec fn normalize(b: Seq<u8>) -> Seq<u8> {
    b.map_values(|x: u8| if x == 92 { 47u8 } else { x })
}

/// Whether `b` starts with `//`.
pub open spec fn spec_blendfile_relative(b: Seq<u8>) -> bool {
    b.len() >= 2 && b[0] == 47 && b[1] == 47
}

/// Whether `b` is an ASCII letter.
pub open spec fn is_alpha(b: u8) -> bool {
    (65 <= b <= 90) || (97 <= b <= 122)
}

/// Whether `b` is absolute: not blend-file relative, and either starting with
/// `/` or with a drive letter, `:` and a slash.
pub open spec fn spec_absolute(b: Seq<u8>) -> bool {
    !spec_blendfile_relative(b) && ((b.len() >= 1 && b[0] == 47) || (b.len() >= 3 && is_alpha(b[0]) && b[1]
        == 58 && (b[2] == 47 || b[2] == 92)))
}

/// `b` without its trailing slashes.
pub open spec fn trim_slashes(b: Seq<u8>) -> Seq<u8>
    decreases b.len(),
{
    if b.len() > 0 && b.last() == 47 {
        trim_slashes(b.drop_last())
    } else {
        b
    }
}

/// `rel` joined to `root` the way a Unix path is joined: `rel` alone when it
/// starts with `/`; otherwise `root`, a `/` unless `root` is empty or already
/// ends with one, then `rel`.
pub open spec fn join_text(root: Seq<char>, rel: Seq<char>) -> Seq<char> {
    if rel.len() > 0 && rel[0] == '/' {
        rel
    } else if root.len() == 0 || root.last() == '/' {
        root + rel
    } else {
        root + seq!['/'] + rel
    }
}

/// The part of `b` after a leading `//`, or all of `b`.
pub open spec fn relative_part(b: Seq<u8>) -> Seq<u8> {
    if spec_blendfile_relative(b) {
        b.subrange(2, b.len() as int)
    } else {
        b
    }
}

/// Path `b` made absolute against `root`: unchanged when already absolute,
/// else its relative part (as text, invalid UTF-8 replaced) joined to `root`,
/// with backslashes turned into slashes.
pub open spec fn spec_absolute_path(b: Seq<u8>, root: Seq<char>) -> Seq<u8> {
    if spec_absolute(b) {
        b
    } else {
        normalize(vstd::utf8::encode_utf8(join_text(root, lossy_utf8(relative_part(b)))))
    }
}

/// How Rust's `Debug` writes a string: quoted, with escapes.
pub uninterp spec fn debug_text(s: Seq<char>) -> Seq<char>;

/// The `Debug` text of a string (`format!("{:?}", s)`).
#[verifier::external_body]
pub(crate) fn debug_quote(s: &str) -> (r: String)
    ensures
        r@ == debug_text(s@),
{
    format!("{:?}", s)
}

impl BlendPath {
    /// The path with these bytes, backslashes turned into forward slashes.
    pub fn new(path: &[u8]) -> (r: Self)
        ensures
            r@ == normalize(path@),
    {
        let mut bytes: Vec<u8> = Vec::new();
        let mut i: usize = 0;
        while i < path.len()
            invariant
                i <= path.len(),
                bytes@ == normalize(path@.subrange(0, i as int)),
            decreases path.len() - i,
        {
            let b = path[i];
            bytes.push(if b == 92u8 { 47u8 } else { b });
            assert(normalize(path@.subrange(0, i + 1)) =~= normalize(path@.subrange(0, i as int)).push(
                if b == 92u8 { 47u8 } else { b },
            ));
            i = i + 1;
        }
        assert(path@.subrange(0, path.len() as int) =~= path@);
        BlendPath(bytes)
    }

    /// The bytes of the path.
    pub fn as_bytes(&self) -> (r: &[u8])
        ensures
            r@ == self@,
    {
        self.0.as_slice()
    }

    /// Whether the path is relative to the blend file (starts with `//`).
    pub fn is_blendfile_relative(&self) -> (r: bool)
        ensures
            r == spec_blendfile_relative(self@),
    {
        self.0.len() >= 2 && self.0[0] == 47u8 && self.0[1] == 47u8
    }

    /// Whether the path is absolute (see `spec_absolute`).
    pub fn is_absolute(&self) -> (r: bool)
        ensures
            r == spec_absolute(self@),
    {
        if self.is_blendfile_relative() {
            return false;
        }
        if self.0.len() >= 1 && self.0[0] == 47u8 {
            return true;
        }
        if self.0.len() >= 3 {
            let c = self.0[0];
            let alpha = (65u8 <= c && c <= 90u8) || (97u8 <= c && c <= 122u8);
            if alpha && self.0[1] == 58u8 && (self.0[2] == 47u8 || self.0[2] == 92u8) {
                return true;
            }
        }
        false
    }

    /// The path as text (invalid UTF-8 replaced); only for paths that are not
    /// relative to the blend file.
    pub fn to_pathbuf(&self) -> (r: String)
        requires
            !spec_blendfile_relative(self@),
        ensures
            r@ == lossy_utf8(self@),
    {
        utf8_lossy(self.0.as_slice())
    }

    /// This path joined with the relative path `rhs`: trailing slashes of this
    /// path dropped, then `/`, then `rhs` (normalized).
    pub fn div(&self, rhs: &[u8]) -> (r: BlendPath)
        requires
            !spec_absolute(normalize(rhs@)),
        ensures
            r@ == trim_slashes(self@) + seq![47u8] + normalize(rhs@),
    {
        let sub = BlendPath::new(rhs);
        let mut n = self.0.len();
        assert(self.0@.subrange(0, n as int) =~= self@);
        while n > 0 && self.0[n - 1] == 47u8
            invariant
                n <= self.0.len(),
                trim_slashes(self@) == trim_slashes(self.0@.subrange(0, n as int)),
            decreases n,
        {
            assert(self.0@.subrange(0, n as int).drop_last() =~= self.0@.subrange(0, n - 1));
            n = n - 1;
        }
        let mut out: Vec<u8> = Vec::new();
        let mut i: usize = 0;
        while i < n
            invariant
                i <= n <= self.0.len(),
                out@ == self.0@.subrange(0, i as int),
            decreases n - i,
        {
            out.push(self.0[i]);
            assert(self.0@.subrange(0, i + 1) =~= self.0@.subrange(0, i as int).push(self.0@[i as int]));
            i = i + 1;
        }
        out.push(47u8);
        let mut k: usize = 0;
        let ghost base = out@;
        while k < sub.0.len()
            invariant
                k <= sub.0.len(),
                out@ == base + sub.0@.subrange(0, k as int),
            decreases sub.0.len() - k,
        {
            out.push(sub.0[k]);
            assert(sub.0@.subrange(0, k + 1) =~= sub.0@.subrange(0, k as int).push(sub.0@[k as int]));
            k = k + 1;
        }
        assert(sub.0@.subrange(0, sub.0.len() as int) =~= sub.0@);
        assert(out@ =~= self.0@.subrange(0, n as int) + seq![47u8] + normalize(rhs@));
        BlendPath(out)
    }

    /// This path made absolute against the directory `root` (see
    /// `spec_absolute_path`).
    pub fn absolute(&self, root: &str) -> (r: BlendPath)
        ensures
            r@ == spec_absolute_path(self@, root@),
    {
        if self.is_absolute() {
            let copy = self.0.clone();
            assert(copy@ =~= self.0@);
            return BlendPath(copy);
        }
        let n = self.0.len();
        let rel = if self.is_blendfile_relative() {
            sub_slice(self.0.as_slice(), 2, n)
        } else {
            self.0.as_slice()
        };
        let rel_text = utf8_lossy(rel);
        let k = rel_text.as_str().unicode_len();
        let joined = if k > 0 && rel_text.as_str().get_char(0) == '/' {
            rel_text
        } else {
            let m = root.unicode_len();
            let mut j = String::from_str(root);
            if !(m == 0 || root.get_char(m - 1) == '/') {
                j.append("/");
                proof {
                    reveal_strlit("/");
                }
            }
            j.append(rel_text.as_str());
            j
        };
        proof {
            if !spec_absolute(self@) && !(k > 0 && rel_text@[0] == '/') && !(root@.len() == 0 || root@.last() == '/') {
                assert(joined@ =~= root@ + seq!['/'] + rel_text@);
            }
        }
        BlendPath::new(joined.as_str().as_bytes())
    }

    /// The path as text, whatever its kind: its bytes read as UTF-8, invalid
    /// sequences replaced (what displaying the path shows).
    pub fn display_text(&self) -> (r: String)
        ensures
            r@ == lossy_utf8(self@),
    {
        utf8_lossy(self.0.as_slice())
    }

    /// The text `BlendPath("...")` that debugging output shows for this path.
    pub fn debug_repr(&self) -> (r: String)
        ensures
            r@ == "BlendPath("@ + debug_text(lossy_utf8(self@)) + ")"@,
    {
        let text = utf8_lossy(self.0.as_slice());
        let quoted = debug_quote(text.as_str());
        let mut out = String::from_str("BlendPath(");
        out.append(quoted.as_str());
        out.append(")");
        out
    }
}

/// The pieces of `p` between slashes, in order, empty ones included.
pub open spec fn path_segments(p: Seq<u8>) -> Seq<Seq<u8>>
    decreases p.len(),
{
    if p.len() == 0 {
        seq![Seq::<u8>::empty()]
    } else {
        let s = path_segments(p.drop_last());
        if p.last() == 47 {
            s.push(Seq::empty())
        } else {
            s.update(s.len() - 1, s.last().push(p.last()))
        }
    }
}

/// Whether a piece of a path is left out when its root is stripped: empty
/// (from a leading, doubled or trailing slash), `.` or `..`.
pub open spec fn dropped_segment(s: Seq<u8>) -> bool {
    s.len() == 0 || s == seq![46u8] || s == seq![46u8, 46u8]
}

/// The pieces of `segs` that are kept, joined with `/`.
pub open spec fn kept_joined(segs: Seq<Seq<u8>>) -> Seq<u8>
    decreases segs.len(),
{
    if segs.len() == 0 {
        Seq::empty()
    } else {
        let rest = kept_joined(segs.drop_last());
        let x = segs.last();
        if dropped_segment(x) {
            rest
        } else if rest.len() == 0 {
            x
        } else {
            rest + seq![47u8] + x
        }
    }
}

/// `p` with its root stripped, its parts read as Unix paths read them: the
/// named parts, joined with `/`; the root, `.` and `..` are left out.
pub open spec fn spec_strip_root(p: Seq<u8>) -> Seq<u8> {
    kept_joined(path_segments(p))
}

/// `seg` added to the kept parts `out` (see `kept_joined`).
fn push_part(out: &mut Vec<u8>, seg: &Vec<u8>)
    ensures
        final(out)@ == (if dropped_segment(seg@) {
            old(out)@
        } else if old(out)@.len() == 0 {
            seg@
        } else {
            old(out)@ + seq![47u8] + seg@
        }),
{
    let n = seg.len();
    let dot_only = n == 1 && seg[0] == 46u8;
    let dot_dot = n == 2 && seg[0] == 46u8 && seg[1] == 46u8;
    proof {
        if seg@ == seq![46u8] {
            assert(seg@[0] == 46u8);
        }
        if seg@ == seq![46u8, 46u8] {
            assert(seg@[0] == 46u8 && seg@[1] == 46u8);
        }
        if n == 1 && seg@[0] == 46u8 {
            assert(seg@ =~= seq![46u8]);
        }
        if n == 2 && seg@[0] == 46u8 && seg@[1] == 46u8 {
            assert(seg@ =~= seq![46u8, 46u8]);
        }
    }
    if n == 0 || dot_only || dot_dot {
        return;
    }
    if out.len() > 0 {
        out.push(47u8);
    }
    let ghost base = out@;
    let mut i: usize = 0;
    while i < n
        invariant
            i <= n == seg.len(),
            out@ == base + seg@.subrange(0, i as int),
        decreases n - i,
    {
        out.push(seg[i]);
        assert(seg@.subrange(0, i + 1) =~= seg@.subrange(0, i as int).push(seg@[i as int]));
        i = i + 1;
    }
    assert(seg@.subrange(0, n as int) =~= seg@);
    proof {
        if old(out)@.len() == 0 {
            assert(out@ =~= seg@);
        }
    }
}

/// A path with its root stripped (see `spec_strip_root`): `/usr/share` becomes
/// `usr/share`.
pub fn strip_root(path: &[u8]) -> (r: Vec<u8>)
    ensures
        r@ == spec_strip_root(path@),
{
    let mut out: Vec<u8> = Vec::new();
    let mut cur: Vec<u8> = Vec::new();
    let mut i: usize = 0;
    assert(path@.take(0) =~= Seq::<u8>::empty());
    assert(seq![Seq::<u8>::empty()].drop_last() =~= Seq::<Seq<u8>>::empty());
    while i < path.len()
        invariant
            i <= path.len(),
            path_segments(path@.take(i as int)).len() >= 1,
            cur@ == path_segments(path@.take(i as int)).last(),
            out@ == kept_joined(path_segments(path@.take(i as int)).drop_last()),
        decreases path.len() - i,
    {
        let ghost segs = path_segments(path@.take(i as int));
        assert(path@.take(i + 1).drop_last() =~= path@.take(i as int));
        assert(path@.take(i + 1).last() == path@[i as int]);
        if path[i] == 47u8 {
            push_part(&mut out, &cur);
            cur = Vec::new();
            proof {
                let ns = path_segments(path@.take(i + 1));
                assert(ns == segs.push(Seq::<u8>::empty()));
                assert(ns.drop_last() =~= segs);
                assert(segs.drop_last().push(segs.last()) =~= segs);
                assert(cur@ =~= ns.last());
            }
        } else {
            cur.push(path[i]);
            proof {
                let ns = path_segments(path@.take(i + 1));
                assert(ns.drop_last() =~= segs.drop_last());
            }
        }
        i = i + 1;
    }
    let ghost segs = path_segments(path@.take(i as int));
    push_part(&mut out, &cur);
    assert(path@.take(i as int) =~= path@);
    assert(segs.drop_last().push(segs.last()) =~= segs);
    out
}

/// The named and `..` pieces of `segs`, in order: all but the empty and `.`
/// pieces.
pub open spec fn named_pieces(segs: Seq<Seq<u8>>) -> Seq<Seq<u8>>
    decreases segs.len(),
{
    if segs.len() == 0 {
        Seq::empty()
    } else {
        let rest = named_pieces(segs.drop_last());
        let x = segs.last();
        if x.len() == 0 || x == seq![46u8] {
            rest
        } else {
            rest.push(x)
        }
    }
}

/// Whether `p` starts with a `.` piece.
pub open spec fn starts_with_dot_piece(p: Seq<u8>) -> bool {
    p.len() >= 1 && p[0] == 46 && (p.len() == 1 || p[1] == 47)
}

/// The components of `p` as a Unix path reads: the root `/` when `p` starts
/// with a slash, else `.` when it starts with a `.` piece; then its named and
/// `..` pieces in order.
pub open spec fn path_components(p: Seq<u8>) -> Seq<Seq<u8>> {
    let head: Seq<Seq<u8>> = if p.len() > 0 && p[0] == 47 {
        seq![seq![47u8]]
    } else if starts_with_dot_piece(p) {
        seq![seq![46u8]]
    } else {
        Seq::empty()
    };
    head + named_pieces(path_segments(p))
}

/// The byte texts of `v`.
pub open spec fn texts_of(v: Seq<Vec<u8>>) -> Seq<Seq<u8>> {
    v.map_values(|x: Vec<u8>| x@)
}

/// Pieces joined with `/`.
pub open spec fn slash_joined(cs: Seq<Seq<u8>>) -> Seq<u8>
    decreases cs.len(),
{
    if cs.len() == 0 {
        Seq::empty()
    } else if cs.len() == 1 {
        cs[0]
    } else {
        slash_joined(cs.drop_last()) + seq![47u8] + cs.last()
    }
}

/// The path made of components `cs`: the root and then the other components
/// joined with `/`, or all of them joined with `/`.
pub open spec fn components_path(cs: Seq<Seq<u8>>) -> Seq<u8> {
    if cs.len() > 0 && cs[0] == seq![47u8] {
        seq![47u8] + slash_joined(cs.drop_first())
    } else {
        slash_joined(cs)
    }
}

/// The first component of `p`, if it has any.
pub open spec fn first_component(p: Seq<u8>) -> Option<Seq<u8>> {
    if path_components(p).len() > 0 {
        Some(path_components(p)[0])
    } else {
        None
    }
}

/// `n` times `../`.
pub open spec fn dots_up(n: nat) -> Seq<u8>
    decreases n,
{
    if n == 0 {
        Seq::empty()
    } else {
        dots_up((n - 1) as nat) + seq![46u8, 46u8, 47u8]
    }
}

/// Whether the path `p` has a parent directory: it has components, and is not
/// the root alone.
pub open spec fn has_parent(p: Seq<u8>) -> bool {
    path_components(p).len() > 0 && path_components(p) != seq![seq![47u8]]
}

/// How many directories the folder of a blend file at `b` lies below the top
/// of its path: its ancestors, itself included, less one.
pub open spec fn levels_up(b: Seq<u8>) -> nat {
    let cb = path_components(b);
    if cb[0] == seq![47u8] {
        (cb.len() - 2) as nat
    } else {
        (cb.len() - 1) as nat
    }
}

/// Path `asset` made relative to the blend file at `bfile`, given `rel`, the
/// path of `asset` relative to the folder of `bfile` where one was found: when
/// the first components of the two paths differ, `asset` itself (normalized);
/// otherwise `//`, `../` once for each level of that folder (see
/// `levels_up`), then `rel`, or `asset` where no relative path was found.
pub open spec fn spec_mkrelative(asset: Seq<u8>, bfile: Seq<u8>, rel: Option<Seq<u8>>) -> Seq<u8> {
    if first_component(asset) != first_component(bfile) {
        normalize(asset)
    } else {
        seq![47u8, 47u8] + dots_up(levels_up(bfile)) + match rel {
            Some(r) => r,
            None => asset,
        }
    }
}

/// The bytes held, if any.
pub open spec fn opt_bytes(o: Option<Vec<u8>>) -> Option<Seq<u8>> {
    match o {
        Some(v) => Some(v@),
        None => None,
    }
}

/// Whether two byte strings are equal.
fn bytes_equal(a: &[u8], b: &[u8]) -> (r: bool)
    ensures
        r == (a@ == b@),
{
    if a.len() != b.len() {
        return false;
    }
    let mut i: usize = 0;
    while i < a.len()
        invariant
            i <= a.len() == b.len(),
            forall|j: int| 0 <= j < i ==> a@[j] == b@[j],
        decreases a.len() - i,
    {
        if a[i] != b[i] {
            return false;
        }
        i = i + 1;
    }
    assert(a@ =~= b@);
    true
}

/// `piece` added to the named pieces `out` (see `named_pieces`).
fn push_named(out: &mut Vec<Vec<u8>>, piece: Vec<u8>)
    ensures
        texts_of(final(out)@) == (if piece@.len() == 0 || piece@ == seq![46u8] {
            texts_of(old(out)@)
        } else {
            texts_of(old(out)@).push(piece@)
        }),
{
    let dot = piece.len() == 1 && piece[0] == 46u8;
    proof {
        if piece@ == seq![46u8] {
            assert(piece@[0] == 46u8);
        }
        if piece@.len() == 1 && piece@[0] == 46u8 {
            assert(piece@ =~= seq![46u8]);
        }
    }
    if piece.len() == 0 || dot {
        return;
    }
    let ghost pv = piece@;
    out.push(piece);
    assert(texts_of(out@) =~= texts_of(old(out)@).push(pv));
}

/// The components of `p` (see `path_components`).
fn components_of(p: &[u8]) -> (r: Vec<Vec<u8>>)
    ensures
        texts_of(r@) == path_components(p@),
{
    let mut out: Vec<Vec<u8>> = Vec::new();
    if p.len() > 0 && p[0] == 47u8 {
        let mut root: Vec<u8> = Vec::new();
        root.push(47u8);
        assert(root@ =~= seq![47u8]);
        out.push(root);
    } else if p.len() >= 1 && p[0] == 46u8 && (p.len() == 1 || p[1] == 47u8) {
        let mut dot: Vec<u8> = Vec::new();
        dot.push(46u8);
        assert(dot@ =~= seq![46u8]);
        out.push(dot);
    }
    let ghost head = texts_of(out@);
    let ghost spec_head: Seq<Seq<u8>> = if p@.len() > 0 && p@[0] == 47 {
        seq![seq![47u8]]
    } else if starts_with_dot_piece(p@) {
        seq![seq![46u8]]
    } else {
        Seq::empty()
    };
    proof {
        if head.len() == 1 {
            assert(out@[0]@ =~= head[0]);
        }
        assert(head =~= spec_head);
    }
    let mut cur: Vec<u8> = Vec::new();
    let mut i: usize = 0;
    assert(p@.take(0) =~= Seq::<u8>::empty());
    assert(seq![Seq::<u8>::empty()].drop_last() =~= Seq::<Seq<u8>>::empty());
    assert(texts_of(out@) =~= head + named_pieces(Seq::<Seq<u8>>::empty()));
    while i < p.len()
        invariant
            i <= p.len(),
            path_segments(p@.take(i as int)).len() >= 1,
            cur@ == path_segments(p@.take(i as int)).last(),
            texts_of(out@) == head + named_pieces(path_segments(p@.take(i as int)).drop_last()),
        decreases p.len() - i,
    {
        let ghost segs = path_segments(p@.take(i as int));
        assert(p@.take(i + 1).drop_last() =~= p@.take(i as int));
        assert(p@.take(i + 1).last() == p@[i as int]);
        if p[i] == 47u8 {
            let ghost before = texts_of(out@);
            let piece = cur;
            let ghost pv = piece@;
            push_named(&mut out, piece);
            cur = Vec::new();
            proof {
                let ns = path_segments(p@.take(i + 1));
                assert(ns == segs.push(Seq::<u8>::empty()));
                assert(ns.drop_last() =~= segs);
                assert(segs.drop_last().push(segs.last()) =~= segs);
                assert(pv == segs.last());
                let np = named_pieces(segs.drop_last());
                if pv.len() == 0 || pv == seq![46u8] {
                    assert(texts_of(out@) =~= head + named_pieces(segs));
                } else {
                    assert(named_pieces(segs) == np.push(pv));
                    assert(texts_of(out@) =~= head + named_pieces(segs));
                }
                assert(cur@ =~= ns.last());
            }
        } else {
            cur.push(p[i]);
            proof {
                let ns = path_segments(p@.take(i + 1));
                assert(ns.drop_last() =~= segs.drop_last());
            }
        }
        i = i + 1;
    }
    let ghost segs = path_segments(p@.take(i as int));
    let ghost pv = cur@;
    push_named(&mut out, cur);
    assert(p@.take(i as int) =~= p@);
    assert(segs.drop_last().push(segs.last()) =~= segs);
    proof {
        let np = named_pieces(segs.drop_last());
        if pv.len() == 0 || pv == seq![46u8] {
            assert(texts_of(out@) =~= head + named_pieces(segs));
        } else {
            assert(named_pieces(segs) == np.push(pv));
            assert(texts_of(out@) =~= head + named_pieces(segs));
        }
        assert(path_components(p@) == spec_head + named_pieces(path_segments(p@)));
    }
    out
}

/// The path of `path` relative to the folder `base` (`pathdiff::diff_paths`),
/// as the bytes of its text; `None` where it finds none.
///
/// Which relative path comes back depends on the platform's rules for paths
/// (what is absolute, where components split), so nothing is stated of it;
/// `mkrelative_with` says what is made of every answer.
#[verifier::external_body]
fn relative_path_bytes(path: &str, base: &str) -> (r: Option<Vec<u8>>) {
    match pathdiff::diff_paths(path, base) {
        Some(p) => Some(p.to_string_lossy().into_owned().into_bytes()),
        None => None,
    }
}

/// `n` times `../` after `out`.
fn push_dots_up(out: &mut Vec<u8>, n: usize)
    ensures
        final(out)@ == old(out)@ + dots_up(n as nat),
{
    let mut k: usize = 0;
    while k < n
        invariant
            k <= n,
            out@ == old(out)@ + dots_up(k as nat),
        decreases n - k,
    {
        out.push(46u8);
        out.push(46u8);
        out.push(47u8);
        assert(dots_up((k + 1) as nat) == dots_up(k as nat) + seq![46u8, 46u8, 47u8]);
        k = k + 1;
    }
}

/// The bytes of `b` after `out`.
fn push_all(out: &mut Vec<u8>, b: &[u8])
    ensures
        final(out)@ == old(out)@ + b@,
{
    let mut k: usize = 0;
    while k < b.len()
        invariant
            k <= b.len(),
            out@ == old(out)@ + b@.subrange(0, k as int),
        decreases b.len() - k,
    {
        out.push(b[k]);
        assert(b@.subrange(0, k + 1) =~= b@.subrange(0, k as int).push(b@[k as int]));
        k = k + 1;
    }
    assert(b@.subrange(0, b.len() as int) =~= b@);
}

/// The path of the folder holding `bfile` (see `components_path`), from its
/// components.
fn folder_of(cb: &Vec<Vec<u8>>) -> (r: Vec<u8>)
    requires
        cb@.len() >= 1,
    ensures
        r@ == components_path(texts_of(cb@).drop_last()),
{
    let n = cb.len() - 1;
    let ghost cs = texts_of(cb@).drop_last();
    let rooted = n > 0 && bytes_equal(cb[0].as_slice(), &[47u8]);
    proof {
        if n > 0 {
            assert(cs[0] == cb@[0]@);
        }
        assert(seq![47u8] =~= [47u8]@);
    }
    let mut out: Vec<u8> = Vec::new();
    let start: usize = if rooted {
        out.push(47u8);
        1
    } else {
        0
    };
    let ghost rest = cs.subrange(start as int, n as int);
    let mut i: usize = start;
    assert(cs.subrange(start as int, start as int) =~= Seq::<Seq<u8>>::empty());
    while i < n
        invariant
            start <= i <= n,
            n == cb@.len() - 1,
            cs == texts_of(cb@).drop_last(),
            out@ == (if rooted { seq![47u8] } else { Seq::<u8>::empty() }) + slash_joined(
                cs.subrange(start as int, i as int),
            ),
        decreases n - i,
    {
        let ghost before = cs.subrange(start as int, i as int);
        if i > start {
            out.push(47u8);
        }
        push_all(&mut out, cb[i].as_slice());
        proof {
            let after = cs.subrange(start as int, i + 1);
            assert(after.drop_last() =~= before);
            assert(after.last() == cb@[i as int]@);
            if i == start {
                assert(after.len() == 1);
            }
        }
        i = i + 1;
    }
    proof {
        if rooted {
            assert(cs.drop_first() =~= cs.subrange(1, n as int));
        } else {
            assert(cs =~= cs.subrange(0, n as int));
        }
    }
    out
}

impl BlendPath {
    /// Asset path `asset_path` made relative to the blend file at
    /// `bfile_path`, given `relative`, what was found as the asset's path
    /// relative to the blend file's folder (see `spec_mkrelative`). Both paths
    /// must be absolute and the blend file's path must have a folder.
    pub fn mkrelative_with(asset_path: &[u8], bfile_path: &[u8], relative: Option<Vec<u8>>) -> (r: BlendPath)
        requires
            spec_absolute(asset_path@),
            spec_absolute(bfile_path@),
            has_parent(bfile_path@),
        ensures
            r@ == spec_mkrelative(asset_path@, bfile_path@, opt_bytes(relative)),
    {
        let ca = components_of(asset_path);
        let cb = components_of(bfile_path);
        proof {
            assert(texts_of(cb@)[0] == cb@[0]@);
            if ca@.len() > 0 {
                assert(texts_of(ca@)[0] == ca@[0]@);
            }
        }
        if ca.len() == 0 || !bytes_equal(ca[0].as_slice(), cb[0].as_slice()) {
            return BlendPath::new(asset_path);
        }
        let mut out: Vec<u8> = Vec::new();
        out.push(47u8);
        out.push(47u8);
        let rooted = bytes_equal(cb[0].as_slice(), &[47u8]);
        proof {
            assert(seq![47u8] =~= [47u8]@);
            if rooted && cb@.len() < 2 {
                assert(texts_of(cb@) =~= seq![seq![47u8]]);
            }
        }
        let up: usize = if rooted {
            cb.len() - 2
        } else {
            cb.len() - 1
        };
        push_dots_up(&mut out, up);
        let ghost tail = match opt_bytes(relative) {
            Some(v) => v,
            None => asset_path@,
        };
        match &relative {
            Some(v) => push_all(&mut out, v.as_slice()),
            None => push_all(&mut out, asset_path),
        }
        assert(out@ =~= seq![47u8, 47u8] + dots_up(up as nat) + tail);
        BlendPath(out)
    }

    /// Asset path `asset_path` made relative to the blend file at
    /// `bfile_path`: the asset's path relative to the blend file's folder is
    /// asked of `pathdiff`, and made into a blend-file relative path as
    /// `mkrelative_with` says, whatever it answered.
    pub fn mkrelative(asset_path: &str, bfile_path: &str) -> (r: BlendPath)
        requires
            spec_absolute(asset_path.spec_bytes()),
            spec_absolute(bfile_path.spec_bytes()),
            has_parent(bfile_path.spec_bytes()),
        ensures
            first_component(asset_path.spec_bytes()) != first_component(bfile_path.spec_bytes()) ==> r@
                == normalize(asset_path.spec_bytes()),
            exists|rel: Option<Seq<u8>>| r@ == spec_mkrelative(asset_path.spec_bytes(), bfile_path.spec_bytes(), rel),
    {
        let a = asset_path.as_bytes();
        let b = bfile_path.as_bytes();
        let cb = components_of(b);
        let folder = folder_of(&cb);
        let folder_text = utf8_lossy(folder.as_slice());
        let relative = relative_path_bytes(asset_path, folder_text.as_str());
        let ghost rv = opt_bytes(relative);
        let r = Self::mkrelative_with(a, b, relative);
        assert(r@ == spec_mkrelative(a@, b@, rv));
        r
    }
}

/// Normalizing a path twice changes nothing more: building a path from the
/// bytes of a path gives the same path.
pub proof fn lemma_normalize_idempotent(b: Seq<u8>)
    ensures
        normalize(normalize(b)) == normalize(b),
{
    assert(normalize(normalize(b)) =~= normalize(b));
}

/// A path relative to the blend file is never absolute.
pub proof fn lemma_relative_not_absolute(b: Seq<u8>)
    ensures
        spec_blendfile_relative(b) ==> !spec_absolute(b),
{
}

} // verus!
