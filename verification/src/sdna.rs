//! Reading the SDNA catalogue from the contents of a file's `DNA1` block.
use vstd::prelude::*;
use vstd::string::*;
use crate::binary::{read_u16_at, read_u32_at, spec_u16, spec_u32};
use crate::dna::{
    DnaCollection, DnaField, DnaFieldView, DnaName, DnaNameView, DnaStruct, DnaStructView, DnaView,
    fields_view, first_of, names_view, spec_dna_name, strings_view, structs_view,
};
use crate::error::{BlendFileErrorKind, Dot001Error, Result, blend_error_with, io_error_with, is_blend_error};
use crate::header::BlendFileHeader;

verus! {

/// Why reading the catalogue stopped: the bytes ran out, or an error of a kind.
#[derive(PartialEq, Eq, Structural, Clone, Copy, Debug)]
pub enum DnaFail {
    Eof,
    Kind(BlendFileErrorKind),
}

/// Whether `e` reports the failure `f`: running out of bytes is an I/O error.
pub open spec fn fail_matches(e: Dot001Error, f: DnaFail) -> bool {
    match f {
        DnaFail::Eof => e is Io,
        DnaFail::Kind(k) => is_blend_error(e, k),
    }
}

/// Whether `e` is the error that reading a catalogue reports for `f`: the
/// I/O error of a short read, or a blend-file error of kind `k` with the
/// message `Invalid SDNA catalogue`.
pub open spec fn dna_error_is(e: Dot001Error, f: DnaFail) -> bool {
    match f {
        DnaFail::Eof => io_error_with(e, "failed to fill whole buffer"@),
        DnaFail::Kind(k) => blend_error_with(e, k, "Invalid SDNA catalogue"@),
    }
}

/// `r` with `x` in front of its items.
pub open spec fn prepend<A>(x: A, r: core::result::Result<(Seq<A>, int), DnaFail>) -> core::result::Result<
    (Seq<A>, int),
    DnaFail,
> {
    match r {
        Ok((s, p)) => Ok((seq![x] + s, p)),
        Err(e) => Err(e),
    }
}

/// `r` with `pre` in front of its items.
pub open spec fn after<A>(pre: Seq<A>, r: core::result::Result<(Seq<A>, int), DnaFail>) -> core::result::Result<
    (Seq<A>, int),
    DnaFail,
> {
    match r {
        Ok((s, p)) => Ok((pre + s, p)),
        Err(e) => Err(e),
    }
}

proof fn lemma_after_prepend<A>(pre: Seq<A>, x: A, r: core::result::Result<(Seq<A>, int), DnaFail>)
    ensures
        after(pre, prepend(x, r)) == after(pre.push(x), r),
{
    if let Ok((s, q)) = r {
        assert(pre + (seq![x] + s) =~= pre.push(x) + s);
    }
}

proof fn lemma_after_empty<A>(pre: Seq<A>, p: int)
    ensures
        after(pre, Ok::<(Seq<A>, int), DnaFail>((Seq::empty(), p))) == Ok::<(Seq<A>, int), DnaFail>((pre, p)),
{
    assert(pre + Seq::<A>::empty() =~= pre);
}

/// The NUL-terminated string at `pos` and the position after its NUL; it must
/// be valid UTF-8.
pub open spec fn spec_cstr(d: Seq<u8>, pos: int) -> core::result::Result<(Seq<u8>, int), DnaFail> {
    let z = first_of(d, pos, 0, 0);
    if z >= d.len() {
        Err(DnaFail::Eof)
    } else if !vstd::utf8::valid_utf8(d.subrange(pos, z)) {
        Err(DnaFail::Kind(BlendFileErrorKind::InvalidData))
    } else {
        Ok((d.subrange(pos, z), z + 1))
    }
}

/// `n` SDNA names stored one after another from `pos`.
pub open spec fn spec_names(d: Seq<u8>, pos: int, n: nat) -> core::result::Result<(Seq<DnaNameView>, int), DnaFail>
    decreases n,
{
    if n == 0 {
        Ok((Seq::empty(), pos))
    } else {
        match spec_cstr(d, pos) {
            Err(e) => Err(e),
            Ok((b, p)) => prepend(spec_dna_name(b), spec_names(d, p, (n - 1) as nat)),
        }
    }
}

/// `n` type names stored one after another from `pos`.
pub open spec fn spec_types(d: Seq<u8>, pos: int, n: nat) -> core::result::Result<(Seq<Seq<char>>, int), DnaFail>
    decreases n,
{
    if n == 0 {
        Ok((Seq::empty(), pos))
    } else {
        match spec_cstr(d, pos) {
            Err(e) => Err(e),
            Ok((b, p)) => prepend(vstd::utf8::decode_utf8(b), spec_types(d, p, (n - 1) as nat)),
        }
    }
}

/// `n` two-byte values stored one after another from `pos`.
pub open spec fn spec_u16s(d: Seq<u8>, pos: int, n: nat, le: bool) -> core::result::Result<(Seq<u16>, int), DnaFail>
    decreases n,
{
    if n == 0 {
        Ok((Seq::empty(), pos))
    } else if pos + 2 > d.len() {
        Err(DnaFail::Eof)
    } else {
        prepend(spec_u16(d, pos, le) as u16, spec_u16s(d, pos + 2, (n - 1) as nat, le))
    }
}

/// Where the four bytes `m` are found, looking at offsets `i` to 7 from `pos`:
/// the position just after them.
pub open spec fn spec_find_marker(d: Seq<u8>, pos: int, m: Seq<u8>, i: int) -> Option<int>
    decreases 8 - i,
{
    if i >= 8 {
        None
    } else if pos + i + 4 <= d.len() && d.subrange(pos + i, pos + i + 4) == m {
        Some(pos + i + 4)
    } else {
        spec_find_marker(d, pos, m, i + 1)
    }
}

/// The size of a field: pointers take the pointer size, other fields their
/// type's size, times the array size (wrapping).
pub open spec fn spec_field_size(name: DnaNameView, ptr: u8, type_size: u16) -> usize {
    if name.is_pointer || name.is_method_pointer {
        vstd::wrapping::usize_specs::wrapping_mul(ptr as usize, name.array_size)
    } else {
        vstd::wrapping::usize_specs::wrapping_mul(type_size as usize, name.array_size)
    }
}

/// `n` fields (a type index and a name index each) from `pos`, laid out from `offset`.
pub open spec fn spec_fields(
    d: Seq<u8>,
    pos: int,
    n: nat,
    le: bool,
    ptr: u8,
    names: Seq<DnaNameView>,
    types: Seq<Seq<char>>,
    tsizes: Seq<u16>,
    offset: usize,
) -> core::result::Result<(Seq<DnaFieldView>, int), DnaFail>
    decreases n,
{
    if n == 0 {
        Ok((Seq::empty(), pos))
    } else if pos + 4 > d.len() {
        Err(DnaFail::Eof)
    } else {
        let ft = spec_u16(d, pos, le);
        let fname = spec_u16(d, pos + 2, le);
        if ft >= types.len() || fname >= names.len() {
            Err(DnaFail::Kind(BlendFileErrorKind::DnaError))
        } else {
            let name = names[fname];
            let size = spec_field_size(name, ptr, tsizes[ft]);
            let f = DnaFieldView { typename: types[ft], name, size, offset };
            prepend(
                f,
                spec_fields(
                    d,
                    pos + 4,
                    (n - 1) as nat,
                    le,
                    ptr,
                    names,
                    types,
                    tsizes,
                    vstd::wrapping::usize_specs::wrapping_add(offset, size),
                ),
            )
        }
    }
}

/// `n` structs (a type index, a field count and the fields each) from `pos`.
pub open spec fn spec_structs(
    d: Seq<u8>,
    pos: int,
    n: nat,
    le: bool,
    ptr: u8,
    names: Seq<DnaNameView>,
    types: Seq<Seq<char>>,
    tsizes: Seq<u16>,
) -> core::result::Result<(Seq<DnaStructView>, int), DnaFail>
    decreases n,
{
    if n == 0 {
        Ok((Seq::empty(), pos))
    } else if pos + 4 > d.len() {
        Err(DnaFail::Eof)
    } else {
        let ti = spec_u16(d, pos, le);
        let fc = spec_u16(d, pos + 2, le);
        if ti >= types.len() {
            Err(DnaFail::Kind(BlendFileErrorKind::DnaError))
        } else {
            match spec_fields(d, pos + 4, fc as nat, le, ptr, names, types, tsizes, 0) {
                Err(e) => Err(e),
                Ok((fs, p)) => prepend(
                    DnaStructView { typename: types[ti], size: tsizes[ti] as usize, fields: fs },
                    spec_structs(d, p, (n - 1) as nat, le, ptr, names, types, tsizes),
                ),
            }
        }
    }
}

pub open spec fn sdna_mark() -> Seq<u8> {
    seq![83u8, 68u8, 78u8, 65u8]
}

pub open spec fn name_mark() -> Seq<u8> {
    seq![78u8, 65u8, 77u8, 69u8]
}

pub open spec fn type_mark() -> Seq<u8> {
    seq![84u8, 89u8, 80u8, 69u8]
}

pub open spec fn tlen_mark() -> Seq<u8> {
    seq![84u8, 76u8, 69u8, 78u8]
}

pub open spec fn strc_mark() -> Seq<u8> {
    seq![83u8, 84u8, 82u8, 67u8]
}

/// The catalogue stored in `d`: `SDNA`, `NAME` and the name count and names;
/// then, each found within 8 bytes of where the previous section ended, `TYPE`
/// with the type count and types, `TLEN` with one size per type, and `STRC`
/// with the struct count and structs. A count over 1,000,000 (100,000 for
/// structs) is refused.
pub open spec fn spec_read_dna(d: Seq<u8>, ptr: u8, le: bool) -> core::result::Result<DnaView, DnaFail> {
    if d.len() < 4 {
        Err(DnaFail::Eof)
    } else if d.subrange(0, 4) != sdna_mark() {
        Err(DnaFail::Kind(BlendFileErrorKind::DnaError))
    } else if d.len() < 8 {
        Err(DnaFail::Eof)
    } else if d.subrange(4, 8) != name_mark() {
        Err(DnaFail::Kind(BlendFileErrorKind::DnaError))
    } else if d.len() < 12 {
        Err(DnaFail::Eof)
    } else if spec_u32(d, 8, le) > 1_000_000 {
        Err(DnaFail::Kind(BlendFileErrorKind::DnaError))
    } else {
        match spec_names(d, 12, spec_u32(d, 8, le) as nat) {
            Err(e) => Err(e),
            Ok((names, p1)) => match spec_find_marker(d, p1, type_mark(), 0) {
                None => Err(DnaFail::Kind(BlendFileErrorKind::DnaError)),
                Some(p2) => if p2 + 4 > d.len() {
                    Err(DnaFail::Eof)
                } else if spec_u32(d, p2, le) > 1_000_000 {
                    Err(DnaFail::Kind(BlendFileErrorKind::DnaError))
                } else {
                    match spec_types(d, p2 + 4, spec_u32(d, p2, le) as nat) {
                        Err(e) => Err(e),
                        Ok((types, p3)) => match spec_find_marker(d, p3, tlen_mark(), 0) {
                            None => Err(DnaFail::Kind(BlendFileErrorKind::DnaError)),
                            Some(p4) => match spec_u16s(d, p4, types.len(), le) {
                                Err(e) => Err(e),
                                Ok((tsizes, p5)) => match spec_find_marker(d, p5, strc_mark(), 0) {
                                    None => Err(DnaFail::Kind(BlendFileErrorKind::DnaError)),
                                    Some(p6) => if p6 + 4 > d.len() {
                                        Err(DnaFail::Eof)
                                    } else if spec_u32(d, p6, le) > 100_000 {
                                        Err(DnaFail::Kind(BlendFileErrorKind::DnaError))
                                    } else {
                                        match spec_structs(
                                            d,
                                            p6 + 4,
                                            spec_u32(d, p6, le) as nat,
                                            le,
                                            ptr,
                                            names,
                                            types,
                                            tsizes,
                                        ) {
                                            Err(e) => Err(e),
                                            Ok((structs, _)) => Ok(
                                                DnaView { structs, types, names, type_sizes: tsizes },
                                            ),
                                        }
                                    },
                                },
                            },
                        },
                    }
                },
            },
        }
    }
}

/// Reads the NUL-terminated UTF-8 string at `pos`.
fn read_cstr(d: &[u8], pos: usize) -> (r: core::result::Result<(String, usize), DnaFail>)
    requires
        pos <= d.len(),
    ensures
        match r {
            Ok((s, p)) => spec_cstr(d@, pos as int) matches Ok((b, q)) && q == p && s@
                == vstd::utf8::decode_utf8(b) && vstd::utf8::valid_utf8(b) && p <= d.len(),
            Err(e) => spec_cstr(d@, pos as int) == Err::<(Seq<u8>, int), DnaFail>(e),
        },
{
    let z = crate::dna::find_first(d, pos, 0u8, 0u8);
    if z >= d.len() {
        return Err(DnaFail::Eof);
    }
    match crate::text::utf8_to_string(crate::text::sub_slice(d, pos, z)) {
        Some(s) => Ok((s, z + 1)),
        None => Err(DnaFail::Kind(BlendFileErrorKind::InvalidData)),
    }
}

/// Reads `n` SDNA names from `pos0` (see `spec_names`).
fn read_names(d: &[u8], pos0: usize, n: u32) -> (r: core::result::Result<(Vec<DnaName>, usize), DnaFail>)
    requires
        pos0 <= d.len(),
    ensures
        match r {
            Ok((v, p)) => spec_names(d@, pos0 as int, n as nat) == Ok::<(Seq<DnaNameView>, int), DnaFail>(
                (names_view(v@), p as int),
            ) && p <= d.len(),
            Err(e) => spec_names(d@, pos0 as int, n as nat) == Err::<(Seq<DnaNameView>, int), DnaFail>(e),
        },
{
    let mut v: Vec<DnaName> = Vec::new();
    let mut pos = pos0;
    let mut i: u32 = 0;
    assert(names_view(v@) =~= Seq::<DnaNameView>::empty());
    while i < n
        invariant
            i <= n,
            pos <= d.len(),
            after(names_view(v@), spec_names(d@, pos as int, (n - i) as nat)) == spec_names(
                d@,
                pos0 as int,
                n as nat,
            ),
        decreases n - i,
    {
        match read_cstr(d, pos) {
            Err(e) => {
                return Err(e);
            },
            Ok((s, p)) => {
                let ghost b = spec_cstr(d@, pos as int)->Ok_0.0;
                proof {
                    vstd::utf8::decode_utf8_encode_utf8(b);
                    lemma_after_prepend(names_view(v@), spec_dna_name(b), spec_names(d@, p as int, (n - i - 1) as nat));
                }
                let ghost pre = names_view(v@);
                let nm = DnaName::new(s);
                v.push(nm);
                assert(names_view(v@) =~= pre.push(nm@));
                pos = p;
                i = i + 1;
            },
        }
    }
    proof {
        lemma_after_empty(names_view(v@), pos as int);
    }
    Ok((v, pos))
}

/// Reads `n` type names from `pos0` (see `spec_types`).
fn read_types(d: &[u8], pos0: usize, n: u32) -> (r: core::result::Result<(Vec<String>, usize), DnaFail>)
    requires
        pos0 <= d.len(),
    ensures
        match r {
            Ok((v, p)) => spec_types(d@, pos0 as int, n as nat) == Ok::<(Seq<Seq<char>>, int), DnaFail>(
                (strings_view(v@), p as int),
            ) && p <= d.len(),
            Err(e) => spec_types(d@, pos0 as int, n as nat) == Err::<(Seq<Seq<char>>, int), DnaFail>(e),
        },
{
    let mut v: Vec<String> = Vec::new();
    let mut pos = pos0;
    let mut i: u32 = 0;
    assert(strings_view(v@) =~= Seq::<Seq<char>>::empty());
    while i < n
        invariant
            i <= n,
            pos <= d.len(),
            after(strings_view(v@), spec_types(d@, pos as int, (n - i) as nat)) == spec_types(
                d@,
                pos0 as int,
                n as nat,
            ),
        decreases n - i,
    {
        match read_cstr(d, pos) {
            Err(e) => {
                return Err(e);
            },
            Ok((s, p)) => {
                let ghost b = spec_cstr(d@, pos as int)->Ok_0.0;
                proof {
                    lemma_after_prepend(
                        strings_view(v@),
                        vstd::utf8::decode_utf8(b),
                        spec_types(d@, p as int, (n - i - 1) as nat),
                    );
                }
                let ghost pre = strings_view(v@);
                let ghost sv = s@;
                v.push(s);
                assert(strings_view(v@) =~= pre.push(sv));
                pos = p;
                i = i + 1;
            },
        }
    }
    proof {
        lemma_after_empty(strings_view(v@), pos as int);
    }
    Ok((v, pos))
}

/// Reads `n` two-byte values from `pos0` (see `spec_u16s`).
fn read_u16s(d: &[u8], pos0: usize, n: usize, le: bool) -> (r: core::result::Result<(Vec<u16>, usize), DnaFail>)
    requires
        pos0 <= d.len(),
    ensures
        match r {
            Ok((v, p)) => spec_u16s(d@, pos0 as int, n as nat, le) == Ok::<(Seq<u16>, int), DnaFail>(
                (v@, p as int),
            ) && v.len() == n && p <= d.len(),
            Err(e) => spec_u16s(d@, pos0 as int, n as nat, le) == Err::<(Seq<u16>, int), DnaFail>(e),
        },
{
    let mut v: Vec<u16> = Vec::new();
    let mut pos = pos0;
    let mut i: usize = 0;
    while i < n
        invariant
            i <= n,
            pos <= d.len(),
            v.len() == i,
            after(v@, spec_u16s(d@, pos as int, (n - i) as nat, le)) == spec_u16s(d@, pos0 as int, n as nat, le),
        decreases n - i,
    {
        if d.len() - pos < 2 {
            return Err(DnaFail::Eof);
        }
        let x = read_u16_at(d, pos, le);
        proof {
            lemma_after_prepend(v@, x, spec_u16s(d@, pos + 2, (n - i - 1) as nat, le));
        }
        v.push(x);
        pos = pos + 2;
        i = i + 1;
    }
    proof {
        lemma_after_empty(v@, pos as int);
    }
    Ok((v, pos))
}

/// Looks for the four bytes `m` at offsets 0 to 7 from `pos` (see `spec_find_marker`).
fn find_marker(d: &[u8], pos: usize, m: [u8; 4]) -> (r: Option<usize>)
    requires
        pos <= d.len(),
    ensures
        match r {
            Some(p) => spec_find_marker(d@, pos as int, m@, 0) == Some(p as int) && p <= d.len(),
            None => spec_find_marker(d@, pos as int, m@, 0) is None,
        },
{
    let mut i: usize = 0;
    while i < 8
        invariant
            i <= 8,
            pos <= d.len(),
            spec_find_marker(d@, pos as int, m@, 0) == spec_find_marker(d@, pos as int, m@, i as int),
        decreases 8 - i,
    {
        if d.len() - pos >= i + 4 {
            let j = pos + i;
            if d[j] == m[0] && d[j + 1] == m[1] && d[j + 2] == m[2] && d[j + 3] == m[3] {
                assert(d@.subrange(j as int, j + 4) =~= m@);
                return Some(j + 4);
            }
            assert(d@.subrange(j as int, j + 4) != m@) by {
                if d@.subrange(j as int, j + 4) == m@ {
                    assert(d@.subrange(j as int, j + 4)[0] == m@[0]);
                    assert(d@.subrange(j as int, j + 4)[1] == m@[1]);
                    assert(d@.subrange(j as int, j + 4)[2] == m@[2]);
                    assert(d@.subrange(j as int, j + 4)[3] == m@[3]);
                }
            }
        }
        i = i + 1;
    }
    None
}

/// The size of a field (see `spec_field_size`).
fn field_size(name: &DnaName, ptr: u8, type_size: u16) -> (r: usize)
    ensures
        r == spec_field_size(name@, ptr, type_size),
{
    if name.is_pointer || name.is_method_pointer {
        (ptr as usize).wrapping_mul(name.array_size)
    } else {
        (type_size as usize).wrapping_mul(name.array_size)
    }
}

/// Reads `n` fields from `pos0`, laid out from offset 0 (see `spec_fields`).
fn read_fields(
    d: &[u8],
    pos0: usize,
    n: u16,
    le: bool,
    ptr: u8,
    names: &Vec<DnaName>,
    types: &Vec<String>,
    tsizes: &Vec<u16>,
) -> (r: core::result::Result<(Vec<DnaField>, usize), DnaFail>)
    requires
        pos0 <= d.len(),
        tsizes.len() == types.len(),
    ensures
        match r {
            Ok((v, p)) => spec_fields(
                d@,
                pos0 as int,
                n as nat,
                le,
                ptr,
                names_view(names@),
                strings_view(types@),
                tsizes@,
                0,
            ) == Ok::<(Seq<DnaFieldView>, int), DnaFail>((fields_view(v@), p as int)) && p <= d.len(),
            Err(e) => spec_fields(
                d@,
                pos0 as int,
                n as nat,
                le,
                ptr,
                names_view(names@),
                strings_view(types@),
                tsizes@,
                0,
            ) == Err::<(Seq<DnaFieldView>, int), DnaFail>(e),
        },
{
    let ghost nv = names_view(names@);
    let ghost tv = strings_view(types@);
    let mut v: Vec<DnaField> = Vec::new();
    let mut pos = pos0;
    let mut i: u16 = 0;
    let mut offset: usize = 0;
    assert(fields_view(v@) =~= Seq::<DnaFieldView>::empty());
    while i < n
        invariant
            i <= n,
            pos <= d.len(),
            tsizes.len() == types.len(),
            nv == names_view(names@),
            tv == strings_view(types@),
            after(fields_view(v@), spec_fields(d@, pos as int, (n - i) as nat, le, ptr, nv, tv, tsizes@, offset))
                == spec_fields(d@, pos0 as int, n as nat, le, ptr, nv, tv, tsizes@, 0),
        decreases n - i,
    {
        if d.len() - pos < 4 {
            return Err(DnaFail::Eof);
        }
        let ft = read_u16_at(d, pos, le) as usize;
        let fname = read_u16_at(d, pos + 2, le) as usize;
        if ft >= types.len() || fname >= names.len() {
            return Err(DnaFail::Kind(BlendFileErrorKind::DnaError));
        }
        let name = names[fname].duplicate();
        let size = field_size(&name, ptr, tsizes[ft]);
        let field = DnaField { typename: types[ft].clone(), name, size, offset };
        assert(field@ == (DnaFieldView { typename: tv[ft as int], name: nv[fname as int], size, offset }));
        let next_offset = offset.wrapping_add(size);
        proof {
            lemma_after_prepend(
                fields_view(v@),
                field@,
                spec_fields(d@, pos + 4, (n - i - 1) as nat, le, ptr, nv, tv, tsizes@, next_offset),
            );
        }
        let ghost pre = fields_view(v@);
        let ghost fv = field@;
        v.push(field);
        assert(fields_view(v@) =~= pre.push(fv));
        offset = next_offset;
        pos = pos + 4;
        i = i + 1;
    }
    proof {
        lemma_after_empty(fields_view(v@), pos as int);
    }
    Ok((v, pos))
}

/// Reads `n` structs from `pos0` (see `spec_structs`).
fn read_structs(
    d: &[u8],
    pos0: usize,
    n: u32,
    le: bool,
    ptr: u8,
    names: &Vec<DnaName>,
    types: &Vec<String>,
    tsizes: &Vec<u16>,
) -> (r: core::result::Result<(Vec<DnaStruct>, usize), DnaFail>)
    requires
        pos0 <= d.len(),
        tsizes.len() == types.len(),
    ensures
        match r {
            Ok((v, p)) => {
                &&& spec_structs(
                    d@,
                    pos0 as int,
                    n as nat,
                    le,
                    ptr,
                    names_view(names@),
                    strings_view(types@),
                    tsizes@,
                ) == Ok::<(Seq<DnaStructView>, int), DnaFail>((structs_view(v@), p as int))
                &&& forall|i: int| 0 <= i < v.len() ==> #[trigger] v@[i].wf()
            },
            Err(e) => spec_structs(
                d@,
                pos0 as int,
                n as nat,
                le,
                ptr,
                names_view(names@),
                strings_view(types@),
                tsizes@,
            ) == Err::<(Seq<DnaStructView>, int), DnaFail>(e),
        },
{
    let ghost nv = names_view(names@);
    let ghost tv = strings_view(types@);
    let mut v: Vec<DnaStruct> = Vec::new();
    let mut pos = pos0;
    let mut i: u32 = 0;
    assert(structs_view(v@) =~= Seq::<DnaStructView>::empty());
    while i < n
        invariant
            i <= n,
            pos <= d.len(),
            tsizes.len() == types.len(),
            nv == names_view(names@),
            tv == strings_view(types@),
            forall|k: int| 0 <= k < v.len() ==> #[trigger] v@[k].wf(),
            after(structs_view(v@), spec_structs(d@, pos as int, (n - i) as nat, le, ptr, nv, tv, tsizes@))
                == spec_structs(d@, pos0 as int, n as nat, le, ptr, nv, tv, tsizes@),
        decreases n - i,
    {
        if d.len() - pos < 4 {
            return Err(DnaFail::Eof);
        }
        let ti = read_u16_at(d, pos, le) as usize;
        let fc = read_u16_at(d, pos + 2, le);
        if ti >= types.len() {
            return Err(DnaFail::Kind(BlendFileErrorKind::DnaError));
        }
        match read_fields(d, pos + 4, fc, le, ptr, names, types, tsizes) {
            Err(e) => {
                return Err(e);
            },
            Ok((fields, p)) => {
                let st = DnaStruct::new_for_test(types[ti].clone(), tsizes[ti] as usize, fields);
                proof {
                    lemma_after_prepend(
                        structs_view(v@),
                        st@,
                        spec_structs(d@, p as int, (n - i - 1) as nat, le, ptr, nv, tv, tsizes@),
                    );
                }
                let ghost pre = structs_view(v@);
                let ghost sv = st@;
                v.push(st);
                assert(structs_view(v@) =~= pre.push(sv));
                pos = p;
                i = i + 1;
            },
        }
    }
    proof {
        lemma_after_empty(structs_view(v@), pos as int);
    }
    Ok((v, pos))
}

/// The error that reports `f`.
fn fail_error(f: DnaFail) -> (e: Dot001Error)
    ensures
        fail_matches(e, f),
        dna_error_is(e, f),
{
    match f {
        DnaFail::Eof => Dot001Error::from_io_description("failed to fill whole buffer"),
        DnaFail::Kind(k) => Dot001Error::blend_file("Invalid SDNA catalogue", k),
    }
}

/// Whether the four bytes of `d` at `off` are `m`.
fn has_mark(d: &[u8], off: usize, m: [u8; 4]) -> (r: bool)
    requires
        off + 4 <= d.len(),
    ensures
        r == (d@.subrange(off as int, off + 4) == m@),
{
    let r = d[off] == m[0] && d[off + 1] == m[1] && d[off + 2] == m[2] && d[off + 3] == m[3];
    if r {
        assert(d@.subrange(off as int, off + 4) =~= m@);
    } else {
        assert(d@.subrange(off as int, off + 4) != m@) by {
            if d@.subrange(off as int, off + 4) == m@ {
                assert(d@.subrange(off as int, off + 4)[0] == m@[0]);
                assert(d@.subrange(off as int, off + 4)[1] == m@[1]);
                assert(d@.subrange(off as int, off + 4)[2] == m@[2]);
                assert(d@.subrange(off as int, off + 4)[3] == m@[3]);
            }
        }
    }
    r
}

/// Reads the catalogue from the contents of a `DNA1` block (see `spec_read_dna`).
fn read_dna(d: &[u8], ptr: u8, le: bool) -> (r: core::result::Result<DnaCollection, DnaFail>)
    ensures
        match r {
            Ok(c) => spec_read_dna(d@, ptr, le) == Ok::<DnaView, DnaFail>(c@) && c.wf(),
            Err(f) => spec_read_dna(d@, ptr, le) == Err::<DnaView, DnaFail>(f),
        },
{
    let sdna: [u8; 4] = [83u8, 68u8, 78u8, 65u8];
    let name: [u8; 4] = [78u8, 65u8, 77u8, 69u8];
    let typ: [u8; 4] = [84u8, 89u8, 80u8, 69u8];
    let tlen: [u8; 4] = [84u8, 76u8, 69u8, 78u8];
    let strc: [u8; 4] = [83u8, 84u8, 82u8, 67u8];
    assert(sdna@ =~= sdna_mark());
    assert(name@ =~= name_mark());
    assert(typ@ =~= type_mark());
    assert(tlen@ =~= tlen_mark());
    assert(strc@ =~= strc_mark());
    if d.len() < 4 {
        return Err(DnaFail::Eof);
    }
    if !has_mark(d, 0, sdna) {
        return Err(DnaFail::Kind(BlendFileErrorKind::DnaError));
    }
    if d.len() < 8 {
        return Err(DnaFail::Eof);
    }
    if !has_mark(d, 4, name) {
        return Err(DnaFail::Kind(BlendFileErrorKind::DnaError));
    }
    if d.len() < 12 {
        return Err(DnaFail::Eof);
    }
    let names_count = read_u32_at(d, 8, le);
    if names_count > 1_000_000 {
        return Err(DnaFail::Kind(BlendFileErrorKind::DnaError));
    }
    let (names, p1) = match read_names(d, 12, names_count) {
        Ok(x) => x,
        Err(e) => {
            return Err(e);
        },
    };
    let p2 = match find_marker(d, p1, typ) {
        Some(p) => p,
        None => {
            return Err(DnaFail::Kind(BlendFileErrorKind::DnaError));
        },
    };
    if d.len() - p2 < 4 {
        return Err(DnaFail::Eof);
    }
    let types_count = read_u32_at(d, p2, le);
    if types_count > 1_000_000 {
        return Err(DnaFail::Kind(BlendFileErrorKind::DnaError));
    }
    let (types, p3) = match read_types(d, p2 + 4, types_count) {
        Ok(x) => x,
        Err(e) => {
            return Err(e);
        },
    };
    let p4 = match find_marker(d, p3, tlen) {
        Some(p) => p,
        None => {
            return Err(DnaFail::Kind(BlendFileErrorKind::DnaError));
        },
    };
    assert(strings_view(types@).len() == types.len());
    let (type_sizes, p5) = match read_u16s(d, p4, types.len(), le) {
        Ok(x) => x,
        Err(e) => {
            return Err(e);
        },
    };
    let p6 = match find_marker(d, p5, strc) {
        Some(p) => p,
        None => {
            return Err(DnaFail::Kind(BlendFileErrorKind::DnaError));
        },
    };
    if d.len() - p6 < 4 {
        return Err(DnaFail::Eof);
    }
    let struct_count = read_u32_at(d, p6, le);
    if struct_count > 100_000 {
        return Err(DnaFail::Kind(BlendFileErrorKind::DnaError));
    }
    let (structs, _p7) = match read_structs(d, p6 + 4, struct_count, le, ptr, &names, &types, &type_sizes) {
        Ok(x) => x,
        Err(e) => {
            return Err(e);
        },
    };
    let c = DnaCollection::new_for_test(structs, types, names, type_sizes);
    Ok(c)
}

impl DnaCollection {
    /// Reads the catalogue from the contents of the file's `DNA1` block.
    ///
    /// Running out of bytes is an I/O error; a missing marker, a count over the
    /// limit or an index out of range is a `DnaError`; a string that is not UTF-8
    /// is `InvalidData` (see `spec_read_dna`).
    pub fn read(data: &[u8], header: &BlendFileHeader) -> (r: Result<Self>)
        ensures
            match r {
                Ok(c) => spec_read_dna(data@, header.pointer_size, header.is_little_endian) == Ok::<
                    DnaView,
                    DnaFail,
                >(c@) && c.wf(),
                Err(e) => spec_read_dna(data@, header.pointer_size, header.is_little_endian) matches Err(f)
                    && fail_matches(e, f) && dna_error_is(e, f),
            },
    {
        match read_dna(data, header.pointer_size, header.is_little_endian) {
            Ok(c) => Ok(c),
            Err(f) => Err(fail_error(f)),
        }
    }
}

} // verus!
