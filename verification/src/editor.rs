//! Editing ID names and library paths in the data of a file.
use vstd::prelude::*;
use vstd::string::*;
use crate::blendfile::{BlendFile, BlendFileView, opens_to, spec_open};
use crate::sdna::fail_matches;
use crate::dna::DnaFieldView;
use crate::error::{Dot001Error, EditorErrorKind, Result, is_editor_error};
use crate::fieldview::spec_find_field;
use crate::text::{lossy_utf8, trim};
use crate::blendfile::blocks_in_bounds;
use crate::fieldview::until_nul;
use crate::traversal::fstr;

verus! {

/// The longest name accepted, in bytes.
pub const MAX_BLOCK_NAME_LENGTH: usize = 64;

/// Whether `c` is printable ASCII (ASCII and not a control character).
pub open spec fn printable_ascii(c: char) -> bool {
    0x20 <= (c as u32) < 0x7F
}

/// Why a new name is refused, if it is: longer than 64 bytes (`NameTooLong`),
/// holding a character that is not printable ASCII, or blank
/// (`InvalidCharacters`).
pub open spec fn name_problem(name: Seq<char>) -> Option<EditorErrorKind> {
    if vstd::utf8::encode_utf8(name).len() > MAX_BLOCK_NAME_LENGTH {
        Some(EditorErrorKind::NameTooLong)
    } else if exists|i: int| 0 <= i < name.len() && !printable_ascii(#[trigger] name[i]) {
        Some(EditorErrorKind::InvalidCharacters)
    } else if trim(name).len() == 0 {
        Some(EditorErrorKind::InvalidCharacters)
    } else {
        None
    }
}

/// The message of the error refusing `name` (see `name_problem`).
pub open spec fn name_problem_message(name: Seq<char>) -> Seq<char> {
    if vstd::utf8::encode_utf8(name).len() > MAX_BLOCK_NAME_LENGTH {
        "Name too long (max 64 characters after type prefix): "@ + name
    } else if exists|i: int| 0 <= i < name.len() && !printable_ascii(#[trigger] name[i]) {
        "Invalid characters in name (only ASCII printable allowed): "@ + name
    } else {
        "Empty name"@
    }
}

/// Checks that a new name is acceptable (see `name_problem`); a refusal is
/// an editor error of that kind with the message `name_problem_message`.
pub fn validate_new_name(name: &str) -> (r: Result<()>)
    ensures
        match r {
            Ok(()) => name_problem(name@) is None,
            Err(e) => name_problem(name@) matches Some(k) && is_editor_error(e, k) && (e matches Dot001Error::Editor {
                message,
                file_path: None,
                block_index: None,
                operation: None,
                ..
            } && message@ == name_problem_message(name@)),
        },
{
    let bytes_len = name.as_bytes().len();
    if bytes_len > MAX_BLOCK_NAME_LENGTH {
        let mut m = String::from_str("Name too long (max 64 characters after type prefix): ");
        m.append(name);
        return Err(Dot001Error::editor(m.as_str(), EditorErrorKind::NameTooLong));
    }
    assert(vstd::utf8::encode_utf8(name@).len() <= MAX_BLOCK_NAME_LENGTH);
    let n = name.unicode_len();
    let mut i: usize = 0;
    while i < n
        invariant
            i <= n,
            n == name@.len(),
            vstd::utf8::encode_utf8(name@).len() <= MAX_BLOCK_NAME_LENGTH,
            forall|j: int| 0 <= j < i ==> printable_ascii(#[trigger] name@[j]),
        decreases n - i,
    {
        let c = name.get_char(i);
        let u = c as u32;
        if !(0x20u32 <= u && u < 0x7Fu32) {
            assert(!printable_ascii(name@[i as int]));
            assert(exists|j: int| 0 <= j < name@.len() && !printable_ascii(#[trigger] name@[j]));
            let mut m = String::from_str("Invalid characters in name (only ASCII printable allowed): ");
            m.append(name);
            return Err(Dot001Error::editor(m.as_str(), EditorErrorKind::InvalidCharacters));
        }
        i = i + 1;
    }
    let t = crate::text::trim_str(name);
    if t.unicode_len() == 0 {
        return Err(Dot001Error::editor("Empty name", EditorErrorKind::InvalidCharacters));
    }
    Ok(())
}

/// Text with a character that is not white space keeps it when trimmed.
proof fn lemma_trim_keeps_content(s: Seq<char>, i: int)
    requires
        0 <= i < s.len(),
        !crate::text::is_ws(s[i]),
    ensures
        trim(s).len() > 0,
{
    lemma_trim_start_keeps(s, i);
    let ts = crate::text::trim_start(s);
    let k = choose|k: int| 0 <= k < ts.len() && !crate::text::is_ws(#[trigger] ts[k]);
    lemma_trim_end_keeps(ts, k);
}

/// Trimming the start of `s` keeps a character that is not white space.
proof fn lemma_trim_start_keeps(s: Seq<char>, i: int)
    requires
        0 <= i < s.len(),
        !crate::text::is_ws(s[i]),
    ensures
        exists|k: int| 0 <= k < crate::text::trim_start(s).len() && !crate::text::is_ws(
            #[trigger] crate::text::trim_start(s)[k],
        ),
    decreases s.len(),
{
    if s.len() > 0 && crate::text::is_ws(s[0]) {
        assert(i > 0);
        assert(s.drop_first()[i - 1] == s[i]);
        lemma_trim_start_keeps(s.drop_first(), i - 1);
        assert(crate::text::trim_start(s) == crate::text::trim_start(s.drop_first()));
    } else {
        assert(crate::text::trim_start(s) == s);
        assert(!crate::text::is_ws(crate::text::trim_start(s)[i]));
    }
}

/// Trimming the end of `s` leaves it non-empty when it holds a character that
/// is not white space.
proof fn lemma_trim_end_keeps(s: Seq<char>, i: int)
    requires
        0 <= i < s.len(),
        !crate::text::is_ws(s[i]),
    ensures
        crate::text::trim_end_by(s, |c: char| crate::text::is_ws(c)).len() > 0,
    decreases s.len(),
{
    if s.len() > 0 && crate::text::is_ws(s.last()) {
        assert(i < s.len() - 1);
        assert(s.drop_last()[i] == s[i]);
        lemma_trim_end_keeps(s.drop_last(), i);
    }
}

/// Every name of at most 64 bytes made only of the characters from space to
/// `~` (0x20 to 0x7E), not all of them spaces, is accepted: such as `Cube.001`.
pub proof fn lemma_printable_names_accepted(name: Seq<char>)
    requires
        vstd::utf8::encode_utf8(name).len() <= 64,
        forall|i: int| 0 <= i < name.len() ==> 0x20 <= (#[trigger] name[i] as u32) <= 0x7E,
        exists|i: int| 0 <= i < name.len() && (#[trigger] name[i] as u32) != 0x20,
    ensures
        name_problem(name) is None,
{
    let i = choose|i: int| 0 <= i < name.len() && (#[trigger] name[i] as u32) != 0x20;
    assert(0x20 <= (name[i] as u32) <= 0x7E);
    lemma_trim_keeps_content(name, i);
    assert(!(exists|j: int| 0 <= j < name.len() && !printable_ascii(#[trigger] name[j]))) by {
        assert forall|j: int| 0 <= j < name.len() implies printable_ascii(#[trigger] name[j]) by {
            assert(0x20 <= (name[j] as u32) <= 0x7E);
        }
    }
}

/// The `name` field of the first struct named `ID`, if there is one.
pub open spec fn id_name_field(v: BlendFileView) -> Option<DnaFieldView> {
    spec_find_field(v.dna, "ID"@, "name"@)
}

/// The field bytes after writing `text` behind the first `keep` bytes of the
/// field, padded with NUL bytes up to the field size.
pub open spec fn filled_field(old_field: Seq<u8>, keep: int, text: Seq<u8>) -> Seq<u8> {
    old_field.subrange(0, keep) + text + Seq::new((old_field.len() - keep - text.len()) as nat, |i: int| 0u8)
}

/// Why renaming block `i` of file `v` to `name` fails, if it does: a refused
/// name; a block that does not exist (`BlockNotFound`); no `ID.name` field,
/// or one that does not fit in the block or is shorter than 2 bytes
/// (`NoIdStructure`); or a prefixed name that leaves no room for the final NUL
/// (`NameTooLong`).
pub open spec fn rename_problem(v: BlendFileView, i: int, name: Seq<char>) -> Option<EditorErrorKind> {
    if name_problem(name) is Some {
        name_problem(name)
    } else if i < 0 || i >= v.blocks.len() {
        Some(EditorErrorKind::BlockNotFound)
    } else {
        match id_name_field(v) {
            None => Some(EditorErrorKind::NoIdStructure),
            Some(fd) => if fd.offset + fd.size > v.blocks[i].header.size || fd.size < 2 {
                Some(EditorErrorKind::NoIdStructure)
            } else if 2 + vstd::utf8::encode_utf8(name).len() >= fd.size {
                Some(EditorErrorKind::NameTooLong)
            } else {
                None
            },
        }
    }
}

/// The file data after renaming block `i` of file `v` to `name`, when that
/// succeeds: the block's `ID.name` field keeps its two-byte type prefix and
/// gets the new name behind it (see `filled_field`).
pub open spec fn renamed_data(v: BlendFileView, i: int, name: Seq<char>) -> Seq<u8> {
    let fd = id_name_field(v)->Some_0;
    let start = v.blocks[i].data_offset + fd.offset;
    let end = start + fd.size;
    v.data.subrange(0, start) + filled_field(v.data.subrange(start, end), 2, vstd::utf8::encode_utf8(name))
        + v.data.subrange(end, v.data.len() as int)
}

/// Edits the ID names and library paths of blocks.
pub struct BlendEditor;

impl BlendEditor {
    /// Renames ID block `block_index` to `new_name` in memory, keeping the
    /// two-byte type prefix of its name (see `rename_problem` and `renamed_data`).
    pub fn rename_id_block(blend_file: &mut BlendFile, block_index: usize, new_name: &str) -> (r: Result<()>)
        ensures
            final(blend_file)@.blocks == old(blend_file)@.blocks,
            final(blend_file)@.header == old(blend_file)@.header,
            final(blend_file)@.dna == old(blend_file)@.dna,
            match r {
                Ok(()) => rename_problem(old(blend_file)@, block_index as int, new_name@) is None
                    && final(blend_file)@.data == renamed_data(old(blend_file)@, block_index as int, new_name@),
                Err(e) => rename_problem(old(blend_file)@, block_index as int, new_name@) matches Some(k)
                    && is_editor_error(e, k) && final(blend_file)@ == old(blend_file)@,
            },
    {
        match validate_new_name(new_name) {
            Ok(()) => {},
            Err(e) => {
                return Err(e);
            },
        }
        if block_index >= blend_file.blocks_len() {
            return Err(Dot001Error::editor("Block not found", EditorErrorKind::BlockNotFound));
        }
        let (offset, size) = {
            let data = match blend_file.read_block_slice(block_index) {
                Ok(d) => d,
                Err(_) => {
                    return Err(Dot001Error::editor("Block not found", EditorErrorKind::BlockNotFound));
                },
            };
            let view = match blend_file.create_field_view(data) {
                Ok(v) => v,
                Err(_) => {
                    return Err(Dot001Error::editor("No ID structure", EditorErrorKind::NoIdStructure));
                },
            };
            match view.find_field("ID", "name") {
                Ok(f) => (f.offset, f.size),
                Err(_) => {
                    return Err(Dot001Error::editor("No ID structure", EditorErrorKind::NoIdStructure));
                },
            }
        };
        let blk = match blend_file.get_block(block_index) {
            Some(b) => *b,
            None => {
                return Err(Dot001Error::editor("Block not found", EditorErrorKind::BlockNotFound));
            },
        };
        if offset > blk.header.size as usize || (blk.header.size as usize) - offset < size || size < 2 {
            return Err(Dot001Error::editor("No ID structure", EditorErrorKind::NoIdStructure));
        }
        let name_bytes = new_name.as_bytes();
        if name_bytes.len() >= size - 2 {
            return Err(Dot001Error::editor("Name too long for the ID name field", EditorErrorKind::NameTooLong));
        }
        blend_file.fill_field(block_index, offset, size, 2, name_bytes);
        Ok(())
    }
}

/// The code `LI` of library blocks.
pub open spec fn library_code() -> Seq<u8> {
    seq![76u8, 73u8, 0u8, 0u8]
}

/// The `filepath` field of the first struct named `Library`, if there is one.
pub open spec fn library_path_field(v: BlendFileView) -> Option<DnaFieldView> {
    spec_find_field(v.dna, "Library"@, "filepath"@)
}

/// Why setting the path of library block `i` of file `v` to `path` fails, if it
/// does: a block that does not exist (`BlockNotFound`); unless validation is
/// skipped, a block that is not a library (`OperationNotPermitted`) or a blank
/// path (`InvalidLibraryPath`); no `Library.filepath` field, or one that does
/// not fit in the block (`NoIdStructure`); a path that leaves no room for the
/// final NUL (`InvalidLibraryPath`).
pub open spec fn libpath_problem(v: BlendFileView, i: int, path: Seq<char>, no_validate: bool) -> Option<
    EditorErrorKind,
> {
    if i < 0 || i >= v.blocks.len() {
        Some(EditorErrorKind::BlockNotFound)
    } else if !no_validate && v.blocks[i].header.code@ != library_code() {
        Some(EditorErrorKind::OperationNotPermitted)
    } else if !no_validate && trim(path).len() == 0 {
        Some(EditorErrorKind::InvalidLibraryPath)
    } else {
        match library_path_field(v) {
            None => Some(EditorErrorKind::NoIdStructure),
            Some(fd) => if fd.offset + fd.size > v.blocks[i].header.size {
                Some(EditorErrorKind::NoIdStructure)
            } else if vstd::utf8::encode_utf8(path).len() >= fd.size {
                Some(EditorErrorKind::InvalidLibraryPath)
            } else {
                None
            },
        }
    }
}

/// The file data after setting the path of library block `i` of `v` to
/// `path`: the `Library.filepath` field holds the path, padded with NULs.
pub open spec fn libpath_data(v: BlendFileView, i: int, path: Seq<char>) -> Seq<u8> {
    let fd = library_path_field(v)->Some_0;
    let start = v.blocks[i].data_offset + fd.offset;
    let end = start + fd.size;
    v.data.subrange(0, start) + filled_field(v.data.subrange(start, end), 0, vstd::utf8::encode_utf8(path))
        + v.data.subrange(end, v.data.len() as int)
}

impl BlendEditor {
    /// Sets the path of library block `block_index` in memory (see
    /// `libpath_problem` and `libpath_data`).
    pub fn update_libpath(blend_file: &mut BlendFile, block_index: usize, new_path: &str, no_validate: bool) -> (r:
        Result<()>)
        ensures
            final(blend_file)@.blocks == old(blend_file)@.blocks,
            final(blend_file)@.header == old(blend_file)@.header,
            final(blend_file)@.dna == old(blend_file)@.dna,
            match r {
                Ok(()) => libpath_problem(old(blend_file)@, block_index as int, new_path@, no_validate) is None
                    && final(blend_file)@.data == libpath_data(old(blend_file)@, block_index as int, new_path@),
                Err(e) => libpath_problem(old(blend_file)@, block_index as int, new_path@, no_validate) matches Some(
                    k,
                ) && is_editor_error(e, k) && final(blend_file)@ == old(blend_file)@,
            },
    {
        let blk = match blend_file.get_block(block_index) {
            Some(b) => *b,
            None => {
                return Err(Dot001Error::editor("Block not found", EditorErrorKind::BlockNotFound));
            },
        };
        if !no_validate {
            let li: [u8; 4] = [76u8, 73u8, 0u8, 0u8];
            assert(li@ =~= library_code());
            if !crate::block::code_eq(&blk.header.code, &li) {
                return Err(Dot001Error::editor("Block is not a library", EditorErrorKind::OperationNotPermitted));
            }
            let t = crate::text::trim_str(new_path);
            if t.unicode_len() == 0 {
                return Err(Dot001Error::editor("Empty library path", EditorErrorKind::InvalidLibraryPath));
            }
        }
        let (offset, size) = {
            let data = match blend_file.read_block_slice(block_index) {
                Ok(d) => d,
                Err(_) => {
                    return Err(Dot001Error::editor("Block not found", EditorErrorKind::BlockNotFound));
                },
            };
            let view = match blend_file.create_field_view(data) {
                Ok(v) => v,
                Err(_) => {
                    return Err(Dot001Error::editor("No library path field", EditorErrorKind::NoIdStructure));
                },
            };
            match view.find_field("Library", "filepath") {
                Ok(f) => (f.offset, f.size),
                Err(_) => {
                    return Err(Dot001Error::editor("No library path field", EditorErrorKind::NoIdStructure));
                },
            }
        };
        if offset > blk.header.size as usize || (blk.header.size as usize) - offset < size {
            return Err(Dot001Error::editor("No library path field", EditorErrorKind::NoIdStructure));
        }
        let path_bytes = new_path.as_bytes();
        if path_bytes.len() >= size {
            return Err(Dot001Error::editor("Library path too long", EditorErrorKind::InvalidLibraryPath));
        }
        blend_file.fill_field(block_index, offset, size, 0, path_bytes);
        Ok(())
    }

    /// Opens the file whose bytes are `data`, renames ID block `block_index`
    /// and gives the new bytes of the file.
    pub fn rename_id_block_and_save(data: Vec<u8>, block_index: usize, new_name: &str) -> (r: Result<Vec<u8>>)
        ensures
            match r {
                Ok(out) => exists|v: BlendFileView|
                    opens_to(data@, v) && rename_problem(v, block_index as int, new_name@) is None && out@
                        == renamed_data(v, block_index as int, new_name@),
                Err(e) => (spec_open(data@) matches Err(k) && fail_matches(e, k)) || exists|v: BlendFileView|
                    opens_to(data@, v) && (rename_problem(v, block_index as int, new_name@) matches Some(k)
                        && is_editor_error(e, k)),
            },
    {
        let ghost d = data@;
        let mut file = match BlendFile::new(data) {
            Ok(f) => f,
            Err(e) => {
                return Err(e);
            },
        };
        let ghost v = file@;
        match BlendEditor::rename_id_block(&mut file, block_index, new_name) {
            Ok(()) => {
                let out = file.into_data();
                assert(opens_to(d, v));
                Ok(out)
            },
            Err(e) => {
                assert(opens_to(d, v));
                Err(e)
            },
        }
    }

    /// Opens the file whose bytes are `data`, sets the path of library block
    /// `block_index` and gives the new bytes of the file.
    pub fn update_libpath_and_save(data: Vec<u8>, block_index: usize, new_path: &str, no_validate: bool) -> (r:
        Result<Vec<u8>>)
        ensures
            match r {
                Ok(out) => exists|v: BlendFileView|
                    opens_to(data@, v) && libpath_problem(v, block_index as int, new_path@, no_validate) is None
                        && out@ == libpath_data(v, block_index as int, new_path@),
                Err(e) => (spec_open(data@) matches Err(k) && fail_matches(e, k)) || exists|v: BlendFileView|
                    opens_to(data@, v) && (libpath_problem(v, block_index as int, new_path@, no_validate) matches Some(
                        k,
                    ) && is_editor_error(e, k)),
            },
    {
        let ghost d = data@;
        let mut file = match BlendFile::new(data) {
            Ok(f) => f,
            Err(e) => {
                return Err(e);
            },
        };
        let ghost v = file@;
        match BlendEditor::update_libpath(&mut file, block_index, new_path, no_validate) {
            Ok(()) => {
                let out = file.into_data();
                assert(opens_to(d, v));
                Ok(out)
            },
            Err(e) => {
                assert(opens_to(d, v));
                Err(e)
            },
        }
    }
}

// ---------------------------------------------------------------- reading back

/// File `v` with its data replaced by `data`.
pub open spec fn with_data(v: BlendFileView, data: Seq<u8>) -> BlendFileView {
    BlendFileView { data, ..v }
}

/// Where field `fd` of block `i` of `v` starts in the file data.
pub open spec fn field_start(v: BlendFileView, i: int, fd: DnaFieldView) -> int {
    v.blocks[i].data_offset + fd.offset
}

/// The first NUL at or after `from` is at `k` when `k` holds one and nothing before it does.
proof fn lemma_first_nul(b: Seq<u8>, from: int, k: int)
    requires
        0 <= from <= k < b.len(),
        b[k] == 0,
        forall|j: int| from <= j < k ==> b[j] != 0,
    ensures
        crate::dna::first_of(b, from, 0, 0) == k,
    decreases k - from,
{
    if from < k {
        lemma_first_nul(b, from + 1, k);
    }
}

/// No byte of the UTF-8 encoding of a scalar other than 0 is a NUL byte.
proof fn lemma_scalar_bytes_nonzero(v: u32)
    requires
        0 < v,
        vstd::utf8::is_scalar(v),
    ensures
        forall|k: int| 0 <= k < vstd::utf8::encode_scalar(v).len() ==> #[trigger] vstd::utf8::encode_scalar(v)[k] != 0,
{
    let lb1 = vstd::utf8::leading_byte_width_1(v);
    let lb2 = vstd::utf8::leading_byte_width_2(v);
    let lb3 = vstd::utf8::leading_byte_width_3(v);
    let lb4 = vstd::utf8::leading_byte_width_4(v);
    let c1 = vstd::utf8::last_continuation_byte(v);
    let c2 = vstd::utf8::second_last_continuation_byte(v);
    let c3 = vstd::utf8::third_last_continuation_byte(v);
    assert(0 < v <= 0x7F ==> (v & 0x7F) as u8 != 0) by (bit_vector);
    assert(0xC0u8 | ((v >> 6) & 0x1F) as u8 != 0) by (bit_vector);
    assert(0xE0u8 | ((v >> 12) & 0x0F) as u8 != 0) by (bit_vector);
    assert(0xF0u8 | ((v >> 18) & 0x7) as u8 != 0) by (bit_vector);
    assert(0x80u8 | (v & 0x3F) as u8 != 0) by (bit_vector);
    assert(0x80u8 | ((v >> 6) & 0x3F) as u8 != 0) by (bit_vector);
    assert(0x80u8 | ((v >> 12) & 0x3F) as u8 != 0) by (bit_vector);
    assert(lb1 != 0 || !vstd::utf8::has_width_1_encoding(v));
    assert(lb2 != 0 && lb3 != 0 && lb4 != 0 && c1 != 0 && c2 != 0 && c3 != 0);
}

/// The UTF-8 encoding of text without NUL characters has no NUL byte.
proof fn lemma_encode_no_nul(s: Seq<char>)
    requires
        forall|i: int| 0 <= i < s.len() ==> s[i] != '\0',
    ensures
        forall|k: int| 0 <= k < vstd::utf8::encode_utf8(s).len() ==> #[trigger] vstd::utf8::encode_utf8(s)[k] != 0,
    decreases s.len(),
{
    if s.len() > 0 {
        let c = s[0];
        vstd::utf8::char_is_scalar(c);
        if (c as u32) == 0 {
            vstd::utf8::char_u32_cast(c, 0u32);
            assert('\0' as u32 == 0);
            vstd::utf8::char_u32_cast('\0', 0u32);
        }
        lemma_scalar_bytes_nonzero(c as u32);
        lemma_encode_no_nul(s.drop_first());
        let head = vstd::utf8::encode_scalar(c as u32);
        let tail = vstd::utf8::encode_utf8(s.drop_first());
        assert(vstd::utf8::encode_utf8(s) == head + tail);
        assert forall|k: int| 0 <= k < vstd::utf8::encode_utf8(s).len() implies #[trigger] vstd::utf8::encode_utf8(
            s,
        )[k] != 0 by {
            if k < head.len() {
                assert(vstd::utf8::encode_utf8(s)[k] == head[k]);
            } else {
                assert(vstd::utf8::encode_utf8(s)[k] == tail[k - head.len()]);
            }
        }
    }
}

/// Encoding two texts one after the other gives the encoding of the joined text.
pub proof fn lemma_encode_concat(a: Seq<char>, b: Seq<char>)
    ensures
        vstd::utf8::encode_utf8(a + b) == vstd::utf8::encode_utf8(a) + vstd::utf8::encode_utf8(b),
    decreases a.len(),
{
    if a.len() == 0 {
        assert(a + b =~= b);
        assert(vstd::utf8::encode_utf8(a) + vstd::utf8::encode_utf8(b) =~= vstd::utf8::encode_utf8(b));
    } else {
        lemma_encode_concat(a.drop_first(), b);
        assert((a + b).drop_first() =~= a.drop_first() + b);
        assert((a + b)[0] == a[0]);
        let h = vstd::utf8::encode_scalar(a[0] as u32);
        assert(h + (vstd::utf8::encode_utf8(a.drop_first()) + vstd::utf8::encode_utf8(b)) =~= (h
            + vstd::utf8::encode_utf8(a.drop_first())) + vstd::utf8::encode_utf8(b));
    }
}

/// Reading a text field of block `i` of `w`, whose field `fd` holds `field`:
/// the text of `field` up to its first NUL.
proof fn lemma_field_text(w: BlendFileView, i: int, fd: DnaFieldView, field: Seq<u8>, st: Seq<char>, fld: Seq<char>)
    requires
        0 <= i < w.blocks.len(),
        blocks_in_bounds(w.blocks, w.data.len() as int),
        spec_find_field(w.dna, st, fld) == Some(fd),
        fd.offset + fd.size <= w.blocks[i].header.size,
        field == w.data.subrange(field_start(w, i, fd), field_start(w, i, fd) + fd.size),
    ensures
        fstr(w, i, st, fld) == Some(lossy_utf8(until_nul(field))),
{
    let b = w.blocks[i];
    let bytes = crate::blendfile::block_bytes(w.data, b);
    assert(bytes.subrange(fd.offset as int, fd.offset + fd.size) =~= field);
}

/// The NUL-terminated text of a field filled with `text` behind `keep` kept
/// bytes: the kept bytes and `text`, when none of them is a NUL byte.
proof fn lemma_filled_until_nul(old_field: Seq<u8>, keep: int, text: Seq<u8>)
    requires
        0 <= keep,
        keep + text.len() < old_field.len(),
        forall|j: int| 0 <= j < keep ==> old_field[j] != 0,
        forall|j: int| 0 <= j < text.len() ==> text[j] != 0,
    ensures
        until_nul(filled_field(old_field, keep, text)) == old_field.subrange(0, keep) + text,
{
    let f = filled_field(old_field, keep, text);
    let k = keep + text.len();
    assert(f[k] == 0);
    assert forall|j: int| 0 <= j < k implies f[j] != 0 by {
        if j < keep {
            assert(f[j] == old_field[j]);
        } else {
            assert(f[j] == text[j - keep]);
        }
    }
    lemma_first_nul(f, 0, k);
    assert(f.subrange(0, k) =~= old_field.subrange(0, keep) + text);
}

/// Reading back a renamed ID name: after a rename that succeeds, the text of
/// the block's `ID.name` field (up to its first NUL) is the old two-byte type
/// prefix followed by the new name, provided the prefix holds no NUL byte; when
/// the prefix is valid UTF-8, the name read back is the prefix's text followed
/// by the new name. The file keeps its length and only the bytes of that field
/// change.
pub proof fn lemma_rename_read_back(v: BlendFileView, i: int, name: Seq<char>)
    requires
        rename_problem(v, i, name) is None,
        blocks_in_bounds(v.blocks, v.data.len() as int),
        v.data[field_start(v, i, id_name_field(v)->Some_0)] != 0,
        v.data[field_start(v, i, id_name_field(v)->Some_0) + 1] != 0,
    ensures
        ({
            let fd = id_name_field(v)->Some_0;
            let start = field_start(v, i, fd);
            let prefix = v.data.subrange(start, start + 2);
            let w = with_data(v, renamed_data(v, i, name));
            &&& w.data.len() == v.data.len()
            &&& forall|k: int|
                0 <= k < v.data.len() && !(start <= k < start + fd.size) ==> #[trigger] w.data[k] == v.data[k]
            &&& fstr(w, i, "ID"@, "name"@) == Some(lossy_utf8(prefix + vstd::utf8::encode_utf8(name)))
            &&& vstd::utf8::valid_utf8(prefix) ==> fstr(w, i, "ID"@, "name"@) == Some(
                vstd::utf8::decode_utf8(prefix) + name,
            )
        }),
{
    let fd = id_name_field(v)->Some_0;
    let start = field_start(v, i, fd);
    let end = start + fd.size;
    let text = vstd::utf8::encode_utf8(name);
    let old_field = v.data.subrange(start, end);
    let filled = filled_field(old_field, 2, text);
    let w = with_data(v, renamed_data(v, i, name));
    assert(v.blocks[i].data_offset + v.blocks[i].header.size <= v.data.len());
    assert(filled.len() == fd.size);
    assert(w.data =~= v.data.subrange(0, start) + filled + v.data.subrange(end, v.data.len() as int));
    assert(w.data.subrange(start, end) =~= filled);
    assert forall|k: int| 0 <= k < v.data.len() && !(start <= k < end) implies #[trigger] w.data[k] == v.data[k] by {
        if k < start {
            assert(w.data[k] == v.data.subrange(0, start)[k]);
        } else {
            assert(w.data[k] == v.data.subrange(end, v.data.len() as int)[k - end]);
        }
    }
    assert forall|j: int| 0 <= j < name.len() implies name[j] != '\0' by {
        assert(printable_ascii(name[j]));
    }
    lemma_encode_no_nul(name);
    assert(old_field[0] == v.data[start] && old_field[1] == v.data[start + 1]);
    lemma_filled_until_nul(old_field, 2, text);
    assert(w.blocks == v.blocks && w.dna == v.dna);
    lemma_field_text(w, i, fd, filled, "ID"@, "name"@);
    let prefix = v.data.subrange(start, start + 2);
    assert(old_field.subrange(0, 2) =~= prefix);
    if vstd::utf8::valid_utf8(prefix) {
        vstd::utf8::decode_utf8_encode_utf8(prefix);
        let pc = vstd::utf8::decode_utf8(prefix);
        lemma_encode_concat(pc, name);
        vstd::utf8::encode_utf8_valid_utf8(pc + name);
        vstd::utf8::encode_utf8_decode_utf8(pc + name);
    }
}

/// Reading back a library path: after a path update that succeeds, the
/// block's `Library.filepath` field reads back as exactly the new path,
/// provided the path holds no NUL character. The file keeps its length and
/// only the bytes of that field change.
pub proof fn lemma_libpath_read_back(v: BlendFileView, i: int, path: Seq<char>, no_validate: bool)
    requires
        libpath_problem(v, i, path, no_validate) is None,
        blocks_in_bounds(v.blocks, v.data.len() as int),
        forall|j: int| 0 <= j < path.len() ==> path[j] != '\0',
    ensures
        ({
            let fd = library_path_field(v)->Some_0;
            let start = field_start(v, i, fd);
            let w = with_data(v, libpath_data(v, i, path));
            &&& w.data.len() == v.data.len()
            &&& forall|k: int|
                0 <= k < v.data.len() && !(start <= k < start + fd.size) ==> #[trigger] w.data[k] == v.data[k]
            &&& fstr(w, i, "Library"@, "filepath"@) == Some(path)
        }),
{
    let fd = library_path_field(v)->Some_0;
    let start = field_start(v, i, fd);
    let end = start + fd.size;
    let text = vstd::utf8::encode_utf8(path);
    let old_field = v.data.subrange(start, end);
    let filled = filled_field(old_field, 0, text);
    let w = with_data(v, libpath_data(v, i, path));
    assert(v.blocks[i].data_offset + v.blocks[i].header.size <= v.data.len());
    assert(filled.len() == fd.size);
    assert(w.data =~= v.data.subrange(0, start) + filled + v.data.subrange(end, v.data.len() as int));
    assert(w.data.subrange(start, end) =~= filled);
    assert forall|k: int| 0 <= k < v.data.len() && !(start <= k < end) implies #[trigger] w.data[k] == v.data[k] by {
        if k < start {
            assert(w.data[k] == v.data.subrange(0, start)[k]);
        } else {
            assert(w.data[k] == v.data.subrange(end, v.data.len() as int)[k - end]);
        }
    }
    lemma_encode_no_nul(path);
    lemma_filled_until_nul(old_field, 0, text);
    assert(old_field.subrange(0, 0) + text =~= text);
    assert(w.blocks == v.blocks && w.dna == v.dna);
    lemma_field_text(w, i, fd, filled, "Library"@, "filepath"@);
    vstd::utf8::encode_utf8_valid_utf8(path);
    vstd::utf8::encode_utf8_decode_utf8(path);
}

} // verus!
