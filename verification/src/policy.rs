//! How DATA blocks are shown and compared.
use vstd::prelude::*;

verus! {

/// The block code of DATA blocks.
pub const DATA_BLOCK_CODE: &'static str = "DATA";

/// Whether DATA blocks are shown.
#[derive(Debug, Clone, Copy, PartialEq, Eq, Structural)]
pub enum DataBlockVisibility {
    /// Show DATA blocks
    Show,
    /// Hide DATA blocks (default)
    Hide,
}

/// The visibility a flag stands for: `Show` for `true`, `Hide` for `false`.
pub open spec fn visibility_of(show_data: bool) -> DataBlockVisibility {
    if show_data {
        DataBlockVisibility::Show
    } else {
        DataBlockVisibility::Hide
    }
}

/// The flag of a visibility: `true` exactly for `Show`.
pub open spec fn shows_data(v: DataBlockVisibility) -> bool {
    v == DataBlockVisibility::Show
}

impl DataBlockVisibility {
    /// `Show` for `true`, `Hide` for `false`.
    pub fn from_flag(show_data: bool) -> (r: Self)
        ensures
            r == visibility_of(show_data),
    {
        if show_data {
            DataBlockVisibility::Show
        } else {
            DataBlockVisibility::Hide
        }
    }

    /// `true` exactly for `Show`.
    pub fn as_flag(self) -> (r: bool)
        ensures
            r == shows_data(self),
    {
        match self {
            DataBlockVisibility::Show => true,
            DataBlockVisibility::Hide => false,
        }
    }
}

/// The characters of the DATA block code.
pub open spec fn data_code_chars() -> Seq<char> {
    DATA_BLOCK_CODE@
}

/// Whether `code` is the DATA block code.
pub fn is_data_block_code(code: &str) -> (r: bool)
    ensures
        r == (code@ == data_code_chars()),
{
    crate::text::str_eq(code, DATA_BLOCK_CODE)
}

/// Whether a block with this code is shown under `policy`.
pub fn is_block_visible(code: &str, policy: DataBlockVisibility) -> (r: bool)
    ensures
        r == (policy == DataBlockVisibility::Show || code@ != data_code_chars()),
{
    match policy {
        DataBlockVisibility::Show => true,
        DataBlockVisibility::Hide => !is_data_block_code(code),
    }
}

/// How DATA blocks are compared when two files are compared.
#[derive(Debug, Clone, Copy, PartialEq, Eq, Structural)]
pub enum DataBlockCompareMode {
    /// Compare DATA blocks using size-based heuristics
    SizeBased,
    /// Compare DATA blocks using content analysis
    ContentBased,
    /// Skip DATA block comparison entirely
    Skip,
}

impl Default for DataBlockCompareMode {
    fn default() -> (r: Self)
        ensures
            r == DataBlockCompareMode::SizeBased,
    {
        DataBlockCompareMode::SizeBased
    }
}

/// Whether a change of a DATA block's size from `size_before` to `size_after` counts.
///
/// A size that becomes or stops being zero counts; otherwise the change counts
/// when the smaller size is less than 95% of the larger one.
pub open spec fn spec_size_change_significant(before: int, after: int) -> bool {
    if before == 0 || after == 0 {
        before != after
    } else {
        let larger = if before >= after { before } else { after };
        let smaller = if before >= after { after } else { before };
        100 * smaller < 95 * larger
    }
}

/// Whether a change of a DATA block's size is significant (see `spec_size_change_significant`).
pub fn is_data_size_change_significant(size_before: u32, size_after: u32) -> (r: bool)
    ensures
        r == spec_size_change_significant(size_before as int, size_after as int),
{
    if size_before == 0 || size_after == 0 {
        return size_before != size_after;
    }
    let larger: u64 = if size_before >= size_after { size_before as u64 } else { size_after as u64 };
    let smaller: u64 = if size_before >= size_after { size_after as u64 } else { size_before as u64 };
    100 * smaller < 95 * larger
}

/// A flag turned into a visibility and back is the same flag, and a
/// visibility turned into a flag and back is the same visibility.
pub proof fn lemma_visibility_flag_round_trip(b: bool, v: DataBlockVisibility)
    ensures
        shows_data(visibility_of(b)) == b,
        visibility_of(shows_data(v)) == v,
{
}

/// Whether a size change counts does not depend on the direction of the
/// change; keeping the size never counts, and a size that becomes or stops
/// being zero always does.
pub proof fn lemma_size_change_symmetric(a: int, b: int)
    requires
        a >= 0,
        b >= 0,
    ensures
        spec_size_change_significant(a, b) == spec_size_change_significant(b, a),
        !spec_size_change_significant(a, a),
        (a == 0) != (b == 0) ==> spec_size_change_significant(a, b),
{
}

} // verus!
