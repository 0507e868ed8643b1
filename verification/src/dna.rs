//! The SDNA catalogue: the names, types and struct layouts a file was saved with.
use vstd::prelude::*;
use vstd::string::*;
use vstd::hash_map::StringHashMap;
use crate::text::{lossy_utf8, parse_unsigned};

verus! {

/// A field name as written in SDNA, such as `*next`, `mat[16]` or `(*func)()`.
#[derive(Debug, Clone)]
pub struct DnaName {
    pub name_full: String,
    pub name_only: String,
    pub is_pointer: bool,
    pub is_method_pointer: bool,
    pub array_size: usize,
}

/// What a `DnaName` holds, by its characters.
pub struct DnaNameView {
    pub full: Seq<char>,
    pub only: Seq<char>,
    pub is_pointer: bool,
    pub is_method_pointer: bool,
    pub array_size: usize,
}

impl View for DnaName {
    type V = DnaNameView;

    open spec fn view(&self) -> DnaNameView {
        DnaNameView {
            full: self.name_full@,
            only: self.name_only@,
            is_pointer: self.is_pointer,
            is_method_pointer: self.is_method_pointer,
            array_size: self.array_size,
        }
    }
}

/// Whether byte `x` occurs in `b`.
pub open spec fn has_byte(b: Seq<u8>, x: u8) -> bool {
    exists|i: int| 0 <= i < b.len() && b[i] == x
}

/// Whether `(*` occurs in `b`.
pub open spec fn has_method_mark(b: Seq<u8>) -> bool {
    exists|i: int| 0 <= i && i + 1 < b.len() && #[trigger] b[i] == 40 && b[i + 1] == 42
}

/// The first index at or after `from` holding `x` (or holding `y`), or `b.len()`.
pub open spec fn first_of(b: Seq<u8>, from: int, x: u8, y: u8) -> int
    decreases b.len() - from,
{
    if from >= b.len() {
        b.len() as int
    } else if b[from] == x || b[from] == y {
        from
    } else {
        first_of(b, from + 1, x, y)
    }
}

/// `first_of` lies between its start and the length.
pub proof fn lemma_first_of_bounds(b: Seq<u8>, from: int, x: u8, y: u8)
    requires
        0 <= from <= b.len(),
    ensures
        from <= first_of(b, from, x, y) <= b.len(),
    decreases b.len() - from,
{
    if from < b.len() && b[from] != x && b[from] != y {
        lemma_first_of_bounds(b, from + 1, x, y);
    }
}

/// The last index holding `x`, or -1.
pub open spec fn last_of(b: Seq<u8>, x: u8) -> int
    decreases b.len(),
{
    if b.len() == 0 {
        -1
    } else if b.last() == x {
        b.len() - 1
    } else {
        last_of(b.drop_last(), x)
    }
}

/// Where the bare name starts: after the last `*` of a pointer, else at 0.
pub open spec fn name_start(b: Seq<u8>) -> int {
    if has_byte(b, 42) { last_of(b, 42) + 1 } else { 0 }
}

/// Where the bare name ends: at the first `)` of a method pointer, else at the
/// first `[` or `(`; the whole length when that would come before the start.
pub open spec fn name_end(b: Seq<u8>) -> int {
    let e = if has_method_mark(b) { first_of(b, 0, 41, 41) } else { first_of(b, 0, 91, 40) };
    if e < name_start(b) { b.len() as int } else { e }
}

/// The product of the numbers in the `[...]` groups from index `i` on, multiplied
/// into `acc` with wrapping; groups that are not an unsigned number count as 1.
pub open spec fn array_size_from(b: Seq<u8>, i: int, acc: usize) -> usize
    decreases b.len() - i,
{
    if i < 0 || i >= b.len() {
        acc
    } else if b[i] == 91 {
        let close = first_of(b, i + 1, 93, 93);
        if close < b.len() {
            let acc2 = match parse_unsigned(b.subrange(i + 1, close), usize::MAX as int) {
                Some(n) => vstd::wrapping::usize_specs::wrapping_mul(acc, #[verifier::truncate] (n as usize)),
                None => acc,
            };
            proof {
                lemma_first_of_bounds(b, i + 1, 93, 93);
            }
            array_size_from(b, close + 1, acc2)
        } else {
            acc
        }
    } else {
        array_size_from(b, i + 1, acc)
    }
}

/// The bytes `[d]` for each group of digits `d` of `ds`, one after another.
pub open spec fn bracketed(ds: Seq<Seq<u8>>) -> Seq<u8>
    decreases ds.len(),
{
    if ds.len() == 0 {
        Seq::empty()
    } else {
        seq![91u8] + ds[0] + seq![93u8] + bracketed(ds.drop_first())
    }
}

/// The product of the numbers written in `ds`.
pub open spec fn dims_product(ds: Seq<Seq<u8>>) -> int
    decreases ds.len(),
{
    if ds.len() == 0 {
        1
    } else {
        crate::text::digits_value(ds[0]) * dims_product(ds.drop_first())
    }
}

/// Whether each group of `ds` is a non-empty run of decimal digits.
pub open spec fn digit_groups(ds: Seq<Seq<u8>>) -> bool {
    forall|k: int| 0 <= k < ds.len() ==> #[trigger] ds[k].len() > 0 && crate::text::all_digits(ds[k])
}

/// Whether the product of the first groups of `ds`, times `acc`, fits in a
/// `usize` however many groups are taken.
pub open spec fn products_fit(acc: int, ds: Seq<Seq<u8>>) -> bool {
    forall|m: int| 0 <= m <= ds.len() ==> acc * #[trigger] dims_product(ds.take(m)) <= usize::MAX
}

/// The first closing bracket after a run of digits is the one ending it.
proof fn lemma_close_after_digits(s: Seq<u8>, x: int, end: int)
    requires
        0 <= x <= end < s.len(),
        s[end] == 93,
        forall|k: int| x <= k < end ==> crate::text::is_digit(#[trigger] s[k]),
    ensures
        first_of(s, x, 93, 93) == end,
    decreases end - x,
{
    if x < end {
        assert(crate::text::is_digit(s[x]));
        lemma_close_after_digits(s, x + 1, end);
    }
}

/// Bytes without `[` before `len` are passed over when reading array sizes.
proof fn lemma_skip_plain(s: Seq<u8>, i: int, len: int, acc: usize)
    requires
        0 <= i <= len <= s.len(),
        forall|k: int| 0 <= k < len ==> #[trigger] s[k] != 91,
    ensures
        array_size_from(s, i, acc) == array_size_from(s, len, acc),
    decreases len - i,
{
    if i < len {
        lemma_skip_plain(s, i + 1, len, acc);
    }
}

/// Bracketed groups of digits from `off` to the end multiply `acc` by the
/// numbers they hold, while the products fit.
proof fn lemma_groups_product(s: Seq<u8>, off: int, ds: Seq<Seq<u8>>, acc: usize)
    requires
        0 <= off <= s.len(),
        s.subrange(off, s.len() as int) == bracketed(ds),
        digit_groups(ds),
        products_fit(acc as int, ds),
    ensures
        array_size_from(s, off, acc) == acc * dims_product(ds),
    decreases ds.len(),
{
    if ds.len() == 0 {
        assert(off == s.len());
    } else {
        let d = ds[0];
        let rest = ds.drop_first();
        let n = d.len() as int;
        let tail = s.subrange(off, s.len() as int);
        assert(tail == seq![91u8] + d + seq![93u8] + bracketed(rest));
        assert(s[off] == tail[0]);
        assert(s[off + 1 + n] == tail[1 + n]);
        assert forall|k: int| off + 1 <= k < off + 1 + n implies crate::text::is_digit(#[trigger] s[k]) by {
            assert(s[k] == tail[k - off]);
            assert(tail[k - off] == d[k - off - 1]);
            assert(crate::text::all_digits(d));
        }
        lemma_close_after_digits(s, off + 1, off + 1 + n);
        let close = off + 1 + n;
        assert(s.subrange(off + 1, close) =~= d) by {
            assert forall|k: int| 0 <= k < n implies s.subrange(off + 1, close)[k] == d[k] by {
                assert(s[off + 1 + k] == tail[1 + k]);
            }
        }
        assert(s.subrange(close + 1, s.len() as int) =~= bracketed(rest)) by {
            assert forall|k: int| 0 <= k < s.len() - close - 1 implies s.subrange(close + 1, s.len() as int)[k]
                == bracketed(rest)[k] by {
                assert(s[close + 1 + k] == tail[n + 2 + k]);
            }
        }
        let v = crate::text::digits_value(d);
        crate::text::lemma_digits_value_nonneg(d);
        assert(ds.take(1).drop_first() =~= Seq::<Seq<u8>>::empty());
        assert(ds.take(1)[0] == d);
        assert(dims_product(Seq::<Seq<u8>>::empty()) == 1);
        assert(dims_product(ds.take(1)) == v * dims_product(ds.take(1).drop_first()));
        assert(dims_product(ds.take(1)) == v);
        assert(acc * dims_product(ds.take(1)) <= usize::MAX);
        assert(d[0] != 43) by {
            assert(crate::text::is_digit(d[0]));
        }
        let acc2: usize = match crate::text::parse_unsigned(d, usize::MAX as int) {
            Some(nn) => vstd::wrapping::usize_specs::wrapping_mul(acc, #[verifier::truncate] (nn as usize)),
            None => acc,
        };
        assert(acc2 == acc * v) by {
            if v <= usize::MAX {
                assert(crate::text::parse_unsigned(d, usize::MAX as int) == Some(v));
                assert(acc * v <= usize::MAX);
                vstd::arithmetic::div_mod::lemma_small_mod((acc * v) as nat, (usize::MAX + 1) as nat);
            } else {
                assert(crate::text::parse_unsigned(d, usize::MAX as int) is None);
                if acc >= 1 {
                    assert(acc * v >= v) by (nonlinear_arith)
                        requires
                            acc >= 1,
                            v >= 0,
                    ;
                }
                assert(acc == 0);
                assert(acc * v == 0) by (nonlinear_arith)
                    requires
                        acc == 0,
                ;
            }
        }
        assert(array_size_from(s, off, acc) == array_size_from(s, close + 1, acc2));
        assert(products_fit(acc2 as int, rest)) by {
            assert forall|m: int| 0 <= m <= rest.len() implies acc2 * #[trigger] dims_product(rest.take(m))
                <= usize::MAX by {
                let big = ds.take(m + 1);
                assert(big[0] == d);
                assert(big.drop_first() =~= rest.take(m));
                assert(dims_product(big) == v * dims_product(rest.take(m)));
                assert(acc * dims_product(big) <= usize::MAX);
                vstd::arithmetic::mul::lemma_mul_is_associative(acc as int, v, dims_product(rest.take(m)));
            }
        }
        lemma_groups_product(s, close + 1, rest, acc2);
        vstd::arithmetic::mul::lemma_mul_is_associative(acc as int, v, dims_product(rest));
    }
}

/// The array size of an SDNA name is the product of all its bracketed
/// dimensions: a name made of a part without `[` and then groups `[d]` of
/// decimal digits has as array size the product of the numbers `d`, when the
/// products fit in a `usize` (so `obmat[4][4]` has 16).
pub proof fn lemma_array_size_is_product(pre: Seq<u8>, ds: Seq<Seq<u8>>)
    requires
        forall|k: int| 0 <= k < pre.len() ==> #[trigger] pre[k] != 91,
        digit_groups(ds),
        products_fit(1, ds),
    ensures
        spec_dna_name(pre + bracketed(ds)).array_size == dims_product(ds),
{
    let s = pre + bracketed(ds);
    assert forall|k: int| 0 <= k < pre.len() implies #[trigger] s[k] != 91 by {
        assert(s[k] == pre[k]);
    }
    lemma_skip_plain(s, 0, pre.len() as int, 1);
    assert(s.subrange(pre.len() as int, s.len() as int) =~= bracketed(ds));
    lemma_groups_product(s, pre.len() as int, ds, 1);
}

/// The parsed form of the SDNA name whose bytes are `b`.
pub open spec fn spec_dna_name(b: Seq<u8>) -> DnaNameView {
    DnaNameView {
        full: vstd::utf8::decode_utf8(b),
        only: lossy_utf8(b.subrange(name_start(b), name_end(b))),
        is_pointer: has_byte(b, 42),
        is_method_pointer: has_method_mark(b),
        array_size: array_size_from(b, 0, 1),
    }
}

/// The first index at or after `from` holding `x` or `y`, or `b.len()`.
pub(crate) fn find_first(b: &[u8], from: usize, x: u8, y: u8) -> (r: usize)
    requires
        from <= b.len(),
    ensures
        r == first_of(b@, from as int, x, y),
        from <= r <= b.len(),
{
    let mut i = from;
    while i < b.len() && b[i] != x && b[i] != y
        invariant
            from <= i <= b.len(),
            first_of(b@, from as int, x, y) == first_of(b@, i as int, x, y),
        decreases b.len() - i,
    {
        i = i + 1;
    }
    i
}

/// The product of the bracketed numbers of a name (see `array_size_from`).
fn calc_array_size_fast(bytes: &[u8]) -> (r: usize)
    ensures
        r == array_size_from(bytes@, 0, 1),
{
    let mut result: usize = 1;
    let mut i: usize = 0;
    while i < bytes.len()
        invariant
            i <= bytes.len() + 1,
            array_size_from(bytes@, 0, 1) == array_size_from(bytes@, i as int, result),
        decreases bytes.len() + 1 - i,
    {
        if bytes[i] == 91u8 {
            let close = find_first(bytes, i + 1, 93u8, 93u8);
            if close < bytes.len() {
                let inner = crate::text::sub_slice(bytes, i + 1, close);
                match crate::text::parse_unsigned_bytes(inner, usize::MAX as u64) {
                    Some(n) => {
                        result = result.wrapping_mul(n as usize);
                    },
                    None => {},
                }
                i = close + 1;
            } else {
                return result;
            }
        } else {
            i = i + 1;
        }
    }
    result
}

/// Whether byte `x` occurs in `b`.
fn contains_byte(b: &[u8], x: u8) -> (r: bool)
    ensures
        r == has_byte(b@, x),
{
    let mut i: usize = 0;
    while i < b.len()
        invariant
            i <= b.len(),
            forall|j: int| 0 <= j < i ==> b@[j] != x,
        decreases b.len() - i,
    {
        if b[i] == x {
            return true;
        }
        i = i + 1;
    }
    false
}

/// Whether `(*` occurs in `b`.
fn contains_method_mark(b: &[u8]) -> (r: bool)
    ensures
        r == has_method_mark(b@),
{
    let mut i: usize = 0;
    while i < b.len()
        invariant
            i <= b.len(),
            forall|j: int| 0 <= j < i && j + 1 < b.len() ==> !(#[trigger] b@[j] == 40 && b@[j + 1] == 42),
        decreases b.len() - i,
    {
        if i + 1 < b.len() && b[i] == 40u8 && b[i + 1] == 42u8 {
            return true;
        }
        i = i + 1;
    }
    false
}

/// The last index holding `x`, if any.
fn rfind_byte(b: &[u8], x: u8) -> (r: Option<usize>)
    ensures
        match r {
            Some(i) => i == last_of(b@, x) && i < b.len(),
            None => last_of(b@, x) == -1,
        },
{
    let mut n = b.len();
    assert(b@.subrange(0, n as int) =~= b@);
    while n > 0 && b[n - 1] != x
        invariant
            n <= b.len(),
            last_of(b@, x) == last_of(b@.subrange(0, n as int), x),
        decreases n,
    {
        assert(b@.subrange(0, n as int).drop_last() =~= b@.subrange(0, n - 1));
        n = n - 1;
    }
    if n == 0 {
        None
    } else {
        Some(n - 1)
    }
}

proof fn lemma_last_of_found(b: Seq<u8>, x: u8)
    requires
        has_byte(b, x),
    ensures
        0 <= last_of(b, x) < b.len(),
    decreases b.len(),
{
    if b.last() != x {
        let i = choose|i: int| 0 <= i < b.len() && b[i] == x;
        assert(b.drop_last()[i] == x);
        lemma_last_of_found(b.drop_last(), x);
    }
}

impl DnaName {
    /// Parses an SDNA name: pointer marks, method pointers, bare name and array size.
    pub fn new(name_full: String) -> (r: Self)
        ensures
            r@ == spec_dna_name(vstd::utf8::encode_utf8(name_full@)),
            r.name_full@ == name_full@,
    {
        let bytes = name_full.as_str().as_bytes();
        let is_pointer = contains_byte(bytes, 42u8);
        let is_method_pointer = contains_method_mark(bytes);
        let start: usize = if is_pointer {
            proof {
                lemma_last_of_found(bytes@, 42u8);
            }
            match rfind_byte(bytes, 42u8) {
                Some(i) => i + 1,
                None => 0,
            }
        } else {
            0
        };
        let end0 = if is_method_pointer {
            find_first(bytes, 0, 41u8, 41u8)
        } else {
            find_first(bytes, 0, 91u8, 40u8)
        };
        let end = if end0 < start { bytes.len() } else { end0 };
        let name_only = crate::text::utf8_lossy(crate::text::sub_slice(bytes, start, end));
        let array_size = calc_array_size_fast(bytes);
        proof {
            vstd::utf8::encode_utf8_decode_utf8(name_full@);
        }
        DnaName { name_full, name_only, is_pointer, is_method_pointer, array_size }
    }
}


impl DnaName {
    /// A copy of this name.
    pub fn duplicate(&self) -> (r: Self)
        ensures
            r@ == self@,
    {
        DnaName {
            name_full: self.name_full.clone(),
            name_only: self.name_only.clone(),
            is_pointer: self.is_pointer,
            is_method_pointer: self.is_method_pointer,
            array_size: self.array_size,
        }
    }
}

/// One field of an SDNA struct: its type, its name, its size and its offset.
#[derive(Debug, Clone)]
pub struct DnaField {
    pub typename: String,
    pub name: DnaName,
    pub size: usize,
    pub offset: usize,
}

/// What a `DnaField` holds.
pub struct DnaFieldView {
    pub typename: Seq<char>,
    pub name: DnaNameView,
    pub size: usize,
    pub offset: usize,
}

impl View for DnaField {
    type V = DnaFieldView;

    open spec fn view(&self) -> DnaFieldView {
        DnaFieldView { typename: self.typename@, name: self.name@, size: self.size, offset: self.offset }
    }
}

impl DnaField {
    /// A copy of this field.
    pub fn duplicate(&self) -> (r: Self)
        ensures
            r@ == self@,
    {
        DnaField {
            typename: self.typename.clone(),
            name: self.name.duplicate(),
            size: self.size,
            offset: self.offset,
        }
    }
}

/// The views of a sequence of fields.
pub open spec fn fields_view(fields: Seq<DnaField>) -> Seq<DnaFieldView> {
    fields.map_values(|f: DnaField| f@)
}

/// The last index of a field whose bare name is `name`, or -1.
pub open spec fn field_pos(fields: Seq<DnaFieldView>, name: Seq<char>) -> int
    decreases fields.len(),
{
    if fields.len() == 0 {
        -1
    } else if fields.last().name.only == name {
        fields.len() - 1
    } else {
        field_pos(fields.drop_last(), name)
    }
}

/// `field_pos` is -1 or an index of the sequence.
pub proof fn lemma_field_pos_bounds(fields: Seq<DnaFieldView>, name: Seq<char>)
    ensures
        -1 <= field_pos(fields, name) < fields.len(),
        field_pos(fields, name) >= 0 ==> fields[field_pos(fields, name)].name.only == name,
    decreases fields.len(),
{
    if fields.len() > 0 && fields.last().name.only != name {
        lemma_field_pos_bounds(fields.drop_last(), name);
    }
}

/// An SDNA struct: its type name, its size and its fields in order.
pub struct DnaStruct {
    pub typename: String,
    pub size: usize,
    pub fields: Vec<DnaField>,
    /// Index of the fields by bare name (the last field of a name wins).
    pub fields_by_name: StringHashMap<usize>,
}

/// What a `DnaStruct` holds.
pub struct DnaStructView {
    pub typename: Seq<char>,
    pub size: usize,
    pub fields: Seq<DnaFieldView>,
}

impl View for DnaStruct {
    type V = DnaStructView;

    open spec fn view(&self) -> DnaStructView {
        DnaStructView { typename: self.typename@, size: self.size, fields: fields_view(self.fields@) }
    }
}

impl DnaStruct {
    /// The name index maps each field name to the last field of that name.
    pub open spec fn wf(&self) -> bool {
        &&& forall|k: Seq<char>| #[trigger]
            self.fields_by_name@.contains_key(k) <==> field_pos(self@.fields, k) >= 0
        &&& forall|k: Seq<char>| #[trigger]
            self.fields_by_name@.contains_key(k) ==> self.fields_by_name@[k] == field_pos(self@.fields, k)
    }

    /// A struct with no fields yet.
    fn new(typename: String, size: usize) -> (r: Self)
        ensures
            r@ == (DnaStructView { typename: typename@, size, fields: Seq::empty() }),
            r.wf(),
    {
        let r = DnaStruct { typename, size, fields: Vec::new(), fields_by_name: StringHashMap::new() };
        assert(r@.fields =~= Seq::<DnaFieldView>::empty());
        r
    }

    /// Appends a field and indexes it by its bare name.
    fn add_field(&mut self, field: DnaField)
        requires
            old(self).wf(),
        ensures
            final(self).wf(),
            final(self)@ == (DnaStructView { fields: old(self)@.fields.push(field@), ..old(self)@ }),
    {
        let ghost old_fields = self@.fields;
        let field_index = self.fields.len();
        let field_name = field.name.name_only.clone();
        let ghost f = field@;
        self.fields.push(field);
        self.fields_by_name.insert(field_name, field_index);
        assert(self@.fields =~= old_fields.push(f));
        assert forall|k: Seq<char>| #[trigger] field_pos(self@.fields, k) == (if f.name.only == k {
            old_fields.len() as int
        } else {
            field_pos(old_fields, k)
        }) by {
            assert(self@.fields.drop_last() =~= old_fields);
        }
    }

    /// A struct built from the given fields, indexed by their bare names.
    pub fn new_for_test(typename: String, size: usize, fields: Vec<DnaField>) -> (r: Self)
        ensures
            r@ == (DnaStructView { typename: typename@, size, fields: fields_view(fields@) }),
            r.wf(),
    {
        let mut r = DnaStruct::new(typename, size);
        let mut i: usize = 0;
        while i < fields.len()
            invariant
                i <= fields.len(),
                r.wf(),
                r@.typename == typename@,
                r@.size == size,
                r@.fields == fields_view(fields@.subrange(0, i as int)),
            decreases fields.len() - i,
        {
            let f = fields[i].duplicate();
            r.add_field(f);
            assert(fields_view(fields@.subrange(0, i + 1)) =~= fields_view(fields@.subrange(0, i as int)).push(
                fields@[i as int]@,
            ));
            i = i + 1;
        }
        assert(fields@.subrange(0, fields.len() as int) =~= fields@);
        r
    }

    /// Where the name index sends `name`: the position it holds when that is
    /// the position of a field, else -1.
    pub open spec fn field_index(&self, name: Seq<char>) -> int {
        if self.fields_by_name@.contains_key(name) && self.fields_by_name@[name] < self.fields@.len() {
            self.fields_by_name@[name] as int
        } else {
            -1
        }
    }

    /// The field the name index gives for `name` (see `field_index`): the last
    /// field whose bare name is `name` when the index is well formed.
    pub fn find_field(&self, name: &str) -> (r: Option<&DnaField>)
        ensures
            match r {
                Some(f) => self.field_index(name@) >= 0 && f@ == self@.fields[self.field_index(name@)],
                None => self.field_index(name@) == -1,
            },
            self.wf() ==> self.field_index(name@) == field_pos(self@.fields, name@),
            self.wf() ==> match r {
                Some(f) => field_pos(self@.fields, name@) >= 0 && f@ == self@.fields[field_pos(
                    self@.fields,
                    name@,
                )],
                None => field_pos(self@.fields, name@) == -1,
            },
    {
        proof {
            lemma_field_pos_bounds(self@.fields, name@);
        }
        match self.fields_by_name.get(name) {
            Some(index) => {
                if *index < self.fields.len() {
                    Some(&self.fields[*index])
                } else {
                    None
                }
            },
            None => None,
        }
    }

    /// A copy of this struct.
    pub fn duplicate(&self) -> (r: Self)
        ensures
            r@ == self@,
            r.wf(),
    {
        let mut fields: Vec<DnaField> = Vec::new();
        let mut i: usize = 0;
        while i < self.fields.len()
            invariant
                i <= self.fields.len(),
                fields_view(fields@) == fields_view(self.fields@.subrange(0, i as int)),
            decreases self.fields.len() - i,
        {
            fields.push(self.fields[i].duplicate());
            assert(fields_view(self.fields@.subrange(0, i + 1)) =~= fields_view(self.fields@.subrange(0, i as int)).push(
                self.fields@[i as int]@,
            ));
            assert(fields_view(fields@) =~= fields_view(self.fields@.subrange(0, i as int)).push(
                self.fields@[i as int]@,
            ));
            i = i + 1;
        }
        assert(self.fields@.subrange(0, self.fields.len() as int) =~= self.fields@);
        DnaStruct::new_for_test(self.typename.clone(), self.size, fields)
    }
}

/// The views of a sequence of structs.
pub open spec fn structs_view(structs: Seq<DnaStruct>) -> Seq<DnaStructView> {
    structs.map_values(|s: DnaStruct| s@)
}

/// The last index of a struct whose type name is `name`, or -1.
pub open spec fn struct_pos(structs: Seq<DnaStructView>, name: Seq<char>) -> int
    decreases structs.len(),
{
    if structs.len() == 0 {
        -1
    } else if structs.last().typename == name {
        structs.len() - 1
    } else {
        struct_pos(structs.drop_last(), name)
    }
}

/// `struct_pos` is -1 or an index of the sequence.
pub proof fn lemma_struct_pos_bounds(structs: Seq<DnaStructView>, name: Seq<char>)
    ensures
        -1 <= struct_pos(structs, name) < structs.len(),
        struct_pos(structs, name) >= 0 ==> structs[struct_pos(structs, name)].typename == name,
    decreases structs.len(),
{
    if structs.len() > 0 && structs.last().typename != name {
        lemma_struct_pos_bounds(structs.drop_last(), name);
    }
}

/// The whole SDNA catalogue of a file.
pub struct DnaCollection {
    pub structs: Vec<DnaStruct>,
    /// Index of the structs by type name (the last struct of a name wins).
    pub struct_index: StringHashMap<usize>,
    pub types: Vec<String>,
    pub names: Vec<DnaName>,
    pub type_sizes: Vec<u16>,
}

/// What a `DnaCollection` holds.
pub struct DnaView {
    pub structs: Seq<DnaStructView>,
    pub types: Seq<Seq<char>>,
    pub names: Seq<DnaNameView>,
    pub type_sizes: Seq<u16>,
}

/// The views of a sequence of strings.
pub open spec fn strings_view(v: Seq<String>) -> Seq<Seq<char>> {
    v.map_values(|s: String| s@)
}

/// The views of a sequence of names.
pub open spec fn names_view(v: Seq<DnaName>) -> Seq<DnaNameView> {
    v.map_values(|n: DnaName| n@)
}

impl View for DnaCollection {
    type V = DnaView;

    open spec fn view(&self) -> DnaView {
        DnaView {
            structs: structs_view(self.structs@),
            types: strings_view(self.types@),
            names: names_view(self.names@),
            type_sizes: self.type_sizes@,
        }
    }
}

/// Whether `m` maps each type name to the last of `structs` with that name.
pub open spec fn struct_index_matches(m: Map<Seq<char>, usize>, structs: Seq<DnaStructView>) -> bool {
    &&& forall|k: Seq<char>| #[trigger] m.contains_key(k) <==> struct_pos(structs, k) >= 0
    &&& forall|k: Seq<char>| #[trigger] m.contains_key(k) ==> m[k] == struct_pos(structs, k)
}

/// Indexes `structs` by type name, the last struct of a name winning.
fn build_struct_index(structs: &Vec<DnaStruct>) -> (r: StringHashMap<usize>)
    ensures
        struct_index_matches(r@, structs_view(structs@)),
{
    let mut m: StringHashMap<usize> = StringHashMap::new();
    let mut i: usize = 0;
    assert(structs_view(structs@).subrange(0, 0) =~= Seq::<DnaStructView>::empty());
    while i < structs.len()
        invariant
            i <= structs.len(),
            struct_index_matches(m@, structs_view(structs@).subrange(0, i as int)),
        decreases structs.len() - i,
    {
        let ghost pre = structs_view(structs@).subrange(0, i as int);
        let ghost nxt = structs_view(structs@).subrange(0, i + 1);
        assert(nxt.drop_last() =~= pre);
        assert(nxt.last() == structs@[i as int]@);
        m.insert(structs[i].typename.clone(), i);
        i = i + 1;
    }
    assert(structs_view(structs@).subrange(0, structs.len() as int) =~= structs_view(structs@));
    m
}

impl DnaCollection {
    /// The struct index is consistent and every struct's field index is too.
    pub open spec fn wf(&self) -> bool {
        &&& struct_index_matches(self.struct_index@, self@.structs)
        &&& forall|i: int| 0 <= i < self.structs.len() ==> #[trigger] self.structs@[i].wf()
    }

    /// A catalogue built from its parts, with its structs indexed by type name.
    pub fn new_for_test(
        structs: Vec<DnaStruct>,
        types: Vec<String>,
        names: Vec<DnaName>,
        type_sizes: Vec<u16>,
    ) -> (r: Self)
        ensures
            r@ == (DnaView {
                structs: structs_view(structs@),
                types: strings_view(types@),
                names: names_view(names@),
                type_sizes: type_sizes@,
            }),
            (forall|i: int| 0 <= i < structs.len() ==> #[trigger] structs@[i].wf()) ==> r.wf(),
    {
        let struct_index = build_struct_index(&structs);
        DnaCollection { structs, struct_index, types, names, type_sizes }
    }

    /// The struct at `index`.
    pub fn get_struct(&self, index: usize) -> (r: Option<&DnaStruct>)
        ensures
            match r {
                Some(s) => index < self.structs.len() && *s == self.structs@[index as int],
                None => index >= self.structs.len(),
            },
    {
        if index < self.structs.len() {
            Some(&self.structs[index])
        } else {
            None
        }
    }

    /// The last struct whose type name is `name`.
    pub fn find_struct(&self, name: &str) -> (r: Option<&DnaStruct>)
        ensures
            self.wf() ==> match r {
                Some(s) => struct_pos(self@.structs, name@) >= 0 && *s == self.structs@[struct_pos(
                    self@.structs,
                    name@,
                )],
                None => struct_pos(self@.structs, name@) == -1,
            },
    {
        proof {
            lemma_struct_pos_bounds(self@.structs, name@);
        }
        match self.struct_index.get(name) {
            Some(index) => {
                if *index < self.structs.len() {
                    Some(&self.structs[*index])
                } else {
                    None
                }
            },
            None => None,
        }
    }

    /// Every struct of a well-formed catalogue is well formed.
    pub proof fn lemma_struct_wf(&self, i: int)
        requires
            self.wf(),
            0 <= i < self.structs.len(),
        ensures
            self.structs@[i].wf(),
    {
    }
}

} // verus!
