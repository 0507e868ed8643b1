//! The command line's logic: its errors, its output lines and its decisions.
use vstd::prelude::*;
use vstd::string::*;
use crate::blendfile::{BlendFile, BlendFileView, addr_pos, block_bytes, lemma_addr_pos_bounds};
use crate::editor::id_name_field;
use crate::sdna::fail_matches;
use crate::writer::{BlendWriter, HeaderWriter, SeedDnaProvider, WriteTemplate, minimal_file, spec_seed};
use crate::block::{block_code_to_string, code_name_bytes};
use crate::error::{CliErrorKind, Dot001Error, Result};
use crate::policy::{data_code_chars, is_data_block_code};
use crate::text::{decimal, lossy_utf8, parse_unsigned, parse_unsigned_bytes, str_eq, usize_to_string};
use crate::traversal::{field_pointer, field_string, fptr, fstr};
use crate::bpath::{debug_quote, debug_text};
use crate::events::{EventFilter, Severity};
use crate::tracer::{DependencyNode, DependencyTracer, TracerModel, default_registry, trace_exact, trace_ok, walk_list};

verus! {

/// Whether `e` is a command line error of kind `k` with message `m`.
pub open spec fn cli_error_with(e: Dot001Error, k: CliErrorKind, m: Seq<char>) -> bool {
    e matches Dot001Error::Cli { message, kind, command: None } && kind == k && message@ == m
}

/// A command line error of the given kind.
pub fn create_cli_error(message: &str, kind: CliErrorKind) -> (r: Dot001Error)
    ensures
        cli_error_with(r, kind, message@),
{
    Dot001Error::cli(message, kind)
}

/// An error for invalid arguments.
pub fn invalid_arguments_error(message: &str) -> (r: Dot001Error)
    ensures
        cli_error_with(r, CliErrorKind::InvalidArguments, message@),
{
    create_cli_error(message, CliErrorKind::InvalidArguments)
}

/// An error for a missing argument.
pub fn missing_argument_error(message: &str) -> (r: Dot001Error)
    ensures
        cli_error_with(r, CliErrorKind::MissingArgument, message@),
{
    create_cli_error(message, CliErrorKind::MissingArgument)
}

/// An error for a command that failed.
pub fn execution_failed_error(message: &str) -> (r: Dot001Error)
    ensures
        cli_error_with(r, CliErrorKind::ExecutionFailed, message@),
{
    create_cli_error(message, CliErrorKind::ExecutionFailed)
}

/// An error for output that could not be formatted.
pub fn output_format_error(message: &str) -> (r: Dot001Error)
    ensures
        cli_error_with(r, CliErrorKind::OutputFormatError, message@),
{
    create_cli_error(message, CliErrorKind::OutputFormatError)
}

/// How a command shows its results.
#[derive(Debug, Clone, Copy, PartialEq, Eq, Structural)]
pub enum OutputFormat {
    Flat,
    Tree,
    Json,
}

/// How a block is shown in lists.
#[derive(Debug, Clone, Copy, PartialEq, Eq, Structural)]
pub enum DisplayTemplate {
    Simple,
    Detailed,
    Compact,
}

/// Display arguments shared by commands.
#[derive(Debug, Clone)]
pub struct DisplayArgs {
    pub template: DisplayTemplate,
    pub show_data: bool,
}

/// Output format arguments shared by commands.
#[derive(Debug, Clone)]
pub struct OutputFormatArgs {
    pub format: OutputFormat,
    pub ascii: bool,
}

/// The JSON output argument.
#[derive(Debug, Clone)]
pub struct JsonArgs {
    pub json: bool,
}

/// The dry-run argument.
#[derive(Debug, Clone)]
pub struct ExecutionArgs {
    pub dry_run: bool,
}

/// One input file.
#[derive(Debug, Clone)]
pub struct FileArgs {
    pub file: String,
}

/// Two input files.
#[derive(Debug, Clone)]
pub struct TwoFileArgs {
    pub file1: String,
    pub file2: String,
}

/// A block given by index or by name.
#[derive(Debug, Clone)]
pub struct BlockIdentifierArgs {
    pub block_index: String,
}

/// Arguments of the watch command.
#[derive(Debug, Clone)]
pub struct WatchArgs {
    pub path: String,
    pub debounce_ms: u64,
    pub move_pair_window_ms: u64,
    pub follow_symlinks: bool,
    pub verbose: bool,
}

/// Output lines of commands, in order.
pub struct OutputUtils;

impl OutputUtils {
    /// Adds already serialized JSON as one line.
    pub fn print_json_str(out: &mut Vec<String>, json: &str)
        ensures
            crate::dna::strings_view(final(out)@) == crate::dna::strings_view(old(out)@).push(json@),
    {
        let ghost pre = crate::dna::strings_view(out@);
        out.push(String::from_str(json));
        assert(crate::dna::strings_view(out@) =~= pre.push(json@));
    }

    /// Adds serialized JSON as one line. When serializing failed (`Err` with the
    /// serializer's message) it adds nothing and gives the line to log instead,
    /// `Failed to serialize <what> to JSON: <message>`.
    pub fn try_print_json(out: &mut Vec<String>, serialized: core::result::Result<String, String>, what: &str) -> (r:
        Option<String>)
        ensures
            match serialized {
                Ok(json) => crate::dna::strings_view(final(out)@) == crate::dna::strings_view(old(out)@).push(json@)
                    && r is None,
                Err(msg) => final(out)@ == old(out)@ && (r matches Some(m) && m@ == "Failed to serialize "@ + what@
                    + " to JSON: "@ + msg@),
            },
    {
        match serialized {
            Ok(json) => {
                Self::print_json_str(out, json.as_str());
                None
            },
            Err(msg) => {
                let mut line = String::from_str("Failed to serialize ");
                line.append(what);
                line.append(" to JSON: ");
                line.append(msg.as_str());
                Some(line)
            },
        }
    }

    /// Adds a header line.
    pub fn print_header(out: &mut Vec<String>, title: &str)
        ensures
            crate::dna::strings_view(final(out)@) == crate::dna::strings_view(old(out)@).push(title@),
    {
        Self::print_json_str(out, title)
    }

    /// Adds one line `  key: value` per item.
    pub fn print_summary(out: &mut Vec<String>, items: &[(&str, String)])
        ensures
            crate::dna::strings_view(final(out)@) == crate::dna::strings_view(old(out)@) + items@.map_values(
                |it: (&str, String)| "  "@ + it.0@ + ": "@ + it.1@,
            ),
    {
        let ghost pre = crate::dna::strings_view(out@);
        let mut i: usize = 0;
        while i < items.len()
            invariant
                i <= items.len(),
                crate::dna::strings_view(out@) == pre + items@.subrange(0, i as int).map_values(
                    |it: (&str, String)| "  "@ + it.0@ + ": "@ + it.1@,
                ),
            decreases items.len() - i,
        {
            let ghost before = crate::dna::strings_view(out@);
            let mut line = String::from_str("  ");
            line.append(items[i].0);
            line.append(": ");
            line.append(items[i].1.as_str());
            let ghost lv = line@;
            out.push(line);
            assert(crate::dna::strings_view(out@) =~= before.push(lv));
            assert(items@.subrange(0, i + 1).map_values(|it: (&str, String)| "  "@ + it.0@ + ": "@ + it.1@)
                =~= items@.subrange(0, i as int).map_values(|it: (&str, String)| "  "@ + it.0@ + ": "@ + it.1@).push(
                lv,
            ));
            i = i + 1;
        }
        assert(items@.subrange(0, items.len() as int) =~= items@);
    }

    /// Adds one line `  item` per item.
    pub fn print_list(out: &mut Vec<String>, items: &[String])
        ensures
            crate::dna::strings_view(final(out)@) == crate::dna::strings_view(old(out)@) + items@.map_values(
                |it: String| "  "@ + it@,
            ),
    {
        let ghost pre = crate::dna::strings_view(out@);
        let mut i: usize = 0;
        while i < items.len()
            invariant
                i <= items.len(),
                crate::dna::strings_view(out@) == pre + items@.subrange(0, i as int).map_values(
                    |it: String| "  "@ + it@,
                ),
            decreases items.len() - i,
        {
            let ghost before = crate::dna::strings_view(out@);
            let mut line = String::from_str("  ");
            line.append(items[i].as_str());
            let ghost lv = line@;
            out.push(line);
            assert(crate::dna::strings_view(out@) =~= before.push(lv));
            assert(items@.subrange(0, i + 1).map_values(|it: String| "  "@ + it@) =~= items@.subrange(
                0,
                i as int,
            ).map_values(|it: String| "  "@ + it@).push(lv));
            i = i + 1;
        }
        assert(items@.subrange(0, items.len() as int) =~= items@);
    }
}

/// Formats trees with ASCII or box-drawing characters.
pub struct TreeFormatter {
    pub ascii: bool,
}

impl TreeFormatter {
    /// A tree formatter using ASCII characters or not.
    pub fn new(ascii: bool) -> (r: Self)
        ensures
            r.ascii == ascii,
    {
        TreeFormatter { ascii }
    }
}

#[verifier::external_type_specification]
#[verifier::external_body]
#[verifier::reject_recursive_types(T)]
pub struct ExTreeNode<T: std::fmt::Display>(text_trees::TreeNode<T>);

/// The rows a text tree shows, in order: each node's depth below the root and
/// its label, a node before its children and the children in order.
pub uninterp spec fn tree_rows(node: text_trees::TreeNode<String>) -> Seq<(nat, Seq<char>)>;

/// The text that `text_trees` lays out for a tree with these rows, in the
/// directory style, with ASCII or with box-drawing characters.
pub uninterp spec fn tree_layout(rows: Seq<(nat, Seq<char>)>, ascii: bool) -> Seq<char>;

/// `rows` one level deeper.
pub open spec fn deeper(rows: Seq<(nat, Seq<char>)>) -> Seq<(nat, Seq<char>)> {
    rows.map_values(|row: (nat, Seq<char>)| (row.0 + 1, row.1))
}

/// A tree of one node labelled `label` (`TreeNode::new`).
#[verifier::external_body]
fn tree_leaf(label: String) -> (r: text_trees::TreeNode<String>)
    ensures
        tree_rows(r) == seq![(0nat, label@)],
{
    text_trees::TreeNode::new(label)
}

/// Adds `child` as the last child of `node` (`TreeNode::push_node`).
#[verifier::external_body]
fn tree_push(node: &mut text_trees::TreeNode<String>, child: text_trees::TreeNode<String>)
    ensures
        tree_rows(*final(node)) == tree_rows(*old(node)) + deeper(tree_rows(child)),
{
    node.push_node(child)
}

/// The text of `node` laid out as a directory tree with ASCII or box-drawing
/// characters (`TreeNode::to_string_with_format` with `TreeFormatting::dir_tree`).
/// It writes into an in-memory cursor over a byte vector, whose writes do not
/// fail, and its labels and characters are valid UTF-8, so it always succeeds;
/// the `Err` arm only carries the error type through.
#[verifier::external_body]
fn tree_text(node: &text_trees::TreeNode<String>, ascii: bool) -> (r: core::result::Result<String, String>)
    ensures
        r is Ok,
        r matches Ok(text) ==> text@ == tree_layout(tree_rows(*node), ascii),
{
    let chars = if ascii { text_trees::FormatCharacters::ascii() } else { text_trees::FormatCharacters::box_chars() };
    node.to_string_with_format(&text_trees::TreeFormatting::dir_tree(chars)).map_err(|e| e.to_string())
}

/// Whether `c` has the Unicode `White_Space` property (what `char::is_whitespace` tests).
pub open spec fn unicode_whitespace(c: char) -> bool {
    let u = c as u32;
    ||| 0x9 <= u <= 0xD
    ||| u == 0x20
    ||| u == 0x85
    ||| u == 0xA0
    ||| u == 0x1680
    ||| 0x2000 <= u <= 0x200A
    ||| u == 0x2028
    ||| u == 0x2029
    ||| u == 0x202F
    ||| u == 0x205F
    ||| u == 0x3000
}

/// `s` without its trailing whitespace.
pub open spec fn trimmed_end(s: Seq<char>) -> Seq<char>
    decreases s.len(),
{
    if s.len() > 0 && unicode_whitespace(s.last()) {
        trimmed_end(s.drop_last())
    } else {
        s
    }
}

/// `s` without its trailing whitespace (`str::trim_end`, which removes the
/// trailing characters of the Unicode `White_Space` property).
#[verifier::external_body]
fn trim_end_text(s: &str) -> (r: String)
    ensures
        r@ == trimmed_end(s@),
{
    s.trim_end().to_string()
}

impl TreeFormatter {
    /// The text of `tree` laid out as a directory tree, with ASCII characters
    /// when this formatter is ASCII (see `tree_layout`).
    pub fn format_tree(&self, tree: &text_trees::TreeNode<String>) -> (r: Result<String>)
        ensures
            r matches Ok(text) && text@ == tree_layout(tree_rows(*tree), self.ascii),
    {
        match tree_text(tree, self.ascii) {
            Ok(text) => Ok(text),
            Err(msg) => Err(output_format_error(msg.as_str())),
        }
    }

    /// Adds the laid-out text of `tree` without its trailing whitespace as one
    /// line. The layout does not fail, so there is never a line to log
    /// (`Failed to format tree: <message>` where it would).
    pub fn print_tree(&self, tree: &text_trees::TreeNode<String>, out: &mut Vec<String>) -> (r: Option<String>)
        ensures
            r is None,
            crate::dna::strings_view(final(out)@) == crate::dna::strings_view(old(out)@).push(
                trimmed_end(tree_layout(tree_rows(*tree), self.ascii)),
            ),
    {
        match self.format_tree(tree) {
            Ok(text) => {
                let shown = trim_end_text(text.as_str());
                OutputUtils::print_json_str(out, shown.as_str());
                None
            },
            Err(e) => {
                let mut line = String::from_str("Failed to format tree: ");
                let detail = match &e {
                    Dot001Error::Cli { message, .. } => message.clone(),
                    _ => String::new(),
                };
                line.append(detail.as_str());
                proof {
                    reveal_strlit("Failed to format tree: ");
                }
                Some(line)
            },
        }
    }
}

/// The label of node `n` in a shown dependency tree: the block's listing text
/// when the block exists, else `Block <index> (<code>)`.
pub open spec fn node_label(f: BlendFileView, n: DependencyNode, template: DisplayTemplate) -> Seq<char> {
    if n.block_index < f.blocks.len() {
        spec_block_display(f, n.block_index as int, template)
    } else {
        "Block "@ + decimal(n.block_index as nat) + " ("@ + n.block_code@ + ")"@
    }
}

/// The rows shown for the dependency tree at `n`: its label, then the rows of
/// each child that is not left out (see `spec_filter_block`), one level deeper.
pub open spec fn shown_rows(f: BlendFileView, n: DependencyNode, show_data: bool, template: DisplayTemplate) -> Seq<
    (nat, Seq<char>),
>
    decreases n, 1nat,
{
    seq![(0nat, node_label(f, n, template))] + deeper(shown_children_rows(f, n.children@, show_data, template))
}

/// The rows of the trees in `s` that are not left out, one after the other.
pub open spec fn shown_children_rows(
    f: BlendFileView,
    s: Seq<DependencyNode>,
    show_data: bool,
    template: DisplayTemplate,
) -> Seq<(nat, Seq<char>)>
    decreases s, 0nat,
{
    if s.len() == 0 {
        Seq::empty()
    } else {
        let rest = shown_children_rows(f, s.drop_last(), show_data, template);
        if spec_filter_block(f, s.last().block_index as int, show_data) {
            rest
        } else {
            rest + shown_rows(f, s.last(), show_data, template)
        }
    }
}

/// The text tree of the dependency tree at `node` (see `shown_rows`).
pub fn build_text_tree(
    node: &DependencyNode,
    blend_file: &BlendFile,
    show_data: bool,
    template: DisplayTemplate,
) -> (r: text_trees::TreeNode<String>)
    ensures
        tree_rows(r) == shown_rows(blend_file@, *node, show_data, template),
    decreases *node,
{
    let label = if node.block_index < blend_file.blocks_len() {
        block_display(blend_file, node.block_index, template)
    } else {
        let mut l = String::from_str("Block ");
        let idx = usize_to_string(node.block_index);
        l.append(idx.as_str());
        l.append(" (");
        l.append(node.block_code.as_str());
        l.append(")");
        l
    };
    let ghost lv = label@;
    let mut tree = tree_leaf(label);
    let mut k: usize = 0;
    while k < node.children.len()
        invariant
            k <= node.children.len(),
            lv == node_label(blend_file@, *node, template),
            tree_rows(tree) == seq![(0nat, lv)] + deeper(
                shown_children_rows(blend_file@, node.children@.subrange(0, k as int), show_data, template),
            ),
        decreases node.children.len() - k,
    {
        let ghost sub = node.children@.subrange(0, k as int);
        assert(node.children@.subrange(0, k + 1).drop_last() =~= sub);
        let child = &node.children[k];
        if !should_filter_block(child.block_index, blend_file, show_data) {
            let t = build_text_tree(child, blend_file, show_data, template);
            let ghost before = tree_rows(tree);
            tree_push(&mut tree, t);
            proof {
                let a = shown_children_rows(blend_file@, sub, show_data, template);
                let b = shown_rows(blend_file@, *child, show_data, template);
                assert(deeper(a + b) =~= deeper(a) + deeper(b));
            }
        }
        k = k + 1;
    }
    assert(node.children@.subrange(0, node.children.len() as int) =~= node.children@);
    tree
}

/// Shows collections of items.
pub struct CollectionFormatter;

impl CollectionFormatter {
    /// Adds the items as an indented flat list.
    pub fn print_flat(out: &mut Vec<String>, items: &[String]) -> (r: Result<()>)
        ensures
            r is Ok,
            crate::dna::strings_view(final(out)@) == crate::dna::strings_view(old(out)@) + items@.map_values(
                |it: String| "  "@ + it@,
            ),
    {
        OutputUtils::print_list(out, items);
        Ok(())
    }
}

/// Showing a command's data in each output format.
///
/// Each form is a function of the handler, the data and the lines already
/// written: what it returns and the lines it leaves are named by
/// `flat_output`, `tree_output` and `json_output`.
pub trait OutputFormatHandler<T> {
    /// What the flat form returns and the lines it leaves after `before`.
    spec fn flat_output(&self, data: &T, before: Seq<String>) -> (Result<()>, Seq<String>);

    /// What the tree form returns and the lines it leaves after `before`.
    spec fn tree_output(&self, data: &T, before: Seq<String>, ascii: bool) -> (Result<()>, Seq<String>);

    /// What the JSON form returns and the lines it leaves after `before`.
    spec fn json_output(&self, data: &T, before: Seq<String>) -> (Result<()>, Seq<String>);

    /// Adds the flat form of the data.
    fn handle_flat(&self, data: &T, out: &mut Vec<String>) -> (r: Result<()>)
        ensures
            (r, final(out)@) == self.flat_output(data, old(out)@),
    ;

    /// Adds the tree form of the data.
    fn handle_tree(&self, data: &T, out: &mut Vec<String>, ascii: bool) -> (r: Result<()>)
        ensures
            (r, final(out)@) == self.tree_output(data, old(out)@, ascii),
    ;

    /// Adds the JSON form of the data.
    fn handle_json(&self, data: &T, out: &mut Vec<String>) -> (r: Result<()>)
        ensures
            (r, final(out)@) == self.json_output(data, old(out)@),
    ;

    /// Adds the data in the chosen format: the flat, tree or JSON form.
    fn handle_output(&self, data: &T, format: OutputFormat, out: &mut Vec<String>, ascii: bool) -> (r: Result<()>)
        ensures
            (r, final(out)@) == match format {
                OutputFormat::Flat => self.flat_output(data, old(out)@),
                OutputFormat::Tree => self.tree_output(data, old(out)@, ascii),
                OutputFormat::Json => self.json_output(data, old(out)@),
            },
    {
        match format {
            OutputFormat::Flat => self.handle_flat(data, out),
            OutputFormat::Tree => self.handle_tree(data, out, ascii),
            OutputFormat::Json => self.handle_json(data, out),
        }
    }
}

/// A titled list of key-value lines.
pub struct CommandSummary<'a> {
    pub title: &'a str,
    pub items: Vec<(&'a str, String)>,
}

impl<'a> CommandSummary<'a> {
    /// A summary with this title and no items.
    pub fn new(title: &'a str) -> (r: Self)
        ensures
            r.title == title,
            r.items@.len() == 0,
    {
        CommandSummary { title, items: Vec::new() }
    }

    /// This summary with one more item.
    pub fn add_item(self, key: &'a str, value: String) -> (r: Self)
        ensures
            r.title == self.title,
            r.items@ == self.items@.push((key, value)),
    {
        let mut items = self.items;
        items.push((key, value));
        CommandSummary { title: self.title, items }
    }

    /// This summary with one more item holding a count in decimal.
    pub fn add_count(self, key: &'a str, count: usize) -> (r: Self)
        ensures
            r.title == self.title,
            r.items@.len() == self.items@.len() + 1,
            r.items@.subrange(0, self.items@.len() as int) == self.items@,
            r.items@.last().0 == key,
            r.items@.last().1@ == decimal(count as nat),
    {
        let s = usize_to_string(count);
        let r = self.add_item(key, s);
        assert(r.items@.subrange(0, r.items@.len() - 1) =~= r.items@.drop_last());
        r
    }

    /// Adds the title, the items as `  key: value` lines and an empty line.
    pub fn print(self, out: &mut Vec<String>)
        ensures
            crate::dna::strings_view(final(out)@) == crate::dna::strings_view(old(out)@).push(self.title@)
                + self.items@.map_values(|it: (&str, String)| "  "@ + it.0@ + ": "@ + it.1@) + seq![
                Seq::<char>::empty(),
            ],
    {
        OutputUtils::print_header(out, self.title);
        OutputUtils::print_summary(out, self.items.as_slice());
        let ghost before = crate::dna::strings_view(out@);
        out.push(String::new());
        assert(crate::dna::strings_view(out@) =~= before + seq![Seq::<char>::empty()]);
    }
}

// ---------------------------------------------------------------- block selection

/// The text of the code of block `i` of `f` (such as `OB` or `DATA`).
pub open spec fn code_text(f: BlendFileView, i: int) -> Seq<char> {
    lossy_utf8(code_name_bytes(f.blocks[i].header.code@))
}

/// Whether block `i` of `f` is left out of listings: a DATA block while DATA
/// blocks are not shown.
pub open spec fn spec_filter_block(f: BlendFileView, i: int, show_data: bool) -> bool {
    !show_data && 0 <= i < f.blocks.len() && code_text(f, i) == data_code_chars()
}

/// Whether block `block_index` is left out of listings (see `spec_filter_block`).
pub fn should_filter_block(block_index: usize, blend_file: &BlendFile, show_data: bool) -> (r: bool)
    ensures
        r == spec_filter_block(blend_file@, block_index as int, show_data),
{
    if show_data {
        return false;
    }
    match blend_file.get_block(block_index) {
        Some(b) => {
            let code = block_code_to_string(b.header.code);
            is_data_block_code(code.as_str())
        },
        None => false,
    }
}

/// The blocks of `deps` that listings keep, in order.
pub open spec fn kept_deps(f: BlendFileView, deps: Seq<usize>, show_data: bool) -> Seq<usize>
    decreases deps.len(),
{
    if deps.len() == 0 {
        Seq::empty()
    } else if spec_filter_block(f, deps.last() as int, show_data) {
        kept_deps(f, deps.drop_last(), show_data)
    } else {
        kept_deps(f, deps.drop_last(), show_data).push(deps.last())
    }
}

/// The blocks of `deps` that listings keep (see `kept_deps`).
pub fn filter_dependencies(deps: &[usize], blend_file: &BlendFile, show_data: bool) -> (r: Vec<usize>)
    ensures
        r@ == kept_deps(blend_file@, deps@, show_data),
{
    let mut out: Vec<usize> = Vec::new();
    let mut i: usize = 0;
    while i < deps.len()
        invariant
            i <= deps.len(),
            out@ == kept_deps(blend_file@, deps@.subrange(0, i as int), show_data),
        decreases deps.len() - i,
    {
        assert(deps@.subrange(0, i + 1).drop_last() =~= deps@.subrange(0, i as int));
        if !should_filter_block(deps[i], blend_file, show_data) {
            out.push(deps[i]);
        }
        i = i + 1;
    }
    assert(deps@.subrange(0, deps.len() as int) =~= deps@);
    out
}

// ---------------------------------------------------------------- library links

/// The name of an ID without its two-character type prefix.
pub open spec fn skip_prefix(s: Seq<char>) -> Seq<char> {
    if s.len() >= 2 {
        s.subrange(2, s.len() as int)
    } else {
        Seq::empty()
    }
}

/// An ID name without its two-character type prefix (`chars().skip(2)`).
fn skip_two_chars(s: &str) -> (r: String)
    ensures
        r@ == skip_prefix(s@),
{
    let n = s.unicode_len();
    if n >= 2 {
        String::from_str(s.substring_char(2, n))
    } else {
        String::new()
    }
}

/// The name and library pointer of an ID block.
pub struct IdLinkInfo {
    /// The name without its type prefix.
    pub name: String,
    /// The address of the library the ID comes from; 0 for a local ID.
    pub lib_ptr: u64,
}

/// Reads the name and library pointer of ID block `block_index`.
///
/// Fails with an `ExecutionFailed` error when the `ID.name` or `ID.lib` field
/// cannot be read.
pub fn read_id_link_info(blend_file: &BlendFile, block_index: usize) -> (r: Result<IdLinkInfo>)
    requires
        block_index < blend_file@.blocks.len(),
    ensures
        match r {
            Ok(info) => fstr(blend_file@, block_index as int, "ID"@, "name"@) matches Some(n) && info.name@
                == skip_prefix(n) && fptr(blend_file@, block_index as int, "ID"@, "lib"@) == Some(info.lib_ptr),
            Err(e) => (fstr(blend_file@, block_index as int, "ID"@, "name"@) is None || fptr(
                blend_file@,
                block_index as int,
                "ID"@,
                "lib"@,
            ) is None) && crate::error::is_cli_error(e, CliErrorKind::ExecutionFailed),
        },
{
    let full_name = match field_string(blend_file, block_index, "ID", "name") {
        Some(n) => n,
        None => {
            return Err(execution_failed_error("Error reading ID name"));
        },
    };
    let name = skip_two_chars(full_name.as_str());
    let lib_ptr = match field_pointer(blend_file, block_index, "ID", "lib") {
        Some(p) => p,
        None => {
            return Err(execution_failed_error("Error reading lib pointer"));
        },
    };
    Ok(IdLinkInfo { name, lib_ptr })
}

/// The collections (`GR` blocks) among the first `n` blocks of `f` whose
/// `ID.name` can be read, with their names without prefix, in file order.
pub open spec fn collections_in(f: BlendFileView, n: int) -> Seq<(usize, Seq<char>)>
    decreases n,
{
    if n <= 0 {
        Seq::empty()
    } else {
        let rest = collections_in(f, n - 1);
        let i = n - 1;
        if code_text(f, i) == "GR"@ && fstr(f, i, "ID"@, "name"@) is Some {
            rest.push((i as usize, skip_prefix(fstr(f, i, "ID"@, "name"@)->Some_0)))
        } else {
            rest
        }
    }
}

/// Index and name of each item, the name by its characters.
pub open spec fn named_view(s: Seq<(usize, String)>) -> Seq<(usize, Seq<char>)> {
    s.map_values(|p: (usize, String)| (p.0, p.1@))
}

/// The collections of a library file (see `collections_in`).
pub fn find_collections_in_library(lib_blend_file: &BlendFile) -> (r: Vec<(usize, String)>)
    ensures
        named_view(r@) == collections_in(lib_blend_file@, lib_blend_file@.blocks.len() as int),
{
    let mut out: Vec<(usize, String)> = Vec::new();
    let n = lib_blend_file.blocks_len();
    let mut i: usize = 0;
    while i < n
        invariant
            i <= n,
            n == lib_blend_file@.blocks.len(),
            named_view(out@) == collections_in(lib_blend_file@, i as int),
        decreases n - i,
    {
        let ghost pre = named_view(out@);
        let code = match lib_blend_file.get_block(i) {
            Some(b) => block_code_to_string(b.header.code),
            None => String::new(),
        };
        proof {
            reveal_strlit("GR");
        }
        if str_eq(code.as_str(), "GR") {
            match field_string(lib_blend_file, i, "ID", "name") {
                Some(name) => {
                    let clean = skip_two_chars(name.as_str());
                    let ghost cv = clean@;
                    out.push((i, clean));
                    assert(named_view(out@) =~= pre.push((i, cv)));
                },
                None => {},
            }
        }
        i = i + 1;
    }
    out
}

/// Which collection a link is set to, and when that fails: the named target
/// when a collection has that name (else `InvalidArguments`); with no target,
/// the only collection (none: `ExecutionFailed`; several: `MissingArgument`).
pub open spec fn spec_target_collection(available: Seq<(usize, Seq<char>)>, target: Option<Seq<char>>) -> core::result::Result<
    Seq<char>,
    CliErrorKind,
> {
    match target {
        Some(t) => if exists|k: int| 0 <= k < available.len() && #[trigger] available[k].1 == t {
            Ok(t)
        } else {
            Err(CliErrorKind::InvalidArguments)
        },
        None => if available.len() == 0 {
            Err(CliErrorKind::ExecutionFailed)
        } else if available.len() == 1 {
            Ok(available[0].1)
        } else {
            Err(CliErrorKind::MissingArgument)
        },
    }
}

/// Picks the collection to link to (see `spec_target_collection`).
pub fn determine_target_collection(available_collections: &[(usize, String)], target_name: Option<String>) -> (r:
    Result<String>)
    ensures
        match spec_target_collection(
            named_view(available_collections@),
            match target_name {
                Some(t) => Some(t@),
                None => None,
            },
        ) {
            Ok(name) => r matches Ok(s) && s@ == name,
            Err(k) => r matches Err(e) && crate::error::is_cli_error(e, k),
        },
{
    let ghost av = named_view(available_collections@);
    match target_name {
        Some(target) => {
            let mut k: usize = 0;
            while k < available_collections.len()
                invariant
                    k <= available_collections.len(),
                    av == named_view(available_collections@),
                    target_name == Some(target),
                    forall|j: int| 0 <= j < k ==> av[j].1 != target@,
                decreases available_collections.len() - k,
            {
                if str_eq(available_collections[k].1.as_str(), target.as_str()) {
                    assert(av.len() == available_collections@.len());
                    assert(av[k as int].1 == target@);
                    assert(exists|j: int| 0 <= j < av.len() && #[trigger] av[j].1 == target@);
                    return Ok(target);
                }
                k = k + 1;
            }
            let mut msg = String::from_str("Target collection '");
            msg.append(target.as_str());
            msg.append("' not found in library");
            Err(invalid_arguments_error(msg.as_str()))
        },
        None => {
            if available_collections.len() == 0 {
                Err(execution_failed_error("No collections found in library"))
            } else if available_collections.len() == 1 {
                Ok(available_collections[0].1.clone())
            } else {
                let mut msg = String::from_str("Multiple collections available (");
                let count = usize_to_string(available_collections.len());
                msg.append(count.as_str());
                msg.append("), specify --target-name");
                Err(missing_argument_error(msg.as_str()))
            }
        },
    }
}

/// Appends `src[start..end]` to `out`.
fn push_range(out: &mut Vec<u8>, src: &[u8], start: usize, end: usize)
    requires
        start <= end <= src.len(),
    ensures
        final(out)@ == old(out)@ + src@.subrange(start as int, end as int),
{
    let ghost pre = out@;
    let mut k = start;
    while k < end
        invariant
            start <= k <= end <= src.len(),
            out@ == pre + src@.subrange(start as int, k as int),
        decreases end - k,
    {
        out.push(src[k]);
        assert(src@.subrange(start as int, k + 1) =~= src@.subrange(start as int, k as int).push(src@[k as int]));
        k = k + 1;
    }
}

/// Appends `count` NUL bytes to `out`.
fn push_zeros(out: &mut Vec<u8>, count: usize)
    ensures
        final(out)@ == old(out)@ + Seq::new(count as nat, |k: int| 0u8),
{
    let ghost pre = out@;
    let mut k: usize = 0;
    while k < count
        invariant
            k <= count,
            out@ == pre + Seq::new(k as nat, |j: int| 0u8),
        decreases count - k,
    {
        out.push(0u8);
        assert(Seq::new((k + 1) as nat, |j: int| 0u8) =~= Seq::new(k as nat, |j: int| 0u8).push(0u8));
        k = k + 1;
    }
}

/// The 258 bytes written into `ID.name` for a collection named `target`: the
/// UTF-8 bytes of `GR` and the name, cut to 257 bytes, padded with NULs.
pub open spec fn collection_id_name(target: Seq<char>) -> Seq<u8> {
    let b = vstd::utf8::encode_utf8("GR"@ + target);
    let n: int = if b.len() < 257 {
        b.len() as int
    } else {
        257
    };
    b.subrange(0, n) + Seq::new((258 - n) as nat, |k: int| 0u8)
}

/// The data of block `i` of `f` with `ID.name` set to `collection_id_name(target)`;
/// `None` when the block does not exist, there is no `ID.name` field, or 258
/// bytes from the field's offset do not fit in the block.
pub open spec fn reconstructed_block(f: BlendFileView, i: int, target: Seq<char>) -> Option<Seq<u8>> {
    if 0 <= i < f.blocks.len() {
        match id_name_field(f) {
            Some(fd) => {
                let d = block_bytes(f.data, f.blocks[i]);
                if fd.offset + 258 <= d.len() {
                    Some(
                        d.subrange(0, fd.offset as int) + collection_id_name(target) + d.subrange(
                            fd.offset + 258,
                            d.len() as int,
                        ),
                    )
                } else {
                    None
                }
            },
            None => None,
        }
    } else {
        None
    }
}

/// The new data of block `block_index` once its `ID.name` names collection
/// `target_name` (see `reconstructed_block`); the caller writes it back at the
/// block's data offset.
///
/// Fails with `InvalidBlockIndex` for a block that does not exist and with
/// `ExecutionFailed` otherwise.
pub fn reconstruct_id_name(blend_file: &BlendFile, block_index: usize, target_name: &str) -> (r: Result<Vec<u8>>)
    ensures
        match r {
            Ok(v) => reconstructed_block(blend_file@, block_index as int, target_name@) == Some(v@),
            Err(e) => reconstructed_block(blend_file@, block_index as int, target_name@) is None && (block_index
                >= blend_file@.blocks.len() ==> crate::error::is_blend_error(
                e,
                crate::error::BlendFileErrorKind::InvalidBlockIndex,
            )) && (block_index < blend_file@.blocks.len() ==> crate::error::is_cli_error(
                e,
                CliErrorKind::ExecutionFailed,
            )),
        },
{
    let data = match blend_file.read_block_data(block_index) {
        Ok(d) => d,
        Err(e) => {
            return Err(e);
        },
    };
    let offset = {
        let view = match blend_file.create_field_view(data.as_slice()) {
            Ok(v) => v,
            Err(_) => {
                return Err(execution_failed_error("ID struct not found in DNA"));
            },
        };
        match view.find_field("ID", "name") {
            Ok(f) => f.offset,
            Err(_) => {
                return Err(execution_failed_error("Field 'name' not found in ID struct"));
            },
        }
    };
    if offset > data.len() || data.len() - offset < 258 {
        return Err(execution_failed_error("Name field extends beyond block data"));
    }
    let mut full = String::from_str("GR");
    full.append(target_name);
    proof {
        reveal_strlit("GR");
    }
    let bytes = full.as_str().as_bytes();
    let n: usize = if bytes.len() < 257 {
        bytes.len()
    } else {
        257
    };
    let mut out: Vec<u8> = Vec::new();
    push_range(&mut out, data.as_slice(), 0, offset);
    push_range(&mut out, bytes, 0, n);
    push_zeros(&mut out, 258 - n);
    push_range(&mut out, data.as_slice(), offset + 258, data.len());
    assert(out@ =~= data@.subrange(0, offset as int) + collection_id_name(target_name@) + data@.subrange(
        offset + 258,
        data@.len() as int,
    ));
    Ok(out)
}

/// A link from an ID block to a library: the ID's name without its prefix, the
/// `Library` block that `ID.lib` points to, and the path stored in that block.
pub struct LibraryLink {
    pub name: String,
    pub lib_index: usize,
    pub lib_filepath: String,
}

/// What reading the library link of block `i` gives: `None` for a local ID
/// (its `ID.lib` is null); otherwise the name without prefix, the index of the
/// block at `ID.lib` and that block's `Library.name`. Every failure is
/// `ExecutionFailed`: an unreadable `ID.name` or `ID.lib`, a pointer to no
/// block, an unreadable `Library.name`.
pub open spec fn spec_library_link(f: BlendFileView, i: int) -> core::result::Result<
    Option<(Seq<char>, int, Seq<char>)>,
    CliErrorKind,
> {
    match (fstr(f, i, "ID"@, "name"@), fptr(f, i, "ID"@, "lib"@)) {
        (Some(n), Some(p)) => if p == 0 {
            Ok(None)
        } else {
            let li = addr_pos(f.blocks, p);
            if li < 0 {
                Err(CliErrorKind::ExecutionFailed)
            } else {
                match fstr(f, li, "Library"@, "name"@) {
                    Some(path) => Ok(Some((skip_prefix(n), li, path))),
                    None => Err(CliErrorKind::ExecutionFailed),
                }
            }
        },
        _ => Err(CliErrorKind::ExecutionFailed),
    }
}

/// Reads the library link of ID block `block_index` (see `spec_library_link`).
pub fn read_library_link(blend_file: &BlendFile, block_index: usize) -> (r: Result<Option<LibraryLink>>)
    requires
        block_index < blend_file@.blocks.len(),
    ensures
        match spec_library_link(blend_file@, block_index as int) {
            Ok(None) => r matches Ok(None),
            Ok(Some((n, li, path))) => r matches Ok(Some(l)) && l.name@ == n && l.lib_index == li
                && l.lib_filepath@ == path,
            Err(k) => r matches Err(e) && crate::error::is_cli_error(e, k),
        },
{
    let info = match read_id_link_info(blend_file, block_index) {
        Ok(i) => i,
        Err(e) => {
            return Err(e);
        },
    };
    if info.lib_ptr == 0 {
        return Ok(None);
    }
    let lib_index = match blend_file.find_block_by_address(info.lib_ptr) {
        Some(li) => li,
        None => {
            return Err(execution_failed_error("Lib pointer does not point to a valid block"));
        },
    };
    proof {
        lemma_addr_pos_bounds(blend_file@.blocks, info.lib_ptr);
    }
    let lib_filepath = match field_string(blend_file, lib_index, "Library", "name") {
        Some(p) => p,
        None => {
            return Err(execution_failed_error("Error reading library name field"));
        },
    };
    Ok(Some(LibraryLink { name: info.name, lib_index, lib_filepath }))
}

/// What relinking gives: with a dry run, the collection it would link to;
/// otherwise also the block's new data and the file offset it is written at.
pub enum LibLinkOutcome {
    DryRun { target: String },
    Rewritten { target: String, data: Vec<u8>, data_offset: u64 },
}

/// Relinks ID block `block_index` to one of the `available` collections of its
/// library (those `find_collections_in_library` gives): picks the target as
/// `determine_target_collection` does, then, unless `dry_run`, gives the new
/// data of the block with its `ID.name` naming that collection (see
/// `reconstructed_block`) and the offset of the block's data.
pub fn cmd_lib_link(
    blend_file: &BlendFile,
    block_index: usize,
    available: &[(usize, String)],
    target_name: Option<String>,
    dry_run: bool,
) -> (r: Result<LibLinkOutcome>)
    requires
        block_index < blend_file@.blocks.len(),
    ensures
        match spec_target_collection(
            named_view(available@),
            match target_name {
                Some(t) => Some(t@),
                None => None,
            },
        ) {
            Err(k) => r matches Err(e) && crate::error::is_cli_error(e, k),
            Ok(t) => if dry_run {
                r matches Ok(LibLinkOutcome::DryRun { target }) && target@ == t
            } else {
                match reconstructed_block(blend_file@, block_index as int, t) {
                    Some(v) => r matches Ok(LibLinkOutcome::Rewritten { target, data, data_offset }) && target@ == t
                        && data@ == v && data_offset == blend_file@.blocks[block_index as int].data_offset,
                    None => r matches Err(e) && crate::error::is_cli_error(e, CliErrorKind::ExecutionFailed),
                }
            },
        },
{
    let target = match determine_target_collection(available, target_name) {
        Ok(t) => t,
        Err(e) => {
            return Err(e);
        },
    };
    if dry_run {
        return Ok(LibLinkOutcome::DryRun { target });
    }
    let data = match reconstruct_id_name(blend_file, block_index, target.as_str()) {
        Ok(d) => d,
        Err(e) => {
            return Err(e);
        },
    };
    let data_offset = match blend_file.get_block(block_index) {
        Some(b) => b.data_offset,
        None => 0,
    };
    Ok(LibLinkOutcome::Rewritten { target, data, data_offset })
}

// ---------------------------------------------------------------- building files

/// Builds a minimal file (header, `DNA1` block, `ENDB`) that carries the
/// catalogue of the seed file whose bytes are `seed_data`.
///
/// An empty seed or output path is refused with `MissingArgument` first.
pub fn cmd_build_blend(seed_path: &str, out_path: &str, seed_data: Vec<u8>) -> (r: Result<Vec<u8>>)
    ensures
        seed_path@.len() == 0 ==> (r matches Err(e) && cli_error_with(
            e,
            CliErrorKind::MissingArgument,
            "Missing --seed path"@,
        )),
        seed_path@.len() > 0 && out_path@.len() == 0 ==> (r matches Err(e) && cli_error_with(
            e,
            CliErrorKind::MissingArgument,
            "Missing --out path"@,
        )),
        seed_path@.len() > 0 && out_path@.len() > 0 ==> match spec_seed(seed_data@) {
            Ok(m) => r matches Ok(v) && v@ == minimal_file(m.raw),
            Err(k) => r matches Err(e) && fail_matches(e, k),
        },
{
    if seed_path.unicode_len() == 0 {
        return Err(missing_argument_error("Missing --seed path"));
    }
    if out_path.unicode_len() == 0 {
        return Err(missing_argument_error("Missing --out path"));
    }
    let provider = match SeedDnaProvider::from_seed_bytes(seed_data) {
        Ok(p) => p,
        Err(e) => {
            return Err(e);
        },
    };
    let writer = BlendWriter { header: HeaderWriter };
    Ok(writer.write_with_seed(WriteTemplate::Minimal, &provider))
}

// ---------------------------------------------------------------- listings

/// The text of block `i` in listings: `Block <i> (<code>)` in the simple
/// form; the detailed form adds `, <size> bytes`; the compact form is
/// `<i>:<code>`.
pub open spec fn block_display_text(i: nat, code: Seq<char>, size: nat, template: DisplayTemplate) -> Seq<char> {
    match template {
        DisplayTemplate::Simple => "Block "@ + decimal(i) + " ("@ + code + ")"@,
        DisplayTemplate::Detailed => "Block "@ + decimal(i) + " ("@ + code + "), "@ + decimal(size) + " bytes"@,
        DisplayTemplate::Compact => decimal(i) + ":"@ + code,
    }
}

/// The listing text of block `i` of `f`.
pub open spec fn spec_block_display(f: BlendFileView, i: int, template: DisplayTemplate) -> Seq<char> {
    block_display_text(i as nat, code_text(f, i), f.blocks[i].header.size as nat, template)
}

/// The listing text of block `block_index` (see `block_display_text`).
pub fn block_display(blend_file: &BlendFile, block_index: usize, template: DisplayTemplate) -> (r: String)
    requires
        block_index < blend_file@.blocks.len(),
    ensures
        r@ == spec_block_display(blend_file@, block_index as int, template),
{
    let b = match blend_file.get_block(block_index) {
        Some(b) => *b,
        None => {
            return String::new();
        },
    };
    let code = block_code_to_string(b.header.code);
    let index = usize_to_string(block_index);
    match template {
        DisplayTemplate::Simple => {
            let mut out = String::from_str("Block ");
            out.append(index.as_str());
            out.append(" (");
            out.append(code.as_str());
            out.append(")");
            out
        },
        DisplayTemplate::Detailed => {
            let size = usize_to_string(b.header.size as usize);
            let mut out = String::from_str("Block ");
            out.append(index.as_str());
            out.append(" (");
            out.append(code.as_str());
            out.append("), ");
            out.append(size.as_str());
            out.append(" bytes");
            out
        },
        DisplayTemplate::Compact => {
            let mut out = index;
            out.append(":");
            out.append(code.as_str());
            out
        },
    }
}

/// The lines listing the first `n` blocks of `f` that are shown: two spaces
/// and the block's text each.
pub open spec fn block_listing(f: BlendFileView, n: int, show_data: bool, template: DisplayTemplate) -> Seq<Seq<char>>
    decreases n,
{
    if n <= 0 {
        Seq::empty()
    } else if spec_filter_block(f, n - 1, show_data) {
        block_listing(f, n - 1, show_data, template)
    } else {
        block_listing(f, n - 1, show_data, template).push("  "@ + spec_block_display(f, n - 1, template))
    }
}

/// Adds the block list of a file: `Blocks in <path>:`, then a line per shown
/// block (see `block_listing`).
pub fn cmd_blocks(
    blend_file: &BlendFile,
    file_path: &str,
    show_data: bool,
    template: DisplayTemplate,
    out: &mut Vec<String>,
)
    ensures
        crate::dna::strings_view(final(out)@) == crate::dna::strings_view(old(out)@).push(
            "Blocks in "@ + file_path@ + ":"@,
        ) + block_listing(blend_file@, blend_file@.blocks.len() as int, show_data, template),
{
    let mut title = String::from_str("Blocks in ");
    title.append(file_path);
    title.append(":");
    let ghost t = title@;
    let ghost pre = crate::dna::strings_view(out@);
    out.push(title);
    assert(crate::dna::strings_view(out@) =~= pre.push(t) + block_listing(blend_file@, 0, show_data, template));
    let n = blend_file.blocks_len();
    let mut i: usize = 0;
    while i < n
        invariant
            i <= n,
            n == blend_file@.blocks.len(),
            crate::dna::strings_view(out@) == pre.push(t) + block_listing(blend_file@, i as int, show_data, template),
        decreases n - i,
    {
        if !should_filter_block(i, blend_file, show_data) {
            let d = block_display(blend_file, i, template);
            let mut line = String::from_str("  ");
            line.append(d.as_str());
            let ghost lv = line@;
            let ghost before = crate::dna::strings_view(out@);
            out.push(line);
            assert(crate::dna::strings_view(out@) =~= before.push(lv));
        }
        i = i + 1;
    }
}

/// The lines listing dependencies: `  No dependencies found` when there are
/// none, else `  Found <n> dependencies:` and a numbered line per block.
pub open spec fn dependency_listing(f: BlendFileView, deps: Seq<usize>, template: DisplayTemplate) -> Seq<Seq<char>> {
    if deps.len() == 0 {
        seq!["  No dependencies found"@]
    } else {
        seq!["  Found "@ + decimal(deps.len()) + " dependencies:"@] + Seq::new(
            deps.len(),
            |k: int| "    "@ + decimal((k + 1) as nat) + ": "@ + spec_block_display(f, deps[k] as int, template),
        )
    }
}

/// The lines listing dependencies `deps` of a block (see `dependency_listing`).
pub fn dependency_lines(blend_file: &BlendFile, deps: &[usize], template: DisplayTemplate) -> (r: Vec<String>)
    requires
        forall|k: int| 0 <= k < deps.len() ==> #[trigger] deps[k] < blend_file@.blocks.len(),
    ensures
        crate::dna::strings_view(r@) == dependency_listing(blend_file@, deps@, template),
{
    let mut out: Vec<String> = Vec::new();
    if deps.len() == 0 {
        out.push(String::from_str("  No dependencies found"));
        assert(crate::dna::strings_view(out@) =~= seq!["  No dependencies found"@]);
        return out;
    }
    let mut head = String::from_str("  Found ");
    let count = usize_to_string(deps.len());
    head.append(count.as_str());
    head.append(" dependencies:");
    let ghost hv = head@;
    out.push(head);
    let ghost body = Seq::new(
        deps@.len(),
        |k: int| "    "@ + decimal((k + 1) as nat) + ": "@ + spec_block_display(blend_file@, deps@[k] as int, template),
    );
    let mut k: usize = 0;
    while k < deps.len()
        invariant
            k <= deps.len(),
            forall|j: int| 0 <= j < deps.len() ==> #[trigger] deps[j] < blend_file@.blocks.len(),
            crate::dna::strings_view(out@) == seq![hv] + body.subrange(0, k as int),
            body == Seq::new(
                deps@.len(),
                |j: int| "    "@ + decimal((j + 1) as nat) + ": "@ + spec_block_display(blend_file@, deps@[j] as int, template),
            ),
        decreases deps.len() - k,
    {
        let pos = usize_to_string(k + 1);
        let d = block_display(blend_file, deps[k], template);
        let mut line = String::from_str("    ");
        line.append(pos.as_str());
        line.append(": ");
        line.append(d.as_str());
        let ghost lv = line@;
        let ghost before = crate::dna::strings_view(out@);
        out.push(line);
        assert(crate::dna::strings_view(out@) =~= before.push(lv));
        assert(body.subrange(0, k + 1) =~= body.subrange(0, k as int).push(lv));
        k = k + 1;
    }
    assert(body.subrange(0, deps.len() as int) =~= body);
    out
}

// ---------------------------------------------------------------- block identifiers

/// The first of the first `n` blocks of `f` whose ID name, without its type
/// prefix, is `name`; -1 when there is none.
pub open spec fn first_named(f: BlendFileView, name: Seq<char>, n: int) -> int
    decreases n,
{
    if n <= 0 {
        -1
    } else if first_named(f, name, n - 1) >= 0 {
        first_named(f, name, n - 1)
    } else if fstr(f, n - 1, "ID"@, "name"@) matches Some(s) && skip_prefix(s) == name {
        n - 1
    } else {
        -1
    }
}

/// The block a command line identifier names: the block with that index
/// when the identifier is a decimal number of a block of the file, else the
/// first block whose ID name without prefix is the identifier.
pub open spec fn spec_resolve_block(f: BlendFileView, identifier: Seq<char>) -> Option<usize> {
    let n = f.blocks.len() as int;
    match parse_unsigned(vstd::utf8::encode_utf8(identifier), u64::MAX as int) {
        Some(v) if v < n => Some(v as usize),
        _ => if first_named(f, identifier, n) >= 0 {
            Some(first_named(f, identifier, n) as usize)
        } else {
            None
        },
    }
}

/// Finds the block a command line identifier names (see `spec_resolve_block`).
pub fn resolve_block_identifier(blend_file: &BlendFile, identifier: &str) -> (r: Option<usize>)
    ensures
        r == spec_resolve_block(blend_file@, identifier@),
        r matches Some(i) ==> i < blend_file@.blocks.len(),
{
    let n = blend_file.blocks_len();
    match parse_unsigned_bytes(identifier.as_bytes(), u64::MAX) {
        Some(v) => {
            if v < n as u64 {
                return Some(v as usize);
            }
        },
        None => {},
    }
    let mut i: usize = 0;
    while i < n
        invariant
            i <= n,
            n == blend_file@.blocks.len(),
            first_named(blend_file@, identifier@, i as int) == -1,
            !(parse_unsigned(vstd::utf8::encode_utf8(identifier@), u64::MAX as int) matches Some(v) && v < n),
        decreases n - i,
    {
        match field_string(blend_file, i, "ID", "name") {
            Some(s) => {
                let bare = skip_two_chars(s.as_str());
                if str_eq(bare.as_str(), identifier) {
                    proof {
                        lemma_first_named_stays(blend_file@, identifier@, i as int + 1, n as int);
                    }
                    return Some(i);
                }
            },
            None => {},
        }
        i = i + 1;
    }
    None
}

/// Once a named block is found among the first `k` blocks, looking at more
/// blocks finds the same one.
proof fn lemma_first_named_stays(f: BlendFileView, name: Seq<char>, k: int, n: int)
    requires
        0 <= k <= n,
        first_named(f, name, k) >= 0,
    ensures
        first_named(f, name, n) == first_named(f, name, k),
    decreases n - k,
{
    if k < n {
        lemma_first_named_stays(f, name, k + 1, n);
    }
}

// ---------------------------------------------------------------- the dependencies command

/// The tracer the dependencies command uses: the default expanders, no
/// filter, no address map, ten levels.
pub open spec fn command_tracer() -> TracerModel {
    TracerModel { registry: default_registry(), allowed: None, address_map: None, max_depth: 10 }
}

/// The rows of the tree the dependencies command shows for block `root`: the
/// block, then each dependency that listings keep, one level deeper.
pub open spec fn star_rows(
    f: BlendFileView,
    root: usize,
    deps: Seq<usize>,
    show_data: bool,
    template: DisplayTemplate,
) -> Seq<(nat, Seq<char>)> {
    seq![(0nat, spec_block_display(f, root as int, template))] + deeper(
        kept_deps(f, deps, show_data).map_values(|d: usize| (0nat, spec_block_display(f, d as int, template))),
    )
}

/// The summary under the tree: the number of dependencies and a depth of one.
pub open spec fn tree_summary(n: nat) -> Seq<Seq<char>> {
    seq!["Summary"@, "  Total dependencies: "@ + decimal(n), "  Maximum depth: "@ + decimal(1), Seq::empty()]
}

/// The rows of leaves for the blocks `deps` are those of the blocks listings keep.
proof fn lemma_leaf_rows(
    f: BlendFileView,
    s: Seq<DependencyNode>,
    deps: Seq<usize>,
    show_data: bool,
    template: DisplayTemplate,
)
    requires
        s.len() == deps.len(),
        forall|k: int| 0 <= k < s.len() ==> #[trigger] s[k].block_index == deps[k],
        forall|k: int| 0 <= k < s.len() ==> #[trigger] s[k].children@.len() == 0,
        forall|k: int| 0 <= k < deps.len() ==> #[trigger] deps[k] < f.blocks.len(),
    ensures
        shown_children_rows(f, s, show_data, template) == kept_deps(f, deps, show_data).map_values(
            |d: usize| (0nat, spec_block_display(f, d as int, template)),
        ),
    decreases s.len(),
{
    let m = |d: usize| (0nat, spec_block_display(f, d as int, template));
    if s.len() == 0 {
        assert(kept_deps(f, deps, show_data).map_values(m) =~= Seq::<(nat, Seq<char>)>::empty());
    } else {
        let n = s.len() - 1;
        let s0 = s.drop_last();
        let d0 = deps.drop_last();
        assert forall|k: int| 0 <= k < s0.len() implies #[trigger] s0[k].block_index == d0[k] by {
            assert(s0[k] == s[k] && d0[k] == deps[k]);
            assert(s[k].block_index == deps[k]);
        }
        assert forall|k: int| 0 <= k < s0.len() implies #[trigger] s0[k].children@.len() == 0 by {
            assert(s0[k] == s[k]);
            assert(s[k].children@.len() == 0);
        }
        assert forall|k: int| 0 <= k < d0.len() implies #[trigger] d0[k] < f.blocks.len() by {
            assert(d0[k] == deps[k]);
            assert(deps[k] < f.blocks.len());
        }
        lemma_leaf_rows(f, s0, d0, show_data, template);
        let last = s.last();
        assert(s[n].block_index == deps[n]);
        assert(s[n].children@.len() == 0);
        assert(deps[n] < f.blocks.len());
        assert(last.children@ =~= Seq::<DependencyNode>::empty());
        assert(shown_children_rows(f, last.children@, show_data, template) =~= Seq::<(nat, Seq<char>)>::empty());
        assert(deeper(Seq::<(nat, Seq<char>)>::empty()) =~= Seq::<(nat, Seq<char>)>::empty());
        assert(shown_rows(f, last, show_data, template) =~= seq![m(deps.last())]);
        let k0 = kept_deps(f, d0, show_data);
        assert(k0.push(deps.last()).map_values(m) =~= k0.map_values(m) + seq![m(deps.last())]);
    }
}

/// The blocks listings keep of blocks in the file are in the file.
proof fn lemma_kept_in_file(f: BlendFileView, deps: Seq<usize>, show_data: bool)
    requires
        forall|k: int| 0 <= k < deps.len() ==> #[trigger] deps[k] < f.blocks.len(),
    ensures
        forall|k: int|
            0 <= k < kept_deps(f, deps, show_data).len() ==> #[trigger] kept_deps(f, deps, show_data)[k]
                < f.blocks.len(),
    decreases deps.len(),
{
    if deps.len() > 0 {
        let d0 = deps.drop_last();
        assert forall|k: int| 0 <= k < d0.len() implies #[trigger] d0[k] < f.blocks.len() by {
            assert(d0[k] == deps[k]);
        }
        lemma_kept_in_file(f, d0, show_data);
        assert(deps[deps.len() - 1] < f.blocks.len());
        let k0 = kept_deps(f, d0, show_data);
        assert forall|k: int|
            0 <= k < kept_deps(f, deps, show_data).len() implies #[trigger] kept_deps(f, deps, show_data)[k]
                < f.blocks.len() by {
            if k < k0.len() {
                assert(k0[k] < f.blocks.len());
            }
        }
    }
}

/// Adds `lines` to `out`.
fn push_lines(out: &mut Vec<String>, lines: &Vec<String>)
    ensures
        crate::dna::strings_view(final(out)@) == crate::dna::strings_view(old(out)@) + crate::dna::strings_view(lines@),
{
    let ghost pre = crate::dna::strings_view(out@);
    let mut k: usize = 0;
    while k < lines.len()
        invariant
            k <= lines.len(),
            crate::dna::strings_view(out@) == pre + crate::dna::strings_view(lines@.subrange(0, k as int)),
        decreases lines.len() - k,
    {
        let line = String::from_str(lines[k].as_str());
        let ghost before = crate::dna::strings_view(out@);
        out.push(line);
        assert(crate::dna::strings_view(out@) =~= before.push(lines@[k as int]@));
        assert(crate::dna::strings_view(lines@.subrange(0, k + 1)) =~= crate::dna::strings_view(
            lines@.subrange(0, k as int),
        ).push(lines@[k as int]@));
        k = k + 1;
    }
    assert(lines@.subrange(0, lines.len() as int) =~= lines@);
}

/// Adds the tree of block `index` over its dependencies `deps` (see
/// `star_rows`) and the summary under it; gives the line to log when the tree
/// could not be laid out, which then is left out.
fn dependency_tree_lines(
    blend_file: &BlendFile,
    index: usize,
    deps: &Vec<usize>,
    ascii: bool,
    show_data: bool,
    template: DisplayTemplate,
    out: &mut Vec<String>,
) -> (r: Option<String>)
    requires
        index < blend_file@.blocks.len(),
        forall|j: int| 0 <= j < deps@.len() ==> #[trigger] deps@[j] < blend_file@.blocks.len(),
    ensures
        r is None,
        crate::dna::strings_view(final(out)@) == crate::dna::strings_view(old(out)@) + seq![
            trimmed_end(tree_layout(star_rows(blend_file@, index, deps@, show_data, template), ascii)),
        ] + tree_summary(deps@.len()),
{
    let start = match blend_file.get_block(index) {
        Some(b) => *b,
        None => {
            return None;
        },
    };
    let mut children: Vec<DependencyNode> = Vec::new();
    let mut k: usize = 0;
    while k < deps.len()
        invariant
            k <= deps.len(),
            children@.len() == k,
            forall|j: int| 0 <= j < deps@.len() ==> #[trigger] deps@[j] < blend_file@.blocks.len(),
            forall|j: int| 0 <= j < k ==> #[trigger] children@[j].block_index == deps@[j],
            forall|j: int| 0 <= j < k ==> #[trigger] children@[j].children@.len() == 0,
        decreases deps.len() - k,
    {
        let d = deps[k];
        let (code, size, addr) = match blend_file.get_block(d) {
            Some(b) => (block_code_to_string(b.header.code), b.header.size, b.header.old_address),
            None => (String::new(), 0, 0),
        };
        children.push(DependencyNode { block_index: d, block_code: code, block_size: size, block_address: addr, children: Vec::new() });
        k = k + 1;
    }
    let root = DependencyNode {
        block_index: index,
        block_code: block_code_to_string(start.header.code),
        block_size: start.header.size,
        block_address: start.header.old_address,
        children,
    };
    proof {
        lemma_leaf_rows(blend_file@, root.children@, deps@, show_data, template);
    }
    let tree = build_text_tree(&root, blend_file, show_data, template);
    assert(tree_rows(tree) =~= star_rows(blend_file@, index, deps@, show_data, template));
    let problem = TreeFormatter::new(ascii).print_tree(&tree, out);
    let ghost mid = crate::dna::strings_view(out@);
    let summary = CommandSummary::new("Summary").add_count("Total dependencies", deps.len()).add_count("Maximum depth", 1);
    let ghost items = summary.items@;
    let ghost title = summary.title@;
    summary.print(out);
    proof {
        let shown = items.map_values(|it: (&str, String)| "  "@ + it.0@ + ": "@ + it.1@);
        assert(items.len() == 2);
        reveal_strlit("Summary");
        reveal_strlit("  ");
        reveal_strlit(": ");
        reveal_strlit("Total dependencies");
        reveal_strlit("Maximum depth");
        reveal_strlit("  Total dependencies: ");
        reveal_strlit("  Maximum depth: ");
        assert(shown[0] =~= "  Total dependencies: "@ + decimal(deps@.len()));
        assert(shown[1] =~= "  Maximum depth: "@ + decimal(1));
        assert(seq![title] + shown + seq![Seq::<char>::empty()] =~= tree_summary(deps@.len()));
    }
    problem
}

/// What the dependencies command found: the start block, its dependencies as
/// the tracer gives them, and the line to log when the tree could not be laid out.
pub struct DependencyReport {
    pub root: usize,
    pub dependencies: Vec<usize>,
    pub problem: Option<String>,
}

/// The dependencies command on an opened file: finds the block that
/// `block_identifier` names, traces its dependencies (see `command_tracer`) and
/// adds the flat listing of those that listings keep, or the tree of them under
/// the block followed by a summary. The JSON form is left to the caller, which
/// serializes the report. A name that finds no block is an `InvalidArguments`
/// error, `Block '<identifier>' not found`.
pub fn cmd_dependencies(
    blend_file: &BlendFile,
    block_identifier: &str,
    format: OutputFormat,
    ascii: bool,
    show_data: bool,
    template: DisplayTemplate,
    out: &mut Vec<String>,
) -> (r: Result<DependencyReport>)
    ensures
        match spec_resolve_block(blend_file@, block_identifier@) {
            None => final(out)@ == old(out)@ && (r matches Err(e) && cli_error_with(
                e,
                CliErrorKind::InvalidArguments,
                "Block '"@ + block_identifier@ + "' not found"@,
            )),
            Some(i) => r matches Ok(rep) && rep.root == i && trace_ok(
                command_tracer(),
                blend_file@,
                i,
                rep.dependencies@,
            ) && trace_exact(command_tracer(), blend_file@, i, rep.dependencies@) && rep.dependencies@ == walk_list(
                command_tracer(),
                blend_file@,
                i,
            ) && match format {
                OutputFormat::Flat => rep.problem is None && crate::dna::strings_view(final(out)@)
                    == crate::dna::strings_view(old(out)@) + dependency_listing(
                    blend_file@,
                    kept_deps(blend_file@, rep.dependencies@, show_data),
                    template,
                ),
                OutputFormat::Tree => rep.problem is None && crate::dna::strings_view(final(out)@)
                    == crate::dna::strings_view(old(out)@) + seq![
                    trimmed_end(tree_layout(star_rows(blend_file@, i, rep.dependencies@, show_data, template), ascii)),
                ] + tree_summary(rep.dependencies@.len()),
                OutputFormat::Json => rep.problem is None && final(out)@ == old(out)@,
            },
        },
{
    let index = match resolve_block_identifier(blend_file, block_identifier) {
        Some(i) => i,
        None => {
            let mut msg = String::from_str("Block '");
            msg.append(block_identifier);
            msg.append("' not found");
            return Err(invalid_arguments_error(msg.as_str()));
        },
    };
    let mut tracer = DependencyTracer::new().with_default_expanders();
    assert(tracer@.registry =~= default_registry());
    let deps = match tracer.trace_dependencies(index, blend_file) {
        Ok(d) => d,
        Err(e) => {
            return Err(e);
        },
    };
    match format {
        OutputFormat::Flat => {
            let kept = filter_dependencies(deps.as_slice(), blend_file, show_data);
            proof {
                lemma_kept_in_file(blend_file@, deps@, show_data);
            }
            let lines = dependency_lines(blend_file, kept.as_slice(), template);
            push_lines(out, &lines);
            Ok(DependencyReport { root: index, dependencies: deps, problem: None })
        },
        OutputFormat::Tree => {
            let problem = dependency_tree_lines(blend_file, index, &deps, ascii, show_data, template, out);
            Ok(DependencyReport { root: index, dependencies: deps, problem })
        },
        OutputFormat::Json => Ok(DependencyReport { root: index, dependencies: deps, problem: None }),
    }
}

// ---------------------------------------------------------------- events of a run

/// The least severity of the events a run prints: errors only when quiet;
/// otherwise info, debug with one `-v`, everything with more.
pub open spec fn cli_min_severity(quiet: bool, verbose: u8) -> Severity {
    if quiet {
        Severity::Error
    } else if verbose == 0 {
        Severity::Info
    } else if verbose == 1 {
        Severity::Debug
    } else {
        Severity::Trace
    }
}

/// The filter of the events a run prints: the least severity its flags ask
/// for (see `cli_min_severity`), restricted to `domains` when they are given.
pub fn cli_event_filter(quiet: bool, verbose: u8, domains: Option<Vec<String>>) -> (r: EventFilter)
    ensures
        r.min_severity == cli_min_severity(quiet, verbose),
        match domains {
            None => r.domains is None,
            Some(d) => r.domains matches Some(v) && crate::dna::strings_view(v@) == crate::dna::strings_view(d@),
        },
{
    let min_severity = if quiet {
        Severity::Error
    } else if verbose == 0 {
        Severity::Info
    } else if verbose == 1 {
        Severity::Debug
    } else {
        Severity::Trace
    };
    let filter = EventFilter::new().min_severity(min_severity);
    match &domains {
        None => filter,
        Some(d) => {
            let mut refs: Vec<&str> = Vec::new();
            let mut i: usize = 0;
            while i < d.len()
                invariant
                    i <= d.len(),
                    refs@.map_values(|x: &str| x@) == crate::dna::strings_view(d@.subrange(0, i as int)),
                decreases d.len() - i,
            {
                let ghost before = refs@;
                let item = d[i].as_str();
                refs.push(item);
                assert(refs@ == before.push(item));
                assert(before.push(item).map_values(|x: &str| x@) =~= before.map_values(|x: &str| x@).push(item@));
                assert(d@.subrange(0, i + 1) =~= d@.subrange(0, i as int).push(d@[i as int]));
                assert(crate::dna::strings_view(d@.subrange(0, i as int).push(d@[i as int])) =~= crate::dna::strings_view(
                    d@.subrange(0, i as int),
                ).push(d@[i as int]@));
                i = i + 1;
            }
            assert(d@.subrange(0, d.len() as int) =~= d@);
            filter.domains(refs)
        },
    }
}

// ---------------------------------------------------------------- watching

/// The two paths a move joins, and the name of what moved.
pub struct MovePair {
    pub from: String,
    pub to: String,
    pub base: String,
}

/// What the file watcher reports.
pub enum WatchEvent {
    /// A blend file moved to another directory.
    BlendFileMoved(MovePair),
    /// A blend file was renamed in place.
    BlendFileRenamed { from: String, to: String, base_from: String, base_to: String },
    /// A directory was renamed or moved.
    DirRenamedOrMoved(MovePair),
    /// A blend file inside a moved directory moved with it.
    DirBlendChildMoved(MovePair),
}

/// The lines the watch command prints for event `e`; the last line of each is
/// printed only when `verbose`.
pub open spec fn watch_lines(e: WatchEvent, verbose: bool) -> Seq<Seq<char>> {
    match e {
        WatchEvent::BlendFileMoved(p) => seq!["🔄 Blend file moved: "@ + p.from@ + " → "@ + p.to@] + if verbose {
            seq!["   Base filename: "@ + debug_text(p.base@)]
        } else {
            Seq::empty()
        },
        WatchEvent::BlendFileRenamed { from, to, base_from, base_to } => seq![
            "📝 Blend file renamed: "@ + from@ + " → "@ + to@,
        ] + if verbose {
            seq!["   "@ + base_from@ + " → "@ + base_to@]
        } else {
            Seq::empty()
        },
        WatchEvent::DirRenamedOrMoved(p) => seq!["📁 Directory moved: "@ + p.from@ + " → "@ + p.to@] + if verbose {
            seq!["   Directory: "@ + debug_text(p.base@)]
        } else {
            Seq::empty()
        },
        WatchEvent::DirBlendChildMoved(p) => seq![
            "🔗 Child blend file affected by directory move:"@,
            "   "@ + p.from@ + " → "@ + p.to@,
        ] + if verbose {
            seq!["   Base filename: "@ + debug_text(p.base@)]
        } else {
            Seq::empty()
        },
    }
}

/// `a`, then `b`, `c` and `d` appended.
fn concat4(a: &str, b: &str, c: &str, d: &str) -> (r: String)
    ensures
        r@ == a@ + b@ + c@ + d@,
{
    let mut s = String::from_str(a);
    s.append(b);
    s.append(c);
    s.append(d);
    s
}

/// The lines the watch command prints for `event` (see `watch_lines`).
pub fn watch_event_lines(event: &WatchEvent, verbose: bool) -> (r: Vec<String>)
    ensures
        crate::dna::strings_view(r@) == watch_lines(*event, verbose),
{
    let mut out: Vec<String> = Vec::new();
    match event {
        WatchEvent::BlendFileMoved(p) => {
            out.push(concat4("🔄 Blend file moved: ", p.from.as_str(), " → ", p.to.as_str()));
            if verbose {
                let q = debug_quote(p.base.as_str());
                out.push(concat4("   Base filename: ", q.as_str(), "", ""));
            }
        },
        WatchEvent::BlendFileRenamed { from, to, base_from, base_to } => {
            out.push(concat4("📝 Blend file renamed: ", from.as_str(), " → ", to.as_str()));
            if verbose {
                out.push(concat4("   ", base_from.as_str(), " → ", base_to.as_str()));
            }
        },
        WatchEvent::DirRenamedOrMoved(p) => {
            out.push(concat4("📁 Directory moved: ", p.from.as_str(), " → ", p.to.as_str()));
            if verbose {
                let q = debug_quote(p.base.as_str());
                out.push(concat4("   Directory: ", q.as_str(), "", ""));
            }
        },
        WatchEvent::DirBlendChildMoved(p) => {
            out.push(String::from_str("🔗 Child blend file affected by directory move:"));
            out.push(concat4("   ", p.from.as_str(), " → ", p.to.as_str()));
            if verbose {
                let q = debug_quote(p.base.as_str());
                out.push(concat4("   Base filename: ", q.as_str(), "", ""));
            }
        },
    }
    proof {
        reveal_strlit("");
    }
    assert(crate::dna::strings_view(out@) =~= watch_lines(*event, verbose));
    out
}

/// The lines the watch command prints before the first event.
pub fn watch_banner(path: &str) -> (r: Vec<String>)
    ensures
        crate::dna::strings_view(r@) == seq![
            "Watching for .blend file changes under "@ + path@ + "..."@,
            "Press Ctrl+C to stop."@,
            Seq::<char>::empty(),
        ],
{
    let mut out: Vec<String> = Vec::new();
    out.push(concat4("Watching for .blend file changes under ", path, "...", ""));
    out.push(String::from_str("Press Ctrl+C to stop."));
    out.push(String::new());
    proof {
        reveal_strlit("");
    }
    assert(crate::dna::strings_view(out@) =~= seq![
        "Watching for .blend file changes under "@ + path@ + "..."@,
        "Press Ctrl+C to stop."@,
        Seq::<char>::empty(),
    ]);
    out
}

} // verus!
