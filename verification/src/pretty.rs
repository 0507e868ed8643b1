//! What the pretty event formatter writes: the text of each event as styled
//! pieces. Whether styles become terminal colors depends on the terminal and
//! the environment, so the pieces are turned into colored text where output
//! is written.
use vstd::prelude::*;
use vstd::string::*;
use crate::error::{Dot001Error, spec_user_message};
use crate::events::{
    CliEvent, CoreEvent, DiffEvent, EditorEvent, Event, EventWithMetadata, ParserEvent, Severity, TracerEvent,
    WatcherEvent, WriterEvent, format_severity, severity_name, spec_domain,
};
use crate::formatting::PrettyFormatter;
use crate::text::{decimal, i32_to_string, signed_decimal, str_eq, u64_to_string, usize_to_string};

verus! {

/// How a piece of text is shown.
#[derive(Debug, Clone, Copy, PartialEq, Eq, Structural)]
pub enum TextStyle {
    Plain,
    Bold,
    Red,
    RedBold,
    RedStrikethrough,
    Yellow,
    YellowBold,
    Cyan,
    Blue,
    Green,
    White,
    BrightBlack,
    BrightGreen,
    BrightBlue,
    BrightMagenta,
    BrightYellow,
    BrightCyan,
    BrightRed,
}

/// A piece of formatted text: styled text, or (when `percent_of` holds
/// `(current, total)`) the percentage `current / total * 100` written with one
/// decimal, which the writer of the output computes.
#[derive(Debug, Clone)]
pub struct Piece {
    pub text: String,
    pub style: TextStyle,
    pub percent_of: Option<(usize, usize)>,
}

/// A piece by its characters, style and percentage.
pub open spec fn piece_view(p: Piece) -> (Seq<char>, TextStyle, Option<(usize, usize)>) {
    (p.text@, p.style, p.percent_of)
}

/// Pieces by their characters, styles and percentages.
pub open spec fn pieces_view(v: Seq<Piece>) -> Seq<(Seq<char>, TextStyle, Option<(usize, usize)>)> {
    v.map_values(|p: Piece| piece_view(p))
}

/// Styled text.
pub open spec fn st(s: Seq<char>, style: TextStyle) -> (Seq<char>, TextStyle, Option<(usize, usize)>) {
    (s, style, None)
}

/// Plain text.
pub open spec fn pl(s: Seq<char>) -> (Seq<char>, TextStyle, Option<(usize, usize)>) {
    st(s, TextStyle::Plain)
}

/// Bold text.
pub open spec fn bd(s: Seq<char>) -> (Seq<char>, TextStyle, Option<(usize, usize)>) {
    st(s, TextStyle::Bold)
}

/// Plain decimal text of a number.
pub open spec fn num(n: nat) -> (Seq<char>, TextStyle, Option<(usize, usize)>) {
    pl(decimal(n))
}

/// The percentage of `c` out of `t`.
pub open spec fn pct(c: usize, t: usize) -> (Seq<char>, TextStyle, Option<(usize, usize)>) {
    (Seq::empty(), TextStyle::Plain, Some((c, t)))
}

/// A green check mark for success, a red cross otherwise.
pub open spec fn status(ok: bool) -> (Seq<char>, TextStyle, Option<(usize, usize)>) {
    if ok {
        st("✓"@, TextStyle::Green)
    } else {
        st("✗"@, TextStyle::Red)
    }
}

/// `[<code>] <message>` with the code in yellow.
pub open spec fn warn_pieces(code: Seq<char>, message: Seq<char>) -> Seq<(Seq<char>, TextStyle, Option<(usize, usize)>)> {
    seq![pl("["@), st(code, TextStyle::Yellow), pl("] "@), pl(message)]
}

/// The message of an error, in red.
pub open spec fn error_pieces(e: Dot001Error) -> Seq<(Seq<char>, TextStyle, Option<(usize, usize)>)> {
    seq![st(spec_user_message(e), TextStyle::Red)]
}

/// Text in upper case as `str::to_uppercase` makes it (Unicode case mapping).
pub uninterp spec fn upper_text(s: Seq<char>) -> Seq<char>;

/// Upper-cases text (`str::to_uppercase`).
#[verifier::external_body]
fn to_upper(s: &str) -> (r: String)
    ensures
        r@ == upper_text(s@),
{
    s.to_uppercase()
}

/// Texts joined with single spaces.
pub open spec fn join_spaces(a: Seq<Seq<char>>) -> Seq<char>
    decreases a.len(),
{
    if a.len() == 0 {
        Seq::empty()
    } else if a.len() == 1 {
        a[0]
    } else {
        join_spaces(a.drop_last()) + " "@ + a.last()
    }
}

/// A copy of a piece.
fn copy_piece(p: &Piece) -> (r: Piece)
    ensures
        piece_view(r) == piece_view(*p),
{
    Piece { text: p.text.clone(), style: p.style, percent_of: p.percent_of }
}

/// Appends styled text.
fn styled(out: &mut Vec<Piece>, text: &str, style: TextStyle)
    ensures
        pieces_view(final(out)@) == pieces_view(old(out)@).push(st(text@, style)),
{
    let ghost pre = pieces_view(out@);
    out.push(Piece { text: String::from_str(text), style, percent_of: None });
    assert(pieces_view(out@) =~= pre.push(st(text@, style)));
}

/// Appends plain text.
fn plain(out: &mut Vec<Piece>, text: &str)
    ensures
        pieces_view(final(out)@) == pieces_view(old(out)@).push(pl(text@)),
{
    styled(out, text, TextStyle::Plain)
}

/// Appends bold text.
fn bold(out: &mut Vec<Piece>, text: &str)
    ensures
        pieces_view(final(out)@) == pieces_view(old(out)@).push(bd(text@)),
{
    styled(out, text, TextStyle::Bold)
}

/// Appends the decimal text of a count.
fn count(out: &mut Vec<Piece>, n: usize)
    ensures
        pieces_view(final(out)@) == pieces_view(old(out)@).push(num(n as nat)),
{
    let s = usize_to_string(n);
    plain(out, s.as_str())
}

/// Appends the decimal text of a 64-bit number.
fn count64(out: &mut Vec<Piece>, n: u64)
    ensures
        pieces_view(final(out)@) == pieces_view(old(out)@).push(num(n as nat)),
{
    let s = u64_to_string(n);
    plain(out, s.as_str())
}

/// Appends a percentage.
fn percent(out: &mut Vec<Piece>, c: usize, t: usize)
    ensures
        pieces_view(final(out)@) == pieces_view(old(out)@).push(pct(c, t)),
{
    let ghost pre = pieces_view(out@);
    out.push(Piece { text: String::new(), style: TextStyle::Plain, percent_of: Some((c, t)) });
    assert(pieces_view(out@) =~= pre.push(pct(c, t)));
}

/// Appends a success mark.
fn mark(out: &mut Vec<Piece>, ok: bool)
    ensures
        pieces_view(final(out)@) == pieces_view(old(out)@).push(status(ok)),
{
    if ok {
        styled(out, "✓", TextStyle::Green)
    } else {
        styled(out, "✗", TextStyle::Red)
    }
}

/// Appends `[<code>] <message>`.
fn warning(out: &mut Vec<Piece>, code: &str, message: &str)
    ensures
        pieces_view(final(out)@) == pieces_view(old(out)@) + warn_pieces(code@, message@),
{
    plain(out, "[");
    styled(out, code, TextStyle::Yellow);
    plain(out, "] ");
    plain(out, message);
}

/// Appends the message of an error in red.
fn error_text(out: &mut Vec<Piece>, e: &Dot001Error)
    ensures
        pieces_view(final(out)@) == pieces_view(old(out)@) + error_pieces(*e),
{
    let m = e.user_message();
    styled(out, m.as_str(), TextStyle::Red);
}

// ---------------------------------------------------------------- core

/// The pieces of a general event.
pub open spec fn core_pieces(e: CoreEvent) -> Seq<(Seq<char>, TextStyle, Option<(usize, usize)>)> {
    match e {
        CoreEvent::Started { component, version } => match version {
            Some(v) => seq![pl("Started "@), bd(component@), pl(" (v"@), pl(v@), pl(")"@)],
            None => seq![pl("Started "@), bd(component@)],
        },
        CoreEvent::Finished { component, duration_ms, success } => match duration_ms {
            Some(d) => seq![status(success), pl(" Finished "@), bd(component@), pl(" ("@), num(d as nat), pl(" ms)"@)],
            None => seq![status(success), pl(" Finished "@), bd(component@)],
        },
        CoreEvent::Progress { operation, current, total, message } => {
            let tail = match message {
                Some(m) => seq![pl(" - "@), pl(m@)],
                None => Seq::empty(),
            };
            match total {
                Some(t) => seq![
                    pl(operation@),
                    pl(": ["@),
                    num(current as nat),
                    pl("/"@),
                    num(t as nat),
                    pl("] "@),
                    pct(current, t),
                    pl("%"@),
                ] + tail,
                None => seq![pl(operation@), pl(": ["@), num(current as nat), pl("]"@)] + tail,
            }
        },
        CoreEvent::Info { message } => seq![pl(message@)],
        CoreEvent::Warning { code, message } => warn_pieces(code@, message@),
        CoreEvent::Error { error } => error_pieces(error),
    }
}

fn core_content(e: &CoreEvent, out: &mut Vec<Piece>)
    ensures
        pieces_view(final(out)@) == pieces_view(old(out)@) + core_pieces(*e),
{
    match e {
        CoreEvent::Started { component, version } => {
            plain(out, "Started ");
            bold(out, component.as_str());
            if let Some(v) = version {
                plain(out, " (v");
                plain(out, v.as_str());
                plain(out, ")");
            }
        },
        CoreEvent::Finished { component, duration_ms, success } => {
            mark(out, *success);
            plain(out, " Finished ");
            bold(out, component.as_str());
            if let Some(d) = duration_ms {
                plain(out, " (");
                count64(out, *d);
                plain(out, " ms)");
            }
        },
        CoreEvent::Progress { operation, current, total, message } => {
            plain(out, operation.as_str());
            plain(out, ": [");
            count(out, *current);
            match total {
                Some(t) => {
                    plain(out, "/");
                    count(out, *t);
                    plain(out, "] ");
                    percent(out, *current, *t);
                    plain(out, "%");
                },
                None => {
                    plain(out, "]");
                },
            }
            if let Some(m) = message {
                plain(out, " - ");
                plain(out, m.as_str());
            }
        },
        CoreEvent::Info { message } => {
            plain(out, message.as_str());
        },
        CoreEvent::Warning { code, message } => {
            warning(out, code.as_str(), message.as_str());
        },
        CoreEvent::Error { error } => {
            error_text(out, error);
        },
    }
}

// ---------------------------------------------------------------- parser

/// The pieces of a parsing event.
pub open spec fn parser_pieces(e: ParserEvent) -> Seq<(Seq<char>, TextStyle, Option<(usize, usize)>)> {
    match e {
        ParserEvent::Started { input, file_size } => match file_size {
            Some(s) => seq![pl("Parsing "@), bd(input@), pl(" ("@), num(s as nat), pl(" bytes)"@)],
            None => seq![pl("Parsing "@), bd(input@)],
        },
        ParserEvent::HeaderParsed { version, endianness, pointer_size } => seq![
            pl("Header: v"@),
            pl(version@),
            pl(" "@),
            pl(endianness@),
            pl(" "@),
            num(((pointer_size * 8) % 256) as nat),
            pl("-bit"@),
        ],
        ParserEvent::DnaParsed { struct_count, name_count } => seq![
            pl("DNA: "@),
            num(struct_count as nat),
            pl(" structs, "@),
            num(name_count as nat),
            pl(" names"@),
        ],
        ParserEvent::BlockParsed { index, block_type, size } => seq![
            pl("Block "@),
            num(index as nat),
            pl(": "@),
            bd(block_type@),
            pl(" ("@),
            num(size as nat),
            pl(" bytes)"@),
        ],
        ParserEvent::Warning { code, message } => warn_pieces(code@, message@),
        ParserEvent::Error { error } => error_pieces(error),
        ParserEvent::Finished { total_blocks, total_size, duration_ms } => seq![
            pl("✓ Parsed "@),
            st(decimal(total_blocks as nat), TextStyle::Bold),
            pl(" blocks ("@),
            num(total_size as nat),
            pl(" bytes) in "@),
            num(duration_ms as nat),
            pl(" ms"@),
        ],
    }
}

fn parser_content(e: &ParserEvent, out: &mut Vec<Piece>)
    ensures
        pieces_view(final(out)@) == pieces_view(old(out)@) + parser_pieces(*e),
{
    match e {
        ParserEvent::Started { input, file_size } => {
            plain(out, "Parsing ");
            bold(out, input.as_str());
            if let Some(s) = file_size {
                plain(out, " (");
                count64(out, *s);
                plain(out, " bytes)");
            }
        },
        ParserEvent::HeaderParsed { version, endianness, pointer_size } => {
            plain(out, "Header: v");
            plain(out, version.as_str());
            plain(out, " ");
            plain(out, endianness.as_str());
            plain(out, " ");
            let bits = pointer_size.wrapping_mul(8);
            count(out, bits as usize);
            plain(out, "-bit");
        },
        ParserEvent::DnaParsed { struct_count, name_count } => {
            plain(out, "DNA: ");
            count(out, *struct_count);
            plain(out, " structs, ");
            count(out, *name_count);
            plain(out, " names");
        },
        ParserEvent::BlockParsed { index, block_type, size } => {
            plain(out, "Block ");
            count(out, *index);
            plain(out, ": ");
            bold(out, block_type.as_str());
            plain(out, " (");
            count(out, *size);
            plain(out, " bytes)");
        },
        ParserEvent::Warning { code, message } => {
            warning(out, code.as_str(), message.as_str());
        },
        ParserEvent::Error { error } => {
            error_text(out, error);
        },
        ParserEvent::Finished { total_blocks, total_size, duration_ms } => {
            plain(out, "✓ Parsed ");
            let n = usize_to_string(*total_blocks);
            bold(out, n.as_str());
            plain(out, " blocks (");
            count64(out, *total_size);
            plain(out, " bytes) in ");
            count64(out, *duration_ms);
            plain(out, " ms");
        },
    }
}

// ---------------------------------------------------------------- tracer

/// The pieces of a tracing event.
pub open spec fn tracer_pieces(e: TracerEvent) -> Seq<(Seq<char>, TextStyle, Option<(usize, usize)>)> {
    match e {
        TracerEvent::Started { root_blocks, .. } => seq![
            pl("Tracing from "@),
            num(root_blocks.len() as nat),
            pl(" root blocks"@),
        ],
        TracerEvent::BlockExpansionStarted { block_type, block_index } => seq![
            pl("Expanding "@),
            bd(block_type@),
            pl(" #"@),
            num(block_index as nat),
        ],
        TracerEvent::BlockExpanded { block_type, block_index, dependencies_found } => seq![
            pl("✓ "@),
            bd(block_type@),
            pl(" #"@),
            num(block_index as nat),
            pl(": "@),
            num(dependencies_found as nat),
            pl(" dependencies"@),
        ],
        TracerEvent::FilterApplied { filter_name, blocks_before, blocks_after } => seq![
            pl("Filter '"@),
            bd(filter_name@),
            pl("': "@),
            num(blocks_before as nat),
            pl(" → "@),
            num(blocks_after as nat),
            pl(" blocks"@),
        ],
        TracerEvent::NameResolved { original_name, resolved_name, .. } => seq![
            pl("Name resolved: "@),
            pl(original_name@),
            pl(" → "@),
            bd(resolved_name@),
        ],
        TracerEvent::Warning { code, message, .. } => warn_pieces(code@, message@),
        TracerEvent::Error { error } => error_pieces(error),
        TracerEvent::Finished { total_blocks_traced, unique_dependencies, duration_ms } => seq![
            pl("✓ Traced "@),
            bd(decimal(total_blocks_traced as nat)),
            pl(" blocks ("@),
            num(unique_dependencies as nat),
            pl(" unique) in "@),
            num(duration_ms as nat),
            pl(" ms"@),
        ],
    }
}

fn tracer_content(e: &TracerEvent, out: &mut Vec<Piece>)
    ensures
        pieces_view(final(out)@) == pieces_view(old(out)@) + tracer_pieces(*e),
{
    match e {
        TracerEvent::Started { root_blocks, .. } => {
            plain(out, "Tracing from ");
            count(out, root_blocks.len());
            plain(out, " root blocks");
        },
        TracerEvent::BlockExpansionStarted { block_type, block_index } => {
            plain(out, "Expanding ");
            bold(out, block_type.as_str());
            plain(out, " #");
            count(out, *block_index);
        },
        TracerEvent::BlockExpanded { block_type, block_index, dependencies_found } => {
            plain(out, "✓ ");
            bold(out, block_type.as_str());
            plain(out, " #");
            count(out, *block_index);
            plain(out, ": ");
            count(out, *dependencies_found);
            plain(out, " dependencies");
        },
        TracerEvent::FilterApplied { filter_name, blocks_before, blocks_after } => {
            plain(out, "Filter '");
            bold(out, filter_name.as_str());
            plain(out, "': ");
            count(out, *blocks_before);
            plain(out, " → ");
            count(out, *blocks_after);
            plain(out, " blocks");
        },
        TracerEvent::NameResolved { original_name, resolved_name, .. } => {
            plain(out, "Name resolved: ");
            plain(out, original_name.as_str());
            plain(out, " → ");
            bold(out, resolved_name.as_str());
        },
        TracerEvent::Warning { code, message, .. } => {
            warning(out, code.as_str(), message.as_str());
        },
        TracerEvent::Error { error } => {
            error_text(out, error);
        },
        TracerEvent::Finished { total_blocks_traced, unique_dependencies, duration_ms } => {
            plain(out, "✓ Traced ");
            let n = usize_to_string(*total_blocks_traced);
            bold(out, n.as_str());
            plain(out, " blocks (");
            count(out, *unique_dependencies);
            plain(out, " unique) in ");
            count64(out, *duration_ms);
            plain(out, " ms");
        },
    }
}

// ---------------------------------------------------------------- diff

/// How a mismatch detail is shown: red when critical, yellow when major.
pub open spec fn detail_style(severity: Seq<char>) -> TextStyle {
    if severity == "critical"@ {
        TextStyle::Red
    } else if severity == "major"@ {
        TextStyle::Yellow
    } else {
        TextStyle::Plain
    }
}

/// The pieces of a comparison event.
pub open spec fn diff_pieces(e: DiffEvent) -> Seq<(Seq<char>, TextStyle, Option<(usize, usize)>)> {
    match e {
        DiffEvent::Started { lhs, rhs, diff_type } => seq![
            pl(upper_text(diff_type@)),
            pl(" diff: "@),
            bd(lhs@),
            pl(" vs "@),
            bd(rhs@),
        ],
        DiffEvent::PolicyApplied { policy, blocks_affected } => seq![
            pl("Policy '"@),
            bd(policy@),
            pl("' applied to "@),
            num(blocks_affected as nat),
            pl(" blocks"@),
        ],
        DiffEvent::Mismatch { path, detail, severity } => seq![
            pl("Mismatch at "@),
            bd(path@),
            pl(": "@),
            st(detail@, detail_style(severity@)),
        ],
        DiffEvent::BlocksMatched { block_type, count } => seq![
            pl("✓ "@),
            num(count as nat),
            pl(" "@),
            pl(block_type@),
            pl(" blocks matched"@),
        ],
        DiffEvent::Warning { code, message } => warn_pieces(code@, message@),
        DiffEvent::Error { error } => error_pieces(error),
        DiffEvent::Summary { matched_blocks, mismatched_blocks, total_blocks, duration_ms } => seq![
            if mismatched_blocks == 0 {
                st("✓"@, TextStyle::Green)
            } else {
                st("!"@, TextStyle::Yellow)
            },
            pl(" "@),
            st(decimal(matched_blocks as nat), TextStyle::Green),
            pl(" matched, "@),
            st(decimal(mismatched_blocks as nat), TextStyle::Red),
            pl(" mismatched of "@),
            num(total_blocks as nat),
            pl(" total ("@),
            num(duration_ms as nat),
            pl(" ms)"@),
        ],
    }
}

fn diff_content(e: &DiffEvent, out: &mut Vec<Piece>)
    ensures
        pieces_view(final(out)@) == pieces_view(old(out)@) + diff_pieces(*e),
{
    match e {
        DiffEvent::Started { lhs, rhs, diff_type } => {
            let u = to_upper(diff_type.as_str());
            plain(out, u.as_str());
            plain(out, " diff: ");
            bold(out, lhs.as_str());
            plain(out, " vs ");
            bold(out, rhs.as_str());
        },
        DiffEvent::PolicyApplied { policy, blocks_affected } => {
            plain(out, "Policy '");
            bold(out, policy.as_str());
            plain(out, "' applied to ");
            count(out, *blocks_affected);
            plain(out, " blocks");
        },
        DiffEvent::Mismatch { path, detail, severity } => {
            plain(out, "Mismatch at ");
            bold(out, path.as_str());
            plain(out, ": ");
            let style = if str_eq(severity.as_str(), "critical") {
                TextStyle::Red
            } else if str_eq(severity.as_str(), "major") {
                TextStyle::Yellow
            } else {
                TextStyle::Plain
            };
            styled(out, detail.as_str(), style);
        },
        DiffEvent::BlocksMatched { block_type, count: n } => {
            plain(out, "✓ ");
            count(out, *n);
            plain(out, " ");
            plain(out, block_type.as_str());
            plain(out, " blocks matched");
        },
        DiffEvent::Warning { code, message } => {
            warning(out, code.as_str(), message.as_str());
        },
        DiffEvent::Error { error } => {
            error_text(out, error);
        },
        DiffEvent::Summary { matched_blocks, mismatched_blocks, total_blocks, duration_ms } => {
            if *mismatched_blocks == 0 {
                styled(out, "✓", TextStyle::Green);
            } else {
                styled(out, "!", TextStyle::Yellow);
            }
            plain(out, " ");
            let m = usize_to_string(*matched_blocks);
            styled(out, m.as_str(), TextStyle::Green);
            plain(out, " matched, ");
            let mm = usize_to_string(*mismatched_blocks);
            styled(out, mm.as_str(), TextStyle::Red);
            plain(out, " mismatched of ");
            count(out, *total_blocks);
            plain(out, " total (");
            count64(out, *duration_ms);
            plain(out, " ms)");
        },
    }
}

// ---------------------------------------------------------------- editor

/// The pieces of an editing event.
pub open spec fn editor_pieces(e: EditorEvent) -> Seq<(Seq<char>, TextStyle, Option<(usize, usize)>)> {
    match e {
        EditorEvent::Started { operation, target_file, block_count } => match block_count {
            Some(c) => seq![bd(operation@), pl(" on "@), bd(target_file@), pl(" ("@), num(c as nat), pl(" blocks)"@)],
            None => seq![bd(operation@), pl(" on "@), bd(target_file@)],
        },
        EditorEvent::BlockEdited { operation, block_index, block_type, old_value, new_value } => match old_value {
            Some(o) => seq![
                pl(operation@),
                pl(" "@),
                bd(block_type@),
                pl(" #"@),
                num(block_index as nat),
                pl(": "@),
                st(o@, TextStyle::RedStrikethrough),
                pl(" → "@),
                st(new_value@, TextStyle::Green),
            ],
            None => seq![
                pl(operation@),
                pl(" "@),
                bd(block_type@),
                pl(" #"@),
                num(block_index as nat),
                pl(": "@),
                st(new_value@, TextStyle::Green),
            ],
        },
        EditorEvent::BatchProgress { operation, completed, total } => seq![
            pl(operation@),
            pl(": ["@),
            num(completed as nat),
            pl("/"@),
            num(total as nat),
            pl("] "@),
            pct(completed, total),
            pl("%"@),
        ],
        EditorEvent::ValidationPerformed { validator, passed, message } => seq![
            status(passed),
            pl(" Validation '"@),
            bd(validator@),
            pl("'"@),
        ] + match message {
            Some(m) => seq![pl(": "@), pl(m@)],
            None => Seq::empty(),
        },
        EditorEvent::Warning { code, message, .. } => warn_pieces(code@, message@),
        EditorEvent::Error { error } => error_pieces(error),
        EditorEvent::Finished { operation, blocks_modified, duration_ms, success } => seq![
            status(success),
            pl(" "@),
            bd(operation@),
            pl(" completed: "@),
            num(blocks_modified as nat),
            pl(" blocks in "@),
            num(duration_ms as nat),
            pl(" ms"@),
        ],
    }
}

fn editor_content(e: &EditorEvent, out: &mut Vec<Piece>)
    ensures
        pieces_view(final(out)@) == pieces_view(old(out)@) + editor_pieces(*e),
{
    match e {
        EditorEvent::Started { operation, target_file, block_count } => {
            bold(out, operation.as_str());
            plain(out, " on ");
            bold(out, target_file.as_str());
            if let Some(c) = block_count {
                plain(out, " (");
                count(out, *c);
                plain(out, " blocks)");
            }
        },
        EditorEvent::BlockEdited { operation, block_index, block_type, old_value, new_value } => {
            plain(out, operation.as_str());
            plain(out, " ");
            bold(out, block_type.as_str());
            plain(out, " #");
            count(out, *block_index);
            plain(out, ": ");
            if let Some(o) = old_value {
                styled(out, o.as_str(), TextStyle::RedStrikethrough);
                plain(out, " → ");
            }
            styled(out, new_value.as_str(), TextStyle::Green);
        },
        EditorEvent::BatchProgress { operation, completed, total } => {
            plain(out, operation.as_str());
            plain(out, ": [");
            count(out, *completed);
            plain(out, "/");
            count(out, *total);
            plain(out, "] ");
            percent(out, *completed, *total);
            plain(out, "%");
        },
        EditorEvent::ValidationPerformed { validator, passed, message } => {
            mark(out, *passed);
            plain(out, " Validation '");
            bold(out, validator.as_str());
            plain(out, "'");
            if let Some(m) = message {
                plain(out, ": ");
                plain(out, m.as_str());
            }
        },
        EditorEvent::Warning { code, message, .. } => {
            warning(out, code.as_str(), message.as_str());
        },
        EditorEvent::Error { error } => {
            error_text(out, error);
        },
        EditorEvent::Finished { operation, blocks_modified, duration_ms, success } => {
            mark(out, *success);
            plain(out, " ");
            bold(out, operation.as_str());
            plain(out, " completed: ");
            count(out, *blocks_modified);
            plain(out, " blocks in ");
            count64(out, *duration_ms);
            plain(out, " ms");
        },
    }
}

// ---------------------------------------------------------------- writer

/// The pieces of a writing event.
pub open spec fn writer_pieces(e: WriterEvent) -> Seq<(Seq<char>, TextStyle, Option<(usize, usize)>)> {
    match e {
        WriterEvent::Started { operation, target_file } => seq![bd(operation@), pl(" to "@), bd(target_file@)],
        WriterEvent::HeaderGenerated { version, block_count } => seq![
            pl("Header: v"@),
            pl(version@),
            pl(" with "@),
            num(block_count as nat),
            pl(" blocks"@),
        ],
        WriterEvent::BlockInjectionStarted { total_blocks } => seq![
            pl("Injecting "@),
            num(total_blocks as nat),
            pl(" blocks"@),
        ],
        WriterEvent::BlockWritten { block_type, block_index, size } => seq![
            pl("Block #"@),
            num(block_index as nat),
            pl(": "@),
            bd(block_type@),
            pl(" ("@),
            num(size as nat),
            pl(" bytes)"@),
        ],
        WriterEvent::DnaUpdated { new_structs, new_names } => seq![
            pl("DNA updated: +"@),
            num(new_structs as nat),
            pl(" structs, +"@),
            num(new_names as nat),
            pl(" names"@),
        ],
        WriterEvent::PreviewGenerated { preview_path, blocks_included } => seq![
            pl("Preview: "@),
            bd(preview_path@),
            pl(" ("@),
            num(blocks_included as nat),
            pl(" blocks)"@),
        ],
        WriterEvent::Warning { code, message } => warn_pieces(code@, message@),
        WriterEvent::Error { error } => error_pieces(error),
        WriterEvent::Finished { operation, bytes_written, blocks_written, duration_ms, success } => seq![
            status(success),
            pl(" "@),
            bd(operation@),
            pl(" completed: "@),
            num(blocks_written as nat),
            pl(" blocks ("@),
            num(bytes_written as nat),
            pl(" bytes) in "@),
            num(duration_ms as nat),
            pl(" ms"@),
        ],
    }
}

fn writer_content(e: &WriterEvent, out: &mut Vec<Piece>)
    ensures
        pieces_view(final(out)@) == pieces_view(old(out)@) + writer_pieces(*e),
{
    match e {
        WriterEvent::Started { operation, target_file } => {
            bold(out, operation.as_str());
            plain(out, " to ");
            bold(out, target_file.as_str());
        },
        WriterEvent::HeaderGenerated { version, block_count } => {
            plain(out, "Header: v");
            plain(out, version.as_str());
            plain(out, " with ");
            count(out, *block_count);
            plain(out, " blocks");
        },
        WriterEvent::BlockInjectionStarted { total_blocks } => {
            plain(out, "Injecting ");
            count(out, *total_blocks);
            plain(out, " blocks");
        },
        WriterEvent::BlockWritten { block_type, block_index, size } => {
            plain(out, "Block #");
            count(out, *block_index);
            plain(out, ": ");
            bold(out, block_type.as_str());
            plain(out, " (");
            count(out, *size);
            plain(out, " bytes)");
        },
        WriterEvent::DnaUpdated { new_structs, new_names } => {
            plain(out, "DNA updated: +");
            count(out, *new_structs);
            plain(out, " structs, +");
            count(out, *new_names);
            plain(out, " names");
        },
        WriterEvent::PreviewGenerated { preview_path, blocks_included } => {
            plain(out, "Preview: ");
            bold(out, preview_path.as_str());
            plain(out, " (");
            count(out, *blocks_included);
            plain(out, " blocks)");
        },
        WriterEvent::Warning { code, message } => {
            warning(out, code.as_str(), message.as_str());
        },
        WriterEvent::Error { error } => {
            error_text(out, error);
        },
        WriterEvent::Finished { operation, bytes_written, blocks_written, duration_ms, success } => {
            mark(out, *success);
            plain(out, " ");
            bold(out, operation.as_str());
            plain(out, " completed: ");
            count(out, *blocks_written);
            plain(out, " blocks (");
            count64(out, *bytes_written);
            plain(out, " bytes) in ");
            count64(out, *duration_ms);
            plain(out, " ms");
        },
    }
}

// ---------------------------------------------------------------- watcher

/// The pieces of a watching event.
pub open spec fn watcher_pieces(e: WatcherEvent) -> Seq<(Seq<char>, TextStyle, Option<(usize, usize)>)> {
    match e {
        WatcherEvent::Started { watch_paths, recursive } => seq![
            pl("Watching "@),
            num(watch_paths.len() as nat),
            pl(" paths"@),
        ] + (if recursive {
            seq![pl(" (recursive)"@)]
        } else {
            Seq::empty()
        }),
        WatcherEvent::FileEvent { event_type, path, old_path } => match old_path {
            Some(o) => seq![bd(upper_text(event_type@)), pl(": "@), pl(o@), pl(" → "@), bd(path@)],
            None => seq![bd(upper_text(event_type@)), pl(": "@), bd(path@)],
        },
        WatcherEvent::DirectoryEvent { event_type, path } => seq![
            bd(upper_text(event_type@)),
            pl(": "@),
            bd(path@),
            pl("/"@),
        ],
        WatcherEvent::ProcessingStarted { trigger_path, action } => seq![
            pl("Processing "@),
            bd(trigger_path@),
            pl(" → "@),
            pl(action@),
        ],
        WatcherEvent::ProcessingCompleted { trigger_path, action, success, duration_ms } => seq![
            status(success),
            pl(" "@),
            bd(trigger_path@),
            pl(" → "@),
            pl(action@),
            pl(" completed in "@),
            num(duration_ms as nat),
            pl(" ms"@),
        ],
        WatcherEvent::Warning { code, message, .. } => warn_pieces(code@, message@),
        WatcherEvent::Error { error } => error_pieces(error),
        WatcherEvent::Stopped { reason } => seq![pl("Stopped: "@), pl(reason@)],
    }
}

fn watcher_content(e: &WatcherEvent, out: &mut Vec<Piece>)
    ensures
        pieces_view(final(out)@) == pieces_view(old(out)@) + watcher_pieces(*e),
{
    match e {
        WatcherEvent::Started { watch_paths, recursive } => {
            plain(out, "Watching ");
            count(out, watch_paths.len());
            plain(out, " paths");
            if *recursive {
                plain(out, " (recursive)");
            }
        },
        WatcherEvent::FileEvent { event_type, path, old_path } => {
            let u = to_upper(event_type.as_str());
            bold(out, u.as_str());
            plain(out, ": ");
            if let Some(o) = old_path {
                plain(out, o.as_str());
                plain(out, " → ");
            }
            bold(out, path.as_str());
        },
        WatcherEvent::DirectoryEvent { event_type, path } => {
            let u = to_upper(event_type.as_str());
            bold(out, u.as_str());
            plain(out, ": ");
            bold(out, path.as_str());
            plain(out, "/");
        },
        WatcherEvent::ProcessingStarted { trigger_path, action } => {
            plain(out, "Processing ");
            bold(out, trigger_path.as_str());
            plain(out, " → ");
            plain(out, action.as_str());
        },
        WatcherEvent::ProcessingCompleted { trigger_path, action, success, duration_ms } => {
            mark(out, *success);
            plain(out, " ");
            bold(out, trigger_path.as_str());
            plain(out, " → ");
            plain(out, action.as_str());
            plain(out, " completed in ");
            count64(out, *duration_ms);
            plain(out, " ms");
        },
        WatcherEvent::Warning { code, message, .. } => {
            warning(out, code.as_str(), message.as_str());
        },
        WatcherEvent::Error { error } => {
            error_text(out, error);
        },
        WatcherEvent::Stopped { reason } => {
            plain(out, "Stopped: ");
            plain(out, reason.as_str());
        },
    }
}

// ---------------------------------------------------------------- command line

/// The arguments of a command joined with spaces (`args.join(" ")`).
fn join_args(args: &Vec<String>) -> (r: String)
    ensures
        r@ == join_spaces(crate::dna::strings_view(args@)),
{
    let ghost a = crate::dna::strings_view(args@);
    let mut out = String::new();
    let mut i: usize = 0;
    assert(a.subrange(0, 0) =~= Seq::<Seq<char>>::empty());
    while i < args.len()
        invariant
            i <= args.len(),
            a == crate::dna::strings_view(args@),
            out@ == join_spaces(a.subrange(0, i as int)),
        decreases args.len() - i,
    {
        assert(a.subrange(0, i + 1).drop_last() =~= a.subrange(0, i as int));
        if i > 0 {
            out.append(" ");
        }
        out.append(args[i].as_str());
        proof {
            if i == 0 {
                assert(out@ =~= a.subrange(0, 1)[0]);
            }
        }
        i = i + 1;
    }
    assert(a.subrange(0, args.len() as int) =~= a);
    out
}

/// The pieces of a command line event.
pub open spec fn cli_pieces(e: CliEvent) -> Seq<(Seq<char>, TextStyle, Option<(usize, usize)>)> {
    match e {
        CliEvent::CommandStarted { command, args } => if args.len() == 0 {
            seq![pl("$ "@), bd(command@)]
        } else {
            seq![pl("$ "@), bd(command@), pl(" "@), pl(join_spaces(crate::dna::strings_view(args@)))]
        },
        CliEvent::SubcommandExecuted { subcommand, success, duration_ms } => seq![
            status(success),
            pl(" "@),
            bd(subcommand@),
            pl(" ("@),
            num(duration_ms as nat),
            pl(" ms)"@),
        ],
        CliEvent::OutputFormatted { format, lines } => seq![
            pl("Output formatted as "@),
            bd(format@),
            pl(" ("@),
            num(lines as nat),
            pl(" lines)"@),
        ],
        CliEvent::InputRequested { prompt, input_type } => seq![
            pl("Input requested ("@),
            pl(input_type@),
            pl("): "@),
            pl(prompt@),
        ],
        CliEvent::InputReceived { input_type, value } => seq![
            pl("Input received ("@),
            pl(input_type@),
            pl("): "@),
            bd(value@),
        ],
        CliEvent::Warning { code, message } => warn_pieces(code@, message@),
        CliEvent::Error { error } => error_pieces(error),
        CliEvent::CommandCompleted { command, exit_code, duration_ms } => seq![
            status(exit_code == 0),
            pl(" "@),
            bd(command@),
            pl(" exited "@),
            pl(signed_decimal(exit_code as int)),
            pl(" in "@),
            num(duration_ms as nat),
            pl(" ms"@),
        ],
    }
}

fn cli_content(e: &CliEvent, out: &mut Vec<Piece>)
    ensures
        pieces_view(final(out)@) == pieces_view(old(out)@) + cli_pieces(*e),
{
    match e {
        CliEvent::CommandStarted { command, args } => {
            plain(out, "$ ");
            bold(out, command.as_str());
            if args.len() > 0 {
                plain(out, " ");
                let j = join_args(args);
                plain(out, j.as_str());
            }
        },
        CliEvent::SubcommandExecuted { subcommand, success, duration_ms } => {
            mark(out, *success);
            plain(out, " ");
            bold(out, subcommand.as_str());
            plain(out, " (");
            count64(out, *duration_ms);
            plain(out, " ms)");
        },
        CliEvent::OutputFormatted { format, lines } => {
            plain(out, "Output formatted as ");
            bold(out, format.as_str());
            plain(out, " (");
            count(out, *lines);
            plain(out, " lines)");
        },
        CliEvent::InputRequested { prompt, input_type } => {
            plain(out, "Input requested (");
            plain(out, input_type.as_str());
            plain(out, "): ");
            plain(out, prompt.as_str());
        },
        CliEvent::InputReceived { input_type, value } => {
            plain(out, "Input received (");
            plain(out, input_type.as_str());
            plain(out, "): ");
            bold(out, value.as_str());
        },
        CliEvent::Warning { code, message } => {
            warning(out, code.as_str(), message.as_str());
        },
        CliEvent::Error { error } => {
            error_text(out, error);
        },
        CliEvent::CommandCompleted { command, exit_code, duration_ms } => {
            mark(out, *exit_code == 0);
            plain(out, " ");
            bold(out, command.as_str());
            plain(out, " exited ");
            let c = i32_to_string(*exit_code);
            plain(out, c.as_str());
            plain(out, " in ");
            count64(out, *duration_ms);
            plain(out, " ms");
        },
    }
}

// ---------------------------------------------------------------- whole lines

/// The pieces describing an event.
pub open spec fn event_pieces(e: Event) -> Seq<(Seq<char>, TextStyle, Option<(usize, usize)>)> {
    match e {
        Event::Core(c) => core_pieces(c),
        Event::Parser(p) => parser_pieces(p),
        Event::Tracer(t) => tracer_pieces(t),
        Event::Diff(d) => diff_pieces(d),
        Event::Editor(x) => editor_pieces(x),
        Event::Writer(w) => writer_pieces(w),
        Event::Watcher(w) => watcher_pieces(w),
        Event::Cli(c) => cli_pieces(c),
    }
}

/// The pieces describing an event (see `event_pieces`).
pub fn event_content(event: &Event) -> (r: Vec<Piece>)
    ensures
        pieces_view(r@) == event_pieces(*event),
{
    let mut out: Vec<Piece> = Vec::new();
    assert(pieces_view(out@) =~= Seq::empty());
    match event {
        Event::Core(c) => core_content(c, &mut out),
        Event::Parser(p) => parser_content(p, &mut out),
        Event::Tracer(t) => tracer_content(t, &mut out),
        Event::Diff(d) => diff_content(d, &mut out),
        Event::Editor(x) => editor_content(x, &mut out),
        Event::Writer(w) => writer_content(w, &mut out),
        Event::Watcher(w) => watcher_content(w, &mut out),
        Event::Cli(c) => cli_content(c, &mut out),
    }
    out
}

/// How a severity is shown: errors red and bold, warnings yellow and bold,
/// information cyan, debugging blue, tracing dim.
pub open spec fn severity_style(s: Severity) -> TextStyle {
    match s {
        Severity::Error => TextStyle::RedBold,
        Severity::Warn => TextStyle::YellowBold,
        Severity::Info => TextStyle::Cyan,
        Severity::Debug => TextStyle::Blue,
        Severity::Trace => TextStyle::BrightBlack,
    }
}

/// How a domain name is shown: each domain has its color.
pub open spec fn domain_style(d: Seq<char>) -> TextStyle {
    if d == "core"@ {
        TextStyle::BrightGreen
    } else if d == "parser"@ {
        TextStyle::BrightBlue
    } else if d == "tracer"@ {
        TextStyle::BrightMagenta
    } else if d == "diff"@ {
        TextStyle::BrightYellow
    } else if d == "editor"@ {
        TextStyle::BrightCyan
    } else if d == "writer"@ {
        TextStyle::BrightRed
    } else if d == "watcher"@ {
        TextStyle::Green
    } else if d == "cli"@ {
        TextStyle::White
    } else {
        TextStyle::Plain
    }
}

fn severity_style_of(s: Severity) -> (r: TextStyle)
    ensures
        r == severity_style(s),
{
    match s {
        Severity::Error => TextStyle::RedBold,
        Severity::Warn => TextStyle::YellowBold,
        Severity::Info => TextStyle::Cyan,
        Severity::Debug => TextStyle::Blue,
        Severity::Trace => TextStyle::BrightBlack,
    }
}

fn domain_style_of(d: &str) -> (r: TextStyle)
    ensures
        r == domain_style(d@),
{
    if str_eq(d, "core") {
        TextStyle::BrightGreen
    } else if str_eq(d, "parser") {
        TextStyle::BrightBlue
    } else if str_eq(d, "tracer") {
        TextStyle::BrightMagenta
    } else if str_eq(d, "diff") {
        TextStyle::BrightYellow
    } else if str_eq(d, "editor") {
        TextStyle::BrightCyan
    } else if str_eq(d, "writer") {
        TextStyle::BrightRed
    } else if str_eq(d, "watcher") {
        TextStyle::Green
    } else if str_eq(d, "cli") {
        TextStyle::White
    } else {
        TextStyle::Plain
    }
}

/// The line of an event after the optional timestamp and before the optional
/// context: the severity, the domain in brackets if shown, and the event's
/// pieces, separated by spaces.
pub open spec fn pretty_rest(show_domains: bool, e: EventWithMetadata) -> Seq<(Seq<char>, TextStyle, Option<(usize, usize)>)> {
    seq![st(severity_name(e.metadata.severity), severity_style(e.metadata.severity)), pl(" "@)] + (if show_domains {
        seq![pl("["@), st(spec_domain(e.event), domain_style(spec_domain(e.event))), pl("]"@), pl(" "@)]
    } else {
        Seq::empty()
    }) + event_pieces(e.event)
}

impl PrettyFormatter {
    /// The pieces of the line for an event: the time of day in dim text if
    /// timestamps are shown, then `pretty_rest`. Context pairs, when shown,
    /// follow after a space; they are added where the line is written, as
    /// their order is that of a hash map.
    pub fn pieces(&self, event: &EventWithMetadata) -> (r: Vec<Piece>)
        ensures
            self.show_timestamps ==> exists|ts: Seq<char>|
                pieces_view(r@) == seq![st(ts, TextStyle::BrightBlack), pl(" "@)] + pretty_rest(
                    self.show_domains,
                    *event,
                ),
            !self.show_timestamps ==> pieces_view(r@) == pretty_rest(self.show_domains, *event),
    {
        let mut out: Vec<Piece> = Vec::new();
        let ghost mut ts: Seq<char> = Seq::empty();
        if self.show_timestamps {
            let t = crate::formatting::clock_text(&event.metadata.timestamp);
            proof {
                ts = t@;
            }
            styled(&mut out, t.as_str(), TextStyle::BrightBlack);
            plain(&mut out, " ");
        }
        let ghost head = pieces_view(out@);
        let sev = event.metadata.severity;
        styled(&mut out, format_severity(sev), severity_style_of(sev));
        plain(&mut out, " ");
        if self.show_domains {
            let d = event.event.domain();
            plain(&mut out, "[");
            styled(&mut out, d, domain_style_of(d));
            plain(&mut out, "]");
            plain(&mut out, " ");
        }
        let content = event_content(&event.event);
        let ghost mid = pieces_view(out@);
        let mut i: usize = 0;
        while i < content.len()
            invariant
                i <= content.len(),
                pieces_view(out@) == mid + pieces_view(content@).subrange(0, i as int),
            decreases content.len() - i,
        {
            let ghost before = pieces_view(out@);
            let p = copy_piece(&content[i]);
            out.push(p);
            assert(pieces_view(out@) =~= before.push(piece_view(content@[i as int])));
            assert(pieces_view(content@).subrange(0, i + 1) =~= pieces_view(content@).subrange(0, i as int).push(
                piece_view(content@[i as int]),
            ));
            i = i + 1;
        }
        assert(pieces_view(content@).subrange(0, content.len() as int) =~= pieces_view(content@));
        proof {
            if self.show_timestamps {
                assert(pieces_view(out@) =~= seq![st(ts, TextStyle::BrightBlack), pl(" "@)] + pretty_rest(
                    self.show_domains,
                    *event,
                ));
            } else {
                assert(pieces_view(out@) =~= pretty_rest(self.show_domains, *event));
            }
        }
        out
    }
}

// ---------------------------------------------------------------- context

/// The texts of key-value pairs.
pub open spec fn pair_texts(pairs: Seq<(String, String)>) -> Seq<(Seq<char>, Seq<char>)> {
    pairs.map_values(|p: (String, String)| (p.0@, p.1@))
}

/// Key-value pairs written `key=value` and joined with `, `.
pub open spec fn joined_pairs(pairs: Seq<(Seq<char>, Seq<char>)>) -> Seq<char>
    decreases pairs.len(),
{
    if pairs.len() == 0 {
        Seq::empty()
    } else if pairs.len() == 1 {
        pairs[0].0 + "="@ + pairs[0].1
    } else {
        joined_pairs(pairs.drop_last()) + ", "@ + pairs.last().0 + "="@ + pairs.last().1
    }
}

/// The context of an event as the pretty formatter writes it: nothing for no
/// pairs, else ` {` and the joined pairs and `}`.
pub open spec fn context_text(pairs: Seq<(Seq<char>, Seq<char>)>) -> Seq<char> {
    if pairs.len() == 0 {
        Seq::empty()
    } else {
        " {"@ + joined_pairs(pairs) + "}"@
    }
}

/// Writes context pairs, in the order given, as the pretty formatter shows
/// them (see `context_text`). The keys come as they are to be shown, styled
/// or not; the pairs of a hash map come in the order in which it is walked.
pub fn format_context(pairs: &Vec<(String, String)>) -> (r: String)
    ensures
        r@ == context_text(pair_texts(pairs@)),
{
    let ghost a = pair_texts(pairs@);
    if pairs.len() == 0 {
        return String::new();
    }
    let mut body = String::new();
    let mut i: usize = 0;
    assert(a.subrange(0, 0) =~= Seq::<(Seq<char>, Seq<char>)>::empty());
    while i < pairs.len()
        invariant
            i <= pairs.len(),
            a == pair_texts(pairs@),
            body@ == joined_pairs(a.subrange(0, i as int)),
        decreases pairs.len() - i,
    {
        assert(a.subrange(0, i + 1).drop_last() =~= a.subrange(0, i as int));
        assert(a[i as int] == (pairs@[i as int].0@, pairs@[i as int].1@));
        if i > 0 {
            body.append(", ");
        }
        body.append(pairs[i].0.as_str());
        body.append("=");
        body.append(pairs[i].1.as_str());
        proof {
            if i == 0 {
                assert(a.subrange(0, 1).len() == 1);
                assert(a.subrange(0, 1)[0] == a[0]);
            }
        }
        i = i + 1;
    }
    assert(a.subrange(0, pairs.len() as int) =~= a);
    let mut r = String::from_str(" {");
    r.append(body.as_str());
    r.append("}");
    r
}

} // verus!
