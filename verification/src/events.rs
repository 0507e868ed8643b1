//! Events of the toolkit's domains, their severities, and filters over them.
use vstd::prelude::*;
use vstd::string::*;
use std::collections::HashMap;
use std::time::SystemTime;
use crate::error::Dot001Error;

verus! {

#[verifier::external_type_specification]
#[verifier::external_body]
pub struct ExSystemTime(SystemTime);

/// Cloning a `SystemTime` (a `Copy` type) gives the same time.
pub assume_specification[ <SystemTime as Clone>::clone ](t: &SystemTime) -> (r: SystemTime)
    ensures
        r == *t,
;

/// The current time (`SystemTime::now`); nothing is stated of it.
#[verifier::external_body]
fn system_now() -> (r: SystemTime) {
    SystemTime::now()
}

/// Severity of an event, from least to most severe.
#[derive(Debug, Clone, Copy, PartialEq, Eq, Structural, PartialOrd, Ord)]
pub enum Severity {
    Trace,
    Debug,
    Info,
    Warn,
    Error,
}

/// The position of a severity in the order `Trace < Debug < Info < Warn < Error`.
pub open spec fn rank(s: Severity) -> int {
    match s {
        Severity::Trace => 0,
        Severity::Debug => 1,
        Severity::Info => 2,
        Severity::Warn => 3,
        Severity::Error => 4,
    }
}

impl Severity {
    /// The position of this severity (see `rank`).
    pub fn level(&self) -> (r: u8)
        ensures
            r == rank(*self),
    {
        match self {
            Severity::Trace => 0,
            Severity::Debug => 1,
            Severity::Info => 2,
            Severity::Warn => 3,
            Severity::Error => 4,
        }
    }

    /// Whether an event of this severity is shown when `min_level` is the least shown.
    pub fn should_show(&self, min_level: Severity) -> (r: bool)
        ensures
            r == (rank(*self) >= rank(min_level)),
    {
        self.level() >= min_level.level()
    }
}

/// A more severe event is shown wherever a less severe one is, and lowering
/// the least level shown hides nothing that was shown.
pub proof fn lemma_should_show_monotone(a: Severity, b: Severity, m: Severity, m2: Severity)
    ensures
        rank(a) >= rank(m) && rank(b) >= rank(a) ==> rank(b) >= rank(m),
        rank(a) >= rank(m) && rank(m2) <= rank(m) ==> rank(a) >= rank(m2),
        rank(a) >= rank(Severity::Trace),
        rank(Severity::Error) >= rank(a),
{
}

/// Key-value context of an event.
pub type Kv = HashMap<String, String>;

/// Events of general operations.
#[derive(Debug, Clone)]
#[allow(inconsistent_fields)]
pub enum CoreEvent {
    Started { component: String, version: Option<String> },
    Finished { component: String, duration_ms: Option<u64>, success: bool },
    Progress { operation: String, current: usize, total: Option<usize>, message: Option<String> },
    Info { message: String },
    Warning { code: String, message: String },
    Error { error: Dot001Error },
}

/// Events of parsing.
#[derive(Debug, Clone)]
#[allow(inconsistent_fields)]
pub enum ParserEvent {
    Started { input: String, file_size: Option<u64> },
    HeaderParsed { version: String, endianness: String, pointer_size: u8 },
    DnaParsed { struct_count: usize, name_count: usize },
    BlockParsed { index: usize, block_type: String, size: usize },
    Warning { code: String, message: String },
    Error { error: Dot001Error },
    Finished { total_blocks: usize, total_size: u64, duration_ms: u64 },
}

/// Events of dependency tracing.
#[derive(Debug, Clone)]
#[allow(inconsistent_fields)]
pub enum TracerEvent {
    Started { root_blocks: Vec<String>, options: String },
    BlockExpansionStarted { block_type: String, block_index: usize },
    BlockExpanded { block_type: String, block_index: usize, dependencies_found: usize },
    FilterApplied { filter_name: String, blocks_before: usize, blocks_after: usize },
    NameResolved { original_name: String, resolved_name: String, block_type: String },
    Warning { code: String, message: String, block_index: Option<usize> },
    Error { error: Dot001Error },
    Finished { total_blocks_traced: usize, unique_dependencies: usize, duration_ms: u64 },
}

/// Events of file comparison.
#[derive(Debug, Clone)]
#[allow(inconsistent_fields)]
pub enum DiffEvent {
    Started { lhs: String, rhs: String, diff_type: String },
    PolicyApplied { policy: String, blocks_affected: usize },
    Mismatch { path: String, detail: String, severity: String },
    BlocksMatched { block_type: String, count: usize },
    Warning { code: String, message: String },
    Error { error: Dot001Error },
    Summary { matched_blocks: usize, mismatched_blocks: usize, total_blocks: usize, duration_ms: u64 },
}

/// Events of editing.
#[derive(Debug, Clone)]
#[allow(inconsistent_fields)]
pub enum EditorEvent {
    Started { operation: String, target_file: String, block_count: Option<usize> },
    BlockEdited {
        operation: String,
        block_index: usize,
        block_type: String,
        old_value: Option<String>,
        new_value: String,
    },
    BatchProgress { operation: String, completed: usize, total: usize },
    ValidationPerformed { validator: String, passed: bool, message: Option<String> },
    Warning { code: String, message: String, block_index: Option<usize> },
    Error { error: Dot001Error },
    Finished { operation: String, blocks_modified: usize, duration_ms: u64, success: bool },
}

/// Events of writing.
#[derive(Debug, Clone)]
#[allow(inconsistent_fields)]
pub enum WriterEvent {
    Started { operation: String, target_file: String },
    HeaderGenerated { version: String, block_count: usize },
    BlockInjectionStarted { total_blocks: usize },
    BlockWritten { block_type: String, block_index: usize, size: usize },
    DnaUpdated { new_structs: usize, new_names: usize },
    PreviewGenerated { preview_path: String, blocks_included: usize },
    Warning { code: String, message: String },
    Error { error: Dot001Error },
    Finished { operation: String, bytes_written: u64, blocks_written: usize, duration_ms: u64, success: bool },
}

/// Events of watching the file system.
#[derive(Debug, Clone)]
#[allow(inconsistent_fields)]
pub enum WatcherEvent {
    Started { watch_paths: Vec<String>, recursive: bool },
    FileEvent { event_type: String, path: String, old_path: Option<String> },
    DirectoryEvent { event_type: String, path: String },
    ProcessingStarted { trigger_path: String, action: String },
    ProcessingCompleted { trigger_path: String, action: String, success: bool, duration_ms: u64 },
    Warning { code: String, message: String, path: Option<String> },
    Error { error: Dot001Error },
    Stopped { reason: String },
}

/// Events of the command line.
#[derive(Debug, Clone)]
#[allow(inconsistent_fields)]
pub enum CliEvent {
    CommandStarted { command: String, args: Vec<String> },
    SubcommandExecuted { subcommand: String, success: bool, duration_ms: u64 },
    OutputFormatted { format: String, lines: usize },
    InputRequested { prompt: String, input_type: String },
    InputReceived { input_type: String, value: String },
    Warning { code: String, message: String },
    Error { error: Dot001Error },
    CommandCompleted { command: String, exit_code: i32, duration_ms: u64 },
}

/// An event of one of the domains.
#[derive(Debug, Clone)]
pub enum Event {
    Core(CoreEvent),
    Parser(ParserEvent),
    Tracer(TracerEvent),
    Diff(DiffEvent),
    Editor(EditorEvent),
    Writer(WriterEvent),
    Watcher(WatcherEvent),
    Cli(CliEvent),
}

/// The severity an event has by default: failures and errors are errors,
/// warnings warnings, starts and finishes information, steps debug or trace;
/// a mismatch by its stated severity (`critical` an error, `major` a warning).
pub open spec fn spec_default_severity(e: Event) -> Severity {
    match e {
        Event::Core(c) => match c {
            CoreEvent::Started { .. } => Severity::Info,
            CoreEvent::Finished { success, .. } => if success {
                Severity::Info
            } else {
                Severity::Error
            },
            CoreEvent::Progress { .. } => Severity::Debug,
            CoreEvent::Info { .. } => Severity::Info,
            CoreEvent::Warning { .. } => Severity::Warn,
            CoreEvent::Error { .. } => Severity::Error,
        },
        Event::Parser(p) => match p {
            ParserEvent::Started { .. } => Severity::Info,
            ParserEvent::HeaderParsed { .. } => Severity::Debug,
            ParserEvent::DnaParsed { .. } => Severity::Debug,
            ParserEvent::BlockParsed { .. } => Severity::Trace,
            ParserEvent::Warning { .. } => Severity::Warn,
            ParserEvent::Error { .. } => Severity::Error,
            ParserEvent::Finished { .. } => Severity::Info,
        },
        Event::Tracer(t) => match t {
            TracerEvent::Started { .. } => Severity::Info,
            TracerEvent::BlockExpansionStarted { .. } => Severity::Debug,
            TracerEvent::BlockExpanded { .. } => Severity::Debug,
            TracerEvent::FilterApplied { .. } => Severity::Debug,
            TracerEvent::NameResolved { .. } => Severity::Trace,
            TracerEvent::Warning { .. } => Severity::Warn,
            TracerEvent::Error { .. } => Severity::Error,
            TracerEvent::Finished { .. } => Severity::Info,
        },
        Event::Diff(d) => match d {
            DiffEvent::Started { .. } => Severity::Info,
            DiffEvent::PolicyApplied { .. } => Severity::Debug,
            DiffEvent::Mismatch { severity, .. } => if severity@ == "critical"@ {
                Severity::Error
            } else if severity@ == "major"@ {
                Severity::Warn
            } else {
                Severity::Info
            },
            DiffEvent::BlocksMatched { .. } => Severity::Debug,
            DiffEvent::Warning { .. } => Severity::Warn,
            DiffEvent::Error { .. } => Severity::Error,
            DiffEvent::Summary { .. } => Severity::Info,
        },
        Event::Editor(d) => match d {
            EditorEvent::Started { .. } => Severity::Info,
            EditorEvent::BlockEdited { .. } => Severity::Debug,
            EditorEvent::BatchProgress { .. } => Severity::Debug,
            EditorEvent::ValidationPerformed { passed, .. } => if passed {
                Severity::Debug
            } else {
                Severity::Warn
            },
            EditorEvent::Warning { .. } => Severity::Warn,
            EditorEvent::Error { .. } => Severity::Error,
            EditorEvent::Finished { success, .. } => if success {
                Severity::Info
            } else {
                Severity::Error
            },
        },
        Event::Writer(w) => match w {
            WriterEvent::Started { .. } => Severity::Info,
            WriterEvent::HeaderGenerated { .. } => Severity::Debug,
            WriterEvent::BlockInjectionStarted { .. } => Severity::Debug,
            WriterEvent::BlockWritten { .. } => Severity::Trace,
            WriterEvent::DnaUpdated { .. } => Severity::Debug,
            WriterEvent::PreviewGenerated { .. } => Severity::Info,
            WriterEvent::Warning { .. } => Severity::Warn,
            WriterEvent::Error { .. } => Severity::Error,
            WriterEvent::Finished { success, .. } => if success {
                Severity::Info
            } else {
                Severity::Error
            },
        },
        Event::Watcher(w) => match w {
            WatcherEvent::Started { .. } => Severity::Info,
            WatcherEvent::FileEvent { .. } => Severity::Debug,
            WatcherEvent::DirectoryEvent { .. } => Severity::Debug,
            WatcherEvent::ProcessingStarted { .. } => Severity::Info,
            WatcherEvent::ProcessingCompleted { success, .. } => if success {
                Severity::Info
            } else {
                Severity::Error
            },
            WatcherEvent::Warning { .. } => Severity::Warn,
            WatcherEvent::Error { .. } => Severity::Error,
            WatcherEvent::Stopped { .. } => Severity::Info,
        },
        Event::Cli(c) => match c {
            CliEvent::CommandStarted { .. } => Severity::Debug,
            CliEvent::SubcommandExecuted { success, .. } => if success {
                Severity::Debug
            } else {
                Severity::Error
            },
            CliEvent::OutputFormatted { .. } => Severity::Trace,
            CliEvent::InputRequested { .. } => Severity::Info,
            CliEvent::InputReceived { .. } => Severity::Debug,
            CliEvent::Warning { .. } => Severity::Warn,
            CliEvent::Error { .. } => Severity::Error,
            CliEvent::CommandCompleted { exit_code, .. } => if exit_code == 0 {
                Severity::Info
            } else {
                Severity::Error
            },
        },
    }
}

/// The name of an event's domain.
pub open spec fn spec_domain(e: Event) -> Seq<char> {
    match e {
        Event::Core(_) => "core"@,
        Event::Parser(_) => "parser"@,
        Event::Tracer(_) => "tracer"@,
        Event::Diff(_) => "diff"@,
        Event::Editor(_) => "editor"@,
        Event::Writer(_) => "writer"@,
        Event::Watcher(_) => "watcher"@,
        Event::Cli(_) => "cli"@,
    }
}

/// The short name of an event's kind.
pub open spec fn spec_event_name(e: Event) -> Seq<char> {
    match e {
        Event::Core(c) => match c {
            CoreEvent::Started { .. } => "started"@,
            CoreEvent::Finished { .. } => "finished"@,
            CoreEvent::Progress { .. } => "progress"@,
            CoreEvent::Info { .. } => "info"@,
            CoreEvent::Warning { .. } => "warning"@,
            CoreEvent::Error { .. } => "error"@,
        },
        Event::Parser(p) => match p {
            ParserEvent::Started { .. } => "started"@,
            ParserEvent::HeaderParsed { .. } => "header_parsed"@,
            ParserEvent::DnaParsed { .. } => "dna_parsed"@,
            ParserEvent::BlockParsed { .. } => "block_parsed"@,
            ParserEvent::Warning { .. } => "warning"@,
            ParserEvent::Error { .. } => "error"@,
            ParserEvent::Finished { .. } => "finished"@,
        },
        Event::Tracer(t) => match t {
            TracerEvent::Started { .. } => "started"@,
            TracerEvent::BlockExpansionStarted { .. } => "block_expansion_started"@,
            TracerEvent::BlockExpanded { .. } => "block_expanded"@,
            TracerEvent::FilterApplied { .. } => "filter_applied"@,
            TracerEvent::NameResolved { .. } => "name_resolved"@,
            TracerEvent::Warning { .. } => "warning"@,
            TracerEvent::Error { .. } => "error"@,
            TracerEvent::Finished { .. } => "finished"@,
        },
        Event::Diff(d) => match d {
            DiffEvent::Started { .. } => "started"@,
            DiffEvent::PolicyApplied { .. } => "policy_applied"@,
            DiffEvent::Mismatch { .. } => "mismatch"@,
            DiffEvent::BlocksMatched { .. } => "blocks_matched"@,
            DiffEvent::Warning { .. } => "warning"@,
            DiffEvent::Error { .. } => "error"@,
            DiffEvent::Summary { .. } => "summary"@,
        },
        Event::Editor(d) => match d {
            EditorEvent::Started { .. } => "started"@,
            EditorEvent::BlockEdited { .. } => "block_edited"@,
            EditorEvent::BatchProgress { .. } => "batch_progress"@,
            EditorEvent::ValidationPerformed { .. } => "validation_performed"@,
            EditorEvent::Warning { .. } => "warning"@,
            EditorEvent::Error { .. } => "error"@,
            EditorEvent::Finished { .. } => "finished"@,
        },
        Event::Writer(w) => match w {
            WriterEvent::Started { .. } => "started"@,
            WriterEvent::HeaderGenerated { .. } => "header_generated"@,
            WriterEvent::BlockInjectionStarted { .. } => "block_injection_started"@,
            WriterEvent::BlockWritten { .. } => "block_written"@,
            WriterEvent::DnaUpdated { .. } => "dna_updated"@,
            WriterEvent::PreviewGenerated { .. } => "preview_generated"@,
            WriterEvent::Warning { .. } => "warning"@,
            WriterEvent::Error { .. } => "error"@,
            WriterEvent::Finished { .. } => "finished"@,
        },
        Event::Watcher(w) => match w {
            WatcherEvent::Started { .. } => "started"@,
            WatcherEvent::FileEvent { .. } => "file_event"@,
            WatcherEvent::DirectoryEvent { .. } => "directory_event"@,
            WatcherEvent::ProcessingStarted { .. } => "processing_started"@,
            WatcherEvent::ProcessingCompleted { .. } => "processing_completed"@,
            WatcherEvent::Warning { .. } => "warning"@,
            WatcherEvent::Error { .. } => "error"@,
            WatcherEvent::Stopped { .. } => "stopped"@,
        },
        Event::Cli(c) => match c {
            CliEvent::CommandStarted { .. } => "command_started"@,
            CliEvent::SubcommandExecuted { .. } => "subcommand_executed"@,
            CliEvent::OutputFormatted { .. } => "output_formatted"@,
            CliEvent::InputRequested { .. } => "input_requested"@,
            CliEvent::InputReceived { .. } => "input_received"@,
            CliEvent::Warning { .. } => "warning"@,
            CliEvent::Error { .. } => "error"@,
            CliEvent::CommandCompleted { .. } => "command_completed"@,
        },
    }
}


impl Event {
    /// The severity this event has by default (see `spec_default_severity`).
    pub fn default_severity(&self) -> (r: Severity)
        ensures
            r == spec_default_severity(*self),
    {
        match self {
            Event::Core(c) => match c {
                CoreEvent::Started { .. } => Severity::Info,
                CoreEvent::Finished { success, .. } => if *success {
                    Severity::Info
                } else {
                    Severity::Error
                },
                CoreEvent::Progress { .. } => Severity::Debug,
                CoreEvent::Info { .. } => Severity::Info,
                CoreEvent::Warning { .. } => Severity::Warn,
                CoreEvent::Error { .. } => Severity::Error,
            },
            Event::Parser(p) => match p {
                ParserEvent::Started { .. } => Severity::Info,
                ParserEvent::HeaderParsed { .. } => Severity::Debug,
                ParserEvent::DnaParsed { .. } => Severity::Debug,
                ParserEvent::BlockParsed { .. } => Severity::Trace,
                ParserEvent::Warning { .. } => Severity::Warn,
                ParserEvent::Error { .. } => Severity::Error,
                ParserEvent::Finished { .. } => Severity::Info,
            },
            Event::Tracer(t) => match t {
                TracerEvent::Started { .. } => Severity::Info,
                TracerEvent::BlockExpansionStarted { .. } => Severity::Debug,
                TracerEvent::BlockExpanded { .. } => Severity::Debug,
                TracerEvent::FilterApplied { .. } => Severity::Debug,
                TracerEvent::NameResolved { .. } => Severity::Trace,
                TracerEvent::Warning { .. } => Severity::Warn,
                TracerEvent::Error { .. } => Severity::Error,
                TracerEvent::Finished { .. } => Severity::Info,
            },
            Event::Diff(d) => match d {
                DiffEvent::Started { .. } => Severity::Info,
                DiffEvent::PolicyApplied { .. } => Severity::Debug,
                DiffEvent::Mismatch { severity, .. } => if crate::text::str_eq(severity.as_str(), "critical") {
                    Severity::Error
                } else if crate::text::str_eq(severity.as_str(), "major") {
                    Severity::Warn
                } else {
                    Severity::Info
                },
                DiffEvent::BlocksMatched { .. } => Severity::Debug,
                DiffEvent::Warning { .. } => Severity::Warn,
                DiffEvent::Error { .. } => Severity::Error,
                DiffEvent::Summary { .. } => Severity::Info,
            },
            Event::Editor(d) => match d {
                EditorEvent::Started { .. } => Severity::Info,
                EditorEvent::BlockEdited { .. } => Severity::Debug,
                EditorEvent::BatchProgress { .. } => Severity::Debug,
                EditorEvent::ValidationPerformed { passed, .. } => if *passed {
                    Severity::Debug
                } else {
                    Severity::Warn
                },
                EditorEvent::Warning { .. } => Severity::Warn,
                EditorEvent::Error { .. } => Severity::Error,
                EditorEvent::Finished { success, .. } => if *success {
                    Severity::Info
                } else {
                    Severity::Error
                },
            },
            Event::Writer(w) => match w {
                WriterEvent::Started { .. } => Severity::Info,
                WriterEvent::HeaderGenerated { .. } => Severity::Debug,
                WriterEvent::BlockInjectionStarted { .. } => Severity::Debug,
                WriterEvent::BlockWritten { .. } => Severity::Trace,
                WriterEvent::DnaUpdated { .. } => Severity::Debug,
                WriterEvent::PreviewGenerated { .. } => Severity::Info,
                WriterEvent::Warning { .. } => Severity::Warn,
                WriterEvent::Error { .. } => Severity::Error,
                WriterEvent::Finished { success, .. } => if *success {
                    Severity::Info
                } else {
                    Severity::Error
                },
            },
            Event::Watcher(w) => match w {
                WatcherEvent::Started { .. } => Severity::Info,
                WatcherEvent::FileEvent { .. } => Severity::Debug,
                WatcherEvent::DirectoryEvent { .. } => Severity::Debug,
                WatcherEvent::ProcessingStarted { .. } => Severity::Info,
                WatcherEvent::ProcessingCompleted { success, .. } => if *success {
                    Severity::Info
                } else {
                    Severity::Error
                },
                WatcherEvent::Warning { .. } => Severity::Warn,
                WatcherEvent::Error { .. } => Severity::Error,
                WatcherEvent::Stopped { .. } => Severity::Info,
            },
            Event::Cli(c) => match c {
                CliEvent::CommandStarted { .. } => Severity::Debug,
                CliEvent::SubcommandExecuted { success, .. } => if *success {
                    Severity::Debug
                } else {
                    Severity::Error
                },
                CliEvent::OutputFormatted { .. } => Severity::Trace,
                CliEvent::InputRequested { .. } => Severity::Info,
                CliEvent::InputReceived { .. } => Severity::Debug,
                CliEvent::Warning { .. } => Severity::Warn,
                CliEvent::Error { .. } => Severity::Error,
                CliEvent::CommandCompleted { exit_code, .. } => if *exit_code == 0 {
                    Severity::Info
                } else {
                    Severity::Error
                },
            },
        }
    }

    /// The name of this event's domain (`core`, `parser`, `tracer`, `diff`,
    /// `editor`, `writer`, `watcher` or `cli`).
    pub fn domain(&self) -> (r: &'static str)
        ensures
            r@ == spec_domain(*self),
    {
        match self {
            Event::Core(_) => "core",
            Event::Parser(_) => "parser",
            Event::Tracer(_) => "tracer",
            Event::Diff(_) => "diff",
            Event::Editor(_) => "editor",
            Event::Writer(_) => "writer",
            Event::Watcher(_) => "watcher",
            Event::Cli(_) => "cli",
        }
    }

    /// The short name of this event's kind (see `spec_event_name`).
    pub fn event_name(&self) -> (r: &'static str)
        ensures
            r@ == spec_event_name(*self),
    {
        match self {
            Event::Core(c) => match c {
                CoreEvent::Started { .. } => "started",
                CoreEvent::Finished { .. } => "finished",
                CoreEvent::Progress { .. } => "progress",
                CoreEvent::Info { .. } => "info",
                CoreEvent::Warning { .. } => "warning",
                CoreEvent::Error { .. } => "error",
            },
            Event::Parser(p) => match p {
                ParserEvent::Started { .. } => "started",
                ParserEvent::HeaderParsed { .. } => "header_parsed",
                ParserEvent::DnaParsed { .. } => "dna_parsed",
                ParserEvent::BlockParsed { .. } => "block_parsed",
                ParserEvent::Warning { .. } => "warning",
                ParserEvent::Error { .. } => "error",
                ParserEvent::Finished { .. } => "finished",
            },
            Event::Tracer(t) => match t {
                TracerEvent::Started { .. } => "started",
                TracerEvent::BlockExpansionStarted { .. } => "block_expansion_started",
                TracerEvent::BlockExpanded { .. } => "block_expanded",
                TracerEvent::FilterApplied { .. } => "filter_applied",
                TracerEvent::NameResolved { .. } => "name_resolved",
                TracerEvent::Warning { .. } => "warning",
                TracerEvent::Error { .. } => "error",
                TracerEvent::Finished { .. } => "finished",
            },
            Event::Diff(d) => match d {
                DiffEvent::Started { .. } => "started",
                DiffEvent::PolicyApplied { .. } => "policy_applied",
                DiffEvent::Mismatch { .. } => "mismatch",
                DiffEvent::BlocksMatched { .. } => "blocks_matched",
                DiffEvent::Warning { .. } => "warning",
                DiffEvent::Error { .. } => "error",
                DiffEvent::Summary { .. } => "summary",
            },
            Event::Editor(d) => match d {
                EditorEvent::Started { .. } => "started",
                EditorEvent::BlockEdited { .. } => "block_edited",
                EditorEvent::BatchProgress { .. } => "batch_progress",
                EditorEvent::ValidationPerformed { .. } => "validation_performed",
                EditorEvent::Warning { .. } => "warning",
                EditorEvent::Error { .. } => "error",
                EditorEvent::Finished { .. } => "finished",
            },
            Event::Writer(w) => match w {
                WriterEvent::Started { .. } => "started",
                WriterEvent::HeaderGenerated { .. } => "header_generated",
                WriterEvent::BlockInjectionStarted { .. } => "block_injection_started",
                WriterEvent::BlockWritten { .. } => "block_written",
                WriterEvent::DnaUpdated { .. } => "dna_updated",
                WriterEvent::PreviewGenerated { .. } => "preview_generated",
                WriterEvent::Warning { .. } => "warning",
                WriterEvent::Error { .. } => "error",
                WriterEvent::Finished { .. } => "finished",
            },
            Event::Watcher(w) => match w {
                WatcherEvent::Started { .. } => "started",
                WatcherEvent::FileEvent { .. } => "file_event",
                WatcherEvent::DirectoryEvent { .. } => "directory_event",
                WatcherEvent::ProcessingStarted { .. } => "processing_started",
                WatcherEvent::ProcessingCompleted { .. } => "processing_completed",
                WatcherEvent::Warning { .. } => "warning",
                WatcherEvent::Error { .. } => "error",
                WatcherEvent::Stopped { .. } => "stopped",
            },
            Event::Cli(c) => match c {
                CliEvent::CommandStarted { .. } => "command_started",
                CliEvent::SubcommandExecuted { .. } => "subcommand_executed",
                CliEvent::OutputFormatted { .. } => "output_formatted",
                CliEvent::InputRequested { .. } => "input_requested",
                CliEvent::InputReceived { .. } => "input_received",
                CliEvent::Warning { .. } => "warning",
                CliEvent::Error { .. } => "error",
                CliEvent::CommandCompleted { .. } => "command_completed",
            },
        }
    }
}

/// When and how severe an event is, with optional context.
#[derive(Debug, Clone)]
pub struct EventMetadata {
    pub timestamp: SystemTime,
    pub severity: Severity,
    pub context: Option<Kv>,
}

/// An event with its metadata.
#[derive(Debug, Clone)]
pub struct EventWithMetadata {
    pub event: Event,
    pub metadata: EventMetadata,
}

impl EventWithMetadata {
    /// The event with this severity and context, stamped with the current time.
    pub fn new(event: Event, severity: Severity, context: Option<Kv>) -> (r: Self)
        ensures
            r.event == event,
            r.metadata.severity == severity,
            r.metadata.context == context,
    {
        EventWithMetadata { event, metadata: EventMetadata { timestamp: system_now(), severity, context } }
    }

    /// The event with its default severity and this context, stamped with the current time.
    pub fn with_default_severity(event: Event, context: Option<Kv>) -> (r: Self)
        ensures
            r.event == event,
            r.metadata.severity == spec_default_severity(event),
            r.metadata.context == context,
    {
        let severity = event.default_severity();
        Self::new(event, severity, context)
    }
}

/// Which events a subscriber receives: at least a severity, and optionally
/// only some domains.
#[derive(Debug, Clone)]
pub struct EventFilter {
    pub min_severity: Severity,
    pub domains: Option<Vec<String>>,
}

/// Whether filter `f` lets event `e` through.
pub open spec fn spec_matches(f: EventFilter, e: EventWithMetadata) -> bool {
    &&& rank(e.metadata.severity) >= rank(f.min_severity)
    &&& match f.domains {
        Some(v) => crate::dna::strings_view(v@).contains(spec_domain(e.event)),
        None => true,
    }
}

impl EventFilter {
    /// A filter letting through every event of severity `Info` or more.
    pub fn new() -> (r: Self)
        ensures
            r.min_severity == Severity::Info,
            r.domains is None,
    {
        EventFilter { min_severity: Severity::Info, domains: None }
    }

    /// This filter with another least severity.
    pub fn min_severity(self, severity: Severity) -> (r: Self)
        ensures
            r.min_severity == severity,
            r.domains == self.domains,
    {
        EventFilter { min_severity: severity, domains: self.domains }
    }

    /// This filter restricted to the given domains.
    pub fn domains(self, domains: Vec<&str>) -> (r: Self)
        ensures
            r.min_severity == self.min_severity,
            r.domains matches Some(v) && crate::dna::strings_view(v@) == domains@.map_values(|d: &str| d@),
    {
        let mut v: Vec<String> = Vec::new();
        let mut i: usize = 0;
        while i < domains.len()
            invariant
                i <= domains.len(),
                crate::dna::strings_view(v@) == domains@.subrange(0, i as int).map_values(|d: &str| d@),
            decreases domains.len() - i,
        {
            let ghost pre = crate::dna::strings_view(v@);
            v.push(String::from_str(domains[i]));
            assert(crate::dna::strings_view(v@) =~= pre.push(domains@[i as int]@));
            assert(domains@.subrange(0, i + 1).map_values(|d: &str| d@) =~= domains@.subrange(0, i as int).map_values(
                |d: &str| d@,
            ).push(domains@[i as int]@));
            i = i + 1;
        }
        assert(domains@.subrange(0, domains.len() as int) =~= domains@);
        EventFilter { min_severity: self.min_severity, domains: Some(v) }
    }

    /// Whether this filter lets the event through (see `spec_matches`).
    pub fn matches(&self, event: &EventWithMetadata) -> (r: bool)
        ensures
            r == spec_matches(*self, *event),
    {
        if !event.metadata.severity.should_show(self.min_severity) {
            return false;
        }
        match &self.domains {
            Some(allowed) => {
                let d = event.event.domain();
                let mut i: usize = 0;
                while i < allowed.len()
                    invariant
                        i <= allowed.len(),
                        d@ == spec_domain(event.event),
                        rank(event.metadata.severity) >= rank(self.min_severity),
                        self.domains == Some(*allowed),
                        forall|j: int| 0 <= j < i ==> allowed@[j]@ != d@,
                    decreases allowed.len() - i,
                {
                    if crate::text::str_eq(allowed[i].as_str(), d) {
                        assert(crate::dna::strings_view(allowed@)[i as int] == d@);
                        assert(crate::dna::strings_view(allowed@).contains(d@));
                        return true;
                    }
                    i = i + 1;
                }
                assert(!crate::dna::strings_view(allowed@).contains(d@)) by {
                    if crate::dna::strings_view(allowed@).contains(d@) {
                        let j = choose|j: int|
                            0 <= j < crate::dna::strings_view(allowed@).len() && crate::dna::strings_view(
                                allowed@,
                            )[j] == d@;
                        assert(allowed@[j]@ == d@);
                    }
                }
                false
            },
            None => true,
        }
    }
}

/// Raising the least severity of a filter lets through no event it stopped.
pub proof fn lemma_filter_monotone(f: EventFilter, e: EventWithMetadata, s: Severity)
    requires
        rank(s) >= rank(f.min_severity),
    ensures
        spec_matches(EventFilter { min_severity: s, ..f }, e) ==> spec_matches(f, e),
{
}

impl Default for EventFilter {
    fn default() -> (r: Self)
        ensures
            r.min_severity == Severity::Info,
            r.domains is None,
    {
        EventFilter::new()
    }
}

/// Statistics of an event bus.
#[derive(Debug, Clone)]
pub struct BusStats {
    pub events_published: u64,
    pub active_subscriptions: usize,
    pub channel_capacity: usize,
    pub events_dropped: u64,
}

/// A subscriber that hands each event to a function.
pub struct ClosureSubscriber<F> {
    pub handler: F,
}

impl<F> ClosureSubscriber<F> {
    /// A subscriber calling `handler`.
    pub fn new(handler: F) -> (r: Self)
        ensures
            r.handler == handler,
    {
        ClosureSubscriber { handler }
    }
}

/// The upper-case name of a severity.
pub open spec fn severity_name(s: Severity) -> Seq<char> {
    match s {
        Severity::Trace => "TRACE"@,
        Severity::Debug => "DEBUG"@,
        Severity::Info => "INFO"@,
        Severity::Warn => "WARN"@,
        Severity::Error => "ERROR"@,
    }
}

/// The upper-case name of a severity (see `severity_name`).
pub fn format_severity(severity: Severity) -> (r: &'static str)
    ensures
        r@ == severity_name(severity),
{
    match severity {
        Severity::Trace => "TRACE",
        Severity::Debug => "DEBUG",
        Severity::Info => "INFO",
        Severity::Warn => "WARN",
        Severity::Error => "ERROR",
    }
}

/// A subscriber that prints `[SEVERITY] domain: name` for each event.
pub struct PrintSubscriber;

impl PrintSubscriber {
    /// The line printed for an event.
    pub fn line(&self, event: &EventWithMetadata) -> (r: String)
        ensures
            r@ == "["@ + severity_name(event.metadata.severity) + "] "@ + spec_domain(event.event) + ": "@
                + spec_event_name(event.event),
    {
        let mut out = String::from_str("[");
        out.append(format_severity(event.metadata.severity));
        out.append("] ");
        out.append(event.event.domain());
        out.append(": ");
        out.append(event.event.event_name());
        out
    }
}

} // verus!
