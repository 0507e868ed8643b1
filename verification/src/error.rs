//! One error type for every part of the toolkit, with the context of where it arose.
use vstd::prelude::*;
use vstd::string::*;

verus! {

/// What went wrong while reading a blend file.
#[derive(Debug, Clone, Copy, PartialEq, Eq, Structural)]
pub enum BlendFileErrorKind {
    InvalidHeader,
    InvalidMagic,
    UnsupportedVersion,
    NoDnaFound,
    InvalidBlockIndex,
    DnaError,
    InvalidData,
    InvalidField,
    UnsupportedCompression,
    DecompressionFailed,
    SizeLimitExceeded,
}

/// What went wrong while editing a blend file.
#[derive(Debug, Clone, Copy, PartialEq, Eq, Structural)]
pub enum EditorErrorKind {
    BlockNotFound,
    NoIdStructure,
    InvalidName,
    NameTooLong,
    InvalidCharacters,
    InvalidLibraryPath,
    OperationNotPermitted,
}

/// What went wrong while comparing blend files.
#[derive(Debug, Clone, Copy, PartialEq, Eq, Structural)]
pub enum DiffErrorKind {
    IncompatibleFiles,
    AnalysisFailed,
    InsufficientData,
    MeshComparisonFailed,
}

/// What went wrong while tracing dependencies.
#[derive(Debug, Clone, Copy, PartialEq, Eq, Structural)]
pub enum TracerErrorKind {
    DependencyResolutionFailed,
    NameResolutionFailed,
    BlockExpansionFailed,
    CircularDependency,
}

/// What went wrong with a project checkpoint.
#[derive(Debug, Clone, Copy, PartialEq, Eq, Structural)]
pub enum CheckpointErrorKind {
    InvalidProjectPath,
    CreationFailed,
    RestorationFailed,
    StorageError,
}

/// What went wrong on the command line.
#[derive(Debug, Clone, Copy, PartialEq, Eq, Structural)]
pub enum CliErrorKind {
    InvalidArguments,
    MissingArgument,
    ExecutionFailed,
    OutputFormatError,
}

/// What went wrong with the configuration.
#[derive(Debug, Clone, Copy, PartialEq, Eq, Structural)]
pub enum ConfigErrorKind {
    NotFound,
    InvalidFormat,
    MissingRequired,
    InvalidValue,
}

/// An error of the toolkit, by domain, with its message and context.
#[allow(inconsistent_fields)]
#[derive(Debug, Clone)]
pub enum Dot001Error {
    Io { message: String, file_path: Option<String>, source_message: Option<String> },
    BlendFile {
        message: String,
        kind: BlendFileErrorKind,
        file_path: Option<String>,
        block_index: Option<usize>,
    },
    Editor {
        message: String,
        kind: EditorErrorKind,
        file_path: Option<String>,
        block_index: Option<usize>,
        operation: Option<String>,
    },
    Diff {
        message: String,
        kind: DiffErrorKind,
        file1_path: Option<String>,
        file2_path: Option<String>,
        block_index: Option<usize>,
    },
    Tracer {
        message: String,
        kind: TracerErrorKind,
        file_path: Option<String>,
        block_index: Option<usize>,
    },
    Checkpoint { message: String, kind: CheckpointErrorKind, project_path: Option<String> },
    Cli { message: String, kind: CliErrorKind, command: Option<String> },
    Config { message: String, kind: ConfigErrorKind, config_path: Option<String> },
}

/// Results of the toolkit.
pub type Result<T> = core::result::Result<T, Dot001Error>;

/// The message an error carries.
pub open spec fn spec_message(e: Dot001Error) -> Seq<char> {
    match e {
        Dot001Error::Io { message, .. } => message@,
        Dot001Error::BlendFile { message, .. } => message@,
        Dot001Error::Editor { message, .. } => message@,
        Dot001Error::Diff { message, .. } => message@,
        Dot001Error::Tracer { message, .. } => message@,
        Dot001Error::Checkpoint { message, .. } => message@,
        Dot001Error::Cli { message, .. } => message@,
        Dot001Error::Config { message, .. } => message@,
    }
}

/// Whether `e` is a blend file error of kind `k`.
pub open spec fn is_blend_error(e: Dot001Error, k: BlendFileErrorKind) -> bool {
    e matches Dot001Error::BlendFile { kind, .. } && kind == k
}

/// Whether `e` is the blend-file error of kind `k` with message `m` and no file or block.
pub open spec fn blend_error_with(e: Dot001Error, k: BlendFileErrorKind, m: Seq<char>) -> bool {
    e matches Dot001Error::BlendFile { message, kind, file_path: None, block_index: None } && kind == k
        && message@ == m
}

/// Whether `e` is the I/O error with message `m` that a failed read gives.
pub open spec fn io_error_with(e: Dot001Error, m: Seq<char>) -> bool {
    e matches Dot001Error::Io { message, file_path: None, source_message: Some(src) } && message@ == m && src@
        == "IO Error: "@ + m
}

/// Whether `e` is a tracer error of kind `k`.
pub open spec fn is_tracer_error(e: Dot001Error, k: TracerErrorKind) -> bool {
    e matches Dot001Error::Tracer { kind, .. } && kind == k
}

/// Whether `e` is an editor error of kind `k`.
pub open spec fn is_editor_error(e: Dot001Error, k: EditorErrorKind) -> bool {
    e matches Dot001Error::Editor { kind, .. } && kind == k
}

/// Whether `e` is a command line error of kind `k`.
pub open spec fn is_cli_error(e: Dot001Error, k: CliErrorKind) -> bool {
    e matches Dot001Error::Cli { kind, .. } && kind == k
}

/// The path of an optional path, by its characters.
pub open spec fn opt_view(p: Option<String>) -> Option<Seq<char>> {
    match p {
        Some(s) => Some(s@),
        None => None,
    }
}

/// The file path (or project or config path) an error carries.
pub open spec fn spec_file_path(e: Dot001Error) -> Option<Seq<char>> {
    match e {
        Dot001Error::Io { file_path, .. } => opt_view(file_path),
        Dot001Error::BlendFile { file_path, .. } => opt_view(file_path),
        Dot001Error::Editor { file_path, .. } => opt_view(file_path),
        Dot001Error::Tracer { file_path, .. } => opt_view(file_path),
        Dot001Error::Diff { file1_path, .. } => opt_view(file1_path),
        Dot001Error::Checkpoint { project_path, .. } => opt_view(project_path),
        Dot001Error::Config { config_path, .. } => opt_view(config_path),
        Dot001Error::Cli { .. } => None,
    }
}

/// The block index an error carries.
pub open spec fn spec_block_index(e: Dot001Error) -> Option<usize> {
    match e {
        Dot001Error::BlendFile { block_index, .. } => block_index,
        Dot001Error::Editor { block_index, .. } => block_index,
        Dot001Error::Tracer { block_index, .. } => block_index,
        Dot001Error::Diff { block_index, .. } => block_index,
        _ => None,
    }
}

/// Whether the error's domain records a block index.
pub open spec fn has_block_index_slot(e: Dot001Error) -> bool {
    e is BlendFile || e is Editor || e is Tracer || e is Diff
}

/// The error with its file path slot (if it has one) set to `p`; all else unchanged.
pub open spec fn spec_with_file_path(e: Dot001Error, p: String) -> Dot001Error {
    match e {
        Dot001Error::Io { message, file_path, source_message } =>
            Dot001Error::Io { message, file_path: Some(p), source_message },
        Dot001Error::BlendFile { message, kind, file_path, block_index } =>
            Dot001Error::BlendFile { message, kind, file_path: Some(p), block_index },
        Dot001Error::Editor { message, kind, file_path, block_index, operation } =>
            Dot001Error::Editor { message, kind, file_path: Some(p), block_index, operation },
        Dot001Error::Tracer { message, kind, file_path, block_index } =>
            Dot001Error::Tracer { message, kind, file_path: Some(p), block_index },
        Dot001Error::Diff { message, kind, file1_path, file2_path, block_index } =>
            Dot001Error::Diff { message, kind, file1_path: Some(p), file2_path, block_index },
        Dot001Error::Checkpoint { message, kind, project_path } =>
            Dot001Error::Checkpoint { message, kind, project_path: Some(p) },
        Dot001Error::Config { message, kind, config_path } =>
            Dot001Error::Config { message, kind, config_path: Some(p) },
        Dot001Error::Cli { message, kind, command } => Dot001Error::Cli { message, kind, command },
    }
}

/// The error with its block index slot (if it has one) set to `i`; all else unchanged.
pub open spec fn spec_with_block_index(e: Dot001Error, i: usize) -> Dot001Error {
    match e {
        Dot001Error::BlendFile { message, kind, file_path, block_index } =>
            Dot001Error::BlendFile { message, kind, file_path, block_index: Some(i) },
        Dot001Error::Editor { message, kind, file_path, block_index, operation } =>
            Dot001Error::Editor { message, kind, file_path, block_index: Some(i), operation },
        Dot001Error::Tracer { message, kind, file_path, block_index } =>
            Dot001Error::Tracer { message, kind, file_path, block_index: Some(i) },
        Dot001Error::Diff { message, kind, file1_path, file2_path, block_index } =>
            Dot001Error::Diff { message, kind, file1_path, file2_path, block_index: Some(i) },
        other => other,
    }
}


/// `" (<label>: <path>)"` when the path is present, nothing otherwise.
pub open spec fn spec_ctx(label: Seq<char>, p: Option<String>) -> Seq<char> {
    match p {
        Some(s) => " ("@ + label + s@ + ")"@,
        None => Seq::empty(),
    }
}

/// The user-facing message of an error: the domain's phrase, the message, and the context.
pub open spec fn spec_user_message(e: Dot001Error) -> Seq<char> {
    match e {
        Dot001Error::Io { message, file_path, .. } => match file_path {
            Some(p) => "File operation failed on '"@ + p@ + "': "@ + message@,
            None => "File operation failed: "@ + message@,
        },
        Dot001Error::BlendFile { message, file_path, block_index, .. } =>
            "Blend file error: "@ + message@ + spec_ctx("file: "@, file_path) + (match block_index {
                Some(i) => " (block: "@ + crate::text::decimal(i as nat) + ")"@,
                None => Seq::empty(),
            }),
        Dot001Error::Editor { message, file_path, operation, .. } =>
            (match operation {
                Some(op) => "Edit failed during "@ + op@ + ": "@ + message@,
                None => "Edit failed: "@ + message@,
            }) + spec_ctx("file: "@, file_path),
        Dot001Error::Diff { message, file1_path, file2_path, .. } =>
            "Diff operation failed: "@ + message@ + (match (file1_path, file2_path) {
                (Some(f1), Some(f2)) => " (comparing "@ + f1@ + " vs "@ + f2@ + ")"@,
                (Some(f1), None) => " (file: "@ + f1@ + ")"@,
                _ => Seq::empty(),
            }),
        Dot001Error::Tracer { message, file_path, .. } =>
            "Dependency analysis failed: "@ + message@ + spec_ctx("file: "@, file_path),
        Dot001Error::Checkpoint { message, project_path, .. } =>
            "Checkpoint operation failed: "@ + message@ + spec_ctx("project: "@, project_path),
        Dot001Error::Cli { message, command, .. } => match command {
            Some(c) => "Command '"@ + c@ + "' failed: "@ + message@,
            None => "Command failed: "@ + message@,
        },
        Dot001Error::Config { message, config_path, .. } =>
            "Configuration error: "@ + message@ + spec_ctx("config: "@, config_path),
    }
}


/// Appends `" (<label><path>)"` to `out` when the path is present.
fn push_ctx(out: &mut String, label: &str, p: &Option<String>)
    ensures
        final(out)@ == old(out)@ + spec_ctx(label@, *p),
{
    if let Some(s) = p {
        out.append(" (");
        out.append(label);
        out.append(s.as_str());
        out.append(")");
    }
}

impl Dot001Error {
    /// An I/O error with the given message.
    pub fn io(message: &str) -> (r: Self)
        ensures
            r matches Dot001Error::Io { message: m, file_path: None, source_message: None } && m@ == message@,
    {
        Dot001Error::Io { message: String::from_str(message), file_path: None, source_message: None }
    }

    /// A blend file error of the given kind.
    pub fn blend_file(message: &str, kind: BlendFileErrorKind) -> (r: Self)
        ensures
            r matches Dot001Error::BlendFile { message: m, kind: k, file_path: None, block_index: None }
                && m@ == message@ && k == kind,
    {
        Dot001Error::BlendFile { message: String::from_str(message), kind, file_path: None, block_index: None }
    }

    /// An editor error of the given kind.
    pub fn editor(message: &str, kind: EditorErrorKind) -> (r: Self)
        ensures
            r matches Dot001Error::Editor { message: m, kind: k, file_path: None, block_index: None, operation: None }
                && m@ == message@ && k == kind,
    {
        Dot001Error::Editor {
            message: String::from_str(message),
            kind,
            file_path: None,
            block_index: None,
            operation: None,
        }
    }

    /// A comparison error of the given kind.
    pub fn diff(message: &str, kind: DiffErrorKind) -> (r: Self)
        ensures
            r matches Dot001Error::Diff { message: m, kind: k, file1_path: None, file2_path: None, block_index: None }
                && m@ == message@ && k == kind,
    {
        Dot001Error::Diff {
            message: String::from_str(message),
            kind,
            file1_path: None,
            file2_path: None,
            block_index: None,
        }
    }

    /// A tracer error of the given kind.
    pub fn tracer(message: &str, kind: TracerErrorKind) -> (r: Self)
        ensures
            r matches Dot001Error::Tracer { message: m, kind: k, file_path: None, block_index: None }
                && m@ == message@ && k == kind,
    {
        Dot001Error::Tracer { message: String::from_str(message), kind, file_path: None, block_index: None }
    }

    /// A checkpoint error of the given kind.
    pub fn checkpoint(message: &str, kind: CheckpointErrorKind) -> (r: Self)
        ensures
            r matches Dot001Error::Checkpoint { message: m, kind: k, project_path: None }
                && m@ == message@ && k == kind,
    {
        Dot001Error::Checkpoint { message: String::from_str(message), kind, project_path: None }
    }

    /// A command line error of the given kind.
    pub fn cli(message: &str, kind: CliErrorKind) -> (r: Self)
        ensures
            r matches Dot001Error::Cli { message: m, kind: k, command: None } && m@ == message@ && k == kind,
    {
        Dot001Error::Cli { message: String::from_str(message), kind, command: None }
    }

    /// A configuration error of the given kind.
    pub fn config(message: &str, kind: ConfigErrorKind) -> (r: Self)
        ensures
            r matches Dot001Error::Config { message: m, kind: k, config_path: None } && m@ == message@ && k == kind,
    {
        Dot001Error::Config { message: String::from_str(message), kind, config_path: None }
    }

    /// An I/O error converted from a failure whose description is `description`.
    pub fn from_io_description(description: &str) -> (r: Self)
        ensures
            r matches Dot001Error::Io { message: m, file_path: None, source_message: Some(s) }
                && m@ == description@ && s@ == "IO Error: "@ + description@,
    {
        let mut src = String::from_str("IO Error: ");
        src.append(description);
        Dot001Error::Io { message: String::from_str(description), file_path: None, source_message: Some(src) }
    }

    /// A blend file error for an invalid header.
    pub fn parser_invalid_header(message: &str) -> (r: Self)
        ensures
            is_blend_error(r, BlendFileErrorKind::InvalidHeader) && spec_message(r) == message@,
    {
        Self::blend_file(message, BlendFileErrorKind::InvalidHeader)
    }

    /// A tracer error for a failed dependency resolution.
    pub fn tracer_dependency_failed(message: &str) -> (r: Self)
        ensures
            is_tracer_error(r, TracerErrorKind::DependencyResolutionFailed) && spec_message(r) == message@,
    {
        Self::tracer(message, TracerErrorKind::DependencyResolutionFailed)
    }

    /// An editor error for a block that was not found.
    pub fn editor_block_not_found(message: &str) -> (r: Self)
        ensures
            is_editor_error(r, EditorErrorKind::BlockNotFound) && spec_message(r) == message@,
    {
        Self::editor(message, EditorErrorKind::BlockNotFound)
    }

    /// Sets the file path context; command line errors carry none and are unchanged.
    pub fn with_file_path(self, path: &str) -> (r: Self)
        ensures
            exists|p: String| p@ == path@ && r == spec_with_file_path(self, p),
    {
        let p = String::from_str(path);
        match self {
            Dot001Error::Io { message, file_path: _, source_message } =>
                Dot001Error::Io { message, file_path: Some(p), source_message },
            Dot001Error::BlendFile { message, kind, file_path: _, block_index } =>
                Dot001Error::BlendFile { message, kind, file_path: Some(p), block_index },
            Dot001Error::Editor { message, kind, file_path: _, block_index, operation } =>
                Dot001Error::Editor { message, kind, file_path: Some(p), block_index, operation },
            Dot001Error::Tracer { message, kind, file_path: _, block_index } =>
                Dot001Error::Tracer { message, kind, file_path: Some(p), block_index },
            Dot001Error::Diff { message, kind, file1_path: _, file2_path, block_index } =>
                Dot001Error::Diff { message, kind, file1_path: Some(p), file2_path, block_index },
            Dot001Error::Checkpoint { message, kind, project_path: _ } =>
                Dot001Error::Checkpoint { message, kind, project_path: Some(p) },
            Dot001Error::Config { message, kind, config_path: _ } =>
                Dot001Error::Config { message, kind, config_path: Some(p) },
            Dot001Error::Cli { message, kind, command } => Dot001Error::Cli { message, kind, command },
        }
    }

    /// Sets the block index context of blend file, editor, tracer and comparison errors.
    pub fn with_block_index(self, index: usize) -> (r: Self)
        ensures
            r == spec_with_block_index(self, index),
    {
        match self {
            Dot001Error::BlendFile { message, kind, file_path, block_index: _ } =>
                Dot001Error::BlendFile { message, kind, file_path, block_index: Some(index) },
            Dot001Error::Editor { message, kind, file_path, block_index: _, operation } =>
                Dot001Error::Editor { message, kind, file_path, block_index: Some(index), operation },
            Dot001Error::Tracer { message, kind, file_path, block_index: _ } =>
                Dot001Error::Tracer { message, kind, file_path, block_index: Some(index) },
            Dot001Error::Diff { message, kind, file1_path, file2_path, block_index: _ } =>
                Dot001Error::Diff { message, kind, file1_path, file2_path, block_index: Some(index) },
            other => other,
        }
    }

    /// Sets the operation context of an editor error; other errors are unchanged.
    pub fn with_operation(self, operation: &str) -> (r: Self)
        ensures
            self is Editor ==> (r matches Dot001Error::Editor { operation: Some(o), .. } && o@ == operation@
                && exists|o2: String| o2@ == operation@ && r == (match self {
                    Dot001Error::Editor { message, kind, file_path, block_index, .. } =>
                        Dot001Error::Editor { message, kind, file_path, block_index, operation: Some(o2) },
                    other => other,
                })),
            !(self is Editor) ==> r == self,
    {
        match self {
            Dot001Error::Editor { message, kind, file_path, block_index, operation: _ } => {
                let o = String::from_str(operation);
                Dot001Error::Editor { message, kind, file_path, block_index, operation: Some(o) }
            },
            other => other,
        }
    }

    /// Sets the command context of a command line error; other errors are unchanged.
    pub fn with_command(self, command: &str) -> (r: Self)
        ensures
            self is Cli ==> (r matches Dot001Error::Cli { message, kind, command: Some(c) }
                && c@ == command@ && message == self->Cli_message && kind == self->Cli_kind),
            !(self is Cli) ==> r == self,
    {
        match self {
            Dot001Error::Cli { message, kind, command: _ } => {
                let c = String::from_str(command);
                Dot001Error::Cli { message, kind, command: Some(c) }
            },
            other => other,
        }
    }

    /// Whether this is an I/O error.
    pub fn is_io(&self) -> (r: bool)
        ensures
            r == (*self is Io),
    {
        matches!(self, Dot001Error::Io { .. })
    }

    /// Whether this is a blend file error.
    pub fn is_blend_file(&self) -> (r: bool)
        ensures
            r == (*self is BlendFile),
    {
        matches!(self, Dot001Error::BlendFile { .. })
    }

    /// Whether this is an editor error.
    pub fn is_editor(&self) -> (r: bool)
        ensures
            r == (*self is Editor),
    {
        matches!(self, Dot001Error::Editor { .. })
    }

    /// Whether this is a comparison error.
    pub fn is_diff(&self) -> (r: bool)
        ensures
            r == (*self is Diff),
    {
        matches!(self, Dot001Error::Diff { .. })
    }

    /// Whether this is a tracer error.
    pub fn is_tracer(&self) -> (r: bool)
        ensures
            r == (*self is Tracer),
    {
        matches!(self, Dot001Error::Tracer { .. })
    }

    /// Whether this is a checkpoint error.
    pub fn is_checkpoint(&self) -> (r: bool)
        ensures
            r == (*self is Checkpoint),
    {
        matches!(self, Dot001Error::Checkpoint { .. })
    }

    /// Whether this is a command line error.
    pub fn is_cli(&self) -> (r: bool)
        ensures
            r == (*self is Cli),
    {
        matches!(self, Dot001Error::Cli { .. })
    }

    /// Whether this is a configuration error.
    pub fn is_config(&self) -> (r: bool)
        ensures
            r == (*self is Config),
    {
        matches!(self, Dot001Error::Config { .. })
    }

    /// The file path this error carries, if any.
    pub fn file_path(&self) -> (r: Option<&String>)
        ensures
            match r {
                Some(s) => spec_file_path(*self) == Some(s@),
                None => spec_file_path(*self) is None,
            },
    {
        match self {
            Dot001Error::Io { file_path, .. } => file_path.as_ref(),
            Dot001Error::BlendFile { file_path, .. } => file_path.as_ref(),
            Dot001Error::Editor { file_path, .. } => file_path.as_ref(),
            Dot001Error::Tracer { file_path, .. } => file_path.as_ref(),
            Dot001Error::Diff { file1_path, .. } => file1_path.as_ref(),
            Dot001Error::Checkpoint { project_path, .. } => project_path.as_ref(),
            Dot001Error::Config { config_path, .. } => config_path.as_ref(),
            Dot001Error::Cli { .. } => None,
        }
    }

    /// The block index this error carries, if any.
    pub fn block_index(&self) -> (r: Option<usize>)
        ensures
            r == spec_block_index(*self),
    {
        match self {
            Dot001Error::BlendFile { block_index, .. } => *block_index,
            Dot001Error::Editor { block_index, .. } => *block_index,
            Dot001Error::Tracer { block_index, .. } => *block_index,
            Dot001Error::Diff { block_index, .. } => *block_index,
            _ => None,
        }
    }

    /// The operation of an editor error, if any.
    pub fn operation(&self) -> (r: Option<&String>)
        ensures
            match r {
                Some(s) => *self matches Dot001Error::Editor { operation: Some(o), .. } && o@ == s@,
                None => !(*self matches Dot001Error::Editor { operation: Some(_), .. }),
            },
    {
        match self {
            Dot001Error::Editor { operation, .. } => operation.as_ref(),
            _ => None,
        }
    }

    /// The command of a command line error, if any.
    pub fn command(&self) -> (r: Option<&String>)
        ensures
            match r {
                Some(s) => *self matches Dot001Error::Cli { command: Some(c), .. } && c@ == s@,
                None => !(*self matches Dot001Error::Cli { command: Some(_), .. }),
            },
    {
        match self {
            Dot001Error::Cli { command, .. } => command.as_ref(),
            _ => None,
        }
    }
    /// A message for users: what failed, the message, and the known context.
    pub fn user_message(&self) -> (r: String)
        ensures
            r@ == spec_user_message(*self),
    {
        match self {
            Dot001Error::Io { message, file_path, .. } => {
                match file_path {
                    Some(p) => {
                        let mut out = String::from_str("File operation failed on '");
                        out.append(p.as_str());
                        out.append("': ");
                        out.append(message.as_str());
                        out
                    },
                    None => {
                        let mut out = String::from_str("File operation failed: ");
                        out.append(message.as_str());
                        out
                    },
                }
            },
            Dot001Error::BlendFile { message, file_path, block_index, .. } => {
                let mut out = String::from_str("Blend file error: ");
                out.append(message.as_str());
                push_ctx(&mut out, "file: ", file_path);
                if let Some(i) = block_index {
                    out.append(" (block: ");
                    let t = crate::text::usize_to_string(*i);
                    out.append(t.as_str());
                    out.append(")");
                }
                out
            },
            Dot001Error::Editor { message, file_path, operation, .. } => {
                let mut out = match operation {
                    Some(op) => {
                        let mut o = String::from_str("Edit failed during ");
                        o.append(op.as_str());
                        o.append(": ");
                        o
                    },
                    None => String::from_str("Edit failed: "),
                };
                out.append(message.as_str());
                push_ctx(&mut out, "file: ", file_path);
                out
            },
            Dot001Error::Diff { message, file1_path, file2_path, .. } => {
                let mut out = String::from_str("Diff operation failed: ");
                out.append(message.as_str());
                match (file1_path, file2_path) {
                    (Some(f1), Some(f2)) => {
                        out.append(" (comparing ");
                        out.append(f1.as_str());
                        out.append(" vs ");
                        out.append(f2.as_str());
                        out.append(")");
                    },
                    (Some(f1), None) => {
                        out.append(" (file: ");
                        out.append(f1.as_str());
                        out.append(")");
                    },
                    _ => {},
                }
                out
            },
            Dot001Error::Tracer { message, file_path, .. } => {
                let mut out = String::from_str("Dependency analysis failed: ");
                out.append(message.as_str());
                push_ctx(&mut out, "file: ", file_path);
                out
            },
            Dot001Error::Checkpoint { message, project_path, .. } => {
                let mut out = String::from_str("Checkpoint operation failed: ");
                out.append(message.as_str());
                push_ctx(&mut out, "project: ", project_path);
                out
            },
            Dot001Error::Cli { message, command, .. } => {
                match command {
                    Some(c) => {
                        let mut out = String::from_str("Command '");
                        out.append(c.as_str());
                        out.append("' failed: ");
                        out.append(message.as_str());
                        out
                    },
                    None => {
                        let mut out = String::from_str("Command failed: ");
                        out.append(message.as_str());
                        out
                    },
                }
            },
            Dot001Error::Config { message, config_path, .. } => {
                let mut out = String::from_str("Configuration error: ");
                out.append(message.as_str());
                push_ctx(&mut out, "config: ", config_path);
                out
            },
        }
    }
}

} // verus!
