use dot001::cli::{
    create_cli_error, execution_failed_error, invalid_arguments_error, missing_argument_error,
    output_format_error,
};
use dot001::error::{BlendFileErrorKind, CliErrorKind, Dot001Error, EditorErrorKind, TracerErrorKind};
use std::path::PathBuf;

fn path_of(err: &Dot001Error) -> Option<PathBuf> {
    err.file_path().map(PathBuf::from)
}

#[test]
fn test_error_creation() {
    let err = Dot001Error::blend_file("Invalid header", BlendFileErrorKind::InvalidHeader);
    assert!(err.is_blend_file());
    assert_eq!(err.block_index(), None);
}

#[test]
fn test_error_context() {
    let err = Dot001Error::editor("Block not found", EditorErrorKind::BlockNotFound)
        .with_file_path("/path/to/file.blend")
        .with_block_index(42)
        .with_operation("rename");

    assert_eq!(path_of(&err), Some(PathBuf::from("/path/to/file.blend")));
    assert_eq!(err.block_index(), Some(42));
}

#[test]
fn test_user_message() {
    let err = Dot001Error::editor("Block not found", EditorErrorKind::BlockNotFound)
        .with_file_path("/path/to/file.blend")
        .with_operation("rename");

    let msg = err.user_message();
    assert!(msg.contains("Edit failed"));
    assert!(msg.contains("rename"));
    assert!(msg.contains("file.blend"));
}

#[test]
fn test_io_conversion() {
    let io_err = std::io::Error::new(std::io::ErrorKind::NotFound, "File not found");
    let err = Dot001Error::from_io_description(&io_err.to_string());
    assert!(err.is_io());
}

#[test]
fn test_helper_functions() {
    let err = Dot001Error::parser_invalid_header("Bad magic bytes");
    assert!(err.is_blend_file());

    let err = Dot001Error::tracer_dependency_failed("Circular reference");
    assert!(err.is_tracer());

    let err = Dot001Error::editor_block_not_found("Block 42 missing");
    assert!(err.is_editor());
}

#[test]
fn test_contextual_methods() {
    let err = Dot001Error::io("File not found").with_file_path("/test/file.blend");

    assert_eq!(path_of(&err), Some(PathBuf::from("/test/file.blend")));

    let err = Dot001Error::blend_file("Invalid block", BlendFileErrorKind::InvalidBlockIndex)
        .with_block_index(123);

    assert_eq!(err.block_index(), Some(123));
}

#[test]
fn test_type_checking() {
    let io_err = Dot001Error::io("Test");
    assert!(io_err.is_io());
    assert!(!io_err.is_editor());

    let editor_err = Dot001Error::editor("Test", EditorErrorKind::BlockNotFound);
    assert!(editor_err.is_editor());
    assert!(!editor_err.is_io());
}

#[test]
fn user_message_of_each_domain() {
    let e = Dot001Error::editor("Block not found", EditorErrorKind::BlockNotFound)
        .with_file_path("/path/to/file.blend")
        .with_operation("rename");
    assert_eq!(e.user_message(), "Edit failed during rename: Block not found (file: /path/to/file.blend)");

    let e = Dot001Error::io("gone");
    assert_eq!(e.user_message(), "File operation failed: gone");
    let e = Dot001Error::io("gone").with_file_path("/a.blend");
    assert_eq!(e.user_message(), "File operation failed on '/a.blend': gone");

    let e = Dot001Error::blend_file("bad", BlendFileErrorKind::InvalidData)
        .with_file_path("x.blend")
        .with_block_index(7);
    assert_eq!(e.user_message(), "Blend file error: bad (file: x.blend) (block: 7)");

    let e = Dot001Error::tracer("loop", TracerErrorKind::CircularDependency);
    assert_eq!(e.user_message(), "Dependency analysis failed: loop");

    let e = create_cli_error("oops", CliErrorKind::ExecutionFailed).with_command("info");
    assert_eq!(e.user_message(), "Command 'info' failed: oops");
    let e = invalid_arguments_error("no file");
    assert_eq!(e.user_message(), "Command failed: no file");
}

#[test]
fn io_conversion_keeps_the_description() {
    let e = Dot001Error::from_io_description("disk full");
    match e {
        Dot001Error::Io { message, file_path, source_message } => {
            assert_eq!(message, "disk full");
            assert_eq!(file_path, None);
            assert_eq!(source_message.as_deref(), Some("IO Error: disk full"));
        }
        _ => panic!("not an I/O error"),
    }
}

#[test]
fn context_setters_leave_other_domains_alone() {
    let e = invalid_arguments_error("x").with_file_path("/f").with_block_index(3).with_operation("op");
    assert!(e.is_cli());
    assert_eq!(e.file_path(), None);
    assert_eq!(e.block_index(), None);
    assert_eq!(e.operation(), None);

    let e = Dot001Error::io("x").with_block_index(3).with_operation("op");
    assert_eq!(e.block_index(), None);
    assert_eq!(e.operation(), None);
}

#[test]
fn cli_error_helpers_have_their_kinds() {
    for (e, k) in [
        (invalid_arguments_error("m"), CliErrorKind::InvalidArguments),
        (missing_argument_error("m"), CliErrorKind::MissingArgument),
        (execution_failed_error("m"), CliErrorKind::ExecutionFailed),
        (output_format_error("m"), CliErrorKind::OutputFormatError),
    ] {
        match e {
            Dot001Error::Cli { message, kind, command } => {
                assert_eq!(message, "m");
                assert_eq!(kind, k);
                assert_eq!(command, None);
            }
            _ => panic!("not a command line error"),
        }
    }
}
