use dot001::error::{Dot001Error, EditorErrorKind};
use dot001::events::{
    CliEvent, CoreEvent, DiffEvent, EditorEvent, Event, EventWithMetadata, ParserEvent, Severity,
    TracerEvent, WatcherEvent, WriterEvent,
};
use dot001::formatting::PrettyFormatter;
use dot001::pretty::{event_content, format_context, Piece, TextStyle};

/// The pieces as uncolored text, percentages written with one decimal.
fn text(pieces: &[Piece]) -> String {
    let mut out = String::new();
    for p in pieces {
        match p.percent_of {
            Some((c, t)) => out.push_str(&format!("{:.1}", (c as f64 / t as f64) * 100.0)),
            None => out.push_str(&p.text),
        }
    }
    out
}

fn content(e: Event) -> String {
    text(&event_content(&e))
}

#[test]
fn test_pretty_formatter() {
    let formatter = PrettyFormatter::new();
    let event = EventWithMetadata::new(
        Event::Core(CoreEvent::Info { message: "Test message".to_string() }),
        Severity::Info,
        None,
    );

    let formatted_clean = text(&formatter.pieces(&event));
    assert!(formatted_clean.contains("INFO"));
    assert!(formatted_clean.contains("[core]"));
    assert!(formatted_clean.contains("Test message"));
}

#[test]
fn pretty_line_without_timestamp() {
    let f = PrettyFormatter::new().with_timestamps(false);
    let event = EventWithMetadata::new(
        Event::Core(CoreEvent::Warning { code: "W1".to_string(), message: "careful".to_string() }),
        Severity::Warn,
        None,
    );
    let pieces = f.pieces(&event);
    assert_eq!(text(&pieces), "WARN [core] [W1] careful");
    assert_eq!(pieces[0].style, TextStyle::YellowBold);
    assert_eq!(pieces[3].style, TextStyle::BrightGreen);
    let bare = PrettyFormatter::new().with_timestamps(false).with_domains(false);
    assert_eq!(text(&bare.pieces(&event)), "WARN [W1] careful");
    let stamped = text(&PrettyFormatter::new().pieces(&event));
    assert!(stamped.ends_with(" WARN [core] [W1] careful"));
}

#[test]
fn core_event_texts() {
    assert_eq!(
        content(Event::Core(CoreEvent::Started { component: "parser".into(), version: Some("1.2".into()) })),
        "Started parser (v1.2)"
    );
    assert_eq!(
        content(Event::Core(CoreEvent::Finished { component: "x".into(), duration_ms: Some(12), success: false })),
        "✗ Finished x (12 ms)"
    );
    assert_eq!(
        content(Event::Core(CoreEvent::Progress {
            operation: "scan".into(),
            current: 1,
            total: Some(3),
            message: Some("go".into())
        })),
        "scan: [1/3] 33.3% - go"
    );
    assert_eq!(
        content(Event::Core(CoreEvent::Progress { operation: "scan".into(), current: 7, total: None, message: None })),
        "scan: [7]"
    );
    let e = Dot001Error::editor("Block not found", EditorErrorKind::BlockNotFound);
    let pieces = event_content(&Event::Core(CoreEvent::Error { error: e }));
    assert_eq!(text(&pieces), "Edit failed: Block not found");
    assert_eq!(pieces[0].style, TextStyle::Red);
}

#[test]
fn other_domain_texts() {
    assert_eq!(
        content(Event::Parser(ParserEvent::HeaderParsed {
            version: "300".into(),
            endianness: "little".into(),
            pointer_size: 8
        })),
        "Header: v300 little 64-bit"
    );
    assert_eq!(
        content(Event::Parser(ParserEvent::Finished { total_blocks: 5, total_size: 1024, duration_ms: 3 })),
        "✓ Parsed 5 blocks (1024 bytes) in 3 ms"
    );
    assert_eq!(
        content(Event::Tracer(TracerEvent::FilterApplied {
            filter_name: "f".into(),
            blocks_before: 10,
            blocks_after: 4
        })),
        "Filter 'f': 10 → 4 blocks"
    );
    assert_eq!(
        content(Event::Diff(DiffEvent::Started {
            lhs: "a.blend".into(),
            rhs: "b.blend".into(),
            diff_type: "full".into()
        })),
        "FULL diff: a.blend vs b.blend"
    );
    let mismatch = event_content(&Event::Diff(DiffEvent::Mismatch {
        path: "p".into(),
        detail: "d".into(),
        severity: "critical".into(),
    }));
    assert_eq!(text(&mismatch), "Mismatch at p: d");
    assert_eq!(mismatch.last().unwrap().style, TextStyle::Red);
    assert_eq!(
        content(Event::Diff(DiffEvent::Summary {
            matched_blocks: 3,
            mismatched_blocks: 1,
            total_blocks: 4,
            duration_ms: 9
        })),
        "! 3 matched, 1 mismatched of 4 total (9 ms)"
    );
    assert_eq!(
        content(Event::Editor(EditorEvent::BlockEdited {
            operation: "rename".into(),
            block_index: 2,
            block_type: "OB".into(),
            old_value: Some("A".into()),
            new_value: "B".into()
        })),
        "rename OB #2: A → B"
    );
    assert_eq!(
        content(Event::Editor(EditorEvent::BatchProgress { operation: "op".into(), completed: 1, total: 8 })),
        "op: [1/8] 12.5%"
    );
    assert_eq!(
        content(Event::Writer(WriterEvent::Finished {
            operation: "write".into(),
            bytes_written: 100,
            blocks_written: 2,
            duration_ms: 1,
            success: true
        })),
        "✓ write completed: 2 blocks (100 bytes) in 1 ms"
    );
    assert_eq!(
        content(Event::Watcher(WatcherEvent::Started { watch_paths: vec!["a".into(), "b".into()], recursive: true })),
        "Watching 2 paths (recursive)"
    );
    assert_eq!(
        content(Event::Watcher(WatcherEvent::FileEvent {
            event_type: "moved".into(),
            path: "b".into(),
            old_path: Some("a".into())
        })),
        "MOVED: a → b"
    );
    assert_eq!(
        content(Event::Cli(CliEvent::CommandStarted {
            command: "dot001".into(),
            args: vec!["info".into(), "x.blend".into()]
        })),
        "$ dot001 info x.blend"
    );
    assert_eq!(
        content(Event::Cli(CliEvent::CommandCompleted { command: "c".into(), exit_code: -2, duration_ms: 5 })),
        "✗ c exited -2 in 5 ms"
    );
}

#[test]
fn context_pairs_are_written_in_braces() {
    assert_eq!(format_context(&vec![]), "");
    let one = vec![("file".to_string(), "a.blend".to_string())];
    assert_eq!(format_context(&one), " {file=a.blend}");
    let two = vec![("file".to_string(), "a.blend".to_string()), ("blocks".to_string(), "3".to_string())];
    assert_eq!(format_context(&two), " {file=a.blend, blocks=3}");
}
