use dot001::cli::{cli_event_filter, watch_banner, watch_event_lines, MovePair, WatchEvent, CollectionFormatter, CommandSummary, OutputUtils, TreeFormatter};
use dot001::events::Severity;

#[test]
fn test_command_summary_builder() {
    let summary = CommandSummary::new("Test Summary")
        .add_item("File", "test.blend".to_string())
        .add_count("Blocks", 42)
        .add_count("Modified", 3);

    assert_eq!(summary.title, "Test Summary");
    assert_eq!(summary.items.len(), 3);
    assert_eq!(summary.items[0], ("File", "test.blend".to_string()));
    assert_eq!(summary.items[1], ("Blocks", "42".to_string()));
    assert_eq!(summary.items[2], ("Modified", "3".to_string()));
}

#[test]
fn summary_prints_title_items_and_a_blank_line() {
    let mut out = vec!["before".to_string()];
    CommandSummary::new("Done").add_count("Blocks", 0).add_item("File", "a.blend".to_string()).print(&mut out);
    assert_eq!(out, vec!["before", "Done", "  Blocks: 0", "  File: a.blend", ""]);
}

#[test]
fn counts_are_written_in_decimal() {
    let s = CommandSummary::new("t").add_count("n", 1234567890).add_count("z", 0);
    assert_eq!(s.items[0].1, "1234567890");
    assert_eq!(s.items[1].1, "0");
}

#[test]
fn output_lines() {
    let mut out = Vec::new();
    OutputUtils::print_header(&mut out, "Header");
    OutputUtils::print_json_str(&mut out, "{\"a\":1}");
    OutputUtils::print_list(&mut out, &["x".to_string(), "y".to_string()]);
    OutputUtils::print_summary(&mut out, &[("k", "v".to_string())]);
    assert_eq!(out, vec!["Header", "{\"a\":1}", "  x", "  y", "  k: v"]);
    let mut flat = Vec::new();
    assert!(CollectionFormatter::print_flat(&mut flat, &["a".to_string()]).is_ok());
    assert_eq!(flat, vec!["  a"]);
    assert!(TreeFormatter::new(true).ascii);
}

#[test]
fn prints_json_or_reports_the_serializer_error() {
    let mut out = vec!["first".to_string()];
    let logged = OutputUtils::try_print_json(&mut out, Ok("{\"root\":1}".to_string()), "dependencies");
    assert_eq!(logged, None);
    assert_eq!(out, vec!["first".to_string(), "{\"root\":1}".to_string()]);
    let logged = OutputUtils::try_print_json(&mut out, Err("key must be a string".to_string()), "dependencies");
    assert_eq!(logged.as_deref(), Some("Failed to serialize dependencies to JSON: key must be a string"));
    assert_eq!(out.len(), 2);
}

#[test]
fn run_flags_choose_the_event_filter() {
    assert_eq!(cli_event_filter(true, 3, None).min_severity, Severity::Error);
    assert_eq!(cli_event_filter(false, 0, None).min_severity, Severity::Info);
    assert_eq!(cli_event_filter(false, 1, None).min_severity, Severity::Debug);
    assert_eq!(cli_event_filter(false, 2, None).min_severity, Severity::Trace);
    assert!(cli_event_filter(false, 0, None).domains.is_none());
    let f = cli_event_filter(false, 0, Some(vec!["parser".to_string(), "tracer".to_string()]));
    assert_eq!(f.domains, Some(vec!["parser".to_string(), "tracer".to_string()]));
}

#[test]
fn watch_events_are_printed_with_details_when_verbose() {
    let pair = || MovePair { from: "a/x.blend".to_string(), to: "b/x.blend".to_string(), base: "x.blend".to_string() };
    let moved = WatchEvent::BlendFileMoved(pair());
    assert_eq!(watch_event_lines(&moved, false), vec!["🔄 Blend file moved: a/x.blend → b/x.blend".to_string()]);
    assert_eq!(
        watch_event_lines(&moved, true),
        vec!["🔄 Blend file moved: a/x.blend → b/x.blend".to_string(), "   Base filename: \"x.blend\"".to_string()]
    );
    let renamed = WatchEvent::BlendFileRenamed {
        from: "a/x.blend".to_string(),
        to: "a/y.blend".to_string(),
        base_from: "x.blend".to_string(),
        base_to: "y.blend".to_string(),
    };
    assert_eq!(
        watch_event_lines(&renamed, true),
        vec!["📝 Blend file renamed: a/x.blend → a/y.blend".to_string(), "   x.blend → y.blend".to_string()]
    );
    let child = WatchEvent::DirBlendChildMoved(pair());
    assert_eq!(watch_event_lines(&child, false).len(), 2);
    assert_eq!(watch_event_lines(&child, false)[0], "🔗 Child blend file affected by directory move:");
    let dir = WatchEvent::DirRenamedOrMoved(pair());
    assert_eq!(watch_event_lines(&dir, true)[1], "   Directory: \"x.blend\"");
    assert_eq!(
        watch_banner("."),
        vec!["Watching for .blend file changes under ....".to_string(), "Press Ctrl+C to stop.".to_string(), String::new()]
    );
}
