use dot001::events::{
    format_severity, CoreEvent, DiffEvent, Event, EventFilter, EventWithMetadata, PrintSubscriber,
    Severity,
};
use dot001::formatting::{json_severity, Formatter, PlainFormatter};

fn info(message: &str) -> EventWithMetadata {
    EventWithMetadata::new(
        Event::Core(CoreEvent::Info { message: message.to_string() }),
        Severity::Info,
        None,
    )
}

#[test]
fn test_event_filter_severity() {
    let filter = EventFilter::new().min_severity(Severity::Warn);

    let info_event = EventWithMetadata::new(
        Event::Core(CoreEvent::Info { message: "test".to_string() }),
        Severity::Info,
        None,
    );

    let warn_event = EventWithMetadata::new(
        Event::Core(CoreEvent::Warning { code: "TEST".to_string(), message: "test".to_string() }),
        Severity::Warn,
        None,
    );

    assert!(!filter.matches(&info_event));
    assert!(filter.matches(&warn_event));
}

#[test]
fn test_event_filter_domains() {
    let filter = EventFilter::new().domains(vec!["core", "parser"]);

    let core_event = EventWithMetadata::new(
        Event::Core(CoreEvent::Info { message: "test".to_string() }),
        Severity::Info,
        None,
    );

    let diff_event = EventWithMetadata::new(
        Event::Diff(DiffEvent::Started {
            lhs: "/tmp/a.blend".into(),
            rhs: "/tmp/b.blend".into(),
            diff_type: "full".to_string(),
        }),
        Severity::Info,
        None,
    );

    assert!(filter.matches(&core_event));
    assert!(!filter.matches(&diff_event));
}

#[test]
fn test_plain_formatter() {
    let formatter = PlainFormatter::new().with_domains(true);
    let event = EventWithMetadata::new(
        Event::Core(CoreEvent::Warning {
            code: "TEST_WARN".to_string(),
            message: "Test warning".to_string(),
        }),
        Severity::Warn,
        None,
    );

    let formatted = formatter.format(&event);
    assert!(formatted.contains("WARN"));
    assert!(formatted.contains("[core]"));
    assert!(formatted.contains("core: warning"));
}

#[test]
fn plain_formatter_lines_exactly() {
    let event = info("hello");
    assert_eq!(PlainFormatter::new().format(&event), "INFO core: info");
    assert_eq!(PlainFormatter::new().with_domains(true).format(&event), "INFO [core] core: info");
    let stamped = PlainFormatter::new().with_timestamps(true).format(&event);
    assert!(stamped.ends_with(" INFO core: info"));
    assert!(stamped.len() > "INFO core: info".len() + 1);
}

#[test]
fn severity_order_and_filtering() {
    let all = [Severity::Trace, Severity::Debug, Severity::Info, Severity::Warn, Severity::Error];
    for (i, a) in all.iter().enumerate() {
        assert_eq!(a.level() as usize, i);
        for (j, m) in all.iter().enumerate() {
            assert_eq!(a.should_show(*m), i >= j);
        }
    }
    assert_eq!(format_severity(Severity::Error), "ERROR");
    assert_eq!(format_severity(Severity::Trace), "TRACE");
}

#[test]
fn default_filter_lets_info_through_everywhere() {
    let f = EventFilter::default();
    assert!(f.matches(&info("x")));
    let debug = EventWithMetadata::new(
        Event::Core(CoreEvent::Info { message: "x".to_string() }),
        Severity::Debug,
        None,
    );
    assert!(!f.matches(&debug));
    let empty = EventFilter::new().domains(vec![]);
    assert!(!empty.matches(&info("x")));
}

#[test]
fn event_names_domains_and_default_severities() {
    let e = Event::Core(CoreEvent::Warning { code: "C".to_string(), message: "m".to_string() });
    assert_eq!(e.domain(), "core");
    assert_eq!(e.event_name(), "warning");
    assert_eq!(e.default_severity(), Severity::Warn);
    let d = Event::Diff(DiffEvent::Started {
        lhs: "a".to_string(),
        rhs: "b".to_string(),
        diff_type: "full".to_string(),
    });
    assert_eq!(d.domain(), "diff");
    assert_eq!(d.event_name(), "started");
    let with_default = EventWithMetadata::with_default_severity(e, None);
    assert_eq!(with_default.metadata.severity, Severity::Warn);
}

#[test]
fn print_subscriber_line() {
    let line = PrintSubscriber.line(&info("x"));
    assert_eq!(line, "[INFO] core: info");
}

#[test]
fn json_names_severities_in_lower_case() {
    assert_eq!(json_severity(Severity::Trace), "trace");
    assert_eq!(json_severity(Severity::Debug), "debug");
    assert_eq!(json_severity(Severity::Info), "info");
    assert_eq!(json_severity(Severity::Warn), "warn");
    assert_eq!(json_severity(Severity::Error), "error");
}

fn at(offset_from_epoch: i128) -> EventWithMetadata {
    let mut e = info("m");
    let epoch = std::time::SystemTime::UNIX_EPOCH;
    e.metadata.timestamp = if offset_from_epoch >= 0 {
        epoch + std::time::Duration::from_nanos(offset_from_epoch as u64)
    } else {
        epoch - std::time::Duration::from_nanos((-offset_from_epoch) as u64)
    };
    e
}

#[test]
fn timestamps_are_the_utc_time_of_day() {
    let f = PlainFormatter::new().with_timestamps(true);
    assert_eq!(f.format(&at(3_661_500_000_000)), "01:01:01.500 INFO core: info");
    assert_eq!(f.format(&at(-250_000_000)), "23:59:59.750 INFO core: info");
    assert_eq!(f.format(&at(0)), "00:00:00.000 INFO core: info");
}

#[test]
fn times_outside_the_calendar_leave_the_timestamp_empty() {
    let mut e = info("m");
    let far = std::time::SystemTime::UNIX_EPOCH.checked_add(std::time::Duration::from_secs(1u64 << 60));
    if let Some(t) = far {
        e.metadata.timestamp = t;
        let f = PlainFormatter::new().with_timestamps(true);
        assert_eq!(f.format(&e), " INFO core: info");
    }
}
