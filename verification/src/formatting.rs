//! Turning events into lines of text.
use vstd::prelude::*;
use vstd::string::*;
use std::time::SystemTime;
use crate::events::{EventWithMetadata, Severity, format_severity, severity_name, spec_domain, spec_event_name};

verus! {

/// Formats events as text.
pub trait Formatter {
    /// The text of an event.
    fn format(&self, event: &EventWithMetadata) -> (r: String);
}

/// `n` in decimal with at least `width` digits, zeros in front.
pub open spec fn padded(n: nat, width: nat) -> Seq<char> {
    let d = crate::text::decimal(n);
    if d.len() < width {
        Seq::new((width - d.len()) as nat, |k: int| '0') + d
    } else {
        d
    }
}

/// The time of day in UTC, `HH:MM:SS.mmm`, of the instant `sec` seconds and
/// `nsec` nanoseconds after 1970-01-01T00:00:00Z (`sec` may be negative).
pub open spec fn clock_spec(sec: int, nsec: int) -> Seq<char> {
    let s = sec % 86400;
    padded((s / 3600) as nat, 2) + ":"@ + padded(((s % 3600) / 60) as nat, 2) + ":"@ + padded((s % 60) as nat, 2)
        + "."@ + padded((nsec / 1_000_000) as nat, 3)
}

/// How far `t` lies from the Unix epoch (`SystemTime::duration_since` with
/// `UNIX_EPOCH`): `Ok` of the seconds and nanoseconds after it, or `Err` of
/// those before it. Which of them, and the values, depend on the clock value,
/// which is opaque here; only that the nanoseconds stay below a second is stated.
#[verifier::external_body]
fn epoch_offset(t: &SystemTime) -> (r: core::result::Result<(u64, u32), (u64, u32)>)
    ensures
        match r {
            Ok(after) => after.1 < 1_000_000_000,
            Err(before) => before.1 < 1_000_000_000,
        },
{
    match t.duration_since(std::time::UNIX_EPOCH) {
        Ok(d) => Ok((d.as_secs(), d.subsec_nanos())),
        Err(e) => Err((e.duration().as_secs(), e.duration().subsec_nanos())),
    }
}

/// The time of day of the instant `sec` seconds and `nsec` nanoseconds after
/// the Unix epoch, as `chrono` writes it with `%H:%M:%S%.3f` in UTC
/// (`Utc.timestamp_opt(sec, nsec).single()`, then `format`); `None` where that
/// instant lies outside `chrono`'s range. The range itself is not stated.
#[verifier::external_body]
fn utc_clock(sec: i64, nsec: u32) -> (r: Option<String>)
    requires
        nsec < 1_000_000_000,
    ensures
        r matches Some(text) ==> text@ == clock_spec(sec as int, nsec as int),
{
    match chrono::TimeZone::timestamp_opt(&chrono::Utc, sec, nsec).single() {
        Some(dt) => Some(dt.format("%H:%M:%S%.3f").to_string()),
        None => None,
    }
}

/// The time of day of `t` in UTC as `HH:MM:SS.mmm` (see `clock_spec`); empty
/// for a time outside `chrono`'s range or more than `i64::MAX` seconds from the
/// epoch. A time before the epoch counts back from it, whole seconds down and
/// the nanoseconds up, as `chrono` converts a `SystemTime`. Which text it is
/// depends on the clock value, which is opaque here.
pub(crate) fn clock_text(t: &SystemTime) -> (r: String)
    ensures
        r@.len() == 0 || exists|sec: int, nsec: int| 0 <= nsec < 1_000_000_000 && r@ == clock_spec(sec, nsec),
{
    let (sec, nsec): (i64, u32) = match epoch_offset(t) {
        Ok((s, n)) => {
            if s > 0x7fff_ffff_ffff_ffffu64 {
                return String::new();
            }
            (s as i64, n)
        },
        Err((s, n)) => {
            if s > 0x7fff_ffff_ffff_ffffu64 {
                return String::new();
            }
            if n == 0 {
                (-(s as i64), 0u32)
            } else {
                (-(s as i64) - 1, 1_000_000_000u32 - n)
            }
        },
    };
    match utc_clock(sec, nsec) {
        Some(text) => text,
        None => String::new(),
    }
}

/// The lower-case name of a severity, as JSON output writes it.
pub open spec fn json_severity_name(s: Severity) -> Seq<char> {
    match s {
        Severity::Trace => "trace"@,
        Severity::Debug => "debug"@,
        Severity::Info => "info"@,
        Severity::Warn => "warn"@,
        Severity::Error => "error"@,
    }
}

/// The lower-case name of a severity (see `json_severity_name`).
pub fn json_severity(severity: Severity) -> (r: &'static str)
    ensures
        r@ == json_severity_name(severity),
{
    match severity {
        Severity::Trace => "trace",
        Severity::Debug => "debug",
        Severity::Info => "info",
        Severity::Warn => "warn",
        Severity::Error => "error",
    }
}

/// Single-line text without colors.
#[derive(Debug, Clone, Default)]
pub struct PlainFormatter {
    pub show_timestamps: bool,
    pub show_domains: bool,
}

/// The line a plain formatter makes after the optional timestamp: the
/// severity, the domain in brackets if shown, then `domain: name`.
pub open spec fn plain_rest(show_domains: bool, e: EventWithMetadata) -> Seq<char> {
    severity_name(e.metadata.severity) + (if show_domains {
        " ["@ + spec_domain(e.event) + "]"@
    } else {
        Seq::empty()
    }) + " "@ + spec_domain(e.event) + ": "@ + spec_event_name(e.event)
}

impl PlainFormatter {
    /// A formatter showing neither timestamps nor domain tags.
    pub fn new() -> (r: Self)
        ensures
            !r.show_timestamps,
            !r.show_domains,
    {
        PlainFormatter { show_timestamps: false, show_domains: false }
    }

    /// This formatter with timestamps shown or not.
    pub fn with_timestamps(self, show: bool) -> (r: Self)
        ensures
            r.show_timestamps == show,
            r.show_domains == self.show_domains,
    {
        PlainFormatter { show_timestamps: show, ..self }
    }

    /// This formatter with domain tags shown or not.
    pub fn with_domains(self, show: bool) -> (r: Self)
        ensures
            r.show_domains == show,
            r.show_timestamps == self.show_timestamps,
    {
        PlainFormatter { show_domains: show, ..self }
    }
}

impl Formatter for PlainFormatter {
    /// The timestamp if shown, then the severity, the domain tag if shown and
    /// `domain: name`, separated by spaces (see `plain_rest`).
    fn format(&self, event: &EventWithMetadata) -> (r: String)
        ensures
            self.show_timestamps ==> exists|ts: Seq<char>| r@ == ts + " "@ + plain_rest(self.show_domains, *event),
            !self.show_timestamps ==> r@ == plain_rest(self.show_domains, *event),
    {
        let mut out = String::new();
        let ghost mut ts: Seq<char> = Seq::empty();
        if self.show_timestamps {
            let t = clock_text(&event.metadata.timestamp);
            proof {
                ts = t@;
            }
            out.append(t.as_str());
            out.append(" ");
        }
        out.append(format_severity(event.metadata.severity));
        if self.show_domains {
            out.append(" [");
            out.append(event.event.domain());
            out.append("]");
        }
        out.append(" ");
        out.append(event.event.domain());
        out.append(": ");
        out.append(event.event.event_name());
        proof {
            if self.show_timestamps {
                assert(out@ =~= ts + " "@ + plain_rest(self.show_domains, *event));
            } else {
                assert(out@ =~= plain_rest(self.show_domains, *event));
            }
        }
        out
    }
}

/// Colored, structured text.
#[derive(Debug, Clone)]
pub struct PrettyFormatter {
    pub show_timestamps: bool,
    pub show_domains: bool,
    pub show_context: bool,
}

impl Default for PrettyFormatter {
    fn default() -> (r: Self)
        ensures
            r.show_timestamps && r.show_domains && r.show_context,
    {
        PrettyFormatter { show_timestamps: true, show_domains: true, show_context: true }
    }
}

impl PrettyFormatter {
    /// A formatter showing timestamps, domains and context.
    pub fn new() -> (r: Self)
        ensures
            r.show_timestamps && r.show_domains && r.show_context,
    {
        PrettyFormatter::default()
    }

    /// This formatter with timestamps shown or not.
    pub fn with_timestamps(self, show: bool) -> (r: Self)
        ensures
            r == (PrettyFormatter { show_timestamps: show, ..self }),
    {
        PrettyFormatter { show_timestamps: show, ..self }
    }

    /// This formatter with domain tags shown or not.
    pub fn with_domains(self, show: bool) -> (r: Self)
        ensures
            r == (PrettyFormatter { show_domains: show, ..self }),
    {
        PrettyFormatter { show_domains: show, ..self }
    }

    /// This formatter with context shown or not.
    pub fn with_context(self, show: bool) -> (r: Self)
        ensures
            r == (PrettyFormatter { show_context: show, ..self }),
    {
        PrettyFormatter { show_context: show, ..self }
    }
}

/// JSON text for machines.
#[derive(Debug, Clone, Default)]
pub struct JsonFormatter {
    pub pretty: bool,
}

impl JsonFormatter {
    /// A formatter writing compact JSON.
    pub fn new() -> (r: Self)
        ensures
            !r.pretty,
    {
        JsonFormatter { pretty: false }
    }

    /// This formatter writing indented JSON or not.
    pub fn pretty(self, pretty: bool) -> (r: Self)
        ensures
            r.pretty == pretty,
    {
        JsonFormatter { pretty }
    }
}

} // verus!
