use wikistream_ingest::buffer::Buffer;
use wikistream_ingest::event::{Length, Meta, RcEvent};
use wikistream_ingest::runtime::{
    flush_finish, flush_start, is_expired, resident_pages, resume_since, retention_cutoff, rss_kb_from_statm,
    ArchiveClock, FlushGate, FlushStart, RateWindow, ResumeWatch,
};
use wikistream_ingest::text::{same_text, split_fields, text_less};
use wikistream_ingest::time::{Timestamp, MAX_UTC_SECS, MIN_UTC_SECS};

const JAN1: i64 = 1_704_067_200; // 2024-01-01T00:00:00Z

#[test]
fn resume_gap_after_more_than_six_days() {
    let mut w = ResumeWatch::new(Some(Timestamp { secs: JAN1, nanos: 0 }));
    let g = w.observe("2024-01-09T00:00:00Z").expect("gap");
    assert_eq!(g.start, Timestamp { secs: JAN1, nanos: 0 });
    assert_eq!(g.end, Timestamp { secs: JAN1 + 8 * 86400, nanos: 0 });
    assert_eq!(g.cause, "retention-exceeded");
    // only the first event is checked
    assert!(w.observe("2024-02-09T00:00:00Z").is_none());
}

#[test]
fn resume_within_the_window_records_nothing() {
    let mut w = ResumeWatch::new(Some(Timestamp { secs: JAN1, nanos: 0 }));
    // six whole days and a bit: not more than six
    assert!(w.observe("2024-01-07T23:59:59Z").is_none());
    let mut w = ResumeWatch::new(Some(Timestamp { secs: JAN1, nanos: 0 }));
    assert!(w.observe("2024-01-08T00:00:00Z").is_some());
}

#[test]
fn resume_without_cursor_or_time_records_nothing() {
    let mut w = ResumeWatch::new(None);
    assert!(w.observe("2030-01-01T00:00:00Z").is_none());
    let mut w = ResumeWatch::new(Some(Timestamp { secs: JAN1, nanos: 0 }));
    assert!(w.observe("not a time").is_none());
    assert!(w.observe("2030-01-01T00:00:00Z").is_none());
}

#[test]
fn flush_gate_cools_down_for_a_second() {
    let mut g = FlushGate::new();
    assert!(g.permits(0));
    g.on_failure(500);
    // a nanosecond short of the second still waits
    assert!(!g.permits(1_000_000_499));
    assert!(g.permits(1_000_000_500));
}

#[test]
fn rate_window_drops_arrivals_older_than_a_minute() {
    let mut w = RateWindow::new();
    const S: u64 = 1_000_000_000;
    for t in [0u64, 10 * S, 60 * S, 70 * S, 130 * S] {
        w.record(t);
    }
    // exactly a minute old stays; a nanosecond more leaves
    w.prune(70 * S);
    assert_eq!(w.len(), 4);
    w.prune(70 * S + 1);
    assert_eq!(w.len(), 3);
    w.prune(130 * S);
    assert_eq!(w.len(), 2);
    assert_eq!(w.events_per_sec(), 0);
    let mut big = RateWindow::new();
    for t in 0..180u64 {
        big.record(t);
    }
    assert_eq!(big.events_per_sec(), 3);
}

#[test]
fn archive_rotates_on_the_hour() {
    let mut c = ArchiveClock::new();
    let f = c.observe(1_709_622_900).expect("first file"); // 2024-03-05T07:15:00Z
    assert_eq!(f.hour, 1_709_622_000);
    assert_eq!(f.name, "2024-03-05T07.ndjson.gz");
    assert!(c.observe(1_709_625_599).is_none());
    let g = c.observe(1_709_625_600).expect("next hour");
    assert_eq!(g.name, "2024-03-05T08.ndjson.gz");
}

#[test]
fn archive_retention_compares_names() {
    let cutoff = retention_cutoff(1_709_622_900);
    assert_eq!(cutoff, "2024-02-04T07");
    assert!(is_expired("2024-02-04T06.ndjson.gz", &cutoff));
    assert!(!is_expired("2024-02-04T07.ndjson.gz", &cutoff));
    assert!(!is_expired("2024-03-01T00.ndjson.gz", &cutoff));
}

#[test]
fn statm_resident_size() {
    assert_eq!(resident_pages("1234 567 89 0 0 0 0\n"), Some(567));
    assert_eq!(rss_kb_from_statm("1234 567 89 0 0 0 0\n"), 2268);
    assert_eq!(rss_kb_from_statm(""), 0);
    assert_eq!(rss_kb_from_statm("12 abc"), 0);
    assert_eq!(rss_kb_from_statm("1 +5"), 20);
    assert_eq!(rss_kb_from_statm("1 -5"), 0);
    assert_eq!(resident_pages("1\u{3000}\u{3000}7"), Some(7));
    assert_eq!(resident_pages("1 99999999999999999999"), None);
    assert_eq!(resident_pages("1 18446744073709551615"), Some(u64::MAX));
}

#[test]
fn text_helpers() {
    assert!(same_text("edit", "edit"));
    assert!(!same_text("edit", "edits"));
    let f = split_fields("  a bc\td \n");
    assert_eq!(f, vec![vec!['a'], vec!['b', 'c'], vec!['d']]);
    assert!(text_less("a", "b"));
    assert!(text_less("ab", "abc"));
    assert!(!text_less("abc", "ab"));
    assert!(!text_less("same", "same"));
}

#[test]
fn resume_since_renders_the_cursor_with_nanoseconds() {
    assert_eq!(
        resume_since(Some(Timestamp { secs: JAN1, nanos: 5 })),
        Some("2024-01-01T00:00:00.000000005Z".to_string())
    );
    assert_eq!(resume_since(None), None);
}

#[test]
fn timestamp_validity() {
    assert!(Timestamp { secs: JAN1, nanos: 999_999_999 }.is_valid());
    assert!(!Timestamp { secs: JAN1, nanos: 1_000_000_000 }.is_valid());
    assert!(Timestamp { secs: JAN1 + 59, nanos: 1_500_000_000 }.is_valid());
    assert!(Timestamp { secs: -1, nanos: 1_000_000_000 }.is_valid());
    assert!(!Timestamp { secs: i64::MAX, nanos: 0 }.is_valid());
    assert_eq!(Timestamp::epoch(), Timestamp { secs: 0, nanos: 0 });
}

#[test]
fn flush_protocol_clears_only_after_a_commit() {
    let mut buf = Buffer::new();
    let mut gate = FlushGate::new();
    assert_eq!(flush_start(&gate, &buf, 0), FlushStart::NothingToFlush);
    buf.push_checked(RcEvent {
        meta: Meta {
            id: "ev-1".to_string(),
            dt: "2024-01-01T00:00:10Z".to_string(),
            domain: "en.wikipedia.org".to_string(),
        },
        kind: "edit".to_string(),
        bot: false,
        server_name: "en.wikipedia.org".to_string(),
        user: "A".to_string(),
        length: Some(Length { old: Some(1), new: Some(5) }),
    })
    .unwrap();
    assert_eq!(flush_start(&gate, &buf, 0), FlushStart::Run);
    // a failed transaction keeps the batch; requests wait a second
    assert_eq!(flush_finish(&mut gate, &mut buf, false, 10), None);
    assert_eq!(buf.len(), 1);
    assert_eq!(flush_start(&gate, &buf, 1_000_000_009), FlushStart::CoolingDown);
    assert_eq!(flush_start(&gate, &buf, 1_000_000_010), FlushStart::Run);
    // a committed one clears it and keeps the cursor
    assert_eq!(flush_finish(&mut gate, &mut buf, true, 1_000_000_020), Some(1));
    assert!(buf.is_empty());
    assert_eq!(buf.last_event_id(), "ev-1");
    assert_eq!(buf.last_event_ts(), Timestamp { secs: JAN1 + 10, nanos: 0 });
    assert_eq!(flush_start(&gate, &buf, 1_000_000_030), FlushStart::NothingToFlush);
}

#[test]
fn resume_gap_from_a_leap_second_cursor() {
    // 2016-12-31T23:59:60Z
    let leap = Timestamp { secs: 1_483_228_799, nanos: 1_000_000_000 };
    let mut w = ResumeWatch::new(Some(leap));
    let g = w.observe("2017-01-09T00:00:00Z").expect("gap");
    assert_eq!(g.start, leap);
    assert_eq!(g.end, Timestamp { secs: 1_483_920_000, nanos: 0 });
    assert!(g.start.secs < g.end.secs);
    let mut w = ResumeWatch::new(Some(leap));
    assert!(w.observe("2017-01-06T00:00:00Z").is_none());
}

#[test]
fn resume_gap_to_a_leap_second_event() {
    let mut w = ResumeWatch::new(Some(Timestamp { secs: 1_482_192_000, nanos: 0 })); // 2016-12-20
    let g = w.observe("2016-12-31T23:59:60Z").expect("gap");
    assert_eq!(g.end, Timestamp { secs: 1_483_228_799, nanos: 1_000_000_000 });
    assert!(g.start.secs < g.end.secs);
}

#[test]
fn earliest_and_latest_instants_chrono_holds() {
    let first = Timestamp { secs: MIN_UTC_SECS, nanos: 0 };
    let last = Timestamp { secs: MAX_UTC_SECS, nanos: 999_999_999 };
    assert!(first.is_valid());
    assert!(last.is_valid());
    assert!(!Timestamp { secs: MIN_UTC_SECS - 1, nanos: 0 }.is_valid());
    assert!(!Timestamp { secs: MAX_UTC_SECS + 1, nanos: 0 }.is_valid());
    assert_eq!(resume_since(Some(first)), Some("-262143-01-01T00:00:00.000000000Z".to_string()));
    assert_eq!(resume_since(Some(last)), Some("+262142-12-31T23:59:59.999999999Z".to_string()));
    assert_eq!(retention_cutoff(MIN_UTC_SECS + 30 * 86400), "-262143-01-01T00");
    let mut c = ArchiveClock::new();
    assert_eq!(c.observe(MIN_UTC_SECS).expect("first file").name, "-262143-01-01T00.ndjson.gz");
    let mut w = ResumeWatch::new(Some(first));
    let g = w.observe("2024-01-01T00:00:00Z").expect("gap");
    assert_eq!(g.start, first);
}
