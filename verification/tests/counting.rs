use wikistream_ingest::buffer::{Buffer, PushError, FLUSH_EVERY_EVENTS};
use wikistream_ingest::event::{bytes_delta, is_canary, is_content, Length, Meta, RcEvent};
use wikistream_ingest::tally::Counters;
use wikistream_ingest::time::{bucket_key, Timestamp, G_DAY, G_HOUR, G_MINUTE};

fn event(id: &str, dt: &str, kind: &str, server: &str, user: &str, bot: bool, length: Option<Length>) -> RcEvent {
    RcEvent {
        meta: Meta { id: id.to_string(), dt: dt.to_string(), domain: server.to_string() },
        kind: kind.to_string(),
        bot,
        server_name: server.to_string(),
        user: user.to_string(),
        length,
    }
}

fn len(old: Option<i64>, new: Option<i64>) -> Option<Length> {
    Some(Length { old, new })
}

const T0: &str = "2023-11-14T22:15:23Z"; // 1700000123
const T0_SECS: i64 = 1_700_000_123;

#[test]
fn bucket_keys_align_to_grains() {
    let ts = Timestamp { secs: T0_SECS, nanos: 5 };
    assert_eq!(bucket_key(&ts, G_MINUTE), 1_700_000_100);
    assert_eq!(bucket_key(&ts, G_HOUR), 1_699_999_200);
    assert_eq!(bucket_key(&ts, G_DAY), 1_699_920_000);
    // any other grain code means a day
    assert_eq!(bucket_key(&ts, 7), 1_699_920_000);
}

#[test]
fn bucket_keys_round_down_before_the_epoch() {
    let ts = Timestamp { secs: -1, nanos: 0 };
    assert_eq!(bucket_key(&ts, G_MINUTE), -60);
    assert_eq!(bucket_key(&ts, G_HOUR), -3600);
    assert_eq!(bucket_key(&ts, G_DAY), -86400);
    let exact = Timestamp { secs: 7200, nanos: 0 };
    assert_eq!(bucket_key(&exact, G_HOUR), 7200);
}

#[test]
fn content_kinds_and_deltas() {
    assert!(is_content("edit"));
    assert!(is_content("new"));
    assert!(!is_content("log"));
    assert!(!is_content("categorize"));
    assert_eq!(bytes_delta("edit", &len(Some(100), Some(130))), Some(30));
    assert_eq!(bytes_delta("edit", &len(None, Some(130))), None);
    assert_eq!(bytes_delta("new", &len(None, Some(50))), Some(50));
    assert_eq!(bytes_delta("log", &len(Some(1), Some(2))), None);
    assert_eq!(bytes_delta("edit", &None), None);
    assert!(is_canary("canary"));
    assert!(!is_canary("en.wikipedia.org"));
}

#[test]
fn push_counts_an_edit_in_three_buckets() {
    let mut b = Buffer::new();
    let s = b
        .push_checked(event("e1", T0, "edit", "en.wikipedia.org", "Alice", false, len(Some(100), Some(130))))
        .unwrap()
        .expect("editor sighting");
    assert_eq!(s.user, "Alice");
    assert_eq!(s.buckets, vec![(G_MINUTE, 1_700_000_100), (G_HOUR, 1_699_999_200), (G_DAY, 1_699_920_000)]);
    let c = b.bucket(G_MINUTE, 1_700_000_100).unwrap();
    assert_eq!(c, Counters { edits: 1, new_pages: 0, bot_edits: 0, bytes_added: 30, bytes_removed: 0 });
    assert_eq!(b.bucket(G_HOUR, 1_699_999_200), Some(c));
    assert_eq!(b.bucket(G_DAY, 1_699_920_000), Some(c));
    assert_eq!(b.len(), 1);
    assert_eq!(b.last_event_id(), "e1");
    assert_eq!(b.last_event_ts(), Timestamp { secs: T0_SECS, nanos: 0 });
}

#[test]
fn push_new_page_bot_and_removal() {
    let mut b = Buffer::new();
    b.push_checked(event("e1", T0, "new", "de.wikipedia.org", "Bot1", true, len(None, Some(500)))).unwrap();
    b.push_checked(event("e2", "2023-11-14T22:15:59Z", "edit", "de.wikipedia.org", "Bob", false, len(Some(90), Some(40))))
        .unwrap();
    let c = b.bucket(G_MINUTE, 1_700_000_100).unwrap();
    assert_eq!(c, Counters { edits: 2, new_pages: 1, bot_edits: 1, bytes_added: 500, bytes_removed: 50 });
    assert!(c.new_pages <= c.edits && c.bot_edits <= c.edits);
}

#[test]
fn counters_only_grow_within_a_batch() {
    let mut b = Buffer::new();
    b.push_checked(event("e1", T0, "edit", "x", "A", true, len(Some(5), Some(9)))).unwrap();
    let before = b.bucket(G_HOUR, 1_699_999_200).unwrap();
    b.push_checked(event("e2", T0, "edit", "x", "B", false, len(Some(9), Some(1)))).unwrap();
    let after = b.bucket(G_HOUR, 1_699_999_200).unwrap();
    assert!(after.edits >= before.edits && after.bot_edits >= before.bot_edits);
    assert!(after.bytes_added >= before.bytes_added && after.bytes_removed >= before.bytes_removed);
    assert_eq!(after.bytes_added - after.bytes_removed, 4 - 8);
}

#[test]
fn push_log_event_is_kept_but_not_counted() {
    let mut b = Buffer::new();
    let r = b.push_checked(event("l1", T0, "log", "en.wikipedia.org", "Alice", false, None)).unwrap();
    assert!(r.is_none());
    assert_eq!(b.len(), 1);
    assert_eq!(b.bucket(G_MINUTE, 1_700_000_100), None);
    assert_eq!(b.raws()[0].kind, "log");
    assert_eq!(b.raws()[0].bytes_delta, None);
}

#[test]
fn push_without_editor_counts_but_sights_nobody() {
    let mut b = Buffer::new();
    let r = b.push_checked(event("e1", T0, "edit", "en.wikipedia.org", "", false, None)).unwrap();
    assert!(r.is_none());
    assert_eq!(b.bucket(G_DAY, 1_699_920_000).unwrap().edits, 1);
}

#[test]
fn push_refuses_a_bad_timestamp_and_keeps_the_buffer() {
    let mut b = Buffer::new();
    b.push_checked(event("e1", T0, "edit", "en.wikipedia.org", "A", false, None)).unwrap();
    match b.push_checked(event("e2", "yesterday", "edit", "en.wikipedia.org", "A", false, None)) {
        Err(PushError::BadTimestamp(dt)) => assert_eq!(dt, "yesterday"),
        other => panic!("unexpected {:?}", other.map(|s| s.is_some())),
    }
    assert_eq!(b.len(), 1);
    assert_eq!(b.last_event_id(), "e1");
}

#[test]
fn push_unchecked_behaves_like_checked_on_plain_events() {
    let mut b = Buffer::new();
    let s = b.push(event("e1", T0, "edit", "en.wikipedia.org", "A", false, len(Some(10), Some(5)))).unwrap();
    assert!(s.is_some());
    assert_eq!(b.bucket(G_HOUR, 1_699_999_200).unwrap().bytes_removed, 5);
}

#[test]
fn push_reads_offsets_and_leap_seconds() {
    let mut b = Buffer::new();
    b.push_checked(event("e1", "2024-01-01T01:00:00+01:00", "edit", "x", "A", false, None)).unwrap();
    assert_eq!(b.last_event_ts(), Timestamp { secs: 1_704_067_200, nanos: 0 });
    b.push_checked(event("e2", "2016-12-31T23:59:60Z", "edit", "x", "A", false, None)).unwrap();
    assert_eq!(b.last_event_ts(), Timestamp { secs: 1_483_228_799, nanos: 1_000_000_000 });
    assert_eq!(b.bucket(G_MINUTE, 1_483_228_740).unwrap().edits, 1);
}

#[test]
fn push_checked_refuses_an_overflowing_delta() {
    let mut b = Buffer::new();
    let r = b.push_checked(event("e1", T0, "edit", "x", "A", false, len(Some(-1), Some(i64::MAX))));
    assert!(matches!(r, Err(PushError::CounterOverflow)));
    assert_eq!(b.len(), 0);
    assert!(b.is_empty());
}

#[test]
fn push_checked_refuses_a_minimal_delta() {
    let mut b = Buffer::new();
    let r = b.push_checked(event("e1", T0, "new", "x", "A", false, len(None, Some(i64::MIN))));
    assert!(matches!(r, Err(PushError::CounterOverflow)));
    assert!(b.is_empty());
}

#[test]
fn batch_fills_at_the_flush_size() {
    let mut b = Buffer::new();
    for i in 0..FLUSH_EVERY_EVENTS {
        assert!(!b.batch_full());
        b.push_checked(event(&format!("e{i}"), T0, "edit", "x", "A", false, None)).unwrap();
    }
    assert!(b.batch_full());
    assert_eq!(b.bucket(G_MINUTE, 1_700_000_100).unwrap().edits, FLUSH_EVERY_EVENTS as i64);
}

#[test]
fn clear_batch_keeps_the_last_event() {
    let mut b = Buffer::new();
    b.push_checked(event("e1", T0, "edit", "x", "A", false, None)).unwrap();
    b.clear_batch();
    assert!(b.is_empty());
    assert_eq!(b.bucket(G_MINUTE, 1_700_000_100), None);
    assert_eq!(b.last_event_id(), "e1");
}

#[test]
fn hours_hold_their_minutes() {
    // two minutes of the same hour: the hour's counters are their sum
    let mut b = Buffer::new();
    b.push_checked(event("e1", "2023-11-14T22:01:00Z", "edit", "x", "A", false, len(Some(0), Some(7)))).unwrap();
    b.push_checked(event("e2", "2023-11-14T22:59:59Z", "edit", "y", "B", true, len(Some(9), Some(2)))).unwrap();
    let m1 = b.bucket(G_MINUTE, 1_699_999_260).unwrap();
    let m2 = b.bucket(G_MINUTE, 1_700_002_740).unwrap();
    let h = b.bucket(G_HOUR, 1_699_999_200).unwrap();
    assert_eq!(h.edits, m1.edits + m2.edits);
    assert_eq!(h.bot_edits, m1.bot_edits + m2.bot_edits);
    assert_eq!(h.bytes_added, m1.bytes_added + m2.bytes_added);
    assert_eq!(h.bytes_removed, m1.bytes_removed + m2.bytes_removed);
    assert_eq!(h.bytes_added - h.bytes_removed, 7 - 7);
}

#[test]
fn default_buffer_is_empty() {
    let b = Buffer::default();
    assert!(b.is_empty());
    assert_eq!(b.len(), 0);
    assert_eq!(b.last_event_id(), "");
    assert_eq!(b.last_event_ts(), Timestamp { secs: 0, nanos: 0 });
    assert!(b.bucket(G_MINUTE, 0).is_none());
}
