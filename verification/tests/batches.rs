use wikistream_ingest::buffer::{Buffer, TotalsRow};
use wikistream_ingest::event::{Length, Meta, RcEvent};
use wikistream_ingest::flush::{plan_flush, rollup_table, wiki_rows};
use wikistream_ingest::tally::Counters;
use wikistream_ingest::time::{Timestamp, G_DAY, G_HOUR, G_MINUTE};
use wikistream_ingest::wiki::{wiki_deltas, WikiDirectory};

fn event(id: &str, dt: &str, kind: &str, server: &str, user: &str, bot: bool, length: Option<Length>) -> RcEvent {
    RcEvent {
        meta: Meta { id: id.to_string(), dt: dt.to_string(), domain: server.to_string() },
        kind: kind.to_string(),
        bot,
        server_name: server.to_string(),
        user: user.to_string(),
        length,
    }
}

fn len(old: Option<i64>, new: Option<i64>) -> Option<Length> {
    Some(Length { old, new })
}

fn sample() -> Buffer {
    let mut b = Buffer::new();
    b.push_checked(event("e1", "2023-11-14T22:15:23Z", "edit", "en.wikipedia.org", "A", false, len(Some(10), Some(40))))
        .unwrap();
    b.push_checked(event("e2", "2023-11-14T22:16:00Z", "new", "de.wikipedia.org", "B", true, len(None, Some(100))))
        .unwrap();
    b.push_checked(event("e3", "2023-11-14T23:00:00Z", "edit", "en.wikipedia.org", "C", false, len(Some(50), Some(20))))
        .unwrap();
    b.push_checked(event("e4", "2023-11-14T23:00:05Z", "log", "fr.wikipedia.org", "D", false, None)).unwrap();
    b
}

#[test]
fn wiki_deltas_split_buckets_by_wiki() {
    let b = sample();
    let hour = wiki_deltas(&b, G_HOUR);
    let keys: Vec<(i64, String)> = hour.iter().map(|e| (e.bucket_start, e.server_name.clone())).collect();
    assert_eq!(
        keys,
        vec![
            (1_699_999_200, "en.wikipedia.org".to_string()),
            (1_699_999_200, "de.wikipedia.org".to_string()),
            (1_700_002_800, "en.wikipedia.org".to_string()),
        ]
    );
    assert_eq!(hour[0].delta, Counters { edits: 1, new_pages: 0, bot_edits: 0, bytes_added: 30, bytes_removed: 0 });
    assert_eq!(hour[1].delta, Counters { edits: 1, new_pages: 1, bot_edits: 1, bytes_added: 100, bytes_removed: 0 });
    assert_eq!(hour[2].delta, Counters { edits: 1, new_pages: 0, bot_edits: 0, bytes_added: 0, bytes_removed: 30 });
    let day = wiki_deltas(&b, G_DAY);
    assert_eq!(day.len(), 2);
    assert_eq!(day[0].delta.edits, 2);
    assert_eq!(day[0].delta.bytes_removed, 30);
    assert_eq!(day[1].server_name, "de.wikipedia.org");
}

#[test]
fn wiki_rows_of_a_bucket_sum_to_its_totals() {
    let b = sample();
    let totals = b.totals_rows(G_HOUR);
    let deltas = wiki_deltas(&b, G_HOUR);
    for t in &totals {
        let mut edits = 0;
        let mut added = 0;
        let mut removed = 0;
        for d in deltas.iter().filter(|d| d.bucket_start == t.bucket_start) {
            edits += d.delta.edits;
            added += d.delta.bytes_added;
            removed += d.delta.bytes_removed;
        }
        assert_eq!(edits, t.counters.edits);
        assert_eq!(added, t.counters.bytes_added);
        assert_eq!(removed, t.counters.bytes_removed);
    }
}

#[test]
fn totals_rows_follow_first_touch_order() {
    let b = sample();
    let m = b.totals_rows(G_MINUTE);
    let starts: Vec<i64> = m.iter().map(|t| t.bucket_start).collect();
    assert_eq!(starts, vec![1_700_000_100, 1_700_000_160, 1_700_002_800]);
    assert!(m.iter().all(|t| t.grain == G_MINUTE));
    let d = b.totals_rows(G_DAY);
    assert_eq!(
        d,
        vec![TotalsRow {
            grain: G_DAY,
            bucket_start: 1_699_920_000,
            counters: Counters { edits: 3, new_pages: 1, bot_edits: 1, bytes_added: 130, bytes_removed: 30 },
        }]
    );
}

#[test]
fn directory_inserts_replace_and_count() {
    let mut d = WikiDirectory::new();
    assert_eq!(d.len(), 0);
    d.insert("en.wikipedia.org".to_string(), 1);
    d.insert("de.wikipedia.org".to_string(), 2);
    d.insert("en.wikipedia.org".to_string(), 7);
    assert_eq!(d.len(), 2);
    assert_eq!(d.get("en.wikipedia.org"), Some(7));
    assert_eq!(d.get("de.wikipedia.org"), Some(2));
    assert_eq!(d.get("fr.wikipedia.org"), None);
}

#[test]
fn missing_wikis_lists_each_unknown_name_once() {
    let b = sample();
    let mut d = WikiDirectory::new();
    d.insert("de.wikipedia.org".to_string(), 2);
    let missing = d.missing_wikis(&b);
    assert_eq!(missing, vec!["en.wikipedia.org".to_string(), "fr.wikipedia.org".to_string()]);
}

#[test]
fn empty_batch_plans_nothing() {
    let b = Buffer::new();
    let d = WikiDirectory::new();
    assert!(plan_flush(&b, &d).is_none());
}

#[test]
fn unresolved_wiki_blocks_the_plan() {
    let b = sample();
    let mut d = WikiDirectory::new();
    d.insert("en.wikipedia.org".to_string(), 1);
    assert!(plan_flush(&b, &d).is_none());
}

#[test]
fn plan_holds_every_row_of_the_batch() {
    let b = sample();
    let mut d = WikiDirectory::new();
    for (i, name) in d.missing_wikis(&b).into_iter().enumerate() {
        d.insert(name, 10 + i as i16);
    }
    let p = plan_flush(&b, &d).expect("plan");
    assert_eq!(p.raws.len(), 4);
    assert_eq!(p.raws[0].event_id, "e1");
    assert_eq!(p.raws[0].wiki_id, 10);
    assert_eq!(p.raws[1].wiki_id, 11);
    assert_eq!(p.raws[3].wiki_id, 12);
    assert_eq!(p.raws[3].kind, "log");
    assert_eq!(p.raws[0].bytes_delta, Some(30));
    assert_eq!(p.raws[2].bytes_delta, Some(-30));
    assert_eq!(p.minute_totals.len(), 3);
    assert_eq!(p.hour_totals.len(), 2);
    assert_eq!(p.day_totals.len(), 1);
    assert_eq!(p.hour_wikis.len(), 3);
    assert_eq!(p.hour_wikis[1].wiki_id, 11);
    assert_eq!(p.day_wikis.len(), 2);
    assert_eq!(p.cursor.last_event_id, "e4");
    assert_eq!(p.cursor.last_event_ts, Timestamp { secs: 1_700_002_805, nanos: 0 });
    assert_eq!(p.ledger.last_event_id, "e4");
    assert_eq!(p.ledger.first_event_ts, Timestamp { secs: 1_700_000_123, nanos: 0 });
    assert_eq!(p.ledger.last_event_ts, Timestamp { secs: 1_700_002_805, nanos: 0 });
    assert_eq!(p.ledger.events, 4);
    let w = wiki_rows(&b, &d, G_DAY);
    assert_eq!(w, p.day_wikis);
}

#[test]
fn rollup_tables_by_grain() {
    assert_eq!(rollup_table(G_MINUTE), "rollup_minute");
    assert_eq!(rollup_table(G_HOUR), "rollup_hour");
    assert_eq!(rollup_table(G_DAY), "rollup_day");
}

fn sample_reordered() -> Buffer {
    let mut b = Buffer::new();
    b.push_checked(event("e4", "2023-11-14T23:00:05Z", "log", "fr.wikipedia.org", "D", false, None)).unwrap();
    b.push_checked(event("e3", "2023-11-14T23:00:00Z", "edit", "en.wikipedia.org", "C", false, len(Some(50), Some(20))))
        .unwrap();
    b.push_checked(event("e2", "2023-11-14T22:16:00Z", "new", "de.wikipedia.org", "B", true, len(None, Some(100))))
        .unwrap();
    b.push_checked(event("e1", "2023-11-14T22:15:23Z", "edit", "en.wikipedia.org", "A", false, len(Some(10), Some(40))))
        .unwrap();
    b
}

#[test]
fn bucket_counters_do_not_depend_on_event_order() {
    let a = sample();
    let b = sample_reordered();
    let keys = [
        (G_MINUTE, 1_700_000_100),
        (G_MINUTE, 1_700_000_160),
        (G_MINUTE, 1_700_002_800),
        (G_HOUR, 1_699_999_200),
        (G_HOUR, 1_700_002_800),
        (G_DAY, 1_699_920_000),
    ];
    for (g, k) in keys {
        assert!(a.bucket(g, k).is_some());
        assert_eq!(a.bucket(g, k), b.bucket(g, k));
    }
    // a minute that no content edit falls in has no bucket in either order
    assert!(a.bucket(G_MINUTE, 1_700_000_040).is_none());
    assert!(b.bucket(G_MINUTE, 1_700_000_040).is_none());
    // the first-touch order differs, the rows do not
    let mut ra: Vec<(i64, Counters)> = a.totals_rows(G_HOUR).iter().map(|t| (t.bucket_start, t.counters)).collect();
    let mut rb: Vec<(i64, Counters)> = b.totals_rows(G_HOUR).iter().map(|t| (t.bucket_start, t.counters)).collect();
    assert_ne!(ra, rb);
    ra.sort_by_key(|r| r.0);
    rb.sort_by_key(|r| r.0);
    assert_eq!(ra, rb);
}

#[test]
fn wiki_deltas_do_not_depend_on_row_order() {
    let a = sample();
    let b = sample_reordered();
    for g in [G_HOUR, G_DAY] {
        let mut da: Vec<(i64, String, Counters)> =
            wiki_deltas(&a, g).iter().map(|e| (e.bucket_start, e.server_name.clone(), e.delta)).collect();
        let mut db: Vec<(i64, String, Counters)> =
            wiki_deltas(&b, g).iter().map(|e| (e.bucket_start, e.server_name.clone(), e.delta)).collect();
        da.sort_by(|x, y| (x.0, &x.1).cmp(&(y.0, &y.1)));
        db.sort_by(|x, y| (x.0, &x.1).cmp(&(y.0, &y.1)));
        assert_eq!(da, db);
    }
}

#[test]
fn wiki_entries_stay_within_their_bucket() {
    let b = sample();
    for g in [G_HOUR, G_DAY] {
        let totals = b.totals_rows(g);
        for d in wiki_deltas(&b, g).iter() {
            let t = totals.iter().find(|t| t.bucket_start == d.bucket_start).expect("bucket of the entry");
            assert!(d.delta.edits >= 1);
            assert!(d.delta.edits <= t.counters.edits);
            assert!(d.delta.new_pages <= t.counters.new_pages);
            assert!(d.delta.bot_edits <= t.counters.bot_edits);
            assert!(d.delta.bytes_added <= t.counters.bytes_added);
            assert!(d.delta.bytes_removed <= t.counters.bytes_removed);
        }
    }
}
