use vstd::prelude::*;

use std::collections::VecDeque;

use crate::buffer::Buffer;
use crate::tally::RawRow;
use crate::text::{fields, parse_u64, parse_u64_chars, split_fields, text_less, text_lt};
use crate::time::{
    bucket_key, bucket_start, days_between, div_toward_zero, format_hour_stamp,
    format_rfc3339_nanos, hour_stamp, leap_adjust, nanos_between, parse_rfc3339_utc, rfc3339_instant,
    rfc3339_nanos_text, Timestamp, G_HOUR, MAX_UTC_SECS, MIN_UTC_SECS,
};

verus! {

/// A resume gap is recorded when the first event after a boot lies more than
/// this many whole days past the cursor (conservative against the stream's
/// 7–31 day replay window).
pub const GAP_THRESHOLD_DAYS: i64 = 6;

/// Days an hourly archive file is kept.
pub const ARCHIVE_RETENTION_DAYS: i64 = 30;

/// Nanoseconds that the flusher waits after a failed flush.
pub const FLUSH_COOLDOWN_NS: u64 = 1_000_000_000;

/// Span of the event-rate window, in nanoseconds.
pub const RATE_WINDOW_NS: u64 = 60_000_000_000;

/// A period with no ingested events, longer than the replay window.
pub struct Gap {
    pub start: Timestamp,
    pub end: Timestamp,
    /// Why the data is lost.
    pub cause: String,
}

/// The gap check on resume: the first event after a boot that resumed from a
/// durable cursor is compared with the cursor, once.
pub struct ResumeWatch {
    first_event: bool,
    boot_cursor: Option<Timestamp>,
}

/// Whole days from instant `earlier` to instant `later` as chrono counts
/// them: the nanoseconds between them in whole seconds, then in whole days,
/// both rounded toward zero.
pub open spec fn whole_days(later: Timestamp, earlier: Timestamp) -> int {
    div_toward_zero(div_toward_zero(nanos_between(later, earlier), 1_000_000_000), 86400)
}

/// The first event at `(s, n)` lies far enough past the cursor for a gap:
/// more than six whole days.
pub open spec fn gap_due(cursor: Timestamp, s: i64, n: u32) -> bool {
    whole_days(Timestamp { secs: s, nanos: n }, cursor) > GAP_THRESHOLD_DAYS
}

/// The gap that the first event at `dt` reveals after a cursor at `cursor`:
/// present when `dt` parses and lies more than six whole days later.
pub open spec fn gap_matches(r: Option<Gap>, cursor: Timestamp, dt: Seq<char>) -> bool {
    match rfc3339_instant(dt) {
        Some((s, n)) => if gap_due(cursor, s, n) {
            r matches Some(g) && g.start == cursor && g.end == (Timestamp { secs: s, nanos: n })
                && g.cause@ == "retention-exceeded"@
        } else {
            r is None
        },
        None => r is None,
    }
}

/// Seven days in nanoseconds: the least span that chrono counts as more
/// than six whole days.
pub open spec fn seven_days_nanos() -> int {
    604_800_000_000_000int
}

/// More than six whole days (both roundings toward zero) is at least seven
/// days of nanoseconds.
proof fn lemma_more_than_six_days(x: int)
    ensures
        div_toward_zero(div_toward_zero(x, 1_000_000_000), 86400) > 6 <==> x >= seven_days_nanos(),
{
    if x >= 0 {
        let s = x / 1_000_000_000;
        vstd::arithmetic::div_mod::lemma_fundamental_div_mod(x, 1_000_000_000);
        vstd::arithmetic::div_mod::lemma_mod_bound(x, 1_000_000_000);
        vstd::arithmetic::div_mod::lemma_div_pos_is_pos(x, 1_000_000_000);
        vstd::arithmetic::div_mod::lemma_fundamental_div_mod(s, 86400);
        vstd::arithmetic::div_mod::lemma_mod_bound(s, 86400);
        let d = s / 86400;
        assert(d > 6 <==> s >= 604800) by (nonlinear_arith)
            requires
                s == 86400 * d + s % 86400,
                0 <= s % 86400 < 86400,
        ;
        assert(s >= 604800 <==> x >= seven_days_nanos()) by (nonlinear_arith)
            requires
                x == 1_000_000_000 * s + x % 1_000_000_000,
                0 <= x % 1_000_000_000 < 1_000_000_000,
        ;
    } else {
        let y = -x;
        vstd::arithmetic::div_mod::lemma_div_pos_is_pos(y, 1_000_000_000);
        let s = -(y / 1_000_000_000);
        assert(s <= 0);
        vstd::arithmetic::div_mod::lemma_div_pos_is_pos(-s, 86400);
    }
}

/// Seven days of chrono's count put the later instant's second after the
/// earlier one's.
proof fn lemma_seven_days_apart(later: Timestamp, earlier: Timestamp)
    requires
        later.valid(),
        earlier.valid(),
    ensures
        nanos_between(later, earlier) >= seven_days_nanos() ==> earlier.secs < later.secs,
{
    let a = leap_adjust(later, earlier);
    let x = later.secs - earlier.secs + a;
    assert(-1 <= a <= 1);
    if nanos_between(later, earlier) >= seven_days_nanos() {
        assert(x > 604797) by (nonlinear_arith)
            requires
                x * 1_000_000_000 + later.nanos - earlier.nanos >= 604_800_000_000_000int,
                later.nanos < 2_000_000_000,
                earlier.nanos >= 0,
        ;
    }
}

impl ResumeWatch {
    /// No event has been seen yet.
    pub closed spec fn first_event(&self) -> bool {
        self.first_event
    }

    /// The time of the cursor the daemon resumed from, if any.
    pub closed spec fn boot_cursor(&self) -> Option<Timestamp> {
        self.boot_cursor
    }

    /// A watch for the boot cursor's time, if the daemon resumed from one.
    pub fn new(boot_cursor: Option<Timestamp>) -> (w: ResumeWatch)
        requires
            boot_cursor matches Some(t) ==> t.valid(),
        ensures
            w.first_event(),
            w.boot_cursor() == boot_cursor,
    {
        ResumeWatch { first_event: true, boot_cursor }
    }

    /// Sees an event's `meta.dt`. Only the first event counts: it yields the
    /// gap from the boot cursor to that event when there is one; every later
    /// event yields nothing.
    pub fn observe(&mut self, dt: &str) -> (r: Option<Gap>)
        requires
            old(self).boot_cursor() matches Some(t) ==> t.valid(),
        ensures
            !final(self).first_event(),
            final(self).boot_cursor() == old(self).boot_cursor(),
            old(self).first_event() && old(self).boot_cursor() is Some ==> gap_matches(
                r,
                old(self).boot_cursor()->0,
                dt@,
            ),
            !(old(self).first_event() && old(self).boot_cursor() is Some) ==> r is None,
            old(self).first_event() ==> match (old(self).boot_cursor(), rfc3339_instant(dt@)) {
                (Some(c), Some((s, n))) => r is Some <==> nanos_between(
                    Timestamp { secs: s, nanos: n },
                    c,
                ) >= seven_days_nanos(),
                _ => true,
            },
            r matches Some(g) ==> g.start.secs < g.end.secs,
    {
        if !self.first_event {
            return None;
        }
        self.first_event = false;
        match self.boot_cursor {
            Some(cursor) => match parse_rfc3339_utc(dt) {
                Ok(first_ts) => {
                    let hole_days = days_between(&first_ts, &cursor);
                    proof {
                        lemma_more_than_six_days(nanos_between(first_ts, cursor));
                        lemma_seven_days_apart(first_ts, cursor);
                    }
                    if hole_days > GAP_THRESHOLD_DAYS {
                        Some(
                            Gap {
                                start: cursor,
                                end: first_ts,
                                cause: String::from_str("retention-exceeded"),
                            },
                        )
                    } else {
                        None
                    }
                },
                Err(_) => None,
            },
            None => None,
        }
    }
}

/// The `since` parameter that resumes the stream after the durable cursor
/// (strictly newer events): the cursor's time in RFC 3339 with nanoseconds.
/// Without a cursor the stream starts live and takes no parameter.
pub fn resume_since(cursor: Option<Timestamp>) -> (r: Option<String>)
    requires
        cursor matches Some(t) ==> t.valid(),
    ensures
        match cursor {
            Some(t) => r matches Some(s) && s@ == rfc3339_nanos_text(t.secs, t.nanos),
            None => r is None,
        },
{
    match cursor {
        Some(t) => Some(format_rfc3339_nanos(&t)),
        None => None,
    }
}

/// The flusher's back-off: after a failed flush, flush requests are ignored
/// for a second.
pub struct FlushGate {
    cool_until_ns: u64,
}

impl FlushGate {
    /// The first instant (nanoseconds since the flusher started) at which a flush may run.
    pub closed spec fn cool_until(&self) -> u64 {
        self.cool_until_ns
    }

    /// A gate that lets the first request through.
    pub fn new() -> (g: FlushGate)
        ensures
            g.cool_until() == 0,
    {
        FlushGate { cool_until_ns: 0 }
    }

    /// Whether a flush may run at `now_ns` (nanoseconds since the flusher
    /// started).
    pub fn permits(&self, now_ns: u64) -> (r: bool)
        ensures
            r == (now_ns >= self.cool_until()),
    {
        now_ns >= self.cool_until_ns
    }

    /// A flush failed at `now_ns`: requests wait one second.
    pub fn on_failure(&mut self, now_ns: u64)
        requires
            now_ns <= u64::MAX - FLUSH_COOLDOWN_NS,
        ensures
            final(self).cool_until() == now_ns + FLUSH_COOLDOWN_NS,
    {
        self.cool_until_ns = now_ns + FLUSH_COOLDOWN_NS;
    }
}

/// What a flush request leads to.
#[derive(Clone, Copy, Debug, PartialEq, Eq, Structural)]
pub enum FlushStart {
    /// A flush failed less than a second ago: the request is dropped.
    CoolingDown,
    /// The batch is empty: no transaction, no ledger row.
    NothingToFlush,
    /// The batch is to be written in one transaction.
    Run,
}

/// The first step of the batch commit protocol: a request at `now_ns` is
/// dropped during the back-off after a failed flush; otherwise an empty batch writes
/// nothing and a non-empty one is written.
pub fn flush_start(gate: &FlushGate, buf: &Buffer, now_ns: u64) -> (r: FlushStart)
    ensures
        r == if now_ns < gate.cool_until() {
            FlushStart::CoolingDown
        } else if buf@.raws.len() == 0 {
            FlushStart::NothingToFlush
        } else {
            FlushStart::Run
        },
{
    if !gate.permits(now_ns) {
        FlushStart::CoolingDown
    } else if buf.is_empty() {
        FlushStart::NothingToFlush
    } else {
        FlushStart::Run
    }
}

/// The last step of the batch commit protocol, once the transaction has
/// ended at `now_ns`: a committed batch is cleared (its last event stays as
/// the cursor) and its size returned; a failed one is kept whole for the
/// next flush, and requests wait a second from `now_ns`.
pub fn flush_finish(gate: &mut FlushGate, buf: &mut Buffer, committed: bool, now_ns: u64) -> (r:
    Option<usize>)
    requires
        old(buf).wf(),
        now_ns <= u64::MAX - FLUSH_COOLDOWN_NS,
    ensures
        final(buf).wf(),
        committed ==> {
            &&& r == Some(old(buf)@.raws.len() as usize)
            &&& final(buf)@.raws == Seq::<RawRow>::empty()
            &&& final(buf)@.last_event_id == old(buf)@.last_event_id
            &&& final(buf)@.last_event_ts == old(buf)@.last_event_ts
            &&& final(gate).cool_until() == old(gate).cool_until()
        },
        !committed ==> {
            &&& r is None
            &&& final(buf)@ == old(buf)@
            &&& final(gate).cool_until() == now_ns + FLUSH_COOLDOWN_NS
        },
{
    if committed {
        let events = buf.len();
        buf.clear_batch();
        Some(events)
    } else {
        gate.on_failure(now_ns);
        None
    }
}

/// The arrival times (nanoseconds since the daemon started) of the stream's
/// recent events, for the rate shown in the daemon's stats line.
pub struct RateWindow {
    stamps: VecDeque<u64>,
}

/// An arrival at `t` has left the window at `now` (more than a minute ago).
pub open spec fn expired(t: u64, now: u64) -> bool {
    now > t + RATE_WINDOW_NS
}

/// The arrivals that remain after dropping expired ones from the front,
/// stopping at the first arrival still in the window.
pub open spec fn drop_expired(s: Seq<u64>, now: u64) -> Seq<u64>
    decreases s.len(),
{
    if s.len() > 0 && expired(s[0], now) {
        drop_expired(s.drop_first(), now)
    } else {
        s
    }
}

impl View for RateWindow {
    type V = Seq<u64>;

    closed spec fn view(&self) -> Seq<u64> {
        self.stamps@
    }
}

impl RateWindow {
    /// An empty window.
    pub fn new() -> (w: RateWindow)
        ensures
            w@ == Seq::<u64>::empty(),
    {
        RateWindow { stamps: VecDeque::new() }
    }

    /// Records an arrival at `now_ns`.
    pub fn record(&mut self, now_ns: u64)
        ensures
            final(self)@ == old(self)@.push(now_ns),
    {
        self.stamps.push_back(now_ns);
    }

    /// Drops the arrivals older than a minute from the front.
    pub fn prune(&mut self, now_ns: u64)
        ensures
            final(self)@ == drop_expired(old(self)@, now_ns),
    {
        loop
            invariant
                drop_expired(self.stamps@, now_ns) == drop_expired(old(self)@, now_ns),
            ensures
                self.stamps@ == drop_expired(old(self)@, now_ns),
            decreases self.stamps@.len(),
        {
            if self.stamps.len() == 0 {
                break;
            }
            let t = self.stamps[0];
            if !(now_ns > t && now_ns - t > RATE_WINDOW_NS) {
                break;
            }
            let ghost before = self.stamps@;
            let _ = self.stamps.pop_front();
            proof {
                assert(self.stamps@ =~= before.drop_first());
            }
        }
    }

    /// Number of arrivals in the window.
    pub fn len(&self) -> (n: usize)
        ensures
            n == self@.len(),
    {
        self.stamps.len()
    }

    /// Events per second over the window: its size over 60, rounded down.
    pub fn events_per_sec(&self) -> (r: usize)
        ensures
            r == self@.len() / 60,
    {
        self.stamps.len() / 60
    }
}

/// A new hourly archive file to write to.
pub struct ArchiveFile {
    /// Start of the hour, in seconds since the epoch.
    pub hour: i64,
    /// The file's name: the hour as `%Y-%m-%dT%H`, then `.ndjson.gz`.
    pub name: String,
}

/// The archive writer's clock: the hour whose file is open.
pub struct ArchiveClock {
    cur_hour: Option<i64>,
}

impl ArchiveClock {
    /// The start of the hour whose file is open.
    pub closed spec fn cur_hour(&self) -> Option<i64> {
        self.cur_hour
    }

    /// No hour open yet.
    pub fn new() -> (c: ArchiveClock)
        ensures
            c.cur_hour() is None,
    {
        ArchiveClock { cur_hour: None }
    }

    /// A line arrives at `now` (seconds since the epoch): when its hour is
    /// not the open one, that hour's file is to be opened (and the archive
    /// swept of expired files).
    pub fn observe(&mut self, now: i64) -> (r: Option<ArchiveFile>)
        requires
            MIN_UTC_SECS <= now <= MAX_UTC_SECS,
        ensures
            ({
                let hour = bucket_start(now as int, G_HOUR);
                &&& final(self).cur_hour() == Some(hour as i64)
                &&& if old(self).cur_hour() == Some(hour as i64) {
                    r is None
                } else {
                    r matches Some(f) && f.hour == hour && f.name@ == hour_stamp(hour as i64)
                        + ".ndjson.gz"@
                }
            }),
    {
        let hour = bucket_key(&Timestamp { secs: now, nanos: 0 }, G_HOUR);
        let rotate = match self.cur_hour {
            Some(h) => h != hour,
            None => true,
        };
        self.cur_hour = Some(hour);
        if !rotate {
            return None;
        }
        proof {
            assert(0 <= now - hour < 3600) by {
                vstd::arithmetic::div_mod::lemma_fundamental_div_mod(now as int, 3600);
                vstd::arithmetic::div_mod::lemma_mod_bound(now as int, 3600);
            }
        }
        let mut name = format_hour_stamp(hour);
        name.append(".ndjson.gz");
        Some(ArchiveFile { hour, name })
    }
}

/// Archive files whose name sorts before this one are expired: the hour
/// stamp of `now` minus the retention period.
pub fn retention_cutoff(now: i64) -> (c: String)
    requires
        MIN_UTC_SECS + ARCHIVE_RETENTION_DAYS * 86400 <= now <= MAX_UTC_SECS,
    ensures
        c@ == hour_stamp((now - ARCHIVE_RETENTION_DAYS * 86400) as i64),
{
    format_hour_stamp(now - ARCHIVE_RETENTION_DAYS * 86400)
}

/// An archive file is removed when its name sorts before the cutoff (the
/// names start with their hour stamp, so this compares hours).
pub fn is_expired(name: &str, cutoff: &str) -> (r: bool)
    ensures
        r == text_lt(name@, cutoff@),
{
    text_less(name, cutoff)
}

/// The resident set size in pages that `/proc/self/statm` reports: its
/// second field, read as a decimal number.
pub open spec fn statm_resident_pages(statm: Seq<char>) -> Option<u64> {
    if fields(statm).len() >= 2 {
        parse_u64(fields(statm)[1])
    } else {
        None
    }
}

/// The second field of a `statm` text, as a number of pages.
pub fn resident_pages(statm: &str) -> (r: Option<u64>)
    ensures
        r == statm_resident_pages(statm@),
{
    let fs = split_fields(statm);
    if fs.len() >= 2 {
        proof {
            assert(fs@.map_values(|f: Vec<char>| f@)[1] == fs@[1]@);
        }
        parse_u64_chars(&fs[1])
    } else {
        None
    }
}

/// The resident set size in KB from a `statm` text (4096-byte pages); 0 when
/// the text holds no such number.
pub fn rss_kb_from_statm(statm: &str) -> (kb: u64)
    requires
        statm_resident_pages(statm@) matches Some(p) ==> p <= u64::MAX / 4096,
    ensures
        kb == match statm_resident_pages(statm@) {
            Some(p) => p * 4096 / 1024,
            None => 0,
        },
{
    match resident_pages(statm) {
        Some(pages) => pages * 4096 / 1024,
        None => 0,
    }
}

} // verus!
