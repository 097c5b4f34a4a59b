use vstd::prelude::*;

use crate::text::same_text;

verus! {

/// The `meta` block of a recentchange event.
pub struct Meta {
    /// The stream's unique event id.
    pub id: String,
    /// The event time, an RFC 3339 date-time.
    pub dt: String,
    /// The wiki's domain; `canary` marks keepalive events.
    pub domain: String,
}

/// Page lengths before and after the change.
#[derive(Clone, Copy, Debug, PartialEq, Eq, Structural)]
pub struct Length {
    pub old: Option<i64>,
    pub new: Option<i64>,
}

/// A `mediawiki.recentchange` event, as far as the daemon reads it.
pub struct RcEvent {
    pub meta: Meta,
    /// The event type: `edit`, `new`, `log`, `categorize` or `external`.
    pub kind: String,
    pub bot: bool,
    pub server_name: String,
    /// The editor; empty when the event names none.
    pub user: String,
    pub length: Option<Length>,
}

/// A content edit is an event of type `edit` or `new`.
pub open spec fn is_content_kind(kind: Seq<char>) -> bool {
    kind == "edit"@ || kind == "new"@
}

/// The byte delta of an event over the integers: `new − old` for an edit that
/// carries both lengths, the new length for a new page, nothing otherwise.
pub open spec fn delta_of(kind: Seq<char>, length: Option<Length>) -> Option<int> {
    if kind == "edit"@ {
        match length {
            Some(l) => match (l.new, l.old) {
                (Some(n), Some(o)) => Some(n - o),
                _ => None,
            },
            None => None,
        }
    } else if kind == "new"@ {
        match length {
            Some(l) => match l.new {
                Some(n) => Some(n as int),
                None => None,
            },
            None => None,
        }
    } else {
        None
    }
}

/// The byte delta fits the 64-bit column it is stored in.
pub open spec fn delta_fits(kind: Seq<char>, length: Option<Length>) -> bool {
    match delta_of(kind, length) {
        Some(d) => i64::MIN <= d <= i64::MAX,
        None => true,
    }
}

/// The byte delta as it is stored.
pub open spec fn stored_delta(kind: Seq<char>, length: Option<Length>) -> Option<i64> {
    match delta_of(kind, length) {
        Some(d) => Some(d as i64),
        None => None,
    }
}

/// Whether the event is of type `edit` or `new`.
pub fn is_content(kind: &str) -> (r: bool)
    ensures
        r == is_content_kind(kind@),
{
    same_text(kind, "edit") || same_text(kind, "new")
}

/// The byte delta of an event: `length.new − length.old` for an edit,
/// `length.new` for a new page, `None` for other events or missing lengths.
pub fn bytes_delta(kind: &str, length: &Option<Length>) -> (r: Option<i64>)
    requires
        delta_fits(kind@, *length),
    ensures
        r == stored_delta(kind@, *length),
{
    if same_text(kind, "edit") {
        match length {
            Some(l) => match (l.new, l.old) {
                (Some(n), Some(o)) => Some(n - o),
                _ => None,
            },
            None => None,
        }
    } else if same_text(kind, "new") {
        match length {
            Some(l) => l.new,
            None => None,
        }
    } else {
        None
    }
}

/// Whether `bytes_delta` can store the event's delta: false only for an edit
/// whose `new − old` leaves the 64-bit range.
pub fn delta_in_range(kind: &str, length: &Option<Length>) -> (r: bool)
    ensures
        r == delta_fits(kind@, *length),
{
    if same_text(kind, "edit") {
        match length {
            Some(l) => match (l.new, l.old) {
                (Some(n), Some(o)) => n.checked_sub(o).is_some(),
                _ => true,
            },
            None => true,
        }
    } else {
        true
    }
}

/// Keepalive events carry the domain `canary` and are dropped before parsing.
pub fn is_canary(domain: &str) -> (r: bool)
    ensures
        r == (domain@ == "canary"@),
{
    same_text(domain, "canary")
}

} // verus!
