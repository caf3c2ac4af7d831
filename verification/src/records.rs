//! The rows that store competitions, and their conversions to and from the
//! declarations and views of the protocol. A stored date-time is held as
//! the seconds since the Unix epoch of its UTC reading.
use vstd::prelude::*;

use crate::proto::{CompDeclaration, CompStatus, CompView, CompetitionQueue, DatePair, Timestamp};
use crate::scheme::status_from_code;

verus! {

/// The seconds since the Unix epoch that a UTC date-time of chrono can have:
/// those of `DateTime::<Utc>::MIN_UTC` to those of `MAX_UTC`.
pub open spec fn representable_seconds(s: int) -> bool {
    -8334601228800 <= s <= 8210266876799
}

/// Calls `chrono::DateTime::from_timestamp(secs, 0)` and, where it gives a
/// date-time, reads back the seconds of its `naive_utc()`. chrono documents
/// `None` for seconds out of its range and a round trip with `timestamp`
/// otherwise; the range runs from the timestamp of `DateTime::<Utc>::MIN_UTC`
/// to that of `MAX_UTC`.
#[verifier::external_body]
fn utc_date_time(secs: i64) -> (r: Option<i64>)
    ensures
        r == (if representable_seconds(secs as int) {
            Some(secs)
        } else {
            None
        }),
{
    match chrono::DateTime::from_timestamp(secs, 0) {
        Some(d) => Some(d.naive_utc().and_utc().timestamp()),
        None => None,
    }
}

/// The stored date-time of a protocol timestamp: its whole seconds.
pub fn into_naive(t: Option<Timestamp>) -> (r: Option<i64>)
    requires
        t matches Some(ts) ==> representable_seconds(ts.seconds as int),
    ensures
        r == (match t {
            Some(ts) => Some(ts.seconds),
            None => None,
        }),
{
    match t {
        Some(ts) => utc_date_time(ts.seconds),
        None => None,
    }
}

/// The protocol timestamp of a stored date-time.
pub fn into_timestamp(t: Option<i64>) -> (r: Option<Timestamp>)
    ensures
        r == (match t {
            Some(s) => Some(Timestamp { seconds: s, nanos: 0 }),
            None => None,
        }),
{
    match t {
        Some(s) => Some(Timestamp { seconds: s, nanos: 0 }),
        None => None,
    }
}

/// A competition as it is stored before it gets its number.
#[derive(Clone, Debug, PartialEq)]
pub struct CompetitionPrototype {
    pub title: String,
    pub public: bool,
    pub organisation: i32,
    pub start_date: Option<i64>,
    pub ends_date: Option<i64>,
    pub place: Option<String>,
    pub descr: Option<String>,
    pub scheme: i32,
    pub queues: i32,
    pub status: i32,
}

/// A stored competition.
#[derive(Clone, Debug, PartialEq)]
pub struct Competition {
    pub id: i32,
    pub title: String,
    pub public: bool,
    pub organisation: i32,
    pub start_date: Option<i64>,
    pub ends_date: Option<i64>,
    pub place: Option<String>,
    pub descr: Option<String>,
    pub scheme: i32,
    pub queues: i32,
    pub status: i32,
}

/// Seconds of an optional timestamp.
pub open spec fn stored_date(t: Option<Timestamp>) -> Option<i64> {
    match t {
        Some(ts) => Some(ts.seconds),
        None => None,
    }
}

/// The dates of a declaration can be stored.
pub open spec fn storable_dates(d: Option<DatePair>) -> bool {
    d matches Some(p) ==> ((p.begins matches Some(b) ==> representable_seconds(b.seconds as int)) && (
    p.ends matches Some(e) ==> representable_seconds(e.seconds as int)))
}

impl CompetitionPrototype {
    /// The row that declaring `value` stores: its fields, the number of its
    /// queues, and the status `Declaration`.
    pub fn from(value: &CompDeclaration) -> (r: CompetitionPrototype)
        requires
            storable_dates(value.dates),
        ensures
            r.title == value.title,
            r.public == value.public,
            r.organisation == value.related_organisation_id,
            r.start_date == (match value.dates {
                Some(p) => stored_date(p.begins),
                None => None,
            }),
            r.ends_date == (match value.dates {
                Some(p) => stored_date(p.ends),
                None => None,
            }),
            r.place == value.place,
            r.descr == value.descr,
            r.scheme == value.scheme,
            r.queues == value.queues@.len() as i32,
            status_from_code(r.status) == Some(CompStatus::Declaration),
    {
        let (start_date, ends_date) = match value.dates {
            Some(p) => (into_naive(p.begins), into_naive(p.ends)),
            None => (None, None),
        };
        CompetitionPrototype {
            title: value.title.clone(),
            public: value.public,
            organisation: value.related_organisation_id,
            start_date,
            ends_date,
            place: value.place.clone(),
            descr: value.descr.clone(),
            scheme: value.scheme,
            queues: value.queues.len() as i32,
            status: CompStatus::Declaration.code(),
        }
    }
}

impl CompDeclaration {
    /// The declaration that a stored competition shows: its fields, its
    /// dates, and as many empty queues as it has.
    pub fn from(value: &Competition) -> (r: CompDeclaration)
        requires
            value.queues >= 0,
        ensures
            r.title == value.title,
            r.public == value.public,
            r.related_organisation_id == value.organisation,
            r.dates == Some(
                DatePair { begins: into_timestamp_spec(value.start_date), ends: into_timestamp_spec(value.ends_date) },
            ),
            r.place == value.place,
            r.descr == value.descr,
            r.scheme == value.scheme,
            r.queues@.len() == value.queues,
            forall|q: int|
                0 <= q < r.queues@.len() ==> (#[trigger] r.queues@[q]).id == 0 && r.queues@[q].nomination_list@.len()
                    == 0,
    {
        let mut queues: Vec<CompetitionQueue> = Vec::new();
        let mut k: i32 = 0;
        while k < value.queues
            invariant
                0 <= k <= value.queues,
                queues@.len() == k,
                forall|q: int|
                    0 <= q < k ==> (#[trigger] queues@[q]).id == 0 && queues@[q].nomination_list@.len() == 0,
            decreases value.queues - k,
        {
            queues.push(CompetitionQueue { id: 0, nomination_list: Vec::new() });
            k = k + 1;
        }
        CompDeclaration {
            title: value.title.clone(),
            public: value.public,
            related_organisation_id: value.organisation,
            dates: Some(DatePair { begins: into_timestamp(value.start_date), ends: into_timestamp(value.ends_date) }),
            place: value.place.clone(),
            descr: value.descr.clone(),
            scheme: value.scheme,
            queues,
        }
    }
}

/// The protocol timestamp of a stored date-time.
pub open spec fn into_timestamp_spec(t: Option<i64>) -> Option<Timestamp> {
    match t {
        Some(s) => Some(Timestamp { seconds: s, nanos: 0 }),
        None => None,
    }
}

impl CompView {
    /// The view of a stored competition: its number and its declaration.
    pub fn from(value: &Competition) -> (r: CompView)
        requires
            value.queues >= 0,
        ensures
            r.id == value.id,
            r.declaration matches Some(d) && d.title == value.title && d.queues@.len() == value.queues
                && d.dates == Some(
                DatePair { begins: into_timestamp_spec(value.start_date), ends: into_timestamp_spec(value.ends_date) },
            ) && d.scheme == value.scheme && d.related_organisation_id == value.organisation
                && d.public == value.public && d.place == value.place && d.descr == value.descr,
    {
        CompView { id: value.id, declaration: Some(CompDeclaration::from(value)) }
    }
}

} // verus!
