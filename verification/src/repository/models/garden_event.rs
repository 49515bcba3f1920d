//! Garden watering events: one row per scheduled, manual or skipped run.
use vstd::prelude::*;

use crate::calendar::{chrono_seconds_between, seconds_between, DateTime};
use crate::text::str_eq;

verus! {

#[derive(Clone, Copy, Debug, PartialEq, Eq, Structural)]
pub enum GardenEventStatus {
    Queued,
    InProgress,
    Completed,
    Cancelled,
    Skipped,
}

/// The stored text of each status.
pub open spec fn status_text(s: GardenEventStatus) -> Seq<char> {
    match s {
        GardenEventStatus::Queued => "queued"@,
        GardenEventStatus::InProgress => "in_progress"@,
        GardenEventStatus::Completed => "completed"@,
        GardenEventStatus::Cancelled => "cancelled"@,
        GardenEventStatus::Skipped => "skipped"@,
    }
}

/// The status whose stored text is `t`, if any.
pub open spec fn status_from_text(t: Seq<char>) -> Option<GardenEventStatus> {
    if t == "queued"@ {
        Some(GardenEventStatus::Queued)
    } else if t == "in_progress"@ {
        Some(GardenEventStatus::InProgress)
    } else if t == "completed"@ {
        Some(GardenEventStatus::Completed)
    } else if t == "cancelled"@ {
        Some(GardenEventStatus::Cancelled)
    } else if t == "skipped"@ {
        Some(GardenEventStatus::Skipped)
    } else {
        None
    }
}

impl GardenEventStatus {
    /// The stored text of this status.
    pub fn as_str(&self) -> (s: &'static str)
        ensures
            s@ == status_text(*self),
    {
        match self {
            GardenEventStatus::Queued => "queued",
            GardenEventStatus::InProgress => "in_progress",
            GardenEventStatus::Completed => "completed",
            GardenEventStatus::Cancelled => "cancelled",
            GardenEventStatus::Skipped => "skipped",
        }
    }

    /// The stored text of this status, as an owned string.
    pub fn to_string(&self) -> (s: String)
        ensures
            s@ == status_text(*self),
    {
        String::from_str(self.as_str())
    }

    /// Reads a stored status; any other text is refused with a message that
    /// quotes it.
    pub fn from_str(s: &str) -> (r: Result<GardenEventStatus, String>)
        ensures
            match r {
                Ok(st) => status_from_text(s@) == Some(st),
                Err(msg) => status_from_text(s@) is None && msg@ == "unknown garden event status: "@
                    + s@,
            },
    {
        if str_eq(s, "queued") {
            Ok(GardenEventStatus::Queued)
        } else if str_eq(s, "in_progress") {
            Ok(GardenEventStatus::InProgress)
        } else if str_eq(s, "completed") {
            Ok(GardenEventStatus::Completed)
        } else if str_eq(s, "cancelled") {
            Ok(GardenEventStatus::Cancelled)
        } else if str_eq(s, "skipped") {
            Ok(GardenEventStatus::Skipped)
        } else {
            let mut msg = String::from_str("unknown garden event status: ");
            msg.append(s);
            Err(msg)
        }
    }

    /// Whether a run with this status has ended for good.
    pub open spec fn spec_is_terminal(self) -> bool {
        self == GardenEventStatus::Completed || self == GardenEventStatus::Cancelled
    }
}

/// Reading back the stored text of a status gives that status.
pub proof fn lemma_status_text_roundtrip(s: GardenEventStatus)
    ensures
        status_from_text(status_text(s)) == Some(s),
{
    reveal_strlit("queued");
    reveal_strlit("in_progress");
    reveal_strlit("completed");
    reveal_strlit("cancelled");
    reveal_strlit("skipped");
    assert("queued"@.len() == 6);
    assert("in_progress"@.len() == 11);
    assert("completed"@.len() == 9);
    assert("cancelled"@.len() == 9);
    assert("skipped"@.len() == 7);
    assert("completed"@[1] != "cancelled"@[1]);
}

#[derive(Clone, Copy, Debug, PartialEq, Eq, Structural)]
pub enum GardenEventSource {
    Scheduled,
    Manual,
}

pub open spec fn source_text(s: GardenEventSource) -> Seq<char> {
    match s {
        GardenEventSource::Scheduled => "scheduled"@,
        GardenEventSource::Manual => "manual"@,
    }
}

pub open spec fn source_from_text(t: Seq<char>) -> Option<GardenEventSource> {
    if t == "scheduled"@ {
        Some(GardenEventSource::Scheduled)
    } else if t == "manual"@ {
        Some(GardenEventSource::Manual)
    } else {
        None
    }
}

impl GardenEventSource {
    pub fn as_str(&self) -> (s: &'static str)
        ensures
            s@ == source_text(*self),
    {
        match self {
            GardenEventSource::Scheduled => "scheduled",
            GardenEventSource::Manual => "manual",
        }
    }

    pub fn to_string(&self) -> (s: String)
        ensures
            s@ == source_text(*self),
    {
        String::from_str(self.as_str())
    }

    /// Reads a stored source; any other text is refused with a message that
    /// quotes it.
    pub fn from_str(s: &str) -> (r: Result<GardenEventSource, String>)
        ensures
            match r {
                Ok(src) => source_from_text(s@) == Some(src),
                Err(msg) => source_from_text(s@) is None && msg@ == "unknown garden event source: "@
                    + s@,
            },
    {
        if str_eq(s, "scheduled") {
            Ok(GardenEventSource::Scheduled)
        } else if str_eq(s, "manual") {
            Ok(GardenEventSource::Manual)
        } else {
            let mut msg = String::from_str("unknown garden event source: ");
            msg.append(s);
            Err(msg)
        }
    }
}

/// Reading back the stored text of a source gives that source.
pub proof fn lemma_source_text_roundtrip(s: GardenEventSource)
    ensures
        source_from_text(source_text(s)) == Some(s),
{
    reveal_strlit("scheduled");
    reveal_strlit("manual");
    assert("scheduled"@.len() == 9);
    assert("manual"@.len() == 6);
}

pub struct GardenEvent {
    pub id: i32,
    pub schedule_id: Option<i32>,
    pub source: String,
    pub status: String,
    pub scheduled_for: DateTime,
    pub duration_secs: i32,
    pub start_time: Option<DateTime>,
    pub end_time: Option<DateTime>,
    pub created_at: DateTime,
    /// The schedule's name as of the moment the event was queued, so that
    /// history stays readable after a rename or a delete. `None` for manual
    /// runs.
    pub schedule_name: Option<String>,
}

/// The columns of an event about to be inserted.
pub struct NewGardenEvent {
    pub schedule_id: Option<i32>,
    pub source: String,
    pub status: String,
    pub scheduled_for: DateTime,
    pub duration_secs: i32,
    pub schedule_name: Option<String>,
}

/// Filters for listing events. `from`/`to` bound `scheduled_for`, which is
/// set for every event (skipped and manual ones included).
pub struct GardenEventFilter {
    pub limit: Option<i64>,
    pub offset: Option<i64>,
    pub source: Option<GardenEventSource>,
    pub status: Option<GardenEventStatus>,
    pub from: Option<DateTime>,
    pub to: Option<DateTime>,
}

impl GardenEventFilter {
    /// Every event from `from` onward, without pagination. The upper edge is
    /// left open: a rollup decides its own `to` after the query returns, so
    /// a run that starts mid-request is not lost between the two.
    pub fn since(from: DateTime) -> (f: GardenEventFilter)
        ensures
            f.from == Some(from),
            f.to is None,
            f.limit is None,
            f.offset is None,
            f.source is None,
            f.status is None,
    {
        GardenEventFilter { limit: None, offset: None, source: None, status: None, from: Some(from), to: None }
    }
}

pub open spec fn max0(x: int) -> int {
    if x < 0 { 0 } else { x }
}

pub open spec fn clamp_int(x: int, lo: int, hi: int) -> int {
    if x < lo { lo } else if x > hi { hi } else { x }
}

impl GardenEvent {
    pub open spec fn wf(self) -> bool {
        &&& self.scheduled_for.wf()
        &&& self.created_at.wf()
        &&& (self.start_time matches Some(t) ==> t.wf())
        &&& (self.end_time matches Some(t) ==> t.wf())
    }

    pub open spec fn spec_status(self) -> Option<GardenEventStatus> {
        status_from_text(self.status@)
    }

    pub fn parsed_status(&self) -> (r: Option<GardenEventStatus>)
        ensures
            r == self.spec_status(),
    {
        match GardenEventStatus::from_str(self.status.as_str()) {
            Ok(s) => Some(s),
            Err(_) => None,
        }
    }

    pub fn parsed_source(&self) -> (r: Option<GardenEventSource>)
        ensures
            r == source_from_text(self.source@),
    {
        match GardenEventSource::from_str(self.source.as_str()) {
            Ok(s) => Some(s),
            Err(_) => None,
        }
    }

    pub open spec fn spec_occurred_at(self) -> DateTime {
        match self.start_time {
            Some(t) => t,
            None => self.scheduled_for,
        }
    }

    /// When the event actually happened, falling back to when it was meant to.
    pub fn occurred_at(&self) -> (r: DateTime)
        ensures
            r == self.spec_occurred_at(),
    {
        match self.start_time {
            Some(t) => t,
            None => self.scheduled_for,
        }
    }

    /// Seconds of water delivered: a completed or cancelled run by its own
    /// timestamps (a completed one without them by the duration it was asked
    /// to run), a run in progress up to `now` but no more than its duration;
    /// anything else delivered nothing.
    pub open spec fn spec_watered_secs(self, now: DateTime) -> int {
        match self.spec_status() {
            Some(GardenEventStatus::Completed) => match (self.start_time, self.end_time) {
                (Some(s), Some(e)) => max0(chrono_seconds_between(e, s) as int),
                _ => max0(self.duration_secs as int),
            },
            Some(GardenEventStatus::Cancelled) => match (self.start_time, self.end_time) {
                (Some(s), Some(e)) => max0(chrono_seconds_between(e, s) as int),
                _ => 0,
            },
            Some(GardenEventStatus::InProgress) => match self.start_time {
                Some(s) => clamp_int(
                    chrono_seconds_between(now, s) as int,
                    0,
                    max0(self.duration_secs as int),
                ),
                None => 0,
            },
            _ => 0,
        }
    }

    /// Seconds of water actually delivered.
    pub fn watered_secs(&self, now: DateTime) -> (r: i64)
        requires
            self.wf(),
            now.wf(),
        ensures
            r == self.spec_watered_secs(now),
            r >= 0,
            (self.status@ == "completed"@ || self.status@ == "cancelled"@) ==> (self.start_time matches Some(
                s,
            ) ==> (self.end_time matches Some(e) ==> (chrono_seconds_between(e, s) >= 0 ==> r
                == chrono_seconds_between(e, s)) && (chrono_seconds_between(e, s) < 0 ==> r == 0))),
    {
        proof {
            lemma_watered_from_timestamps(*self, now);
        }
        let dur: i64 = if self.duration_secs < 0 { 0 } else { self.duration_secs as i64 };
        match self.parsed_status() {
            Some(GardenEventStatus::Completed) => match (self.start_time, self.end_time) {
                (Some(s), Some(e)) => {
                    let d = seconds_between(&e, &s);
                    if d < 0 { 0 } else { d }
                },
                _ => dur,
            },
            Some(GardenEventStatus::Cancelled) => match (self.start_time, self.end_time) {
                (Some(s), Some(e)) => {
                    let d = seconds_between(&e, &s);
                    if d < 0 { 0 } else { d }
                },
                _ => 0,
            },
            Some(GardenEventStatus::InProgress) => match self.start_time {
                Some(s) => {
                    let d = seconds_between(&now, &s);
                    if d < 0 { 0 } else if d > dur { dur } else { d }
                },
                None => 0,
            },
            _ => 0,
        }
    }

    pub open spec fn spec_skipped_secs(self) -> int {
        match self.spec_status() {
            Some(GardenEventStatus::Skipped) => max0(self.duration_secs as int),
            _ => 0,
        }
    }

    /// Seconds this event would have run had rain not skipped it.
    pub fn skipped_secs(&self) -> (r: i64)
        ensures
            r == self.spec_skipped_secs(),
            r >= 0,
    {
        match self.parsed_status() {
            Some(GardenEventStatus::Skipped) => if self.duration_secs < 0 {
                0
            } else {
                self.duration_secs as i64
            },
            _ => 0,
        }
    }
}

/// A completed or cancelled run is measured from its own timestamps, so a
/// run stopped early counts only what it used: with a start and an end, it
/// delivered the whole seconds from start to end, or nothing if the end is
/// not after the start.
pub proof fn lemma_watered_from_timestamps(e: GardenEvent, now: DateTime)
    ensures
        (e.status@ == "completed"@ || e.status@ == "cancelled"@) ==> (e.start_time matches Some(s) ==> (
        e.end_time matches Some(t) ==> (chrono_seconds_between(t, s) >= 0 ==> e.spec_watered_secs(now)
            == chrono_seconds_between(t, s)) && (chrono_seconds_between(t, s) < 0 ==> e.spec_watered_secs(
            now,
        ) == 0))),
{
    reveal_strlit("queued");
    reveal_strlit("in_progress");
    reveal_strlit("completed");
    reveal_strlit("cancelled");
    reveal_strlit("skipped");
    assert("completed"@[1] != "cancelled"@[1]);
    assert("completed"@ != "queued"@ && "completed"@ != "in_progress"@);
    assert("cancelled"@ != "queued"@ && "cancelled"@ != "in_progress"@ && "cancelled"@ != "completed"@);
    if e.status@ == "completed"@ {
        assert(e.spec_status() == Some(GardenEventStatus::Completed));
    }
    if e.status@ == "cancelled"@ {
        assert(e.spec_status() == Some(GardenEventStatus::Cancelled));
    }
}

/// An event delivers water or was skipped, never both, and a run in
/// progress never counts for more than its duration.
pub proof fn lemma_watered_and_skipped_exclusive(e: GardenEvent, now: DateTime)
    ensures
        e.spec_watered_secs(now) == 0 || e.spec_skipped_secs() == 0,
        e.spec_watered_secs(now) >= 0,
        e.spec_skipped_secs() >= 0,
        e.spec_status() == Some(GardenEventStatus::InProgress) ==> e.spec_watered_secs(now) <= max0(
            e.duration_secs as int,
        ),
        (e.spec_status() == Some(GardenEventStatus::Queued) || e.spec_status() == Some(
            GardenEventStatus::Skipped,
        )) ==> e.spec_watered_secs(now) == 0,
{
}

} // verus!
