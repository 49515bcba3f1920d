//! The decisions the repository makes inside its transactions: which garden
//! events are due, how insert outcomes are counted, which status may finish a
//! run, and how refresh, reset and verification tokens are judged. The
//! database reads that feed them and the writes they ask for are made by the
//! caller.
use vstd::prelude::*;

use crate::calendar::{contains_weekday, weekday_of, Date, DateTime, Time};
use crate::hydro::garden::schedule::at;
use crate::hydro::weather::{should_skip, spec_should_skip, PrecipReading};
use crate::repository::models::garden_event::{
    source_text, status_text, GardenEvent, GardenEventSource, GardenEventStatus, NewGardenEvent,
};
use crate::repository::models::garden_schedule::{csv_days, csv_times, GardenSchedule};
use crate::repository::models::refresh_token::RefreshToken;
use crate::repository::models::user::User;

verus! {

#[derive(Debug)]
pub enum ResetPasswordError {
    DatabaseError(String),
    InternalServerError(String),
    InvalidPassword(String),
    InvalidToken,
    TokenExpired,
}

#[derive(Debug)]
pub enum RefreshTokenError {
    DatabaseError(String),
    InternalServerError(String),
    InvalidToken,
    TokenExpired,
    TokenRevoked,
}

#[derive(Debug)]
pub enum VerifyEmailError {
    DatabaseError(String),
    EmailNotFound,
    EmailAlreadyVerified,
    InternalServerError(String),
    TokenExpired,
}

/// A garden event due to be queued, as the specification describes it.
pub struct DueRow {
    pub schedule_id: i32,
    pub name: Seq<char>,
    pub skipped: bool,
    pub scheduled_for: DateTime,
    pub duration_secs: i32,
}

impl NewGardenEvent {
    /// This row inserts the due event `r`: a scheduled event of that
    /// schedule, skipped or queued, carrying the schedule's current name.
    pub open spec fn inserts(self, r: DueRow) -> bool {
        &&& self.schedule_id == Some(r.schedule_id)
        &&& self.source@ == source_text(GardenEventSource::Scheduled)
        &&& self.status@ == status_text(
            if r.skipped {
                GardenEventStatus::Skipped
            } else {
                GardenEventStatus::Queued
            },
        )
        &&& self.scheduled_for == r.scheduled_for
        &&& self.duration_secs == r.duration_secs
        &&& (self.schedule_name matches Some(n) && n@ == r.name)
    }
}

/// The due events of schedule `s` for the start times `times` on `date`:
/// those at or before `now`, in the order of the list.
pub open spec fn rows_for_times(
    s: GardenSchedule,
    date: Date,
    times: Seq<Time>,
    now: DateTime,
    skip: bool,
) -> Seq<DueRow>
    decreases times.len(),
{
    if times.len() == 0 {
        Seq::empty()
    } else {
        let prev = rows_for_times(s, date, times.drop_last(), now, skip);
        let when = at(date, times.last());
        if when.spec_at_or_before(now) {
            prev.push(
                DueRow {
                    schedule_id: s.id,
                    name: s.name@,
                    skipped: skip,
                    scheduled_for: when,
                    duration_secs: s.duration_secs,
                },
            )
        } else {
            prev
        }
    }
}

/// The due events of one schedule: none unless it is active and runs on
/// today's weekday; then one per start time of today that has come, skipped
/// when the rain says so.
pub open spec fn rows_for_schedule(s: GardenSchedule, now: DateTime, precip: PrecipReading) -> Seq<DueRow> {
    if s.active && csv_days(s.days_of_week@).contains(weekday_of(now.date)) {
        rows_for_times(s, now.date, csv_times(s.start_times@), now, spec_should_skip(s, precip))
    } else {
        Seq::empty()
    }
}

/// The due events of all schedules, schedule by schedule.
pub open spec fn due_rows(ss: Seq<GardenSchedule>, now: DateTime, precip: PrecipReading) -> Seq<DueRow>
    decreases ss.len(),
{
    if ss.len() == 0 {
        Seq::empty()
    } else {
        due_rows(ss.drop_last(), now, precip) + rows_for_schedule(ss.last(), now, precip)
    }
}

/// The garden events to queue at `now`: for every active schedule that runs
/// on today's weekday, one event per start time of today at or before `now`,
/// marked skipped instead of queued when the schedule should skip for rain.
/// Inserting them is idempotent: the store keeps one event per schedule and
/// instant.
pub fn due_garden_events(schedules: &[GardenSchedule], now: DateTime, precip: &PrecipReading) -> (r: Vec<NewGardenEvent>)
    requires
        now.wf(),
    ensures
        r@.len() == due_rows(schedules@, now, *precip).len(),
        forall|k: int| 0 <= k < r@.len() ==> (#[trigger] r@[k]).inserts(due_rows(schedules@, now, *precip)[k]),
        forall|m: int, j: int|
            0 <= m < schedules@.len() && (#[trigger] schedules@[m]).active && csv_days(
                schedules@[m].days_of_week@,
            ).contains(weekday_of(now.date)) && 0 <= j < csv_times(schedules@[m].start_times@).len() && (
            DateTime {
                date: now.date,
                time: #[trigger] csv_times(schedules@[m].start_times@)[j],
            }).spec_at_or_before(now) ==> exists|k: int|
                0 <= k < r@.len() && (#[trigger] r@[k]).schedule_id == Some(schedules@[m].id) && r@[k].scheduled_for
                    == (DateTime { date: now.date, time: csv_times(schedules@[m].start_times@)[j] }),
{
    let today = now.date;
    let today_weekday = today.weekday();
    let mut rows: Vec<NewGardenEvent> = Vec::new();
    let ghost mut spec_rows: Seq<DueRow> = Seq::empty();
    let mut i: usize = 0;
    while i < schedules.len()
        invariant
            i <= schedules@.len(),
            now.wf(),
            today == now.date,
            today_weekday == weekday_of(now.date),
            spec_rows == due_rows(schedules@.take(i as int), now, *precip),
            rows@.len() == spec_rows.len(),
            forall|k: int| 0 <= k < rows@.len() ==> (#[trigger] rows@[k]).inserts(spec_rows[k]),
        decreases schedules@.len() - i,
    {
        let s = &schedules[i];
        let ghost before_s = spec_rows;
        assert(schedules@.take(i + 1).drop_last() =~= schedules@.take(i as int));
        assert(schedules@.take(i + 1).last() == *s);
        if s.active {
            let days = s.parsed_days_of_week();
            if contains_weekday(&days, today_weekday) {
                let skip = should_skip(s, precip);
                let times = s.parsed_start_times();
                let mut j: usize = 0;
                assert(times@.take(0) =~= Seq::<Time>::empty());
                while j < times.len()
                    invariant
                        j <= times@.len(),
                        today == now.date,
                        skip == spec_should_skip(*s, *precip),
                        spec_rows == before_s + rows_for_times(*s, today, times@.take(j as int), now, skip),
                        rows@.len() == spec_rows.len(),
                        forall|k: int| 0 <= k < rows@.len() ==> (#[trigger] rows@[k]).inserts(spec_rows[k]),
                    decreases times@.len() - j,
                {
                    let scheduled_for = today.and_time(times[j]);
                    assert(times@.take(j + 1).drop_last() =~= times@.take(j as int));
                    assert(times@.take(j + 1).last() == times@[j as int]);
                    if scheduled_for.at_or_before(&now) {
                        let status = if skip {
                            GardenEventStatus::Skipped
                        } else {
                            GardenEventStatus::Queued
                        };
                        let row = NewGardenEvent {
                            schedule_id: Some(s.id),
                            source: GardenEventSource::Scheduled.to_string(),
                            status: status.to_string(),
                            scheduled_for,
                            duration_secs: s.duration_secs,
                            schedule_name: Some(s.name.clone()),
                        };
                        let ghost due = DueRow {
                            schedule_id: s.id,
                            name: s.name@,
                            skipped: skip,
                            scheduled_for,
                            duration_secs: s.duration_secs,
                        };
                        assert(row.inserts(due));
                        rows.push(row);
                        proof {
                            assert(before_s + rows_for_times(*s, today, times@.take(j + 1), now, skip)
                                =~= spec_rows.push(due));
                            spec_rows = spec_rows.push(due);
                        }
                    }
                    j = j + 1;
                }
                assert(times@.take(times@.len() as int) =~= times@);
                assert(spec_rows =~= before_s + rows_for_schedule(*s, now, *precip));
            } else {
                assert(spec_rows =~= before_s + rows_for_schedule(*s, now, *precip));
            }
        } else {
            assert(spec_rows =~= before_s + rows_for_schedule(*s, now, *precip));
        }
        i = i + 1;
    }
    assert(schedules@.take(schedules@.len() as int) =~= schedules@);
    proof {
        lemma_due_rows_complete(schedules@, now, *precip);
        let d = due_rows(schedules@, now, *precip);
        assert forall|m: int, j: int|
            0 <= m < schedules@.len() && (#[trigger] schedules@[m]).active && csv_days(
                schedules@[m].days_of_week@,
            ).contains(weekday_of(now.date)) && 0 <= j < csv_times(schedules@[m].start_times@).len() && (
            DateTime {
                date: now.date,
                time: #[trigger] csv_times(schedules@[m].start_times@)[j],
            }).spec_at_or_before(now) implies exists|k: int|
                0 <= k < rows@.len() && (#[trigger] rows@[k]).schedule_id == Some(schedules@[m].id)
                    && rows@[k].scheduled_for == (DateTime {
                    date: now.date,
                    time: csv_times(schedules@[m].start_times@)[j],
                }) by {
            let when = DateTime { date: now.date, time: csv_times(schedules@[m].start_times@)[j] };
            let skip = schedules@[m].skip_on_rain && precip.available && (precip.actively_raining
                || precip.meets_threshold);
            assert(has_row(d, schedules@[m].id, when, skip));
            let k = choose|k: int|
                0 <= k < d.len() && (#[trigger] d[k]).schedule_id == schedules@[m].id && d[k].scheduled_for
                    == when && d[k].skipped == skip;
            assert(rows@[k].inserts(d[k]));
        }
    }
    rows
}

proof fn lemma_rows_for_times_facts(s: GardenSchedule, date: Date, times: Seq<Time>, now: DateTime, skip: bool)
    ensures
        forall|k: int| 0 <= k < rows_for_times(s, date, times, now, skip).len() ==> {
            let r = #[trigger] rows_for_times(s, date, times, now, skip)[k];
            &&& r.scheduled_for.spec_at_or_before(now)
            &&& r.scheduled_for.date == date
            &&& r.skipped == skip
            &&& r.schedule_id == s.id
            &&& r.duration_secs == s.duration_secs
        },
    decreases times.len(),
{
    if times.len() > 0 {
        lemma_rows_for_times_facts(s, date, times.drop_last(), now, skip);
        let p = rows_for_times(s, date, times.drop_last(), now, skip);
        assert forall|k: int| 0 <= k < rows_for_times(s, date, times, now, skip).len() implies {
            let r = #[trigger] rows_for_times(s, date, times, now, skip)[k];
            &&& r.scheduled_for.spec_at_or_before(now)
            &&& r.scheduled_for.date == date
            &&& r.skipped == skip
            &&& r.schedule_id == s.id
            &&& r.duration_secs == s.duration_secs
        } by {
            if k < p.len() {
                assert(rows_for_times(s, date, times, now, skip)[k] == p[k]);
            }
        }
    }
}

/// A due row of schedule `id`, scheduled for `when`, skipped or not.
pub open spec fn has_row(rows: Seq<DueRow>, id: i32, when: DateTime, skipped: bool) -> bool {
    exists|k: int|
        0 <= k < rows.len() && (#[trigger] rows[k]).schedule_id == id && rows[k].scheduled_for == when
            && rows[k].skipped == skipped
}

proof fn lemma_rows_for_times_complete(s: GardenSchedule, date: Date, times: Seq<Time>, now: DateTime, skip: bool)
    ensures
        forall|j: int|
            0 <= j < times.len() && (DateTime { date, time: #[trigger] times[j] }).spec_at_or_before(now)
                ==> has_row(rows_for_times(s, date, times, now, skip), s.id, DateTime { date, time: times[j] }, skip),
    decreases times.len(),
{
    if times.len() > 0 {
        let p = rows_for_times(s, date, times.drop_last(), now, skip);
        let all = rows_for_times(s, date, times, now, skip);
        lemma_rows_for_times_complete(s, date, times.drop_last(), now, skip);
        assert forall|j: int|
            0 <= j < times.len() && (DateTime { date, time: #[trigger] times[j] }).spec_at_or_before(now)
                implies has_row(all, s.id, DateTime { date, time: times[j] }, skip) by {
            if j < times.len() - 1 {
                assert(times.drop_last()[j] == times[j]);
                let k = choose|k: int|
                    0 <= k < p.len() && (#[trigger] p[k]).schedule_id == s.id && p[k].scheduled_for
                        == (DateTime { date, time: times[j] }) && p[k].skipped == skip;
                assert(all[k] == p[k]);
            } else {
                assert(times[j] == times.last());
                assert(all[all.len() - 1].scheduled_for == (DateTime { date, time: times[j] }));
            }
        }
    }
}

/// Every due event is queued: for each active schedule whose weekday list
/// holds today's weekday, each of its start times of today at or before
/// `now` gives a row of that schedule at that instant, skipped exactly when
/// the schedule skips for rain.
pub proof fn lemma_due_rows_complete(ss: Seq<GardenSchedule>, now: DateTime, precip: PrecipReading)
    ensures
        forall|m: int, j: int|
            0 <= m < ss.len() && (#[trigger] ss[m]).active && csv_days(ss[m].days_of_week@).contains(
                weekday_of(now.date),
            ) && 0 <= j < csv_times(ss[m].start_times@).len() && (DateTime {
                date: now.date,
                time: #[trigger] csv_times(ss[m].start_times@)[j],
            }).spec_at_or_before(now) ==> has_row(
                due_rows(ss, now, precip),
                ss[m].id,
                DateTime { date: now.date, time: csv_times(ss[m].start_times@)[j] },
                ss[m].skip_on_rain && precip.available && (precip.actively_raining || precip.meets_threshold),
            ),
    decreases ss.len(),
{
    if ss.len() > 0 {
        let p = ss.drop_last();
        let last = ss.last();
        let a = due_rows(p, now, precip);
        let b = rows_for_schedule(last, now, precip);
        let all = due_rows(ss, now, precip);
        lemma_due_rows_complete(p, now, precip);
        lemma_rows_for_times_complete(last, now.date, csv_times(last.start_times@), now, spec_should_skip(last, precip));
        assert forall|m: int, j: int|
            0 <= m < ss.len() && (#[trigger] ss[m]).active && csv_days(ss[m].days_of_week@).contains(
                weekday_of(now.date),
            ) && 0 <= j < csv_times(ss[m].start_times@).len() && (DateTime {
                date: now.date,
                time: #[trigger] csv_times(ss[m].start_times@)[j],
            }).spec_at_or_before(now) implies has_row(
                all,
                ss[m].id,
                DateTime { date: now.date, time: csv_times(ss[m].start_times@)[j] },
                ss[m].skip_on_rain && precip.available && (precip.actively_raining || precip.meets_threshold),
            ) by {
            let when = DateTime { date: now.date, time: csv_times(ss[m].start_times@)[j] };
            let skip = ss[m].skip_on_rain && precip.available && (precip.actively_raining || precip.meets_threshold);
            if m < ss.len() - 1 {
                assert(p[m] == ss[m]);
                let k = choose|k: int|
                    0 <= k < a.len() && (#[trigger] a[k]).schedule_id == ss[m].id && a[k].scheduled_for == when
                        && a[k].skipped == skip;
                assert(all[k] == a[k]);
            } else {
                assert(ss[m] == last);
                let k = choose|k: int|
                    0 <= k < b.len() && (#[trigger] b[k]).schedule_id == last.id && b[k].scheduled_for == when
                        && b[k].skipped == skip;
                assert(all[a.len() + k] == b[k]);
            }
        }
    }
}

/// Every due event is for today, no later than `now`, of an active schedule
/// that runs today, with that schedule's duration; and it is skipped exactly
/// when that schedule should skip for rain.
pub proof fn lemma_due_rows_facts(ss: Seq<GardenSchedule>, now: DateTime, precip: PrecipReading)
    ensures
        forall|k: int| 0 <= k < due_rows(ss, now, precip).len() ==> {
            let r = #[trigger] due_rows(ss, now, precip)[k];
            &&& r.scheduled_for.spec_at_or_before(now)
            &&& r.scheduled_for.date == now.date
            &&& exists|m: int|
                0 <= m < ss.len() && (#[trigger] ss[m]).id == r.schedule_id && ss[m].active
                    && csv_days(ss[m].days_of_week@).contains(weekday_of(now.date))
                    && r.duration_secs == ss[m].duration_secs
                    && r.skipped == spec_should_skip(ss[m], precip)
        },
    decreases ss.len(),
{
    if ss.len() > 0 {
        let p = ss.drop_last();
        lemma_due_rows_facts(p, now, precip);
        let s = ss.last();
        let a = due_rows(p, now, precip);
        let b = rows_for_schedule(s, now, precip);
        if s.active && csv_days(s.days_of_week@).contains(weekday_of(now.date)) {
            lemma_rows_for_times_facts(s, now.date, csv_times(s.start_times@), now, spec_should_skip(s, precip));
        }
        assert forall|k: int| 0 <= k < due_rows(ss, now, precip).len() implies {
            let r = #[trigger] due_rows(ss, now, precip)[k];
            &&& r.scheduled_for.spec_at_or_before(now)
            &&& r.scheduled_for.date == now.date
            &&& exists|m: int|
                0 <= m < ss.len() && (#[trigger] ss[m]).id == r.schedule_id && ss[m].active
                    && csv_days(ss[m].days_of_week@).contains(weekday_of(now.date))
                    && r.duration_secs == ss[m].duration_secs
                    && r.skipped == spec_should_skip(ss[m], precip)
        } by {
            if k < a.len() {
                assert(due_rows(ss, now, precip)[k] == a[k]);
                let r = a[k];
                let m = choose|m: int|
                    0 <= m < p.len() && (#[trigger] p[m]).id == r.schedule_id && p[m].active
                        && csv_days(p[m].days_of_week@).contains(weekday_of(now.date))
                        && r.duration_secs == p[m].duration_secs
                        && r.skipped == spec_should_skip(p[m], precip);
                assert(ss[m] == p[m]);
            } else {
                assert(due_rows(ss, now, precip)[k] == b[k - a.len()]);
                assert(ss[ss.len() - 1] == s);
            }
        }
    }
}

/// What inserting one due event came to.
pub enum InsertOutcome {
    /// The row went in, affecting this many rows.
    Inserted(usize),
    /// An event for that schedule and instant was already there.
    Duplicate,
    /// The insert failed.
    Failed(String),
}

/// Counts one insert into the running total: duplicates are passed over, and
/// a failure stops the whole batch with its message.
pub fn tally_insert(count: usize, outcome: InsertOutcome) -> (r: Result<usize, String>)
    requires
        outcome matches InsertOutcome::Inserted(n) ==> count + n <= usize::MAX,
    ensures
        match outcome {
            InsertOutcome::Inserted(n) => r matches Ok(c) && c == count + n,
            InsertOutcome::Duplicate => r matches Ok(c) && c == count,
            InsertOutcome::Failed(e) => r matches Err(m) && m@ == e@,
        },
{
    match outcome {
        InsertOutcome::Inserted(n) => Ok(count + n),
        InsertOutcome::Duplicate => Ok(count),
        InsertOutcome::Failed(e) => Err(e),
    }
}

/// The key under which the store keeps at most one event: its schedule and
/// the instant it is scheduled for.
pub open spec fn row_key(r: NewGardenEvent) -> (Option<i32>, DateTime) {
    (r.schedule_id, r.scheduled_for)
}

/// Queueing `rows` in order into a store holding the keys `keys`: the keys
/// held afterwards, and how many rows went in (a row whose key is already
/// held is a duplicate and inserts nothing).
pub open spec fn queue_rows(keys: Set<(Option<i32>, DateTime)>, rows: Seq<NewGardenEvent>) -> (Set<(Option<i32>, DateTime)>, nat)
    decreases rows.len(),
{
    if rows.len() == 0 {
        (keys, 0)
    } else {
        let (k, n) = queue_rows(keys, rows.drop_last());
        if k.contains(row_key(rows.last())) {
            (k, n)
        } else {
            (k.insert(row_key(rows.last())), n + 1)
        }
    }
}

proof fn lemma_queue_rows_holds(keys: Set<(Option<i32>, DateTime)>, rows: Seq<NewGardenEvent>)
    ensures
        keys.subset_of(queue_rows(keys, rows).0),
        forall|j: int| 0 <= j < rows.len() ==> queue_rows(keys, rows).0.contains(row_key(#[trigger] rows[j])),
    decreases rows.len(),
{
    if rows.len() > 0 {
        lemma_queue_rows_holds(keys, rows.drop_last());
        assert forall|j: int| 0 <= j < rows.len() implies queue_rows(keys, rows).0.contains(
            row_key(#[trigger] rows[j]),
        ) by {
            if j < rows.len() - 1 {
                assert(rows.drop_last()[j] == rows[j]);
            }
        }
    }
}

proof fn lemma_queue_held_rows(keys: Set<(Option<i32>, DateTime)>, rows: Seq<NewGardenEvent>)
    requires
        forall|j: int| 0 <= j < rows.len() ==> keys.contains(row_key(#[trigger] rows[j])),
    ensures
        queue_rows(keys, rows) == (keys, 0nat),
    decreases rows.len(),
{
    if rows.len() > 0 {
        assert forall|j: int| 0 <= j < rows.len() - 1 implies keys.contains(row_key(#[trigger] rows.drop_last()[j])) by {
            assert(rows.drop_last()[j] == rows[j]);
        }
        lemma_queue_held_rows(keys, rows.drop_last());
        assert(keys.contains(row_key(rows[rows.len() - 1])));
    }
}

/// Queueing is idempotent in a store that keeps one event per schedule and
/// instant: queueing the same rows again (and `due_garden_events` gives the
/// same rows for the same schedules, instant and reading) inserts nothing and
/// leaves the store as it was.
pub proof fn lemma_requeue_inserts_nothing(keys: Set<(Option<i32>, DateTime)>, rows: Seq<NewGardenEvent>)
    ensures
        queue_rows(queue_rows(keys, rows).0, rows) == (queue_rows(keys, rows).0, 0nat),
{
    lemma_queue_rows_holds(keys, rows);
    lemma_queue_held_rows(queue_rows(keys, rows).0, rows);
}

/// Only a terminal status (completed or cancelled) may finish a garden run.
pub fn check_finish_status(status: GardenEventStatus) -> (r: Result<(), String>)
    ensures
        (r is Ok) == status.spec_is_terminal(),
        r matches Err(m) ==> m@ == "finish_garden_event requires a terminal status (completed or cancelled)"@,
{
    match status {
        GardenEventStatus::Completed | GardenEventStatus::Cancelled => Ok(()),
        _ => Err(String::from_str("finish_garden_event requires a terminal status (completed or cancelled)")),
    }
}

/// Starting event `event_id`: refused while another run is in progress;
/// otherwise it starts exactly when the event is still queued, and `false`
/// tells the caller that a cancelled or already started event must not run.
pub fn begin_garden_event_decision(in_progress_exists: bool, event_status: Option<GardenEventStatus>) -> (r: Result<bool, String>)
    ensures
        in_progress_exists ==> (r matches Err(m) && m@ == "A garden event is already in progress"@),
        !in_progress_exists ==> r == Ok::<bool, String>(event_status == Some(GardenEventStatus::Queued)),
{
    if in_progress_exists {
        return Err(String::from_str("A garden event is already in progress"));
    }
    match event_status {
        Some(GardenEventStatus::Queued) => Ok(true),
        _ => Ok(false),
    }
}

/// At most one event of the table is in progress.
pub open spec fn at_most_one_running(t: Seq<GardenEventStatus>) -> bool {
    forall|j: int, k: int|
        0 <= j < t.len() && 0 <= k < t.len() && t[j] == GardenEventStatus::InProgress && t[k]
            == GardenEventStatus::InProgress ==> j == k
}

/// The statuses of the garden event table after starting event `i` on
/// `decision`: a decision to start marks it in progress; anything else
/// changes nothing.
pub open spec fn after_begin(t: Seq<GardenEventStatus>, i: int, decision: Result<bool, String>) -> Seq<GardenEventStatus> {
    match decision {
        Ok(true) => t.update(i, GardenEventStatus::InProgress),
        _ => t,
    }
}

/// Some event of the table is in progress.
pub open spec fn any_running(t: Seq<GardenEventStatus>) -> bool {
    exists|k: int| 0 <= k < t.len() && t[k] == GardenEventStatus::InProgress
}

/// Starting garden events one at a time never leaves two in progress. With
/// the table's statuses `t`, take the decision for event `i` as
/// `begin_garden_event_decision` takes it from the table (whether any event
/// is in progress, and the event's own status), and write it: while another
/// event runs the start is refused and the table is unchanged, and after any
/// start at most one event is in progress.
pub proof fn lemma_begin_keeps_one_running(t: Seq<GardenEventStatus>, i: int, decision: Result<bool, String>)
    requires
        0 <= i < t.len(),
        at_most_one_running(t),
        any_running(t) ==> (decision matches Err(m) && m@ == "A garden event is already in progress"@),
        !any_running(t) ==> decision == Ok::<bool, String>(Some(t[i]) == Some(GardenEventStatus::Queued)),
    ensures
        any_running(t) ==> after_begin(t, i, decision) == t,
        at_most_one_running(after_begin(t, i, decision)),
        !any_running(t) && t[i] == GardenEventStatus::Queued ==> after_begin(t, i, decision)[i]
            == GardenEventStatus::InProgress,
{
    if decision == Ok::<bool, String>(true) {
        let u = after_begin(t, i, decision);
        assert forall|j: int, k: int|
            0 <= j < u.len() && 0 <= k < u.len() && u[j] == GardenEventStatus::InProgress && u[k]
                == GardenEventStatus::InProgress implies j == k by {
            if j != i {
                assert(t[j] == GardenEventStatus::InProgress);
            }
            if k != i {
                assert(t[k] == GardenEventStatus::InProgress);
            }
        }
    }
}

/// Whether the event is queued or running.
pub open spec fn is_active_event(e: GardenEvent) -> bool {
    e.spec_status() == Some(GardenEventStatus::Queued) || e.spec_status() == Some(GardenEventStatus::InProgress)
}

/// The ids of the queued and running events, in the order given.
pub open spec fn active_ids(es: Seq<GardenEvent>) -> Seq<i32>
    decreases es.len(),
{
    if es.len() == 0 {
        Seq::empty()
    } else {
        let p = active_ids(es.drop_last());
        if is_active_event(es.last()) {
            p.push(es.last().id)
        } else {
            p
        }
    }
}

proof fn lemma_active_ids_empty(es: Seq<GardenEvent>)
    ensures
        (active_ids(es).len() == 0) == (forall|k: int| 0 <= k < es.len() ==> !is_active_event(#[trigger] es[k])),
    decreases es.len(),
{
    if es.len() > 0 {
        lemma_active_ids_empty(es.drop_last());
        assert(es[es.len() - 1] == es.last());
        assert forall|k: int| 0 <= k < es.len() - 1 implies es.drop_last()[k] == #[trigger] es[k] by {}
    }
}

proof fn lemma_active_ids_law(es: Seq<GardenEvent>)
    ensures
        forall|k: int|
            0 <= k < active_ids(es).len() ==> exists|m: int|
                0 <= m < es.len() && (#[trigger] es[m]).id == #[trigger] active_ids(es)[k] && (es[m].status@
                    == "queued"@ || es[m].status@ == "in_progress"@),
        forall|m: int|
            0 <= m < es.len() && ((#[trigger] es[m]).status@ == "queued"@ || es[m].status@ == "in_progress"@)
                ==> active_ids(es).contains(es[m].id),
    decreases es.len(),
{
    reveal_strlit("queued");
    reveal_strlit("in_progress");
    reveal_strlit("completed");
    reveal_strlit("cancelled");
    reveal_strlit("skipped");
    assert("queued"@[0] != "in_progress"@[0]);
    if es.len() > 0 {
        let p = es.drop_last();
        lemma_active_ids_law(p);
        let a = active_ids(es);
        let ap = active_ids(p);
        assert forall|k: int| 0 <= k < a.len() implies exists|m: int|
            0 <= m < es.len() && (#[trigger] es[m]).id == #[trigger] a[k] && (es[m].status@ == "queued"@
                || es[m].status@ == "in_progress"@) by {
            if k < ap.len() {
                assert(a[k] == ap[k]);
                let m = choose|m: int|
                    0 <= m < p.len() && (#[trigger] p[m]).id == ap[k] && (p[m].status@ == "queued"@
                        || p[m].status@ == "in_progress"@);
                assert(es[m] == p[m]);
            } else {
                assert(es[es.len() - 1] == es.last());
            }
        }
        assert forall|m: int|
            0 <= m < es.len() && ((#[trigger] es[m]).status@ == "queued"@ || es[m].status@ == "in_progress"@)
                implies a.contains(es[m].id) by {
            if m < es.len() - 1 {
                assert(p[m] == es[m]);
                let k = choose|k: int| 0 <= k < ap.len() && ap[k] == p[m].id;
                assert(a[k] == ap[k]);
            } else {
                assert(es[m] == es.last());
                assert(is_active_event(es.last()));
                assert(a.last() == es[m].id);
            }
        }
    }
}

/// Stopping the garden cancels exactly the queued and running events: every
/// id to cancel is that of an event stored as queued or in progress, and
/// every such event's id is among them.
pub proof fn lemma_stop_targets_law(es: Seq<GardenEvent>)
    ensures
        forall|k: int|
            0 <= k < active_ids(es).len() ==> exists|m: int|
                0 <= m < es.len() && (#[trigger] es[m]).id == #[trigger] active_ids(es)[k] && (es[m].status@
                    == "queued"@ || es[m].status@ == "in_progress"@),
        forall|m: int|
            0 <= m < es.len() && ((#[trigger] es[m]).status@ == "queued"@ || es[m].status@ == "in_progress"@)
                ==> active_ids(es).contains(es[m].id),
{
    lemma_active_ids_law(es);
}

/// Stopping the garden cancels the running event and everything queued
/// behind it. Given the events newest first, these are the ids to cancel,
/// newest first.
pub fn garden_stop_targets(events: &[GardenEvent]) -> (r: Vec<i32>)
    ensures
        r@ == active_ids(events@),
{
    let mut ids: Vec<i32> = Vec::new();
    let mut i: usize = 0;
    while i < events.len()
        invariant
            i <= events@.len(),
            ids@ == active_ids(events@.take(i as int)),
        decreases events@.len() - i,
    {
        assert(events@.take(i + 1).drop_last() =~= events@.take(i as int));
        assert(events@.take(i + 1).last() == events@[i as int]);
        match events[i].parsed_status() {
            Some(GardenEventStatus::Queued) | Some(GardenEventStatus::InProgress) => {
                ids.push(events[i].id);
            },
            _ => {},
        }
        i = i + 1;
    }
    assert(events@.take(events@.len() as int) =~= events@);
    ids
}

/// Queues a one-off run of `duration_secs` at `now`, unless another event
/// is already queued or in progress, so that repeated taps of "Start" cannot
/// stack up.
pub fn manual_garden_event(existing: &[GardenEvent], duration_secs: i32, now: DateTime) -> (r: Option<NewGardenEvent>)
    ensures
        (r is None) == (exists|k: int| 0 <= k < existing@.len() && is_active_event(#[trigger] existing@[k])),
        r matches Some(e) ==> {
            &&& e.schedule_id is None
            &&& e.source@ == source_text(GardenEventSource::Manual)
            &&& e.status@ == status_text(GardenEventStatus::Queued)
            &&& e.scheduled_for == now
            &&& e.duration_secs == duration_secs
            &&& e.schedule_name is None
        },
{
    let busy = garden_stop_targets(existing);
    proof {
        lemma_active_ids_empty(existing@);
    }
    if busy.len() > 0 {
        return None;
    }
    Some(
        NewGardenEvent {
            schedule_id: None,
            source: GardenEventSource::Manual.to_string(),
            status: GardenEventStatus::Queued.to_string(),
            scheduled_for: now,
            duration_secs,
            schedule_name: None,
        },
    )
}

/// Repeated taps of "Start" queue one run: once the event a manual request
/// queued is stored, the next manual request is refused, whatever else is
/// stored.
pub proof fn lemma_manual_runs_do_not_stack(existing: Seq<GardenEvent>, queued: NewGardenEvent, stored: GardenEvent)
    requires
        queued.status@ == status_text(GardenEventStatus::Queued),
        stored.status@ == queued.status@,
    ensures
        exists|k: int|
            0 <= k < existing.push(stored).len() && is_active_event(#[trigger] existing.push(stored)[k]),
{
    assert(existing.push(stored)[existing.len() as int] == stored);
}

/// Deleting a schedule reports the rows removed, or `None` when there was no
/// such schedule.
pub fn deleted_rows(n: usize) -> (r: Option<usize>)
    ensures
        n == 0 ==> r is None,
        n != 0 ==> r == Some(n),
{
    if n == 0 {
        None
    } else {
        Some(n)
    }
}

/// The database the repository opens: the path given, or an in-memory one.
pub fn database_path(path: Option<String>) -> (r: String)
    ensures
        match path {
            Some(p) => r@ == p@,
            None => r@ == ":memory:"@,
        },
{
    match path {
        Some(p) => p,
        None => String::from_str(":memory:"),
    }
}

/// What consuming a refresh token writes back, stamped with the time of the
/// request.
#[derive(Clone, Copy, Debug, PartialEq, Eq, Structural)]
pub enum TokenWrite {
    Nothing,
    /// Revoke every still-valid token of this user.
    RevokeAllForUser(i32),
    /// Revoke the token with this id.
    RevokeToken(i32),
}

pub open spec fn spec_consume(record: Option<RefreshToken>, now: DateTime) -> (Result<i32, RefreshTokenError>, TokenWrite) {
    match record {
        None => (Err(RefreshTokenError::InvalidToken), TokenWrite::Nothing),
        Some(t) => if t.revoked_at is Some {
            (Err(RefreshTokenError::TokenRevoked), TokenWrite::RevokeAllForUser(t.user_id))
        } else if t.expires_at.spec_before(now) {
            (Err(RefreshTokenError::TokenExpired), TokenWrite::Nothing)
        } else {
            (Ok(t.user_id), TokenWrite::RevokeToken(t.id))
        },
    }
}

/// Judges the refresh token found for a request (`None` when no token
/// matched). A token is single use: a valid one is revoked as it is consumed.
/// Reuse of a revoked token signals potential theft, so every token of its
/// user is revoked as a precaution.
pub fn consume_refresh_token(record: &Option<RefreshToken>, now: DateTime) -> (r: (Result<i32, RefreshTokenError>, TokenWrite))
    ensures
        r == spec_consume(*record, now),
{
    match record {
        None => (Err(RefreshTokenError::InvalidToken), TokenWrite::Nothing),
        Some(t) => {
            if t.revoked_at.is_some() {
                (Err(RefreshTokenError::TokenRevoked), TokenWrite::RevokeAllForUser(t.user_id))
            } else if t.expires_at.before(&now) {
                (Err(RefreshTokenError::TokenExpired), TokenWrite::Nothing)
            } else {
                (Ok(t.user_id), TokenWrite::RevokeToken(t.id))
            }
        },
    }
}

/// The token row after `w` is written at `now`.
pub open spec fn after_write(t: RefreshToken, w: TokenWrite, now: DateTime) -> RefreshToken {
    match w {
        TokenWrite::RevokeToken(id) => if id == t.id {
            RefreshToken { revoked_at: Some(now), ..t }
        } else {
            t
        },
        TokenWrite::RevokeAllForUser(u) => if u == t.user_id && t.revoked_at is None {
            RefreshToken { revoked_at: Some(now), ..t }
        } else {
            t
        },
        TokenWrite::Nothing => t,
    }
}

/// A refresh token is single use: once consumed, presenting it again is
/// refused as revoked, whenever that happens, and the refusal revokes every
/// token of its user.
pub proof fn lemma_refresh_token_single_use(t: RefreshToken, now: DateTime, later: DateTime)
    requires
        spec_consume(Some(t), now).0 is Ok,
    ensures
        spec_consume(Some(after_write(t, spec_consume(Some(t), now).1, now)), later) == (
            Err::<i32, RefreshTokenError>(RefreshTokenError::TokenRevoked),
            TokenWrite::RevokeAllForUser(t.user_id),
        ),
{
}

/// What a password reset writes: nothing, or, on the user with this email,
/// the new password hash with the reset token and its expiry cleared.
#[derive(Debug)]
pub enum ResetWrite {
    Nothing,
    SetPassword { email: String, password_hash: String },
}

/// The user row after `w` is written.
pub open spec fn after_reset(u: User, w: ResetWrite) -> User {
    match w {
        ResetWrite::SetPassword { email, password_hash } => if u.email@ == email@ {
            User {
                password_hash,
                password_reset_token: None,
                password_reset_token_expires_at: None,
                ..u
            }
        } else {
            u
        },
        ResetWrite::Nothing => u,
    }
}

pub open spec fn spec_reset(user: Option<User>, password_hash: Result<String, String>, now: DateTime) -> (Result<(), ResetPasswordError>, ResetWrite) {
    match password_hash {
        Err(e) => (Err(ResetPasswordError::InvalidPassword(e)), ResetWrite::Nothing),
        Ok(h) => match user {
            None => (Err(ResetPasswordError::InvalidToken), ResetWrite::Nothing),
            Some(u) => if u.password_reset_token_expires_at->0.spec_before(now) {
                (Err(ResetPasswordError::TokenExpired), ResetWrite::Nothing)
            } else {
                (Ok(()), ResetWrite::SetPassword { email: u.email, password_hash: h })
            },
        },
    }
}

/// Judges a password reset at `now`, given the new password's hash (or why
/// hashing it failed) and the user its token found (`None` when no user
/// holds that token): refused for a password that could not be hashed, an
/// unknown token or an expired one; otherwise the user's password is replaced
/// and the reset token cleared, so that it works once.
pub fn reset_password_check(user: &Option<User>, password_hash: Result<String, String>, now: DateTime) -> (r: (Result<(), ResetPasswordError>, ResetWrite))
    requires
        password_hash is Ok ==> (user matches Some(u) ==> u.password_reset_token_expires_at is Some),
    ensures
        r == spec_reset(*user, password_hash, now),
{
    let h = match password_hash {
        Err(e) => {
            return (Err(ResetPasswordError::InvalidPassword(e)), ResetWrite::Nothing);
        },
        Ok(h) => h,
    };
    match user {
        None => (Err(ResetPasswordError::InvalidToken), ResetWrite::Nothing),
        Some(u) => {
            let expires_at = u.password_reset_token_expires_at.unwrap();
            if expires_at.before(&now) {
                (Err(ResetPasswordError::TokenExpired), ResetWrite::Nothing)
            } else {
                (Ok(()), ResetWrite::SetPassword { email: u.email.clone(), password_hash: h })
            }
        },
    }
}

/// The user holds `token` as its password reset token.
pub open spec fn holds_reset_token(u: User, token: Seq<char>) -> bool {
    u.password_reset_token matches Some(t) && t@ == token
}

/// A reset token works once: when a reset with it succeeds for the user who
/// held it, and only users with that email held it, then after the write no
/// user holds it, so a second reset with the same token finds no user and is
/// refused as an unknown token.
pub proof fn lemma_reset_token_single_use(
    table: Seq<User>,
    u: User,
    token: Seq<char>,
    password_hash: Result<String, String>,
    now: DateTime,
    second_hash: Result<String, String>,
    later: DateTime,
)
    requires
        holds_reset_token(u, token),
        forall|k: int| 0 <= k < table.len() && holds_reset_token(#[trigger] table[k], token) ==> table[k].email@ == u.email@,
        spec_reset(Some(u), password_hash, now).0 is Ok,
        second_hash is Ok,
    ensures
        forall|k: int|
            0 <= k < table.len() ==> !holds_reset_token(
                #[trigger] after_reset(table[k], spec_reset(Some(u), password_hash, now).1),
                token,
            ),
        after_reset(u, spec_reset(Some(u), password_hash, now).1).password_hash == password_hash->Ok_0,
        spec_reset(None, second_hash, later).0 is Err,
        spec_reset(None, second_hash, later).0 matches Err(ResetPasswordError::InvalidToken),
{
}

/// What an email verification writes: nothing, or, on the user holding this
/// verification token, the address marked verified at this instant with the
/// token and its expiry cleared.
#[derive(Debug)]
pub enum VerifyWrite {
    Nothing,
    MarkVerified { token: String, at: DateTime },
}

/// The user holds `token` as its email verification token.
pub open spec fn holds_verification_token(u: User, token: Seq<char>) -> bool {
    u.email_verification_token matches Some(t) && t@ == token
}

/// The user row after `w` is written.
pub open spec fn after_verify(u: User, w: VerifyWrite) -> User {
    match w {
        VerifyWrite::MarkVerified { token, at } => if holds_verification_token(u, token@) {
            User {
                email_verification_token: None,
                email_verification_token_expires_at: None,
                email_verified_at: Some(at),
                ..u
            }
        } else {
            u
        },
        VerifyWrite::Nothing => u,
    }
}

pub open spec fn spec_verify(user: Option<User>, token: Seq<char>, now: DateTime) -> (Result<(), VerifyEmailError>, Option<DateTime>) {
    match user {
        None => (Err(VerifyEmailError::EmailNotFound), None),
        Some(u) => if u.email_verified_at is Some {
            (Err(VerifyEmailError::EmailAlreadyVerified), None)
        } else if u.email_verification_token_expires_at->0.spec_before(now) {
            (Err(VerifyEmailError::TokenExpired), None)
        } else {
            (Ok(()), Some(now))
        },
    }
}

/// Judges an email verification at `now` by the user its token found
/// (`None` when no user holds `token`): refused for an unknown token, an
/// address already verified, or an expired token; otherwise the address is
/// marked verified at `now` and the token cleared.
pub fn verify_email_check(user: &Option<User>, token: &str, now: DateTime) -> (r: (Result<(), VerifyEmailError>, VerifyWrite))
    requires
        user matches Some(u) ==> (u.email_verified_at is None ==> u.email_verification_token_expires_at is Some),
    ensures
        r.0 == spec_verify(*user, token@, now).0,
        match r.1 {
            VerifyWrite::Nothing => spec_verify(*user, token@, now).1 is None,
            VerifyWrite::MarkVerified { token: t, at } => t@ == token@ && spec_verify(*user, token@, now).1
                == Some(at),
        },
{
    match user {
        None => (Err(VerifyEmailError::EmailNotFound), VerifyWrite::Nothing),
        Some(u) => {
            if u.email_verified_at.is_some() {
                return (Err(VerifyEmailError::EmailAlreadyVerified), VerifyWrite::Nothing);
            }
            let expires_at = u.email_verification_token_expires_at.unwrap();
            if expires_at.before(&now) {
                (Err(VerifyEmailError::TokenExpired), VerifyWrite::Nothing)
            } else {
                (Ok(()), VerifyWrite::MarkVerified { token: String::from_str(token), at: now })
            }
        },
    }
}

/// A verification token works once: after a successful verification the
/// user who held the token is verified at that instant, no user holds the
/// token any more, and a second verification with it finds no user and is
/// refused.
pub proof fn lemma_verification_single_use(table: Seq<User>, u: User, token: Seq<char>, t: String, now: DateTime, later: DateTime)
    requires
        holds_verification_token(u, token),
        t@ == token,
        spec_verify(Some(u), token, now).0 is Ok,
    ensures
        after_verify(u, VerifyWrite::MarkVerified { token: t, at: now }).email_verified_at == Some(now),
        forall|k: int|
            0 <= k < table.len() ==> !holds_verification_token(
                #[trigger] after_verify(table[k], VerifyWrite::MarkVerified { token: t, at: now }),
                token,
            ),
        spec_verify(None, token, later).0 matches Err(VerifyEmailError::EmailNotFound),
{
}

} // verus!
