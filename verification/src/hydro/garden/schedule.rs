//! Garden run decisions: how long a run may last, how a run in progress
//! reacts to each poll of its event, and when the schedules will next run.
use vstd::prelude::*;

use crate::calendar::{
    contains_weekday, lemma_weekday_index_roundtrip, weekday_number, weekday_of, Date, DateTime, Time, Weekday, MAX_DAY,
    MIN_DAY,
};
use crate::repository::models::garden_event::{status_from_text, GardenEventStatus};
use crate::repository::models::garden_schedule::{csv_days, csv_times, GardenSchedule};
use crate::text::str_eq;

verus! {

/// The garden's maximum runtime read as an `i32`: a value past `i32::MAX`
/// wraps around to a negative one.
pub open spec fn max_as_i32(max: u32) -> int {
    if max <= i32::MAX {
        max as int
    } else {
        max - 0x1_0000_0000
    }
}

/// The run length actually used for a requested duration: zero for a request
/// of no time, else the request capped at the garden's maximum runtime read
/// as an `i32` (so a maximum past `i32::MAX` gives a negative length, and the
/// run ends at once).
pub open spec fn clamped(requested: i32, max: u32) -> int {
    let max = max_as_i32(max);
    if requested <= 0 {
        0
    } else if requested > max {
        max
    } else {
        requested as int
    }
}

pub fn clamp_duration(requested: i32, max: u32) -> (r: i32)
    ensures
        r == clamped(requested, max),
{
    let max: i32 = if max <= 0x7fff_ffff {
        max as i32
    } else {
        (max as i64 - 0x1_0000_0000i64) as i32
    };
    if requested <= 0 {
        0
    } else if requested > max {
        max
    } else {
        requested
    }
}

/// With a maximum that fits an `i32`, a run lasts between zero and the
/// maximum, and exactly as requested when that is within those bounds.
pub proof fn lemma_clamp_bounds(requested: i32, max: u32)
    requires
        max <= i32::MAX,
    ensures
        0 <= clamped(requested, max) <= max,
        0 <= requested <= max ==> clamped(requested, max) == requested,
{
}

/// What one poll of a running event's row found.
pub enum EventPoll {
    /// The row is there, with this stored status.
    Current(String),
    /// The row is gone.
    Vanished,
    /// The poll failed; the run goes on.
    Failed,
}

/// A garden run in progress: one tick per second until the clamped duration
/// has passed, unless a poll shows the event cancelled or gone.
pub struct GardenRun {
    pub event_id: i32,
    pub duration_secs: i32,
    pub elapsed: i32,
    pub stopped: Option<GardenEventStatus>,
}

impl GardenRun {
    pub open spec fn wf(self) -> bool {
        &&& 0 <= self.elapsed
        &&& (self.elapsed <= self.duration_secs || self.elapsed == 0)
        &&& (self.stopped matches Some(s) ==> s == GardenEventStatus::Cancelled)
    }

    /// Starts the run of event `event_id`, asked to last `requested` seconds,
    /// on a garden whose runs last at most `max` seconds.
    pub fn new(event_id: i32, requested: i32, max: u32) -> (r: GardenRun)
        ensures
            r.wf(),
            r.event_id == event_id,
            r.duration_secs == clamped(requested, max),
            r.elapsed == 0,
            r.stopped is None,
    {
        GardenRun { event_id, duration_secs: clamp_duration(requested, max), elapsed: 0, stopped: None }
    }

    pub open spec fn spec_needs_tick(self) -> bool {
        self.stopped is None && self.elapsed < self.duration_secs
    }

    /// Whether the solenoid should stay open for another second.
    pub fn needs_tick(&self) -> (r: bool)
        ensures
            r == self.spec_needs_tick(),
    {
        self.stopped.is_none() && self.elapsed < self.duration_secs
    }

    /// Records one second of watering and the poll made after it: a
    /// cancelled or vanished event stops the run as cancelled.
    pub fn tick(&mut self, poll: EventPoll)
        requires
            old(self).wf(),
            old(self).spec_needs_tick(),
        ensures
            final(self).wf(),
            final(self).event_id == old(self).event_id,
            final(self).duration_secs == old(self).duration_secs,
            final(self).elapsed == old(self).elapsed + 1,
            final(self).stopped == match poll {
                EventPoll::Current(s) => if s@ == "cancelled"@ {
                    Some(GardenEventStatus::Cancelled)
                } else {
                    None
                },
                EventPoll::Vanished => Some(GardenEventStatus::Cancelled),
                EventPoll::Failed => None,
            },
    {
        self.elapsed = self.elapsed + 1;
        match poll {
            EventPoll::Current(s) => {
                if str_eq(s.as_str(), "cancelled") {
                    self.stopped = Some(GardenEventStatus::Cancelled);
                }
            },
            EventPoll::Vanished => {
                self.stopped = Some(GardenEventStatus::Cancelled);
            },
            EventPoll::Failed => {},
        }
    }

    pub open spec fn spec_terminal_status(self) -> GardenEventStatus {
        match self.stopped {
            Some(s) => s,
            None => GardenEventStatus::Completed,
        }
    }

    /// The status the event is finished with: cancelled when a poll stopped
    /// it, completed otherwise.
    pub fn terminal_status(&self) -> (r: GardenEventStatus)
        requires
            self.wf(),
        ensures
            r == self.spec_terminal_status(),
            r.spec_is_terminal(),
    {
        match self.stopped {
            Some(s) => s,
            None => GardenEventStatus::Completed,
        }
    }
}

/// Every run ends: each tick brings it one second closer to its duration,
/// and a run that needs no tick finishes with a terminal status.
pub proof fn lemma_run_terminates(r: GardenRun)
    requires
        r.wf(),
    ensures
        r.spec_needs_tick() ==> r.duration_secs - r.elapsed > 0,
        r.spec_terminal_status().spec_is_terminal(),
{
}

/// What a garden run asks of the solenoid and the event store next.
#[derive(Clone, Copy, Debug, PartialEq, Eq, Structural)]
pub enum RunAction {
    OpenSolenoid,
    /// Wait one second, then poll the event's row and hand back what it
    /// found.
    WaitAndPoll,
    CloseSolenoid,
    /// Record the event as finished with this status.
    Finish(GardenEventStatus),
    /// The run is over; nothing more to do.
    Done,
}

/// Where a garden run stands: about to open the solenoid, watering (the
/// solenoid open), about to record the end (the solenoid closed), or over.
#[derive(Clone, Copy, Debug, PartialEq, Eq, Structural)]
pub enum RunPhase {
    Opening,
    Watering,
    Finishing,
    Over,
}

/// A garden run driven step by step: each step says what to do next.
pub struct GardenRunner {
    pub run: GardenRun,
    pub phase: RunPhase,
    /// Whether a poll was asked for and its result is owed to the next step.
    pub polling: bool,
}

impl GardenRunner {
    pub open spec fn wf(self) -> bool {
        &&& self.run.wf()
        &&& (self.polling ==> self.phase == RunPhase::Watering && self.run.spec_needs_tick())
    }

    /// Whether the solenoid is open in this state.
    pub open spec fn solenoid_open(self) -> bool {
        self.phase == RunPhase::Watering
    }

    /// The run after a tick with `poll`, when a poll was owed.
    pub open spec fn ticked(self, poll: EventPoll) -> GardenRun {
        if self.polling {
            GardenRun {
                elapsed: (self.run.elapsed + 1) as i32,
                stopped: match poll {
                    EventPoll::Current(s) => if s@ == "cancelled"@ {
                        Some(GardenEventStatus::Cancelled)
                    } else {
                        None
                    },
                    EventPoll::Vanished => Some(GardenEventStatus::Cancelled),
                    EventPoll::Failed => None,
                },
                ..self.run
            }
        } else {
            self.run
        }
    }

    /// The next state and action, given the result of the poll asked for by
    /// the previous step (ignored when none was asked for).
    pub open spec fn spec_next(self, poll: EventPoll) -> (GardenRunner, RunAction) {
        match self.phase {
            RunPhase::Opening => (
                GardenRunner { phase: RunPhase::Watering, polling: false, ..self },
                RunAction::OpenSolenoid,
            ),
            RunPhase::Watering => {
                let run = self.ticked(poll);
                if run.spec_needs_tick() {
                    (GardenRunner { run, phase: RunPhase::Watering, polling: true }, RunAction::WaitAndPoll)
                } else {
                    (GardenRunner { run, phase: RunPhase::Finishing, polling: false }, RunAction::CloseSolenoid)
                }
            },
            RunPhase::Finishing => (
                GardenRunner { phase: RunPhase::Over, ..self },
                RunAction::Finish(self.run.spec_terminal_status()),
            ),
            RunPhase::Over => (self, RunAction::Done),
        }
    }

    /// Starts running event `event_id`, asked to last `requested` seconds on
    /// a garden whose runs last at most `max`, on the start decision taken
    /// for it (`begin_garden_event_decision`): a refused start is an error, and
    /// an event that must not run (cancelled or already started) does not
    /// run at all.
    pub fn start(event_id: i32, decision: Result<bool, String>, requested: i32, max: u32) -> (r: Result<Option<GardenRunner>, String>)
        ensures
            match decision {
                Err(e) => r matches Err(m) && m@ == e@,
                Ok(false) => r matches Ok(None),
                Ok(true) => r matches Ok(Some(g)) && g.wf() && g.phase == RunPhase::Opening && !g.polling
                    && g.run.event_id == event_id && g.run.duration_secs == clamped(requested, max)
                    && g.run.elapsed == 0 && g.run.stopped is None,
            },
    {
        match decision {
            Err(e) => Err(e),
            Ok(false) => Ok(None),
            Ok(true) => Ok(
                Some(
                    GardenRunner {
                        run: GardenRun::new(event_id, requested, max),
                        phase: RunPhase::Opening,
                        polling: false,
                    },
                ),
            ),
        }
    }

    /// Takes one step: hands in what the poll asked for by the previous step
    /// found, and returns what to do next.
    pub fn next(&mut self, poll: EventPoll) -> (r: RunAction)
        requires
            old(self).wf(),
        ensures
            final(self).wf(),
            (*final(self), r) == old(self).spec_next(poll),
    {
        match self.phase {
            RunPhase::Opening => {
                self.phase = RunPhase::Watering;
                self.polling = false;
                RunAction::OpenSolenoid
            },
            RunPhase::Watering => {
                if self.polling {
                    self.run.tick(poll);
                }
                if self.run.needs_tick() {
                    self.polling = true;
                    RunAction::WaitAndPoll
                } else {
                    self.phase = RunPhase::Finishing;
                    self.polling = false;
                    RunAction::CloseSolenoid
                }
            },
            RunPhase::Finishing => {
                self.phase = RunPhase::Over;
                RunAction::Finish(self.run.terminal_status())
            },
            RunPhase::Over => RunAction::Done,
        }
    }

    /// The steps a run has left at most.
    pub open spec fn steps_left(self) -> nat {
        let rem: nat = if self.run.spec_needs_tick() {
            (self.run.duration_secs - self.run.elapsed) as nat
        } else {
            0
        };
        match self.phase {
            RunPhase::Opening => 2 * rem + 4,
            RunPhase::Watering => 2 * rem + 2 + if self.polling {
                0nat
            } else {
                1nat
            },
            RunPhase::Finishing => 1,
            RunPhase::Over => 0,
        }
    }
}

/// A garden run keeps its order and ends: polls are asked for only while
/// the solenoid is open, the end is recorded only after it is closed, the
/// status recorded is terminal, and every step until the run is over brings
/// it closer to the end.
pub proof fn lemma_runner_order(g: GardenRunner, poll: EventPoll)
    requires
        g.wf(),
    ensures
        ({
            let (h, a) = g.spec_next(poll);
            &&& a == RunAction::WaitAndPoll ==> g.solenoid_open() && h.solenoid_open()
            &&& a == RunAction::OpenSolenoid ==> !g.solenoid_open() && h.solenoid_open()
            &&& a == RunAction::CloseSolenoid ==> g.solenoid_open() && !h.solenoid_open()
            &&& a matches RunAction::Finish(st) ==> !g.solenoid_open() && st.spec_is_terminal()
            &&& g.phase != RunPhase::Over ==> h.steps_left() < g.steps_left()
            &&& (a == RunAction::Done) == (g.phase == RunPhase::Over)
        }),
{
}

/// Whether a schedule can produce runs at all: it is active and names at
/// least one weekday and one start time.
pub open spec fn relevant(s: GardenSchedule) -> bool {
    s.active && csv_days(s.days_of_week@).len() > 0 && csv_times(s.start_times@).len() > 0
}

/// The instant of a run.
pub open spec fn run_time(x: (i32, DateTime)) -> DateTime {
    x.1
}

pub open spec fn at(date: Date, t: Time) -> DateTime {
    DateTime { date, time: t }
}

/// The runs of schedule `id` on `date` that are later than `now`, in the
/// order of its start times.
pub open spec fn times_after(id: i32, date: Date, times: Seq<Time>, now: DateTime) -> Seq<(i32, DateTime)>
    decreases times.len(),
{
    if times.len() == 0 {
        Seq::empty()
    } else {
        let prev = times_after(id, date, times.drop_last(), now);
        let dt = at(date, times.last());
        if now.spec_before(dt) {
            prev.push((id, dt))
        } else {
            prev
        }
    }
}

/// The runs of a schedule on the `k` days starting with `now`'s date.
pub open spec fn days_ahead(s: GardenSchedule, now: DateTime, k: nat) -> Seq<(i32, DateTime)>
    decreases k,
{
    if k == 0 {
        Seq::empty()
    } else {
        let prev = days_ahead(s, now, (k - 1) as nat);
        let date = Date { days: (now.date.days + (k - 1)) as i32 };
        if csv_days(s.days_of_week@).contains(weekday_of(date)) {
            prev + times_after(s.id, date, csv_times(s.start_times@), now)
        } else {
            prev
        }
    }
}

/// The future runs of one schedule over today and the next seven days.
pub open spec fn schedule_runs(s: GardenSchedule, now: DateTime) -> Seq<(i32, DateTime)> {
    if relevant(s) {
        days_ahead(s, now, 8)
    } else {
        Seq::empty()
    }
}

/// The future runs of all schedules, schedule by schedule.
pub open spec fn all_runs(ss: Seq<GardenSchedule>, now: DateTime) -> Seq<(i32, DateTime)>
    decreases ss.len(),
{
    if ss.len() == 0 {
        Seq::empty()
    } else {
        all_runs(ss.drop_last(), now) + schedule_runs(ss.last(), now)
    }
}

/// The earliest run of `c`; of runs at the same instant, the first listed.
pub open spec fn earliest(c: Seq<(i32, DateTime)>) -> Option<(i32, DateTime)>
    decreases c.len(),
{
    if c.len() == 0 {
        None
    } else {
        let x = c.last();
        match earliest(c.drop_last()) {
            None => Some(x),
            Some(b) => if run_time(x).spec_before(b.1) {
                Some(x)
            } else {
                Some(b)
            },
        }
    }
}

/// The earliest run is one of the runs, and no run comes before it.
pub proof fn lemma_earliest_is_minimal(c: Seq<(i32, DateTime)>)
    ensures
        (earliest(c) is Some) == (c.len() > 0),
        earliest(c) matches Some(b) ==> c.contains(b) && forall|k: int|
            0 <= k < c.len() ==> !run_time((#[trigger] c[k])).spec_before(b.1),
    decreases c.len(),
{
    if c.len() > 0 {
        let p = c.drop_last();
        lemma_earliest_is_minimal(p);
        let x = c.last();
        match earliest(p) {
            None => {
                assert(c[c.len() - 1] == x);
            },
            Some(b) => {
                let k0 = choose|k: int| 0 <= k < p.len() && p[k] == b;
                assert(c[k0] == b);
                assert(c[c.len() - 1] == x);
                assert forall|k: int| 0 <= k < c.len() implies !run_time((#[trigger] c[k])).spec_before(
                    run_time(earliest(c)->0),
                ) by {
                    if k < c.len() - 1 {
                        assert(c[k] == p[k]);
                    }
                }
            },
        }
    }
}

/// Every run listed is strictly later than `now`.
pub proof fn lemma_runs_are_future(ss: Seq<GardenSchedule>, now: DateTime)
    ensures
        forall|k: int| 0 <= k < all_runs(ss, now).len() ==> now.spec_before(
            (#[trigger] all_runs(ss, now)[k]).1,
        ),
    decreases ss.len(),
{
    if ss.len() > 0 {
        lemma_runs_are_future(ss.drop_last(), now);
        let s = ss.last();
        if relevant(s) {
            lemma_days_ahead_future(s, now, 8);
        }
        let a = all_runs(ss.drop_last(), now);
        let b = schedule_runs(s, now);
        assert forall|k: int| 0 <= k < all_runs(ss, now).len() implies now.spec_before(
            (#[trigger] all_runs(ss, now)[k]).1,
        ) by {
            if k < a.len() {
                assert(all_runs(ss, now)[k] == a[k]);
            } else {
                assert(all_runs(ss, now)[k] == b[k - a.len()]);
            }
        }
    }
}

proof fn lemma_times_after_future(id: i32, date: Date, times: Seq<Time>, now: DateTime)
    ensures
        forall|k: int| 0 <= k < times_after(id, date, times, now).len() ==> now.spec_before(
            (#[trigger] times_after(id, date, times, now)[k]).1,
        ),
    decreases times.len(),
{
    if times.len() > 0 {
        lemma_times_after_future(id, date, times.drop_last(), now);
        let p = times_after(id, date, times.drop_last(), now);
        assert forall|k: int| 0 <= k < times_after(id, date, times, now).len() implies now.spec_before(
            (#[trigger] times_after(id, date, times, now)[k]).1,
        ) by {
            if k < p.len() {
                assert(times_after(id, date, times, now)[k] == p[k]);
            }
        }
    }
}

proof fn lemma_days_ahead_future(s: GardenSchedule, now: DateTime, n: nat)
    ensures
        forall|k: int| 0 <= k < days_ahead(s, now, n).len() ==> now.spec_before(
            (#[trigger] days_ahead(s, now, n)[k]).1,
        ),
    decreases n,
{
    if n > 0 {
        lemma_days_ahead_future(s, now, (n - 1) as nat);
        let p = days_ahead(s, now, (n - 1) as nat);
        let date = Date { days: (now.date.days + (n - 1)) as i32 };
        let t = times_after(s.id, date, csv_times(s.start_times@), now);
        lemma_times_after_future(s.id, date, csv_times(s.start_times@), now);
        assert forall|k: int| 0 <= k < days_ahead(s, now, n).len() implies now.spec_before(
            (#[trigger] days_ahead(s, now, n)[k]).1,
        ) by {
            if k < p.len() {
                assert(days_ahead(s, now, n)[k] == p[k]);
            } else {
                assert(days_ahead(s, now, n)[k] == t[k - p.len()]);
            }
        }
    }
}

proof fn lemma_earliest_push(c: Seq<(i32, DateTime)>, x: (i32, DateTime))
    ensures
        earliest(c.push(x)) == match earliest(c) {
            None => Some(x),
            Some(b) => if run_time(x).spec_before(b.1) {
                Some(x)
            } else {
                Some(b)
            },
        },
{
    assert(c.push(x).drop_last() =~= c);
}

/// Whether some schedule in `ss` can produce runs.
pub open spec fn any_relevant(ss: Seq<GardenSchedule>) -> bool {
    exists|k: int| 0 <= k < ss.len() && relevant(#[trigger] ss[k])
}

/// The next future run across all active schedules, looking up to seven days
/// ahead: the earliest of them, and of runs at the same instant the one of
/// the schedule listed first. `None` when no schedule runs in that window.
pub fn next_scheduled_run(schedules: &[GardenSchedule], now: DateTime) -> (r: Option<(i32, DateTime)>)
    requires
        now.wf(),
        any_relevant(schedules@) ==> now.date.days + 7 <= MAX_DAY,
    ensures
        r == earliest(all_runs(schedules@, now)),
        (r is Some) == any_relevant(schedules@),
{
    proof {
        lemma_earliest_is_minimal(all_runs(schedules@, now));
        lemma_runs_exist(schedules@, now);
    }
    let mut best: Option<(i32, DateTime)> = None;
    let ghost mut seen: Seq<(i32, DateTime)> = Seq::empty();
    let mut i: usize = 0;
    while i < schedules.len()
        invariant
            i <= schedules@.len(),
            now.wf(),
            any_relevant(schedules@) ==> now.date.days + 7 <= MAX_DAY,
            seen == all_runs(schedules@.take(i as int), now),
            best == earliest(seen),
        decreases schedules@.len() - i,
    {
        let s = &schedules[i];
        let ghost before_s = seen;
        assert(schedules@.take(i + 1).drop_last() =~= schedules@.take(i as int));
        assert(schedules@.take(i + 1).last() == *s);
        let days = s.parsed_days_of_week();
        let times = s.parsed_start_times();
        if s.active && days.len() > 0 && times.len() > 0 {
            assert(relevant(*s));
            assert(schedules@[i as int] == *s);
            let mut offset: i32 = 0;
            while offset <= 7
                invariant
                    0 <= offset <= 8,
                    relevant(*s),
                    now.wf(),
                    now.date.days + 7 <= MAX_DAY,
                    days@ == csv_days(s.days_of_week@),
                    times@ == csv_times(s.start_times@),
                    forall|k: int| 0 <= k < times@.len() ==> (#[trigger] times@[k]).wf(),
                    seen == before_s + days_ahead(*s, now, offset as nat),
                    best == earliest(seen),
                decreases 8 - offset,
            {
                let date = Date { days: now.date.days + offset };
                let wd = date.weekday();
                let ghost before_day = seen;
                if contains_weekday(&days, wd) {
                    let mut j: usize = 0;
                    assert(times@.take(0) =~= Seq::<Time>::empty());
                    while j < times.len()
                        invariant
                            j <= times@.len(),
                            seen == before_day + times_after(s.id, date, times@.take(j as int), now),
                            best == earliest(seen),
                        decreases times@.len() - j,
                    {
                        let cand = date.and_time(times[j]);
                        assert(times@.take(j + 1).drop_last() =~= times@.take(j as int));
                        assert(times@.take(j + 1).last() == times@[j as int]);
                        if now.before(&cand) {
                            let ghost x = (s.id, cand);
                            proof {
                                lemma_earliest_push(seen, x);
                            }
                            match best {
                                None => {
                                    best = Some((s.id, cand));
                                },
                                Some((_, cur)) => {
                                    if cand.before(&cur) {
                                        best = Some((s.id, cand));
                                    }
                                },
                            }
                            proof {
                                assert(before_day + times_after(s.id, date, times@.take(j + 1), now)
                                    =~= (before_day + times_after(s.id, date, times@.take(j as int), now)).push(x));
                                seen = seen.push(x);
                            }
                        }
                        j = j + 1;
                    }
                    assert(times@.take(times@.len() as int) =~= times@);
                    assert(seen =~= before_s + days_ahead(*s, now, (offset + 1) as nat));
                } else {
                    assert(seen =~= before_s + days_ahead(*s, now, (offset + 1) as nat));
                }
                offset = offset + 1;
            }
            assert(seen =~= before_s + schedule_runs(*s, now));
        } else {
            assert(!relevant(*s));
            assert(seen =~= before_s + schedule_runs(*s, now));
        }
        i = i + 1;
    }
    assert(schedules@.take(schedules@.len() as int) =~= schedules@);
    best
}

proof fn lemma_times_after_later_day(id: i32, date: Date, times: Seq<Time>, now: DateTime)
    requires
        times.len() > 0,
        now.date.days < date.days,
    ensures
        times_after(id, date, times, now).len() > 0,
{
}

proof fn lemma_days_ahead_grows(s: GardenSchedule, now: DateTime, m: nat, n: nat)
    requires
        m <= n,
    ensures
        days_ahead(s, now, m).len() <= days_ahead(s, now, n).len(),
    decreases n,
{
    if m < n {
        lemma_days_ahead_grows(s, now, m, (n - 1) as nat);
    }
}

/// A schedule that can run at all has a run within the next seven days:
/// those days hold every weekday, and on a later day every start time is
/// still to come.
proof fn lemma_relevant_has_runs(s: GardenSchedule, now: DateTime)
    requires
        relevant(s),
        MIN_DAY <= now.date.days <= MAX_DAY,
    ensures
        schedule_runs(s, now).len() > 0,
{
    let w = csv_days(s.days_of_week@)[0];
    lemma_weekday_index_roundtrip(w);
    let wi = w.index() as int;
    let d = now.date.days as int;
    let j0 = (wi - (d - 1)) % 7;
    let j = if j0 == 0 { 7 } else { j0 };
    assert(1 <= j <= 7);
    assert((d + j - 1) % 7 == wi) by {
        assert(((d - 1) + (wi - (d - 1)) % 7) % 7 == wi % 7) by (nonlinear_arith)
            requires 0 <= wi < 7;
        assert((d - 1 + 7 + j0) % 7 == (d - 1 + j0) % 7) by (nonlinear_arith);
    }
    let date = Date { days: (d + j) as i32 };
    assert(weekday_number(date.days as int) == wi);
    assert(weekday_of(date) == w);
    assert(csv_days(s.days_of_week@).contains(weekday_of(date)));
    assert(date == Date { days: (now.date.days + ((j + 1) - 1)) as i32 });
    lemma_times_after_later_day(s.id, date, csv_times(s.start_times@), now);
    assert(days_ahead(s, now, (j + 1) as nat).len() > 0);
    lemma_days_ahead_grows(s, now, (j + 1) as nat, 8);
}

/// Some run is listed exactly when some schedule can run at all.
proof fn lemma_runs_exist(ss: Seq<GardenSchedule>, now: DateTime)
    requires
        MIN_DAY <= now.date.days <= MAX_DAY,
    ensures
        (all_runs(ss, now).len() > 0) == any_relevant(ss),
    decreases ss.len(),
{
    if ss.len() > 0 {
        let p = ss.drop_last();
        let s = ss.last();
        lemma_runs_exist(p, now);
        if relevant(s) {
            lemma_relevant_has_runs(s, now);
            assert(ss[ss.len() - 1] == s);
        }
        if any_relevant(p) {
            let k = choose|k: int| 0 <= k < p.len() && relevant(#[trigger] p[k]);
            assert(ss[k] == p[k]);
        }
        if any_relevant(ss) {
            let k = choose|k: int| 0 <= k < ss.len() && relevant(#[trigger] ss[k]);
            if k < ss.len() - 1 {
                assert(p[k] == ss[k]);
            }
        }
    }
}

} // verus!
