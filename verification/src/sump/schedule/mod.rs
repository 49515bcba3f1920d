//! Choosing which of the sump's irrigation schedules to start: none while a
//! job is in progress, else the active schedules for today whose start has
//! passed, earliest start first.
use vstd::prelude::*;

use crate::calendar::{
    chrono_parse_datetime, datetime_of_triple, parse_datetime, weekday_of, DateTime,
};
use crate::repository::models::irrigation_event::{irrigation_status_text, IrrigationEventStatus};
use crate::sort::{
    is_ordered, lemma_stable_sorted_ordered, stable_sort, stable_sorted, strict_weak_order, Ranked,
};
use crate::text::{
    contains_text, lemma_text_before_irreflexive, lemma_text_before_total,
    lemma_text_before_transitive, occurs_in, str_before, str_eq, text_before,
};

pub mod run;

verus! {

/// A schedule joined with its latest irrigation event, as the status query
/// returns it.
#[derive(Debug)]
pub struct Status {
    pub schedule_id: i32,
    pub schedule_days_of_week: String,
    pub schedule_duration: i32,
    pub schedule_start_time: String,
    pub schedule_status: bool,
    pub event_id: i32,
    pub event_hose_id: i32,
    pub event_status: String,
    pub event_created_at: String,
    pub event_end_time: String,
}

/// Statuses rank by the text of their schedule's start time.
impl Ranked for Status {
    open spec fn ranks_before(&self, other: &Self) -> bool {
        text_before(self.schedule_start_time@, other.schedule_start_time@)
    }

    fn before(&self, other: &Self) -> (r: bool) {
        str_before(self.schedule_start_time.as_str(), other.schedule_start_time.as_str())
    }
}

pub open spec fn in_progress(s: Status) -> bool {
    s.event_status@ == irrigation_status_text(IrrigationEventStatus::InProgress)
}

/// `i` is the position of the first status whose event is in progress.
pub open spec fn first_in_progress_at(list: Seq<Status>, i: int) -> bool {
    &&& 0 <= i < list.len()
    &&& in_progress(list[i])
    &&& forall|k: int| 0 <= k < i ==> !in_progress(#[trigger] list[k])
}

/// A schedule is running when some event is in progress; the creation time
/// of the first such event must read as a date and time.
pub open spec fn running_spec(list: Seq<Status>) -> Result<bool, Seq<char>> {
    if exists|i: int| first_in_progress_at(list, i) {
        let i = choose|i: int| first_in_progress_at(list, i);
        match chrono_parse_datetime(list[i].event_created_at@) {
            Ok(_) => Ok(true),
            Err(e) => Err("Error parsing created_at: "@ + e),
        }
    } else {
        Ok(false)
    }
}

fn first_in_progress(list: &Vec<Status>) -> (r: Option<usize>)
    ensures
        match r {
            Some(i) => first_in_progress_at(list@, i as int),
            None => forall|k: int| 0 <= k < list@.len() ==> !in_progress(#[trigger] list@[k]),
        },
{
    let mut i: usize = 0;
    while i < list.len()
        invariant
            i <= list@.len(),
            forall|k: int| 0 <= k < i ==> !in_progress(#[trigger] list@[k]),
        decreases list@.len() - i,
    {
        if str_eq(list[i].event_status.as_str(), IrrigationEventStatus::InProgress.as_str()) {
            return Some(i);
        }
        i = i + 1;
    }
    None
}

proof fn lemma_first_in_progress_unique(list: Seq<Status>, i: int)
    requires
        first_in_progress_at(list, i),
    ensures
        (choose|j: int| first_in_progress_at(list, j)) == i,
{
    let j = choose|j: int| first_in_progress_at(list, j);
    assert(first_in_progress_at(list, j));
    if j < i {
        assert(!in_progress(list[j]));
    }
    if i < j {
        assert(!in_progress(list[i]));
    }
}

/// Whether an irrigation job is in progress. The first status in progress
/// must have a creation time that reads as a date and time; when it does not,
/// the error says why.
pub fn is_schedule_running(status_list: &Vec<Status>) -> (r: Result<bool, String>)
    ensures
        match r {
            Ok(b) => running_spec(status_list@) == Ok::<bool, Seq<char>>(b),
            Err(m) => running_spec(status_list@) == Err::<bool, Seq<char>>(m@),
        },
{
    match first_in_progress(status_list) {
        None => Ok(false),
        Some(i) => {
            proof {
                lemma_first_in_progress_unique(status_list@, i as int);
            }
            match parse_datetime(status_list[i].event_created_at.as_str()) {
                Ok(_) => Ok(true),
                Err(e) => {
                    let mut msg = String::from_str("Error parsing created_at: ");
                    msg.append(e.as_str());
                    Err(msg)
                },
            }
        },
    }
}

/// The schedule is active and lists today's weekday (by its three-letter
/// name, which also matches inside a full name).
pub open spec fn for_today(s: Status, now: DateTime) -> bool {
    s.schedule_status && occurs_in(s.schedule_days_of_week@, weekday_of(now.date).short_name())
}

pub open spec fn start_reads(s: Status) -> bool {
    chrono_parse_datetime(s.schedule_start_time@) is Ok
}

/// Every status that is active and for today has a start time that reads
/// as a date and time.
pub open spec fn starts_readable(list: Seq<Status>, now: DateTime) -> bool {
    forall|k: int| 0 <= k < list.len() && for_today(#[trigger] list[k], now) ==> start_reads(list[k])
}

/// A status is due when it is for today and its start is before `now`.
pub open spec fn is_due(s: Status, now: DateTime) -> bool {
    &&& for_today(s, now)
    &&& match chrono_parse_datetime(s.schedule_start_time@) {
        Ok(p) => datetime_of_triple(p).spec_before(now),
        Err(_) => false,
    }
}

pub open spec fn keep_due(s: Seq<Status>, now: DateTime) -> Seq<Status>
    decreases s.len(),
{
    if s.len() == 0 {
        Seq::empty()
    } else if is_due(s.last(), now) {
        keep_due(s.drop_last(), now).push(s.last())
    } else {
        keep_due(s.drop_last(), now)
    }
}

fn for_today_exec(st: &Status, now: &DateTime) -> (r: bool)
    requires
        now.wf(),
    ensures
        r == for_today(*st, *now),
{
    let day = now.date.weekday();
    st.schedule_status && contains_text(st.schedule_days_of_week.as_str(), day.short_name_str())
}

fn is_due_exec(st: &Status, now: &DateTime) -> (r: bool)
    requires
        now.wf(),
        for_today(*st, *now) ==> start_reads(*st),
    ensures
        r == is_due(*st, *now),
{
    if !for_today_exec(st, now) {
        return false;
    }
    match parse_datetime(st.schedule_start_time.as_str()) {
        Ok(start) => start.before(now),
        Err(_) => false,
    }
}

/// The statuses due at `now`, earliest start time first; statuses with the
/// same start time keep their order.
pub fn due_schedules(status_list: Vec<Status>, now: DateTime) -> (r: Vec<Status>)
    requires
        now.wf(),
        starts_readable(status_list@, now),
    ensures
        r@ == stable_sorted(keep_due(status_list@, now)),
        forall|k: int| 0 <= k < r@.len() ==> (#[trigger] r@[k]).schedule_status,
        forall|i: int, j: int|
            0 <= i < j < r@.len() ==> !text_before(
                (#[trigger] r@[j]).schedule_start_time@,
                (#[trigger] r@[i]).schedule_start_time@,
            ),
{
    proof {
        lemma_due_schedules_law(status_list@, now);
    }
    let ghost orig = status_list@;
    let mut rest = status_list;
    let mut kept: Vec<Status> = Vec::new();
    let mut i: usize = 0;
    let n = rest.len();
    while rest.len() > 0
        invariant
            now.wf(),
            starts_readable(orig, now),
            n == orig.len(),
            i + rest@.len() == n,
            rest@ == orig.skip(i as int),
            kept@ == keep_due(orig.take(i as int), now),
        decreases rest@.len(),
    {
        let st = rest.remove(0);
        assert(orig.skip(i as int)[0] == orig[i as int]);
        assert(orig.skip(i as int).remove(0) =~= orig.skip(i + 1));
        assert(orig.take(i + 1).drop_last() =~= orig.take(i as int));
        assert(orig.take(i + 1).last() == orig[i as int]);
        if is_due_exec(&st, &now) {
            kept.push(st);
        }
        i = i + 1;
    }
    assert(orig.take(n as int) =~= orig);
    stable_sort(kept)
}

/// Whether every status that is active and for today has a readable start.
pub fn starts_readable_exec(status_list: &Vec<Status>, now: &DateTime) -> (r: bool)
    requires
        now.wf(),
    ensures
        r == starts_readable(status_list@, *now),
{
    let mut i: usize = 0;
    while i < status_list.len()
        invariant
            now.wf(),
            i <= status_list@.len(),
            forall|k: int|
                0 <= k < i && for_today(#[trigger] status_list@[k], *now) ==> start_reads(
                    status_list@[k],
                ),
        decreases status_list@.len() - i,
    {
        if for_today_exec(&status_list[i], now) {
            match parse_datetime(status_list[i].schedule_start_time.as_str()) {
                Ok(_) => {},
                Err(_) => {
                    return false;
                },
            }
        }
        i = i + 1;
    }
    true
}

/// What one pass of the scheduler picks: nothing while a job is in progress,
/// else the due statuses in start order.
pub open spec fn tick_spec(list: Seq<Status>, now: DateTime) -> Result<Seq<Status>, Seq<char>> {
    match running_spec(list) {
        Ok(true) => Ok(Seq::empty()),
        Ok(false) => Ok(stable_sorted(keep_due(list, now))),
        Err(e) => Err(e),
    }
}

/// One pass of the scheduler at `now`.
pub fn schedule_tick(status_list: Vec<Status>, now: DateTime) -> (r: Result<Vec<Status>, String>)
    requires
        now.wf(),
        running_spec(status_list@) == Ok::<bool, Seq<char>>(false) ==> starts_readable(
            status_list@,
            now,
        ),
    ensures
        match r {
            Ok(v) => tick_spec(status_list@, now) == Ok::<Seq<Status>, Seq<char>>(v@),
            Err(m) => tick_spec(status_list@, now) == Err::<Seq<Status>, Seq<char>>(m@),
        },
{
    match is_schedule_running(&status_list) {
        Ok(true) => Ok(Vec::new()),
        Ok(false) => Ok(due_schedules(status_list, now)),
        Err(e) => Err(e),
    }
}

/// One pass of the scheduler at `now`, or `None` when a status that is
/// active and for today has a start time that does not read as a date and
/// time while no job is in progress.
pub fn try_schedule_tick(status_list: Vec<Status>, now: DateTime) -> (r: Option<Result<Vec<Status>, String>>)
    requires
        now.wf(),
    ensures
        r is None <==> (running_spec(status_list@) == Ok::<bool, Seq<char>>(false)
            && !starts_readable(status_list@, now)),
        r matches Some(t) ==> match t {
            Ok(v) => tick_spec(status_list@, now) == Ok::<Seq<Status>, Seq<char>>(v@),
            Err(m) => tick_spec(status_list@, now) == Err::<Seq<Status>, Seq<char>>(m@),
        },
{
    let running = is_schedule_running(&status_list);
    let readable = starts_readable_exec(&status_list, &now);
    match running {
        Ok(false) => {
            if !readable {
                return None;
            }
        },
        _ => {},
    }
    Some(schedule_tick(status_list, now))
}

/// Start times, compared as text, order statuses as a strict weak order.
pub proof fn lemma_start_order_is_strict_weak()
    ensures
        strict_weak_order::<Status>(),
{
    assert forall|a: Status| !(#[trigger] a.ranks_before(&a)) by {
        lemma_text_before_irreflexive(a.schedule_start_time@);
    }
    assert forall|a: Status, b: Status, c: Status|
        #![trigger a.ranks_before(&b), b.ranks_before(&c)]
        a.ranks_before(&b) && b.ranks_before(&c) implies a.ranks_before(&c) by {
        lemma_text_before_transitive(
            a.schedule_start_time@,
            b.schedule_start_time@,
            c.schedule_start_time@,
        );
    }
    assert forall|a: Status, b: Status, c: Status|
        #![trigger a.ranks_before(&b), a.ranks_before(&c), c.ranks_before(&b)]
        a.ranks_before(&b) implies a.ranks_before(&c) || c.ranks_before(&b) by {
        let (x, y, z) = (a.schedule_start_time@, b.schedule_start_time@, c.schedule_start_time@);
        lemma_text_before_total(x, z);
        if text_before(z, x) {
            lemma_text_before_transitive(z, x, y);
        }
    }
}

proof fn lemma_keep_due_members(s: Seq<Status>, now: DateTime)
    ensures
        forall|k: int| 0 <= k < keep_due(s, now).len() ==> is_due(#[trigger] keep_due(s, now)[k], now),
        keep_due(s, now).to_multiset().subset_of(s.to_multiset()),
    decreases s.len(),
{
    broadcast use vstd::seq_lib::group_to_multiset_ensures;
    if s.len() > 0 {
        lemma_keep_due_members(s.drop_last(), now);
        let p = keep_due(s.drop_last(), now);
        assert(s.drop_last().push(s.last()) =~= s);
        assert forall|k: int| 0 <= k < keep_due(s, now).len() implies is_due(#[trigger] keep_due(s, now)[k], now) by {
            if k < p.len() {
                assert(keep_due(s, now)[k] == p[k]);
            }
        }
    }
}

/// What one pass picks when no job is running: only due statuses, each
/// taken from the list, in order of start time.
pub proof fn lemma_due_schedules_ordered(s: Seq<Status>, now: DateTime)
    ensures
        is_ordered(stable_sorted(keep_due(s, now))),
        forall|k: int| 0 <= k < stable_sorted(keep_due(s, now)).len() ==> is_due(
            #[trigger] stable_sorted(keep_due(s, now))[k],
            now,
        ),
        stable_sorted(keep_due(s, now)).to_multiset().subset_of(s.to_multiset()),
{
    lemma_start_order_is_strict_weak();
    lemma_stable_sorted_ordered(keep_due(s, now));
    lemma_keep_due_members(s, now);
    let r = stable_sorted(keep_due(s, now));
    assert forall|k: int| 0 <= k < r.len() implies is_due(#[trigger] r[k], now) by {
        broadcast use vstd::seq_lib::group_to_multiset_ensures;
        assert(r.to_multiset().count(r[k]) > 0);
        assert(keep_due(s, now).to_multiset().count(r[k]) > 0);
        assert(keep_due(s, now).contains(r[k]));
    }
}

proof fn lemma_keep_due_complete(s: Seq<Status>, now: DateTime)
    ensures
        forall|k: int| 0 <= k < s.len() && is_due(#[trigger] s[k], now) ==> keep_due(s, now).contains(s[k]),
    decreases s.len(),
{
    if s.len() > 0 {
        let p = s.drop_last();
        lemma_keep_due_complete(p, now);
        assert forall|k: int| 0 <= k < s.len() && is_due(#[trigger] s[k], now) implies keep_due(s, now).contains(s[k]) by {
            if k < s.len() - 1 {
                assert(s[k] == p[k]);
                let j = choose|j: int| 0 <= j < keep_due(p, now).len() && keep_due(p, now)[j] == s[k];
                if is_due(s.last(), now) {
                    assert(keep_due(s, now)[j] == s[k]);
                }
            } else {
                assert(s[k] == s.last());
                assert(keep_due(s, now).last() == s[k]);
            }
        }
    }
}

/// What one pass picks when no job is running: exactly the statuses of the
/// list whose schedule is active, lists today's weekday by its three-letter
/// name, and whose start reads as an instant earlier than `now`; in text
/// order of their start times, no status's start text coming before that of
/// one listed earlier.
pub proof fn lemma_due_schedules_law(s: Seq<Status>, now: DateTime)
    ensures
        forall|k: int|
            0 <= k < stable_sorted(keep_due(s, now)).len() ==> {
                let st = #[trigger] stable_sorted(keep_due(s, now))[k];
                &&& st.schedule_status
                &&& occurs_in(st.schedule_days_of_week@, weekday_of(now.date).short_name())
                &&& chrono_parse_datetime(st.schedule_start_time@) matches Ok(p) && (p.0 < now.date.days || (
                p.0 == now.date.days && (p.1 < now.time.secs || (p.1 == now.time.secs && p.2
                    < now.time.nanos))))
                &&& s.contains(st)
            },
        forall|i: int, j: int|
            0 <= i < j < stable_sorted(keep_due(s, now)).len() ==> !text_before(
                (#[trigger] stable_sorted(keep_due(s, now))[j]).schedule_start_time@,
                (#[trigger] stable_sorted(keep_due(s, now))[i]).schedule_start_time@,
            ),
        forall|k: int|
            0 <= k < s.len() && (#[trigger] s[k]).schedule_status && occurs_in(
                s[k].schedule_days_of_week@,
                weekday_of(now.date).short_name(),
            ) && (chrono_parse_datetime(s[k].schedule_start_time@) matches Ok(p) && (p.0 < now.date.days
                || (p.0 == now.date.days && (p.1 < now.time.secs || (p.1 == now.time.secs && p.2
                < now.time.nanos))))) ==> stable_sorted(keep_due(s, now)).contains(s[k]),
{
    broadcast use vstd::seq_lib::group_to_multiset_ensures;
    lemma_due_schedules_ordered(s, now);
    lemma_keep_due_complete(s, now);
    lemma_start_order_is_strict_weak();
    lemma_stable_sorted_ordered(keep_due(s, now));
    let r = stable_sorted(keep_due(s, now));
    assert forall|k: int| 0 <= k < r.len() implies s.contains(#[trigger] r[k]) by {
        assert(r.to_multiset().count(r[k]) > 0);
        assert(s.to_multiset().count(r[k]) > 0);
    }
    assert forall|k: int| 0 <= k < s.len() && is_due(#[trigger] s[k], now) implies r.contains(s[k]) by {
        assert(keep_due(s, now).contains(s[k]));
        assert(keep_due(s, now).to_multiset().count(s[k]) > 0);
        assert(r.to_multiset().count(s[k]) > 0);
    }
}

} // verus!
