//! Which irrigation schedules are due to run.
use vstd::prelude::*;

use crate::calendar::{weekday_of, DateTime};
use crate::hydro::schedule::ScheduleStatus;
use crate::sort::{
    is_ordered, lemma_stable_sorted_ordered, stable_sort, stable_sorted, strict_weak_order, Ranked,
};
use crate::text::{contains_text, occurs_in};

verus! {

/// The schedule is active,
/// lists today's weekday (by its three-letter name), and its start time has
/// passed today.
pub open spec fn runs_now(st: ScheduleStatus, now: DateTime) -> bool {
    &&& st.schedule.active
    &&& occurs_in(st.schedule.days_of_week@, weekday_of(now.date).short_name())
    &&& st.schedule.start_time.spec_before(now.time)
}

/// A schedule is due when it runs now and has not been queued already
/// today: its last event, if any, was not created today.
pub open spec fn is_due(st: ScheduleStatus, now: DateTime) -> bool {
    &&& runs_now(st, now)
    &&& match st.last_event {
        None => true,
        Some(e) => e.created_at.date != now.date,
    }
}

/// The next schedule in line is picked from the due ones.
pub open spec fn is_next(st: ScheduleStatus, now: DateTime) -> bool {
    is_due(st, now)
}

pub open spec fn keep_due(s: Seq<ScheduleStatus>, now: DateTime) -> Seq<ScheduleStatus>
    decreases s.len(),
{
    if s.len() == 0 {
        Seq::empty()
    } else if is_due(s.last(), now) {
        keep_due(s.drop_last(), now).push(s.last())
    } else {
        keep_due(s.drop_last(), now)
    }
}

pub open spec fn keep_next(s: Seq<ScheduleStatus>, now: DateTime) -> Seq<ScheduleStatus>
    decreases s.len(),
{
    if s.len() == 0 {
        Seq::empty()
    } else if is_next(s.last(), now) {
        keep_next(s.drop_last(), now).push(s.last())
    } else {
        keep_next(s.drop_last(), now)
    }
}

fn runs_now_exec(st: &ScheduleStatus, now: &DateTime) -> (r: bool)
    requires
        now.wf(),
    ensures
        r == runs_now(*st, *now),
{
    let day = now.date.weekday();
    st.schedule.active && contains_text(st.schedule.days_of_week.as_str(), day.short_name_str())
        && st.schedule.start_time.before(&now.time)
}

fn is_due_exec(st: &ScheduleStatus, now: &DateTime) -> (r: bool)
    requires
        now.wf(),
    ensures
        r == is_due(*st, *now),
{
    if !runs_now_exec(st, now) {
        return false;
    }
    match &st.last_event {
        None => true,
        Some(e) => e.created_at.date.days != now.date.days,
    }
}

fn is_next_exec(st: &ScheduleStatus, now: &DateTime) -> (r: bool)
    requires
        now.wf(),
    ensures
        r == is_next(*st, *now),
{
    is_due_exec(st, now)
}

/// The due statuses, by start time; statuses with the same start time keep
/// their order.
pub fn due_statuses(status_list: Vec<ScheduleStatus>, now: DateTime) -> (r: Vec<ScheduleStatus>)
    requires
        now.wf(),
    ensures
        r@ == stable_sorted(keep_due(status_list@, now)),
        forall|k: int| 0 <= k < r@.len() ==> (#[trigger] r@[k]).schedule.active,
        forall|i: int, j: int|
            0 <= i < j < r@.len() ==> !((#[trigger] r@[j]).schedule.start_time.secs < (
            #[trigger] r@[i]).schedule.start_time.secs || (r@[j].schedule.start_time.secs
                == r@[i].schedule.start_time.secs && r@[j].schedule.start_time.nanos
                < r@[i].schedule.start_time.nanos)),
{
    let ghost orig = status_list@;
    let mut rest = status_list;
    let mut kept: Vec<ScheduleStatus> = Vec::new();
    let mut i: usize = 0;
    let n = rest.len();
    while rest.len() > 0
        invariant
            now.wf(),
            n == orig.len(),
            i + rest@.len() == n,
            rest@ == orig.skip(i as int),
            kept@ == keep_due(orig.take(i as int), now),
        decreases rest@.len(),
    {
        let st = rest.remove(0);
        assert(orig.skip(i as int)[0] == orig[i as int]);
        assert(orig.skip(i as int).remove(0) =~= orig.skip(i + 1));
        assert(orig.take(i + 1).drop_last() =~= orig.take(i as int));
        assert(orig.take(i + 1).last() == orig[i as int]);
        if is_due_exec(&st, &now) {
            kept.push(st);
        }
        i = i + 1;
    }
    assert(orig.take(n as int) =~= orig);
    proof {
        lemma_due_statuses_law(orig, now);
    }
    stable_sort(kept)
}

/// The next status in line: of the statuses in line, the one with the
/// earliest start time, the first listed among equals.
pub fn next_due_status(status_list: Vec<ScheduleStatus>, now: DateTime) -> (r: ScheduleStatus)
    requires
        now.wf(),
        keep_next(status_list@, now).len() > 0,
    ensures
        r == stable_sorted(keep_next(status_list@, now))[0],
        r.schedule.active,
        forall|k: int|
            0 <= k < status_list@.len() && (#[trigger] status_list@[k]).schedule.active && occurs_in(
                status_list@[k].schedule.days_of_week@,
                weekday_of(now.date).short_name(),
            ) && (status_list@[k].schedule.start_time.secs < now.time.secs || (
            status_list@[k].schedule.start_time.secs == now.time.secs
                && status_list@[k].schedule.start_time.nanos < now.time.nanos)) && (
            status_list@[k].last_event matches Some(e) ==> e.created_at.date != now.date) ==> !(
            status_list@[k].schedule.start_time.secs < r.schedule.start_time.secs || (
            status_list@[k].schedule.start_time.secs == r.schedule.start_time.secs
                && status_list@[k].schedule.start_time.nanos < r.schedule.start_time.nanos)),
{
    let ghost orig = status_list@;
    let mut rest = status_list;
    let mut kept: Vec<ScheduleStatus> = Vec::new();
    let mut i: usize = 0;
    let n = rest.len();
    while rest.len() > 0
        invariant
            now.wf(),
            n == orig.len(),
            i + rest@.len() == n,
            rest@ == orig.skip(i as int),
            kept@ == keep_next(orig.take(i as int), now),
        decreases rest@.len(),
    {
        let st = rest.remove(0);
        assert(orig.skip(i as int)[0] == orig[i as int]);
        assert(orig.skip(i as int).remove(0) =~= orig.skip(i + 1));
        assert(orig.take(i + 1).drop_last() =~= orig.take(i as int));
        assert(orig.take(i + 1).last() == orig[i as int]);
        if is_next_exec(&st, &now) {
            kept.push(st);
        }
        i = i + 1;
    }
    assert(orig.take(n as int) =~= orig);
    let mut sorted = stable_sort(kept);
    proof {
        lemma_time_order_is_strict_weak();
        lemma_stable_sorted_ordered(keep_next(orig, now));
        lemma_next_due_status_law(orig, now);
    }
    sorted.remove(0)
}

/// Start times order statuses as a strict weak order.
pub proof fn lemma_time_order_is_strict_weak()
    ensures
        strict_weak_order::<ScheduleStatus>(),
{
}

proof fn lemma_keep_due_members(s: Seq<ScheduleStatus>, now: DateTime)
    ensures
        forall|k: int| 0 <= k < keep_due(s, now).len() ==> is_due(#[trigger] keep_due(s, now)[k], now),
        keep_due(s, now).to_multiset().subset_of(s.to_multiset()),
    decreases s.len(),
{
    broadcast use vstd::seq_lib::group_to_multiset_ensures;
    if s.len() > 0 {
        lemma_keep_due_members(s.drop_last(), now);
        let p = keep_due(s.drop_last(), now);
        assert(s.drop_last().push(s.last()) =~= s);
        assert forall|k: int| 0 <= k < keep_due(s, now).len() implies is_due(#[trigger] keep_due(s, now)[k], now) by {
            if k < p.len() {
                assert(keep_due(s, now)[k] == p[k]);
            }
        }
    }
}

/// The due statuses are all due, come from the list, and are in order of
/// start time.
pub proof fn lemma_due_statuses_ordered(s: Seq<ScheduleStatus>, now: DateTime)
    ensures
        is_ordered(stable_sorted(keep_due(s, now))),
        forall|k: int| 0 <= k < stable_sorted(keep_due(s, now)).len() ==> is_due(
            #[trigger] stable_sorted(keep_due(s, now))[k],
            now,
        ),
        stable_sorted(keep_due(s, now)).to_multiset().subset_of(s.to_multiset()),
{
    lemma_time_order_is_strict_weak();
    lemma_stable_sorted_ordered(keep_due(s, now));
    lemma_keep_due_members(s, now);
    let r = stable_sorted(keep_due(s, now));
    assert forall|k: int| 0 <= k < r.len() implies is_due(#[trigger] r[k], now) by {
        broadcast use vstd::seq_lib::group_to_multiset_ensures;
        assert(r.to_multiset().count(r[k]) > 0);
        assert(keep_due(s, now).to_multiset().count(r[k]) > 0);
        assert(keep_due(s, now).contains(r[k]));
    }
}

proof fn lemma_keep_due_complete(s: Seq<ScheduleStatus>, now: DateTime)
    ensures
        forall|k: int| 0 <= k < s.len() && is_due(#[trigger] s[k], now) ==> keep_due(s, now).contains(s[k]),
    decreases s.len(),
{
    if s.len() > 0 {
        let p = s.drop_last();
        lemma_keep_due_complete(p, now);
        assert forall|k: int| 0 <= k < s.len() && is_due(#[trigger] s[k], now) implies keep_due(s, now).contains(s[k]) by {
            if k < s.len() - 1 {
                assert(s[k] == p[k]);
                let j = choose|j: int| 0 <= j < keep_due(p, now).len() && keep_due(p, now)[j] == s[k];
                if is_due(s.last(), now) {
                    assert(keep_due(s, now)[j] == s[k]);
                }
            } else {
                assert(s[k] == s.last());
                assert(keep_due(s, now).last() == s[k]);
            }
        }
    }
}

/// What picking the due statuses at `now` gives: exactly the statuses of the
/// list whose schedule is active, lists today's weekday by its three-letter
/// name, starts earlier in the day than `now`, and has no event created
/// today; and they come in order of start time of day, no status starting
/// earlier than one before it.
pub proof fn lemma_due_statuses_law(s: Seq<ScheduleStatus>, now: DateTime)
    ensures
        forall|k: int|
            0 <= k < stable_sorted(keep_due(s, now)).len() ==> {
                let st = #[trigger] stable_sorted(keep_due(s, now))[k];
                &&& st.schedule.active
                &&& occurs_in(st.schedule.days_of_week@, weekday_of(now.date).short_name())
                &&& (st.schedule.start_time.secs < now.time.secs || (st.schedule.start_time.secs
                    == now.time.secs && st.schedule.start_time.nanos < now.time.nanos))
                &&& (st.last_event matches Some(e) ==> e.created_at.date != now.date)
                &&& s.contains(st)
            },
        forall|i: int, j: int|
            0 <= i < j < stable_sorted(keep_due(s, now)).len() ==> !({
                let a = #[trigger] stable_sorted(keep_due(s, now))[j].schedule.start_time;
                let b = #[trigger] stable_sorted(keep_due(s, now))[i].schedule.start_time;
                a.secs < b.secs || (a.secs == b.secs && a.nanos < b.nanos)
            }),
        forall|k: int|
            0 <= k < s.len() && (#[trigger] s[k]).schedule.active && occurs_in(
                s[k].schedule.days_of_week@,
                weekday_of(now.date).short_name(),
            ) && (s[k].schedule.start_time.secs < now.time.secs || (s[k].schedule.start_time.secs
                == now.time.secs && s[k].schedule.start_time.nanos < now.time.nanos)) && (
            s[k].last_event matches Some(e) ==> e.created_at.date != now.date) ==> stable_sorted(
                keep_due(s, now),
            ).contains(s[k]),
{
    broadcast use vstd::seq_lib::group_to_multiset_ensures;
    lemma_due_statuses_ordered(s, now);
    lemma_keep_due_complete(s, now);
    lemma_time_order_is_strict_weak();
    lemma_stable_sorted_ordered(keep_due(s, now));
    let r = stable_sorted(keep_due(s, now));
    assert forall|k: int| 0 <= k < r.len() implies s.contains(#[trigger] r[k]) by {
        assert(r.to_multiset().count(r[k]) > 0);
        assert(s.to_multiset().count(r[k]) > 0);
    }
    assert forall|k: int|
        0 <= k < s.len() && is_due(#[trigger] s[k], now) implies r.contains(s[k]) by {
        assert(keep_due(s, now).contains(s[k]));
        assert(keep_due(s, now).to_multiset().count(s[k]) > 0);
        assert(r.to_multiset().count(s[k]) > 0);
    }
}

/// The next status in line is a due one, and no due status of the list
/// starts earlier in the day.
pub proof fn lemma_next_due_status_law(s: Seq<ScheduleStatus>, now: DateTime)
    requires
        keep_next(s, now).len() > 0,
    ensures
        ({
            let r = stable_sorted(keep_next(s, now))[0];
            &&& r.schedule.active
            &&& occurs_in(r.schedule.days_of_week@, weekday_of(now.date).short_name())
            &&& (r.schedule.start_time.secs < now.time.secs || (r.schedule.start_time.secs == now.time.secs
                && r.schedule.start_time.nanos < now.time.nanos))
            &&& (r.last_event matches Some(e) ==> e.created_at.date != now.date)
            &&& s.contains(r)
            &&& forall|k: int|
                0 <= k < s.len() && (#[trigger] s[k]).schedule.active && occurs_in(
                    s[k].schedule.days_of_week@,
                    weekday_of(now.date).short_name(),
                ) && (s[k].schedule.start_time.secs < now.time.secs || (s[k].schedule.start_time.secs
                    == now.time.secs && s[k].schedule.start_time.nanos < now.time.nanos)) && (
                s[k].last_event matches Some(e) ==> e.created_at.date != now.date) ==> !(
                s[k].schedule.start_time.secs < r.schedule.start_time.secs || (s[k].schedule.start_time.secs
                    == r.schedule.start_time.secs && s[k].schedule.start_time.nanos
                    < r.schedule.start_time.nanos))
        }),
{
    lemma_keep_next_is_keep_due(s, now);
    lemma_due_statuses_law(s, now);
    lemma_time_order_is_strict_weak();
    lemma_stable_sorted_ordered(keep_due(s, now));
    let q = stable_sorted(keep_due(s, now));
    assert(q.len() > 0);
    let r = q[0];
    assert forall|k: int|
        0 <= k < s.len() && (#[trigger] s[k]).schedule.active && occurs_in(
            s[k].schedule.days_of_week@,
            weekday_of(now.date).short_name(),
        ) && (s[k].schedule.start_time.secs < now.time.secs || (s[k].schedule.start_time.secs
            == now.time.secs && s[k].schedule.start_time.nanos < now.time.nanos)) && (
        s[k].last_event matches Some(e) ==> e.created_at.date != now.date) implies !(
        s[k].schedule.start_time.secs < r.schedule.start_time.secs || (s[k].schedule.start_time.secs
            == r.schedule.start_time.secs && s[k].schedule.start_time.nanos < r.schedule.start_time.nanos)) by {
        assert(q.contains(s[k]));
        let j = choose|j: int| 0 <= j < q.len() && q[j] == s[k];
        if j > 0 {
            assert(!q[j].ranks_before(&q[0]));
        }
    }
}

proof fn lemma_keep_next_is_keep_due(s: Seq<ScheduleStatus>, now: DateTime)
    ensures
        keep_next(s, now) == keep_due(s, now),
    decreases s.len(),
{
    if s.len() > 0 {
        lemma_keep_next_is_keep_due(s.drop_last(), now);
    }
}

} // verus!
