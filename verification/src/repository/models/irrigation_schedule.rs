//! Irrigation schedules: which hoses run, when, and on which days. Hoses and
//! days are kept as comma separated text.
use vstd::prelude::*;

use crate::calendar::{DateTime, Time};
use crate::repository::models::garden_schedule::{join_commas, lemma_join_push, lemma_split_join};
use crate::text::{decimal, digit_char, push_signed_decimal, signed_decimal, split_commas};

verus! {

#[derive(Clone, Copy, Debug, PartialEq, Eq, Structural)]
pub enum DayOfWeek {
    Monday,
    Tuesday,
    Wednesday,
    Thursday,
    Friday,
    Saturday,
    Sunday,
}

pub open spec fn day_name(d: DayOfWeek) -> Seq<char> {
    match d {
        DayOfWeek::Monday => "Monday"@,
        DayOfWeek::Tuesday => "Tuesday"@,
        DayOfWeek::Wednesday => "Wednesday"@,
        DayOfWeek::Thursday => "Thursday"@,
        DayOfWeek::Friday => "Friday"@,
        DayOfWeek::Saturday => "Saturday"@,
        DayOfWeek::Sunday => "Sunday"@,
    }
}

impl DayOfWeek {
    /// The day's English name.
    pub fn as_str(&self) -> (s: &'static str)
        ensures
            s@ == day_name(*self),
    {
        match self {
            DayOfWeek::Monday => "Monday",
            DayOfWeek::Tuesday => "Tuesday",
            DayOfWeek::Wednesday => "Wednesday",
            DayOfWeek::Thursday => "Thursday",
            DayOfWeek::Friday => "Friday",
            DayOfWeek::Saturday => "Saturday",
            DayOfWeek::Sunday => "Sunday",
        }
    }
}

pub struct IrrigationSchedule {
    pub id: i32,
    pub active: bool,
    pub name: String,
    pub duration: i32,
    pub start_time: Time,
    pub days_of_week: String,
    pub hoses: String,
    pub created_at: DateTime,
    pub updated_at: DateTime,
}

pub struct CreateIrrigationScheduleParams {
    pub active: bool,
    pub days_of_week: Vec<DayOfWeek>,
    pub hoses: Vec<i32>,
    pub name: String,
    pub duration: i32,
    pub start_time: Time,
}

pub struct UpdateIrrigationScheduleParams {
    pub active: Option<bool>,
    pub days_of_week: Option<Vec<DayOfWeek>>,
    pub hoses: Option<Vec<i32>>,
    pub name: Option<String>,
    pub duration: Option<i32>,
    pub start_time: Option<Time>,
}

pub open spec fn hoses_text(hoses: Seq<i32>) -> Seq<char> {
    join_commas(hoses.map_values(|h: i32| signed_decimal(h as int)))
}

pub open spec fn day_names_text(days: Seq<DayOfWeek>) -> Seq<char> {
    join_commas(days.map_values(|d: DayOfWeek| day_name(d)))
}

proof fn lemma_decimal_no_comma(n: nat)
    ensures
        !decimal(n).contains(','),
    decreases n,
{
    if n >= 10 {
        lemma_decimal_no_comma(n / 10);
        let p = decimal(n / 10);
        let d = decimal(n);
        assert(d == p.push(digit_char((n % 10) as int)));
        if d.contains(',') {
            let i = choose|i: int| 0 <= i < d.len() && d[i] == ',';
            if i < p.len() {
                assert(p[i] == ',');
            }
        }
    } else {
        let d = decimal(n);
        if d.contains(',') {
            let i = choose|i: int| 0 <= i < d.len() && d[i] == ',';
            assert(i == 0);
        }
    }
}

/// The stored hose column splits back, at its commas, into the decimal text
/// of each hose written.
pub proof fn lemma_hoses_text_fields(hoses: Seq<i32>)
    requires
        hoses.len() >= 1,
    ensures
        split_commas(hoses_text(hoses)) == hoses.map_values(|h: i32| signed_decimal(h as int)),
{
    let parts = hoses.map_values(|h: i32| signed_decimal(h as int));
    assert forall|k: int| 0 <= k < parts.len() implies !(#[trigger] parts[k]).contains(',') by {
        let h = hoses[k] as int;
        let p = parts[k];
        assert(p == signed_decimal(h));
        let m: nat = if h < 0 { (-h) as nat } else { h as nat };
        lemma_decimal_no_comma(m);
        if p.contains(',') {
            let i = choose|i: int| 0 <= i < p.len() && p[i] == ',';
            if h < 0 {
                assert(p == seq!['-'] + decimal(m));
                if i > 0 {
                    assert(decimal(m)[i - 1] == ',');
                }
            } else {
                assert(decimal(m)[i] == ',');
            }
        }
    }
    lemma_split_join(parts);
}

/// The stored day column splits back, at its commas, into the name of each
/// day written.
pub proof fn lemma_day_names_text_fields(days: Seq<DayOfWeek>)
    requires
        days.len() >= 1,
    ensures
        split_commas(day_names_text(days)) == days.map_values(|d: DayOfWeek| day_name(d)),
{
    let parts = days.map_values(|d: DayOfWeek| day_name(d));
    assert forall|k: int| 0 <= k < parts.len() implies !(#[trigger] parts[k]).contains(',') by {
        let p = parts[k];
        assert(p == day_name(days[k]));
        reveal_strlit("Monday");
        reveal_strlit("Tuesday");
        reveal_strlit("Wednesday");
        reveal_strlit("Thursday");
        reveal_strlit("Friday");
        reveal_strlit("Saturday");
        reveal_strlit("Sunday");
        if p.contains(',') {
            let i = choose|i: int| 0 <= i < p.len() && p[i] == ',';
            assert(0 <= i < 9);
        }
    }
    lemma_split_join(parts);
}

/// Hose numbers in decimal, joined by commas.
pub fn hoses_to_csv(hoses: &[i32]) -> (r: String)
    ensures
        r@ == hoses_text(hoses@),
{
    let mut out = String::new();
    let mut i: usize = 0;
    assert(hoses@.take(0).map_values(|h: i32| signed_decimal(h as int)) =~= Seq::<Seq<char>>::empty());
    while i < hoses.len()
        invariant
            i <= hoses@.len(),
            out@ == join_commas(hoses@.take(i as int).map_values(|h: i32| signed_decimal(h as int))),
        decreases hoses@.len() - i,
    {
        proof { reveal_strlit(","); }
        let h = hoses[i];
        let ghost before = hoses@.take(i as int).map_values(|h: i32| signed_decimal(h as int));
        assert(hoses@.take(i + 1).map_values(|h: i32| signed_decimal(h as int)) =~= before.push(
            signed_decimal(h as int),
        ));
        proof { lemma_join_push(before, signed_decimal(h as int)); }
        let ghost old_out = out@;
        if i > 0 {
            out.append(",");
        }
        let ghost sep = out@;
        assert(i > 0 ==> sep == old_out + seq![',']);
        assert(i == 0 ==> sep == old_out);
        push_signed_decimal(&mut out, h);
        assert(before.len() == i);
        assert(i == 0 ==> old_out =~= Seq::<char>::empty());
        assert(out@ =~= sep + signed_decimal(h as int));
        i = i + 1;
    }
    assert(hoses@.take(hoses@.len() as int) =~= hoses@);
    out
}

/// Day names joined by commas.
pub fn day_names_to_csv(days: &[DayOfWeek]) -> (r: String)
    ensures
        r@ == day_names_text(days@),
{
    let mut out = String::new();
    let mut i: usize = 0;
    assert(days@.take(0).map_values(|d: DayOfWeek| day_name(d)) =~= Seq::<Seq<char>>::empty());
    while i < days.len()
        invariant
            i <= days@.len(),
            out@ == join_commas(days@.take(i as int).map_values(|d: DayOfWeek| day_name(d))),
        decreases days@.len() - i,
    {
        proof { reveal_strlit(","); }
        let d = days[i];
        let ghost before = days@.take(i as int).map_values(|d: DayOfWeek| day_name(d));
        assert(days@.take(i + 1).map_values(|d: DayOfWeek| day_name(d)) =~= before.push(day_name(d)));
        proof { lemma_join_push(before, day_name(d)); }
        let ghost old_out = out@;
        if i > 0 {
            out.append(",");
        }
        let ghost sep = out@;
        assert(i > 0 ==> sep == old_out + seq![',']);
        assert(i == 0 ==> sep == old_out);
        out.append(d.as_str());
        assert(before.len() == i);
        assert(i == 0 ==> old_out =~= Seq::<char>::empty());
        assert(out@ =~= sep + day_name(d));
        i = i + 1;
    }
    assert(days@.take(days@.len() as int) =~= days@);
    out
}

/// The text columns a new schedule is stored with: its hoses and its days,
/// each comma separated.
pub fn schedule_columns(hoses: &[i32], days: &[DayOfWeek]) -> (r: (String, String))
    ensures
        r.0@ == hoses_text(hoses@),
        r.1@ == day_names_text(days@),
{
    (hoses_to_csv(hoses), day_names_to_csv(days))
}

impl IrrigationSchedule {
    /// The schedule after an edit: each value given replaces its column
    /// (hoses and days written as comma separated text); the rest is kept.
    pub fn apply_update(
        self,
        hoses: Option<Vec<i32>>,
        name: Option<String>,
        start_time: Option<Time>,
        days_of_week: Option<Vec<DayOfWeek>>,
    ) -> (r: IrrigationSchedule)
        ensures
            r.id == self.id,
            r.active == self.active,
            r.duration == self.duration,
            r.created_at == self.created_at,
            r.updated_at == self.updated_at,
            r.hoses@ == (match hoses {
                Some(h) => hoses_text(h@),
                None => self.hoses@,
            }),
            r.name@ == (match name {
                Some(n) => n@,
                None => self.name@,
            }),
            r.start_time == (match start_time {
                Some(t) => t,
                None => self.start_time,
            }),
            r.days_of_week@ == (match days_of_week {
                Some(d) => day_names_text(d@),
                None => self.days_of_week@,
            }),
    {
        let mut s = self;
        match hoses {
            Some(h) => {
                s.hoses = hoses_to_csv(h.as_slice());
            },
            None => {},
        }
        match name {
            Some(n) => {
                s.name = n;
            },
            None => {},
        }
        match start_time {
            Some(t) => {
                s.start_time = t;
            },
            None => {},
        }
        match days_of_week {
            Some(d) => {
                s.days_of_week = day_names_to_csv(d.as_slice());
            },
            None => {},
        }
        s
    }
}

} // verus!
