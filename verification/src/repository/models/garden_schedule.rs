//! Garden watering schedules. Start times and weekdays are kept as comma
//! separated text (`06:00,18:30` and `Mon,Wed,Fri`), the way they are stored.
use vstd::prelude::*;

use crate::calendar::{
    hm_value, is_hm_text, parse_time, parse_weekday, parsed_time_spec, parsed_weekday_spec, time_of_pair,
    DateTime, Time, Weekday,
};
use crate::text::{
    digit_char, lemma_split_commas_nonempty, plain_char, push_two_digits, split_commas, split_commas_exec, trim,
    trimmed,
};

verus! {

pub struct GardenSchedule {
    pub id: i32,
    pub name: String,
    pub active: bool,
    pub start_times: String,
    pub days_of_week: String,
    pub duration_secs: i32,
    pub created_at: DateTime,
    pub updated_at: DateTime,
    pub skip_on_rain: bool,
}

/// The columns of a schedule about to be inserted.
pub struct NewGardenSchedule {
    pub name: String,
    pub active: bool,
    pub start_times: String,
    pub days_of_week: String,
    pub duration_secs: i32,
    pub skip_on_rain: bool,
}

/// What a create request takes for `active` and `skip_on_rain` when it gives
/// none: new schedules are active and skip for rain unless told otherwise.
pub fn default_true() -> (r: bool)
    ensures
        r,
{
    true
}

/// What a client sends to create a schedule.
pub struct CreateGardenScheduleParams {
    pub name: String,
    pub active: bool,
    pub start_times: Vec<Time>,
    pub days_of_week: Vec<Weekday>,
    pub duration_secs: i32,
    pub skip_on_rain: bool,
}

/// What a client sends to change a schedule; `None` leaves a column as it is.
pub struct UpdateGardenScheduleParams {
    pub name: Option<String>,
    pub active: Option<bool>,
    pub start_times: Option<Vec<Time>>,
    pub days_of_week: Option<Vec<Weekday>>,
    pub duration_secs: Option<i32>,
    pub skip_on_rain: Option<bool>,
}

/// The times that the fields of a start-time list name, in order: each field
/// is trimmed, empty fields are passed over, and a field is read as `HH:MM`
/// or else `HH:MM:SS`; fields that read as neither are dropped.
pub open spec fn times_of_fields(fields: Seq<Seq<char>>) -> Seq<Time>
    decreases fields.len(),
{
    if fields.len() == 0 {
        Seq::empty()
    } else {
        let prev = times_of_fields(fields.drop_last());
        let t = trimmed(fields.last());
        if t.len() == 0 {
            prev
        } else {
            match parsed_time_spec(t) {
                Some(x) => prev.push(x),
                None => prev,
            }
        }
    }
}

pub open spec fn csv_times(s: Seq<char>) -> Seq<Time> {
    times_of_fields(split_commas(s))
}

/// The weekdays that the fields of a weekday list name, in order: each field
/// is trimmed and read as a weekday name; fields that do not read are dropped.
pub open spec fn days_of_fields(fields: Seq<Seq<char>>) -> Seq<Weekday>
    decreases fields.len(),
{
    if fields.len() == 0 {
        Seq::empty()
    } else {
        let prev = days_of_fields(fields.drop_last());
        match parsed_weekday_spec(trimmed(fields.last())) {
            Some(d) => prev.push(d),
            None => prev,
        }
    }
}

pub open spec fn csv_days(s: Seq<char>) -> Seq<Weekday> {
    days_of_fields(split_commas(s))
}

/// Every field is a time written `HH:MM`.
pub open spec fn all_hm_fields(fields: Seq<Seq<char>>) -> bool {
    forall|k: int| 0 <= k < fields.len() ==> is_hm_text(#[trigger] fields[k])
}

/// The times that `HH:MM` fields name, in order.
pub open spec fn hm_times(fields: Seq<Seq<char>>) -> Seq<Time> {
    fields.map_values(|f: Seq<char>| time_of_pair(hm_value(f)))
}

/// Parses a comma separated list of start times. A list whose every field is
/// written `HH:MM` reads as the times those fields name.
pub fn parse_times_csv(csv: &str) -> (r: Vec<Time>)
    ensures
        r@ == csv_times(csv@),
        forall|k: int| 0 <= k < r@.len() ==> (#[trigger] r@[k]).wf(),
        all_hm_fields(split_commas(csv@)) ==> r@ == hm_times(split_commas(csv@)),
{
    let fields = split_commas_exec(csv);
    let ghost fs = split_commas(csv@);
    let mut out: Vec<Time> = Vec::new();
    let mut i: usize = 0;
    while i < fields.len()
        invariant
            fields@.len() == fs.len(),
            forall|k: int| 0 <= k < fields@.len() ==> (#[trigger] fields@[k])@ == fs[k],
            i <= fields@.len(),
            out@ == times_of_fields(fs.take(i as int)),
            forall|k: int| 0 <= k < out@.len() ==> (#[trigger] out@[k]).wf(),
            all_hm_fields(fs) ==> out@ == hm_times(fs.take(i as int)),
        decreases fields@.len() - i,
    {
        assert(fs.take(i + 1).drop_last() =~= fs.take(i as int));
        assert(fs.take(i + 1).last() == fields@[i as int]@);
        let ghost f = fields@[i as int]@;
        let s = trim(fields[i]);
        proof {
            if all_hm_fields(fs) {
                assert(is_hm_text(fs[i as int]));
                assert(f.last() == f[4]);
            }
        }
        if s.unicode_len() != 0 {
            match parse_time(s) {
                Some(t) => out.push(t),
                None => {},
            }
        }
        proof {
            if all_hm_fields(fs) {
                assert(hm_times(fs.take(i + 1)) =~= hm_times(fs.take(i as int)).push(time_of_pair(hm_value(f))));
            }
        }
        i = i + 1;
    }
    assert(fs.take(fields@.len() as int) =~= fs);
    out
}

/// Every field starts and ends with a plain character, so that trimming
/// leaves it as it is.
pub open spec fn untrimmed_fields(fields: Seq<Seq<char>>) -> bool {
    forall|k: int|
        0 <= k < fields.len() ==> (#[trigger] fields[k]).len() > 0 && plain_char(fields[k][0])
            && plain_char(fields[k].last())
}

/// The weekdays that fields name as they stand, in order.
pub open spec fn days_of_names(fields: Seq<Seq<char>>) -> Seq<Weekday>
    decreases fields.len(),
{
    if fields.len() == 0 {
        Seq::empty()
    } else {
        let prev = days_of_names(fields.drop_last());
        match parsed_weekday_spec(fields.last()) {
            Some(d) => prev.push(d),
            None => prev,
        }
    }
}

/// Parses a comma separated list of weekday names. Fields that need no
/// trimming read as they stand.
pub fn parse_days_csv(csv: &str) -> (r: Vec<Weekday>)
    ensures
        r@ == csv_days(csv@),
        untrimmed_fields(split_commas(csv@)) ==> r@ == days_of_names(split_commas(csv@)),
{
    let fields = split_commas_exec(csv);
    let ghost fs = split_commas(csv@);
    let mut out: Vec<Weekday> = Vec::new();
    let mut i: usize = 0;
    while i < fields.len()
        invariant
            fields@.len() == fs.len(),
            forall|k: int| 0 <= k < fields@.len() ==> (#[trigger] fields@[k])@ == fs[k],
            i <= fields@.len(),
            out@ == days_of_fields(fs.take(i as int)),
            untrimmed_fields(fs) ==> out@ == days_of_names(fs.take(i as int)),
        decreases fields@.len() - i,
    {
        assert(fs.take(i + 1).drop_last() =~= fs.take(i as int));
        assert(fs.take(i + 1).last() == fields@[i as int]@);
        proof {
            if untrimmed_fields(fs) {
                assert(fs[i as int].len() > 0);
            }
        }
        let s = trim(fields[i]);
        match parse_weekday(s) {
            Some(d) => out.push(d),
            None => {},
        }
        i = i + 1;
    }
    assert(fs.take(fields@.len() as int) =~= fs);
    out
}

/// `parts` joined with commas between them.
pub open spec fn join_commas(parts: Seq<Seq<char>>) -> Seq<char>
    decreases parts.len(),
{
    if parts.len() == 0 {
        Seq::empty()
    } else if parts.len() == 1 {
        parts[0]
    } else {
        join_commas(parts.drop_last()) + seq![','] + parts.last()
    }
}

proof fn lemma_split_extend(s: Seq<char>, b: Seq<char>)
    requires
        !b.contains(','),
    ensures
        split_commas(s + b) == split_commas(s).update(
            split_commas(s).len() - 1,
            split_commas(s).last() + b,
        ),
    decreases b.len(),
{
    lemma_split_commas_nonempty(s);
    let f = split_commas(s);
    if b.len() == 0 {
        assert(s + b =~= s);
        assert(f.last() + b =~= f.last());
        assert(f.update(f.len() - 1, f.last() + b) =~= f);
    } else {
        let b0 = b.drop_last();
        assert(!b0.contains(',')) by {
            if b0.contains(',') {
                let i = choose|i: int| 0 <= i < b0.len() && b0[i] == ',';
                assert(b[i] == ',');
            }
        }
        lemma_split_extend(s, b0);
        assert((s + b).drop_last() =~= s + b0);
        assert((s + b).last() == b[b.len() - 1]);
        assert(b[b.len() - 1] != ',');
        let g = split_commas(s + b0);
        assert(g.len() == f.len());
        assert(g.last() == f.last() + b0);
        assert((f.last() + b0).push(b.last()) =~= f.last() + b);
        assert(g.update(g.len() - 1, g.last().push(b.last())) =~= f.update(f.len() - 1, f.last() + b));
    }
}

/// Fields without commas, joined by commas and split again at the commas,
/// come back as they were: the comma separated columns read back the fields
/// they were written from.
pub proof fn lemma_split_join(parts: Seq<Seq<char>>)
    requires
        parts.len() >= 1,
        forall|k: int| 0 <= k < parts.len() ==> !(#[trigger] parts[k]).contains(','),
    ensures
        split_commas(join_commas(parts)) == parts,
    decreases parts.len(),
{
    if parts.len() == 1 {
        lemma_split_extend(Seq::empty(), parts[0]);
        assert(Seq::<char>::empty() + parts[0] =~= parts[0]);
        assert(split_commas(Seq::<char>::empty()).update(0, Seq::<char>::empty() + parts[0]) =~= parts);
    } else {
        let init = parts.drop_last();
        assert forall|k: int| 0 <= k < init.len() implies !(#[trigger] init[k]).contains(',') by {
            assert(init[k] == parts[k]);
        }
        lemma_split_join(init);
        let a = join_commas(init) + seq![','];
        assert(a.drop_last() =~= join_commas(init));
        assert(split_commas(a) == init.push(Seq::<char>::empty()));
        assert(parts.last() == parts[parts.len() - 1]);
        lemma_split_extend(a, parts.last());
        assert(join_commas(parts) == a + parts.last());
        assert(init.push(Seq::<char>::empty()).update(init.len() as int, Seq::<char>::empty() + parts.last())
            =~= parts);
    }
}

/// A time written `HH:MM`, as chrono formats it with `%H:%M`.
pub open spec fn hm_text(t: Time) -> Seq<char> {
    let h = t.spec_hour();
    let m = t.spec_minute();
    seq![digit_char(h / 10), digit_char(h % 10), ':', digit_char(m / 10), digit_char(m % 10)]
}

pub open spec fn times_text(times: Seq<Time>) -> Seq<char> {
    join_commas(times.map_values(|t: Time| hm_text(t)))
}

pub open spec fn days_text(days: Seq<Weekday>) -> Seq<char> {
    join_commas(days.map_values(|d: Weekday| d.short_name()))
}

/// Joining one more part adds a comma and the part, unless it is the first.
pub proof fn lemma_join_push(parts: Seq<Seq<char>>, p: Seq<char>)
    ensures
        join_commas(parts.push(p)) == if parts.len() == 0 {
            p
        } else {
            join_commas(parts) + seq![','] + p
        },
{
    assert(parts.push(p).drop_last() =~= parts);
}

/// Stored start times split back, at their commas, into the `HH:MM` text of
/// each time written.
pub proof fn lemma_times_text_fields(times: Seq<Time>)
    requires
        times.len() >= 1,
    ensures
        split_commas(times_text(times)) == times.map_values(|t: Time| hm_text(t)),
{
    let parts = times.map_values(|t: Time| hm_text(t));
    assert forall|k: int| 0 <= k < parts.len() implies !(#[trigger] parts[k]).contains(',') by {
        let p = parts[k];
        assert(p == hm_text(times[k]));
        if p.contains(',') {
            let i = choose|i: int| 0 <= i < p.len() && p[i] == ',';
            assert(0 <= i < 5);
        }
    }
    lemma_split_join(parts);
}

/// Stored weekdays split back, at their commas, into the three-letter name
/// of each weekday written.
pub proof fn lemma_days_text_fields(days: Seq<Weekday>)
    requires
        days.len() >= 1,
    ensures
        split_commas(days_text(days)) == days.map_values(|d: Weekday| d.short_name()),
{
    let parts = days.map_values(|d: Weekday| d.short_name());
    assert forall|k: int| 0 <= k < parts.len() implies !(#[trigger] parts[k]).contains(',') by {
        let p = parts[k];
        assert(p == days[k].short_name());
        reveal_strlit("Mon");
        reveal_strlit("Tue");
        reveal_strlit("Wed");
        reveal_strlit("Thu");
        reveal_strlit("Fri");
        reveal_strlit("Sat");
        reveal_strlit("Sun");
        if p.contains(',') {
            let i = choose|i: int| 0 <= i < p.len() && p[i] == ',';
            assert(0 <= i < 3);
        }
    }
    lemma_split_join(parts);
}

proof fn lemma_digit_char(d: int)
    requires
        0 <= d <= 9,
    ensures
        crate::calendar::is_digit(digit_char(d)),
        crate::calendar::digit_value(digit_char(d)) == d,
{
}

/// A time written `HH:MM` is such a text, and names the time of its hour
/// and minute.
proof fn lemma_hm_text_reads_back(t: Time)
    requires
        t.wf(),
    ensures
        is_hm_text(hm_text(t)),
        time_of_pair(hm_value(hm_text(t))) == (Time { secs: (t.secs / 60 * 60) as u32, nanos: 0 }),
{
    let h = t.spec_hour();
    let m = t.spec_minute();
    assert(0 <= h < 24);
    assert(0 <= m < 60);
    lemma_digit_char(h / 10);
    lemma_digit_char(h % 10);
    lemma_digit_char(m / 10);
    lemma_digit_char(m % 10);
    let s = hm_text(t);
    assert(10 * (h / 10) + h % 10 == h);
    assert(10 * (m / 10) + m % 10 == m);
    assert(3600 * h + 60 * m == t.secs / 60 * 60);
}

/// Start times with no seconds, written by `times_to_csv` and read back by
/// `parse_times_csv`, come back as written: every stored field is an `HH:MM`
/// text, and those name the times in order.
pub proof fn lemma_written_times_read_back(times: Seq<Time>)
    requires
        times.len() >= 1,
        forall|k: int| 0 <= k < times.len() ==> (#[trigger] times[k]).wf() && times[k].secs % 60 == 0
            && times[k].nanos == 0,
    ensures
        all_hm_fields(split_commas(times_text(times))),
        hm_times(split_commas(times_text(times))) == times,
{
    lemma_times_text_fields(times);
    let fields = split_commas(times_text(times));
    assert forall|k: int| 0 <= k < fields.len() implies is_hm_text(#[trigger] fields[k]) by {
        lemma_hm_text_reads_back(times[k]);
    }
    assert forall|k: int| 0 <= k < times.len() implies #[trigger] hm_times(fields)[k] == times[k] by {
        lemma_hm_text_reads_back(times[k]);
    }
    assert(hm_times(fields) =~= times);
}

/// Weekdays written by `days_to_csv` and read back by `parse_days_csv` come
/// back as written: every stored field is a three-letter name that needs no
/// trimming, and the names read as the weekdays in order.
pub proof fn lemma_written_days_read_back(days: Seq<Weekday>)
    requires
        days.len() >= 1,
    ensures
        untrimmed_fields(split_commas(days_text(days))),
        days_of_names(split_commas(days_text(days))) == days,
{
    lemma_days_text_fields(days);
    let fields = split_commas(days_text(days));
    reveal_strlit("Mon");
    reveal_strlit("Tue");
    reveal_strlit("Wed");
    reveal_strlit("Thu");
    reveal_strlit("Fri");
    reveal_strlit("Sat");
    reveal_strlit("Sun");
    assert forall|k: int| 0 <= k < fields.len() implies (#[trigger] fields[k]).len() > 0 && plain_char(fields[k][0])
        && plain_char(fields[k].last()) by {
        assert(fields[k] == days[k].short_name());
    }
    lemma_days_of_short_names(days);
}

proof fn lemma_days_of_short_names(days: Seq<Weekday>)
    ensures
        days_of_names(days.map_values(|d: Weekday| d.short_name())) == days,
    decreases days.len(),
{
    if days.len() > 0 {
        let f = days.map_values(|d: Weekday| d.short_name());
        lemma_days_of_short_names(days.drop_last());
        assert(f.drop_last() =~= days.drop_last().map_values(|d: Weekday| d.short_name()));
        crate::calendar::lemma_short_name_reads_back(days.last());
        assert(f.last() == days.last().short_name());
        assert(days.drop_last().push(days.last()) =~= days);
    }
}

/// Writes start times as `HH:MM` joined by commas.
pub fn times_to_csv(times: &[Time]) -> (r: String)
    requires
        forall|k: int| 0 <= k < times@.len() ==> (#[trigger] times@[k]).wf(),
    ensures
        r@ == times_text(times@),
{
    let mut out = String::new();
    let mut i: usize = 0;
    proof { reveal_strlit(","); reveal_strlit(":"); }
    assert(times@.take(0).map_values(|t: Time| hm_text(t)) =~= Seq::<Seq<char>>::empty());
    while i < times.len()
        invariant
            i <= times@.len(),
            forall|k: int| 0 <= k < times@.len() ==> (#[trigger] times@[k]).wf(),
            out@ == join_commas(times@.take(i as int).map_values(|t: Time| hm_text(t))),
        decreases times@.len() - i,
    {
        let t = times[i];
        let ghost before = times@.take(i as int).map_values(|t: Time| hm_text(t));
        assert(times@.take(i + 1).map_values(|t: Time| hm_text(t)) =~= before.push(hm_text(t)));
        proof { lemma_join_push(before, hm_text(t)); }
        proof { reveal_strlit(","); reveal_strlit(":"); }
        let ghost old_out = out@;
        if i > 0 {
            out.append(",");
        }
        let ghost sep = out@;
        assert(i > 0 ==> sep == old_out + seq![',']);
        assert(i == 0 ==> sep == old_out);
        let hour = t.secs / 3600;
        let minute = (t.secs / 60) % 60;
        push_two_digits(&mut out, hour);
        out.append(":");
        push_two_digits(&mut out, minute);
        assert(out@ =~= sep + hm_text(t));
        assert(before.len() == i);
        assert(i == 0 ==> old_out =~= Seq::<char>::empty());
        i = i + 1;
    }
    assert(times@.take(times@.len() as int) =~= times@);
    out
}

/// Writes weekdays by their three-letter names joined by commas.
pub fn days_to_csv(days: &[Weekday]) -> (r: String)
    ensures
        r@ == days_text(days@),
{
    let mut out = String::new();
    let mut i: usize = 0;
    proof { reveal_strlit(","); }
    assert(days@.take(0).map_values(|d: Weekday| d.short_name()) =~= Seq::<Seq<char>>::empty());
    while i < days.len()
        invariant
            i <= days@.len(),
            out@ == join_commas(days@.take(i as int).map_values(|d: Weekday| d.short_name())),
        decreases days@.len() - i,
    {
        let d = days[i];
        let ghost before = days@.take(i as int).map_values(|d: Weekday| d.short_name());
        assert(days@.take(i + 1).map_values(|d: Weekday| d.short_name()) =~= before.push(d.short_name()));
        proof { lemma_join_push(before, d.short_name()); }
        proof { reveal_strlit(","); reveal_strlit(":"); }
        let ghost old_out = out@;
        if i > 0 {
            out.append(",");
        }
        let ghost sep = out@;
        assert(i > 0 ==> sep == old_out + seq![',']);
        assert(i == 0 ==> sep == old_out);
        out.append(d.short_name_str());
        assert(before.len() == i);
        assert(i == 0 ==> old_out =~= Seq::<char>::empty());
        assert(out@ =~= sep + d.short_name());
        i = i + 1;
    }
    assert(days@.take(days@.len() as int) =~= days@);
    out
}

impl GardenSchedule {
    pub fn parsed_start_times(&self) -> (r: Vec<Time>)
        ensures
            r@ == csv_times(self.start_times@),
            forall|k: int| 0 <= k < r@.len() ==> (#[trigger] r@[k]).wf(),
    {
        parse_times_csv(self.start_times.as_str())
    }

    pub fn parsed_days_of_week(&self) -> (r: Vec<Weekday>)
        ensures
            r@ == csv_days(self.days_of_week@),
    {
        parse_days_csv(self.days_of_week.as_str())
    }
}

impl NewGardenSchedule {
    /// The row a create request inserts: start times and weekdays written as
    /// comma separated text.
    pub fn from_params(params: CreateGardenScheduleParams) -> (r: NewGardenSchedule)
        requires
            forall|k: int| 0 <= k < params.start_times@.len() ==> (#[trigger] params.start_times@[k]).wf(),
        ensures
            r.name@ == params.name@,
            r.active == params.active,
            r.start_times@ == times_text(params.start_times@),
            r.days_of_week@ == days_text(params.days_of_week@),
            r.duration_secs == params.duration_secs,
            r.skip_on_rain == params.skip_on_rain,
    {
        let start_times = times_to_csv(params.start_times.as_slice());
        let days_of_week = days_to_csv(params.days_of_week.as_slice());
        NewGardenSchedule {
            name: params.name,
            active: params.active,
            start_times,
            days_of_week,
            duration_secs: params.duration_secs,
            skip_on_rain: params.skip_on_rain,
        }
    }
}

impl GardenSchedule {
    /// The schedule after an update request at `now`: each column given in
    /// `params` replaced (times and weekdays written as comma separated
    /// text), the others kept, and `updated_at` set to `now`.
    pub fn apply_update(self, params: UpdateGardenScheduleParams, now: DateTime) -> (r: GardenSchedule)
        requires
            params.start_times matches Some(ts) ==> forall|k: int| 0 <= k < ts@.len() ==> (#[trigger] ts@[k]).wf(),
        ensures
            r.id == self.id,
            r.name@ == (match params.name {
                Some(n) => n@,
                None => self.name@,
            }),
            r.active == (match params.active {
                Some(a) => a,
                None => self.active,
            }),
            r.start_times@ == (match params.start_times {
                Some(ts) => times_text(ts@),
                None => self.start_times@,
            }),
            r.days_of_week@ == (match params.days_of_week {
                Some(ds) => days_text(ds@),
                None => self.days_of_week@,
            }),
            r.duration_secs == (match params.duration_secs {
                Some(d) => d,
                None => self.duration_secs,
            }),
            r.skip_on_rain == (match params.skip_on_rain {
                Some(b) => b,
                None => self.skip_on_rain,
            }),
            r.created_at == self.created_at,
            r.updated_at == now,
    {
        let mut s = self;
        match params.name {
            Some(n) => {
                s.name = n;
            },
            None => {},
        }
        match params.active {
            Some(a) => {
                s.active = a;
            },
            None => {},
        }
        match params.start_times {
            Some(ts) => {
                s.start_times = times_to_csv(ts.as_slice());
            },
            None => {},
        }
        match params.days_of_week {
            Some(ds) => {
                s.days_of_week = days_to_csv(ds.as_slice());
            },
            None => {},
        }
        match params.duration_secs {
            Some(d) => {
                s.duration_secs = d;
            },
            None => {},
        }
        match params.skip_on_rain {
            Some(b) => {
                s.skip_on_rain = b;
            },
            None => {},
        }
        s.updated_at = now;
        s
    }
}

/// Each text read as `HH:MM` or else `HH:MM:SS` (a text that reads as
/// neither stands as midnight; the functions below only use this where every
/// text reads).
pub open spec fn read_times(values: Seq<String>) -> Seq<Time> {
    values.map_values(
        |v: String|
            match parsed_time_spec(v@) {
                Some(t) => t,
                None => Time { secs: 0, nanos: 0 },
            },
    )
}

/// `i` is the first text that reads as no time.
pub open spec fn first_unread_time(values: Seq<String>, i: int) -> bool {
    &&& 0 <= i < values.len()
    &&& parsed_time_spec(values[i]@) is None
    &&& forall|k: int| 0 <= k < i ==> (#[trigger] parsed_time_spec(values[k]@)) is Some
}

/// A list of start times as a client sends it, written the way it is
/// stored: each read as `HH:MM` or else `HH:MM:SS`, written back as `HH:MM`
/// and joined by commas. Fails with the position of the first text that
/// reads as no time.
pub fn normalize_times(values: &Vec<String>) -> (r: Result<String, usize>)
    ensures
        match r {
            Ok(s) => (forall|k: int| 0 <= k < values@.len() ==> (#[trigger] parsed_time_spec(values@[k]@)) is Some)
                && s@ == times_text(read_times(values@)),
            Err(i) => first_unread_time(values@, i as int),
        },
{
    let mut times: Vec<Time> = Vec::new();
    let mut i: usize = 0;
    while i < values.len()
        invariant
            i <= values@.len(),
            times@ == read_times(values@.take(i as int)),
            forall|k: int| 0 <= k < i ==> (#[trigger] parsed_time_spec(values@[k]@)) is Some,
            forall|k: int| 0 <= k < times@.len() ==> (#[trigger] times@[k]).wf(),
        decreases values@.len() - i,
    {
        match parse_time(values[i].as_str()) {
            Some(t) => {
                assert(read_times(values@.take(i + 1)) =~= read_times(values@.take(i as int)).push(t));
                times.push(t);
            },
            None => {
                return Err(i);
            },
        }
        i = i + 1;
    }
    assert(values@.take(values@.len() as int) =~= values@);
    Ok(times_to_csv(times.as_slice()))
}

/// Each text read as a weekday name (a text that reads as none stands as
/// Monday; the functions below only use this where every text reads).
pub open spec fn read_days(values: Seq<String>) -> Seq<Weekday> {
    values.map_values(
        |v: String|
            match parsed_weekday_spec(v@) {
                Some(d) => d,
                None => Weekday::Mon,
            },
    )
}

/// `i` is the first text that reads as no weekday.
pub open spec fn first_unread_day(values: Seq<String>, i: int) -> bool {
    &&& 0 <= i < values.len()
    &&& parsed_weekday_spec(values[i]@) is None
    &&& forall|k: int| 0 <= k < i ==> (#[trigger] parsed_weekday_spec(values[k]@)) is Some
}

/// A list of weekdays as a client sends it, written the way it is stored:
/// each read as a weekday name, written back by its three-letter name and
/// joined by commas. Fails with the position of the first text that reads as
/// no weekday.
pub fn normalize_days(values: &Vec<String>) -> (r: Result<String, usize>)
    ensures
        match r {
            Ok(s) => (forall|k: int| 0 <= k < values@.len() ==> (#[trigger] parsed_weekday_spec(values@[k]@)) is Some)
                && s@ == days_text(read_days(values@)),
            Err(i) => first_unread_day(values@, i as int),
        },
{
    let mut days: Vec<Weekday> = Vec::new();
    let mut i: usize = 0;
    while i < values.len()
        invariant
            i <= values@.len(),
            days@ == read_days(values@.take(i as int)),
            forall|k: int| 0 <= k < i ==> (#[trigger] parsed_weekday_spec(values@[k]@)) is Some,
        decreases values@.len() - i,
    {
        match parse_weekday(values[i].as_str()) {
            Some(d) => {
                assert(read_days(values@.take(i + 1)) =~= read_days(values@.take(i as int)).push(d));
                days.push(d);
            },
            None => {
                return Err(i);
            },
        }
        i = i + 1;
    }
    assert(values@.take(values@.len() as int) =~= values@);
    Ok(days_to_csv(days.as_slice()))
}

} // verus!
