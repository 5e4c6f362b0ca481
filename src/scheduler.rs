//! Calendar logic of the report scheduler.
//!
//! Times are wall-clock times in the schedule's zone, Asia/Ho_Chi_Minh, held
//! as seconds after local midnight. That zone keeps one offset all year, so a
//! span between two wall-clock times is their difference.

use vstd::prelude::*;
use crate::settings::is_digit;
use crate::text::{
    chars_of, lemma_pieces_nonempty, lower_of, lowercase, pieces, same_text, string_of, trim,
    trim_spec, trim_start_spec,
};

verus! {

broadcast use vstd::string::group_string_axioms;

pub const SECONDS_PER_DAY: u32 = 86400;

/// Distance, in seconds, within which a wake-up counts as on schedule.
pub const TOLERANCE_SECONDS: u32 = 300;

/// A daily fire time, as seconds after local midnight.
#[derive(Debug, Clone, Copy, PartialEq, Eq, Structural)]
pub struct DailyTime {
    pub seconds: u32,
}

impl DailyTime {
    /// The time `hour:minute`.
    pub fn from_hm(hour: u32, minute: u32) -> (r: DailyTime)
        requires
            hour < 24,
            minute < 60,
        ensures
            r.seconds == hour * 3600 + minute * 60,
    {
        DailyTime { seconds: hour * 3600 + minute * 60 }
    }
}

/// The next fire time: a time of day, today or tomorrow.
#[derive(Debug, Clone, Copy, PartialEq, Eq, Structural)]
pub struct FireTime {
    /// 0 for today, 1 for tomorrow.
    pub day_offset: u32,
    /// Seconds after that day's midnight.
    pub seconds: u32,
}

/// Every time lies within a day and there is at least one.
pub open spec fn valid_times(ts: Seq<DailyTime>) -> bool {
    ts.len() > 0 && forall|i: int| 0 <= i < ts.len() ==> ts[i].seconds < SECONDS_PER_DAY
}

/// The earliest of the times strictly after `now`, if any.
pub open spec fn earliest_after(ts: Seq<DailyTime>, now: u32) -> Option<u32>
    decreases ts.len(),
{
    if ts.len() == 0 {
        None
    } else {
        let rest = earliest_after(ts.drop_last(), now);
        let t = ts.last().seconds;
        if t > now {
            match rest {
                Some(r) => Some(
                    if t < r {
                        t
                    } else {
                        r
                    },
                ),
                None => Some(t),
            }
        } else {
            rest
        }
    }
}

/// The earliest time still ahead today, else the first time tomorrow.
pub open spec fn next_fire_spec(ts: Seq<DailyTime>, now: u32) -> FireTime {
    match earliest_after(ts, now) {
        Some(t) => FireTime { day_offset: 0, seconds: t },
        None => FireTime { day_offset: 1, seconds: ts[0].seconds },
    }
}

/// Seconds from `now` today to the fire time.
pub open spec fn seconds_until(now: u32, f: FireTime) -> int {
    f.day_offset * SECONDS_PER_DAY + f.seconds - now
}

pub open spec fn digit_value(c: char) -> int {
    c as int - '0' as int
}

/// A number of one or two ASCII digits at the start of `t`, after leading
/// white space, and what follows it.
pub open spec fn clock_field(t: Seq<char>) -> Option<(int, Seq<char>)> {
    let u = trim_start_spec(t);
    if u.len() >= 1 && is_digit(u[0]) {
        if u.len() >= 2 && is_digit(u[1]) {
            Some((digit_value(u[0]) * 10 + digit_value(u[1]), u.subrange(2, u.len() as int)))
        } else {
            Some((digit_value(u[0]), u.drop_first()))
        }
    } else {
        None
    }
}

/// What chrono's `NaiveTime::parse_from_str(s, "%H:%M")` accepts, as seconds
/// after midnight: an hour and a minute field, each of one or two digits
/// after optional white space, a colon between them, nothing after, the hour
/// below 24 and the minute below 60.
pub open spec fn clock_time_of(s: Seq<char>) -> Option<u32> {
    match clock_field(s) {
        Some((h, r1)) => if r1.len() > 0 && r1[0] == ':' {
            match clock_field(r1.drop_first()) {
                Some((m, r2)) => if r2.len() == 0 && h < 24 && m < 60 {
                    Some((h * 3600 + m * 60) as u32)
                } else {
                    None
                },
                None => None,
            }
        } else {
            None
        },
        None => None,
    }
}

/// Relies on chrono's `NaiveTime::parse_from_str` with the format `%H:%M`
/// (format/parse.rs: white space skipped before each number, one or two
/// digits each, the literal colon, no trailing text, hour and minute range
/// checks in format/parsed.rs), and on `Timelike::num_seconds_from_midnight`.
#[verifier::external_body]
fn parse_clock_time(s: &str) -> (r: Option<u32>)
    ensures
        r == clock_time_of(s@),
{
    match chrono::NaiveTime::parse_from_str(s, "%H:%M") {
        Ok(t) => Some(chrono::Timelike::num_seconds_from_midnight(&t)),
        Err(_) => None,
    }
}

/// Relies on chrono's `Utc::now`, chrono-tz's `Asia::Ho_Chi_Minh` and
/// `Timelike::num_seconds_from_midnight`: the wall-clock time now in the
/// schedule's zone, which stays below a day.
#[verifier::external_body]
fn local_seconds_now() -> (r: u32)
    ensures
        r < SECONDS_PER_DAY,
{
    chrono::Timelike::num_seconds_from_midnight(
        &chrono::Utc::now().with_timezone(&chrono_tz::Asia::Ho_Chi_Minh),
    )
}

/// The times that the trimmed pieces parse to, in order; pieces that do not
/// parse are left out.
pub open spec fn parsed_times(ps: Seq<Seq<char>>) -> Seq<DailyTime>
    decreases ps.len(),
{
    if ps.len() == 0 {
        Seq::empty()
    } else {
        let r = parsed_times(ps.drop_last());
        match clock_time_of(trim_spec(ps.last())) {
            Some(t) => r.push(DailyTime { seconds: t }),
            None => r,
        }
    }
}

/// The schedule given by a setting such as `07:30,19:00`; without a
/// setting, 07:30 and 19:00.
pub open spec fn schedule_from(setting: Option<Seq<char>>) -> Seq<DailyTime> {
    match setting {
        Some(s) => parsed_times(pieces(s, ',')),
        None => seq![DailyTime { seconds: 27000 }, DailyTime { seconds: 68400 }],
    }
}

/// Adds the time that the piece `cur` parses to, if any.
fn take_piece(out: &mut Vec<DailyTime>, cur: &Vec<char>)
    ensures
        final(out)@ == match clock_time_of(trim_spec(cur@)) {
            Some(t) => old(out)@.push(DailyTime { seconds: t }),
            None => old(out)@,
        },
        forall|i: int| 0 <= i < old(out)@.len() ==> final(out)@[i] == old(out)@[i],
        (forall|i: int| 0 <= i < old(out)@.len() ==> old(out)@[i].seconds < SECONDS_PER_DAY) ==> (
        forall|i: int| 0 <= i < final(out)@.len() ==> final(out)@[i].seconds < SECONDS_PER_DAY),
{
    let t = trim(cur);
    let text = string_of(&t);
    match parse_clock_time(text.as_str()) {
        Some(secs) => out.push(DailyTime { seconds: secs }),
        None => {},
    }
}

/// Daily fire times from a setting such as `07:30,19:00`, read as chrono's
/// `%H:%M` after trimming each piece; without a setting, 07:30 and 19:00.
pub fn parse_schedule_times(setting: Option<&str>) -> (r: Vec<DailyTime>)
    ensures
        r@ == schedule_from(
            match setting {
                Some(s) => Some(s@),
                None => None,
            },
        ),
        forall|i: int| 0 <= i < r@.len() ==> r@[i].seconds < SECONDS_PER_DAY,
{
    match setting {
        None => {
            let v = vec![DailyTime::from_hm(7, 30), DailyTime::from_hm(19, 0)];
            assert(v@ =~= seq![DailyTime { seconds: 27000 }, DailyTime { seconds: 68400 }]);
            v
        },
        Some(s) => {
            let cs = chars_of(s);
            let mut out: Vec<DailyTime> = Vec::new();
            let mut cur: Vec<char> = Vec::new();
            let mut i: usize = 0;
            assert(cs@.subrange(0, 0) =~= Seq::<char>::empty());
            assert(pieces(Seq::<char>::empty(), ',').drop_last() =~= Seq::<Seq<char>>::empty());
            while i < cs.len()
                invariant
                    i <= cs.len(),
                    pieces(cs@.subrange(0, i as int), ',').len() >= 1,
                    out@ == parsed_times(pieces(cs@.subrange(0, i as int), ',').drop_last()),
                    cur@ == pieces(cs@.subrange(0, i as int), ',').last(),
                    forall|j: int| 0 <= j < out@.len() ==> out@[j].seconds < SECONDS_PER_DAY,
                decreases cs.len() - i,
            {
                let ghost pre = cs@.subrange(0, i as int);
                let ghost ps = pieces(pre, ',');
                assert(cs@.subrange(0, i + 1).drop_last() =~= pre);
                assert(cs@.subrange(0, i + 1).last() == cs@[i as int]);
                if cs[i] == ',' {
                    take_piece(&mut out, &cur);
                    cur = Vec::new();
                    assert(ps.push(Seq::<char>::empty()).drop_last() =~= ps);
                    assert(ps.drop_last().push(ps.last()) =~= ps);
                    assert(cur@ =~= Seq::<char>::empty());
                } else {
                    cur.push(cs[i]);
                    assert(ps.update(ps.len() - 1, ps.last().push(cs@[i as int])).drop_last()
                        =~= ps.drop_last());
                }
                i = i + 1;
                proof {
                    lemma_pieces_nonempty(cs@.subrange(0, i as int), ',');
                }
            }
            let ghost ps = pieces(cs@.subrange(0, i as int), ',');
            take_piece(&mut out, &cur);
            assert(cs@.subrange(0, cs.len() as int) =~= cs@);
            assert(ps.drop_last().push(ps.last()) =~= ps);
            out
        },
    }
}

/// The setting `flag`, already lower-cased, switches the scheduler on.
pub fn flag_enables(lowered: &str) -> (r: bool)
    ensures
        r == (lowered@ == "true"@),
{
    same_text(lowered, "true")
}

/// Whether the setting `flag` switches the scheduler on: it reads `true`
/// in any case.
pub fn scheduler_enabled(flag: Option<&str>) -> (r: bool)
    ensures
        r == match flag {
            Some(f) => lower_of(f@) == "true"@,
            None => false,
        },
{
    match flag {
        Some(f) => {
            let lowered = lowercase(f);
            flag_enables(lowered.as_str())
        },
        None => false,
    }
}

/// Configuration of the scheduler: its daily times and credential.
pub struct AutoReportScheduler {
    pub schedule_times: Vec<DailyTime>,
    pub api_key: String,
}

impl AutoReportScheduler {
    /// A scheduler where a credential is given and the enabling flag is set;
    /// none otherwise.
    pub fn new(api_key: Option<&str>, enable_flag: Option<&str>, schedule_setting: Option<&str>) -> (r:
        Option<AutoReportScheduler>)
        ensures
            r is Some <==> (api_key is Some && match enable_flag {
                Some(f) => lower_of(f@) == "true"@,
                None => false,
            }),
            r matches Some(sc) ==> sc.api_key@ == api_key->0@ && sc.schedule_times@
                == schedule_from(
                match schedule_setting {
                    Some(s) => Some(s@),
                    None => None,
                },
            ),
    {
        let key = match api_key {
            Some(k) => k,
            None => return None,
        };
        if !scheduler_enabled(enable_flag) {
            return None;
        }
        Some(AutoReportScheduler {
            schedule_times: parse_schedule_times(schedule_setting),
            api_key: key.to_string(),
        })
    }

    /// Reads the clock and plans the next run: the time now, the next fire
    /// time and the seconds to sleep until it. None without configured times.
    pub fn next_wait(&self) -> (r: Option<(u32, FireTime, u64)>)
        ensures
            r is None <==> self.schedule_times@.len() == 0,
            r matches Some((now, f, w)) ==> now < SECONDS_PER_DAY && f == next_fire_spec(
                self.schedule_times@,
                now,
            ) && w == (if seconds_until(now, f) > 0 {
                seconds_until(now, f)
            } else {
                0
            }),
    {
        if self.schedule_times.len() == 0 {
            return None;
        }
        let now = local_seconds_now();
        let f = next_fire_time(&self.schedule_times, now);
        let w = calculate_wait_duration(now, f);
        Some((now, f, w))
    }

    /// Reads the clock on waking: the time now and whether it is within the
    /// tolerance of a configured time, which a run needs.
    pub fn due_now(&self) -> (r: (u32, bool))
        ensures
            r.0 < SECONDS_PER_DAY,
            r.1 == within_tolerance(self.schedule_times@, r.0),
    {
        let now = local_seconds_now();
        (now, is_within_schedule_tolerance(&self.schedule_times, now))
    }
}

pub open spec fn abs_diff(a: u32, b: u32) -> int {
    if a >= b {
        a - b
    } else {
        b - a
    }
}

/// `now` lies within the tolerance of some configured time.
pub open spec fn within_tolerance(ts: Seq<DailyTime>, now: u32) -> bool {
    exists|i: int| 0 <= i < ts.len() && abs_diff(now, ts[i].seconds) <= TOLERANCE_SECONDS
}

/// Next fire time after `now`, given as seconds after today's midnight.
pub fn next_fire_time(times: &Vec<DailyTime>, now: u32) -> (r: FireTime)
    requires
        times.len() > 0,
    ensures
        r == next_fire_spec(times@, now),
{
    let mut best: Option<u32> = None;
    let mut i: usize = 0;
    while i < times.len()
        invariant
            i <= times.len(),
            best == earliest_after(times@.subrange(0, i as int), now),
        decreases times.len() - i,
    {
        assert(times@.subrange(0, i + 1).drop_last() =~= times@.subrange(0, i as int));
        let t = times[i].seconds;
        if t > now {
            best = match best {
                Some(b) => Some(
                    if t < b {
                        t
                    } else {
                        b
                    },
                ),
                None => Some(t),
            };
        }
        i = i + 1;
    }
    assert(times@.subrange(0, times.len() as int) =~= times@);
    match best {
        Some(t) => FireTime { day_offset: 0, seconds: t },
        None => FireTime { day_offset: 1, seconds: times[0].seconds },
    }
}

/// Seconds to wait from `now` until `target`, none where it is past.
pub fn calculate_wait_duration(now: u32, target: FireTime) -> (r: u64)
    requires
        target.day_offset <= 1,
    ensures
        r == if seconds_until(now, target) > 0 {
            seconds_until(now, target)
        } else {
            0
        },
{
    let day: u64 = if target.day_offset == 1 {
        SECONDS_PER_DAY as u64
    } else {
        0
    };
    let t: u64 = day + target.seconds as u64;
    if t > now as u64 {
        t - now as u64
    } else {
        0
    }
}

/// Whether `now` lies within five minutes, either way, of a configured time.
pub fn is_within_schedule_tolerance(times: &Vec<DailyTime>, now: u32) -> (r: bool)
    ensures
        r == within_tolerance(times@, now),
{
    let mut i: usize = 0;
    while i < times.len()
        invariant
            i <= times.len(),
            forall|j: int| 0 <= j < i ==> abs_diff(now, times@[j].seconds) > TOLERANCE_SECONDS,
        decreases times.len() - i,
    {
        let t = times[i].seconds;
        let d = if now >= t {
            now - t
        } else {
            t - now
        };
        if d <= TOLERANCE_SECONDS {
            return true;
        }
        i = i + 1;
    }
    false
}

proof fn lemma_earliest_after(ts: Seq<DailyTime>, now: u32)
    ensures
        earliest_after(ts, now) matches Some(t) ==> t > now && exists|i: int|
            0 <= i < ts.len() && ts[i].seconds == t,
        earliest_after(ts, now) is None ==> forall|i: int|
            0 <= i < ts.len() ==> ts[i].seconds <= now,
    decreases ts.len(),
{
    if ts.len() > 0 {
        let d = ts.drop_last();
        lemma_earliest_after(d, now);
        if let Some(t) = earliest_after(d, now) {
            let i = choose|i: int| 0 <= i < d.len() && d[i].seconds == t;
            assert(ts[i].seconds == t);
        }
        assert forall|i: int| 0 <= i < ts.len() - 1 implies ts[i] == d[i] by {}
        assert(ts[ts.len() - 1] == ts.last());
    }
}

/// For every valid list of times, the next fire time is strictly later than
/// `now` and is one of the configured times: the earliest one ahead today or
/// the first one tomorrow.
pub proof fn lemma_next_fire_later_and_listed(ts: Seq<DailyTime>, now: u32)
    requires
        valid_times(ts),
        now < SECONDS_PER_DAY,
    ensures
        seconds_until(now, next_fire_spec(ts, now)) > 0,
        exists|i: int| 0 <= i < ts.len() && ts[i].seconds == next_fire_spec(ts, now).seconds,
        next_fire_spec(ts, now).day_offset == 0 || (next_fire_spec(ts, now).day_offset == 1
            && next_fire_spec(ts, now).seconds == ts[0].seconds),
{
    lemma_earliest_after(ts, now);
    if earliest_after(ts, now) is None {
        assert(ts[0].seconds == next_fire_spec(ts, now).seconds);
    }
}

/// Whether `now` is on schedule is exactly whether some configured time lies
/// within 300 seconds of it, earlier or later.
pub proof fn lemma_tolerance_symmetric(ts: Seq<DailyTime>, now: u32)
    ensures
        within_tolerance(ts, now) <==> exists|i: int|
            0 <= i < ts.len() && -300 <= now - #[trigger] ts[i].seconds <= 300,
{
    assert forall|i: int| 0 <= i < ts.len() implies (abs_diff(now, ts[i].seconds)
        <= TOLERANCE_SECONDS <==> -300 <= now - ts[i].seconds <= 300) by {}
}

} // verus!
