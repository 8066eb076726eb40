//! The time schedule: reading scheduled events into entries with a time of
//! day, choosing the next entry due, and the telegram an entry sends.

use vstd::prelude::*;
use vstd::string::*;
use chrono::{TimeZone, Timelike};
use crate::config::Config;
use crate::httpserver::lists_command;
use crate::knx::{addr_of_text, command_frame, command_named, group_address, group_parts_fit, telegram_for, Command, SendMessage};
use crate::table::lookup;
use crate::text::{chars_of, str_eq, string_from, sub_chars};

verus! {

/// Nanoseconds in a day.
pub const NANOS_PER_DAY: u64 = 86_400_000_000_000u64;

/// Seconds in a day.
pub const SECONDS_PER_DAY: i64 = 86_400i64;

/// What the time of an event counts from.
#[derive(Debug, Clone, Copy, PartialEq, Eq, Structural)]
pub enum Timebase {
    Local,
    Sunrise,
    Sunset,
    /// Civil dusk.
    Dusk,
    /// Civil dawn.
    Dawn,
}

/// An event as the schedule file states it.
#[derive(Debug, Clone)]
pub struct ScheduleFileEvent {
    pub disabled: Option<bool>,
    pub time: Option<String>,
    pub actor: String,
    pub command: String,
    pub timebase: String,
}

/// An event waiting for its time: `time` counts nanoseconds since
/// midnight.
#[derive(Debug, Clone)]
pub struct Entry {
    pub time: u64,
    pub actor: String,
    pub command: String,
    pub timebase: Timebase,
}

/// The timebase named by a schedule file's text, if any.
pub open spec fn timebase_named(s: Seq<char>) -> Option<Timebase> {
    if s == "local"@ {
        Some(Timebase::Local)
    } else if s == "sunset"@ {
        Some(Timebase::Sunset)
    } else if s == "sunrise"@ {
        Some(Timebase::Sunrise)
    } else if s == "dusk"@ {
        Some(Timebase::Dusk)
    } else if s == "dawn"@ {
        Some(Timebase::Dawn)
    } else {
        None
    }
}

/// Reads a timebase: `local`, `sunset`, `sunrise`, `dusk` or `dawn`.
pub fn parse_timebase(s: &str) -> (r: Option<Timebase>)
    ensures
        r == timebase_named(s@),
{
    if str_eq(s, "local") {
        Some(Timebase::Local)
    } else if str_eq(s, "sunset") {
        Some(Timebase::Sunset)
    } else if str_eq(s, "sunrise") {
        Some(Timebase::Sunrise)
    } else if str_eq(s, "dusk") {
        Some(Timebase::Dusk)
    } else if str_eq(s, "dawn") {
        Some(Timebase::Dawn)
    } else {
        None
    }
}

/// The number of `-` characters that `s` starts with.
pub open spec fn leading_dashes(s: Seq<char>) -> nat
    decreases s.len(),
{
    if s.len() > 0 && s[0] == '-' {
        1 + leading_dashes(s.drop_first())
    } else {
        0
    }
}

proof fn lemma_leading_dashes(s: Seq<char>, i: nat)
    requires
        i <= s.len(),
        forall|j: int| 0 <= j < i ==> s[j] == '-',
        i == s.len() || s[i as int] != '-',
    ensures
        leading_dashes(s) == i,
    decreases i,
{
    if i > 0 {
        lemma_leading_dashes(s.drop_first(), (i - 1) as nat);
    }
}

/// Splits off the leading `-` characters of a time text: the rest, and
/// whether their number is odd (the time counts backwards then).
pub fn strip_sign(date: &str) -> (r: (String, bool))
    ensures
        r.0@ == date@.skip(leading_dashes(date@) as int),
        r.1 == (leading_dashes(date@) % 2 == 1),
{
    let d = chars_of(date);
    let n = d.len();
    let mut i: usize = 0;
    let mut negative = false;
    while i < n && d[i] == '-'
        invariant
            n == d@.len(),
            d@ == date@,
            i <= n,
            forall|j: int| 0 <= j < i ==> d@[j] == '-',
            negative == (i % 2 == 1),
        decreases n - i,
    {
        negative = !negative;
        i = i + 1;
    }
    proof {
        lemma_leading_dashes(date@, i as nat);
    }
    let rest = sub_chars(d.as_slice(), i, n);
    assert(rest@ =~= date@.skip(i as int));
    (string_from(rest.as_slice()), negative)
}

/// The seconds since midnight of a time of day `%T` (`hours:minutes:seconds`)
/// as `chrono` reads it, if it reads it.
pub uninterp spec fn parsed_clock_time(s: Seq<char>) -> Option<u32>;

/// Reads a time of day `%T` into seconds since midnight.
///
/// Trusted: `chrono::NaiveTime::parse_from_str(s, "%T")` followed by
/// `num_seconds_from_midnight`. The claims are that the result depends on
/// the text alone (it is named `parsed_clock_time`) and that a time of day
/// has fewer than 86400 seconds since midnight. Which texts chrono accepts
/// is not stated.
#[verifier::external_body]
fn clock_seconds(s: &str) -> (r: Option<u32>)
    ensures
        r == parsed_clock_time(s@),
        r matches Some(v) ==> v < 86400,
{
    match chrono::NaiveTime::parse_from_str(s, "%T") {
        Ok(t) => Some(t.num_seconds_from_midnight()),
        Err(_) => None,
    }
}

/// The signed offset, in seconds, of an event's time text: 0 without a
/// text; otherwise the time of day after the leading `-` characters,
/// negated when their number is odd; none when that time does not read.
pub open spec fn offset_of(time: Option<String>) -> Option<int> {
    match time {
        None => Some(0),
        Some(t) => {
            let k = leading_dashes(t@);
            match parsed_clock_time(t@.skip(k as int)) {
                Some(v) => Some(if k % 2 == 1 { -(v as int) } else { v as int }),
                None => None,
            }
        },
    }
}

/// Reads the offset of an event's time text.
pub fn parse_offset(time: &Option<String>) -> (r: Option<i64>)
    ensures
        match r {
            Some(v) => offset_of(*time) == Some(v as int) && -86400 < v < 86400,
            None => offset_of(*time).is_none(),
        },
{
    match time {
        None => Some(0),
        Some(t) => {
            let (rest, negative) = strip_sign(t.as_str());
            match clock_seconds(rest.as_str()) {
                Some(v) => {
                    let secs = v as i64;
                    Some(if negative { -secs } else { secs })
                },
                None => None,
            }
        },
    }
}

/// The offset of the local time zone from UTC, in seconds, at the instant
/// `utc_seconds` seconds after the UNIX epoch.
///
/// Trusted: `chrono::Local.timestamp_opt(utc_seconds, 0)` and
/// `offset().local_minus_utc()`. The result depends on the time zone of
/// the machine; the claim is only that a time zone offset lies strictly
/// within a day, as `chrono::FixedOffset` requires.
#[verifier::external_body]
fn local_offset_at(utc_seconds: i64) -> (r: i32)
    requires
        -1_000_000_000_000i64 <= utc_seconds <= 1_000_000_000_000i64,
    ensures
        -86400 < r < 86400,
{
    chrono::Local.timestamp_opt(utc_seconds, 0).unwrap().offset().local_minus_utc()
}

/// The UTC timestamps (seconds since the UNIX epoch) of today's solar
/// events at the installation's place.
#[derive(Debug, Clone, Copy)]
pub struct SolarTimes {
    pub sunrise: i64,
    pub sunset: i64,
    pub dusk: i64,
    pub dawn: i64,
}

/// The largest magnitude of a solar timestamp the schedule accepts.
pub const SOLAR_LIMIT: i64 = 8_000_000_000_000_000i64;

impl SolarTimes {
    /// Every timestamp is within `SOLAR_LIMIT` of the epoch.
    pub open spec fn in_range(&self) -> bool {
        &&& -SOLAR_LIMIT <= self.sunrise <= SOLAR_LIMIT
        &&& -SOLAR_LIMIT <= self.sunset <= SOLAR_LIMIT
        &&& -SOLAR_LIMIT <= self.dusk <= SOLAR_LIMIT
        &&& -SOLAR_LIMIT <= self.dawn <= SOLAR_LIMIT
    }

    /// The timestamp of a solar event.
    pub open spec fn at(&self, t: Timebase) -> i64 {
        match t {
            Timebase::Sunrise => self.sunrise,
            Timebase::Sunset => self.sunset,
            Timebase::Dusk => self.dusk,
            _ => self.dawn,
        }
    }
}

/// The time of day, in nanoseconds since midnight, of the instant
/// `seconds` seconds after midnight of some day (any number of days off).
pub open spec fn time_of_day(seconds: int) -> u64 {
    ((seconds % 86400) * 1_000_000_000) as u64
}

/// The time of day `offset` seconds after midnight UTC, in a time zone
/// `zone` seconds ahead of UTC.
pub open spec fn zoned_time(offset: int, zone: int) -> u64 {
    time_of_day(offset + zone)
}

/// The time of day of a solar event shifted by `offset` seconds, in a
/// time zone `tz_offset` seconds ahead of UTC.
pub open spec fn solar_time(solar: SolarTimes, t: Timebase, tz_offset: int, offset: int) -> u64 {
    time_of_day(solar.at(t) + tz_offset + offset)
}

fn day_time(seconds: i64) -> (r: u64)
    ensures
        r == time_of_day(seconds as int),
        r < NANOS_PER_DAY,
{
    let s = match seconds.checked_rem_euclid(SECONDS_PER_DAY) {
        Some(v) => v,
        None => 0,
    };
    assert(0 <= s < 86400);
    (s as u64) * 1_000_000_000
}

/// The local time of day, in nanoseconds since midnight, of the instant
/// `offset` seconds after midnight UTC, in a time zone `zone` seconds
/// ahead of UTC.
pub fn local_time_of_day(offset: i64, zone: i32) -> (r: u64)
    requires
        i64::MIN <= offset + zone <= i64::MAX,
    ensures
        r == zoned_time(offset as int, zone as int),
{
    day_time(offset + zone as i64)
}

/// The local time of day of an instant is a whole second within the day
/// that differs from the instant's seconds after midnight UTC by the
/// zone, around the clock; so, in one zone, instants `d` seconds apart
/// fall on times of day `d` seconds apart around the clock.
pub proof fn law_local_time_of_day(offset: int, zone: int, d: int)
    ensures
        zoned_time(offset, zone) < NANOS_PER_DAY,
        zoned_time(offset, zone) % 1_000_000_000 == 0,
        (zoned_time(offset, zone) / 1_000_000_000 - offset - zone) % 86400 == 0,
        (zoned_time(offset + d, zone) - zoned_time(offset, zone) - d * 1_000_000_000) % (NANOS_PER_DAY as int) == 0,
{
    let a = (offset + zone) % 86400;
    let b = (offset + d + zone) % 86400;
    assert(0 <= a < 86400 && 0 <= b < 86400);
    assert(zoned_time(offset, zone) == a * 1_000_000_000);
    assert(zoned_time(offset + d, zone) == b * 1_000_000_000);
    assert((a * 1_000_000_000) % 1_000_000_000 == 0) by (nonlinear_arith);
    assert((a * 1_000_000_000) / 1_000_000_000 == a) by (nonlinear_arith);
    let qa = (offset + zone) / 86400;
    let qb = (offset + d + zone) / 86400;
    assert(offset + zone == qa * 86400 + a);
    assert(offset + d + zone == qb * 86400 + b);
    assert(a - offset - zone == -qa * 86400);
    vstd::arithmetic::div_mod::lemma_mod_multiples_basic(-qa, 86400);
    assert(b * 1_000_000_000 - a * 1_000_000_000 - d * 1_000_000_000 == (qa - qb) * 86_400_000_000_000) by (nonlinear_arith)
        requires
            offset + zone == qa * 86400 + a,
            offset + d + zone == qb * 86400 + b,
    ;
    vstd::arithmetic::div_mod::lemma_mod_multiples_basic(qa - qb, 86_400_000_000_000);
}

/// An event is skipped when it is disabled.
pub open spec fn enabled(e: ScheduleFileEvent) -> bool {
    e.disabled != Some(true)
}

/// An enabled event names a timebase and, if it has a time text, that text
/// reads as a time of day.
pub open spec fn readable(e: ScheduleFileEvent) -> bool {
    enabled(e) ==> timebase_named(e.timebase@).is_some() && offset_of(e.time).is_some()
}

/// `x` is the entry read from event `e`: same actor and command, the named
/// timebase, and the time of day of the offset counted from that timebase.
/// For `local` the offset counts from midnight UTC (of the first day of
/// 1970) and the entry holds the local time of day of that instant, in the
/// time zone then in force; for a solar timebase it counts from the event
/// and is turned into a time of day by `tz_offset`.
pub open spec fn entry_of(x: Entry, e: ScheduleFileEvent, solar: SolarTimes, tz_offset: int) -> bool {
    let t = timebase_named(e.timebase@).unwrap();
    let offset = offset_of(e.time).unwrap();
    &&& x.actor == e.actor
    &&& x.command == e.command
    &&& x.timebase == t
    &&& x.time < NANOS_PER_DAY
    &&& if t == Timebase::Local {
        exists|zone: int| -86400 < zone < 86400 && x.time == #[trigger] zoned_time(offset, zone)
    } else {
        x.time == solar_time(solar, t, tz_offset, offset)
    }
}

fn read_entry(e: &ScheduleFileEvent, t: Timebase, offset: i64, solar: &SolarTimes, tz_offset: i32) -> (x: Entry)
    requires
        timebase_named(e.timebase@) == Some(t),
        offset_of(e.time) == Some(offset as int),
        -86400 < offset < 86400,
        -86400 < tz_offset < 86400,
        solar.in_range(),
    ensures
        entry_of(x, *e, *solar, tz_offset as int),
{
    let time = match t {
        Timebase::Local => {
            let zone = local_offset_at(offset);
            let r = local_time_of_day(offset, zone);
            assert(exists|z: int| -86400 < z < 86400 && r == #[trigger] zoned_time(offset as int, z));
            r
        },
        _ => {
            let ts = match t {
                Timebase::Sunrise => solar.sunrise,
                Timebase::Sunset => solar.sunset,
                Timebase::Dusk => solar.dusk,
                _ => solar.dawn,
            };
            day_time(ts + tz_offset as i64 + offset)
        },
    };
    let x = Entry { time, actor: e.actor.clone(), command: e.command.clone(), timebase: t };
    assert(x.actor == e.actor);
    assert(x.command == e.command);
    assert(x.timebase == timebase_named(e.timebase@).unwrap());
    assert(offset_of(e.time).unwrap() == offset as int);
    assert(x.time < NANOS_PER_DAY);
    assert(t != Timebase::Local ==> x.time == solar_time(*solar, t, tz_offset as int, offset as int));
    assert(t == Timebase::Local ==> exists|z: int| -86400 < z < 86400 && x.time == #[trigger] zoned_time(offset as int, z));
    x
}

/// The entries of the enabled events, in the order of the file; every
/// enabled event must be readable.
pub fn read_entries(events: &Vec<ScheduleFileEvent>, solar: &SolarTimes, tz_offset: i32) -> (r: Vec<Entry>)
    requires
        forall|i: int| 0 <= i < events@.len() ==> readable(#[trigger] events@[i]),
        -86400 < tz_offset < 86400,
        solar.in_range(),
    ensures
        r@.len() == events@.filter(|e: ScheduleFileEvent| enabled(e)).len(),
        forall|k: int| 0 <= k < r@.len() ==>
            entry_of(#[trigger] r@[k], events@.filter(|e: ScheduleFileEvent| enabled(e))[k], *solar, tz_offset as int),
{
    let ghost pred = |e: ScheduleFileEvent| enabled(e);
    let mut out: Vec<Entry> = Vec::new();
    let n = events.len();
    let mut i: usize = 0;
    while i < n
        invariant
            n == events@.len(),
            i <= n,
            forall|j: int| 0 <= j < events@.len() ==> readable(#[trigger] events@[j]),
            -86400 < tz_offset < 86400,
            solar.in_range(),
            pred == (|e: ScheduleFileEvent| enabled(e)),
            out@.len() == events@.take(i as int).filter(pred).len(),
            forall|k: int| 0 <= k < out@.len() ==>
                entry_of(#[trigger] out@[k], events@.take(i as int).filter(pred)[k], *solar, tz_offset as int),
        decreases n - i,
    {
        proof {
            reveal_with_fuel(Seq::filter, 1);
            assert(events@.take(i + 1).drop_last() =~= events@.take(i as int));
        }
        let e = &events[i];
        if e.disabled != Some(true) {
            assert(readable(events@[i as int]));
            let t = match parse_timebase(e.timebase.as_str()) {
                Some(t) => t,
                None => {
                    assert(false);
                    Timebase::Local
                },
            };
            let offset = match parse_offset(&e.time) {
                Some(v) => v,
                None => {
                    assert(false);
                    0
                },
            };
            out.push(read_entry(e, t, offset, solar, tz_offset));
        }
        i = i + 1;
    }
    assert(events@.take(n as int) =~= events@);
    out
}

/// Why an event could not be read.
#[derive(Debug, Clone)]
pub enum ScheduleError {
    /// The event names no known timebase.
    InvalidTimebase(String),
    /// The event's time text does not read as a time of day.
    InvalidTime(String),
}

/// The entries of the enabled events, or the first unreadable event: its
/// timebase text when that names no timebase, else its time text.
pub fn checked_read_entries(events: &Vec<ScheduleFileEvent>, solar: &SolarTimes, tz_offset: i32) -> (r: Result<Vec<Entry>, ScheduleError>)
    requires
        -86400 < tz_offset < 86400,
        solar.in_range(),
    ensures
        match r {
            Ok(entries) => (forall|i: int| 0 <= i < events@.len() ==> readable(#[trigger] events@[i]))
                && entries@.len() == events@.filter(|e: ScheduleFileEvent| enabled(e)).len()
                && forall|k: int| 0 <= k < entries@.len() ==>
                    entry_of(#[trigger] entries@[k], events@.filter(|e: ScheduleFileEvent| enabled(e))[k], *solar, tz_offset as int),
            Err(err) => exists|i: int| 0 <= i < events@.len()
                && (forall|j: int| 0 <= j < i ==> readable(#[trigger] events@[j]))
                && !readable(#[trigger] events@[i])
                && match err {
                    ScheduleError::InvalidTimebase(text) => text@ == events@[i].timebase@
                        && timebase_named(events@[i].timebase@).is_none(),
                    ScheduleError::InvalidTime(text) => timebase_named(events@[i].timebase@).is_some()
                        && events@[i].time == Some(text),
                },
        },
{
    let n = events.len();
    let mut i: usize = 0;
    while i < n
        invariant
            n == events@.len(),
            i <= n,
            forall|j: int| 0 <= j < i ==> readable(#[trigger] events@[j]),
        decreases n - i,
    {
        let e = &events[i];
        if e.disabled != Some(true) {
            if parse_timebase(e.timebase.as_str()).is_none() {
                return Err(ScheduleError::InvalidTimebase(e.timebase.clone()));
            }
            if parse_offset(&e.time).is_none() {
                let text = match &e.time {
                    Some(t) => t.clone(),
                    None => {
                        assert(false);
                        String::new()
                    },
                };
                return Err(ScheduleError::InvalidTime(text));
            }
        }
        i = i + 1;
    }
    Ok(read_entries(events, solar, tz_offset))
}


// ---------------------------------------------------------------------------
// Choosing and carrying out the next entry
// ---------------------------------------------------------------------------

/// The earliest time of day still taken as due at `now`: ten seconds
/// before `now`, wrapping around midnight.
pub open spec fn window_start(now: u64) -> u64 {
    ((now + NANOS_PER_DAY - 10_000_000_000) % (NANOS_PER_DAY as int)) as u64
}

/// An entry is due at `now` unless its time lies before the window start.
pub open spec fn is_due(e: Entry, now: u64) -> bool {
    e.time >= window_start(now)
}

/// Entry `i` is the next one at `now`: due, no later than any due entry,
/// and the last of the due entries with its time.
pub open spec fn is_next(evs: Seq<Entry>, now: u64, i: int) -> bool {
    &&& 0 <= i < evs.len()
    &&& is_due(evs[i], now)
    &&& forall|j: int| 0 <= j < evs.len() && is_due(#[trigger] evs[j], now) ==> evs[i].time <= evs[j].time
    &&& forall|j: int| i < j < evs.len() && is_due(#[trigger] evs[j], now) ==> evs[i].time < evs[j].time
}

/// The entries waiting for their time.
pub struct Scheduler {
    pub waiting_events: Vec<Entry>,
}

impl Scheduler {
    /// A scheduler without entries.
    pub fn new() -> (s: Scheduler)
        ensures
            s.waiting_events@.len() == 0,
    {
        Scheduler { waiting_events: Vec::new() }
    }

    /// The position of the next entry at `now` (nanoseconds since midnight),
    /// if any entry is due.
    pub fn find_next(&self, now: u64) -> (r: Option<usize>)
        requires
            now < NANOS_PER_DAY,
        ensures
            match r {
                Some(i) => is_next(self.waiting_events@, now, i as int),
                None => forall|j: int| 0 <= j < self.waiting_events@.len()
                    ==> !is_due(#[trigger] self.waiting_events@[j], now),
            },
    {
        let start: u64 = (now + NANOS_PER_DAY - 10_000_000_000) % NANOS_PER_DAY;
        let evs = &self.waiting_events;
        let mut result: Option<usize> = None;
        let mut i: usize = 0;
        while i < evs.len()
            invariant
                i <= evs@.len(),
                start == window_start(now),
                match result {
                    Some(k) => k < i && is_due(evs@[k as int], now)
                        && (forall|j: int| 0 <= j < i && is_due(#[trigger] evs@[j], now) ==> evs@[k as int].time <= evs@[j].time)
                        && (forall|j: int| k < j < i && is_due(#[trigger] evs@[j], now) ==> evs@[k as int].time < evs@[j].time),
                    None => forall|j: int| 0 <= j < i ==> !is_due(#[trigger] evs@[j], now),
                },
            decreases evs.len() - i,
        {
            let a = &evs[i];
            if a.time < start {
                i = i + 1;
                continue;
            }
            match result {
                Some(k) => {
                    if a.time > evs[k].time {
                        i = i + 1;
                        continue;
                    }
                },
                None => {},
            }
            result = Some(i);
            i = i + 1;
        }
        result
    }

    /// Takes the entry at `index` out of the waiting entries.
    pub fn take(&mut self, index: usize) -> (e: Entry)
        requires
            index < old(self).waiting_events@.len(),
        ensures
            e == old(self).waiting_events@[index as int],
            final(self).waiting_events@ == old(self).waiting_events@.remove(index as int),
    {
        self.waiting_events.remove(index)
    }
}

/// The whole seconds from `now` to `time` (both nanoseconds since
/// midnight), rounded toward zero.
pub open spec fn seconds_until(time: u64, now: u64) -> int {
    if time >= now {
        ((time - now) / 1_000_000_000) as int
    } else {
        -(((now - time) / 1_000_000_000) as int)
    }
}

/// How long to sleep before carrying out an entry: the seconds until its
/// time, or none when that is not positive.
pub fn wait_seconds(entry: &Entry, now: u64) -> (w: u64)
    ensures
        w == (if seconds_until(entry.time, now) > 0 { seconds_until(entry.time, now) } else { 0 }),
{
    if entry.time >= now {
        (entry.time - now) / 1_000_000_000
    } else {
        0
    }
}

/// The group address an entry goes to: nothing when no actor has the
/// entry's actor identifier; otherwise the actor's address when the actor
/// lists the command, else the command address of the switch of the same
/// identifier when that lists it, else none.
pub open spec fn schedule_target(config: Config, id: Seq<char>, command: Seq<char>) -> Option<Option<Seq<char>>> {
    match lookup(config.actors@, id) {
        None => None,
        Some(a) => Some(
            if lists_command(a.commands@, command) {
                Some(a.eibaddr@)
            } else {
                match lookup(config.switches@, id) {
                    Some(s) => if lists_command(s.commands@, command) { Some(s.eibaddr_command@) } else { None },
                    None => None,
                }
            },
        ),
    }
}

/// An entry can be carried out: it goes nowhere, or its command is known
/// and it goes to a group address text whose parts fit in a byte.
pub open spec fn dispatchable(config: Config, e: Entry) -> bool {
    match schedule_target(config, e.actor@, e.command@) {
        None => true,
        Some(t) => command_named(e.command@).is_some() && t.is_some() && group_parts_fit(t.unwrap())
            && addr_of_text(t.unwrap()).is_some(),
    }
}

fn target_of(config: &Config, entry: &Entry) -> (r: Option<Option<String>>)
    requires
        config.wf(),
    ensures
        match r {
            None => schedule_target(*config, entry.actor@, entry.command@).is_none(),
            Some(None) => schedule_target(*config, entry.actor@, entry.command@) == Some(None::<Seq<char>>),
            Some(Some(a)) => schedule_target(*config, entry.actor@, entry.command@) == Some(Some(a@)),
        },
{
    match config.actors.get(entry.actor.as_str()) {
        None => None,
        Some(a) => {
            if crate::httpserver::has_command(&a.commands, &entry.command) {
                Some(Some(a.eibaddr.clone()))
            } else {
                match config.switches.get(entry.actor.as_str()) {
                    Some(s) => {
                        if crate::httpserver::has_command(&s.commands, &entry.command) {
                            Some(Some(s.eibaddr_command.clone()))
                        } else {
                            Some(None)
                        }
                    },
                    None => Some(None),
                }
            }
        },
    }
}

/// Whether an entry can be carried out, and else why not.
#[derive(Debug, Clone, Copy, PartialEq, Eq, Structural)]
pub enum DispatchCheck {
    /// The entry can be carried out.
    Ready,
    /// The entry's command text is unknown.
    UnknownCommand,
    /// The actor exists, but no address takes the command.
    NoAddress,
    /// The address is no group address with parts that fit in a byte.
    InvalidGroup,
}

/// Checks whether an entry can be carried out.
pub fn check_dispatch(config: &Config, entry: &Entry) -> (r: DispatchCheck)
    requires
        config.wf(),
    ensures
        (r == DispatchCheck::Ready) == dispatchable(*config, *entry),
        r == DispatchCheck::UnknownCommand ==> schedule_target(*config, entry.actor@, entry.command@).is_some()
            && command_named(entry.command@).is_none(),
        r == DispatchCheck::NoAddress ==> schedule_target(*config, entry.actor@, entry.command@) == Some(None::<Seq<char>>)
            && command_named(entry.command@).is_some(),
        r == DispatchCheck::InvalidGroup ==> command_named(entry.command@).is_some()
            && (schedule_target(*config, entry.actor@, entry.command@) matches Some(Some(t))
                && !(group_parts_fit(t) && addr_of_text(t).is_some())),
{
    match target_of(config, entry) {
        None => DispatchCheck::Ready,
        Some(t) => {
            if Command::from_str(entry.command.as_str()).is_err() {
                DispatchCheck::UnknownCommand
            } else {
                match t {
                    None => DispatchCheck::NoAddress,
                    Some(a) => {
                        if !crate::knx::group_parts_in_range(a.as_str()) {
                            DispatchCheck::InvalidGroup
                        } else {
                            match crate::knx::parse_addr(a.as_str()) {
                                Ok(_) => DispatchCheck::Ready,
                                Err(_) => DispatchCheck::InvalidGroup,
                            }
                        }
                    },
                }
            }
        },
    }
}

/// The telegram an entry sends: none when no actor has its identifier;
/// otherwise its command to its target group.
pub fn scheduled_telegram(config: &Config, entry: &Entry) -> (r: Option<SendMessage>)
    requires
        config.wf(),
        dispatchable(*config, *entry),
    ensures
        match r {
            None => schedule_target(*config, entry.actor@, entry.command@).is_none(),
            Some(m) => {
                let t = schedule_target(*config, entry.actor@, entry.command@).unwrap().unwrap();
                &&& schedule_target(*config, entry.actor@, entry.command@).is_some()
                &&& m.raw@ == command_frame(
                    group_address(addr_of_text(t).unwrap()),
                    command_named(entry.command@).unwrap(),
                )
            },
        },
{
    match target_of(config, entry) {
        None => None,
        Some(t) => {
            let command = match Command::from_str(entry.command.as_str()) {
                Ok(c) => c,
                Err(_) => {
                    assert(false);
                    Command::Switch(false)
                },
            };
            let addr = match t {
                Some(a) => a,
                None => {
                    assert(false);
                    String::new()
                },
            };
            Some(telegram_for(&addr, &command))
        },
    }
}

} // verus!
