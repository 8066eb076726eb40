use knx_home::config::{actor, Config, Switch};
use knx_home::knx::{telegram_for, Command};
use knx_home::scheduler::{
    check_dispatch, checked_read_entries, parse_offset, parse_timebase, read_entries, scheduled_telegram,
    strip_sign, wait_seconds, DispatchCheck, Entry, ScheduleError, ScheduleFileEvent, Scheduler, SolarTimes,
    Timebase, NANOS_PER_DAY,
};

const SEC: u64 = 1_000_000_000;

fn event(time: Option<&str>, timebase: &str, disabled: Option<bool>) -> ScheduleFileEvent {
    ScheduleFileEvent {
        disabled,
        time: time.map(|t| t.to_string()),
        actor: "lamp".to_string(),
        command: "on".to_string(),
        timebase: timebase.to_string(),
    }
}

fn solar() -> SolarTimes {
    // 2024-06-01 at 03:00:00, 19:00:00, 19:45:00, 02:15:00 UTC
    let day = 1_717_200_000i64;
    SolarTimes { sunrise: day + 3 * 3600, sunset: day + 19 * 3600, dusk: day + 19 * 3600 + 2700, dawn: day + 2 * 3600 + 900 }
}

fn entry(time_secs: u64) -> Entry {
    Entry { time: time_secs * SEC, actor: "lamp".to_string(), command: "on".to_string(), timebase: Timebase::Local }
}

#[test]
fn timebases() {
    assert_eq!(parse_timebase("local"), Some(Timebase::Local));
    assert_eq!(parse_timebase("sunset"), Some(Timebase::Sunset));
    assert_eq!(parse_timebase("sunrise"), Some(Timebase::Sunrise));
    assert_eq!(parse_timebase("dusk"), Some(Timebase::Dusk));
    assert_eq!(parse_timebase("dawn"), Some(Timebase::Dawn));
    assert_eq!(parse_timebase("noon"), None);
}

#[test]
fn signs() {
    assert_eq!(strip_sign("00:10:00"), ("00:10:00".to_string(), false));
    assert_eq!(strip_sign("-00:10:00"), ("00:10:00".to_string(), true));
    assert_eq!(strip_sign("--00:10:00"), ("00:10:00".to_string(), false));
    assert_eq!(strip_sign("---"), ("".to_string(), true));
    assert_eq!(strip_sign("0-1"), ("0-1".to_string(), false));
}

#[test]
fn offsets() {
    assert_eq!(parse_offset(&None), Some(0));
    assert_eq!(parse_offset(&Some("01:00:00".to_string())), Some(3600));
    assert_eq!(parse_offset(&Some("-00:30:15".to_string())), Some(-1815));
    assert_eq!(parse_offset(&Some("--23:59:59".to_string())), Some(86399));
    assert_eq!(parse_offset(&Some("25:00:00".to_string())), None);
    assert_eq!(parse_offset(&Some("noon".to_string())), None);
}

#[test]
fn solar_entries() {
    let events = vec![
        event(Some("-00:30:00"), "sunset", None),
        event(None, "local", Some(true)),
        event(None, "sunrise", Some(false)),
        event(Some("01:00:00"), "dusk", None),
        event(None, "dawn", None),
    ];
    let entries = read_entries(&events, &solar(), 7200);
    assert_eq!(entries.len(), 4);
    assert_eq!(entries[0].timebase, Timebase::Sunset);
    assert_eq!(entries[0].time, (21 * 3600 - 1800) * SEC);
    assert_eq!(entries[1].timebase, Timebase::Sunrise);
    assert_eq!(entries[1].time, 5 * 3600 * SEC);
    // 19:45 UTC + 2 h zone + 1 h offset
    assert_eq!(entries[2].time, (22 * 3600 + 2700) * SEC);
    assert_eq!(entries[3].time, (4 * 3600 + 900) * SEC);
    assert_eq!(entries[0].actor, "lamp");
    assert_eq!(entries[0].command, "on");
}

#[test]
fn solar_entries_wrap_past_midnight() {
    let events = vec![event(Some("06:00:00"), "sunset", None), event(Some("-05:00:00"), "dawn", None)];
    let entries = read_entries(&events, &solar(), 7200);
    assert_eq!(entries[0].time, 3 * 3600 * SEC);
    assert_eq!(entries[1].time, (24 * 3600 - 3600 + 900) * SEC);
}

#[test]
fn local_entries_stay_within_a_day() {
    let events = vec![event(Some("-23:59:59"), "local", None), event(Some("12:00:00"), "local", None)];
    let entries = read_entries(&events, &solar(), 0);
    assert_eq!(entries.len(), 2);
    assert!(entries.iter().all(|e| e.time < NANOS_PER_DAY));
}

#[test]
fn checked_entries() {
    let good = vec![event(None, "sunrise", None)];
    assert_eq!(checked_read_entries(&good, &solar(), 0).unwrap().len(), 1);
    let bad_base = vec![event(None, "sunrise", None), event(None, "noon", None), event(Some("x"), "dawn", None)];
    match checked_read_entries(&bad_base, &solar(), 0) {
        Err(ScheduleError::InvalidTimebase(t)) => assert_eq!(t, "noon"),
        other => panic!("{:?}", other),
    }
    let bad_time = vec![event(Some("x"), "noon", Some(true)), event(Some("7 pm"), "dawn", None)];
    match checked_read_entries(&bad_time, &solar(), 0) {
        Err(ScheduleError::InvalidTime(t)) => assert_eq!(t, "7 pm"),
        other => panic!("{:?}", other),
    }
}

#[test]
fn next_entry() {
    let mut s = Scheduler::new();
    assert_eq!(s.find_next(1000 * SEC), None);
    s.waiting_events = vec![entry(500), entry(2000), entry(1500), entry(1500), entry(995)];
    // entries more than ten seconds old are skipped; ties go to the last
    assert_eq!(s.find_next(1000 * SEC), Some(4));
    assert_eq!(s.find_next(1006 * SEC), Some(3));
    assert_eq!(s.find_next(3000 * SEC), None);
    let e = s.take(3);
    assert_eq!(e.time, 1500 * SEC);
    assert_eq!(s.find_next(1006 * SEC), Some(2));
    assert_eq!(s.waiting_events.len(), 4);
}

#[test]
fn next_entry_near_midnight() {
    let mut s = Scheduler::new();
    s.waiting_events = vec![entry(10), entry(86395)];
    // at 00:00:05 the window starts at 23:59:55 of the day before
    assert_eq!(s.find_next(5 * SEC), Some(1));
    s.waiting_events = vec![entry(10)];
    assert_eq!(s.find_next(5 * SEC), None);
}

#[test]
fn waits() {
    assert_eq!(wait_seconds(&entry(100), 40 * SEC + 500), 59);
    assert_eq!(wait_seconds(&entry(100), 100 * SEC), 0);
    assert_eq!(wait_seconds(&entry(100), 105 * SEC), 0);
}

fn config() -> Config {
    let mut c = Config::default();
    c.actors.insert(
        "lamp".to_string(),
        actor {
            name: "Lamp".to_string(),
            room_id: "k".to_string(),
            commands: vec!["on".to_string(), "dim-7".to_string()],
            eibaddr: "0/0/5".to_string(),
        },
    );
    c.actors.insert(
        "blind".to_string(),
        actor {
            name: "Blind".to_string(),
            room_id: "k".to_string(),
            commands: vec![],
            eibaddr: "0/0/6".to_string(),
        },
    );
    c.switches.insert(
        "blind".to_string(),
        Switch {
            name: "Blind switch".to_string(),
            room_id: "k".to_string(),
            eibaddr_command: "0/0/9".to_string(),
            eibaddr_status: "0/0/10".to_string(),
            commands: vec!["shutter-90".to_string()],
        },
    );
    c.actors.insert(
        "broken".to_string(),
        actor {
            name: "Broken".to_string(),
            room_id: "k".to_string(),
            commands: vec!["on".to_string()],
            eibaddr: "0/0/x".to_string(),
        },
    );
    c
}

fn scheduled(actor: &str, command: &str) -> Entry {
    Entry { time: 0, actor: actor.to_string(), command: command.to_string(), timebase: Timebase::Local }
}

#[test]
fn dispatching() {
    let c = config();
    let e = scheduled("lamp", "on");
    assert_eq!(check_dispatch(&c, &e), DispatchCheck::Ready);
    assert_eq!(scheduled_telegram(&c, &e).unwrap().raw, telegram_for(&"0/0/5".to_string(), &Command::Switch(true)).raw);
    let e = scheduled("blind", "shutter-90");
    assert_eq!(check_dispatch(&c, &e), DispatchCheck::Ready);
    assert_eq!(scheduled_telegram(&c, &e).unwrap().raw, telegram_for(&"0/0/9".to_string(), &Command::Shutter(90)).raw);
    let e = scheduled("nobody", "on");
    assert_eq!(check_dispatch(&c, &e), DispatchCheck::Ready);
    assert!(scheduled_telegram(&c, &e).is_none());
    assert_eq!(check_dispatch(&c, &scheduled("lamp", "dim-7")), DispatchCheck::UnknownCommand);
    assert_eq!(check_dispatch(&c, &scheduled("blind", "on")), DispatchCheck::NoAddress);
    assert_eq!(check_dispatch(&c, &scheduled("broken", "on")), DispatchCheck::InvalidGroup);
}
