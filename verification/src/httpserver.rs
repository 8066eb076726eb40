//! The decisions of the web interface: which route a request path takes,
//! which telegram a command request asks for, what a response carries, and
//! the data shown for each room.

use vstd::prelude::*;
use vstd::string::*;
use crate::config::{actor, Config, Sensor, Switch};
use crate::data::{Data, Measurement, Value};
use crate::knx::{command_named, unknown_command_text, Command};
use crate::table::{has_key, lookup, IdMap};
use crate::text::{chars_of, find_chars, find_first, first_occurrence, is_white_space, occurs_at, sub_chars, trim_bounds, trim_chars, trimmed};

verus! {

// ---------------------------------------------------------------------------
// Routes
// ---------------------------------------------------------------------------

/// Where a request goes.
#[derive(Debug)]
pub enum Route {
    /// A static file; the text after the first `static/` in the path,
    /// trimmed of white space.
    Static(String),
    /// A command for an actor or switch: the texts between `/actor/` and the
    /// next `/`, and after that `/`, each trimmed of white space.
    Actor { id: String, command: String },
    /// The style sheet.
    Style,
    /// The overview page.
    Index,
    /// Anything else.
    NotFound,
}

/// The trimmed text after the first `static/` in `p`, if `p` holds one.
pub open spec fn static_target(p: Seq<char>) -> Option<Seq<char>> {
    match find_first(p, "static/"@) {
        Some(i) => Some(trimmed(p.skip(i + "static/"@.len()))),
        None => None,
    }
}

/// The trimmed texts between the first `/actor/` in `p` and the next `/`,
/// and after that `/`, if `p` has both.
pub open spec fn actor_target(p: Seq<char>) -> Option<(Seq<char>, Seq<char>)> {
    match find_first(p, "/actor/"@) {
        Some(i) => {
            let rest = p.skip(i + "/actor/"@.len());
            match find_first(rest, "/"@) {
                Some(j) => Some((trimmed(rest.take(j)), trimmed(rest.skip(j + 1)))),
                None => None,
            }
        },
        None => None,
    }
}

/// `s` neither starts nor ends with white space.
pub open spec fn untrimmed_free(s: Seq<char>) -> bool {
    s.len() == 0 || (!is_white_space(s[0]) && !is_white_space(s.last()))
}

proof fn lemma_trimmed_id(s: Seq<char>)
    requires
        untrimmed_free(s),
    ensures
        trimmed(s) == s,
{
    if s.len() == 0 {
        assert(trim_bounds(s, 0, 0));
    } else {
        assert(trim_bounds(s, 0, s.len() as int));
    }
    let (a, b) = choose|a: int, b: int| trim_bounds(s, a, b);
    if s.len() == 0 {
        assert(a == 0 && b == 0);
    } else {
        if a < b {
            if a > 0 { assert(is_white_space(s[0])); }
            if b < s.len() { assert(is_white_space(s[s.len() - 1])); }
        } else {
            assert(is_white_space(s[0]));
        }
    }
    assert(s.subrange(a, b) =~= s);
}

/// The path of a command request, `/actor/{id}/{command}`, routes back to
/// the identifier and the command, when the identifier holds no `/`,
/// neither part starts or ends with white space, and the path holds no
/// `static/` (static files come first).
pub proof fn law_command_path_routes(id: Seq<char>, command: Seq<char>)
    requires
        !id.contains('/'),
        untrimmed_free(id),
        untrimmed_free(command),
        static_target("/actor/"@ + id + "/"@ + command).is_none(),
    ensures
        actor_target("/actor/"@ + id + "/"@ + command) == Some((id, command)),
{
    reveal_strlit("/actor/");
    reveal_strlit("/");
    let pat = "/actor/"@;
    let p = pat + id + "/"@ + command;
    assert(p.subrange(0, pat.len() as int) =~= pat);
    assert(first_occurrence(p, pat, 0));
    let i = choose|i: int| first_occurrence(p, pat, i);
    if i > 0 {
        assert(!occurs_at(p, pat, 0));
    }
    assert(find_first(p, pat) == Some(0int));
    let rest = p.skip(pat.len() as int);
    assert(rest =~= id + "/"@ + command);
    let slash = "/"@;
    assert(rest.subrange(id.len() as int, id.len() + 1int) =~= slash);
    assert forall|j: int| 0 <= j < id.len() implies !#[trigger] occurs_at(rest, slash, j) by {
        if occurs_at(rest, slash, j) {
            assert(rest.subrange(j, j + 1)[0] == '/');
            assert(rest[j] == id[j]);
            assert(id.contains('/'));
        }
    }
    assert(first_occurrence(rest, slash, id.len() as int));
    let k = choose|k: int| first_occurrence(rest, slash, k);
    if k < id.len() {
        assert(!occurs_at(rest, slash, k));
    }
    if k > id.len() {
        assert(!occurs_at(rest, slash, id.len() as int));
    }
    assert(find_first(rest, slash) == Some(id.len() as int));
    assert(rest.take(id.len() as int) =~= id);
    assert(rest.skip(id.len() + 1int) =~= command);
    lemma_trimmed_id(id);
    lemma_trimmed_id(command);
}

/// The route of a request path: static files first, then commands, then
/// the style sheet and the overview page.
pub fn route(path: &str) -> (r: Route)
    ensures
        match r {
            Route::Static(target) => static_target(path@) == Some(target@),
            Route::Actor { id, command } => static_target(path@).is_none()
                && actor_target(path@) == Some((id@, command@)),
            Route::Style => static_target(path@).is_none() && actor_target(path@).is_none()
                && path@ == "/style.css"@,
            Route::Index => static_target(path@).is_none() && actor_target(path@).is_none()
                && path@ == "/"@,
            Route::NotFound => static_target(path@).is_none() && actor_target(path@).is_none()
                && path@ != "/style.css"@ && path@ != "/"@,
        },
{
    let p = chars_of(path);
    let static_pat = chars_of("static/");
    match find_chars(p.as_slice(), static_pat.as_slice()) {
        Some(i) => {
            assert(crate::text::occurs_at(p@, static_pat@, i as int));
            let k = static_pat.len();
            let n = p.len();
            assert(i + k <= n);
            let rest = sub_chars(p.as_slice(), i + k, n);
            return Route::Static(trim_chars(rest.as_slice()));
        },
        None => {},
    }
    let actor_pat = chars_of("/actor/");
    match find_chars(p.as_slice(), actor_pat.as_slice()) {
        Some(i) => {
            assert(crate::text::occurs_at(p@, actor_pat@, i as int));
            let k = actor_pat.len();
            let n = p.len();
            assert(i + k <= n);
            let rest = sub_chars(p.as_slice(), i + k, n);
            let slash = chars_of("/");
            proof {
                reveal_strlit("/");
            }
            match find_chars(rest.as_slice(), slash.as_slice()) {
                Some(j) => {
                    assert(crate::text::occurs_at(rest@, slash@, j as int));
                    assert(slash@.len() == 1);
                    let id_part = sub_chars(rest.as_slice(), 0, j);
                    let cmd_part = sub_chars(rest.as_slice(), j + 1, rest.len());
                    assert(id_part@ =~= rest@.take(j as int));
                    assert(cmd_part@ =~= rest@.skip(j + 1));
                    return Route::Actor {
                        id: trim_chars(id_part.as_slice()),
                        command: trim_chars(cmd_part.as_slice()),
                    };
                },
                None => {},
            }
        },
        None => {},
    }
    if crate::text::str_eq(path, "/style.css") {
        Route::Style
    } else if crate::text::str_eq(path, "/") {
        Route::Index
    } else {
        Route::NotFound
    }
}


// ---------------------------------------------------------------------------
// Responses
// ---------------------------------------------------------------------------

/// The status and body of a response to a message: 200 with the text of a
/// success, 400 with the text of a failure.
pub fn response_message(message: Result<String, String>) -> (r: (u16, String))
    ensures
        match message {
            Ok(text) => r.0 == 200 && r.1 == text,
            Err(text) => r.0 == 400 && r.1 == text,
        },
{
    match message {
        Ok(text) => (200, text),
        Err(text) => (400, text),
    }
}

/// The status and body of an error response: 400 with the message.
pub fn create_response_error(message: String) -> (r: (u16, String))
    ensures
        r.0 == 400 && r.1 == message,
{
    (400, message)
}

/// `s` ends with `suffix`.
pub open spec fn ends_with(s: Seq<char>, suffix: Seq<char>) -> bool {
    suffix.len() <= s.len() && s.skip(s.len() - suffix.len()) == suffix
}

fn ends_with_str(s: &[char], suffix: &str) -> (b: bool)
    ensures
        b == ends_with(s@, suffix@),
{
    let suf = chars_of(suffix);
    let n = s.len();
    let m = suf.len();
    if m > n {
        return false;
    }
    let tail = sub_chars(s, n - m, n);
    let r = vec_chars_eq(&tail, &suf);
    assert(tail@ =~= s@.skip(n - m));
    r
}

fn vec_chars_eq(a: &Vec<char>, b: &Vec<char>) -> (r: bool)
    ensures
        r == (a@ == b@),
{
    if a.len() != b.len() {
        return false;
    }
    let mut i: usize = 0;
    while i < a.len()
        invariant
            a@.len() == b@.len(),
            i <= a@.len(),
            forall|j: int| 0 <= j < i ==> a@[j] == b@[j],
        decreases a.len() - i,
    {
        if a[i] != b[i] {
            return false;
        }
        i = i + 1;
    }
    assert(a@ =~= b@);
    true
}

/// The content type of a static file, by the ending of the request path.
pub open spec fn content_type_of(path: Seq<char>) -> Seq<char> {
    if ends_with(path, ".png"@) {
        "image/png"@
    } else if ends_with(path, ".css"@) {
        "text/css"@
    } else if ends_with(path, ".js"@) {
        "text/javascript"@
    } else {
        "unknown"@
    }
}

/// The content type of a static file, by the ending of the request path.
pub fn static_content_type(path: &str) -> (t: String)
    ensures
        t@ == content_type_of(path@),
{
    let p = chars_of(path);
    if ends_with_str(p.as_slice(), ".png") {
        String::from_str("image/png")
    } else if ends_with_str(p.as_slice(), ".css") {
        String::from_str("text/css")
    } else if ends_with_str(p.as_slice(), ".js") {
        String::from_str("text/javascript")
    } else {
        String::from_str("unknown")
    }
}

/// The file of a static route: its target without the leading `/`; none
/// when the target does not start with `/`.
pub fn static_file(target: &str) -> (r: Option<String>)
    ensures
        match r {
            Some(f) => target@.len() > 0 && target@[0] == '/' && f@ == target@.skip(1),
            None => !(target@.len() > 0 && target@[0] == '/'),
        },
{
    let t = chars_of(target);
    if t.len() > 0 && t[0] == '/' {
        let rest = sub_chars(t.as_slice(), 1, t.len());
        Some(crate::text::string_from(rest.as_slice()))
    } else {
        None
    }
}

// ---------------------------------------------------------------------------
// Commands sent from the web interface
// ---------------------------------------------------------------------------

/// `commands` holds `command`.
pub open spec fn lists_command(commands: Seq<String>, command: Seq<char>) -> bool {
    exists|i: int| 0 <= i < commands.len() && #[trigger] commands[i]@ == command
}

/// Whether `commands` holds `command`.
pub fn has_command(commands: &Vec<String>, command: &String) -> (b: bool)
    ensures
        b == lists_command(commands@, command@),
{
    let mut i: usize = 0;
    while i < commands.len()
        invariant
            i <= commands@.len(),
            forall|j: int| 0 <= j < i ==> #[trigger] commands@[j]@ != command@,
        decreases commands.len() - i,
    {
        if commands[i] == *command {
            return true;
        }
        i = i + 1;
    }
    false
}

/// The group address a command request goes to: the actor's, when an
/// actor of that identifier lists the command; otherwise, when no actor
/// has that identifier, the command group of the switch of that
/// identifier that lists the command.
pub open spec fn request_target(config: Config, id: Seq<char>, command: Seq<char>) -> Option<Seq<char>> {
    match lookup(config.actors@, id) {
        Some(a) => if lists_command(a.commands@, command) { Some(a.eibaddr@) } else { None },
        None => match lookup(config.switches@, id) {
            Some(s) => if lists_command(s.commands@, command) { Some(s.eibaddr_command@) } else { None },
            None => None,
        },
    }
}

/// A command list lists a command exactly when an element at some
/// position, whichever, is that command; so a command request to an
/// actor goes to the actor's address whenever any of its commands is the
/// one asked for, and likewise for a switch when no actor has that
/// identifier.
pub proof fn law_listed_command_found(config: Config, id: Seq<char>, command: Seq<char>, k: int, i: int)
    requires
        config.wf(),
    ensures
        (0 <= k < config.actors@.len() && config.actors@[k].0@ == id
            && 0 <= i < config.actors@[k].1.commands@.len() && config.actors@[k].1.commands@[i]@ == command)
            ==> request_target(config, id, command) == Some(config.actors@[k].1.eibaddr@),
        (!has_key(config.actors@, id) && 0 <= k < config.switches@.len() && config.switches@[k].0@ == id
            && 0 <= i < config.switches@[k].1.commands@.len() && config.switches@[k].1.commands@[i]@ == command)
            ==> request_target(config, id, command) == Some(config.switches@[k].1.eibaddr_command@),
        (0 <= k < config.actors@.len() && config.actors@[k].0@ == id
            && forall|j: int| 0 <= j < config.actors@[k].1.commands@.len() ==> #[trigger] config.actors@[k].1.commands@[j]@ != command)
            ==> request_target(config, id, command).is_none(),
{
    if 0 <= k < config.actors@.len() && config.actors@[k].0@ == id {
        crate::table::lemma_lookup_at(config.actors@, id, k);
        if 0 <= i < config.actors@[k].1.commands@.len() && config.actors@[k].1.commands@[i]@ == command {
            assert(lists_command(config.actors@[k].1.commands@, command));
        }
    }
    if !has_key(config.actors@, id) && 0 <= k < config.switches@.len() && config.switches@[k].0@ == id {
        crate::table::lemma_lookup_at(config.switches@, id, k);
        if 0 <= i < config.switches@[k].1.commands@.len() && config.switches@[k].1.commands@[i]@ == command {
            assert(lists_command(config.switches@[k].1.commands@, command));
        }
    }
}

/// The error text of a command request that no actor or switch takes.
pub open spec fn no_target_text(command: Seq<char>) -> Seq<char> {
    "no actor/switch found for command '"@ + command + "'"@
}

/// The group address and command of a command request; an error text when
/// no actor or switch takes the command, or when the command text is
/// unknown.
pub fn actor_request(config: &Config, set_id: &String, command_string: &String) -> (r: Result<(String, Command), String>)
    requires
        config.wf(),
    ensures
        match r {
            Ok((addr, command)) => request_target(*config, set_id@, command_string@) == Some(addr@)
                && command_named(command_string@) == Some(command),
            Err(msg) => match request_target(*config, set_id@, command_string@) {
                None => msg@ == no_target_text(command_string@),
                Some(_) => command_named(command_string@).is_none()
                    && msg@ == unknown_command_text(command_string@),
            },
        },
{
    let mut addr: Option<String> = None;
    match config.actors.get(set_id.as_str()) {
        Some(a) => {
            if has_command(&a.commands, command_string) {
                addr = Some(a.eibaddr.clone());
            }
        },
        None => {
            match config.switches.get(set_id.as_str()) {
                Some(s) => {
                    if has_command(&s.commands, command_string) {
                        addr = Some(s.eibaddr_command.clone());
                    }
                },
                None => {},
            }
        },
    }
    match addr {
        None => {
            let mut message = String::new();
            message.append("no actor/switch found for command '");
            message.append(command_string.as_str());
            message.append("'");
            Err(message)
        },
        Some(a) => {
            match Command::from_str(command_string.as_str()) {
                Ok(command) => Ok((a, command)),
                Err(text) => Err(text),
            }
        },
    }
}


// ---------------------------------------------------------------------------
// The data shown for a room
// ---------------------------------------------------------------------------

/// A sensor as shown: its latest value and, when there is a value, the
/// time it was taken (`taken`, seconds since the UNIX epoch) and that time
/// as a local clock time (`timestamp`, empty without a value).
#[derive(Debug, Clone)]
pub struct TemplateSensor {
    pub id: String,
    pub dimension: String,
    pub name: String,
    pub measurement: Option<Value>,
    pub taken: Option<u64>,
    pub timestamp: String,
}

/// The latest instant, in seconds after the UNIX epoch, whose clock time
/// can be shown: the last second of the year 262142 in UTC, the last day
/// that `chrono` dates reach.
pub const CLOCK_LIMIT: u64 = 8_210_266_876_799u64;

/// Every sensor of room `room` whose stored measurement holds a value took
/// it no later than `CLOCK_LIMIT` (so that its clock time can be shown).
pub open spec fn room_times_in_clock_range(
    sensors: Seq<(String, Sensor)>,
    room: Seq<char>,
    store: Seq<(String, Measurement)>,
) -> bool {
    forall|i: int| 0 <= i < sensors.len() && (#[trigger] sensors[i]).1.room_id@ == room ==>
        match lookup(store, sensors[i].0@) {
            Some(m) => m.value is Some ==> m.timestamp <= CLOCK_LIMIT,
            None => true,
        }
}

/// Whether the clock time of every measured value shown for room
/// `room_id` can be shown.
pub fn room_clock_times_in_range(room_id: &String, config: &Config, data: &Data) -> (b: bool)
    requires
        data.measurements.wf(),
    ensures
        b == room_times_in_clock_range(config.sensors@, room_id@, data.measurements@),
{
    let n = config.sensors.len();
    let mut i: usize = 0;
    while i < n
        invariant
            n == config.sensors@.len(),
            i <= n,
            data.measurements.wf(),
            forall|k: int| 0 <= k < i && (#[trigger] config.sensors@[k]).1.room_id@ == room_id@ ==>
                match lookup(data.measurements@, config.sensors@[k].0@) {
                    Some(m) => m.value is Some ==> m.timestamp <= CLOCK_LIMIT,
                    None => true,
                },
        decreases n - i,
    {
        let id = config.sensors.key_at(i);
        let sensor = config.sensors.value_at(i);
        if *&sensor.room_id == *room_id {
            match data.measurements.get(id.as_str()) {
                Some(m) => {
                    if m.value.is_some() && m.timestamp > CLOCK_LIMIT {
                        return false;
                    }
                },
                None => {},
            }
        }
        i = i + 1;
    }
    true
}

/// Two decimal digits of `n` (below 100), with a leading zero.
pub open spec fn two_digits(n: int) -> Seq<char> {
    seq![((n / 10) + 48) as char, ((n % 10) + 48) as char]
}

/// The clock text `HH:MM:SS` of the time of day `secs` seconds after
/// midnight.
pub open spec fn clock_text(secs: int) -> Seq<char> {
    two_digits(secs / 3600) + seq![':'] + two_digits((secs % 3600) / 60) + seq![':'] + two_digits(secs % 60)
}

/// The value of a decimal digit character.
pub open spec fn digit_value(c: char) -> int {
    c as int - 48
}

/// The clock text of a time of day is eight characters `HH:MM:SS` whose
/// hours, minutes and seconds, each below 24, 60 and 60, add up to that
/// time of day.
pub proof fn law_clock_text_form(secs: int)
    requires
        0 <= secs < 86400,
    ensures
        ({
            let t = clock_text(secs);
            &&& t.len() == 8
            &&& t[2] == ':' && t[5] == ':'
            &&& forall|k: int| 0 <= k < 8 && k != 2 && k != 5 ==> '0' <= #[trigger] t[k] <= '9'
            &&& digit_value(t[0]) * 10 + digit_value(t[1]) < 24
            &&& digit_value(t[3]) * 10 + digit_value(t[4]) < 60
            &&& digit_value(t[6]) * 10 + digit_value(t[7]) < 60
            &&& (digit_value(t[0]) * 10 + digit_value(t[1])) * 3600
                + (digit_value(t[3]) * 10 + digit_value(t[4])) * 60
                + digit_value(t[6]) * 10 + digit_value(t[7]) == secs
        }),
{
    let h = secs / 3600;
    let m = (secs % 3600) / 60;
    let s = secs % 60;
    assert(0 <= h < 24);
    assert(0 <= m < 60);
    assert(h * 3600 + m * 60 + s == secs);
    let t = clock_text(secs);
    assert(t =~= seq![((h / 10) + 48) as char, ((h % 10) + 48) as char, ':',
        ((m / 10) + 48) as char, ((m % 10) + 48) as char, ':',
        ((s / 10) + 48) as char, ((s % 10) + 48) as char]);
}

/// The clock text of the instant `timestamp` seconds after the UNIX epoch,
/// in a time zone `zone` seconds ahead of UTC.
pub open spec fn zoned_clock_text(timestamp: int, zone: int) -> Seq<char> {
    clock_text((timestamp + zone) % 86400)
}

/// `text` is the clock text of the instant `timestamp` seconds after the
/// UNIX epoch in some time zone less than a day from UTC.
pub open spec fn is_clock_text_of(text: Seq<char>, timestamp: int) -> bool {
    exists|zone: int| -86400 < zone < 86400 && text == #[trigger] zoned_clock_text(timestamp, zone)
}

/// The local clock time (`%T`, hours:minutes:seconds) of the instant
/// `timestamp` seconds after the UNIX epoch.
///
/// Trusted: `chrono::DateTime::<chrono::Local>::from` and `format("%T")`.
/// The claim is that the text is the zero-padded `HH:MM:SS` of the instant
/// in some time zone less than a day from UTC; which zone (that of the
/// machine) is not stated. The conversion panics on instants past the
/// dates `chrono` can hold, which `requires` leaves out.
#[verifier::external_body]
fn local_clock_text(timestamp: u64) -> (r: String)
    requires
        timestamp <= CLOCK_LIMIT,
    ensures
        is_clock_text_of(r@, timestamp as int),
{
    let time = std::time::UNIX_EPOCH + std::time::Duration::from_secs(timestamp);
    let datetime: chrono::DateTime<chrono::Local> = time.into();
    datetime.format("%T").to_string()
}

/// An actor as shown.
#[derive(Debug, Clone)]
pub struct TemplateActor {
    pub id: String,
    pub name: String,
    pub status: String,
    pub commands: Vec<String>,
}

/// A switch as shown.
#[derive(Debug, Clone)]
pub struct TemplateSwitch {
    pub id: String,
    pub name: String,
    pub status: String,
    pub commands: Vec<String>,
}

/// A room as shown, with its actors, sensors and switches.
#[derive(Debug, Clone)]
pub struct TemplateRoom {
    pub id: String,
    pub name: String,
    pub actors: Vec<TemplateActor>,
    pub sensors: Vec<TemplateSensor>,
    pub switches: Vec<TemplateSwitch>,
}

/// The sensors of room `room`, in table order.
pub open spec fn sensors_in(s: Seq<(String, Sensor)>, room: Seq<char>) -> Seq<(String, Sensor)> {
    s.filter(|e: (String, Sensor)| e.1.room_id@ == room)
}

/// The actors of room `room`, in table order.
pub open spec fn actors_in(s: Seq<(String, actor)>, room: Seq<char>) -> Seq<(String, actor)> {
    s.filter(|e: (String, actor)| e.1.room_id@ == room)
}

/// The switches of room `room`, in table order.
pub open spec fn switches_in(s: Seq<(String, Switch)>, room: Seq<char>) -> Seq<(String, Switch)> {
    s.filter(|e: (String, Switch)| e.1.room_id@ == room)
}

/// `t` shows sensor `e` with what the store holds for it: the latest value
/// and, when there is one, its time; nothing when the store has no entry.
pub open spec fn shows_sensor(t: TemplateSensor, e: (String, Sensor), store: Seq<(String, Measurement)>) -> bool {
    &&& t.id@ == e.0@
    &&& t.name@ == e.1.name@
    &&& t.dimension@ == e.1.dimension@
    &&& match lookup(store, e.0@) {
        Some(m) => t.measurement == m.value
            && t.taken == (if m.value is Some { Some(m.timestamp) } else { None::<u64> }),
        None => t.measurement.is_none() && t.taken.is_none(),
    }
    &&& match t.taken {
        Some(ts) => is_clock_text_of(t.timestamp@, ts as int),
        None => t.timestamp@.len() == 0,
    }
}

/// `t` shows actor `e`, with an empty status.
pub open spec fn shows_actor(t: TemplateActor, e: (String, actor)) -> bool {
    &&& t.id@ == e.0@
    &&& t.name@ == e.1.name@
    &&& t.status@.len() == 0
    &&& t.commands@ == e.1.commands@
}

/// `t` shows switch `e`, with an empty status.
pub open spec fn shows_switch(t: TemplateSwitch, e: (String, Switch)) -> bool {
    &&& t.id@ == e.0@
    &&& t.name@ == e.1.name@
    &&& t.status@.len() == 0
    &&& t.commands@ == e.1.commands@
}

fn clone_commands(v: &Vec<String>) -> (r: Vec<String>)
    ensures
        r@ == v@,
{
    let mut r: Vec<String> = Vec::new();
    let mut i: usize = 0;
    while i < v.len()
        invariant
            i <= v@.len(),
            r@ == v@.subrange(0, i as int),
        decreases v.len() - i,
    {
        r.push(v[i].clone());
        i = i + 1;
    }
    assert(r@ =~= v@);
    r
}

fn room_sensors(room_id: &String, sensors: &IdMap<Sensor>, data: &Data) -> (r: Vec<TemplateSensor>)
    requires
        data.measurements.wf(),
        room_times_in_clock_range(sensors@, room_id@, data.measurements@),
    ensures
        r@.len() == sensors_in(sensors@, room_id@).len(),
        forall|k: int| 0 <= k < r@.len() ==>
            shows_sensor(#[trigger] r@[k], sensors_in(sensors@, room_id@)[k], data.measurements@),
{
    let ghost pred = |e: (String, Sensor)| e.1.room_id@ == room_id@;
    let mut out: Vec<TemplateSensor> = Vec::new();
    let n = sensors.len();
    let mut i: usize = 0;
    while i < n
        invariant
            n == sensors@.len(),
            i <= n,
            data.measurements.wf(),
            room_times_in_clock_range(sensors@, room_id@, data.measurements@),
            pred == (|e: (String, Sensor)| e.1.room_id@ == room_id@),
            out@.len() == sensors@.take(i as int).filter(pred).len(),
            forall|k: int| 0 <= k < out@.len() ==>
                shows_sensor(#[trigger] out@[k], sensors@.take(i as int).filter(pred)[k], data.measurements@),
        decreases n - i,
    {
        proof {
            reveal_with_fuel(Seq::filter, 1);
            assert(sensors@.take(i + 1).drop_last() =~= sensors@.take(i as int));
        }
        let id = sensors.key_at(i);
        let sensor = sensors.value_at(i);
        if *&sensor.room_id == *room_id {
            let (measurement, taken) = match data.measurements.get(id.as_str()) {
                Some(m) => {
                    let ts = if m.value.is_some() { Some(m.timestamp) } else { None };
                    (m.value, ts)
                },
                None => (None, None),
            };
            let timestamp = match taken {
                Some(ts) => local_clock_text(ts),
                None => String::new(),
            };
            let t = TemplateSensor {
                id: id.clone(),
                name: sensor.name.clone(),
                dimension: sensor.dimension.clone(),
                measurement,
                taken,
                timestamp,
            };
            out.push(t);
        }
        i = i + 1;
    }
    assert(sensors@.take(n as int) =~= sensors@);
    out
}

fn room_actors(room_id: &String, actors: &IdMap<actor>) -> (r: Vec<TemplateActor>)
    ensures
        r@.len() == actors_in(actors@, room_id@).len(),
        forall|k: int| 0 <= k < r@.len() ==> shows_actor(#[trigger] r@[k], actors_in(actors@, room_id@)[k]),
{
    let ghost pred = |e: (String, actor)| e.1.room_id@ == room_id@;
    let mut out: Vec<TemplateActor> = Vec::new();
    let n = actors.len();
    let mut i: usize = 0;
    while i < n
        invariant
            n == actors@.len(),
            i <= n,
            pred == (|e: (String, actor)| e.1.room_id@ == room_id@),
            out@.len() == actors@.take(i as int).filter(pred).len(),
            forall|k: int| 0 <= k < out@.len() ==>
                shows_actor(#[trigger] out@[k], actors@.take(i as int).filter(pred)[k]),
        decreases n - i,
    {
        proof {
            reveal_with_fuel(Seq::filter, 1);
            assert(actors@.take(i + 1).drop_last() =~= actors@.take(i as int));
        }
        let id = actors.key_at(i);
        let a = actors.value_at(i);
        if *&a.room_id == *room_id {
            let t = TemplateActor {
                id: id.clone(),
                name: a.name.clone(),
                status: String::new(),
                commands: clone_commands(&a.commands),
            };
            out.push(t);
        }
        i = i + 1;
    }
    assert(actors@.take(n as int) =~= actors@);
    out
}

fn room_switches(room_id: &String, switches: &IdMap<Switch>) -> (r: Vec<TemplateSwitch>)
    ensures
        r@.len() == switches_in(switches@, room_id@).len(),
        forall|k: int| 0 <= k < r@.len() ==> shows_switch(#[trigger] r@[k], switches_in(switches@, room_id@)[k]),
{
    let ghost pred = |e: (String, Switch)| e.1.room_id@ == room_id@;
    let mut out: Vec<TemplateSwitch> = Vec::new();
    let n = switches.len();
    let mut i: usize = 0;
    while i < n
        invariant
            n == switches@.len(),
            i <= n,
            pred == (|e: (String, Switch)| e.1.room_id@ == room_id@),
            out@.len() == switches@.take(i as int).filter(pred).len(),
            forall|k: int| 0 <= k < out@.len() ==>
                shows_switch(#[trigger] out@[k], switches@.take(i as int).filter(pred)[k]),
        decreases n - i,
    {
        proof {
            reveal_with_fuel(Seq::filter, 1);
            assert(switches@.take(i + 1).drop_last() =~= switches@.take(i as int));
        }
        let id = switches.key_at(i);
        let w = switches.value_at(i);
        if *&w.room_id == *room_id {
            let t = TemplateSwitch {
                id: id.clone(),
                name: w.name.clone(),
                status: String::new(),
                commands: clone_commands(&w.commands),
            };
            out.push(t);
        }
        i = i + 1;
    }
    assert(switches@.take(n as int) =~= switches@);
    out
}

/// `t` shows room `room_id` of `config`, with the store's measurements.
pub open spec fn shows_room(t: TemplateRoom, room_id: Seq<char>, config: Config, store: Seq<(String, Measurement)>) -> bool {
    &&& t.id@ == room_id
    &&& has_key(config.rooms@, room_id)
    &&& t.name@ == lookup(config.rooms@, room_id).unwrap().name@
    &&& t.sensors@.len() == sensors_in(config.sensors@, room_id).len()
    &&& (forall|k: int| 0 <= k < t.sensors@.len() ==>
            shows_sensor(#[trigger] t.sensors@[k], sensors_in(config.sensors@, room_id)[k], store))
    &&& t.actors@.len() == actors_in(config.actors@, room_id).len()
    &&& (forall|k: int| 0 <= k < t.actors@.len() ==>
            shows_actor(#[trigger] t.actors@[k], actors_in(config.actors@, room_id)[k]))
    &&& t.switches@.len() == switches_in(config.switches@, room_id).len()
    &&& (forall|k: int| 0 <= k < t.switches@.len() ==>
            shows_switch(#[trigger] t.switches@[k], switches_in(config.switches@, room_id)[k]))
}

/// The data shown for room `room_id`: its name and, in table order, the
/// sensors, actors and switches placed in it.
pub fn template_data_for_room(room_id: &String, config: &Config, data: &Data) -> (r: Result<TemplateRoom, String>)
    requires
        config.wf(),
        data.measurements.wf(),
        room_times_in_clock_range(config.sensors@, room_id@, data.measurements@),
        has_key(config.rooms@, room_id@),
    ensures
        r matches Ok(t) && shows_room(t, room_id@, *config, data.measurements@),
{
    let config_room = match config.rooms.get(room_id.as_str()) {
        Some(room) => room,
        None => {
            assert(false);
            return Err(String::new());
        },
    };
    let sensors = room_sensors(room_id, &config.sensors, data);
    let actors = room_actors(room_id, &config.actors);
    let switches = room_switches(room_id, &config.switches);
    Ok(TemplateRoom { id: room_id.clone(), name: config_room.name.clone(), sensors, actors, switches })
}

/// Every room of the room list is described in the configuration.
pub open spec fn rooms_listed_known(config: Config) -> bool {
    forall|i: int| 0 <= i < config.room_list@.len() ==> has_key(config.rooms@, #[trigger] config.room_list@[i]@)
}

/// The clock time of every measured value shown for a room of the room
/// list can be shown.
pub open spec fn listed_times_in_clock_range(config: Config, store: Seq<(String, Measurement)>) -> bool {
    forall|i: int| 0 <= i < config.room_list@.len() ==>
        room_times_in_clock_range(config.sensors@, (#[trigger] config.room_list@[i])@, store)
}

/// The rooms of the overview page, in the order of the room list.
pub fn index_rooms(config: &Config, data: &Data) -> (r: Vec<TemplateRoom>)
    requires
        config.wf(),
        data.measurements.wf(),
        listed_times_in_clock_range(*config, data.measurements@),
        rooms_listed_known(*config),
    ensures
        r@.len() == config.room_list@.len(),
        forall|i: int| 0 <= i < r@.len() ==>
            shows_room(#[trigger] r@[i], config.room_list@[i]@, *config, data.measurements@),
{
    let mut rooms: Vec<TemplateRoom> = Vec::new();
    let mut i: usize = 0;
    while i < config.room_list.len()
        invariant
            config.wf(),
            data.measurements.wf(),
            listed_times_in_clock_range(*config, data.measurements@),
            rooms_listed_known(*config),
            i <= config.room_list@.len(),
            rooms@.len() == i,
            forall|k: int| 0 <= k < i ==>
                shows_room(#[trigger] rooms@[k], config.room_list@[k]@, *config, data.measurements@),
        decreases config.room_list.len() - i,
    {
        let room_id = &config.room_list[i];
        assert(has_key(config.rooms@, config.room_list@[i as int]@));
        match template_data_for_room(room_id, config, data) {
            Ok(room) => rooms.push(room),
            Err(_) => {
                assert(false);
            },
        }
        i = i + 1;
    }
    rooms
}

/// Whether every room of the room list is described in the configuration.
pub fn check_rooms_listed(config: &Config) -> (b: bool)
    requires
        config.wf(),
    ensures
        b == rooms_listed_known(*config),
{
    let mut i: usize = 0;
    while i < config.room_list.len()
        invariant
            config.wf(),
            i <= config.room_list@.len(),
            forall|k: int| 0 <= k < i ==> has_key(config.rooms@, #[trigger] config.room_list@[k]@),
        decreases config.room_list.len() - i,
    {
        if !config.rooms.contains_key(config.room_list[i].as_str()) {
            return false;
        }
        i = i + 1;
    }
    true
}

} // verus!
