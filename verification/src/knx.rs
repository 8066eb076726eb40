//! KNX/IP: group addresses, commands, the telegrams sent to actors and the
//! decoding of the telegrams received from the bus.

use vstd::prelude::*;
use vstd::string::*;
use vstd::arithmetic::power2::{lemma2_to64, lemma_pow2_strictly_increases, pow2};
use crate::config::{eib_addr_text, Config, EibAddr, Sensor};
use crate::data::{Data, Dimension, Measurement, Unit, Value};
use crate::table::has_key;
use crate::text::{all_digits, dec, dec_value, is_digit, lemma_dec_digits, str_eq};

verus! {

// ---------------------------------------------------------------------------
// Group addresses in text form
// ---------------------------------------------------------------------------

/// Three digit runs joined by `/`.
pub open spec fn group_text(a: Seq<char>, b: Seq<char>, c: Seq<char>) -> Seq<char> {
    a + seq!['/'] + b + seq!['/'] + c
}

/// `s` is three non-empty runs of ASCII digits separated by `/`, and
/// nothing else.
pub open spec fn is_group_text(s: Seq<char>) -> bool {
    exists|a: Seq<char>, b: Seq<char>, c: Seq<char>|
        all_digits(a) && all_digits(b) && all_digits(c) && s == #[trigger] group_text(a, b, c)
}

/// The three digit runs of a group address text.
pub open spec fn group_parts(s: Seq<char>) -> (Seq<char>, Seq<char>, Seq<char>)
    recommends
        is_group_text(s),
{
    choose|a: Seq<char>, b: Seq<char>, c: Seq<char>|
        all_digits(a) && all_digits(b) && all_digits(c) && s == #[trigger] group_text(a, b, c)
}

/// Each part of a group address text, if `s` is one, is at most 255.
pub open spec fn group_parts_fit(s: Seq<char>) -> bool {
    is_group_text(s) ==> {
        let (a, b, c) = group_parts(s);
        dec_value(a) <= 255 && dec_value(b) <= 255 && dec_value(c) <= 255
    }
}

/// The group address written in `s`, if `s` is one.
pub open spec fn addr_of_text(s: Seq<char>) -> Option<EibAddr> {
    if is_group_text(s) {
        let (a, b, c) = group_parts(s);
        Some(EibAddr(dec_value(a) as u8, dec_value(b) as u8, dec_value(c) as u8))
    } else {
        None
    }
}

/// The error text of a string that is no group address.
pub open spec fn addr_format_error(s: Seq<char>) -> Seq<char> {
    "string '"@ + s + "' does not match format 'x/y/z'"@
}

/// A group address text splits into its digit runs in one way only.
pub proof fn lemma_group_text_unique(
    a: Seq<char>,
    b: Seq<char>,
    c: Seq<char>,
    x: Seq<char>,
    y: Seq<char>,
    z: Seq<char>,
)
    requires
        all_digits(a),
        all_digits(b),
        all_digits(c),
        all_digits(x),
        all_digits(y),
        all_digits(z),
        group_text(a, b, c) == group_text(x, y, z),
    ensures
        a == x,
        b == y,
        c == z,
{
    let s = group_text(a, b, c);
    assert(s[a.len() as int] == '/');
    assert(s[x.len() as int] == '/');
    if a.len() < x.len() {
        assert(x[a.len() as int] == s[a.len() as int]);
        assert(is_digit(x[a.len() as int]));
    }
    if x.len() < a.len() {
        assert(a[x.len() as int] == s[x.len() as int]);
        assert(is_digit(a[x.len() as int]));
    }
    assert(a.len() == x.len());
    assert(a =~= s.subrange(0, a.len() as int));
    assert(x =~= s.subrange(0, a.len() as int));
    let k: int = a.len() + 1 + b.len() as int;
    let l: int = a.len() + 1 + y.len() as int;
    assert(s[k] == '/');
    assert(s[l] == '/');
    if b.len() < y.len() {
        assert(y[b.len() as int] == s[k]);
        assert(is_digit(y[b.len() as int]));
    }
    if y.len() < b.len() {
        assert(b[y.len() as int] == s[l]);
        assert(is_digit(b[y.len() as int]));
    }
    assert(b =~= s.subrange(a.len() + 1int, k));
    assert(y =~= s.subrange(a.len() + 1int, k));
    assert(c =~= s.subrange(k + 1, s.len() as int));
    assert(z =~= s.subrange(k + 1, s.len() as int));
}

/// Reading back the text of a group address gives the address.
pub proof fn law_addr_text_roundtrip(a: EibAddr)
    ensures
        is_group_text(eib_addr_text(a)),
        group_parts_fit(eib_addr_text(a)),
        addr_of_text(eib_addr_text(a)) == Some(a),
{
    let x = dec(a.0 as nat);
    let y = dec(a.1 as nat);
    let z = dec(a.2 as nat);
    lemma_dec_digits(a.0 as nat);
    lemma_dec_digits(a.1 as nat);
    lemma_dec_digits(a.2 as nat);
    let s = eib_addr_text(a);
    assert(s == group_text(x, y, z));
    assert(is_group_text(s));
    let (p, q, r) = group_parts(s);
    lemma_group_text_unique(x, y, z, p, q, r);
}

/// Matches `s` against the group address pattern
/// `^([[:digit:]]+)/([[:digit:]]+)/([[:digit:]]+)$` of the `regex` crate and
/// hands back the three captured digit runs.
///
/// Trusted: `regex::Regex::new` and `Regex::captures`. The claim is that the
/// pattern, whose `[[:digit:]]` is the ASCII class `0-9` and whose `^`/`$`
/// anchor at the ends of the text, matches exactly the texts made of three
/// non-empty digit runs joined by `/`, and captures those runs.
#[verifier::external_body]
fn group_captures(s: &str) -> (r: Option<(String, String, String)>)
    ensures
        match r {
            Some((a, b, c)) => all_digits(a@) && all_digits(b@) && all_digits(c@)
                && s@ == group_text(a@, b@, c@),
            None => !is_group_text(s@),
        },
{
    let re = regex::Regex::new(
        r"^(?P<haupt>[[:digit:]]+)/(?P<mittel>[[:digit:]]+)/(?P<unter>[[:digit:]]+)$",
    ).unwrap();
    match re.captures(s) {
        Some(cap) => Some((cap["haupt"].to_string(), cap["mittel"].to_string(), cap["unter"].to_string())),
        None => None,
    }
}

proof fn lemma_dec_value_prefix(s: Seq<char>, i: int)
    requires
        0 <= i <= s.len(),
    ensures
        dec_value(s.subrange(0, i)) <= dec_value(s),
    decreases s.len() - i,
{
    if i < s.len() {
        lemma_dec_value_prefix(s, i + 1);
        assert(s.subrange(0, i + 1).drop_last() =~= s.subrange(0, i));
    } else {
        assert(s.subrange(0, i) =~= s);
    }
}

/// The value of a digit run, when it is at most 255.
fn digits_to_u8(d: &str) -> (r: Option<u8>)
    requires
        all_digits(d@),
    ensures
        match r {
            Some(v) => dec_value(d@) <= 255 && v == dec_value(d@),
            None => dec_value(d@) > 255,
        },
{
    let n = d.unicode_len();
    let mut acc: u32 = 0;
    let mut i: usize = 0;
    while i < n
        invariant
            n == d@.len(),
            i <= n,
            all_digits(d@),
            acc == dec_value(d@.subrange(0, i as int)),
            acc <= 255,
        decreases n - i,
    {
        let c = d.get_char(i);
        assert(is_digit(d@[i as int]));
        let v = (c as u32) - 48;
        proof {
            assert(d@.subrange(0, i + 1).drop_last() =~= d@.subrange(0, i as int));
            assert(d@.subrange(0, i + 1).last() == c);
        }
        acc = acc * 10 + v;
        i = i + 1;
        if acc > 255 {
            proof {
                lemma_dec_value_prefix(d@, i as int);
            }
            return None;
        }
    }
    assert(d@.subrange(0, n as int) =~= d@);
    Some(acc as u8)
}

/// Whether every part of `s`, if `s` is a group address text, is at most
/// 255 (so that `parse_addr` may be called on it).
pub fn group_parts_in_range(s: &str) -> (b: bool)
    ensures
        b == group_parts_fit(s@),
{
    match group_captures(s) {
        Some((a, b, c)) => {
            proof {
                let (x, y, z) = group_parts(s@);
                lemma_group_text_unique(a@, b@, c@, x, y, z);
            }
            digits_to_u8(a.as_str()).is_some() && digits_to_u8(b.as_str()).is_some()
                && digits_to_u8(c.as_str()).is_some()
        },
        None => true,
    }
}

/// Reads a group address `main/middle/sub`.
pub fn parse_addr(s: &str) -> (r: Result<EibAddr, String>)
    requires
        group_parts_fit(s@),
    ensures
        match r {
            Ok(a) => addr_of_text(s@) == Some(a),
            Err(msg) => addr_of_text(s@).is_none() && msg@ == addr_format_error(s@),
        },
{
    match group_captures(s) {
        Some((a, b, c)) => {
            proof {
                let (x, y, z) = group_parts(s@);
                lemma_group_text_unique(a@, b@, c@, x, y, z);
            }
            let x = digits_to_u8(a.as_str()).unwrap();
            let y = digits_to_u8(b.as_str()).unwrap();
            let z = digits_to_u8(c.as_str()).unwrap();
            Ok(EibAddr(x, y, z))
        },
        None => {
            let mut message = String::new();
            message.append("string '");
            message.append(s);
            message.append("' does not match format 'x/y/z'");
            Err(message)
        },
    }
}


// ---------------------------------------------------------------------------
// Commands and the telegrams that carry them
// ---------------------------------------------------------------------------

/// A command for an actor.
#[derive(Debug, Clone, Copy, PartialEq, Eq, Structural)]
pub enum Command {
    /// Dim to a percentage.
    Dimmer(u8),
    /// Switch on or off.
    Switch(bool),
    /// Move a shutter to a position.
    Shutter(u8),
}

/// The command named by a command text, if any.
pub open spec fn command_named(s: Seq<char>) -> Option<Command> {
    if s == "on"@ {
        Some(Command::Switch(true))
    } else if s == "off"@ {
        Some(Command::Switch(false))
    } else if s == "dim-0"@ {
        Some(Command::Dimmer(0))
    } else if s == "dim-5"@ {
        Some(Command::Dimmer(5))
    } else if s == "dim-10"@ {
        Some(Command::Dimmer(10))
    } else if s == "dim-25"@ {
        Some(Command::Dimmer(25))
    } else if s == "dim-50"@ {
        Some(Command::Dimmer(50))
    } else if s == "dim-100"@ {
        Some(Command::Dimmer(100))
    } else if s == "shutter-0"@ {
        Some(Command::Shutter(1))
    } else if s == "shutter-50"@ {
        Some(Command::Shutter(50))
    } else if s == "shutter-90"@ {
        Some(Command::Shutter(90))
    } else if s == "shutter-170"@ {
        Some(Command::Shutter(170))
    } else if s == "shutter-180"@ {
        Some(Command::Shutter(180))
    } else if s == "shutter-255"@ {
        Some(Command::Shutter(255))
    } else {
        None
    }
}

/// The error text of an unknown command text.
pub open spec fn unknown_command_text(s: Seq<char>) -> Seq<char> {
    "unknown string '"@ + s + "'"@
}

impl Command {
    /// Reads a command text: `on`, `off`, `dim-N` for N in 0, 5, 10, 25,
    /// 50, 100, and `shutter-N` for N in 0, 50, 90, 170, 180, 255
    /// (`shutter-0` moves to position 1).
    pub fn from_str(command_string: &str) -> (r: Result<Command, String>)
        ensures
            match r {
                Ok(c) => command_named(command_string@) == Some(c),
                Err(msg) => command_named(command_string@).is_none()
                    && msg@ == unknown_command_text(command_string@),
            },
    {
        let s = command_string;
        if str_eq(s, "on") {
            Ok(Command::Switch(true))
        } else if str_eq(s, "off") {
            Ok(Command::Switch(false))
        } else if str_eq(s, "dim-0") {
            Ok(Command::Dimmer(0))
        } else if str_eq(s, "dim-5") {
            Ok(Command::Dimmer(5))
        } else if str_eq(s, "dim-10") {
            Ok(Command::Dimmer(10))
        } else if str_eq(s, "dim-25") {
            Ok(Command::Dimmer(25))
        } else if str_eq(s, "dim-50") {
            Ok(Command::Dimmer(50))
        } else if str_eq(s, "dim-100") {
            Ok(Command::Dimmer(100))
        } else if str_eq(s, "shutter-0") {
            Ok(Command::Shutter(1))
        } else if str_eq(s, "shutter-50") {
            Ok(Command::Shutter(50))
        } else if str_eq(s, "shutter-90") {
            Ok(Command::Shutter(90))
        } else if str_eq(s, "shutter-170") {
            Ok(Command::Shutter(170))
        } else if str_eq(s, "shutter-180") {
            Ok(Command::Shutter(180))
        } else if str_eq(s, "shutter-255") {
            Ok(Command::Shutter(255))
        } else {
            let mut message = String::new();
            message.append("unknown string '");
            message.append(s);
            message.append("'");
            Err(message)
        }
    }
}

/// A telegram ready to be sent.
#[derive(Debug, Clone)]
pub struct SendMessage {
    pub raw: Vec<u8>,
}

/// The KNX/IP header of a routing indication of `total_len` bytes, the cEMI
/// data indication, and the source address 1.2.126.
pub open spec fn frame_header(total_len: u8) -> Seq<u8> {
    seq![0x06u8, 0x10u8, 0x05u8, 0x30u8, 0x00u8, total_len, 0x29u8, 0x00u8, 0xbcu8, 0xe0u8, 0x12u8, 0x7eu8]
}

/// A 16-bit group address, high byte first.
pub open spec fn group_bytes(grp: u16) -> Seq<u8> {
    seq![(grp >> 8u16) as u8, (grp & 0xffu16) as u8]
}

/// The telegram that switches group `grp` on or off.
pub open spec fn onoff_frame(grp: u16, onoff: bool) -> Seq<u8> {
    frame_header(0x11) + group_bytes(grp) + seq![1u8, 0x00u8, if onoff { 0x81u8 } else { 0x80u8 }]
}

/// The brightness byte sent for a dimming percentage: `percent * 255 / 100`,
/// truncated to its low eight bits.
pub open spec fn dimmer_level(percent: u8) -> u8 {
    ((percent as int * 255 / 100) % 256) as u8
}

/// The telegram that dims group `grp` to `percent`.
pub open spec fn dimmer_frame(grp: u16, percent: u8) -> Seq<u8> {
    frame_header(0x12) + group_bytes(grp) + seq![2u8, 0x00u8, 0x80u8, dimmer_level(percent)]
}

/// The telegram that moves the shutter at group `grp` to `position`.
pub open spec fn rollo_frame(grp: u16, position: u8) -> Seq<u8> {
    frame_header(18) + group_bytes(grp) + seq![2u8, 0u8, 0x80u8, position]
}

/// The telegram that carries `command` to group `grp`.
pub open spec fn command_frame(grp: u16, command: Command) -> Seq<u8> {
    match command {
        Command::Dimmer(p) => dimmer_frame(grp, p),
        Command::Switch(on) => onoff_frame(grp, on),
        Command::Shutter(p) => rollo_frame(grp, p),
    }
}

fn push_header(v: &mut Vec<u8>, total_len: u8, grp: u16)
    requires
        old(v)@.len() == 0,
    ensures
        final(v)@ == frame_header(total_len) + group_bytes(grp),
{
    v.push(0x06);
    v.push(0x10);
    v.push(0x05);
    v.push(0x30);
    v.push(0x00);
    v.push(total_len);
    v.push(0x29);
    v.push(0x00);
    v.push(0xbc);
    v.push(0xe0);
    v.push(0x12);
    v.push(0x7e);
    v.push((grp >> 8) as u8);
    v.push((grp & 0xff) as u8);
    assert(v@ =~= frame_header(total_len) + group_bytes(grp));
}

/// The telegram that switches group `grp` on or off.
pub fn create_knx_frame_onoff(grp: u16, onoff: bool) -> (r: Result<SendMessage, ()>)
    ensures
        r matches Ok(m) && m.raw@ == onoff_frame(grp, onoff),
{
    let mut raw: Vec<u8> = Vec::new();
    push_header(&mut raw, 0x11, grp);
    raw.push(1u8);
    raw.push(0x00);
    if onoff {
        raw.push(0x81u8);
    } else {
        raw.push(0x80);
    }
    assert(raw@ =~= onoff_frame(grp, onoff));
    Ok(SendMessage { raw })
}

/// The telegram that dims group `grp` to `percent`.
pub fn create_knx_frame_dimmer(grp: u16, percent: u8) -> (r: Result<SendMessage, ()>)
    ensures
        r matches Ok(m) && m.raw@ == dimmer_frame(grp, percent),
{
    let mut v: Vec<u8> = Vec::new();
    push_header(&mut v, 0x12, grp);
    let percent_byte: u16 = percent as u16 * 255 / 100;
    v.push(2u8);
    v.push(0x00);
    v.push(0x80);
    v.push(percent_byte as u8);
    assert(percent_byte as u8 == percent_byte % 256) by (bit_vector);
    assert(v@ =~= dimmer_frame(grp, percent));
    Ok(SendMessage { raw: v })
}

/// The telegram that moves the shutter at group `grp` to `percent`.
pub fn create_knx_frame_rollo(grp: u16, percent: &u8) -> (r: Result<SendMessage, ()>)
    ensures
        r matches Ok(m) && m.raw@ == rollo_frame(grp, *percent),
{
    let mut v: Vec<u8> = Vec::new();
    push_header(&mut v, 18u8, grp);
    v.push(2u8);
    v.push(0u8);
    v.push(0x80u8);
    v.push(*percent);
    assert(v@ =~= rollo_frame(grp, *percent));
    Ok(SendMessage { raw: v })
}

/// The 16-bit form of a group address: main part in the top four bits,
/// middle part from bit 8, sub part in the low byte (parts that do not fit
/// their bits overlap or are cut off).
pub open spec fn group_address(a: EibAddr) -> u16 {
    ((a.0 as u16) << 12u16) | ((a.1 as u16) << 8u16) | (a.2 as u16)
}

/// The 16-bit form of a group address.
pub fn group_address_of(addr: &EibAddr) -> (grp: u16)
    ensures
        grp == group_address(*addr),
{
    let a = (addr.0 as u16) << 12;
    let b = (addr.1 as u16) << 8;
    let c = addr.2 as u16;
    a | b | c
}

/// The telegram that carries `command` to group `grp`.
pub fn command_telegram(grp: u16, command: &Command) -> (m: SendMessage)
    ensures
        m.raw@ == command_frame(grp, *command),
{
    let msg = match command {
        Command::Dimmer(x) => create_knx_frame_dimmer(grp, *x),
        Command::Switch(x) => create_knx_frame_onoff(grp, *x),
        Command::Shutter(x) => create_knx_frame_rollo(grp, x),
    };
    match msg {
        Ok(m) => m,
        Err(()) => {
            assert(false);
            SendMessage { raw: Vec::new() }
        },
    }
}

/// The telegram that carries `command` to the group written in
/// `group_string` (what an actor is sent).
pub fn telegram_for(group_string: &String, command: &Command) -> (m: SendMessage)
    requires
        group_parts_fit(group_string@),
        addr_of_text(group_string@).is_some(),
    ensures
        m.raw@ == command_frame(group_address(addr_of_text(group_string@).unwrap()), *command),
{
    let addr = match parse_addr(group_string.as_str()) {
        Ok(a) => a,
        Err(_) => {
            assert(false);
            EibAddr(0, 0, 0)
        },
    };
    let grp = group_address_of(&addr);
    command_telegram(grp, command)
}


// ---------------------------------------------------------------------------
// Telegrams received from the bus
// ---------------------------------------------------------------------------

/// A telegram received from the bus, with what it measures.
#[derive(Debug, Clone)]
pub struct Message {
    pub timestamp: u64,
    pub src: EibAddr,
    pub dst: EibAddr,
    pub measurement: Option<Measurement>,
    pub raw: Vec<u8>,
}

/// The mantissa bits of a two-byte float `MEEEEMMM MMMMMMMM` (the low three
/// bits of the high byte, then the low byte).
pub open spec fn float16_mantissa(high: u8, low: u8) -> nat {
    (high & 0x07u8) as nat * 256 + low as nat
}

/// The exponent bits of a two-byte float: bits 3 to 6 of the high byte.
pub open spec fn float16_exponent(high: u8) -> nat {
    ((high >> 3u8) & 0x0fu8) as nat
}

/// The sign test of the decoder: bits 4, 5 and 6 of the high byte all set.
pub open spec fn float16_negative(high: u8) -> bool {
    high & 0x70u8 == 0x70u8
}

/// The value of a two-byte float: `mantissa * 2^exponent / 100`.
pub open spec fn float16_value(high: u8, low: u8) -> Value {
    Value::Float16 {
        negative: float16_negative(high),
        magnitude: (float16_mantissa(high, low) * pow2(float16_exponent(high))) as u32,
    }
}

/// The dimension and unit of a two-byte float telegram, by the sub part of
/// its destination group.
pub open spec fn float16_kind(sub_group: u8) -> (Dimension, Unit) {
    if sub_group == 0x01 || sub_group == 0x03 || sub_group == 0x06 {
        (Dimension::Brightness, Unit::Lux)
    } else if sub_group == 0x04 {
        (Dimension::Temperature, Unit::Celsius)
    } else {
        (Dimension::Unspecified, Unit::One)
    }
}

/// What a telegram of at least 14 bytes measures, by its length: 19 bytes
/// carry a two-byte float, 17 an on/off state (`0x80` is off), 18 a byte
/// scaled to percent; other lengths carry nothing.
pub open spec fn measurement_of(raw: Seq<u8>, timestamp: u64) -> Option<Measurement> {
    if raw.len() == 19 {
        Some(Measurement {
            timestamp,
            dimension: float16_kind(raw[13]).0,
            unit: float16_kind(raw[13]).1,
            value: Some(float16_value(raw[17], raw[18])),
        })
    } else if raw.len() == 17 {
        Some(Measurement {
            timestamp,
            dimension: Dimension::OnOff,
            unit: Unit::One,
            value: Some(Value::Switch(raw[16] != 0x80u8)),
        })
    } else if raw.len() == 18 {
        Some(Measurement {
            timestamp,
            dimension: Dimension::Percent,
            unit: Unit::One,
            value: Some(Value::Scaled(raw[17])),
        })
    } else {
        None
    }
}

/// The group address in two bytes: main part in the high nibble of the
/// first, middle part in its low nibble, sub part in the second.
pub open spec fn addr_of_bytes(hi: u8, lo: u8) -> EibAddr {
    EibAddr(hi >> 4u8, hi & 0xfu8, lo)
}

/// `m` is the telegram `raw`, received at `timestamp`, decoded.
pub open spec fn decodes(raw: Seq<u8>, timestamp: u64, m: Message) -> bool {
    &&& raw.len() >= 14
    &&& m.timestamp == timestamp
    &&& m.src == addr_of_bytes(raw[10], raw[11])
    &&& m.dst == addr_of_bytes(raw[12], raw[13])
    &&& m.measurement == measurement_of(raw, timestamp)
    &&& m.raw@ == raw
}

/// Decodes a two-byte float into its value.
pub fn float16_of(high: u8, low: u8) -> (v: Value)
    ensures
        v == float16_value(high, low),
{
    let m_hi = high & 0x07;
    let e8 = (high >> 3) & 0x0f;
    assert(high & 0x07u8 <= 7) by (bit_vector);
    assert((high >> 3u8) & 0x0fu8 <= 15) by (bit_vector);
    let m: u32 = (m_hi as u32) * 256 + low as u32;
    let e: u32 = e8 as u32;
    proof {
        lemma2_to64();
        if e < 15 {
            lemma_pow2_strictly_increases(e as nat, 15);
        }
        assert(pow2(e as nat) <= 32768);
        assert(m * pow2(e as nat) <= 2047 * 32768) by (nonlinear_arith)
            requires
                m <= 2047,
                pow2(e as nat) <= 32768,
        ;
        vstd::bits::lemma_u32_shl_is_mul(m, e);
    }
    let magnitude: u32 = m << e;
    let negative = high & 0x70 == 0x70;
    Value::Float16 { negative, magnitude }
}

impl Message {
    /// Decodes a telegram received at `timestamp`: telegrams shorter than
    /// 14 bytes are refused; otherwise the source address is in bytes 10
    /// and 11, the destination in bytes 12 and 13, and the measurement
    /// follows from the length.
    pub fn from_raw(raw: Vec<u8>, timestamp: u64) -> (r: Result<Message, ()>)
        ensures
            r is Err <==> raw@.len() < 14,
            r matches Ok(m) ==> decodes(raw@, timestamp, m),
    {
        if raw.len() < 14 {
            return Err(());
        }
        let src = EibAddr(raw[10] >> 4, raw[10] & 0xf, raw[11]);
        let dst = EibAddr(raw[12] >> 4, raw[12] & 0xf, raw[13]);
        let len = raw.len();
        let measurement = if len == 19 {
            let value = float16_of(raw[17], raw[18]);
            let kind = raw[13];
            let (dimension, unit) = if kind == 0x01 || kind == 0x03 || kind == 0x06 {
                (Dimension::Brightness, Unit::Lux)
            } else if kind == 0x04 {
                (Dimension::Temperature, Unit::Celsius)
            } else {
                (Dimension::Unspecified, Unit::One)
            };
            Some(Measurement { timestamp, dimension, unit, value: Some(value) })
        } else if len == 17 {
            let on = raw[16] != 0x80;
            Some(Measurement { timestamp, dimension: Dimension::OnOff, unit: Unit::One, value: Some(Value::Switch(on)) })
        } else if len == 18 {
            Some(Measurement { timestamp, dimension: Dimension::Percent, unit: Unit::One, value: Some(Value::Scaled(raw[17])) })
        } else {
            None
        };
        Ok(Message { timestamp, src, dst, measurement, raw })
    }
}

/// The fields of a two-byte float as another decoder reads them: the
/// mantissa (`(high & 0x07) * 256 + low`), the sign (bit 7 of `high`), and
/// the exponent (`high & 0x70` itself, or 1 when those bits are clear).
pub fn float16_fields(high: u8, low: u8) -> (r: (u16, bool, i32))
    ensures
        r.0 == float16_mantissa(high, low),
        r.1 == (high & 0x80u8 == 0x80u8),
        r.2 == (if high & 0x70u8 == 0 { 1 } else { (high & 0x70u8) as int }),
{
    assert(high & 0x07u8 <= 7) by (bit_vector);
    let mantissa: u16 = ((high & 0x07) as u16 * 256) + low as u16;
    let negative = high & 0x80 == 0x80;
    let bits = high & 0x70;
    let exponent: i32 = if bits == 0 { 1 } else { bits as i32 };
    (mantissa, negative, exponent)
}


/// What a telegram built for `command` measures when it is read back.
pub open spec fn command_reading(command: Command, timestamp: u64) -> Measurement {
    match command {
        Command::Switch(on) => Measurement {
            timestamp,
            dimension: Dimension::OnOff,
            unit: Unit::One,
            value: Some(Value::Switch(on)),
        },
        Command::Dimmer(p) => Measurement {
            timestamp,
            dimension: Dimension::Percent,
            unit: Unit::One,
            value: Some(Value::Scaled(dimmer_level(p))),
        },
        Command::Shutter(p) => Measurement {
            timestamp,
            dimension: Dimension::Percent,
            unit: Unit::One,
            value: Some(Value::Scaled(p)),
        },
    }
}

proof fn lemma_group_bytes(a: u8, b: u8, c: u8)
    requires
        a < 16,
        b < 16,
    ensures
        ({
            let g = ((a as u16) << 12u16) | ((b as u16) << 8u16) | (c as u16);
            &&& ((g >> 8u16) as u8) >> 4u8 == a
            &&& ((g >> 8u16) as u8) & 0xfu8 == b
            &&& (g & 0xffu16) as u8 == c
        }),
{
    assert(a < 16 && b < 16 ==> ({
        let g = ((a as u16) << 12u16) | ((b as u16) << 8u16) | (c as u16);
        &&& ((g >> 8u16) as u8) >> 4u8 == a
        &&& ((g >> 8u16) as u8) & 0xfu8 == b
        &&& (g & 0xffu16) as u8 == c
    })) by (bit_vector);
}

/// Every telegram built for a command declares its own length in byte 5,
/// comes from 1.2.126, and, read back, gives the group it was built for
/// (when the main and middle parts fit their four bits) and the state or
/// level it carries.
pub proof fn law_telegram_readback(addr: EibAddr, command: Command, timestamp: u64)
    requires
        addr.0 < 16,
        addr.1 < 16,
    ensures
        ({
            let raw = command_frame(group_address(addr), command);
            &&& raw.len() >= 14
            &&& raw[5] as int == raw.len()
            &&& addr_of_bytes(raw[10], raw[11]) == EibAddr(1, 2, 126)
            &&& addr_of_bytes(raw[12], raw[13]) == addr
            &&& measurement_of(raw, timestamp) == Some(command_reading(command, timestamp))
        }),
{
    lemma_group_bytes(addr.0, addr.1, addr.2);
    assert(0x12u8 >> 4u8 == 1 && 0x12u8 & 0xfu8 == 2) by (bit_vector);
    let raw = command_frame(group_address(addr), command);
    assert(raw[12] == (group_address(addr) >> 8u16) as u8);
    assert(raw[13] == (group_address(addr) & 0xffu16) as u8);
}


/// A received two-byte float is negative exactly when bits 4, 5 and 6 of
/// its high byte are all set, and its magnitude is the eleven-bit mantissa
/// (the low three bits of the high byte above the low byte) times two to
/// the power of the four exponent bits (bits 3 to 6 of the high byte); a
/// 19-byte telegram carries that value in its bytes 17 and 18.
pub proof fn law_float16_reading(high: u8, low: u8, raw: Seq<u8>, timestamp: u64)
    ensures
        float16_value(high, low) matches Value::Float16 { negative, magnitude }
            && negative == ((high as int / 16) % 8 == 7)
            && magnitude as int == ((high as int % 8) * 256 + low as int) * pow2(((high as int / 8) % 16) as nat),
        raw.len() == 19 ==> (measurement_of(raw, timestamp) matches Some(m)
            && m.value == Some(float16_value(raw[17], raw[18]))),
{
    assert((high & 0x70u8 == 0x70u8) == ((high / 16u8) % 8u8 == 7u8)) by (bit_vector);
    assert(high & 0x07u8 == high % 8u8) by (bit_vector);
    assert((high >> 3u8) & 0x0fu8 == (high / 8u8) % 16u8) by (bit_vector);
    let m = float16_mantissa(high, low);
    let e = float16_exponent(high);
    lemma2_to64();
    if e < 15 {
        lemma_pow2_strictly_increases(e, 15);
    }
    assert(m <= 2047);
    assert(m * pow2(e) <= 2047 * 32768) by (nonlinear_arith)
        requires
            m <= 2047,
            pow2(e) <= 32768,
    ;
}

/// The level byte of a dimmer telegram is `percent * 255 / 100`, cut to a
/// byte: it grows with the percentage and is nonzero for every percentage
/// from 1 to 100 (a dimmed light is never switched off).
pub proof fn law_dimmer_level(grp: u16, p: u8, q: u8)
    ensures
        command_frame(grp, Command::Dimmer(p)).len() == 18,
        command_frame(grp, Command::Dimmer(p))[17] as int == (p as int * 255 / 100) % 256,
        0 < p <= 100 ==> command_frame(grp, Command::Dimmer(p))[17] > 0,
        p <= q <= 100 ==> command_frame(grp, Command::Dimmer(p))[17] <= command_frame(grp, Command::Dimmer(q))[17],
{
    assert(p as int * 255 / 100 <= q as int * 255 / 100 || !(p <= q)) by (nonlinear_arith);
}


// ---------------------------------------------------------------------------
// Handling received telegrams
// ---------------------------------------------------------------------------

/// Entry `i` is the first sensor that listens to the group written `text`.
pub open spec fn first_listener(sensors: Seq<(String, Sensor)>, text: Seq<char>, i: int) -> bool {
    &&& 0 <= i < sensors.len()
    &&& sensors[i].1.eibaddr@ == text
    &&& forall|j: int| 0 <= j < i ==> #[trigger] sensors[j].1.eibaddr@ != text
}

/// No sensor listens to the group written `text`.
pub open spec fn no_listener(sensors: Seq<(String, Sensor)>, text: Seq<char>) -> bool {
    forall|j: int| 0 <= j < sensors.len() ==> #[trigger] sensors[j].1.eibaddr@ != text
}

/// The sensor configured for group address `addr`: the first, in the
/// table's order, whose group address text is `addr` written `x/y/z`.
pub fn get_sensor_from<'a>(config: &'a Config, addr: &EibAddr) -> (r: Option<(&'a String, &'a Sensor)>)
    ensures
        match r {
            Some((id, sensor)) => exists|i: int|
                first_listener(config.sensors@, eib_addr_text(*addr), i)
                    && *id == config.sensors@[i].0 && *sensor == #[trigger] config.sensors@[i].1,
            None => no_listener(config.sensors@, eib_addr_text(*addr)),
        },
{
    let addr_string = addr.to_string();
    let n = config.sensors.len();
    let mut i: usize = 0;
    while i < n
        invariant
            n == config.sensors@.len(),
            i <= n,
            addr_string@ == eib_addr_text(*addr),
            forall|j: int| 0 <= j < i ==> #[trigger] config.sensors@[j].1.eibaddr@ != addr_string@,
        decreases n - i,
    {
        let sensor = config.sensors.value_at(i);
        if str_eq(sensor.eibaddr.as_str(), addr_string.as_str()) {
            let id = config.sensors.key_at(i);
            assert(first_listener(config.sensors@, eib_addr_text(*addr), i as int));
            return Some((id, sensor));
        }
        i = i + 1;
    }
    None
}

/// What became of a received telegram.
#[derive(Debug)]
pub enum FrameOutcome {
    /// The telegram could not be decoded.
    Unparsable,
    /// No sensor listens to the telegram's destination group.
    Unhandled { message: Message },
    /// Sensor `id` listens to the destination group; `stored` tells whether
    /// a measurement was recorded for it in the store.
    Handled { id: String, message: Message, stored: bool },
}

/// `new` is `old` with the measurement stored under `id` updated to
/// `value`, taken at `timestamp`.
pub open spec fn updated_reading(
    old: Seq<(String, Measurement)>,
    new: Seq<(String, Measurement)>,
    id: Seq<char>,
    timestamp: u64,
    value: Option<Value>,
) -> bool {
    exists|j: int|
        0 <= j < old.len() && #[trigger] old[j].0@ == id && new == old.update(
            j,
            (old[j].0, Measurement { timestamp, dimension: old[j].1.dimension, unit: old[j].1.unit, value }),
        )
}

/// Handles one telegram received at `timestamp`: decodes it, finds the
/// sensor that listens to its destination group and, when it carries a
/// measurement, records that measurement's value and the time in the
/// store under the sensor's identifier (when the store knows it).
pub fn handle_frame(config: &Config, data: &mut Data, raw: Vec<u8>, timestamp: u64) -> (r: FrameOutcome)
    requires
        old(data).measurements.wf(),
    ensures
        final(data).measurements.wf(),
        match r {
            FrameOutcome::Unparsable => raw@.len() < 14 && final(data).measurements@ == old(data).measurements@,
            FrameOutcome::Unhandled { message } => decodes(raw@, timestamp, message)
                && no_listener(config.sensors@, eib_addr_text(message.dst))
                && final(data).measurements@ == old(data).measurements@,
            FrameOutcome::Handled { id, message, stored } => decodes(raw@, timestamp, message)
                && (exists|i: int| first_listener(config.sensors@, eib_addr_text(message.dst), i)
                    && #[trigger] config.sensors@[i].0 == id)
                && (stored <==> (message.measurement is Some && has_key(old(data).measurements@, id@)))
                && (stored ==> updated_reading(old(data).measurements@, final(data).measurements@, id@,
                    timestamp, message.measurement.unwrap().value))
                && (!stored ==> final(data).measurements@ == old(data).measurements@),
        },
{
    match Message::from_raw(raw, timestamp) {
        Err(()) => FrameOutcome::Unparsable,
        Ok(msg) => {
            match get_sensor_from(config, &msg.dst) {
                None => FrameOutcome::Unhandled { message: msg },
                Some((id, _sensor)) => {
                    let id = id.clone();
                    let mut stored = false;
                    match msg.measurement {
                        Some(m) => {
                            match data.get_mut(&id) {
                                Some(store) => {
                                    store.timestamp = timestamp;
                                    store.value = m.value;
                                    stored = true;
                                },
                                None => {},
                            }
                        },
                        None => {},
                    }
                    proof {
                        if stored {
                            let j = choose|j: int| 0 <= j < old(data).measurements@.len()
                                && #[trigger] old(data).measurements@[j].0@ == id@;
                            assert(data.measurements@[j].0 == old(data).measurements@[j].0);
                            assert forall|a: int, b: int| 0 <= a < b < data.measurements@.len() implies
                                #[trigger] data.measurements@[a].0@ != #[trigger] data.measurements@[b].0@ by {
                                assert(data.measurements@[a].0 == old(data).measurements@[a].0);
                                assert(data.measurements@[b].0 == old(data).measurements@[b].0);
                            }
                        }
                    }
                    FrameOutcome::Handled { id, message: msg, stored }
                },
            }
        },
    }
}

} // verus!
