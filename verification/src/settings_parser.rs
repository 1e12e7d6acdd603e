//! The application settings: the timer list, the poll interval, the playback
//! flags and the sound location, read from and rendered to `key=value` text.
//!
//! A timer list is written `duration#rrggbb` entries joined by commas, the
//! duration in decimal milliseconds and the colour as six hexadecimal
//! characters.  The playback volume is kept as its text: it is a fractional
//! value that only the audio collaborator reads.

use vstd::prelude::*;
use vstd::string::*;

use crate::countdown::Color;
use crate::fmt_digits::{append_decimal, append_hex2, dec_digits, hex2};
use crate::keys_and_values::{
    KeysAndValues, ParseError, first_index_of, lemma_first_index_charac, spec_get, spec_insert,
    spec_kv_of_str, spec_split, split_exec,
};

verus! {

/// Whether `c` is a decimal digit.
pub open spec fn is_digit(c: char) -> bool {
    c == '0' || c == '1' || c == '2' || c == '3' || c == '4' || c == '5' || c == '6' || c == '7'
        || c == '8' || c == '9'
}

/// The value of a decimal digit; zero for any other character.
pub open spec fn digit_val(c: char) -> int {
    if c == '1' {
        1
    } else if c == '2' {
        2
    } else if c == '3' {
        3
    } else if c == '4' {
        4
    } else if c == '5' {
        5
    } else if c == '6' {
        6
    } else if c == '7' {
        7
    } else if c == '8' {
        8
    } else if c == '9' {
        9
    } else {
        0
    }
}

/// Whether every position of `s` holds a decimal digit.
pub open spec fn all_digits(s: Seq<char>) -> bool {
    forall|k: int| 0 <= k < s.len() ==> is_digit(s[k])
}

/// The numeric value of a digit string.
pub open spec fn spec_dec_value(s: Seq<char>) -> int
    decreases s.len(),
{
    if s.len() == 0 {
        0
    } else {
        spec_dec_value(s.drop_last()) * 10 + digit_val(s.last())
    }
}

/// The unsigned 64-bit number a string denotes: one or more decimal digits
/// whose value fits, and nothing else.
pub open spec fn spec_parse_u64(s: Seq<char>) -> Option<u64> {
    if s.len() > 0 && all_digits(s) && spec_dec_value(s) <= u64::MAX {
        Some(spec_dec_value(s) as u64)
    } else {
        None
    }
}

/// A digit string's value is never negative.
pub proof fn lemma_dec_value_nonneg(s: Seq<char>)
    ensures
        spec_dec_value(s) >= 0,
    decreases s.len(),
{
    if s.len() > 0 {
        lemma_dec_value_nonneg(s.drop_last());
    }
}

/// A digit string's value is at least the value of any of its prefixes.
pub proof fn lemma_dec_value_prefix_le(s: Seq<char>, i: int)
    requires
        0 <= i <= s.len(),
    ensures
        spec_dec_value(s.take(i)) <= spec_dec_value(s),
    decreases s.len() - i,
{
    if i == s.len() {
        assert(s.take(i) =~= s);
    } else {
        assert(s.take(i + 1).drop_last() =~= s.take(i));
        assert(s.take(i + 1).last() == s[i]);
        lemma_dec_value_nonneg(s.take(i));
        lemma_dec_value_prefix_le(s, i + 1);
    }
}

/// Read an unsigned 64-bit decimal number; see [`spec_parse_u64`].
pub fn parse_u64(s: &str) -> (r: Option<u64>)
    ensures
        r == spec_parse_u64(s@),
{
    let n = s.unicode_len();
    if n == 0 {
        return None;
    }
    let mut acc: u64 = 0;
    let mut i: usize = 0;
    proof {
        assert(s@.take(0) =~= Seq::<char>::empty());
    }
    while i < n
        invariant
            n == s@.len(),
            i <= n,
            all_digits(s@.take(i as int)),
            acc == spec_dec_value(s@.take(i as int)),
        decreases n - i,
    {
        let c = s.get_char(i);
        let d: u64;
        if c == '0' {
            d = 0;
        } else if c == '1' {
            d = 1;
        } else if c == '2' {
            d = 2;
        } else if c == '3' {
            d = 3;
        } else if c == '4' {
            d = 4;
        } else if c == '5' {
            d = 5;
        } else if c == '6' {
            d = 6;
        } else if c == '7' {
            d = 7;
        } else if c == '8' {
            d = 8;
        } else if c == '9' {
            d = 9;
        } else {
            proof {
                assert(!is_digit(s@[i as int]));
            }
            return None;
        }
        proof {
            assert(s@.take(i as int + 1).drop_last() =~= s@.take(i as int));
            assert(s@.take(i as int + 1).last() == s@[i as int]);
            assert(digit_val(s@[i as int]) == d as int);
            vstd::arithmetic::div_mod::lemma_fundamental_div_mod((u64::MAX - d) as int, 10);
            vstd::arithmetic::div_mod::lemma_mod_division_less_than_divisor(
                (u64::MAX - d) as int,
                10,
            );
            vstd::arithmetic::div_mod::lemma_mod_pos_bound((u64::MAX - d) as int, 10);
        }
        if acc > (u64::MAX - d) / 10 {
            proof {
                assert(spec_dec_value(s@.take(i as int + 1)) > u64::MAX);
                lemma_dec_value_prefix_le(s@, i as int + 1);
            }
            return None;
        }
        acc = acc * 10 + d;
        i = i + 1;
    }
    proof {
        assert(s@.take(n as int) =~= s@);
    }
    Some(acc)
}

/// Compare two strings character for character.
fn str_eq(a: &str, b: &str) -> (r: bool)
    ensures
        r == (a@ == b@),
{
    let x = a.to_owned();
    let y = b.to_owned();
    x == y
}

/// The boolean a string denotes: exactly `true` or `false`.
pub open spec fn spec_parse_bool(s: Seq<char>) -> Option<bool> {
    if s == "true"@ {
        Some(true)
    } else if s == "false"@ {
        Some(false)
    } else {
        None
    }
}

/// Read a boolean; see [`spec_parse_bool`].
pub fn parse_bool(s: &str) -> (r: Option<bool>)
    ensures
        r == spec_parse_bool(s@),
{
    if str_eq(s, "true") {
        Some(true)
    } else if str_eq(s, "false") {
        Some(false)
    } else {
        None
    }
}

/// Whether `c` is a hexadecimal digit, either case.
pub open spec fn is_hex_digit(c: char) -> bool {
    is_digit(c) || c == 'a' || c == 'b' || c == 'c' || c == 'd' || c == 'e' || c == 'f' || c == 'A'
        || c == 'B' || c == 'C' || c == 'D' || c == 'E' || c == 'F'
}

/// The value of a hexadecimal digit; zero for any other character.
pub open spec fn hex_val(c: char) -> int {
    if c == 'a' || c == 'A' {
        10
    } else if c == 'b' || c == 'B' {
        11
    } else if c == 'c' || c == 'C' {
        12
    } else if c == 'd' || c == 'D' {
        13
    } else if c == 'e' || c == 'E' {
        14
    } else if c == 'f' || c == 'F' {
        15
    } else {
        digit_val(c)
    }
}

/// Read one hexadecimal digit, either case.
fn hex_digit(c: char) -> (r: Option<u8>)
    ensures
        (match r {
            Some(v) => is_hex_digit(c) && v as int == hex_val(c) && v < 16,
            None => !is_hex_digit(c),
        }),
{
    if c == '0' {
        Some(0)
    } else if c == '1' {
        Some(1)
    } else if c == '2' {
        Some(2)
    } else if c == '3' {
        Some(3)
    } else if c == '4' {
        Some(4)
    } else if c == '5' {
        Some(5)
    } else if c == '6' {
        Some(6)
    } else if c == '7' {
        Some(7)
    } else if c == '8' {
        Some(8)
    } else if c == '9' {
        Some(9)
    } else if c == 'a' || c == 'A' {
        Some(10)
    } else if c == 'b' || c == 'B' {
        Some(11)
    } else if c == 'c' || c == 'C' {
        Some(12)
    } else if c == 'd' || c == 'D' {
        Some(13)
    } else if c == 'e' || c == 'E' {
        Some(14)
    } else if c == 'f' || c == 'F' {
        Some(15)
    } else {
        None
    }
}

/// The colour six hexadecimal characters denote, two per component.
pub open spec fn spec_parse_color(s: Seq<char>) -> Option<(u8, u8, u8)> {
    if s.len() == 6 && (forall|k: int| 0 <= k < 6 ==> is_hex_digit(s[k])) {
        Some(
            (
                (16 * hex_val(s[0]) + hex_val(s[1])) as u8,
                (16 * hex_val(s[2]) + hex_val(s[3])) as u8,
                (16 * hex_val(s[4]) + hex_val(s[5])) as u8,
            ),
        )
    } else {
        None
    }
}

/// Read a colour written as six hexadecimal characters; see
/// [`spec_parse_color`].
pub fn parse_color(hex: &str) -> (r: Result<(u8, u8, u8), String>)
    ensures
        (match r {
            Ok(c) => spec_parse_color(hex@) == Some(c),
            Err(_) => spec_parse_color(hex@) is None,
        }),
{
    let n = hex.unicode_len();
    if n != 6 {
        return Err(String::from_str("Colors should be 6 hex characters"));
    }
    let v0 = match hex_digit(hex.get_char(0)) {
        Some(v) => v,
        None => {
            return Err(String::from_str("Invalid red component (00-ff)"));
        },
    };
    let v1 = match hex_digit(hex.get_char(1)) {
        Some(v) => v,
        None => {
            return Err(String::from_str("Invalid red component (00-ff)"));
        },
    };
    let v2 = match hex_digit(hex.get_char(2)) {
        Some(v) => v,
        None => {
            return Err(String::from_str("Invalid green component (00-ff)"));
        },
    };
    let v3 = match hex_digit(hex.get_char(3)) {
        Some(v) => v,
        None => {
            return Err(String::from_str("Invalid green component (00-ff)"));
        },
    };
    let v4 = match hex_digit(hex.get_char(4)) {
        Some(v) => v,
        None => {
            return Err(String::from_str("Invalid blue component (00-ff)"));
        },
    };
    let v5 = match hex_digit(hex.get_char(5)) {
        Some(v) => v,
        None => {
            return Err(String::from_str("Invalid blue component (00-ff)"));
        },
    };
    Ok((16 * v0 + v1, 16 * v2 + v3, 16 * v4 + v5))
}

/// The timer one `duration#rrggbb` entry denotes: the decimal duration
/// before the first `#`, the colour after it.
pub open spec fn spec_parse_timer_entry(e: Seq<char>) -> Option<(u64, (u8, u8, u8))> {
    let i = first_index_of(e, '#');
    if i == -1 {
        None
    } else {
        let ms = spec_parse_u64(e.take(i));
        let c = spec_parse_color(e.skip(i + 1));
        if ms is Some && c is Some {
            Some((ms.unwrap(), c.unwrap()))
        } else {
            None
        }
    }
}

/// The timer list a string denotes: entries between commas, each read by
/// [`spec_parse_timer_entry`]; nothing unless every entry reads.
pub open spec fn spec_parse_timers(s: Seq<char>) -> Option<Seq<(u64, (u8, u8, u8))>> {
    let entries = spec_split(s, ',');
    if forall|k: int| 0 <= k < entries.len() ==> spec_parse_timer_entry(entries[k]) is Some {
        Some(Seq::new(entries.len(), |k: int| spec_parse_timer_entry(entries[k]).unwrap()))
    } else {
        None
    }
}

/// Read one `duration#rrggbb` entry; see [`spec_parse_timer_entry`].
fn parse_timer_entry(e: &str) -> (r: Result<(u64, (u8, u8, u8)), String>)
    ensures
        (match r {
            Ok(t) => spec_parse_timer_entry(e@) == Some(t),
            Err(_) => spec_parse_timer_entry(e@) is None,
        }),
{
    let n = e.unicode_len();
    let mut i: usize = 0;
    while i < n
        invariant
            n == e@.len(),
            i <= n,
            forall|k: int| 0 <= k < i ==> e@[k] != '#',
        decreases n - i,
    {
        if e.get_char(i) == '#' {
            proof {
                lemma_first_index_charac(e@, '#', i as int);
            }
            let millis_part = e.substring_char(0, i);
            let color_part = e.substring_char(i + 1, n);
            proof {
                assert(millis_part@ =~= e@.take(i as int));
                assert(color_part@ =~= e@.skip(i as int + 1));
            }
            let millis = match parse_u64(millis_part) {
                Some(v) => v,
                None => {
                    let mut msg = String::from_str("Invalid time provided in timer '");
                    msg.append(millis_part);
                    msg.append("'");
                    return Err(msg);
                },
            };
            let color = match parse_color(color_part) {
                Ok(c) => c,
                Err(msg) => {
                    return Err(msg);
                },
            };
            return Ok((millis, color));
        }
        i = i + 1;
    }
    proof {
        lemma_first_index_charac(e@, '#', n as int);
    }
    let mut msg = String::from_str("Missing '#' in timer color '");
    msg.append(e);
    msg.append("'");
    Err(msg)
}

/// Read a comma-separated timer list; see [`spec_parse_timers`].
pub fn parse_timers(line: &str) -> (r: Result<Vec<(u64, (u8, u8, u8))>, String>)
    ensures
        (match r {
            Ok(v) => spec_parse_timers(line@) == Some(v@),
            Err(_) => spec_parse_timers(line@) is None,
        }),
{
    let entries = split_exec(line, ',');
    let ghost eviews = entries@.map_values(|t: String| t@);
    let mut out: Vec<(u64, (u8, u8, u8))> = Vec::new();
    let mut j: usize = 0;
    while j < entries.len()
        invariant
            eviews == entries@.map_values(|t: String| t@),
            eviews == spec_split(line@, ','),
            j <= entries@.len(),
            out@.len() == j,
            forall|k: int|
                0 <= k < j ==> spec_parse_timer_entry(eviews[k]) == Some(out@[k]),
        decreases entries@.len() - j,
    {
        match parse_timer_entry(entries[j].as_str()) {
            Ok(t) => {
                out.push(t);
            },
            Err(msg) => {
                proof {
                    assert(spec_parse_timer_entry(eviews[j as int]) is None);
                }
                return Err(msg);
            },
        }
        j = j + 1;
    }
    proof {
        assert(out@ =~= Seq::new(
            eviews.len(),
            |k: int| spec_parse_timer_entry(eviews[k]).unwrap(),
        ));
    }
    Ok(out)
}

/// The rendering of one timer: its duration in decimal, `#`, and six
/// hexadecimal colour characters.
pub open spec fn spec_render_timer(t: (u64, (u8, u8, u8))) -> Seq<char> {
    dec_digits(t.0 as int) + "#"@ + hex2(t.1.0 as int) + hex2(t.1.1 as int) + hex2(t.1.2 as int)
}

/// The rendering of the timers from position `i` on, joined by commas.
pub open spec fn spec_render_timers_from(v: Seq<(u64, (u8, u8, u8))>, i: int) -> Seq<char>
    decreases v.len() - i,
{
    if i < 0 || i >= v.len() {
        Seq::empty()
    } else if i == v.len() - 1 {
        spec_render_timer(v[i])
    } else {
        spec_render_timer(v[i]) + ","@ + spec_render_timers_from(v, i + 1)
    }
}

/// The rendering of a whole timer list.
pub open spec fn spec_render_timers(v: Seq<(u64, (u8, u8, u8))>) -> Seq<char> {
    spec_render_timers_from(v, 0)
}

/// Render a timer list as `duration#rrggbb` entries joined by commas.
pub fn timers_to_string(value: &Vec<(u64, (u8, u8, u8))>) -> (r: String)
    ensures
        r@ == spec_render_timers(value@),
{
    let n = value.len();
    let mut out = String::new();
    let mut i: usize = 0;
    while i < n
        invariant
            n == value@.len(),
            i <= n,
            out@ + spec_render_timers_from(value@, i as int) == spec_render_timers(value@),
            i == n ==> out@ == spec_render_timers(value@),
        decreases n - i,
    {
        let t = value[i];
        append_decimal(&mut out, t.0);
        out.append("#");
        append_hex2(&mut out, t.1.0);
        append_hex2(&mut out, t.1.1);
        append_hex2(&mut out, t.1.2);
        if i + 1 < n {
            out.append(",");
        }
        proof {
            if i as int + 1 < n as int {
                assert(out@ + spec_render_timers_from(value@, i as int + 1) =~= spec_render_timers(
                    value@,
                ));
            } else {
                assert(out@ =~= spec_render_timers(value@));
            }
        }
        i = i + 1;
    }
    proof {
        if n == 0 {
            assert(out@ =~= spec_render_timers(value@));
        }
    }
    out
}

/// Milliseconds of an hours/minutes/seconds/milliseconds reading.
pub fn time_to_millis(h: u64, m: u64, s: u64, ms: u64) -> (r: u64)
    requires
        (h * 3600 + m * 60 + s) * 1000 + ms <= u64::MAX,
    ensures
        r == (h * 3600 + m * 60 + s) * 1000 + ms,
{
    ((h * 3600 + m * 60 + s) * 1000) + ms
}

/// An hours/minutes/seconds/milliseconds reading of a millisecond count.
pub fn millis_to_time(ms_total: u64) -> (r: (u64, u64, u64, u64))
    ensures
        r.0 == ms_total / 1000 / 3600,
        r.1 == (ms_total / 1000 / 60) % 60,
        r.2 == (ms_total / 1000) % 60,
        r.3 == ms_total % 1000,
{
    let total_secs = ms_total / 1000;
    let h = total_secs / 3600;
    let m = (total_secs / 60) % 60;
    let s = total_secs % 60;
    let ms = ms_total % 1000;
    (h, m, s, ms)
}

/// A run of zeroes long enough to pad the decimal form of `num` on the left
/// to `width` characters; empty when no padding is needed.
pub fn zpad_prefix(num: u64, width: usize) -> (r: String)
    ensures
        r@ =~= Seq::new(
            if dec_digits(num as int).len() < width {
                (width - dec_digits(num as int).len()) as nat
            } else {
                0
            },
            |k: int| '0',
        ),
{
    let mut numstr = String::new();
    append_decimal(&mut numstr, num);
    let len = numstr.as_str().unicode_len();
    let pad: usize = if len < width {
        width - len
    } else {
        0
    };
    let mut out = String::new();
    let mut i: usize = 0;
    while i < pad
        invariant
            i <= pad,
            out@ =~= Seq::new(i as nat, |k: int| '0'),
        decreases pad - i,
    {
        out.append("0");
        proof {
            reveal_strlit("0");
            assert(out@ =~= Seq::new(i as nat + 1, |k: int| '0'));
        }
        i = i + 1;
    }
    out
}

/// The timer list a settings collection configures: an absent `timers` key
/// means no timers; a present one must read as a timer list.
pub open spec fn spec_timers_field(m: Seq<(Seq<char>, Seq<char>)>) -> Option<
    Seq<(u64, (u8, u8, u8))>,
> {
    match spec_get(m, "timers"@) {
        None => Some(Seq::empty()),
        Some(v) => spec_parse_timers(v),
    }
}

/// A numeric key's reading, with `default` for an absent key.
pub open spec fn spec_u64_field(
    m: Seq<(Seq<char>, Seq<char>)>,
    key: Seq<char>,
    default: u64,
) -> Option<u64> {
    match spec_get(m, key) {
        None => Some(default),
        Some(v) => spec_parse_u64(v),
    }
}

/// A boolean key's reading, with `default` for an absent key.
pub open spec fn spec_bool_field(
    m: Seq<(Seq<char>, Seq<char>)>,
    key: Seq<char>,
    default: bool,
) -> Option<bool> {
    match spec_get(m, key) {
        None => Some(default),
        Some(v) => spec_parse_bool(v),
    }
}

/// A free-text key's reading, with `default` for an absent key.
pub open spec fn spec_text_field(
    m: Seq<(Seq<char>, Seq<char>)>,
    key: Seq<char>,
    default: Seq<char>,
) -> Seq<char> {
    match spec_get(m, key) {
        None => default,
        Some(v) => v,
    }
}

/// The application settings.
#[derive(Debug)]
pub struct AppSettings {
    /// The configured timers, in order: duration in milliseconds and colour.
    pub timers: Vec<(u64, (u8, u8, u8))>,
    /// How often the host should poll, in milliseconds.
    pub tick_interval: u64,
    /// Whether the sequence stops after its last timer.
    pub play_once: bool,
    /// The playback volume as its text; only the audio collaborator reads it
    /// as a number.
    pub volume: String,
    /// Whether a custom completion sound is used.
    pub use_custom_sound: bool,
    /// Where the custom completion sound lives.
    pub custom_sound_location: String,
}

impl AppSettings {
    /// Read a whole settings text.  Absent keys take their defaults; a key
    /// whose value does not read as its form is the one error.
    pub fn new_from_str(data: String) -> (r: Result<AppSettings, String>)
        ensures
            r is Ok <==> ({
                let m = spec_kv_of_str(data@);
                &&& spec_timers_field(m) is Some
                &&& spec_u64_field(m, "tick_interval"@, 50) is Some
                &&& spec_bool_field(m, "play_once"@, false) is Some
                &&& spec_bool_field(m, "use_custom_sound"@, false) is Some
            }),
            (match r {
                Ok(s) => ({
                    let m = spec_kv_of_str(data@);
                    &&& s.timers@ == spec_timers_field(m).unwrap()
                    &&& s.tick_interval == spec_u64_field(m, "tick_interval"@, 50).unwrap()
                    &&& s.play_once == spec_bool_field(m, "play_once"@, false).unwrap()
                    &&& s.volume@ == spec_text_field(m, "volume"@, "0.5"@)
                    &&& s.use_custom_sound == spec_bool_field(m, "use_custom_sound"@, false).unwrap()
                    &&& s.custom_sound_location@ == spec_text_field(
                        m,
                        "custom_sound_location"@,
                        ""@,
                    )
                }),
                Err(_) => true,
            }),
    {
        let kv = match KeysAndValues::new_from_str(data.as_str()) {
            Ok(kv) => kv,
            Err(e) => {
                return Err(e.message());
            },
        };

        let timers: Vec<(u64, (u8, u8, u8))> = match kv.get("timers") {
            Ok(v) => {
                match parse_timers(v.as_str()) {
                    Ok(t) => t,
                    Err(msg) => {
                        return Err(msg);
                    },
                }
            },
            Err(_) => {
                let none_configured: Vec<(u64, (u8, u8, u8))> = Vec::new();
                proof {
                    assert(none_configured@ =~= Seq::<(u64, (u8, u8, u8))>::empty());
                }
                none_configured
            },
        };

        let tick_interval: u64 = match kv.get("tick_interval") {
            Ok(v) => {
                match parse_u64(v.as_str()) {
                    Some(t) => t,
                    None => {
                        let e = ParseError::InvalidFormat {
                            key: String::from_str("tick_interval"),
                            value: v.clone(),
                            expected: String::from_str("u64"),
                            error: String::from_str("not a decimal number in range"),
                        };
                        return Err(e.message());
                    },
                }
            },
            Err(_) => 50,
        };

        let play_once: bool = match kv.get("play_once") {
            Ok(v) => {
                match parse_bool(v.as_str()) {
                    Some(b) => b,
                    None => {
                        let e = ParseError::InvalidFormat {
                            key: String::from_str("play_once"),
                            value: v.clone(),
                            expected: String::from_str("bool"),
                            error: String::from_str("expected true or false"),
                        };
                        return Err(e.message());
                    },
                }
            },
            Err(_) => false,
        };

        let volume: String = match kv.get("volume") {
            Ok(v) => v.clone(),
            Err(_) => String::from_str("0.5"),
        };

        let use_custom_sound: bool = match kv.get("use_custom_sound") {
            Ok(v) => {
                match parse_bool(v.as_str()) {
                    Some(b) => b,
                    None => {
                        let e = ParseError::InvalidFormat {
                            key: String::from_str("use_custom_sound"),
                            value: v.clone(),
                            expected: String::from_str("bool"),
                            error: String::from_str("expected true or false"),
                        };
                        return Err(e.message());
                    },
                }
            },
            Err(_) => false,
        };

        let custom_sound_location: String = match kv.get("custom_sound_location") {
            Ok(v) => v.clone(),
            Err(_) => String::from_str(""),
        };

        Ok(
            AppSettings {
                timers,
                tick_interval,
                play_once,
                volume,
                use_custom_sound,
                custom_sound_location,
            },
        )
    }

    /// The timer list in the form the sequencer takes: each configured
    /// duration with its colour as a value of its own.
    pub fn configured_timers(&self) -> (r: Vec<(u64, Color)>)
        ensures
            r@.len() == self.timers@.len(),
            forall|i: int|
                0 <= i < r@.len() ==> #[trigger] r@[i] == (
                    self.timers@[i].0,
                    Color {
                        r: self.timers@[i].1.0,
                        g: self.timers@[i].1.1,
                        b: self.timers@[i].1.2,
                    },
                ),
    {
        let mut out: Vec<(u64, Color)> = Vec::new();
        let mut i: usize = 0;
        while i < self.timers.len()
            invariant
                i <= self.timers@.len(),
                out@.len() == i,
                forall|k: int|
                    0 <= k < i as int ==> #[trigger] out@[k] == (
                        self.timers@[k].0,
                        Color {
                            r: self.timers@[k].1.0,
                            g: self.timers@[k].1.1,
                            b: self.timers@[k].1.2,
                        },
                    ),
            decreases self.timers@.len() - i,
        {
            let t = self.timers[i];
            out.push((t.0, Color { r: t.1.0, g: t.1.1, b: t.1.2 }));
            i = i + 1;
        }
        out
    }

    /// Render these settings as a fresh `key=value` collection, one entry per
    /// setting, bound in a fixed order.
    pub fn to_kv(&self) -> (r: KeysAndValues)
        ensures
            r.wf(),
            r.spec_model() == spec_insert(
                spec_insert(
                    spec_insert(
                        spec_insert(
                            spec_insert(
                                spec_insert(
                                    Seq::empty(),
                                    "timers"@,
                                    spec_render_timers(self.timers@),
                                ),
                                "tick_interval"@,
                                dec_digits(self.tick_interval as int),
                            ),
                            "play_once"@,
                            (if self.play_once {
                                "true"@
                            } else {
                                "false"@
                            }),
                        ),
                        "volume"@,
                        self.volume@,
                    ),
                    "use_custom_sound"@,
                    (if self.use_custom_sound {
                        "true"@
                    } else {
                        "false"@
                    }),
                ),
                "custom_sound_location"@,
                self.custom_sound_location@,
            ),
    {
        let mut kv = KeysAndValues::new();
        let timers_text = timers_to_string(&self.timers);
        kv.set("timers", timers_text.as_str());
        let mut tick_text = String::new();
        append_decimal(&mut tick_text, self.tick_interval);
        kv.set("tick_interval", tick_text.as_str());
        kv.set("play_once", bool_text(self.play_once));
        kv.set("volume", self.volume.as_str());
        kv.set("use_custom_sound", bool_text(self.use_custom_sound));
        kv.set("custom_sound_location", self.custom_sound_location.as_str());
        kv
    }
}

/// The text of a boolean.
fn bool_text(b: bool) -> (r: &'static str)
    ensures
        r@ == (if b {
            "true"@
        } else {
            "false"@
        }),
{
    if b {
        "true"
    } else {
        "false"
    }
}

} // verus!
