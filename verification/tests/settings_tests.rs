use interval_timer::countdown::Color;
use interval_timer::keys_and_values::{KeysAndValues, ParseError, parse};
use interval_timer::settings_parser::{
    AppSettings, millis_to_time, parse_bool, parse_color, parse_timers, parse_u64,
    time_to_millis, timers_to_string, zpad_prefix,
};

#[test]
fn parse_reads_one_binding() {
    assert_eq!(parse("k=v"), Some(("k".to_string(), "v".to_string())));
    assert_eq!(parse("k="), Some(("k".to_string(), "".to_string())));
    assert_eq!(parse("=v"), Some(("".to_string(), "v".to_string())));
    assert_eq!(parse("a=b=c"), Some(("a".to_string(), "b=c".to_string())));
    assert_eq!(parse("k=v\r"), Some(("k".to_string(), "v".to_string())));
    assert_eq!(parse(""), None);
    assert_eq!(parse("no separator"), None);
}

#[test]
fn kv_reads_lines_and_looks_up() {
    let kv = KeysAndValues::new_from_str("a=1\nb=2\n\nnot a binding\nc=hello=world\r\n").unwrap();
    assert_eq!(kv.get("a").unwrap(), "1");
    assert_eq!(kv.get("b").unwrap(), "2");
    assert_eq!(kv.get("c").unwrap(), "hello=world");
    assert!(matches!(kv.get("missing"), Err(ParseError::MissingKey(_))));
}

#[test]
fn later_bindings_replace_earlier_ones() {
    let kv = KeysAndValues::new_from_str("a=1\na=2").unwrap();
    assert_eq!(kv.get("a").unwrap(), "2");
}

#[test]
fn kv_renders_in_insertion_order() {
    let mut kv = KeysAndValues::new();
    kv.set("a", "1");
    kv.set("b", "2");
    assert_eq!(kv.to_string(), "a=1\nb=2");
    kv.set("a", "3");
    assert_eq!(kv.to_string(), "a=3\nb=2");
    assert_eq!(KeysAndValues::new().to_string(), "");
}

#[test]
fn missing_key_error_message() {
    let kv = KeysAndValues::new();
    match kv.get("volume") {
        Err(e) => assert_eq!(e.message(), "Missing required key: volume"),
        Ok(_) => panic!("expected a missing key"),
    }
}

#[test]
fn u64_parsing_accepts_digits_only() {
    assert_eq!(parse_u64("0"), Some(0));
    assert_eq!(parse_u64("123"), Some(123));
    assert_eq!(parse_u64("18446744073709551615"), Some(u64::MAX));
    assert_eq!(parse_u64("18446744073709551616"), None);
    assert_eq!(parse_u64(""), None);
    assert_eq!(parse_u64("12a"), None);
    assert_eq!(parse_u64("-1"), None);
    assert_eq!(parse_u64("007"), Some(7));
}

#[test]
fn bool_parsing_is_exact() {
    assert_eq!(parse_bool("true"), Some(true));
    assert_eq!(parse_bool("false"), Some(false));
    assert_eq!(parse_bool("True"), None);
    assert_eq!(parse_bool(""), None);
}

#[test]
fn color_parsing_reads_six_hex_characters() {
    assert_eq!(parse_color("ff00aa").unwrap(), (255, 0, 170));
    assert_eq!(parse_color("FF00AA").unwrap(), (255, 0, 170));
    assert_eq!(parse_color("000000").unwrap(), (0, 0, 0));
    assert!(parse_color("ff00a").is_err());
    assert!(parse_color("ff00aaa").is_err());
    assert!(parse_color("ff00ag").is_err());
}

#[test]
fn timer_list_parsing() {
    let t = parse_timers("1000#ff0000,500#00ff00").unwrap();
    assert_eq!(t, vec![(1000, (255, 0, 0)), (500, (0, 255, 0))]);
    assert!(parse_timers("1000").is_err());
    assert!(parse_timers("").is_err());
    assert!(parse_timers("abc#ff0000").is_err());
    assert!(parse_timers("1000#ff0000,").is_err());
}

#[test]
fn timer_list_rendering() {
    assert_eq!(timers_to_string(&vec![(1000, (255, 0, 0))]), "1000#ff0000");
    assert_eq!(
        timers_to_string(&vec![(1000, (255, 0, 0)), (500, (0, 255, 171))]),
        "1000#ff0000,500#00ffab"
    );
    assert_eq!(timers_to_string(&Vec::new()), "");
}

#[test]
fn timer_list_round_trip() {
    let timers = vec![(250, (1, 2, 3)), (99, (0, 255, 16))];
    let text = timers_to_string(&timers);
    assert_eq!(parse_timers(&text).unwrap(), timers);
}

#[test]
fn settings_read_all_keys() {
    let text = "timers=1000#ff0000\ntick_interval=100\nplay_once=true\nvolume=0.7\n\
                use_custom_sound=false\ncustom_sound_location=/tmp/x.wav";
    let s = AppSettings::new_from_str(text.to_string()).unwrap();
    assert_eq!(s.timers, vec![(1000, (255, 0, 0))]);
    assert_eq!(s.tick_interval, 100);
    assert!(s.play_once);
    assert_eq!(s.volume, "0.7");
    assert!(!s.use_custom_sound);
    assert_eq!(s.custom_sound_location, "/tmp/x.wav");
}

#[test]
fn settings_defaults_for_absent_keys() {
    let s = AppSettings::new_from_str(String::new()).unwrap();
    assert!(s.timers.is_empty());
    assert_eq!(s.tick_interval, 50);
    assert!(!s.play_once);
    assert_eq!(s.volume, "0.5");
    assert!(!s.use_custom_sound);
    assert_eq!(s.custom_sound_location, "");
}

#[test]
fn settings_reject_bad_values() {
    assert!(AppSettings::new_from_str("tick_interval=soon".to_string()).is_err());
    assert!(AppSettings::new_from_str("play_once=yes".to_string()).is_err());
    assert!(AppSettings::new_from_str("timers=1000".to_string()).is_err());
}

#[test]
fn settings_render_through_kv() {
    let s = AppSettings::new_from_str(String::new()).unwrap();
    assert_eq!(
        s.to_kv().to_string(),
        "timers=\ntick_interval=50\nplay_once=false\nvolume=0.5\n\
         use_custom_sound=false\ncustom_sound_location="
    );
}

#[test]
fn settings_survive_a_round_trip() {
    let text = "timers=1000#ff0000,2#010203\ntick_interval=75\nplay_once=true\nvolume=0.25\n\
                use_custom_sound=true\ncustom_sound_location=ding.wav";
    let s = AppSettings::new_from_str(text.to_string()).unwrap();
    let rendered = s.to_kv().to_string();
    let t = AppSettings::new_from_str(rendered).unwrap();
    assert_eq!(t.timers, s.timers);
    assert_eq!(t.tick_interval, s.tick_interval);
    assert_eq!(t.play_once, s.play_once);
    assert_eq!(t.volume, s.volume);
    assert_eq!(t.use_custom_sound, s.use_custom_sound);
    assert_eq!(t.custom_sound_location, s.custom_sound_location);
}

#[test]
fn time_unit_conversions() {
    assert_eq!(millis_to_time(3_661_230), (1, 1, 1, 230));
    assert_eq!(time_to_millis(1, 1, 1, 230), 3_661_230);
    assert_eq!(millis_to_time(0), (0, 0, 0, 0));
    assert_eq!(time_to_millis(0, 0, 0, 0), 0);
    let (h, m, s, ms) = millis_to_time(86_399_999);
    assert_eq!(time_to_millis(h, m, s, ms), 86_399_999);
}

#[test]
fn zero_padding_prefix() {
    assert_eq!(zpad_prefix(5, 2), "0");
    assert_eq!(zpad_prefix(123, 2), "");
    assert_eq!(zpad_prefix(0, 3), "00");
    assert_eq!(zpad_prefix(7, 1), "");
}

#[test]
fn settings_produce_sequencer_timers() {
    let s = AppSettings::new_from_str("timers=1000#ff0000,500#00ff00".to_string()).unwrap();
    assert_eq!(
        s.configured_timers(),
        vec![
            (1000, Color { r: 255, g: 0, b: 0 }),
            (500, Color { r: 0, g: 255, b: 0 })
        ]
    );
    let empty = AppSettings::new_from_str(String::new()).unwrap();
    assert!(empty.configured_timers().is_empty());
}
