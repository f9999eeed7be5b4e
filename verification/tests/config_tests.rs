use himawari8::clock::{cache_file_name, current_picture_time, picture_time_of_reading, time_of_picture, UtcTime};
use himawari8::config::{
    apply_argument, apply_arguments, parse_i32, read_config, settings_with_config, store_config,
    Config, TYPE_FULL, TYPE_HALF,
};
use himawari8::decimal::{push_decimal, push_int, push_pad2};

#[test]
fn default_config() {
    let conf = Config::default();
    assert_eq!(conf, Config { freq: 30, show_type: TYPE_FULL });
    assert_eq!((TYPE_FULL, TYPE_HALF), (0, 1));
}

#[test]
fn decimal_writing() {
    let mut s = String::from("x");
    push_decimal(&mut s, 0);
    push_decimal(&mut s, 1234567890);
    push_int(&mut s, -42);
    push_int(&mut s, i64::MIN);
    push_pad2(&mut s, 7);
    push_pad2(&mut s, 123);
    assert_eq!(s, "x01234567890-42-922337203685477580807123");
}

#[test]
fn parse_i32_follows_str_parse() {
    for text in [
        "10", "+5", "-0", "007", "-2147483648", "2147483647", "2147483648", "-2147483649",
        "99999999999999999999", "", "-", "+", "1a", " 1", "1 ", "+-1", "٣", "１",
    ] {
        assert_eq!(parse_i32(text), text.parse::<i32>().ok(), "text {:?}", text);
    }
}

#[test]
fn read_config_without_file_gives_defaults() {
    assert_eq!(read_config(None), Config { freq: 30, show_type: 0 });
}

#[test]
fn read_config_reads_section_def() {
    let doc = ini::Ini::load_from_str("[def]\nfreq=60\nshow_type=1\n").unwrap();
    assert_eq!(read_config(Some(&doc)), Config { freq: 60, show_type: 1 });
    let missing = ini::Ini::load_from_str("[other]\nfreq=60\n").unwrap();
    assert_eq!(read_config(Some(&missing)), Config { freq: 10, show_type: 0 });
    let garbage = ini::Ini::load_from_str("[def]\nfreq=often\nshow_type=x1\n").unwrap();
    assert_eq!(read_config(Some(&garbage)), Config { freq: 10, show_type: 0 });
}

#[test]
fn stored_config_reads_back() {
    let conf = Config { freq: -7, show_type: 1 };
    let loaded = ini::Ini::load_from_str("[def]\nfreq=20\nextra=yes\n[misc]\na=b\n").unwrap();
    let doc = settings_with_config(Some(loaded), &conf);
    assert_eq!(read_config(Some(&doc)), conf);
    assert_eq!(doc.get_from(Some("def"), "freq"), Some("-7"));
    assert_eq!(doc.get_from(Some("def"), "extra"), Some("yes"));
    assert_eq!(doc.get_from(Some("misc"), "a"), Some("b"));
    let fresh = settings_with_config(None, &Config { freq: 60, show_type: 0 });
    assert_eq!(fresh.get_from(Some("def"), "show_type"), Some("0"));
    assert_eq!(read_config(Some(&fresh)), Config { freq: 60, show_type: 0 });
    let mut again = ini::Ini::new();
    store_config(&mut again, &Config { freq: i32::MIN, show_type: i32::MAX });
    assert_eq!(read_config(Some(&again)), Config { freq: i32::MIN, show_type: i32::MAX });
}

#[test]
fn arguments_change_the_config() {
    let mut conf = Config::default();
    apply_argument(&mut conf, "freq10");
    assert_eq!(conf, Config { freq: 10, show_type: 0 });
    apply_argument(&mut conf, "mode1");
    assert_eq!(conf, Config { freq: 10, show_type: 1 });
    apply_argument(&mut conf, "freq99");
    apply_argument(&mut conf, "Freq20");
    assert_eq!(conf, Config { freq: 10, show_type: 1 });
    let args: Vec<String> = vec!["/usr/bin/h8".to_string(), "freq60".to_string(), "mode0".to_string(), "freq20".to_string()];
    let mut conf2 = Config::default();
    apply_arguments(&mut conf2, &args);
    assert_eq!(conf2, Config { freq: 20, show_type: 0 });
    apply_arguments(&mut conf2, &vec!["freq30".to_string(), "mode1".to_string()]);
    assert_eq!(conf2, Config { freq: 30, show_type: 1 });
}

#[test]
fn picture_time_is_sixteen_minutes_back() {
    let t = time_of_picture(1551276960000).unwrap();
    assert_eq!(t, UtcTime { year: 2019, month: 2, day: 27, hour: 14, minute: 0 });
    assert_eq!(cache_file_name(&t, 4), "2019_2_27_14_0.png");
    assert_eq!(cache_file_name(&t, 2), "2019_2_27_14_0_2x2.png");
    let t2 = time_of_picture(1551276960000 + 45 * 60000).unwrap();
    assert_eq!(t2, UtcTime { year: 2019, month: 2, day: 27, hour: 14, minute: 45 });
    assert_eq!(cache_file_name(&t2, 4), "2019_2_27_14_4.png");
}

#[test]
fn picture_time_rounds_toward_zero() {
    // 1 ms before the epoch rounds to the epoch itself.
    assert_eq!(time_of_picture(959999), Some(UtcTime { year: 1970, month: 1, day: 1, hour: 0, minute: 0 }));
    assert_eq!(time_of_picture(0), Some(UtcTime { year: 1969, month: 12, day: 31, hour: 23, minute: 44 }));
}

#[test]
fn picture_time_out_of_range() {
    assert_eq!(time_of_picture(i64::MIN), None);
    assert_eq!(time_of_picture(i64::MAX), None);
}

#[test]
fn current_picture_time_is_a_calendar_time() {
    let t = current_picture_time().unwrap();
    assert!(t.year >= 2024);
    assert!((1..=12).contains(&t.month));
    assert!((1..=31).contains(&t.day));
    assert!(t.hour < 24 && t.minute < 60);
}

#[test]
fn written_numbers_parse_back() {
    for n in [0i32, 1, -1, 9, 10, -10, 12345, i32::MAX, i32::MIN] {
        let mut s = String::new();
        push_int(&mut s, n as i64);
        assert_eq!(s, n.to_string());
        assert_eq!(parse_i32(&s), Some(n));
    }
}

#[test]
fn picture_time_from_clock_readings() {
    assert_eq!(
        picture_time_of_reading(false, 1551276960000),
        Some(UtcTime { year: 2019, month: 2, day: 27, hour: 14, minute: 0 })
    );
    // One second before 1970: sixteen minutes earlier is 23:43:59.
    assert_eq!(
        picture_time_of_reading(true, 1000),
        Some(UtcTime { year: 1969, month: 12, day: 31, hour: 23, minute: 43 })
    );
    assert_eq!(picture_time_of_reading(false, 0), time_of_picture(0));
    assert_eq!(picture_time_of_reading(true, 0), time_of_picture(0));
    assert_eq!(picture_time_of_reading(false, u128::MAX), None);
    assert_eq!(picture_time_of_reading(true, 9223372036854775808), None);
    assert_eq!(picture_time_of_reading(true, 9223372036854775809), None);
    assert_eq!(picture_time_of_reading(false, i64::MAX as u128), None);
}
