use i3bar::stats::battery::{parse_battery_info, BatteryChargeState};
use i3bar::stats::volume::{channel_stats, parse_volume, volume_from_captures, ChannelStats, VolumeStats};
use i3bar::text::{decimal_string, parse_i64, parse_u64};

const UEVENT: &str = "POWER_SUPPLY_NAME=BAT1\nPOWER_SUPPLY_STATUS=Discharging\nPOWER_SUPPLY_PRESENT=1\nPOWER_SUPPLY_CAPACITY=87\n";

const AMIXER: &str = "Simple mixer control 'Master',0\n  Capabilities: pvolume pswitch pswitch-joined\n  Playback channels: Front Left - Front Right\n  Limits: Playback 0 - 65536\n  Mono:\n  Front Left: Playback 39321 [60%] [on]\n  Front Right: Playback 26214 [40%] [off]\n";

#[test]
fn parse_u64_as_str_parse_does() {
    assert_eq!(parse_u64("0"), Some(0));
    assert_eq!(parse_u64("42"), Some(42));
    assert_eq!(parse_u64("+42"), Some(42));
    assert_eq!(parse_u64("007"), Some(7));
    assert_eq!(parse_u64("18446744073709551615"), Some(u64::MAX));
    assert_eq!(parse_u64("18446744073709551616"), None);
    assert_eq!(parse_u64(""), None);
    assert_eq!(parse_u64("+"), None);
    assert_eq!(parse_u64("-1"), None);
    assert_eq!(parse_u64("1a"), None);
    assert_eq!(parse_u64(" 1"), None);
    assert_eq!(parse_u64("\u{663}"), None);
    for s in ["0", "1", "+9", "123456", "18446744073709551615", "18446744073709551616", "", "-", "x"].iter() {
        assert_eq!(parse_u64(s), s.parse::<u64>().ok());
    }
}

#[test]
fn parse_i64_as_str_parse_does() {
    assert_eq!(parse_i64("-1"), Some(-1));
    assert_eq!(parse_i64("+17"), Some(17));
    assert_eq!(parse_i64("-9223372036854775808"), Some(i64::MIN));
    assert_eq!(parse_i64("9223372036854775807"), Some(i64::MAX));
    assert_eq!(parse_i64("9223372036854775808"), None);
    assert_eq!(parse_i64("-9223372036854775809"), None);
    assert_eq!(parse_i64("-"), None);
    assert_eq!(parse_i64("--1"), None);
    assert_eq!(parse_i64("-+1"), None);
    for s in ["0", "-0", "+0", "87", "-87", "1.5", "", "+", "99999999999999999999"].iter() {
        assert_eq!(parse_i64(s), s.parse::<i64>().ok());
    }
}

#[test]
fn decimal_round_trip() {
    for n in [0u64, 1, 9, 10, 99, 100, 12345, u64::MAX].iter() {
        let s = decimal_string(*n);
        assert_eq!(s, n.to_string());
        assert_eq!(parse_u64(&s), Some(*n));
    }
}

#[test]
fn battery_from_uevent() {
    let info = parse_battery_info(UEVENT);
    assert_eq!(info.charge, Some(87));
    assert!(matches!(info.state, BatteryChargeState::Discharging));
}

#[test]
fn battery_states() {
    let full = parse_battery_info("POWER_SUPPLY_STATUS=Full\nPOWER_SUPPLY_CAPACITY=100");
    assert!(matches!(full.state, BatteryChargeState::Full));
    assert_eq!(full.charge, Some(100));
    let charging = parse_battery_info("POWER_SUPPLY_STATUS=Charging\n");
    assert!(matches!(charging.state, BatteryChargeState::Charging));
    let other = parse_battery_info("POWER_SUPPLY_STATUS=Not charging\n");
    match other.state {
        BatteryChargeState::Unknown(s) => assert_eq!(s, "Not charging"),
        _ => panic!("expected an unknown state"),
    }
}

#[test]
fn battery_without_keys() {
    let info = parse_battery_info("");
    assert_eq!(info.charge, None);
    match info.state {
        BatteryChargeState::Unknown(s) => assert_eq!(s, "?"),
        _ => panic!("expected an unknown state"),
    }
}

#[test]
fn battery_capacity_not_a_number() {
    let info = parse_battery_info("POWER_SUPPLY_CAPACITY=high\n");
    assert_eq!(info.charge, Some(-1));
    let info = parse_battery_info("POWER_SUPPLY_CAPACITY=\n");
    assert_eq!(info.charge, Some(-1));
}

#[test]
fn battery_last_line_wins() {
    let text = String::from(UEVENT) + "\nPOWER_SUPPLY_STATUS=Full\nPOWER_SUPPLY_CAPACITY=-3";
    let info = parse_battery_info(&text);
    assert!(matches!(info.state, BatteryChargeState::Full));
    assert_eq!(info.charge, Some(-3));
}

#[test]
fn battery_ignores_lines_that_are_not_one_pair() {
    let info = parse_battery_info("POWER_SUPPLY_STATUS=Full=Really\nPOWER_SUPPLY_CAPACITY\nPOWER_SUPPLY_CAPACITY=5");
    assert_eq!(info.charge, Some(5));
    match info.state {
        BatteryChargeState::Unknown(s) => assert_eq!(s, "?"),
        _ => panic!("expected an unknown state"),
    }
}

#[test]
fn volume_from_amixer_output() {
    let v = parse_volume(AMIXER).unwrap();
    assert_eq!(
        v,
        VolumeStats {
            left: ChannelStats { absolute: Some(39321), percent: Some(60), muted: Some(true) },
            right: ChannelStats { absolute: Some(26214), percent: Some(40), muted: Some(false) },
        }
    );
    assert_eq!(v.get_string(), "40");
}

#[test]
fn volume_needs_two_channels() {
    assert_eq!(parse_volume("  Front Left: Playback 1 [0%] [on]\n"), None);
    assert_eq!(parse_volume(""), None);
}

#[test]
fn channel_from_groups() {
    let groups = vec![
        Some(String::from("whole")),
        Some(String::from("12")),
        Some(String::from("99999999999999999999")),
        Some(String::from("off")),
    ];
    assert_eq!(
        channel_stats(&groups),
        ChannelStats { absolute: Some(12), percent: None, muted: Some(false) }
    );
    let short = vec![Some(String::from("whole")), None];
    assert_eq!(
        channel_stats(&short),
        ChannelStats { absolute: None, percent: None, muted: None }
    );
    let caps = vec![groups.clone(), short.clone()];
    let v = volume_from_captures(&caps);
    assert_eq!(v.left.absolute, Some(12));
    assert_eq!(v.right.muted, None);
}
