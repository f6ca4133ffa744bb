use i3bar::bar::{lemonbar_args, render_bar, BarPosition};
use i3bar::markup::{Segment, TextFormat, ThemeColor};
use i3bar::pair::ChannelPair;
use i3bar::stats::battery::BatteryChargeState;
use i3bar::widgets::{
    battery_segment, charging_icon, player_controls_segment, progress_bar, progress_segment,
    song_segment, time_segment, timer, volume_segment, PlayerState,
};

#[test]
fn lemonbar_arguments() {
    let top = lemonbar_args(BarPosition::Top);
    assert_eq!(top, vec!["", "-p", "-u", "7", "-f", "RobotoMono Nerd Font:style=Regular:size=10"]);
    let bottom = lemonbar_args(BarPosition::Bottom);
    assert_eq!(bottom[0], "-b");
    assert_eq!(&bottom[1..], &top[1..]);
}

#[test]
fn bar_line_is_segments_then_reset() {
    let segs = vec![
        Segment::Text(String::from("a")),
        Segment::Formatted(TextFormat::Swap, Box::new(Segment::Text(String::from("b")))),
    ];
    assert_eq!(render_bar(&segs), "a%{R}b%{B#073642}\n");
    assert_eq!(render_bar(&vec![]), "%{B#073642}\n");
    let reset = TextFormat::Background(ThemeColor::BrightBlack).process_format() + "\n";
    assert_eq!(render_bar(&vec![]), reset);
}

#[test]
fn progress_bar_cells() {
    assert_eq!(progress_bar(0, 10, 5), "\u{f04b}     ");
    assert_eq!(progress_bar(10, 10, 5), "\u{f04d}\u{f04d}\u{f04d}\u{f04d}\u{f04d}\u{f04b}");
    assert_eq!(progress_bar(3, 10, 5), "\u{f04d}\u{f04b}    ");
    assert_eq!(progress_bar(0, 1, 0), "\u{f04b}");
    for v in 0..=30u64 {
        assert_eq!(progress_bar(v, 30, 50).chars().count(), 51);
    }
}

#[test]
fn progress_bar_never_moves_back() {
    let mut last = 0;
    for v in 0..=60u64 {
        let filled = progress_bar(v, 60, 50).chars().filter(|c| *c == '\u{f04d}').count();
        assert!(filled >= last);
        last = filled;
    }
    assert_eq!(last, 50);
}

#[test]
fn timer_text() {
    assert_eq!(timer(Some(65), Some(1)), " 1:05 ");
    assert_eq!(timer(Some(125), Some(62)), " 2:05 ");
    assert_eq!(timer(Some(59), None), " 0:59 ");
    assert_eq!(timer(None, Some(3)), " Stopped ");
}

#[test]
fn progress_segment_renders() {
    let seg = progress_segment(Some(0), Some(0), Some(100));
    let expected = String::from("%{r}%{F#268bd2}%{B#002b36} 0:00 %{F#859900}%{B#002b36}\u{f051} \u{f04b}")
        + &" ".repeat(50)
        + " \u{f048} ";
    assert_eq!(seg.process_segment(), expected);
    let stopped = progress_segment(None, None, None);
    assert!(stopped.process_segment().contains(" Stopped "));
}

#[test]
fn battery_segment_renders() {
    let seg = battery_segment(&BatteryChargeState::Charging, Some(87));
    assert_eq!(
        seg.process_segment(),
        "%{F#002b36}%{B#9baf00} \u{f102} %{F#002b36}%{B#859900} 87% "
    );
    let seg = battery_segment(&BatteryChargeState::Unknown(String::from("?")), None);
    assert_eq!(seg.process_segment(), "%{F#002b36}%{B#9baf00} ? %{F#002b36}%{B#859900} 0% ");
    let seg = battery_segment(&BatteryChargeState::Full, Some(-1));
    assert!(seg.process_segment().ends_with(" -1% "));
}

#[test]
fn charging_icons() {
    assert_eq!(charging_icon(&BatteryChargeState::Full), "\u{f00c}");
    assert_eq!(charging_icon(&BatteryChargeState::Charging), "\u{f102}");
    assert_eq!(charging_icon(&BatteryChargeState::Discharging), "\u{f103}");
    assert_eq!(charging_icon(&BatteryChargeState::Unknown(String::from("Idle"))), "Idle");
}

#[test]
fn volume_segment_renders() {
    let seg = volume_segment(true, "60");
    assert_eq!(
        seg.process_segment(),
        "%{F#859900}%{B#002b36}%{A4:amixer sset Master 4%+:}%{A5:amixer sset Master 4%-:}%{A3:amixer sset Master toggle:} 60% %{A}%{A}%{A}"
    );
    let off = volume_segment(false, "0");
    assert!(off.process_segment().starts_with("%{F#839496}%{B#002b36}"));
}

#[test]
fn time_segment_renders() {
    assert_eq!(
        time_segment("09:41:00 AM").process_segment(),
        "%{c}%{F#859900}%{B#073642} 09:41:00 AM "
    );
}

#[test]
fn song_segment_renders() {
    assert_eq!(
        song_segment(Some(Some(String::from("Song")))).process_segment(),
        "%{F#268bd2}%{B#002b36} Song "
    );
    assert_eq!(song_segment(Some(None)).process_segment(), "%{F#268bd2}%{B#002b36} <Unknown> ");
    assert_eq!(song_segment(None).process_segment(), "%{F#268bd2}%{B#002b36} No Song ");
}

#[test]
fn player_controls_render() {
    let seg = player_controls_segment(PlayerState::Play);
    assert_eq!(
        seg.process_segment(),
        "%{F#002b36}%{B#859900}%{A1:mpc prev:} \u{f048} %{A}%{F#002b36}%{B#9baf00}%{A1:mpc toggle:} \u{f04c} %{A}%{F#002b36}%{B#859900}%{A1:mpc next:} \u{f051} %{A}"
    );
    assert!(player_controls_segment(PlayerState::Stop).process_segment().contains(" \u{f04d} "));
    assert!(player_controls_segment(PlayerState::Pause).process_segment().contains(" \u{f04b} "));
}

#[test]
fn channel_pair_carries_messages() {
    let pair: ChannelPair<u32> = ChannelPair::new(1);
    pair.tx.send(7).unwrap();
    assert_eq!(pair.rx.recv().unwrap(), 7);
    let named = ChannelPair::from_tuple(std::sync::mpsc::sync_channel::<u8>(2));
    named.tx.send(1).unwrap();
    named.tx.send(2).unwrap();
    assert_eq!(named.rx.recv().unwrap(), 1);
    assert_eq!(named.rx.recv().unwrap(), 2);
}

#[test]
fn bar_of_two_groups_is_first_markup_then_second_line() {
    let first = vec![Segment::Text(String::from("x")), Segment::Text(String::from("y"))];
    let second = vec![Segment::Formatted(TextFormat::Left, Box::new(Segment::Text(String::from("z"))))];
    let both = vec![
        Segment::Text(String::from("x")),
        Segment::Text(String::from("y")),
        Segment::Formatted(TextFormat::Left, Box::new(Segment::Text(String::from("z")))),
    ];
    let head = Segment::Compound(first).process_segment();
    assert_eq!(render_bar(&both), head + &render_bar(&second));
}
