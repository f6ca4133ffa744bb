use i3bar::markup::{MouseEvent, Segment, TextFormat, ThemeColor};
use i3bar::standalone;

#[test]
fn theme_colors_have_their_codes() {
    assert_eq!(ThemeColor::White.get_string(), "839496");
    assert_eq!(ThemeColor::Black.get_string(), "002b36");
    assert_eq!(ThemeColor::Red.get_string(), "dc322f");
    assert_eq!(ThemeColor::Green.get_string(), "859900");
    assert_eq!(ThemeColor::Yellow.get_string(), "b58900");
    assert_eq!(ThemeColor::Blue.get_string(), "268bd2");
    assert_eq!(ThemeColor::Magenta.get_string(), "d33682");
    assert_eq!(ThemeColor::Cyan.get_string(), "2aa198");
    assert_eq!(ThemeColor::BrightBlack.get_string(), "073642");
    assert_eq!(ThemeColor::BrightGreen.get_string(), "9baf00");
}

#[test]
fn every_color_code_is_six_hex_digits() {
    let all = [
        ThemeColor::White,
        ThemeColor::Black,
        ThemeColor::Red,
        ThemeColor::Green,
        ThemeColor::Yellow,
        ThemeColor::Blue,
        ThemeColor::Magenta,
        ThemeColor::Cyan,
        ThemeColor::BrightBlack,
        ThemeColor::BrightGreen,
    ];
    for c in all.iter() {
        let s = c.get_string();
        assert_eq!(s.len(), 6);
        assert!(s.chars().all(|ch| ch.is_ascii_digit() || ('a'..='f').contains(&ch)));
    }
}

#[test]
fn single_directives() {
    assert_eq!(TextFormat::Foreground(ThemeColor::Red).process_format(), "%{F#dc322f}");
    assert_eq!(TextFormat::Background(ThemeColor::Blue).process_format(), "%{B#268bd2}");
    assert_eq!(TextFormat::Underline(ThemeColor::Cyan).process_format(), "%{U#2aa198}");
    assert_eq!(TextFormat::Font(0).process_format(), "%{T#0}");
    assert_eq!(TextFormat::Font(12).process_format(), "%{T#12}");
    assert_eq!(TextFormat::Font(255).process_format(), "%{T#255}");
    assert_eq!(TextFormat::Swap.process_format(), "%{R}");
    assert_eq!(TextFormat::Left.process_format(), "%{l}");
    assert_eq!(TextFormat::Right.process_format(), "%{r}");
    assert_eq!(TextFormat::Center.process_format(), "%{c}");
}

#[test]
fn color_pair_is_foreground_then_background() {
    let pair = TextFormat::ColorPair(ThemeColor::Black, ThemeColor::Green).process_format();
    let fg = TextFormat::Foreground(ThemeColor::Black).process_format();
    let bg = TextFormat::Background(ThemeColor::Green).process_format();
    assert_eq!(pair, "%{F#002b36}%{B#859900}");
    assert_eq!(pair, fg + &bg);
}

#[test]
fn multi_renders_children_in_order() {
    let f = TextFormat::Multi(vec![
        TextFormat::Center,
        TextFormat::ColorPair(ThemeColor::Green, ThemeColor::BrightBlack),
    ]);
    assert_eq!(f.process_format(), "%{c}%{F#859900}%{B#073642}");
    assert_eq!(TextFormat::Multi(vec![]).process_format(), "");
    let nested = TextFormat::Multi(vec![
        TextFormat::Multi(vec![TextFormat::Left]),
        TextFormat::Multi(vec![TextFormat::Swap, TextFormat::Font(3)]),
    ]);
    assert_eq!(nested.process_format(), "%{l}%{R}%{T#3}");
}

#[test]
fn segments_render() {
    assert_eq!(Segment::Text(String::from("plain")).process_segment(), "plain");
    let formatted = Segment::Formatted(
        TextFormat::ColorPair(ThemeColor::Blue, ThemeColor::Black),
        Box::new(Segment::Text(String::from(" x "))),
    );
    assert_eq!(formatted.process_segment(), "%{F#268bd2}%{B#002b36} x ");
    let action = Segment::Action(
        MouseEvent::ScrollUp,
        String::from("amixer sset Master 4%+"),
        Box::new(Segment::Text(String::from("v"))),
    );
    assert_eq!(action.process_segment(), "%{A4:amixer sset Master 4%+:}v%{A}");
}

#[test]
fn every_mouse_event_has_its_button() {
    let events = [
        (MouseEvent::LeftClick, "1"),
        (MouseEvent::MiddleClick, "2"),
        (MouseEvent::RightClick, "3"),
        (MouseEvent::ScrollUp, "4"),
        (MouseEvent::ScrollDown, "5"),
    ];
    for (e, n) in events.iter() {
        let s = Segment::Action(*e, String::from("c"), Box::new(Segment::Text(String::new())));
        assert_eq!(s.process_segment(), format!("%{{A{}:c:}}%{{A}}", n));
    }
}

#[test]
fn compound_of_compounds_flattens() {
    let nested = Segment::Compound(vec![
        Segment::Compound(vec![Segment::Text(String::from("a")), Segment::Text(String::from("b"))]),
        Segment::Compound(vec![Segment::Text(String::from("c"))]),
    ]);
    let flat = Segment::Compound(vec![
        Segment::Text(String::from("a")),
        Segment::Text(String::from("b")),
        Segment::Text(String::from("c")),
    ]);
    assert_eq!(nested.process_segment(), flat.process_segment());
    assert_eq!(Segment::Compound(vec![]).process_segment(), "");
}

#[test]
fn standalone_markup() {
    let fmt = standalone::TextFormat::Multi(
        Box::new(standalone::TextFormat::Background(String::from("9baf00"))),
        Box::new(standalone::TextFormat::Foreground(String::from("002b36"))),
    );
    assert_eq!(standalone::process_format(fmt), "%{B#9baf00}%{F#002b36}");
    assert_eq!(standalone::process_format(standalone::TextFormat::Font(7)), "%{T#7}");
    assert_eq!(
        standalone::process_format(standalone::TextFormat::Underline(String::from("dc322f"))),
        "%{U#dc322f}"
    );
    assert_eq!(standalone::process_format(standalone::TextFormat::Center), "%{c}");
    let seg = standalone::Segment::Compound(
        Box::new(standalone::Segment::Formatted(
            standalone::TextFormat::Swap,
            Box::new(standalone::Segment::Text(String::from(" a "))),
        )),
        Box::new(standalone::Segment::Action(
            MouseEvent::RightClick,
            String::from("amixer sset Master toggle"),
            Box::new(standalone::Segment::Text(String::from("b"))),
        )),
    );
    assert_eq!(
        standalone::process_segment(seg),
        "%{R} a %{A3:amixer sset Master toggle:}b%{A}"
    );
}

#[test]
fn standalone_agrees_with_theme() {
    let a = standalone::process_format(standalone::TextFormat::Foreground(ThemeColor::Green.get_string()));
    let b = TextFormat::Foreground(ThemeColor::Green).process_format();
    assert_eq!(a, b);
}

#[test]
fn first_line_of_output() {
    assert_eq!(standalone::first_line("50%\n60%\n"), "50%");
    assert_eq!(standalone::first_line("no newline"), "no newline");
    assert_eq!(standalone::first_line(""), "");
    assert_eq!(standalone::first_line("\nrest"), "");
}
