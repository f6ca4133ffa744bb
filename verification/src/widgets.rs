//! The segments that the two bars show, built from the readings handed in.
use vstd::prelude::*;
use crate::markup::{MouseEvent, Segment, TextFormat, ThemeColor};
use crate::stats::battery::BatteryChargeState;
use crate::text::{
    decimal, pad_left, push_char, push_decimal, push_decimal_two_digits, push_signed_decimal,
    repeat, signed_decimal,
};

verus! {

/// The glyph that fills the elapsed part of the progress bar.
pub open spec fn progress_glyph() -> char {
    '\u{f04d}'
}

/// The glyph that marks the current position in the progress bar.
pub open spec fn position_glyph() -> char {
    '\u{f04b}'
}

/// How many of the `width` cells of the progress bar are filled when `val` of `max` is done.
pub open spec fn filled_cells(val: nat, max: nat, width: nat) -> int {
    (width * val) as int / max as int
}

/// The progress bar: the filled cells, the position glyph, then the empty cells.
pub open spec fn progress_text(val: nat, max: nat, width: nat) -> Seq<char> {
    repeat(progress_glyph(), filled_cells(val, max, width) as nat) + seq![position_glyph()]
        + repeat(' ', (width - filled_cells(val, max, width)) as nat)
}

fn push_repeated(out: &mut String, c: char, n: u64)
    ensures
        final(out)@ == old(out)@ + repeat(c, n as nat),
{
    let ghost start = out@;
    for i in 0..n
        invariant
            out@ == start + repeat(c, i as nat),
    {
        push_char(out, c);
        assert(start + repeat(c, (i + 1) as nat) =~= (start + repeat(c, i as nat)).push(c));
    }
}

/// A bar of `width` cells showing that `val` of `max` is done.
pub fn progress_bar(val: u64, max: u64, width: u64) -> (bar: String)
    requires
        max > 0,
        width * val <= u64::MAX,
        (width * val) / (max as int) <= width,
    ensures
        bar@ == progress_text(val as nat, max as nat, width as nat),
{
    let amt = (width * val) / max;
    let mut bar = String::new();
    push_repeated(&mut bar, '\u{f04d}', amt);
    push_char(&mut bar, '\u{f04b}');
    push_repeated(&mut bar, ' ', width - amt);
    assert(bar@ =~= progress_text(val as nat, max as nat, width as nat));
    bar
}

/// `s` is plain text reading `t`.
pub open spec fn plain_text(s: Segment, t: Seq<char>) -> bool {
    s matches Segment::Text(x) && x@ == t
}

/// `s` is the text `t` under the directive `f`.
pub open spec fn formatted_text(s: Segment, f: TextFormat, t: Seq<char>) -> bool {
    s matches Segment::Formatted(g, c) && g == f && plain_text(*c, t)
}

/// `s` is the text `t` under the list of directives `fs`.
pub open spec fn multi_formatted_text(s: Segment, fs: Seq<TextFormat>, t: Seq<char>) -> bool {
    s matches Segment::Formatted(g, c) && (g matches TextFormat::Multi(v) && v@ == fs)
        && plain_text(*c, t)
}

/// `" " + text + " "`.
pub open spec fn spaced(text: Seq<char>) -> Seq<char> {
    " "@ + text + " "@
}

fn push_str(out: &mut String, s: &str)
    ensures
        final(out)@ == old(out)@ + s@,
{
    out.append(s);
}

fn spaced_string(text: &str) -> (s: String)
    ensures
        s@ == spaced(text@),
{
    let mut s = String::from_str(" ");
    push_str(&mut s, text);
    push_str(&mut s, " ");
    s
}

/// The text of the timer of the music bar: ` minutes:seconds ` (seconds on two digits, both
/// taken modulo 60) while a song plays, ` Stopped ` otherwise.
pub open spec fn timer_text(elapsed_seconds: Option<u64>, elapsed_minutes: Option<u64>) -> Seq<
    char,
> {
    match elapsed_seconds {
        Some(_) => " "@ + decimal((elapsed_minutes.unwrap_or(0) % 60) as nat) + ":"@ + pad_left(
            decimal((elapsed_seconds.unwrap_or(0) % 60) as nat),
            2,
            '0',
        ) + " "@,
        None => " Stopped "@,
    }
}

/// The timer of the music bar.
pub fn timer(elapsed_seconds: Option<u64>, elapsed_minutes: Option<u64>) -> (t: String)
    ensures
        t@ == timer_text(elapsed_seconds, elapsed_minutes),
{
    match elapsed_seconds {
        Some(_) => {
            let mut t = String::from_str(" ");
            let minutes = match elapsed_minutes {
                Some(m) => m,
                None => 0,
            };
            let seconds = match elapsed_seconds {
                Some(s) => s,
                None => 0,
            };
            push_decimal(&mut t, minutes % 60);
            push_str(&mut t, ":");
            push_decimal_two_digits(&mut t, seconds % 60);
            push_str(&mut t, " ");
            assert(t@ =~= timer_text(elapsed_seconds, elapsed_minutes));
            t
        },
        None => String::from_str(" Stopped "),
    }
}

/// The progress part of the music bar: the timer, right-aligned, then a progress bar of 50
/// cells between the next and previous glyphs.
pub fn progress_segment(
    elapsed_seconds: Option<u64>,
    elapsed_minutes: Option<u64>,
    length_seconds: Option<u64>,
) -> (seg: Segment)
    requires
        length_seconds.unwrap_or(1) > 0,
        50 * elapsed_seconds.unwrap_or(0) <= u64::MAX,
        (50 * elapsed_seconds.unwrap_or(0)) / (length_seconds.unwrap_or(1) as int) <= 50,
    ensures
        seg matches Segment::Compound(parts) && parts@.len() == 2 && ({
            &&& multi_formatted_text(
                parts@[0],
                seq![TextFormat::Right, TextFormat::ColorPair(ThemeColor::Blue, ThemeColor::Black)],
                timer_text(elapsed_seconds, elapsed_minutes),
            )
            &&& formatted_text(
                parts@[1],
                TextFormat::ColorPair(ThemeColor::Green, ThemeColor::Black),
                seq!['\u{f051}', ' '] + progress_text(
                    elapsed_seconds.unwrap_or(0) as nat,
                    length_seconds.unwrap_or(1) as nat,
                    50,
                ) + seq![' ', '\u{f048}', ' '],
            )
        }),
{
    let val = match elapsed_seconds {
        Some(s) => s,
        None => 0,
    };
    let max = match length_seconds {
        Some(l) => l,
        None => 1,
    };
    let bar = progress_bar(val, max, 50);
    let mut text = String::new();
    push_char(&mut text, '\u{f051}');
    push_char(&mut text, ' ');
    push_str(&mut text, bar.as_str());
    push_char(&mut text, ' ');
    push_char(&mut text, '\u{f048}');
    push_char(&mut text, ' ');
    assert(text@ =~= seq!['\u{f051}', ' '] + bar@ + seq![' ', '\u{f048}', ' ']);
    let formats = vec![
        TextFormat::Right,
        TextFormat::ColorPair(ThemeColor::Blue, ThemeColor::Black),
    ];
    Segment::Compound(
        vec![
            Segment::Formatted(
                TextFormat::Multi(formats),
                Box::new(Segment::Text(timer(elapsed_seconds, elapsed_minutes))),
            ),
            Segment::Formatted(
                TextFormat::ColorPair(ThemeColor::Green, ThemeColor::Black),
                Box::new(Segment::Text(text)),
            ),
        ],
    )
}

/// The title shown for the current song: its name, `<Unknown>` for a song without one, and
/// `No Song` when nothing is queued.
pub open spec fn song_title(current: Option<Option<String>>) -> Seq<char> {
    match current {
        Some(Some(name)) => name@,
        Some(None) => "<Unknown>"@,
        None => "No Song"@,
    }
}

/// The song part of the music bar: the title, blue on black.
pub fn song_segment(current: Option<Option<String>>) -> (seg: Segment)
    ensures
        formatted_text(
            seg,
            TextFormat::ColorPair(ThemeColor::Blue, ThemeColor::Black),
            spaced(song_title(current)),
        ),
{
    let ghost title = song_title(current);
    let name = match current {
        Some(Some(name)) => name,
        Some(None) => String::from_str("<Unknown>"),
        None => String::from_str("No Song"),
    };
    assert(name@ == title);
    Segment::Formatted(
        TextFormat::ColorPair(ThemeColor::Blue, ThemeColor::Black),
        Box::new(Segment::Text(spaced_string(name.as_str()))),
    )
}

/// What the player is doing.
#[derive(Clone, Copy, Debug, PartialEq, Eq, Structural)]
pub enum PlayerState {
    Stop,
    Play,
    Pause,
}

/// The glyph of the play/pause button for each player state.
pub open spec fn player_glyph(state: PlayerState) -> char {
    match state {
        PlayerState::Stop => '\u{f04d}',
        PlayerState::Play => '\u{f04c}',
        PlayerState::Pause => '\u{f04b}',
    }
}

/// `s` is a clickable `t` that runs `command` on a left click, under the colours `f`.
pub open spec fn button(s: Segment, f: TextFormat, command: Seq<char>, t: Seq<char>) -> bool {
    s matches Segment::Formatted(g, c) && g == f && ((*c) matches Segment::Action(e, cmd, inner)
        && e == MouseEvent::LeftClick && cmd@ == command && plain_text(*inner, t))
}

fn button_segment(f: TextFormat, command: &str, label: String) -> (seg: Segment)
    ensures
        button(seg, f, command@, label@),
{
    Segment::Formatted(
        f,
        Box::new(
            Segment::Action(
                MouseEvent::LeftClick,
                String::from_str(command),
                Box::new(Segment::Text(label)),
            ),
        ),
    )
}

fn glyph_label(c: char) -> (s: String)
    ensures
        s@ == spaced(seq![c]),
{
    let mut s = String::from_str(" ");
    push_char(&mut s, c);
    push_str(&mut s, " ");
    assert(s@ =~= spaced(seq![c]));
    s
}

/// The player controls of the music bar: previous, play/pause and next buttons that run
/// `mpc prev`, `mpc toggle` and `mpc next`.
pub fn player_controls_segment(state: PlayerState) -> (seg: Segment)
    ensures
        seg matches Segment::Compound(parts) && parts@.len() == 3 && ({
            &&& button(
                parts@[0],
                TextFormat::ColorPair(ThemeColor::Black, ThemeColor::Green),
                "mpc prev"@,
                spaced(seq!['\u{f048}']),
            )
            &&& button(
                parts@[1],
                TextFormat::ColorPair(ThemeColor::Black, ThemeColor::BrightGreen),
                "mpc toggle"@,
                spaced(seq![player_glyph(state)]),
            )
            &&& button(
                parts@[2],
                TextFormat::ColorPair(ThemeColor::Black, ThemeColor::Green),
                "mpc next"@,
                spaced(seq!['\u{f051}']),
            )
        }),
{
    let icon = match state {
        PlayerState::Stop => '\u{f04d}',
        PlayerState::Play => '\u{f04c}',
        PlayerState::Pause => '\u{f04b}',
    };
    Segment::Compound(
        vec![
            button_segment(
                TextFormat::ColorPair(ThemeColor::Black, ThemeColor::Green),
                "mpc prev",
                glyph_label('\u{f048}'),
            ),
            button_segment(
                TextFormat::ColorPair(ThemeColor::Black, ThemeColor::BrightGreen),
                "mpc toggle",
                glyph_label(icon),
            ),
            button_segment(
                TextFormat::ColorPair(ThemeColor::Black, ThemeColor::Green),
                "mpc next",
                glyph_label('\u{f051}'),
            ),
        ],
    )
}

/// The icon of each battery state: a glyph for the known ones, the kernel's word otherwise.
pub open spec fn battery_icon(state: BatteryChargeState) -> Seq<char> {
    match state {
        BatteryChargeState::Full => seq!['\u{f00c}'],
        BatteryChargeState::Charging => seq!['\u{f102}'],
        BatteryChargeState::Discharging => seq!['\u{f103}'],
        BatteryChargeState::Unknown(s) => s@,
    }
}

/// The icon of a battery state.
pub fn charging_icon(state: &BatteryChargeState) -> (icon: String)
    ensures
        icon@ == battery_icon(*state),
{
    let mut icon = String::new();
    match state {
        BatteryChargeState::Full => push_char(&mut icon, '\u{f00c}'),
        BatteryChargeState::Charging => push_char(&mut icon, '\u{f102}'),
        BatteryChargeState::Discharging => push_char(&mut icon, '\u{f103}'),
        BatteryChargeState::Unknown(s) => push_str(&mut icon, s.as_str()),
    }
    assert(icon@ =~= battery_icon(*state));
    icon
}

/// The battery part of the top bar: the state's icon, then the charge in percent (0 where
/// none is reported).
pub fn battery_segment(state: &BatteryChargeState, charge: Option<i64>) -> (seg: Segment)
    ensures
        seg matches Segment::Compound(parts) && parts@.len() == 2 && ({
            &&& formatted_text(
                parts@[0],
                TextFormat::ColorPair(ThemeColor::Black, ThemeColor::BrightGreen),
                spaced(battery_icon(*state)),
            )
            &&& formatted_text(
                parts@[1],
                TextFormat::ColorPair(ThemeColor::Black, ThemeColor::Green),
                " "@ + signed_decimal(charge.unwrap_or(0) as int) + "% "@,
            )
        }),
{
    let icon = charging_icon(state);
    let level = match charge {
        Some(c) => c,
        None => 0,
    };
    let mut text = String::from_str(" ");
    push_signed_decimal(&mut text, level);
    push_str(&mut text, "% ");
    Segment::Compound(
        vec![
            Segment::Formatted(
                TextFormat::ColorPair(ThemeColor::Black, ThemeColor::BrightGreen),
                Box::new(Segment::Text(spaced_string(icon.as_str()))),
            ),
            Segment::Formatted(
                TextFormat::ColorPair(ThemeColor::Black, ThemeColor::Green),
                Box::new(Segment::Text(text)),
            ),
        ],
    )
}

/// `s` reacts to `e` by running `command`, around the segment that `inner` holds of.
pub open spec fn action_on(s: Segment, e: MouseEvent, command: Seq<char>) -> bool {
    s matches Segment::Action(f, cmd, _inner) && f == e && cmd@ == command
}

/// The segment inside an action or formatted segment.
pub open spec fn inner_of(s: Segment) -> Segment {
    match s {
        Segment::Action(_e, _cmd, inner) => *inner,
        Segment::Formatted(_f, inner) => *inner,
        _ => s,
    }
}

/// The volume part of the top bar: the level in percent, green when the switch is on and
/// white otherwise; scrolling up and down raises and lowers the volume by 4%, a right click
/// toggles the switch.
pub fn volume_segment(switched_on: bool, level: &str) -> (seg: Segment)
    ensures
        seg matches Segment::Formatted(f, _c) && f == TextFormat::ColorPair(
            if switched_on {
                ThemeColor::Green
            } else {
                ThemeColor::White
            },
            ThemeColor::Black,
        ),
        action_on(inner_of(seg), MouseEvent::ScrollUp, "amixer sset Master 4%+"@),
        action_on(inner_of(inner_of(seg)), MouseEvent::ScrollDown, "amixer sset Master 4%-"@),
        action_on(
            inner_of(inner_of(inner_of(seg))),
            MouseEvent::RightClick,
            "amixer sset Master toggle"@,
        ),
        plain_text(inner_of(inner_of(inner_of(inner_of(seg)))), " "@ + level@ + "% "@),
{
    let color = if switched_on {
        ThemeColor::Green
    } else {
        ThemeColor::White
    };
    let mut text = String::from_str(" ");
    push_str(&mut text, level);
    push_str(&mut text, "% ");
    let toggle = Segment::Action(
        MouseEvent::RightClick,
        String::from_str("amixer sset Master toggle"),
        Box::new(Segment::Text(text)),
    );
    let down = Segment::Action(
        MouseEvent::ScrollDown,
        String::from_str("amixer sset Master 4%-"),
        Box::new(toggle),
    );
    let up = Segment::Action(
        MouseEvent::ScrollUp,
        String::from_str("amixer sset Master 4%+"),
        Box::new(down),
    );
    Segment::Formatted(TextFormat::ColorPair(color, ThemeColor::Black), Box::new(up))
}

/// The clock part of the top bar: the time, centred, green on bright black.
pub fn time_segment(clock: &str) -> (seg: Segment)
    ensures
        multi_formatted_text(
            seg,
            seq![TextFormat::Center, TextFormat::ColorPair(ThemeColor::Green, ThemeColor::BrightBlack)],
            spaced(clock@),
        ),
{
    let formats = vec![
        TextFormat::Center,
        TextFormat::ColorPair(ThemeColor::Green, ThemeColor::BrightBlack),
    ];
    Segment::Formatted(TextFormat::Multi(formats), Box::new(Segment::Text(spaced_string(clock))))
}

/// In range: while no more than the whole is done, the filled cells fit in the bar, so
/// `progress_bar` accepts every `val <= max`.
pub proof fn law_progress_in_range(val: nat, max: nat, width: nat)
    requires
        max > 0,
        val <= max,
    ensures
        0 <= filled_cells(val, max, width) <= width,
{
    vstd::arithmetic::mul::lemma_mul_inequality(val as int, max as int, width as int);
    vstd::arithmetic::div_mod::lemma_div_is_ordered(
        (width * val) as int,
        (width * max) as int,
        max as int,
    );
    vstd::arithmetic::div_mod::lemma_div_by_multiple(width as int, max as int);
    vstd::arithmetic::div_mod::lemma_div_pos_is_pos((width * val) as int, max as int);
    assert(val * width == width * val) by (nonlinear_arith);
    assert(max * width == width * max) by (nonlinear_arith);
}

/// The bar is one cell wider than `width`: the filled and empty cells, and the position glyph.
pub proof fn law_progress_length(val: nat, max: nat, width: nat)
    requires
        max > 0,
        filled_cells(val, max, width) <= width,
    ensures
        progress_text(val, max, width).len() == width + 1,
{
    vstd::arithmetic::div_mod::lemma_div_pos_is_pos((width * val) as int, max as int);
}

/// Nothing done: no cell is filled.
pub proof fn law_progress_empty(max: nat, width: nat)
    requires
        max > 0,
    ensures
        filled_cells(0, max, width) == 0,
        progress_text(0, max, width) =~= seq![position_glyph()] + repeat(' ', width),
{
    assert(width * 0 == 0) by (nonlinear_arith);
    assert(repeat(progress_glyph(), 0) =~= Seq::<char>::empty());
}

/// All done: every cell is filled.
pub proof fn law_progress_full(max: nat, width: nat)
    requires
        max > 0,
    ensures
        filled_cells(max, max, width) == width,
        progress_text(max, max, width) =~= repeat(progress_glyph(), width) + seq![position_glyph()],
{
    vstd::arithmetic::div_mod::lemma_div_by_multiple(width as int, max as int);
    assert(max * width == width * max) by (nonlinear_arith);
    assert(repeat(' ', 0) =~= Seq::<char>::empty());
}

/// The bar never moves back: more done fills at least as many cells.
pub proof fn law_progress_monotone(v1: nat, v2: nat, max: nat, width: nat)
    requires
        max > 0,
        v1 <= v2,
    ensures
        filled_cells(v1, max, width) <= filled_cells(v2, max, width),
{
    vstd::arithmetic::mul::lemma_mul_inequality(v1 as int, v2 as int, width as int);
    assert(v1 * width == width * v1) by (nonlinear_arith);
    assert(v2 * width == width * v2) by (nonlinear_arith);
    vstd::arithmetic::div_mod::lemma_div_is_ordered(
        (width * v1) as int,
        (width * v2) as int,
        max as int,
    );
}

/// The seconds of the timer always take exactly two digits.
pub proof fn law_timer_seconds_two_digits(seconds: u64)
    ensures
        pad_left(decimal((seconds % 60) as nat), 2, '0').len() == 2,
{
    let n = (seconds % 60) as nat;
    if n >= 10 {
        assert(n / 10 < 10);
        assert(decimal(n / 10).len() == 1);
    }
}

} // verus!
