use vstd::prelude::*;
use crate::markup::{Segment, ThemeColor, color_tag, law_segments_concat, segments_text};

verus! {

/// Where on the screen a bar stands.
#[derive(Clone, Copy, Debug, PartialEq, Eq, Structural)]
pub enum BarPosition {
    Top,
    Bottom,
}

/// The lemonbar flag that places a bar: none for the top, `-b` for the bottom.
pub open spec fn position_flag(position: BarPosition) -> Seq<char> {
    match position {
        BarPosition::Top => ""@,
        BarPosition::Bottom => "-b"@,
    }
}

/// The command line that a bar's lemonbar process is started with.
pub open spec fn lemonbar_command_line(position: BarPosition) -> Seq<Seq<char>> {
    seq![
        position_flag(position),
        "-p"@,
        "-u"@,
        "7"@,
        "-f"@,
        "RobotoMono Nerd Font:style=Regular:size=10"@,
    ]
}

/// The arguments that lemonbar is started with for a bar at `position`.
pub fn lemonbar_args(position: BarPosition) -> (args: Vec<String>)
    ensures
        args.len() == 6,
        forall|i: int| 0 <= i < 6 ==> #[trigger] args@[i]@ == lemonbar_command_line(position)[i],
{
    let flag = match position {
        BarPosition::Top => String::from_str(""),
        BarPosition::Bottom => String::from_str("-b"),
    };
    let args = vec![
        flag,
        String::from_str("-p"),
        String::from_str("-u"),
        String::from_str("7"),
        String::from_str("-f"),
        String::from_str("RobotoMono Nerd Font:style=Regular:size=10"),
    ];
    args
}

/// What ends every line sent to lemonbar: the background back to the theme's bright black,
/// then a newline.
pub open spec fn bar_reset() -> Seq<char> {
    "%{B#073642}\n"@
}

/// The line that lemonbar is sent for the segments of a bar, in order.
pub open spec fn bar_text(segments: Seq<Segment>) -> Seq<char> {
    segments_text(segments) + bar_reset()
}

/// The line that lemonbar is sent: the markup of each segment in order, then the reset.
pub fn render_bar(segments: &Vec<Segment>) -> (line: String)
    ensures
        line@ == bar_text(segments@),
{
    let mut line = String::new();
    assert(segments@.take(0) =~= Seq::<Segment>::empty());
    for i in 0..segments.len()
        invariant
            line@ == segments_text(segments@.take(i as int)),
    {
        segments[i].write_markup(&mut line);
        assert(segments@.take(i + 1).drop_last() =~= segments@.take(i as int));
    }
    assert(segments@.take(segments.len() as int) =~= segments@);
    line.append("%{B#073642}\n");
    line
}

/// The reset that ends every line puts the background back to the theme's bright black.
pub proof fn law_reset_is_bright_black_background()
    ensures
        bar_reset() == color_tag("B#"@, ThemeColor::BrightBlack) + "\n"@,
{
    reveal_strlit("%{B#073642}\n");
    reveal_strlit("%{");
    reveal_strlit("B#");
    reveal_strlit("073642");
    reveal_strlit("}");
    reveal_strlit("\n");
    assert(bar_reset() =~= color_tag("B#"@, ThemeColor::BrightBlack) + "\n"@);
}

/// A bar made of two groups of segments reads as the markup of the first group, then the
/// line of the second: segments are never reordered, and the reset comes once, at the end.
pub proof fn law_bar_concat(a: Seq<Segment>, b: Seq<Segment>)
    ensures
        bar_text(a + b) == segments_text(a) + bar_text(b),
{
    law_segments_concat(a, b);
    assert(bar_text(a + b) =~= segments_text(a) + bar_text(b));
}

} // verus!
