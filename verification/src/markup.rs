use vstd::prelude::*;
use crate::text::{decimal, push_decimal};

verus! {

/// The colours of the bar's theme.
#[derive(Copy, Clone, Debug)]
pub enum ThemeColor {
    White,
    Black,
    Red,
    Green,
    Yellow,
    Blue,
    Magenta,
    Cyan,
    BrightBlack,
    BrightGreen,
}

/// The hexadecimal RGB code of a theme colour, without the leading `#`.
pub open spec fn color_code(c: ThemeColor) -> Seq<char> {
    match c {
        ThemeColor::White => "839496"@,
        ThemeColor::Black => "002b36"@,
        ThemeColor::Red => "dc322f"@,
        ThemeColor::Green => "859900"@,
        ThemeColor::Yellow => "b58900"@,
        ThemeColor::Blue => "268bd2"@,
        ThemeColor::Magenta => "d33682"@,
        ThemeColor::Cyan => "2aa198"@,
        ThemeColor::BrightBlack => "073642"@,
        ThemeColor::BrightGreen => "9baf00"@,
    }
}

impl ThemeColor {
    /// Gets the color associated with the enum. Basically color definitions.
    pub fn get_string(self) -> (s: String)
        ensures
            s@ == color_code(self),
    {
        match self {
            ThemeColor::White => String::from_str("839496"),
            ThemeColor::Black => String::from_str("002b36"),
            ThemeColor::Red => String::from_str("dc322f"),
            ThemeColor::Green => String::from_str("859900"),
            ThemeColor::Yellow => String::from_str("b58900"),
            ThemeColor::Blue => String::from_str("268bd2"),
            ThemeColor::Magenta => String::from_str("d33682"),
            ThemeColor::Cyan => String::from_str("2aa198"),
            ThemeColor::BrightBlack => String::from_str("073642"),
            ThemeColor::BrightGreen => String::from_str("9baf00"),
        }
    }
}

/// A lemonbar formatting directive.
#[derive(Debug)]
pub enum TextFormat {
    Foreground(ThemeColor),
    Background(ThemeColor),
    ColorPair(ThemeColor, ThemeColor),
    Underline(ThemeColor),
    Font(u8),
    Swap,
    Left,
    Right,
    Center,
    Multi(Vec<TextFormat>),
}

/// The lemonbar tag `%{<prefix><colour code>}`.
pub open spec fn color_tag(prefix: Seq<char>, c: ThemeColor) -> Seq<char> {
    "%{"@ + prefix + color_code(c) + "}"@
}

/// The lemonbar markup of a formatting directive.
pub open spec fn format_text(f: TextFormat) -> Seq<char>
    decreases f,
{
    match f {
        TextFormat::Foreground(c) => color_tag("F#"@, c),
        TextFormat::Background(c) => color_tag("B#"@, c),
        TextFormat::ColorPair(fg, bg) => color_tag("F#"@, fg) + color_tag("B#"@, bg),
        TextFormat::Underline(c) => color_tag("U#"@, c),
        TextFormat::Font(i) => "%{T#"@ + decimal(i as nat) + "}"@,
        TextFormat::Swap => "%{R}"@,
        TextFormat::Left => "%{l}"@,
        TextFormat::Right => "%{r}"@,
        TextFormat::Center => "%{c}"@,
        TextFormat::Multi(children) => formats_text(children@),
    }
}

/// The markups of a list of directives, one after the other.
pub open spec fn formats_text(fs: Seq<TextFormat>) -> Seq<char>
    decreases fs,
{
    if fs.len() == 0 {
        Seq::empty()
    } else {
        formats_text(fs.drop_last()) + format_text(fs.last())
    }
}

fn push_str(out: &mut String, s: &str)
    ensures
        final(out)@ == old(out)@ + s@,
{
    out.append(s);
}

fn push_color_tag(out: &mut String, prefix: &str, c: ThemeColor)
    ensures
        final(out)@ == old(out)@ + color_tag(prefix@, c),
{
    let ghost start = out@;
    push_str(out, "%{");
    push_str(out, prefix);
    push_str(out, c.get_string().as_str());
    push_str(out, "}");
    assert(out@ =~= start + color_tag(prefix@, c));
}

impl TextFormat {
    /// Appends the markup of this directive to `out`.
    pub fn write_markup(&self, out: &mut String)
        ensures
            final(out)@ == old(out)@ + format_text(*self),
        decreases self,
    {
        let ghost start = out@;
        match self {
            TextFormat::Foreground(c) => push_color_tag(out, "F#", *c),
            TextFormat::Background(c) => push_color_tag(out, "B#", *c),
            TextFormat::ColorPair(fg, bg) => {
                push_color_tag(out, "F#", *fg);
                push_color_tag(out, "B#", *bg);
                assert(out@ =~= start + format_text(*self));
            },
            TextFormat::Underline(c) => push_color_tag(out, "U#", *c),
            TextFormat::Font(i) => {
                push_str(out, "%{T#");
                push_decimal(out, *i as u64);
                push_str(out, "}");
                assert(out@ =~= start + format_text(*self));
            },
            TextFormat::Swap => push_str(out, "%{R}"),
            TextFormat::Left => push_str(out, "%{l}"),
            TextFormat::Right => push_str(out, "%{r}"),
            TextFormat::Center => push_str(out, "%{c}"),
            TextFormat::Multi(children) => {
                assert(children@.take(0) =~= Seq::<TextFormat>::empty());
                for i in 0..children.len()
                    invariant
                        out@ == start + formats_text(children@.take(i as int)),
                        *self == TextFormat::Multi(*children),
                {
                    let ghost before = out@;
                    proof {
                        assert(decreases_to!(*children => children[i as int]));
                        assert(decreases_to!(*self => self->Multi_0));
                    }
                    children[i].write_markup(out);
                    assert(children@.take(i + 1).drop_last() =~= children@.take(i as int));
                    assert(out@ =~= start + formats_text(children@.take(i + 1)));
                }
                assert(children@.take(children.len() as int) =~= children@);
            },
        }
    }

    /// The lemonbar markup of this directive.
    pub fn process_format(self) -> (s: String)
        ensures
            s@ == format_text(self),
    {
        let mut s = String::new();
        self.write_markup(&mut s);
        assert(s@ =~= format_text(self));
        s
    }
}

/// A mouse event that a clickable area of the bar reacts to.
#[derive(Clone, Copy, Debug)]
pub enum MouseEvent {
    LeftClick,
    MiddleClick,
    RightClick,
    ScrollUp,
    ScrollDown,
}

/// The lemonbar button number of a mouse event.
pub open spec fn button_number(e: MouseEvent) -> nat {
    match e {
        MouseEvent::LeftClick => 1,
        MouseEvent::MiddleClick => 2,
        MouseEvent::RightClick => 3,
        MouseEvent::ScrollUp => 4,
        MouseEvent::ScrollDown => 5,
    }
}

/// The button number of a mouse event.
pub fn button_of(e: &MouseEvent) -> (n: u64)
    ensures
        n == button_number(*e),
{
    match e {
        MouseEvent::LeftClick => 1,
        MouseEvent::MiddleClick => 2,
        MouseEvent::RightClick => 3,
        MouseEvent::ScrollUp => 4,
        MouseEvent::ScrollDown => 5,
    }
}

/// A piece of the bar: plain text, formatted or clickable pieces, and sequences of pieces.
#[derive(Debug)]
pub enum Segment {
    Compound(Vec<Segment>),
    Formatted(TextFormat, Box<Segment>),
    Action(MouseEvent, String, Box<Segment>),
    Text(String),
}

/// The lemonbar markup that wraps `inner` in a clickable area running `command`.
pub open spec fn action_text(e: MouseEvent, command: Seq<char>, inner: Seq<char>) -> Seq<char> {
    "%{A"@ + decimal(button_number(e)) + ":"@ + command + ":}"@ + inner + "%{A}"@
}

/// The lemonbar markup of a segment.
pub open spec fn segment_text(s: Segment) -> Seq<char>
    decreases s,
{
    match s {
        Segment::Compound(children) => segments_text(children@),
        Segment::Formatted(f, child) => format_text(f) + segment_text(*child),
        Segment::Action(e, command, child) => action_text(e, command@, segment_text(*child)),
        Segment::Text(t) => t@,
    }
}

/// The markups of a list of segments, one after the other.
pub open spec fn segments_text(ss: Seq<Segment>) -> Seq<char>
    decreases ss,
{
    if ss.len() == 0 {
        Seq::empty()
    } else {
        segments_text(ss.drop_last()) + segment_text(ss.last())
    }
}

impl Segment {
    /// Appends the markup of this segment to `out`.
    pub fn write_markup(&self, out: &mut String)
        ensures
            final(out)@ == old(out)@ + segment_text(*self),
        decreases self,
    {
        let ghost start = out@;
        match self {
            Segment::Compound(children) => {
                assert(children@.take(0) =~= Seq::<Segment>::empty());
                for i in 0..children.len()
                    invariant
                        out@ == start + segments_text(children@.take(i as int)),
                        *self == Segment::Compound(*children),
                {
                    proof {
                        assert(decreases_to!(*children => children[i as int]));
                        assert(decreases_to!(*self => self->Compound_0));
                    }
                    children[i].write_markup(out);
                    assert(children@.take(i + 1).drop_last() =~= children@.take(i as int));
                    assert(out@ =~= start + segments_text(children@.take(i + 1)));
                }
                assert(children@.take(children.len() as int) =~= children@);
            },
            Segment::Formatted(f, child) => {
                f.write_markup(out);
                proof {
                    assert(decreases_to!(*self => self->Formatted_1));
                }
                child.write_markup(out);
                assert(out@ =~= start + segment_text(*self));
            },
            Segment::Action(e, command, child) => {
                push_str(out, "%{A");
                push_decimal(out, button_of(e));
                push_str(out, ":");
                push_str(out, command.as_str());
                push_str(out, ":}");
                proof {
                    assert(decreases_to!(*self => self->Action_2));
                }
                child.write_markup(out);
                push_str(out, "%{A}");
                assert(out@ =~= start + segment_text(*self));
            },
            Segment::Text(t) => {
                push_str(out, t.as_str());
            },
        }
    }

    /// The lemonbar markup of this segment.
    pub fn process_segment(self) -> (s: String)
        ensures
            s@ == segment_text(self),
    {
        let mut s = String::new();
        self.write_markup(&mut s);
        assert(s@ =~= segment_text(self));
        s
    }
}

/// A lowercase hexadecimal digit.
pub open spec fn is_hex_digit(c: char) -> bool {
    ('0' <= c && c <= '9') || ('a' <= c && c <= 'f')
}

/// Every theme colour is a six-digit lowercase hexadecimal RGB code.
pub proof fn law_color_code_is_hex(c: ThemeColor)
    ensures
        color_code(c).len() == 6,
        forall|i: int| 0 <= i < 6 ==> #[trigger] is_hex_digit(color_code(c)[i]),
{
    reveal_strlit("839496");
    reveal_strlit("002b36");
    reveal_strlit("dc322f");
    reveal_strlit("859900");
    reveal_strlit("b58900");
    reveal_strlit("268bd2");
    reveal_strlit("d33682");
    reveal_strlit("2aa198");
    reveal_strlit("073642");
    reveal_strlit("9baf00");
}

/// A colour pair sets the foreground, then the background: it renders as the two
/// directives one after the other.
pub proof fn law_color_pair_is_foreground_then_background(fg: ThemeColor, bg: ThemeColor)
    ensures
        format_text(TextFormat::ColorPair(fg, bg)) == format_text(TextFormat::Foreground(fg))
            + format_text(TextFormat::Background(bg)),
{
}

/// Rendering a list of directives distributes over concatenation: the markup of `a + b` is
/// that of `a` followed by that of `b`.
pub proof fn law_formats_concat(a: Seq<TextFormat>, b: Seq<TextFormat>)
    ensures
        formats_text(a + b) == formats_text(a) + formats_text(b),
    decreases b.len(),
{
    if b.len() == 0 {
        assert(a + b =~= a);
        assert(formats_text(a) + formats_text(b) =~= formats_text(a));
    } else {
        law_formats_concat(a, b.drop_last());
        assert((a + b).drop_last() =~= a + b.drop_last());
        assert((a + b).last() == b.last());
        assert(formats_text(a + b) =~= formats_text(a) + formats_text(b));
    }
}

/// Rendering a list of segments distributes over concatenation: the markup of `a + b` is
/// that of `a` followed by that of `b`. So a compound of compounds renders as the compound
/// of all their children.
pub proof fn law_segments_concat(a: Seq<Segment>, b: Seq<Segment>)
    ensures
        segments_text(a + b) == segments_text(a) + segments_text(b),
    decreases b.len(),
{
    if b.len() == 0 {
        assert(a + b =~= a);
        assert(segments_text(a) + segments_text(b) =~= segments_text(a));
    } else {
        law_segments_concat(a, b.drop_last());
        assert((a + b).drop_last() =~= a + b.drop_last());
        assert((a + b).last() == b.last());
        assert(segments_text(a + b) =~= segments_text(a) + segments_text(b));
    }
}

/// A single segment in a list renders as the segment itself.
pub proof fn law_segments_single(s: Segment)
    ensures
        segments_text(seq![s]) == segment_text(s),
{
    assert(seq![s].drop_last() =~= Seq::<Segment>::empty());
    assert(segments_text(Seq::<Segment>::empty()) + segment_text(s) =~= segment_text(s));
}

} // verus!
