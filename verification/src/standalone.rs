//! The markup of the single-file bar program, whose colours are free-form hex strings and
//! whose composite directives and segments are binary.
use vstd::prelude::*;
use crate::markup::{action_text, button_of, color_code, MouseEvent, ThemeColor};
use crate::markup;
use crate::text::{decimal, push_decimal, split, split_chars, chars_of, string_of, lemma_split_nonempty};

verus! {

/// A lemonbar formatting directive with colours given as hex strings.
#[derive(Debug)]
pub enum TextFormat {
    Foreground(String),
    Background(String),
    Underline(String),
    Font(usize),
    Swap,
    Left,
    Right,
    Center,
    Multi(Box<TextFormat>, Box<TextFormat>),
}

/// A piece of the bar; `Compound` joins two pieces.
#[derive(Debug)]
pub enum Segment {
    Compound(Box<Segment>, Box<Segment>),
    Formatted(TextFormat, Box<Segment>),
    Action(MouseEvent, String, Box<Segment>),
    Text(String),
}

/// The lemonbar markup of a directive.
pub open spec fn format_text(f: TextFormat) -> Seq<char>
    decreases f,
{
    match f {
        TextFormat::Foreground(c) => "%{F#"@ + c@ + "}"@,
        TextFormat::Background(c) => "%{B#"@ + c@ + "}"@,
        TextFormat::Underline(c) => "%{U#"@ + c@ + "}"@,
        TextFormat::Font(i) => "%{T#"@ + decimal(i as nat) + "}"@,
        TextFormat::Swap => "%{R}"@,
        TextFormat::Left => "%{l}"@,
        TextFormat::Right => "%{r}"@,
        TextFormat::Center => "%{c}"@,
        TextFormat::Multi(first, second) => format_text(*first) + format_text(*second),
    }
}

/// The lemonbar markup of a segment.
pub open spec fn segment_text(s: Segment) -> Seq<char>
    decreases s,
{
    match s {
        Segment::Compound(first, second) => segment_text(*first) + segment_text(*second),
        Segment::Formatted(f, child) => format_text(f) + segment_text(*child),
        Segment::Action(e, command, child) => action_text(e, command@, segment_text(*child)),
        Segment::Text(t) => t@,
    }
}

fn push_str(out: &mut String, s: &str)
    ensures
        final(out)@ == old(out)@ + s@,
{
    out.append(s);
}

fn write_format(f: &TextFormat, out: &mut String)
    ensures
        final(out)@ == old(out)@ + format_text(*f),
    decreases f,
{
    let ghost start = out@;
    match f {
        TextFormat::Foreground(c) => {
            push_str(out, "%{F#");
            push_str(out, c.as_str());
            push_str(out, "}");
        },
        TextFormat::Background(c) => {
            push_str(out, "%{B#");
            push_str(out, c.as_str());
            push_str(out, "}");
        },
        TextFormat::Underline(c) => {
            push_str(out, "%{U#");
            push_str(out, c.as_str());
            push_str(out, "}");
        },
        TextFormat::Font(i) => {
            push_str(out, "%{T#");
            push_decimal(out, *i as u64);
            push_str(out, "}");
        },
        TextFormat::Swap => push_str(out, "%{R}"),
        TextFormat::Left => push_str(out, "%{l}"),
        TextFormat::Right => push_str(out, "%{r}"),
        TextFormat::Center => push_str(out, "%{c}"),
        TextFormat::Multi(first, second) => {
            proof {
                assert(decreases_to!(*f => f->Multi_0));
                assert(decreases_to!(*f => f->Multi_1));
            }
            write_format(first, out);
            write_format(second, out);
        },
    }
    assert(out@ =~= start + format_text(*f));
}

fn write_segment(s: &Segment, out: &mut String)
    ensures
        final(out)@ == old(out)@ + segment_text(*s),
    decreases s,
{
    let ghost start = out@;
    match s {
        Segment::Compound(first, second) => {
            proof {
                assert(decreases_to!(*s => s->Compound_0));
                assert(decreases_to!(*s => s->Compound_1));
            }
            write_segment(first, out);
            write_segment(second, out);
        },
        Segment::Formatted(f, child) => {
            write_format(f, out);
            proof {
                assert(decreases_to!(*s => s->Formatted_1));
            }
            write_segment(child, out);
        },
        Segment::Action(e, command, child) => {
            push_str(out, "%{A");
            push_decimal(out, button_of(e));
            push_str(out, ":");
            push_str(out, command.as_str());
            push_str(out, ":}");
            proof {
                assert(decreases_to!(*s => s->Action_2));
            }
            write_segment(child, out);
            push_str(out, "%{A}");
        },
        Segment::Text(t) => push_str(out, t.as_str()),
    }
    assert(out@ =~= start + segment_text(*s));
}

/// The lemonbar markup of a segment.
pub fn process_segment(seg: Segment) -> (s: String)
    ensures
        s@ == segment_text(seg),
{
    let mut s = String::new();
    write_segment(&seg, &mut s);
    assert(s@ =~= segment_text(seg));
    s
}

/// The lemonbar markup of a directive.
pub fn process_format(fmt: TextFormat) -> (s: String)
    ensures
        s@ == format_text(fmt),
{
    let mut s = String::new();
    write_format(&fmt, &mut s);
    assert(s@ =~= format_text(fmt));
    s
}

/// The first line of a command's output: the text before the first `'\\n'`, or all of it.
pub fn first_line(output: &str) -> (line: String)
    ensures
        line@ == split(output@, '\n')[0],
{
    let chars = chars_of(output);
    let lines = split_chars(&chars, '\n');
    proof {
        lemma_split_nonempty(output@, '\n');
    }
    string_of(&lines[0])
}

/// Written with a theme colour's code, the colour directives of the single-file program
/// give the same markup as the theme's directives.
pub proof fn law_agrees_with_theme_formats(code: String, c: ThemeColor)
    requires
        code@ == color_code(c),
    ensures
        format_text(TextFormat::Foreground(code)) == markup::format_text(
            markup::TextFormat::Foreground(c),
        ),
        format_text(TextFormat::Background(code)) == markup::format_text(
            markup::TextFormat::Background(c),
        ),
        format_text(TextFormat::Underline(code)) == markup::format_text(
            markup::TextFormat::Underline(c),
        ),
{
    reveal_strlit("%{F#");
    reveal_strlit("%{B#");
    reveal_strlit("%{U#");
    reveal_strlit("%{");
    reveal_strlit("F#");
    reveal_strlit("B#");
    reveal_strlit("U#");
    reveal_strlit("}");
    assert(format_text(TextFormat::Foreground(code)) =~= markup::format_text(
        markup::TextFormat::Foreground(c),
    ));
    assert(format_text(TextFormat::Background(code)) =~= markup::format_text(
        markup::TextFormat::Background(c),
    ));
    assert(format_text(TextFormat::Underline(code)) =~= markup::format_text(
        markup::TextFormat::Underline(c),
    ));
}

/// The colour-free directives of the single-file program give the same markup as the
/// theme's directives of the same name.
pub proof fn law_plain_directives_agree_with_theme(i: usize, j: u8)
    requires
        i == j,
    ensures
        format_text(TextFormat::Left) == markup::format_text(markup::TextFormat::Left),
        format_text(TextFormat::Right) == markup::format_text(markup::TextFormat::Right),
        format_text(TextFormat::Center) == markup::format_text(markup::TextFormat::Center),
        format_text(TextFormat::Swap) == markup::format_text(markup::TextFormat::Swap),
        format_text(TextFormat::Font(i)) == markup::format_text(markup::TextFormat::Font(j)),
{
}

/// A clickable text of the single-file program gives the same markup as the theme's
/// clickable text with the same event, command and text: every mouse event is announced with
/// the same lemonbar button.
pub proof fn law_actions_agree_with_theme(
    e: MouseEvent,
    command: String,
    text: String,
    theme_command: String,
    theme_text: String,
)
    requires
        command@ == theme_command@,
        text@ == theme_text@,
    ensures
        segment_text(Segment::Action(e, command, Box::new(Segment::Text(text))))
            == markup::segment_text(
            markup::Segment::Action(
                e,
                theme_command,
                Box::new(markup::Segment::Text(theme_text)),
            ),
        ),
{
    assert(segment_text(Segment::Text(text)) == text@);
    assert(markup::segment_text(markup::Segment::Text(theme_text)) == theme_text@);
}

} // verus!
