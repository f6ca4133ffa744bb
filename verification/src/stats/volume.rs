use vstd::prelude::*;
use crate::text::{decimal, decimal_string, parse_u64, parse_u64_spec};

verus! {

/// The reading of one channel of the master mixer control.
#[derive(Copy, Clone, Debug, PartialEq, Eq, Structural)]
pub struct ChannelStats {
    pub absolute: Option<u64>,
    pub percent: Option<u64>,
    pub muted: Option<bool>,
}

/// The readings of the two channels of the master mixer control.
#[derive(Copy, Clone, Debug, PartialEq, Eq, Structural)]
pub struct VolumeStats {
    pub left: ChannelStats,
    pub right: ChannelStats,
}

/// The pattern of one channel line of `amixer get Master`. Its groups, numbered in order,
/// are the raw level, the level in percent and the `on`/`off` switch.
pub const VOLUME_PATTERN: &'static str =
    r"Front.*:\s+Playback\s+(?P<raw>\d+)\s+\[(?P<percent>\d+)%\]\s*\[(?P<muted>on|off)\]";

/// What `regex::Regex::new(pattern)` followed by `captures_iter(text)` gives: `None` where the
/// pattern does not compile, else, for each match, the text of every group in order.
pub uninterp spec fn regex_captures(pattern: Seq<char>, text: Seq<char>) -> Option<
    Seq<Seq<Option<Seq<char>>>>,
>;

/// The texts of the groups of one match.
pub open spec fn group_views(c: Seq<Option<String>>) -> Seq<Option<Seq<char>>> {
    c.map_values(
        |g: Option<String>|
            match g {
                Some(s) => Some(s@),
                None => None,
            },
    )
}

/// The texts of the groups of every match.
pub open spec fn captures_views(cs: Seq<Vec<Option<String>>>) -> Seq<Seq<Option<Seq<char>>>> {
    cs.map_values(|c: Vec<Option<String>>| group_views(c@))
}

/// Compiles `pattern` with `regex::Regex::new` and, where it compiles, lists the matches that
/// `regex::Regex::captures_iter` finds in `text`, each as the text of every group in order
/// (group 0 is the whole match; `None` for a group that took no part). The contract only
/// ties the result to the name `regex_captures`; what matches is not stated.
#[verifier::external_body]
fn find_captures(pattern: &str, text: &str) -> (r: Option<Vec<Vec<Option<String>>>>)
    ensures
        match r {
            None => regex_captures(pattern@, text@) is None,
            Some(cs) => regex_captures(pattern@, text@) == Some(captures_views(cs@)),
        },
{
    regex::Regex::new(pattern).ok().map(
        |re|
            re.captures_iter(text).map(
                |c| c.iter().map(|g| g.map(|m| m.as_str().to_string())).collect(),
            ).collect(),
    )
}

/// The text of group `i` of a match, `None` where it has no such group.
pub open spec fn group(c: Seq<Option<Seq<char>>>, i: int) -> Option<Seq<char>> {
    if 0 <= i < c.len() {
        c[i]
    } else {
        None
    }
}

/// A level read out of a group: its digits as a number, `None` where there are none or the
/// number does not fit.
pub open spec fn level_in(g: Option<Seq<char>>) -> Option<u64> {
    match g {
        Some(t) => parse_u64_spec(t),
        None => None,
    }
}

/// The switch read out of a group: `on` is `true`, `off` is `false`.
pub open spec fn switch_in(g: Option<Seq<char>>) -> Option<bool> {
    match g {
        Some(t) => if t == "on"@ {
            Some(true)
        } else if t == "off"@ {
            Some(false)
        } else {
            None
        },
        None => None,
    }
}

/// The channel reading that one match of [`VOLUME_PATTERN`] gives.
pub open spec fn channel_from(c: Seq<Option<Seq<char>>>) -> ChannelStats {
    ChannelStats {
        absolute: level_in(group(c, 1)),
        percent: level_in(group(c, 2)),
        muted: switch_in(group(c, 3)),
    }
}

fn level_of(g: &Option<String>) -> (r: Option<u64>)
    ensures
        r == level_in(match g {
            Some(s) => Some(s@),
            None => None,
        }),
{
    match g {
        Some(s) => parse_u64(s.as_str()),
        None => None,
    }
}

fn str_eq(a: &str, b: &str) -> (r: bool)
    ensures
        r == (a@ == b@),
{
    let x = crate::text::chars_of(a);
    let y = crate::text::chars_of(b);
    crate::text::chars_eq(&x, &y)
}

/// The channel reading that one match gives, from the texts of its groups.
pub fn channel_stats(groups: &Vec<Option<String>>) -> (c: ChannelStats)
    ensures
        c == channel_from(group_views(groups@)),
{
    let ghost gv = group_views(groups@);
    let absolute = if groups.len() > 1 {
        level_of(&groups[1])
    } else {
        None
    };
    let percent = if groups.len() > 2 {
        level_of(&groups[2])
    } else {
        None
    };
    let muted = if groups.len() > 3 {
        match &groups[3] {
            Some(s) => if str_eq(s.as_str(), "on") {
                Some(true)
            } else if str_eq(s.as_str(), "off") {
                Some(false)
            } else {
                None
            },
            None => None,
        }
    } else {
        None
    };
    ChannelStats { absolute, percent, muted }
}

/// The volume that the first two matches give: the first is the left channel, the second
/// the right one.
pub fn volume_from_captures(caps: &Vec<Vec<Option<String>>>) -> (v: VolumeStats)
    requires
        caps.len() >= 2,
    ensures
        v.left == channel_from(captures_views(caps@)[0]),
        v.right == channel_from(captures_views(caps@)[1]),
{
    VolumeStats { left: channel_stats(&caps[0]), right: channel_stats(&caps[1]) }
}

/// Reads the two channels of the master control out of the output of `amixer get Master`:
/// the first two lines that match [`VOLUME_PATTERN`]. `None` where fewer than two match.
pub fn parse_volume(output: &str) -> (v: Option<VolumeStats>)
    ensures
        match regex_captures(VOLUME_PATTERN@, output@) {
            Some(cs) if cs.len() >= 2 => v == Some(
                VolumeStats { left: channel_from(cs[0]), right: channel_from(cs[1]) },
            ),
            _ => v is None,
        },
{
    match find_captures(VOLUME_PATTERN, output) {
        Some(caps) => {
            if caps.len() >= 2 {
                Some(volume_from_captures(&caps))
            } else {
                None
            }
        },
        None => None,
    }
}

impl VolumeStats {
    /// The right channel's level in percent, in decimal.
    pub fn get_string(&self) -> (s: String)
        requires
            self.right.percent is Some,
        ensures
            s@ == decimal(self.right.percent.unwrap() as nat),
    {
        decimal_string(self.right.percent.unwrap())
    }
}

} // verus!
