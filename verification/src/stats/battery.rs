use vstd::prelude::*;
use crate::text::{
    free_of, lemma_split_append, lemma_split_free, signed_decimal, law_parse_i64_of_signed_decimal,
    char_views, chars_eq, chars_of, parse_i64, parse_i64_spec, split, split_chars, string_of,
};

verus! {

/// What the kernel says the battery is doing.
pub enum BatteryChargeState {
    Full,
    Charging,
    Discharging,
    Unknown(String),
}

/// The battery's charge in percent (when reported) and its charging state.
pub struct BatteryInfo {
    pub charge: Option<i64>,
    pub state: BatteryChargeState,
}

/// The value given to `key` by a list of `KEY=VALUE` lines: that of the last line made of
/// exactly one `=` with `key` before it. Other lines are ignored.
pub open spec fn uevent_value(lines: Seq<Seq<char>>, key: Seq<char>) -> Option<Seq<char>>
    decreases lines.len(),
{
    if lines.len() == 0 {
        None
    } else {
        let kv = split(lines.last(), '=');
        if kv.len() == 2 && kv[0] == key {
            Some(kv[1])
        } else {
            uevent_value(lines.drop_last(), key)
        }
    }
}

/// The value given to `key` by a `uevent` text, whose lines are separated by `'\n'`.
pub open spec fn uevent_lookup(text: Seq<char>, key: Seq<char>) -> Option<Seq<char>> {
    uevent_value(split(text, '\n'), key)
}

/// `state` is the charge state that a `POWER_SUPPLY_STATUS` value (or its absence) means.
pub open spec fn state_for(status: Option<Seq<char>>, state: BatteryChargeState) -> bool {
    match status {
        None => state matches BatteryChargeState::Unknown(s) && s@ == "?"@,
        Some(v) => if v == "Full"@ {
            state is Full
        } else if v == "Discharging"@ {
            state is Discharging
        } else if v == "Charging"@ {
            state is Charging
        } else {
            state matches BatteryChargeState::Unknown(s) && s@ == v
        },
    }
}

/// The charge that a `POWER_SUPPLY_CAPACITY` value (or its absence) means: the value read as
/// an integer, `-1` where it is no integer.
pub open spec fn charge_for(capacity: Option<Seq<char>>) -> Option<i64> {
    match capacity {
        None => None,
        Some(v) => Some(
            match parse_i64_spec(v) {
                Some(n) => n,
                None => -1i64,
            },
        ),
    }
}

/// The string that `v` holds, if any.
pub open spec fn text_of(v: Option<String>) -> Option<Seq<char>> {
    match v {
        Some(s) => Some(s@),
        None => None,
    }
}

fn lookup(lines: &Vec<Vec<char>>, key: &Vec<char>) -> (r: Option<String>)
    ensures
        text_of(r) == uevent_value(char_views(lines@), key@),
{
    let mut found: Option<String> = None;
    assert(char_views(lines@).take(0) =~= Seq::<Seq<char>>::empty());
    for i in 0..lines.len()
        invariant
            text_of(found) == uevent_value(char_views(lines@).take(i as int), key@),
    {
        let kv = split_chars(&lines[i], '=');
        let ghost prefix = char_views(lines@).take(i + 1);
        assert(prefix.drop_last() =~= char_views(lines@).take(i as int));
        assert(prefix.last() == lines@[i as int]@);
        if kv.len() == 2 && chars_eq(&kv[0], key) {
            found = Some(string_of(&kv[1]));
        }
    }
    assert(char_views(lines@).take(lines.len() as int) =~= char_views(lines@));
    found
}

/// Reads the battery's state and charge out of the text of its `uevent` file, as a map from
/// each `KEY` to the `VALUE` of its last `KEY=VALUE` line.
pub fn parse_battery_info(uevent: &str) -> (info: BatteryInfo)
    ensures
        state_for(uevent_lookup(uevent@, "POWER_SUPPLY_STATUS"@), info.state),
        info.charge == charge_for(uevent_lookup(uevent@, "POWER_SUPPLY_CAPACITY"@)),
{
    let chars = chars_of(uevent);
    let lines = split_chars(&chars, '\n');
    let state = match lookup(&lines, &chars_of("POWER_SUPPLY_STATUS")) {
        None => BatteryChargeState::Unknown(String::from_str("?")),
        Some(v) => {
            let value = chars_of(v.as_str());
            if chars_eq(&value, &chars_of("Full")) {
                BatteryChargeState::Full
            } else if chars_eq(&value, &chars_of("Discharging")) {
                BatteryChargeState::Discharging
            } else if chars_eq(&value, &chars_of("Charging")) {
                BatteryChargeState::Charging
            } else {
                BatteryChargeState::Unknown(v)
            }
        },
    };
    let charge = match lookup(&lines, &chars_of("POWER_SUPPLY_CAPACITY")) {
        None => None,
        Some(v) => Some(
            match parse_i64(v.as_str()) {
                Some(n) => n,
                None => -1,
            },
        ),
    };
    BatteryInfo { charge, state }
}

/// The last line wins: after a line `key=value`, the text gives `key` the value `value`,
/// whatever came before, as a map that each line inserts into does.
pub proof fn law_last_line_wins(text: Seq<char>, key: Seq<char>, value: Seq<char>)
    requires
        free_of(key, '='),
        free_of(key, '\n'),
        free_of(value, '='),
        free_of(value, '\n'),
    ensures
        uevent_lookup(text + seq!['\n'] + (key + seq!['='] + value), key) == Some(value),
{
    let line = key + seq!['='] + value;
    assert(free_of(line, '\n')) by {
        assert forall|i: int| 0 <= i < line.len() implies line[i] != '\n' by {
            if i < key.len() {
                assert(line[i] == key[i]);
            } else if i > key.len() {
                assert(line[i] == value[i - key.len() - 1]);
            }
        }
    }
    lemma_split_append(text, '\n', line);
    lemma_split_free(key, '=');
    lemma_split_append(key, '=', value);
    let lines = split(text, '\n').push(line);
    assert(lines.last() == line);
}

/// Keys are matched exactly: a line `other=value` whose key differs from `key` (a longer key
/// that starts with `key` included) leaves the value read for `key` as it was.
pub proof fn law_other_keys_ignored(
    text: Seq<char>,
    key: Seq<char>,
    other: Seq<char>,
    value: Seq<char>,
)
    requires
        other != key,
        free_of(other, '='),
        free_of(other, '\n'),
        free_of(value, '='),
        free_of(value, '\n'),
    ensures
        uevent_lookup(text + seq!['\n'] + (other + seq!['='] + value), key) == uevent_lookup(
            text,
            key,
        ),
{
    let line = other + seq!['='] + value;
    assert(free_of(line, '\n')) by {
        assert forall|i: int| 0 <= i < line.len() implies line[i] != '\n' by {
            if i < other.len() {
                assert(line[i] == other[i]);
            } else if i > other.len() {
                assert(line[i] == value[i - other.len() - 1]);
            }
        }
    }
    lemma_split_append(text, '\n', line);
    lemma_split_free(other, '=');
    lemma_split_append(other, '=', value);
    let lines = split(text, '\n').push(line);
    assert(lines.last() == line);
    assert(lines.drop_last() =~= split(text, '\n'));
    assert(split(line, '=')[0] == other);
}

/// Reading back what was written: a capacity written in decimal is read as that charge.
pub proof fn law_capacity_round_trip(n: i64)
    ensures
        charge_for(Some(signed_decimal(n as int))) == Some(n),
{
    law_parse_i64_of_signed_decimal(n);
}

} // verus!
