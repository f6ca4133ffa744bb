use vstd::prelude::*;

verus! {

// ---------------------------------------------------------------------------
// Decimal rendering
// ---------------------------------------------------------------------------

/// The character of the decimal digit `d` (0 to 9).
pub open spec fn digit_char(d: int) -> char {
    (d + 48) as char
}

/// The decimal rendering of `n`: most significant digit first, no sign, no padding.
pub open spec fn decimal(n: nat) -> Seq<char>
    decreases n,
{
    if n < 10 {
        seq![digit_char(n as int)]
    } else {
        decimal(n / 10).push(digit_char((n % 10) as int))
    }
}

/// The decimal rendering of a signed integer: a `-` in front of negative values.
pub open spec fn signed_decimal(n: int) -> Seq<char> {
    if n < 0 {
        seq!['-'] + decimal((-n) as nat)
    } else {
        decimal(n as nat)
    }
}

/// `s`, padded on the left with `fill` up to `width` characters.
pub open spec fn pad_left(s: Seq<char>, width: nat, fill: char) -> Seq<char> {
    if s.len() < width {
        Seq::new((width - s.len()) as nat, |_i: int| fill) + s
    } else {
        s
    }
}

/// `n` copies of `c`.
pub open spec fn repeat(c: char, n: nat) -> Seq<char> {
    Seq::new(n, |_i: int| c)
}

/// Appends `c` to `s` (`String::push`).
#[verifier::external_body]
pub(crate) fn push_char(s: &mut String, c: char)
    ensures
        final(s)@ == old(s)@.push(c),
{
    s.push(c);
}

fn digit(d: u64) -> (c: char)
    requires
        d < 10,
    ensures
        c == digit_char(d as int),
{
    let b: u8 = 48u8 + (d as u8);
    b as char
}

/// Appends the decimal rendering of `n` to `out`.
pub fn push_decimal(out: &mut String, n: u64)
    ensures
        final(out)@ == old(out)@ + decimal(n as nat),
    decreases n,
{
    if n >= 10 {
        push_decimal(out, n / 10);
    }
    push_char(out, digit(n % 10));
}

/// Appends the decimal rendering of the signed `n` to `out`.
pub fn push_signed_decimal(out: &mut String, n: i64)
    ensures
        final(out)@ == old(out)@ + signed_decimal(n as int),
{
    if n < 0 {
        push_char(out, '-');
        let magnitude: u64 = ((-(n + 1)) as u64) + 1;
        push_decimal(out, magnitude);
        assert(old(out)@.push('-') + decimal(magnitude as nat) =~= old(out)@ + (seq!['-']
            + decimal(magnitude as nat)));
    } else {
        push_decimal(out, n as u64);
    }
}

/// The decimal rendering of `n` as a new string.
pub fn decimal_string(n: u64) -> (s: String)
    ensures
        s@ == decimal(n as nat),
{
    let mut s = String::new();
    push_decimal(&mut s, n);
    assert(Seq::<char>::empty() + decimal(n as nat) =~= decimal(n as nat));
    s
}

/// Appends `n` in decimal, padded on the left with `'0'` to at least two digits.
pub fn push_decimal_two_digits(out: &mut String, n: u64)
    ensures
        final(out)@ == old(out)@ + pad_left(decimal(n as nat), 2, '0'),
{
    if n < 10 {
        push_char(out, '0');
        push_decimal(out, n);
        assert(old(out)@.push('0') + decimal(n as nat) =~= old(out)@ + pad_left(
            decimal(n as nat),
            2,
            '0',
        ));
    } else {
        proof {
            lemma_decimal_len_at_least_two(n as nat);
        }
        push_decimal(out, n);
    }
}

proof fn lemma_decimal_len_at_least_two(n: nat)
    requires
        n >= 10,
    ensures
        decimal(n).len() >= 2,
    decreases n,
{
    lemma_decimal_nonempty(n / 10);
}

/// A decimal rendering has at least one digit, and every character is a digit.
pub proof fn lemma_decimal_nonempty(n: nat)
    ensures
        decimal(n).len() >= 1,
        all_digits(decimal(n)),
    decreases n,
{
    if n >= 10 {
        lemma_decimal_nonempty(n / 10);
    }
}

// ---------------------------------------------------------------------------
// Character sequences
// ---------------------------------------------------------------------------

/// The characters of `s`, in order.
pub fn chars_of(s: &str) -> (v: Vec<char>)
    ensures
        v@ == s@,
{
    let mut v: Vec<char> = Vec::new();
    for c in it: s.chars()
        invariant
            v@ == it.seq().take(it.index() as int),
    {
        v.push(c);
    }
    v
}

/// Appends every character of `v` to `out`.
pub fn push_chars(out: &mut String, v: &Vec<char>)
    ensures
        final(out)@ == old(out)@ + v@,
{
    let ghost start = out@;
    for i in 0..v.len()
        invariant
            out@ == start + v@.take(i as int),
    {
        push_char(out, v[i]);
        assert(start + v@.take(i + 1) =~= (start + v@.take(i as int)).push(v@[i as int]));
    }
    assert(v@.take(v.len() as int) =~= v@);
}

/// A string holding the characters of `v`.
pub fn string_of(v: &Vec<char>) -> (s: String)
    ensures
        s@ == v@,
{
    let mut s = String::new();
    push_chars(&mut s, v);
    assert(Seq::<char>::empty() + v@ =~= v@);
    s
}

/// Whether `a` and `b` hold the same characters.
pub fn chars_eq(a: &Vec<char>, b: &Vec<char>) -> (r: bool)
    ensures
        r == (a@ == b@),
{
    if a.len() != b.len() {
        return false;
    }
    for i in 0..a.len()
        invariant
            a.len() == b.len(),
            forall|k: int| 0 <= k < i ==> a@[k] == b@[k],
    {
        if a[i] != b[i] {
            return false;
        }
    }
    assert(a@ =~= b@);
    true
}

/// `s` cut at every occurrence of `sep`, as `str::split` with a character pattern does:
/// `n` separators give `n + 1` pieces, empty ones included.
pub open spec fn split(s: Seq<char>, sep: char) -> Seq<Seq<char>>
    decreases s.len(),
{
    if s.len() == 0 {
        seq![Seq::<char>::empty()]
    } else {
        let t = split(s.drop_last(), sep);
        if s.last() == sep {
            t.push(Seq::<char>::empty())
        } else {
            t.update(t.len() - 1, t.last().push(s.last()))
        }
    }
}

/// Splitting always gives at least one piece.
pub proof fn lemma_split_nonempty(s: Seq<char>, sep: char)
    ensures
        split(s, sep).len() >= 1,
    decreases s.len(),
{
    if s.len() > 0 {
        lemma_split_nonempty(s.drop_last(), sep);
    }
}

/// The pieces of `s` between occurrences of `sep`.
pub fn split_chars(s: &Vec<char>, sep: char) -> (parts: Vec<Vec<char>>)
    ensures
        char_views(parts@) == split(s@, sep),
        parts.len() == split(s@, sep).len(),
        forall|k: int| 0 <= k < parts.len() ==> #[trigger] parts@[k]@ == split(s@, sep)[k],
{
    let mut parts: Vec<Vec<char>> = Vec::new();
    let mut cur: Vec<char> = Vec::new();
    assert(s@.take(0) =~= Seq::<char>::empty());
    for i in 0..s.len()
        invariant
            split(s@.take(i as int), sep).len() == parts.len() + 1,
            forall|k: int|
                0 <= k < parts.len() ==> #[trigger] parts@[k]@ == split(s@.take(i as int), sep)[k],
            split(s@.take(i as int), sep)[parts.len() as int] == cur@,
    {
        let c = s[i];
        let ghost prev = s@.take(i as int);
        assert(s@.take(i + 1).drop_last() =~= prev);
        assert(s@.take(i + 1).last() == c);
        proof {
            lemma_split_nonempty(prev, sep);
        }
        if c == sep {
            parts.push(cur);
            cur = Vec::new();
        } else {
            cur.push(c);
        }
    }
    assert(s@.take(s.len() as int) =~= s@);
    parts.push(cur);
    assert(char_views(parts@) =~= split(s@, sep));
    parts
}

/// The character sequences that a list of character vectors holds.
pub open spec fn char_views(v: Seq<Vec<char>>) -> Seq<Seq<char>> {
    v.map_values(|x: Vec<char>| x@)
}

// ---------------------------------------------------------------------------
// Parsing integers as `str::parse` does
// ---------------------------------------------------------------------------

/// An ASCII decimal digit.
pub open spec fn is_digit(c: char) -> bool {
    '0' <= c && c <= '9'
}

/// The value of a digit character.
pub open spec fn digit_value(c: char) -> int {
    c as int - 48
}

/// Every character of `s` is an ASCII decimal digit.
pub open spec fn all_digits(s: Seq<char>) -> bool {
    forall|i: int| 0 <= i < s.len() ==> #[trigger] is_digit(s[i])
}

/// The number that the digit string `s` denotes.
pub open spec fn digits_value(s: Seq<char>) -> nat
    decreases s.len(),
{
    if s.len() == 0 {
        0
    } else {
        (digits_value(s.drop_last()) * 10 + digit_value(s.last())) as nat
    }
}

/// The value of the non-empty digit string `d`, when every character is a digit and the
/// value is at most `limit`.
pub open spec fn bounded_digits(d: Seq<char>, limit: nat) -> Option<nat> {
    if d.len() > 0 && all_digits(d) && digits_value(d) <= limit {
        Some(digits_value(d))
    } else {
        None
    }
}

/// `s` without one leading `+`.
pub open spec fn strip_plus(s: Seq<char>) -> Seq<char> {
    if s.len() > 0 && s[0] == '+' {
        s.drop_first()
    } else {
        s
    }
}

/// What `s.parse::<u64>()` gives: an optional `+`, then one or more ASCII digits whose value
/// fits in 64 bits.
pub open spec fn parse_u64_spec(s: Seq<char>) -> Option<u64> {
    match bounded_digits(strip_plus(s), u64::MAX as nat) {
        Some(v) => Some(v as u64),
        None => None,
    }
}

/// What `s.parse::<i64>()` gives: an optional sign, then one or more ASCII digits whose
/// signed value fits in 64 bits.
pub open spec fn parse_i64_spec(s: Seq<char>) -> Option<i64> {
    if s.len() > 0 && s[0] == '-' {
        match bounded_digits(s.drop_first(), 0x8000_0000_0000_0000) {
            Some(v) => Some((-v) as i64),
            None => None,
        }
    } else {
        match bounded_digits(strip_plus(s), i64::MAX as nat) {
            Some(v) => Some(v as i64),
            None => None,
        }
    }
}

proof fn lemma_digits_value_prefix(s: Seq<char>, j: int)
    requires
        all_digits(s),
        0 <= j <= s.len(),
    ensures
        digits_value(s.take(j)) <= digits_value(s),
    decreases s.len(),
{
    if j < s.len() {
        let t = s.drop_last();
        assert(t.take(j) =~= s.take(j));
        assert(all_digits(t)) by {
            assert forall|i: int| 0 <= i < t.len() implies #[trigger] is_digit(t[i]) by {
                assert(is_digit(s[i]));
            }
        }
        lemma_digits_value_prefix(t, j);
        assert(is_digit(s.last()));
    } else {
        assert(s.take(j) =~= s);
    }
}

/// The value of the digits `s[start..]`, when they are one or more digits and at most `limit`.
fn parse_digits(s: &Vec<char>, start: usize, limit: u64) -> (r: Option<u64>)
    requires
        start <= s.len(),
    ensures
        r == (match bounded_digits(s@.subrange(start as int, s.len() as int), limit as nat) {
            Some(v) => Some(v as u64),
            None => None,
        }),
{
    let ghost d = s@.subrange(start as int, s.len() as int);
    if start == s.len() {
        return None;
    }
    let mut acc: u64 = 0;
    let mut i: usize = start;
    assert(d.take(0) =~= Seq::<char>::empty());
    while i < s.len()
        invariant
            start <= i <= s.len(),
            d == s@.subrange(start as int, s.len() as int),
            all_digits(d.take(i - start)),
            acc as nat == digits_value(d.take(i - start)),
            acc <= limit,
        decreases s.len() - i,
    {
        let c = s[i];
        let ghost k = i - start;
        assert(d[k] == c);
        if !('0' <= c && c <= '9') {
            assert(!all_digits(d)) by {
                assert(!is_digit(d[k]));
            }
            return None;
        }
        let dv: u64 = (c as u32 - 48) as u64;
        assert(d.take(k + 1).drop_last() =~= d.take(k));
        assert(d.take(k + 1).last() == c);
        assert(all_digits(d.take(k + 1))) by {
            assert forall|j: int| 0 <= j < k + 1 implies #[trigger] is_digit(d.take(k + 1)[j]) by {
                if j < k {
                    assert(d.take(k + 1)[j] == d.take(k)[j]);
                }
            }
        }
        let next = match acc.checked_mul(10) {
            Some(m) => m.checked_add(dv),
            None => None,
        };
        match next {
            Some(v) if v <= limit => {
                acc = v;
            },
            _ => {
                proof {
                    if all_digits(d) {
                        lemma_digits_value_prefix(d, k + 1);
                    }
                }
                return None;
            },
        }
        i = i + 1;
    }
    assert(d.take(i - start) =~= d);
    Some(acc)
}

/// Parses `s` as `s.parse::<u64>().ok()` does.
pub fn parse_u64(s: &str) -> (r: Option<u64>)
    ensures
        r == parse_u64_spec(s@),
{
    let v = chars_of(s);
    if v.len() > 0 && v[0] == '+' {
        assert(v@.subrange(1, v@.len() as int) =~= strip_plus(s@));
        parse_digits(&v, 1, u64::MAX)
    } else {
        assert(v@.subrange(0, v@.len() as int) =~= strip_plus(s@));
        parse_digits(&v, 0, u64::MAX)
    }
}

/// Parses `s` as `s.parse::<i64>().ok()` does.
pub fn parse_i64(s: &str) -> (r: Option<i64>)
    ensures
        r == parse_i64_spec(s@),
{
    let v = chars_of(s);
    if v.len() > 0 && v[0] == '-' {
        assert(v@.subrange(1, v@.len() as int) =~= s@.drop_first());
        match parse_digits(&v, 1, 0x8000_0000_0000_0000) {
            Some(m) => {
                if m == 0x8000_0000_0000_0000 {
                    Some(i64::MIN)
                } else {
                    Some(-(m as i64))
                }
            },
            None => None,
        }
    } else {
        let start: usize = if v.len() > 0 && v[0] == '+' {
            1
        } else {
            0
        };
        assert(v@.subrange(start as int, v@.len() as int) =~= strip_plus(s@));
        match parse_digits(&v, start, i64::MAX as u64) {
            Some(m) => Some(m as i64),
            None => None,
        }
    }
}

// ---------------------------------------------------------------------------
// Laws
// ---------------------------------------------------------------------------

/// The digits of the decimal rendering of `n` denote `n`.
pub proof fn lemma_decimal_value(n: nat)
    ensures
        all_digits(decimal(n)),
        decimal(n).len() >= 1,
        digits_value(decimal(n)) == n,
    decreases n,
{
    lemma_decimal_nonempty(n);
    let d = decimal(n);
    let r = (n % 10) as int;
    assert(digit_value(digit_char(r)) == r);
    if n < 10 {
        assert(d.drop_last() =~= Seq::<char>::empty());
        assert(d.last() == digit_char(r));
        assert(digits_value(d.drop_last()) == 0);
        assert(digits_value(d) == digits_value(d.drop_last()) * 10 + digit_value(d.last()));
    } else {
        lemma_decimal_value(n / 10);
        assert(d.drop_last() =~= decimal(n / 10));
        assert(d.last() == digit_char(r));
        assert(digits_value(d) == digits_value(d.drop_last()) * 10 + digit_value(d.last()));
        assert(n == (n / 10) * 10 + r);
    }
}

/// Reading back what was written: parsing the decimal rendering of an unsigned integer
/// gives that integer.
pub proof fn law_parse_u64_of_decimal(n: u64)
    ensures
        parse_u64_spec(decimal(n as nat)) == Some(n),
{
    lemma_decimal_value(n as nat);
    let d = decimal(n as nat);
    assert(is_digit(d[0]));
    assert(strip_plus(d) == d);
}

/// Reading back what was written: parsing the signed decimal rendering of an integer gives
/// that integer.
pub proof fn law_parse_i64_of_signed_decimal(n: i64)
    ensures
        parse_i64_spec(signed_decimal(n as int)) == Some(n),
{
    if n < 0 {
        let m = (-n) as nat;
        lemma_decimal_value(m);
        let s = signed_decimal(n as int);
        assert(s.drop_first() =~= decimal(m));
    } else {
        lemma_decimal_value(n as nat);
        let d = decimal(n as nat);
        assert(is_digit(d[0]));
        assert(strip_plus(d) == d);
    }
}

/// `w` holds no `sep`.
pub open spec fn free_of(w: Seq<char>, sep: char) -> bool {
    forall|i: int| 0 <= i < w.len() ==> w[i] != sep
}

/// A text without the separator is a single piece.
pub proof fn lemma_split_free(w: Seq<char>, sep: char)
    requires
        free_of(w, sep),
    ensures
        split(w, sep) == seq![w],
    decreases w.len(),
{
    if w.len() == 0 {
        assert(w =~= Seq::<char>::empty());
    } else {
        let p = w.drop_last();
        lemma_split_free(p, sep);
        assert(p.push(w.last()) =~= w);
        assert(w.last() != sep);
        assert(split(w, sep) =~= seq![p].update(0, p.push(w.last())));
        assert(seq![p].update(0, p.push(w.last())) =~= seq![w]);
    }
}

/// Adding a separator and a piece without separators at the end adds that piece.
pub proof fn lemma_split_append(s: Seq<char>, sep: char, w: Seq<char>)
    requires
        free_of(w, sep),
    ensures
        split(s + seq![sep] + w, sep) == split(s, sep).push(w),
    decreases w.len(),
{
    let x = s + seq![sep] + w;
    if w.len() == 0 {
        assert(x.drop_last() =~= s);
        assert(x.last() == sep);
        assert(w =~= Seq::<char>::empty());
    } else {
        let p = w.drop_last();
        assert(free_of(p, sep));
        lemma_split_append(s, sep, p);
        assert(x.drop_last() =~= s + seq![sep] + p);
        assert(x.last() == w.last());
        assert(w.last() != sep);
        assert(p.push(w.last()) =~= w);
        let t = split(s, sep).push(p);
        assert(split(x, sep) == t.update(t.len() - 1, t.last().push(w.last())));
        assert(split(x, sep) =~= split(s, sep).push(w));
    }
}

} // verus!
