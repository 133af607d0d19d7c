//! Text pieces of a frame: decimal and grouped numbers, right alignment,
//! repeated characters and the `HH:MM:SS` clock.
use num_format::ToFormattedString;
use vstd::prelude::*;

verus! {

/// The character of a decimal digit `d < 10`.
pub open spec fn digit_char(d: nat) -> char {
    ((d + 48) as u8) as char
}

/// The decimal digits of `n`, most significant first, without leading zeros.
pub open spec fn decimal(n: nat) -> Seq<char>
    decreases n,
{
    if n < 10 {
        seq![digit_char(n)]
    } else {
        decimal(n / 10).push(digit_char(n % 10))
    }
}

/// A string of digits split into groups of three from the right, joined by `,`.
pub open spec fn grouped(d: Seq<char>) -> Seq<char>
    decreases d.len(),
{
    if d.len() <= 3 {
        d
    } else {
        grouped(d.subrange(0, d.len() - 3)) + seq![','] + d.subrange(d.len() - 3, d.len() as int)
    }
}

/// How a count is written: plain decimal, or in English thousands groups.
pub open spec fn number_text(group_digits: bool, n: nat) -> Seq<char> {
    if group_digits {
        grouped(decimal(n))
    } else {
        decimal(n)
    }
}

/// `n` copies of `c`.
pub open spec fn repeat(c: char, n: nat) -> Seq<char> {
    Seq::new(n, |i: int| c)
}

/// `s` right-aligned in a field of `width` characters, padded with spaces.
pub open spec fn pad_left(s: Seq<char>, width: nat) -> Seq<char> {
    if s.len() < width {
        repeat(' ', (width - s.len()) as nat) + s
    } else {
        s
    }
}

/// Two decimal digits of `v < 100`, zero-padded.
pub open spec fn two_digits(v: nat) -> Seq<char> {
    seq![digit_char(v / 10), digit_char(v % 10)]
}

/// The clock shown for a duration too long, or not known.
pub open spec fn unknown_clock() -> Seq<char> {
    seq!['?', '?', ':', '?', '?', ':', '?', '?']
}

/// A duration in seconds as `HH:MM:SS`, or `??:??:??` once the hours pass 99.
pub open spec fn clock(secs: nat) -> Seq<char> {
    if secs / 3600 > 99 {
        unknown_clock()
    } else {
        two_digits(secs / 3600) + seq![':'] + two_digits((secs / 60) % 60) + seq![':']
            + two_digits(secs % 60)
    }
}

/// Relies on `String::push`: the character is appended at the end.
#[verifier::external_body]
pub(crate) fn push_char(s: &mut String, c: char)
    ensures
        final(s)@ == old(s)@.push(c),
{
    s.push(c)
}

/// Relies on num_format's `to_formatted_string` with `Locale::en`, whose
/// separator is `,` and whose grouping is `Standard` (groups of three).
#[verifier::external_body]
fn en_grouped(n: u64) -> (r: String)
    ensures
        r@ == grouped(decimal(n as nat)),
{
    n.to_formatted_string(&num_format::Locale::en)
}

fn digit(d: u64) -> (c: char)
    requires
        d < 10,
    ensures
        c == digit_char(d as nat),
{
    ((d as u8) + 48u8) as char
}

/// Appends the decimal digits of `n`.
pub fn push_decimal(s: &mut String, n: u64)
    ensures
        final(s)@ == old(s)@ + decimal(n as nat),
    decreases n,
{
    if n >= 10 {
        push_decimal(s, n / 10);
    }
    push_char(s, digit(n % 10));
    assert(final(s)@ =~= old(s)@ + decimal(n as nat));
}

/// Writes `n` in plain decimal, or with `,` between groups of three digits.
pub fn format_number(n: u64, group_digits: bool) -> (r: String)
    ensures
        r@ == number_text(group_digits, n as nat),
{
    if group_digits {
        en_grouped(n)
    } else {
        let mut s = String::new();
        push_decimal(&mut s, n);
        assert(s@ =~= decimal(n as nat));
        s
    }
}

/// Appends `n` copies of `c`.
pub fn push_repeat(s: &mut String, c: char, n: u64)
    ensures
        final(s)@ == old(s)@ + repeat(c, n as nat),
{
    let mut i: u64 = 0;
    while i < n
        invariant
            i <= n,
            s@ == old(s)@ + repeat(c, i as nat),
        decreases n - i,
    {
        push_char(s, c);
        i = i + 1;
        assert(s@ =~= old(s)@ + repeat(c, i as nat));
    }
}

/// Appends `t` right-aligned in a field of `width` characters.
pub fn push_padded(s: &mut String, t: &String, width: usize)
    ensures
        final(s)@ == old(s)@ + pad_left(t@, width as nat),
{
    let n = t.as_str().unicode_len();
    if n < width {
        push_repeat(s, ' ', (width - n) as u64);
    }
    s.append(t.as_str());
    assert(final(s)@ =~= old(s)@ + pad_left(t@, width as nat));
}

fn push_two_digits(s: &mut String, v: u128)
    requires
        v < 100,
    ensures
        final(s)@ == old(s)@ + two_digits(v as nat),
{
    push_char(s, digit((v / 10) as u64));
    push_char(s, digit((v % 10) as u64));
    assert(final(s)@ =~= old(s)@ + two_digits(v as nat));
}

/// Appends `??:??:??`.
pub fn push_unknown_clock(s: &mut String)
    ensures
        final(s)@ == old(s)@ + unknown_clock(),
{
    push_char(s, '?');
    push_char(s, '?');
    push_char(s, ':');
    push_char(s, '?');
    push_char(s, '?');
    push_char(s, ':');
    push_char(s, '?');
    push_char(s, '?');
    assert(final(s)@ =~= old(s)@ + unknown_clock());
}

/// Appends `secs` as a clock (see [`clock`]).
pub fn push_clock(s: &mut String, secs: u128)
    ensures
        final(s)@ == old(s)@ + clock(secs as nat),
{
    let hours = secs / 3600;
    if hours > 99 {
        push_unknown_clock(s);
    } else {
        push_two_digits(s, hours);
        push_char(s, ':');
        push_two_digits(s, (secs / 60) % 60);
        push_char(s, ':');
        push_two_digits(s, secs % 60);
    }
    assert(final(s)@ =~= old(s)@ + clock(secs as nat));
}

/// A duration in whole seconds, written as a clock.
pub struct Time(pub u64);

impl Time {
    /// `HH:MM:SS`, zero-padded, or `??:??:??` once the hours pass 99.
    pub fn text(&self) -> (r: String)
        ensures
            r@ == clock(self.0 as nat),
    {
        let mut s = String::new();
        push_clock(&mut s, self.0 as u128);
        assert(s@ =~= clock(self.0 as nat));
        s
    }
}

} // verus!
