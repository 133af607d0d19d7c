//! The bar itself: position, throttled redraws, and the text of each frame.
use crate::config::{line_width, overhead, Config, Style};
use crate::text::{
    clock, decimal, format_number, number_text, pad_left, push_char, push_clock, push_decimal,
    push_padded, push_repeat, push_unknown_clock, repeat, unknown_clock,
};
use vstd::arithmetic::div_mod::{
    lemma_div_by_multiple, lemma_div_is_ordered, lemma_div_is_ordered_by_denominator,
    lemma_fundamental_div_mod,
};
use vstd::arithmetic::mul::lemma_mul_upper_bound;
use vstd::prelude::*;

verus! {

/// `a / b` rounded to the nearest integer, halves upward.
pub open spec fn rounded_div(a: nat, b: nat) -> nat
    recommends
        b > 0,
{
    a / b + if 2 * (a % b) >= b {
        1nat
    } else {
        0nat
    }
}

/// `pos / len` of `scale`, rounded; all of it when the total is zero.
pub open spec fn scaled(pos: nat, len: nat, scale: nat) -> nat {
    if len == 0 {
        scale
    } else {
        rounded_div(pos * scale, len)
    }
}

/// Columns of the bar drawn with the fill character.
pub open spec fn filled_width(pos: nat, len: nat, bar_width: nat) -> nat {
    scaled(pos, len, bar_width)
}

/// The whole-number percentage shown.
pub open spec fn percent(pos: nat, len: nat) -> nat {
    scaled(pos, len, 100)
}

/// `a / b` rounded upward.
pub open spec fn ceil_div(a: nat, b: nat) -> nat
    recommends
        b > 0,
{
    a / b + if a % b == 0 {
        0nat
    } else {
        1nat
    }
}

/// Seconds still to go, at the average pace so far: none left once the
/// position reaches the total, unknown while nothing has been counted.
pub open spec fn eta_secs(pos: nat, len: nat, elapsed_millis: nat) -> Option<nat> {
    if pos >= len {
        Some(0)
    } else if pos == 0 {
        None
    } else {
        Some(ceil_div(((len - pos) as nat) * elapsed_millis, 1000 * pos))
    }
}

pub open spec fn eta_text(eta: Option<nat>) -> Seq<char> {
    match eta {
        Some(s) => clock(s),
        None => unknown_clock(),
    }
}

/// The character at the boundary: the fill character once complete.
pub open spec fn boundary_char(style: Style, pos: nat, len: nat) -> char {
    if pos == len {
        style.spec_bar_char()
    } else {
        style.spec_edge_char()
    }
}

/// The start of a frame: prefix, clock, both counts, unit and opening delimiter.
pub open spec fn frame_head(c: Config, len: nat, pos: nat, elapsed_millis: nat) -> Seq<char> {
    seq!['\r'] + c.prefix@ + seq![' '] + clock(elapsed_millis / 1000) + seq![' '] + pad_left(
        number_text(c.group_digits, pos),
        c.num_width as nat,
    ) + seq![' ', '/', ' '] + pad_left(number_text(c.group_digits, len), c.num_width as nat) + (
    if c.unit@.len() == 0 {
        Seq::empty()
    } else {
        seq![' ']
    }) + c.unit@ + seq![' ', c.delimiters.0]
}

/// The bar between the delimiters: fill, boundary character, background.
pub open spec fn frame_fill(c: Config, len: nat, pos: nat, bar_width: nat) -> Seq<char> {
    let filled = filled_width(pos, len, bar_width);
    repeat(c.style.spec_bar_char(), filled) + seq![boundary_char(c.style, pos, len)] + repeat(
        c.space_char,
        (bar_width - filled) as nat,
    )
}

/// The end of a frame: closing delimiter, percentage and estimate.
pub open spec fn frame_tail(c: Config, len: nat, pos: nat, elapsed_millis: nat) -> Seq<char> {
    seq![c.delimiters.1, ' '] + pad_left(decimal(percent(pos, len)), 3) + seq![
        '%',
        ' ',
        'E',
        'T',
        'A',
        ' ',
    ] + eta_text(eta_secs(pos, len, elapsed_millis)) + seq!['\r']
}

/// The text of one frame, from carriage return to carriage return.
pub open spec fn frame(c: Config, len: nat, pos: nat, bar_width: nat, elapsed_millis: nat) -> Seq<
    char,
> {
    frame_head(c, len, pos, elapsed_millis) + frame_fill(c, len, pos, bar_width) + frame_tail(
        c,
        len,
        pos,
        elapsed_millis,
    )
}

proof fn lemma_rounded_div_bound(pos: nat, len: nat, scale: nat)
    requires
        pos <= len,
        len > 0,
    ensures
        rounded_div(pos * scale, len) <= scale,
{
    let a = pos * scale;
    lemma_mul_upper_bound(pos as int, len as int, scale as int, scale as int);
    assert(len * scale == scale * len) by (nonlinear_arith);
    lemma_div_is_ordered(a as int, (scale * len) as int, len as int);
    lemma_div_by_multiple(scale as int, len as int);
    lemma_fundamental_div_mod(a as int, len as int);
    if a / len == scale {
        assert(len * (a / len) == scale * len) by (nonlinear_arith)
            requires
                a / len == scale,
        ;
    }
}

/// `pos / len` of `scale`, rounded (see [`scaled`]).
fn scale_of(pos: u64, len: u64, scale: u64) -> (r: u64)
    requires
        pos <= len,
    ensures
        r == scaled(pos as nat, len as nat, scale as nat),
        r <= scale,
{
    if len == 0 {
        scale
    } else {
        proof {
            lemma_mul_upper_bound(pos as int, 0xffff_ffff_ffff_ffff, scale as int, 0xffff_ffff_ffff_ffff);
            lemma_rounded_div_bound(pos as nat, len as nat, scale as nat);
        }
        let a: u128 = (pos as u128) * (scale as u128);
        let q: u128 = a / (len as u128);
        let rem: u128 = a % (len as u128);
        let r: u128 = if 2 * rem >= len as u128 {
            q + 1
        } else {
            q
        };
        r as u64
    }
}

/// Seconds still to go (see [`eta_secs`]).
fn eta_of(pos: u64, len: u64, elapsed_millis: u64) -> (r: Option<u128>)
    requires
        pos <= len,
    ensures
        match r {
            Some(s) => eta_secs(pos as nat, len as nat, elapsed_millis as nat) == Some(s as nat),
            None => eta_secs(pos as nat, len as nat, elapsed_millis as nat) is None,
        },
{
    if pos >= len {
        Some(0)
    } else if pos == 0 {
        None
    } else {
        let rest: u64 = len - pos;
        proof {
            lemma_mul_upper_bound(rest as int, 0xffff_ffff_ffff_ffff, elapsed_millis as int, 0xffff_ffff_ffff_ffff);
        }
        let a: u128 = (rest as u128) * (elapsed_millis as u128);
        let b: u128 = 1000 * (pos as u128);
        proof {
            lemma_div_is_ordered_by_denominator(a as int, 1, b as int);
        }
        let q: u128 = a / b;
        if a % b == 0 {
            Some(q)
        } else {
            Some(q + 1)
        }
    }
}

#[verifier::external_type_specification]
#[verifier::external_body]
pub struct ExInstant(std::time::Instant);

/// Relies on `Instant::now`: a reading of the monotonic clock.
#[verifier::external_body]
fn clock_now() -> std::time::Instant {
    std::time::Instant::now()
}

/// Relies on `Instant::elapsed`: the time passed since `start`, in whole milliseconds.
#[verifier::external_body]
fn millis_since(start: &std::time::Instant) -> u128 {
    start.elapsed().as_millis()
}

/// Relies on terminal_size's `terminal_size`: the column count of the terminal
/// on stdout, stderr or stdin, when one of them is a terminal.
#[verifier::external_body]
fn terminal_columns() -> Option<u16> {
    terminal_size::terminal_size().map(|(w, _)| w.0)
}

/// A throttled redraw is due once more than `throttle` milliseconds have
/// passed since the last one.
pub open spec fn throttle_fires(last: nat, throttle: nat, now: nat) -> bool {
    now > last + throttle
}

/// One increment taken at `now`: a redraw happens exactly when the throttle
/// allows, and then moves the time of the last redraw to `now`.
pub open spec fn inc_step<'a>(before: Bar<'a>, after: Bar<'a>, now: nat, drew: bool) -> bool {
    &&& drew == throttle_fires(
        before.spec_last_update(),
        before.spec_config().throttle_millis as nat,
        now,
    )
    &&& after.spec_config() == before.spec_config()
    &&& after.spec_last_update() == if drew {
        now
    } else {
        before.spec_last_update()
    }
}

/// Width of each count column: the configured least width, widened to fit the total.
pub open spec fn resolved_num_width(c: Config, len: nat) -> nat {
    let n = number_text(c.group_digits, len).len();
    if c.num_width < n {
        n
    } else {
        c.num_width as nat
    }
}

/// A progress bar over a known total.
pub struct Bar<'a> {
    config: Config<'a>,
    len: u64,
    pos: u64,
    len_str: String,
    bar_width: u64,
    start_time: std::time::Instant,
    last_update: u64,
}

impl<'a> Bar<'a> {
    /// The options, with `num_width` resolved to fit the total.
    pub closed spec fn spec_config(&self) -> Config<'a> {
        self.config
    }

    /// The total, fixed when the bar is made.
    pub closed spec fn spec_len(&self) -> nat {
        self.len as nat
    }

    /// The count so far.
    pub closed spec fn spec_pos(&self) -> nat {
        self.pos as nat
    }

    /// Columns of the bar's fill, boundary character excluded.
    pub closed spec fn spec_bar_width(&self) -> nat {
        self.bar_width as nat
    }

    /// Milliseconds after the start at which the last throttled frame was drawn.
    pub closed spec fn spec_last_update(&self) -> nat {
        self.last_update as nat
    }

    /// The position stays within the total, and the total's text is the one
    /// that frames show.
    pub closed spec fn wf(&self) -> bool {
        &&& self.pos <= self.len
        &&& self.len_str@ == number_text(self.config.group_digits, self.len as nat)
    }

    /// The frame of this bar `elapsed_millis` after its start.
    pub open spec fn spec_frame(&self, elapsed_millis: nat) -> Seq<char> {
        frame(
            self.spec_config(),
            self.spec_len(),
            self.spec_pos(),
            self.spec_bar_width(),
            elapsed_millis,
        )
    }

    /// Same total, options and layout.
    pub open spec fn same_layout(self, other: Self) -> bool {
        &&& self.spec_config() == other.spec_config()
        &&& self.spec_len() == other.spec_len()
        &&& self.spec_bar_width() == other.spec_bar_width()
    }

    /// A bar over `len` items, laid out in the configured width, else the
    /// terminal's, else the default width. `None` when the line is too narrow
    /// for everything but the fill.
    pub fn new(len: u64, config: Config<'a>) -> (r: Option<Bar<'a>>)
        ensures
            ({
                let nw = resolved_num_width(config, len as nat);
                &&& r matches Some(b) ==> {
                    &&& b.wf()
                    &&& b.spec_len() == len
                    &&& b.spec_pos() == 0
                    &&& b.spec_last_update() == 0
                    &&& b.spec_config().num_width as nat == nw
                        &&& b.spec_config() == (Config { num_width: b.spec_config().num_width, ..config })
                }
                &&& config.width matches Some(w) ==> match r {
                    Some(b) => overhead(config, nw) <= w && b.spec_bar_width() == w - overhead(
                        config,
                        nw,
                    ),
                    None => overhead(config, nw) > w,
                }
                &&& r matches Some(b) ==> exists|cols: Option<u64>|
                    overhead(config, nw) <= #[trigger] line_width(config, cols)
                        && b.spec_bar_width() == line_width(config, cols) - overhead(config, nw)
                &&& r is None ==> exists|cols: Option<u64>|
                    overhead(config, nw) > #[trigger] line_width(config, cols)
            }),
    {
        let columns = match terminal_columns() {
            Some(w) => Some(w as u64),
            None => None,
        };
        let r = Self::with_terminal_width(len, config, columns);
        proof {
            let _ = line_width(config, columns);
        }
        r
    }

    /// As [`Bar::new`], with `columns` standing for the terminal's width.
    pub fn with_terminal_width(len: u64, config: Config<'a>, columns: Option<u64>) -> (r: Option<
        Bar<'a>,
    >)
        ensures
            ({
                let nw = resolved_num_width(config, len as nat);
                let width = line_width(config, columns);
                match r {
                    Some(b) => {
                        &&& b.wf()
                        &&& b.spec_len() == len
                        &&& b.spec_pos() == 0
                        &&& b.spec_last_update() == 0
                        &&& b.spec_config().num_width as nat == nw
                        &&& b.spec_config() == (Config { num_width: b.spec_config().num_width, ..config })
                        &&& overhead(config, nw) <= width
                        &&& b.spec_bar_width() == width - overhead(config, nw)
                    },
                    None => overhead(config, nw) > width,
                }
            }),
    {
        let len_str = format_number(len, config.group_digits);
        let n = len_str.as_str().unicode_len();
        let num_width = if config.num_width < n {
            n
        } else {
            config.num_width
        };
        assert(num_width as nat == resolved_num_width(config, len as nat));
        let width: u64 = match config.width {
            Some(w) => w,
            None => match columns {
                Some(t) => t,
                None => config.default_width,
            },
        };
        let unit_space: u128 = if config.unit.is_empty() {
            0
        } else {
            1
        };
        let fixed: u128 = 35 + config.prefix.len() as u128 + config.unit.len() as u128 + 2
            * (num_width as u128) + unit_space;
        if fixed > width as u128 {
            None
        } else {
            let bar_width = (width as u128 - fixed) as u64;
            let config = Config { num_width, ..config };
            Some(
                Bar {
                    config,
                    len,
                    pos: 0,
                    len_str,
                    bar_width,
                    start_time: clock_now(),
                    last_update: 0,
                },
            )
        }
    }

    /// A millisecond count as a `u64`, saturating at `u64::MAX`.
    pub fn millis_to_u64(m: u128) -> (r: u64)
        ensures
            r as u128 == if m > u64::MAX as u128 {
                u64::MAX as u128
            } else {
                m
            },
    {
        if m > u64::MAX as u128 {
            u64::MAX
        } else {
            m as u64
        }
    }

    /// Milliseconds since the bar was made, saturating at `u64::MAX`.
    pub fn elapsed_millis(&self) -> u64 {
        Self::millis_to_u64(millis_since(&self.start_time))
    }

    /// A well-formed bar's position never passes its total.
    pub proof fn lemma_pos_within_len(&self)
        requires
            self.wf(),
        ensures
            self.spec_pos() <= self.spec_len(),
    {
    }

    #[verifier::rlimit(40)]
    fn push_head(&self, s: &mut String, elapsed_millis: u64)
        requires
            self.wf(),
        ensures
            final(s)@ == old(s)@ + frame_head(
                self.config,
                self.len as nat,
                self.pos as nat,
                elapsed_millis as nat,
            ),
    {
        let c = &self.config;
        push_char(s, '\r');
        s.append(c.prefix);
        push_char(s, ' ');
        push_clock(s, (elapsed_millis / 1000) as u128);
        push_char(s, ' ');
        let pos_str = format_number(self.pos, c.group_digits);
        push_padded(s, &pos_str, c.num_width);
        push_char(s, ' ');
        push_char(s, '/');
        push_char(s, ' ');
        push_padded(s, &self.len_str, c.num_width);
        if !c.unit.is_empty() {
            push_char(s, ' ');
        }
        s.append(c.unit);
        push_char(s, ' ');
        push_char(s, c.delimiters.0);
        assert(final(s)@ =~= old(s)@ + frame_head(
            self.config,
            self.len as nat,
            self.pos as nat,
            elapsed_millis as nat,
        ));
    }

    fn push_fill(&self, s: &mut String)
        requires
            self.wf(),
        ensures
            final(s)@ == old(s)@ + frame_fill(
                self.config,
                self.len as nat,
                self.pos as nat,
                self.bar_width as nat,
            ),
    {
        let c = &self.config;
        let filled = scale_of(self.pos, self.len, self.bar_width);
        push_repeat(s, c.style.bar_char(), filled);
        let boundary = if self.pos == self.len {
            c.style.bar_char()
        } else {
            c.style.edge_char()
        };
        push_char(s, boundary);
        push_repeat(s, c.space_char, self.bar_width - filled);
        assert(final(s)@ =~= old(s)@ + frame_fill(
            self.config,
            self.len as nat,
            self.pos as nat,
            self.bar_width as nat,
        ));
    }

    fn push_tail(&self, s: &mut String, elapsed_millis: u64)
        requires
            self.wf(),
        ensures
            final(s)@ == old(s)@ + frame_tail(
                self.config,
                self.len as nat,
                self.pos as nat,
                elapsed_millis as nat,
            ),
    {
        let c = &self.config;
        let pct = scale_of(self.pos, self.len, 100);
        push_char(s, c.delimiters.1);
        push_char(s, ' ');
        let mut pct_str = String::new();
        push_decimal(&mut pct_str, pct);
        assert(pct_str@ =~= decimal(pct as nat));
        push_padded(s, &pct_str, 3);
        push_char(s, '%');
        push_char(s, ' ');
        push_char(s, 'E');
        push_char(s, 'T');
        push_char(s, 'A');
        push_char(s, ' ');
        match eta_of(self.pos, self.len, elapsed_millis) {
            Some(e) => push_clock(s, e),
            None => push_unknown_clock(s),
        }
        push_char(s, '\r');
        assert(final(s)@ =~= old(s)@ + frame_tail(
            self.config,
            self.len as nat,
            self.pos as nat,
            elapsed_millis as nat,
        ));
    }

    /// The text of the frame `elapsed_millis` after the start.
    pub fn frame_at(&self, elapsed_millis: u64) -> (r: String)
        requires
            self.wf(),
        ensures
            r@ == self.spec_frame(elapsed_millis as nat),
    {
        let mut s = String::new();
        self.push_head(&mut s, elapsed_millis);
        self.push_fill(&mut s);
        self.push_tail(&mut s, elapsed_millis);
        assert(s@ =~= self.spec_frame(elapsed_millis as nat));
        s
    }

    /// Advances the position by `delta` at `now` milliseconds after the start,
    /// and returns the frame to draw when a throttled redraw is due.
    pub fn inc_at(&mut self, delta: u64, now: u64) -> (r: Option<String>)
        requires
            old(self).wf(),
            old(self).spec_pos() + delta <= old(self).spec_len(),
        ensures
            final(self).wf(),
            final(self).same_layout(*old(self)),
            final(self).spec_pos() == old(self).spec_pos() + delta,
            r is Some == throttle_fires(
                old(self).spec_last_update(),
                old(self).spec_config().throttle_millis as nat,
                now as nat,
            ),
            r matches Some(f) ==> f@ == final(self).spec_frame(now as nat)
                && final(self).spec_last_update() == now,
            r is None ==> final(self).spec_last_update() == old(self).spec_last_update(),
            inc_step(*old(self), *final(self), now as nat, r is Some),
    {
        self.pos = self.pos + delta;
        if now > self.last_update && now - self.last_update > self.config.throttle_millis {
            self.last_update = now;
            Some(self.frame_at(now))
        } else {
            None
        }
    }

    /// Advances the position by `delta`, and returns the frame to draw when a
    /// throttled redraw is due by the clock.
    pub fn inc(&mut self, delta: u64) -> (r: Option<String>)
        requires
            old(self).wf(),
            old(self).spec_pos() + delta <= old(self).spec_len(),
        ensures
            final(self).wf(),
            final(self).same_layout(*old(self)),
            final(self).spec_pos() == old(self).spec_pos() + delta,
            r matches Some(f) ==> f@ == final(self).spec_frame(final(self).spec_last_update())
                && throttle_fires(
                old(self).spec_last_update(),
                old(self).spec_config().throttle_millis as nat,
                final(self).spec_last_update(),
            ),
            r is None ==> final(self).spec_last_update() == old(self).spec_last_update(),
    {
        let now = self.elapsed_millis();
        self.inc_at(delta, now)
    }

    /// The last frame, `elapsed_millis` after the start, ended by a newline.
    pub fn finish_at(self, elapsed_millis: u64) -> (r: String)
        requires
            self.wf(),
        ensures
            r@ == self.spec_frame(elapsed_millis as nat).push('\n'),
    {
        let mut s = self.frame_at(elapsed_millis);
        push_char(&mut s, '\n');
        s
    }

    /// The last frame, drawn whatever the throttle says, ended by a newline.
    pub fn finish(self) -> (r: String)
        requires
            self.wf(),
        ensures
            exists|t: nat| r@ == self.spec_frame(t).push('\n'),
    {
        let now = self.elapsed_millis();
        self.finish_at(now)
    }

    /// The position counted so far.
    pub fn pos(&self) -> (r: u64)
        ensures
            r == self.spec_pos(),
    {
        self.pos
    }

    /// The total.
    pub fn len(&self) -> (r: u64)
        ensures
            r == self.spec_len(),
    {
        self.len
    }

    /// Columns of the bar's fill.
    pub fn bar_width(&self) -> (r: u64)
        ensures
            r == self.spec_bar_width(),
    {
        self.bar_width
    }

    /// Width of each count column.
    pub fn num_width(&self) -> (r: usize)
        ensures
            r == self.spec_config().num_width,
    {
        self.config.num_width
    }
}

} // verus!
