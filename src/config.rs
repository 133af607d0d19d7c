//! Display options of a bar, and the arithmetic that fits the bar into a line.
use vstd::prelude::*;

verus! {

/// The characters that draw the filled part of the bar.
#[derive(Clone, Copy, PartialEq, Eq, Structural)]
pub enum Style {
    /// One character for the filled part and its leading edge.
    Mono(char),
    /// A fill character, and a distinct character at the leading edge.
    Edged(char, char),
}

impl Style {
    pub open spec fn spec_bar_char(self) -> char {
        match self {
            Style::Mono(c) => c,
            Style::Edged(c, _) => c,
        }
    }

    pub open spec fn spec_edge_char(self) -> char {
        match self {
            Style::Mono(c) => c,
            Style::Edged(_, c) => c,
        }
    }

    /// The fill character.
    pub fn bar_char(&self) -> (r: char)
        ensures
            r == self.spec_bar_char(),
    {
        match *self {
            Style::Mono(c) => c,
            Style::Edged(c, _) => c,
        }
    }

    /// The character drawn at the boundary while the bar is not complete.
    pub fn edge_char(&self) -> (r: char)
        ensures
            r == self.spec_edge_char(),
    {
        match *self {
            Style::Mono(c) => c,
            Style::Edged(_, c) => c,
        }
    }
}

/// Display options of a bar.
pub struct Config<'a> {
    /// Width of the whole line; when `None`, the terminal's width, else `default_width`.
    pub width: Option<u64>,
    pub default_width: u64,
    /// Opening and closing characters around the bar.
    pub delimiters: (char, char),
    pub style: Style,
    /// Character of the part not yet filled.
    pub space_char: char,
    pub prefix: &'a str,
    /// Name of what is counted, written after the counts when not empty.
    pub unit: &'a str,
    /// Least width of each of the two count columns.
    pub num_width: usize,
    /// Least gap between two throttled redraws, in milliseconds.
    pub throttle_millis: u64,
    /// Write counts with `,` between groups of three digits.
    pub group_digits: bool,
}

/// The default options, with `style` in place of the default style.
pub open spec fn default_with<'a>(c: Config<'a>, style: Style) -> bool {
    &&& c.width is None
    &&& c.default_width == 80
    &&& c.delimiters == ('[', ']')
    &&& c.style == style
    &&& c.space_char == ' '
    &&& c.prefix@.len() == 0
    &&& c.unit@.len() == 0
    &&& c.num_width == 0
    &&& c.throttle_millis == 10
    &&& !c.group_digits
}

impl<'a> Config<'a> {
    /// Default options with a bar of `#`.
    pub fn ascii() -> (r: Self)
        ensures
            default_with(r, Style::Mono('#')),
    {
        Self::with_style(Style::Mono('#'))
    }

    /// Default options with a bar of full blocks.
    pub fn unicode() -> (r: Self)
        ensures
            default_with(r, Style::Mono('\u{2588}')),
    {
        Self::with_style(Style::Mono('\u{2588}'))
    }

    /// Default options with a bar of `=` led by `>`.
    pub fn cargo() -> (r: Self)
        ensures
            default_with(r, Style::Edged('=', '>')),
    {
        Self::with_style(Style::Edged('=', '>'))
    }

    fn with_style(style: Style) -> (r: Self)
        ensures
            default_with(r, style),
    {
        proof {
            reveal_strlit("");
        }
        Config {
            width: None,
            default_width: 80,
            delimiters: ('[', ']'),
            style,
            space_char: ' ',
            prefix: "",
            unit: "",
            num_width: 0,
            throttle_millis: 10,
            group_digits: false,
        }
    }
}

impl<'a> Default for Config<'a> {
    fn default() -> (r: Self)
        ensures
            default_with(r, Style::Mono('#')),
    {
        Self::with_style(Style::Mono('#'))
    }
}

/// Columns of a line taken by everything but the bar's fill: the prefix, the
/// clock, both count columns, the unit and its space, the delimiters, the
/// percentage, the estimate and the spaces between them.
pub open spec fn overhead(c: Config, num_width: nat) -> nat {
    35 + c.prefix.len() as nat + c.unit.len() as nat + 2 * num_width + if c.unit@.len() == 0 {
        0nat
    } else {
        1nat
    }
}

/// Width of the whole line: the configured one, else the terminal's, else the default.
pub open spec fn line_width(c: Config, columns: Option<u64>) -> nat {
    match c.width {
        Some(w) => w as nat,
        None => match columns {
            Some(t) => t as nat,
            None => c.default_width as nat,
        },
    }
}

} // verus!
