//! Painting text through the `colored` crate.
use vstd::prelude::*;
use colored::Colorize;
use crate::level::{Color, Level};
use crate::markup::{decorates, esc};

verus! {

/// The SGR parameter that selects `color` as foreground.
pub open spec fn fg_code(color: Color) -> Seq<char> {
    match color {
        Color::Red => seq!['3', '1'],
        Color::Green => seq!['3', '2'],
        Color::Yellow => seq!['3', '3'],
        Color::Blue => seq!['3', '4'],
        Color::Magenta => seq!['3', '5'],
        Color::White => seq!['3', '7'],
    }
}

/// The sequence that turns on bold text in `color`.
pub open spec fn bold_open(color: Color) -> Seq<char> {
    seq![esc(), '['] + seq!['1', ';'] + fg_code(color) + seq!['m']
}

/// `s` opens with an escape character.
pub open spec fn starts_with_escape(s: Seq<char>) -> bool {
    s.len() > 0 && s[0] == esc()
}

/// `r` is `msg` decorated, and where `msg` opens with a visible character
/// and `r` with markup, that markup turns on bold `color`.
pub open spec fn painted(r: Seq<char>, msg: Seq<char>, color: Color) -> bool {
    &&& decorates(r, msg)
    &&& starts_with_escape(r) && msg.len() > 0 && !starts_with_escape(msg) ==> bold_open(
        color,
    ).is_prefix_of(r)
}

/// Relies on `Colorize::color`, `Colorize::bold` and `ColoredString`'s
/// `Display` in `colored`: the text comes back unchanged when coloring is off,
/// and otherwise framed by complete SGR sequences (`ESC[1;<code>m` before it,
/// again after each `ESC[0m` inside it, and `ESC[0m` after it).
#[verifier::external_body]
pub(crate) fn paint_bold(msg: &str, color: Color) -> (r: String)
    ensures
        painted(r@, msg@, color),
{
    let c = match color {
        Color::Red => colored::Color::Red,
        Color::Yellow => colored::Color::Yellow,
        Color::Green => colored::Color::Green,
        Color::Blue => colored::Color::Blue,
        Color::Magenta => colored::Color::Magenta,
        Color::White => colored::Color::White,
    };
    msg.color(c).bold().to_string()
}

/// The color that marks each severity by default.
pub open spec fn default_color(level: Level) -> Color {
    match level {
        Level::Error => Color::Red,
        Level::Warn => Color::Yellow,
        Level::Info => Color::Green,
        Level::Debug => Color::Green,
        Level::Trace => Color::Magenta,
    }
}

/// The color that marks `level` by default: red, yellow, green, green, magenta.
pub fn level_color_of(level: &Level) -> (c: Color)
    ensures
        c == default_color(*level),
{
    match level {
        Level::Error => Color::Red,
        Level::Warn => Color::Yellow,
        Level::Info => Color::Green,
        Level::Debug => Color::Green,
        Level::Trace => Color::Magenta,
    }
}

/// Paints `msg` bold in the color of `level`; the visible text is unchanged.
pub fn level_color(level: &Level, msg: &str) -> (r: String)
    ensures
        painted(r@, msg@, default_color(*level)),
{
    paint_bold(msg, level_color_of(level))
}

} // verus!
