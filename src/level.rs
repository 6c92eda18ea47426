//! Severities and the colors that mark them.
use vstd::prelude::*;

verus! {

/// The severity of a log record, from most to least severe.
#[derive(Clone, Copy, Debug, PartialEq, Eq, Structural)]
pub enum Level {
    Error,
    Warn,
    Info,
    Debug,
    Trace,
}

/// The foreground colors that styles paint with.
#[derive(Clone, Copy, Debug, PartialEq, Eq, Structural)]
pub enum Color {
    Red,
    Yellow,
    Green,
    Blue,
    Magenta,
    White,
}

} // verus!
