use vstd::prelude::*;

verus! {

/// ANSI terminal colours the driver prints with; each carries its escape
/// code.
#[derive(Clone, Copy, Debug)]
pub enum TermColor {
    NoColor,
    Black,
    Gray,
    Red,
    LightRed,
    Green,
    LightGreen,
    Brown,
    Yellow,
    Blue,
    LightBlue,
    Purple,
    LightPurple,
    Cyan,
    LightCyan,
    LightGray,
    White,
}

impl TermColor {
    /// The escape sequence that switches the terminal to this colour.
    pub fn code(&self) -> (c: &'static str) {
        match self {
            Self::NoColor => "\x1b[0m",
            Self::Black => "\x1b[0;30m",
            Self::Gray => "\x1b[1;30m",
            Self::Red => "\x1b[0;31m",
            Self::LightRed => "\x1b[1;31m",
            Self::Green => "\x1b[0;32m",
            Self::LightGreen => "\x1b[1;32m",
            Self::Brown => "\x1b[0;33m",
            Self::Yellow => "\x1b[1;33m",
            Self::Blue => "\x1b[0;34m",
            Self::LightBlue => "\x1b[1;34m",
            Self::Purple => "\x1b[0;35m",
            Self::LightPurple => "\x1b[1;35m",
            Self::Cyan => "\x1b[0;36m",
            Self::LightCyan => "\x1b[1;36m",
            Self::LightGray => "\x1b[0;37m",
            Self::White => "\x1b[1;37m",
        }
    }
}

} // verus!
