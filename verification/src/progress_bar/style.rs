//! The characters a progress bar is drawn with.

use vstd::prelude::*;

verus! {

/// How a progress bar looks.
#[derive(Debug, Clone, Copy, PartialEq, Eq, Structural)]
pub enum Style {
    /// Classic style: [████████░░░░░░░░]
    Classic,
    /// ASCII style: [########--------]
    Ascii,
    /// Dots style: [●●●●●●●●○○○○○○○○]
    Dots,
    /// Arrows style: [>>>>>>>>--------]
    Arrows,
    /// Blocks style: [▰▰▰▰▰▰▱▱▱▱▱▱]
    Blocks,
}

impl Style {
    /// The character for the part of the bar that is done.
    pub open spec fn spec_filled_char(&self) -> char {
        match self {
            Style::Classic => '█',
            Style::Ascii => '#',
            Style::Dots => '●',
            Style::Arrows => '>',
            Style::Blocks => '▰',
        }
    }

    /// The character for the part of the bar that is still to do.
    pub open spec fn spec_empty_char(&self) -> char {
        match self {
            Style::Classic => '░',
            Style::Ascii => '-',
            Style::Dots => '○',
            Style::Arrows => '-',
            Style::Blocks => '▱',
        }
    }

    /// The character for the part of the bar that is done.
    pub fn filled_char(&self) -> (c: char)
        ensures
            c == self.spec_filled_char(),
    {
        match self {
            Style::Classic => '█',
            Style::Ascii => '#',
            Style::Dots => '●',
            Style::Arrows => '>',
            Style::Blocks => '▰',
        }
    }

    /// The character for the part of the bar that is still to do.
    pub fn empty_char(&self) -> (c: char)
        ensures
            c == self.spec_empty_char(),
    {
        match self {
            Style::Classic => '░',
            Style::Ascii => '-',
            Style::Dots => '○',
            Style::Arrows => '-',
            Style::Blocks => '▱',
        }
    }
}

impl Default for Style {
    fn default() -> (style: Self)
        ensures
            style == Style::Classic,
    {
        Style::Classic
    }
}

} // verus!
