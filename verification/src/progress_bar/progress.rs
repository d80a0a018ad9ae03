//! Colours of a progress bar, and elapsed time as text.

use crate::progress_bar::style::Style;
use crate::text::decimal_two;
use crate::text::push_decimal_two;
use vstd::prelude::*;
use vstd::string::StringExecFns;

verus! {

/// The colour of the part of the bar that is done.
#[derive(Debug, Clone, Copy, PartialEq, Eq, Structural)]
pub enum Colour {
    /// No colour: the bar is drawn as it is.
    Plain,
    Red,
    Green,
    Yellow,
    Blue,
    Magenta,
    Cyan,
    White,
}

impl Colour {
    /// The escape sequence that switches a terminal to this colour; empty for
    /// `Plain`.
    pub open spec fn spec_ansi_code(&self) -> Seq<char> {
        match self {
            Colour::Plain => ""@,
            Colour::Red => "\x1b[31m"@,
            Colour::Green => "\x1b[32m"@,
            Colour::Yellow => "\x1b[33m"@,
            Colour::Blue => "\x1b[34m"@,
            Colour::Magenta => "\x1b[35m"@,
            Colour::Cyan => "\x1b[36m"@,
            Colour::White => "\x1b[37m"@,
        }
    }

    /// The escape sequence that switches a terminal to this colour; empty for
    /// `Plain`.
    pub fn ansi_code(&self) -> (code: &'static str)
        ensures
            code@ == self.spec_ansi_code(),
    {
        match self {
            Colour::Plain => "",
            Colour::Red => "\x1b[31m",
            Colour::Green => "\x1b[32m",
            Colour::Yellow => "\x1b[33m",
            Colour::Blue => "\x1b[34m",
            Colour::Magenta => "\x1b[35m",
            Colour::Cyan => "\x1b[36m",
            Colour::White => "\x1b[37m",
        }
    }
}

impl Default for Colour {
    fn default() -> (colour: Self)
        ensures
            colour == Colour::Cyan,
    {
        Colour::Cyan
    }
}

/// A span of `total_secs` seconds as text: `MM:SS` below one hour, and
/// `HH:MM:SS` from one hour on. Each field has at least two digits.
pub open spec fn elapsed_text(total_secs: nat) -> Seq<char> {
    let hours = total_secs / 3600;
    let minutes = (total_secs % 3600) / 60;
    let seconds = total_secs % 60;
    if hours > 0 {
        decimal_two(hours) + seq![':'] + decimal_two(minutes) + seq![':'] + decimal_two(seconds)
    } else {
        decimal_two(minutes) + seq![':'] + decimal_two(seconds)
    }
}

/// Renders a span of whole seconds as `MM:SS` or `HH:MM:SS`.
pub fn format_elapsed(total_secs: u64) -> (text: String)
    ensures
        text@ == elapsed_text(total_secs as nat),
{
    let hours = total_secs / 3600;
    let minutes = (total_secs % 3600) / 60;
    let seconds = total_secs % 60;
    let mut text = String::new();
    if hours > 0 {
        push_decimal_two(&mut text, hours);
        text.push(':');
    }
    push_decimal_two(&mut text, minutes);
    text.push(':');
    push_decimal_two(&mut text, seconds);
    assert(text@ =~= elapsed_text(total_secs as nat));
    text
}

/// `n` times the character `c`.
pub open spec fn repeated(c: char, n: nat) -> Seq<char> {
    Seq::new(n, |i: int| c)
}

/// The escape sequence that switches a terminal back to its own colour.
pub open spec fn reset_code() -> Seq<char> {
    "\x1b[0m"@
}

/// A bar of `width` characters of which the first `filled` are done. With a
/// colour, the done part is wrapped in the colour's escape sequence and the
/// reset sequence.
pub open spec fn bar_text(style: Style, colour: Colour, filled: nat, width: nat) -> Seq<char> {
    let done = repeated(style.spec_filled_char(), filled);
    let todo = repeated(style.spec_empty_char(), (width - filled) as nat);
    if colour == Colour::Plain {
        done + todo
    } else {
        colour.spec_ansi_code() + done + reset_code() + todo
    }
}

fn push_repeated(out: &mut String, c: char, n: usize)
    ensures
        final(out)@ == old(out)@ + repeated(c, n as nat),
{
    let mut i: usize = 0;
    while i < n
        invariant
            i <= n,
            out@ == old(out)@ + repeated(c, i as nat),
        decreases n - i,
    {
        out.push(c);
        i += 1;
        assert(out@ =~= old(out)@ + repeated(c, i as nat));
    }
}

/// Draws a bar of `width` characters of which the first `filled` are done.
pub fn draw_bar(style: Style, colour: Colour, filled: usize, width: usize) -> (bar: String)
    requires
        filled <= width,
    ensures
        bar@ == bar_text(style, colour, filled as nat, width as nat),
{
    let mut bar = String::new();
    match colour {
        Colour::Plain => {
            push_repeated(&mut bar, style.filled_char(), filled);
            push_repeated(&mut bar, style.empty_char(), width - filled);
        },
        _ => {
            bar.append(colour.ansi_code());
            push_repeated(&mut bar, style.filled_char(), filled);
            bar.append("\x1b[0m");
            push_repeated(&mut bar, style.empty_char(), width - filled);
        },
    }
    assert(bar@ =~= bar_text(style, colour, filled as nat, width as nat));
    bar
}

} // verus!
