//! The status bar.

use crate::graphics::decimal;
use crate::graphics::decimal_of;
use vstd::prelude::*;
use vstd::string::StringExecFns;

verus! {

/// What the bar shows.
#[derive(Clone, Debug)]
pub enum BarMode {
    /// The document is being read.
    VIEW,
    /// A command is being typed.
    COMMAND(String),
}

/// The status bar.
#[derive(Debug)]
pub struct Bar {
    pub mode: BarMode,
}

impl Bar {
    /// A bar in view mode.
    pub fn new() -> (bar: Bar)
        ensures
            bar.mode is VIEW,
    {
        Bar { mode: BarMode::VIEW }
    }

    /// What draws the bar in `row`: the cursor is moved to the first cell of
    /// the row and the colours are reset after the bar, which shows nothing
    /// in either mode.
    pub fn render(&self, row: u16) -> (text: String)
        ensures
            text@ == "\x1B["@ + decimal_of(row as nat) + ";1H\x1B[0m"@,
    {
        let mut text = String::new();
        text.append("\x1B[");
        text.append(decimal(row as usize).as_str());
        text.append(";1H\x1B[0m");
        assert(text@ =~= "\x1B["@ + decimal_of(row as nat) + ";1H\x1B[0m"@);
        text
    }
}

} // verus!
