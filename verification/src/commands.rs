//! Escape sequences the viewer sends besides images.

use vstd::prelude::*;
use vstd::string::StringExecFns;

verus! {

/// Removes every image from the screen and from the terminal's memory.
#[derive(Debug, Clone, Copy, PartialEq, Eq, Structural)]
pub struct ClearImages;

/// Makes the terminal report the mouse in pixels.
#[derive(Debug, Clone, Copy, PartialEq, Eq, Structural)]
pub struct EnableMouseCapturePixels;

/// Ends the reports of the mouse.
#[derive(Debug, Clone, Copy, PartialEq, Eq, Structural)]
pub struct DisableMouseCapturePixels;

/// The shapes the pointer can take.
#[derive(Debug, Clone, Copy, PartialEq, Eq, Structural)]
pub enum PointerShape {
    Default,
    Pointer,
    Text,
}

/// Gives the pointer a shape.
#[derive(Debug, Clone, Copy, PartialEq, Eq, Structural)]
pub struct SetPointerShape(pub PointerShape);

impl PointerShape {
    /// The name under which the terminal knows the shape; the default shape
    /// has the empty name.
    pub open spec fn name_text(self) -> Seq<char> {
        match self {
            PointerShape::Default => ""@,
            PointerShape::Pointer => "pointer"@,
            PointerShape::Text => "text"@,
        }
    }

    /// The name under which the terminal knows the shape.
    pub fn name(&self) -> (name: &'static str)
        ensures
            name@ == self.name_text(),
    {
        match self {
            PointerShape::Default => "",
            PointerShape::Pointer => "pointer",
            PointerShape::Text => "text",
        }
    }
}

impl ClearImages {
    /// The escape sequence.
    pub fn write_ansi(&self) -> (text: &'static str)
        ensures
            text@ == "\x1B_Ga=d,d=a\x1B\\"@,
    {
        "\x1B_Ga=d,d=a\x1B\\"
    }
}

impl EnableMouseCapturePixels {
    /// The escape sequence: button, drag and motion reports are switched on,
    /// then the encodings, the one in pixels last.
    pub fn write_ansi(&self) -> (text: &'static str)
        ensures
            text@ == "\x1B[?1000h\x1B[?1002h\x1B[?1003h\x1B[?1015h\x1B[?1016h"@,
    {
        "\x1B[?1000h\x1B[?1002h\x1B[?1003h\x1B[?1015h\x1B[?1016h"
    }
}

impl DisableMouseCapturePixels {
    /// The escape sequence: what was switched on is switched off in reverse
    /// order.
    pub fn write_ansi(&self) -> (text: &'static str)
        ensures
            text@ == "\x1B[?1016l\x1B[?1015l\x1B[?1003l\x1B[?1002l\x1B[?1000l"@,
    {
        "\x1B[?1016l\x1B[?1015l\x1B[?1003l\x1B[?1002l\x1B[?1000l"
    }
}

impl SetPointerShape {
    /// The escape sequence.
    pub fn write_ansi(&self) -> (text: String)
        ensures
            text@ == "\x1B]22;"@ + self.0.name_text() + "\x1B\\"@,
    {
        let mut text = String::new();
        text.append("\x1B]22;");
        text.append(self.0.name());
        text.append("\x1B\\");
        assert(text@ =~= "\x1B]22;"@ + self.0.name_text() + "\x1B\\"@);
        text
    }
}

/// What is sent when the viewer takes the terminal over: the cursor is
/// hidden and saved, the screen is saved, and the alternate screen is
/// entered with reports of every move of the mouse in the extended format.
pub fn terminal_control_raw_mode() -> (text: &'static str)
    ensures
        text@ == "\x1B[?25l\x1B[s\x1B[?47h\x1B[?1049;1003;1006h"@,
{
    "\x1B[?25l\x1B[s\x1B[?47h\x1B[?1049;1003;1006h"
}

/// What is sent when the viewer gives the terminal back: the reverse of
/// what was sent when it took it over.
pub fn terminal_control_default_mode() -> (text: &'static str)
    ensures
        text@ == "\x1B[?1003;1006;1049l\x1B[?47l\x1B[u\x1B[?25h"@,
{
    "\x1B[?1003;1006;1049l\x1B[?47l\x1B[u\x1B[?25h"
}

/// What clears the screen from the first cell down without moving the
/// cursor and without freeing any image.
pub fn terminal_tui_clear() -> (text: &'static str)
    ensures
        text@ == "\x1B[s\x1B[1;1H\x1B[0J\x1B[u"@,
{
    "\x1B[s\x1B[1;1H\x1B[0J\x1B[u"
}

} // verus!
