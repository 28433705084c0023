//! What the terminal sends: keys, mouse reports and acknowledgements.

use crate::geometry::Point;
use crate::graphics::lemma_pieces_nonempty;
use crate::graphics::lemma_pieces_push;
use crate::graphics::lemma_pieces_push_sep;
use crate::graphics::payload_of;
use crate::graphics::pieces;
use crate::graphics::split;
use crate::graphics::views;
use crate::graphics::GraphicsResponse;
use crate::viewer::clamp;
use vstd::prelude::*;

verus! {

/// A key as the viewer knows it.
#[derive(Debug, Clone, Copy, PartialEq, Eq, Structural)]
pub enum TerminalKey {
    UP,
    LEFT,
    RIGHT,
    DOWN,
    CTRLC,
    CTRLD,
    OTHER(u8),
}

/// What the mouse did.
#[derive(Debug, Clone, Copy, PartialEq, Eq, Structural)]
pub enum MouseEventType {
    LCLICK,
    RCLICK,
    LRELEASE,
    RRELEASE,
    HOVER,
    HIGHLIGHT,
}

/// A mouse report: where the pointer is, in pixels, and what it did.
#[derive(Debug, Clone, Copy, PartialEq, Eq, Structural)]
pub struct MouseEvent {
    pub x: usize,
    pub y: usize,
    pub event: MouseEventType,
}

/// One thing the terminal sent.
#[derive(Debug)]
pub enum StdinInput {
    GraphicsResponse(GraphicsResponse),
    TerminalKey(TerminalKey),
    MouseEvent(MouseEvent),
}

impl Point for MouseEvent {
    open spec fn px(&self) -> int {
        clamp(self.x as int, 0, i32::MAX as int)
    }

    open spec fn py(&self) -> int {
        clamp(self.y as int, 0, i32::MAX as int)
    }

    fn x(&self) -> (r: i32) {
        if self.x > i32::MAX as usize {
            i32::MAX
        } else {
            self.x as i32
        }
    }

    fn y(&self) -> (r: i32) {
        if self.y > i32::MAX as usize {
            i32::MAX
        } else {
            self.y as i32
        }
    }
}

/// Whether `bytes` is a decimal number: at least one byte, digits only.
pub open spec fn is_number(bytes: Seq<u8>) -> bool {
    bytes.len() > 0 && forall|i: int| 0 <= i < bytes.len() ==> 48 <= #[trigger] bytes[i] <= 57
}

/// The value of a sequence of decimal digits.
pub open spec fn value_of(digits: Seq<u8>) -> nat
    decreases digits.len(),
{
    if digits.len() == 0 {
        0
    } else {
        (value_of(digits.drop_last()) * 10 + (digits.last() - 48)) as nat
    }
}

/// The number that `bytes` spells, if it is one that fits in `usize`.
pub open spec fn number_of(bytes: Seq<u8>) -> Option<usize> {
    if is_number(bytes) && value_of(bytes) <= usize::MAX {
        Some(value_of(bytes) as usize)
    } else {
        None
    }
}

/// A number is at least as large as what its leading digits spell.
proof fn lemma_value_grows(digits: Seq<u8>, n: int)
    requires
        0 <= n <= digits.len(),
        forall|i: int| 0 <= i < digits.len() ==> 48 <= #[trigger] digits[i] <= 57,
    ensures
        value_of(digits.take(n)) <= value_of(digits),
    decreases digits.len() - n,
{
    if n < digits.len() {
        lemma_value_grows(digits, n + 1);
        assert(digits.take(n + 1).drop_last() =~= digits.take(n));
    } else {
        assert(digits.take(n) =~= digits);
    }
}

/// Reads a decimal number.
pub fn parse_number(bytes: &[u8]) -> (number: Option<usize>)
    ensures
        number == number_of(bytes@),
{
    if bytes.len() == 0 {
        return None;
    }
    let mut value: usize = 0;
    let mut i: usize = 0;
    while i < bytes.len()
        invariant
            0 <= i <= bytes@.len(),
            forall|k: int| 0 <= k < i ==> 48 <= #[trigger] bytes@[k] <= 57,
            value == value_of(bytes@.take(i as int)),
        decreases bytes.len() - i,
    {
        let b = bytes[i];
        if b < 48 || b > 57 {
            return None;
        }
        proof {
            assert(bytes@.take(i + 1).drop_last() =~= bytes@.take(i as int));
            assert(bytes@.take(i + 1).last() == b);
        }
        let d = (b - 48) as usize;
        if value > (usize::MAX - d) / 10 {
            proof {
                assert(value_of(bytes@.take(i + 1)) > usize::MAX);
                if is_number(bytes@) {
                    lemma_value_grows(bytes@, i + 1);
                }
            }
            return None;
        }
        value = value * 10 + d;
        i = i + 1;
    }
    proof {
        assert(bytes@.take(bytes@.len() as int) =~= bytes@);
    }
    Some(value)
}

/// What a mouse report with button code `code` says. Codes 0 and 2 are the
/// left and the right button, 35 is a move without button, and 64 to 67 are
/// the wheel, which counts as the keys down, up, right and left.
pub open spec fn mouse_meaning(code: usize, press: bool, x: usize, y: usize) -> Option<
    StdinInput,
> {
    if code == 0 {
        Some(
            StdinInput::MouseEvent(
                MouseEvent {
                    x,
                    y,
                    event: if press {
                        MouseEventType::LCLICK
                    } else {
                        MouseEventType::LRELEASE
                    },
                },
            ),
        )
    } else if code == 2 {
        Some(
            StdinInput::MouseEvent(
                MouseEvent {
                    x,
                    y,
                    event: if press {
                        MouseEventType::RCLICK
                    } else {
                        MouseEventType::RRELEASE
                    },
                },
            ),
        )
    } else if code == 35 {
        Some(StdinInput::MouseEvent(MouseEvent { x, y, event: MouseEventType::HOVER }))
    } else if code == 64 {
        Some(StdinInput::TerminalKey(TerminalKey::DOWN))
    } else if code == 65 {
        Some(StdinInput::TerminalKey(TerminalKey::UP))
    } else if code == 66 {
        Some(StdinInput::TerminalKey(TerminalKey::RIGHT))
    } else if code == 67 {
        Some(StdinInput::TerminalKey(TerminalKey::LEFT))
    } else {
        None
    }
}

/// What the mouse report `bytes` says. A report is `ESC [ <`, three numbers
/// separated by semicolons (button code, column, row), and `M` for a press
/// or any other byte for a release.
pub open spec fn mouse_report(bytes: Seq<u8>) -> Option<StdinInput> {
    if bytes.len() < 4 {
        None
    } else {
        let fields = pieces(bytes.subrange(3, bytes.len() - 1), 59u8);
        if fields.len() != 3 {
            None
        } else {
            match (number_of(fields[0]), number_of(fields[1]), number_of(fields[2])) {
                (Some(code), Some(x), Some(y)) => mouse_meaning(
                    code,
                    bytes[bytes.len() - 1] == 77u8,
                    x,
                    y,
                ),
                _ => None,
            }
        }
    }
}

/// Control-C.
pub fn parse_ctrlc(_x: &[u8]) -> (input: StdinInput)
    ensures
        input == StdinInput::TerminalKey(TerminalKey::CTRLC),
{
    StdinInput::TerminalKey(TerminalKey::CTRLC)
}

/// Control-D.
pub fn parse_ctrld(_x: &[u8]) -> (input: StdinInput)
    ensures
        input == StdinInput::TerminalKey(TerminalKey::CTRLD),
{
    StdinInput::TerminalKey(TerminalKey::CTRLD)
}

/// A key that stands for itself: the first byte of `x`.
pub fn parse_alphanumerical(x: &[u8]) -> (input: Option<StdinInput>)
    ensures
        x@.len() > 0 ==> input == Some(StdinInput::TerminalKey(TerminalKey::OTHER(x@[0]))),
        x@.len() == 0 ==> input is None,
{
    if x.len() == 0 {
        None
    } else {
        Some(StdinInput::TerminalKey(TerminalKey::OTHER(x[0])))
    }
}

/// The arrow key that the last byte of an escape sequence names.
pub open spec fn arrow_key(last: u8) -> Option<TerminalKey> {
    if last == 65 {
        Some(TerminalKey::UP)
    } else if last == 66 {
        Some(TerminalKey::DOWN)
    } else if last == 67 {
        Some(TerminalKey::RIGHT)
    } else if last == 68 {
        Some(TerminalKey::LEFT)
    } else {
        None
    }
}

/// An arrow key: `A`, `B`, `C` or `D` at the end of `x` for up, down, right
/// and left.
pub fn parse_udrl_key(x: &[u8]) -> (input: Option<StdinInput>)
    ensures
        x@.len() > 0 && arrow_key(x@.last()) is Some ==> input == Some(
            StdinInput::TerminalKey(arrow_key(x@.last())->0),
        ),
        x@.len() == 0 || arrow_key(x@.last()) is None ==> input is None,
{
    if x.len() == 0 {
        return None;
    }
    let last = x[x.len() - 1];
    if last == 65 {
        Some(StdinInput::TerminalKey(TerminalKey::UP))
    } else if last == 66 {
        Some(StdinInput::TerminalKey(TerminalKey::DOWN))
    } else if last == 67 {
        Some(StdinInput::TerminalKey(TerminalKey::RIGHT))
    } else if last == 68 {
        Some(StdinInput::TerminalKey(TerminalKey::LEFT))
    } else {
        None
    }
}

/// Decodes a mouse report.
pub fn parse_mouse(x: &[u8]) -> (input: Option<StdinInput>)
    ensures
        input == mouse_report(x@),
{
    if x.len() < 4 {
        return None;
    }
    let fields = split(slice_subrange(x, 3, x.len() - 1), 59);
    if fields.len() != 3 {
        return None;
    }
    proof {
        assert(views(fields@)[0] == fields@[0]@);
        assert(views(fields@)[1] == fields@[1]@);
        assert(views(fields@)[2] == fields@[2]@);
    }
    let press = x[x.len() - 1] == 77;
    let code = match parse_number(fields[0].as_slice()) {
        Some(v) => v,
        None => {
            return None;
        },
    };
    let column = match parse_number(fields[1].as_slice()) {
        Some(v) => v,
        None => {
            return None;
        },
    };
    let row = match parse_number(fields[2].as_slice()) {
        Some(v) => v,
        None => {
            return None;
        },
    };
    if code == 0 {
        let event = if press {
            MouseEventType::LCLICK
        } else {
            MouseEventType::LRELEASE
        };
        Some(StdinInput::MouseEvent(MouseEvent { x: column, y: row, event }))
    } else if code == 2 {
        let event = if press {
            MouseEventType::RCLICK
        } else {
            MouseEventType::RRELEASE
        };
        Some(StdinInput::MouseEvent(MouseEvent { x: column, y: row, event }))
    } else if code == 35 {
        Some(StdinInput::MouseEvent(MouseEvent { x: column, y: row, event: MouseEventType::HOVER }))
    } else if code == 64 {
        Some(StdinInput::TerminalKey(TerminalKey::DOWN))
    } else if code == 65 {
        Some(StdinInput::TerminalKey(TerminalKey::UP))
    } else if code == 66 {
        Some(StdinInput::TerminalKey(TerminalKey::RIGHT))
    } else if code == 67 {
        Some(StdinInput::TerminalKey(TerminalKey::LEFT))
    } else {
        None
    }
}

/// An acknowledgement: what stands between the three bytes that open it and
/// the two that close it, taken apart. `None` when `x` is shorter than those
/// five bytes.
pub fn parse_graphics_response(x: &[u8]) -> (input: Option<StdinInput>)
    ensures
        x@.len() < 5 ==> input is None,
        x@.len() >= 5 ==> (input matches Some(StdinInput::GraphicsResponse(r)) && r.wf()
            && r@.source == pieces(x@.subrange(3, x@.len() - 2), 59u8)[0] && r@.payload
            == payload_of(x@.subrange(3, x@.len() - 2))),
{
    if x.len() < 5 {
        return None;
    }
    Some(StdinInput::GraphicsResponse(GraphicsResponse::new(slice_subrange(x, 3, x.len() - 2))))
}

/// The part of `bytes` from `from` up to `to`.
fn slice_subrange(bytes: &[u8], from: usize, to: usize) -> (part: &[u8])
    requires
        from <= to <= bytes@.len(),
    ensures
        part@ == bytes@.subrange(from as int, to as int),
{
    vstd::slice::slice_subrange(bytes, from, to)
}

/// The kinds of input the terminal sends.
#[derive(Debug, Clone, Copy, PartialEq, Eq, Structural)]
pub enum TokenKind {
    /// The byte 3.
    CtrlC,
    /// The byte 4.
    CtrlD,
    /// A letter, a digit, `+` or `-`.
    Key,
    /// `ESC [` and one of `A`, `B`, `C`, `D`.
    Arrow,
    /// `ESC [ <`, three numbers separated by `;`, and `m`, `M` or `|`.
    Mouse,
    /// `ESC _ G`, any bytes but line feeds, and the first `ESC \` after them.
    Response,
}

/// How far the bytes read so far have got into an input.
#[derive(Debug, Clone, Copy, PartialEq, Eq, Structural)]
pub enum ScanState {
    /// Nothing was read.
    Start,
    /// `ESC` was read.
    Escape,
    /// `ESC [` was read.
    Bracket,
    /// `ESC [ <` was read and `field` numbers after it; `digits` says
    /// whether the number being read has a digit yet.
    Number { field: u8, digits: bool },
    /// `ESC _` was read.
    Introducer,
    /// `ESC _ G` was read, and the last byte was no `ESC`.
    Body,
    /// `ESC _ G` was read, and the last byte was an `ESC`.
    BodyEscape,
}

/// What a sequence of bytes is, read from its first byte.
#[derive(Debug, Clone, Copy, PartialEq, Eq, Structural)]
pub enum Scan {
    /// The beginning of no input.
    Dead,
    /// The beginning of an input that is not complete.
    Partial(ScanState),
    /// A complete input.
    Complete(TokenKind),
}

/// Whether a byte is a key that stands for itself: a letter, a digit, `+`
/// or `-`.
pub open spec fn is_key_byte(b: u8) -> bool {
    b == 43 || b == 45 || 48 <= b <= 57 || 65 <= b <= 90 || 97 <= b <= 122
}

/// What the bytes read so far and one more byte are.
pub open spec fn step(state: ScanState, b: u8) -> Scan {
    match state {
        ScanState::Start => if b == 3 {
            Scan::Complete(TokenKind::CtrlC)
        } else if b == 4 {
            Scan::Complete(TokenKind::CtrlD)
        } else if is_key_byte(b) {
            Scan::Complete(TokenKind::Key)
        } else if b == 27 {
            Scan::Partial(ScanState::Escape)
        } else {
            Scan::Dead
        },
        ScanState::Escape => if b == 91 {
            Scan::Partial(ScanState::Bracket)
        } else if b == 95 {
            Scan::Partial(ScanState::Introducer)
        } else {
            Scan::Dead
        },
        ScanState::Bracket => if 65 <= b <= 68 {
            Scan::Complete(TokenKind::Arrow)
        } else if b == 60 {
            Scan::Partial(ScanState::Number { field: 0, digits: false })
        } else {
            Scan::Dead
        },
        ScanState::Number { field, digits } => if 48 <= b <= 57 {
            Scan::Partial(ScanState::Number { field, digits: true })
        } else if b == 59 && digits && field < 2 {
            Scan::Partial(ScanState::Number { field: (field + 1) as u8, digits: false })
        } else if (b == 109 || b == 77 || b == 124) && digits && field == 2 {
            Scan::Complete(TokenKind::Mouse)
        } else {
            Scan::Dead
        },
        ScanState::Introducer => if b == 71 {
            Scan::Partial(ScanState::Body)
        } else {
            Scan::Dead
        },
        ScanState::Body => if b == 27 {
            Scan::Partial(ScanState::BodyEscape)
        } else if b == 10 {
            Scan::Dead
        } else {
            Scan::Partial(ScanState::Body)
        },
        ScanState::BodyEscape => if b == 92 {
            Scan::Complete(TokenKind::Response)
        } else if b == 27 {
            Scan::Partial(ScanState::BodyEscape)
        } else if b == 10 {
            Scan::Dead
        } else {
            Scan::Partial(ScanState::Body)
        },
    }
}

/// What `bytes` are, read from the first byte. Nothing follows a complete
/// input: bytes that go on after one are the beginning of no input.
pub open spec fn scan(bytes: Seq<u8>) -> Scan
    decreases bytes.len(),
{
    if bytes.len() == 0 {
        Scan::Partial(ScanState::Start)
    } else {
        match scan(bytes.drop_last()) {
            Scan::Partial(state) => step(state, bytes.last()),
            _ => Scan::Dead,
        }
    }
}

/// What the bytes read so far and one more byte are.
pub fn advance(state: ScanState, b: u8) -> (next: Scan)
    ensures
        next == step(state, b),
{
    match state {
        ScanState::Start => if b == 3 {
            Scan::Complete(TokenKind::CtrlC)
        } else if b == 4 {
            Scan::Complete(TokenKind::CtrlD)
        } else if b == 43 || b == 45 || (48 <= b && b <= 57) || (65 <= b && b <= 90) || (97 <= b
            && b <= 122) {
            Scan::Complete(TokenKind::Key)
        } else if b == 27 {
            Scan::Partial(ScanState::Escape)
        } else {
            Scan::Dead
        },
        ScanState::Escape => if b == 91 {
            Scan::Partial(ScanState::Bracket)
        } else if b == 95 {
            Scan::Partial(ScanState::Introducer)
        } else {
            Scan::Dead
        },
        ScanState::Bracket => if 65 <= b && b <= 68 {
            Scan::Complete(TokenKind::Arrow)
        } else if b == 60 {
            Scan::Partial(ScanState::Number { field: 0, digits: false })
        } else {
            Scan::Dead
        },
        ScanState::Number { field, digits } => if 48 <= b && b <= 57 {
            Scan::Partial(ScanState::Number { field, digits: true })
        } else if b == 59 && digits && field < 2 {
            Scan::Partial(ScanState::Number { field: field + 1, digits: false })
        } else if (b == 109 || b == 77 || b == 124) && digits && field == 2 {
            Scan::Complete(TokenKind::Mouse)
        } else {
            Scan::Dead
        },
        ScanState::Introducer => if b == 71 {
            Scan::Partial(ScanState::Body)
        } else {
            Scan::Dead
        },
        ScanState::Body => if b == 27 {
            Scan::Partial(ScanState::BodyEscape)
        } else if b == 10 {
            Scan::Dead
        } else {
            Scan::Partial(ScanState::Body)
        },
        ScanState::BodyEscape => if b == 92 {
            Scan::Complete(TokenKind::Response)
        } else if b == 27 {
            Scan::Partial(ScanState::BodyEscape)
        } else if b == 10 {
            Scan::Dead
        } else {
            Scan::Partial(ScanState::Body)
        },
    }
}

/// Whether `input` is what the complete input `bytes` of kind `kind` says.
/// A mouse report that says nothing, because a number is too large or the
/// button is unknown, gives no input.
pub open spec fn is_token(kind: TokenKind, bytes: Seq<u8>, input: Option<StdinInput>) -> bool {
    match kind {
        TokenKind::CtrlC => input == Some(StdinInput::TerminalKey(TerminalKey::CTRLC)),
        TokenKind::CtrlD => input == Some(StdinInput::TerminalKey(TerminalKey::CTRLD)),
        TokenKind::Key => bytes.len() > 0 && input == Some(
            StdinInput::TerminalKey(TerminalKey::OTHER(bytes[0])),
        ),
        TokenKind::Arrow => bytes.len() > 0 && arrow_key(bytes.last()) is Some && input == Some(
            StdinInput::TerminalKey(arrow_key(bytes.last())->0),
        ),
        TokenKind::Mouse => input == mouse_report(bytes),
        TokenKind::Response => bytes.len() >= 5 && (input matches Some(
            StdinInput::GraphicsResponse(r),
        ) && r.wf() && r@.source == pieces(bytes.subrange(3, bytes.len() - 2), 59u8)[0]
            && r@.payload == payload_of(bytes.subrange(3, bytes.len() - 2))),
    }
}

/// A complete input is long enough for its kind and ends as its kind ends.
pub proof fn lemma_complete_shape(bytes: Seq<u8>)
    requires
        scan(bytes) is Complete,
    ensures
        bytes.len() >= 1,
        scan(bytes)->Complete_0 is Arrow ==> 65 <= bytes.last() <= 68,
        scan(bytes)->Complete_0 is Response ==> bytes.len() >= 5,
        scan(bytes)->Complete_0 is Mouse ==> bytes.len() >= 4,
{
    let b1 = bytes.drop_last();
    if b1.len() > 0 {
        let b2 = b1.drop_last();
        if b2.len() > 0 {
            let b3 = b2.drop_last();
            if b3.len() > 0 {
                let b4 = b3.drop_last();
                if b4.len() > 0 {
                } else {
                    assert(scan(b4) == Scan::Partial(ScanState::Start));
                }
            } else {
                assert(scan(b3) == Scan::Partial(ScanState::Start));
            }
        } else {
            assert(scan(b2) == Scan::Partial(ScanState::Start));
        }
    } else {
        assert(scan(b1) == Scan::Partial(ScanState::Start));
    }
}

/// Whether `bytes` holds digits only.
pub open spec fn all_digits(bytes: Seq<u8>) -> bool {
    forall|i: int| 0 <= i < bytes.len() ==> 48 <= #[trigger] bytes[i] <= 57
}

/// Whether `bytes` is the beginning of a mouse report up to its number
/// `field`: `ESC [ <`, then `field` numbers with a semicolon after each, then
/// digits, of which there are some if and only if `digits` says so.
pub open spec fn number_shape(bytes: Seq<u8>, field: int, digits: bool) -> bool {
    &&& bytes.len() >= 3
    &&& bytes[0] == 27 && bytes[1] == 91 && bytes[2] == 60
    &&& pieces(bytes.subrange(3, bytes.len() as int), 59u8).len() == field + 1
    &&& forall|k: int|
        0 <= k < field ==> is_number(
            #[trigger] pieces(bytes.subrange(3, bytes.len() as int), 59u8)[k],
        )
    &&& all_digits(pieces(bytes.subrange(3, bytes.len() as int), 59u8)[field])
    &&& digits == (pieces(bytes.subrange(3, bytes.len() as int), 59u8)[field].len() > 0)
}

/// Whether `bytes` is a mouse report: `ESC [ <`, three numbers separated by
/// semicolons, and `m`, `M` or `|`.
pub open spec fn is_mouse_report(bytes: Seq<u8>) -> bool {
    &&& bytes.len() >= 4
    &&& bytes[0] == 27 && bytes[1] == 91 && bytes[2] == 60
    &&& bytes.last() == 109 || bytes.last() == 77 || bytes.last() == 124
    &&& pieces(bytes.subrange(3, bytes.len() - 1), 59u8).len() == 3
    &&& forall|k: int|
        0 <= k < 3 ==> is_number(#[trigger] pieces(bytes.subrange(3, bytes.len() - 1), 59u8)[k])
}

/// What the reader takes for a mouse report is one: when the bytes read are
/// a complete mouse report to the reader, they are `ESC [ <`, three numbers
/// separated by semicolons, and a final byte. On the way there the reader
/// knows which number it is in and whether that number has a digit yet.
pub proof fn lemma_scan_shape(bytes: Seq<u8>)
    ensures
        scan(bytes) == Scan::Partial(ScanState::Start) ==> bytes.len() == 0,
        scan(bytes) == Scan::Partial(ScanState::Escape) ==> bytes =~= seq![27u8],
        scan(bytes) == Scan::Partial(ScanState::Bracket) ==> bytes =~= seq![27u8, 91u8],
        scan(bytes) matches Scan::Partial(ScanState::Number { field, digits }) ==> field <= 2
            && number_shape(bytes, field as int, digits),
        scan(bytes) == Scan::Complete(TokenKind::Mouse) ==> is_mouse_report(bytes),
    decreases bytes.len(),
{
    if bytes.len() > 0 {
        let prev = bytes.drop_last();
        let b = bytes.last();
        lemma_scan_shape(prev);
        match scan(prev) {
            Scan::Partial(ScanState::Start) => {},
            Scan::Partial(ScanState::Escape) => {},
            Scan::Partial(ScanState::Bracket) => {
                if b == 60 {
                    let body = bytes.subrange(3, bytes.len() as int);
                    assert(body =~= Seq::<u8>::empty());
                    assert(crate::graphics::first_sep(body, 59u8, 0) == 0);
                    assert(pieces(body, 59u8) =~= seq![body]);
                }
            },
            Scan::Partial(ScanState::Number { field, digits }) => {
                let body = prev.subrange(3, prev.len() as int);
                let parts = pieces(body, 59u8);
                lemma_pieces_nonempty(body, 59u8);
                assert(bytes[0] == prev[0] && bytes[1] == prev[1] && bytes[2] == prev[2]);
                if 48 <= b <= 57 {
                    let grown = bytes.subrange(3, bytes.len() as int);
                    assert(grown =~= body.push(b));
                    lemma_pieces_push(body, 59u8, b);
                    let after = pieces(grown, 59u8);
                    assert(after.len() == parts.len());
                    assert forall|k: int| 0 <= k < field implies is_number(#[trigger] after[k]) by {
                        assert(after[k] == parts[k]);
                    }
                    assert(after[field as int] == parts[field as int].push(b));
                } else if b == 59 && digits && field < 2 {
                    let grown = bytes.subrange(3, bytes.len() as int);
                    assert(grown =~= body.push(b));
                    lemma_pieces_push_sep(body, 59u8);
                    let after = pieces(grown, 59u8);
                    assert forall|k: int| 0 <= k < field + 1 implies is_number(
                        #[trigger] after[k],
                    ) by {
                        assert(after[k] == parts[k]);
                    }
                    assert(after[field + 1] =~= Seq::<u8>::empty());
                } else if (b == 109 || b == 77 || b == 124) && digits && field == 2 {
                    assert(bytes.subrange(3, bytes.len() - 1) =~= body);
                    assert forall|k: int| 0 <= k < 3 implies is_number(#[trigger] parts[k]) by {}
                }
            },
            _ => {},
        }
    }
}

/// Nothing complete lies inside an input: every proper beginning of bytes
/// that are an input, or the beginning of one, is itself only a beginning.
pub proof fn lemma_prefixes_partial(bytes: Seq<u8>, n: int)
    requires
        !(scan(bytes) is Dead),
        0 <= n < bytes.len(),
    ensures
        scan(bytes.take(n)) is Partial,
    decreases bytes.len(),
{
    let prev = bytes.drop_last();
    if n == prev.len() {
        assert(bytes.take(n) =~= prev);
    } else {
        lemma_prefixes_partial(prev, n);
        assert(prev.take(n) =~= bytes.take(n));
    }
}

/// Reads what the terminal sends, byte by byte.
pub struct StdinDFA {
    state: ScanState,
    input: Vec<u8>,
}

impl StdinDFA {
    /// The bytes read since the last complete input.
    pub closed spec fn pending(&self) -> Seq<u8> {
        self.input@
    }

    /// Whether the reader knows how far its pending bytes have got.
    pub closed spec fn wf(&self) -> bool {
        scan(self.input@) == Scan::Partial(self.state)
    }

    /// A reader that has read nothing.
    pub fn new() -> (reader: StdinDFA)
        ensures
            reader.wf(),
            reader.pending() == Seq::<u8>::empty(),
    {
        StdinDFA { state: ScanState::Start, input: Vec::new() }
    }

    /// Forgets the pending bytes.
    pub fn reset(&mut self)
        ensures
            final(self).wf(),
            final(self).pending() == Seq::<u8>::empty(),
    {
        self.state = ScanState::Start;
        self.input.clear();
    }

    /// What a complete input says.
    fn token(kind: TokenKind, bytes: &[u8]) -> (input: Option<StdinInput>)
        requires
            scan(bytes@) == Scan::Complete(kind),
        ensures
            is_token(kind, bytes@, input),
    {
        proof {
            lemma_complete_shape(bytes@);
        }
        match kind {
            TokenKind::CtrlC => Some(parse_ctrlc(bytes)),
            TokenKind::CtrlD => Some(parse_ctrld(bytes)),
            TokenKind::Key => parse_alphanumerical(bytes),
            TokenKind::Arrow => parse_udrl_key(bytes),
            TokenKind::Mouse => parse_mouse(bytes),
            TokenKind::Response => parse_graphics_response(bytes),
        }
    }

    /// Reads one more byte. When the pending bytes and `x` are a complete
    /// input, the input is handed out and nothing is pending. When they are
    /// the beginning of one, `x` is pending too. Otherwise the pending bytes
    /// are dropped and `x` is read as the first byte of a new input.
    pub fn feed(&mut self, x: u8) -> (input: Option<StdinInput>)
        requires
            old(self).wf(),
        ensures
            final(self).wf(),
            match scan(old(self).pending().push(x)) {
                Scan::Complete(kind) => is_token(kind, old(self).pending().push(x), input)
                    && final(self).pending() == Seq::<u8>::empty(),
                Scan::Partial(_) => input is None && final(self).pending() == old(self).pending().push(x),
                Scan::Dead => match scan(seq![x]) {
                    Scan::Complete(kind) => is_token(kind, seq![x], input) && final(self).pending() == Seq::<u8>::empty(),
                    Scan::Partial(_) => input is None && final(self).pending() == seq![x],
                    Scan::Dead => input is None && final(self).pending() == Seq::<u8>::empty(),
                },
            },
    {
        let ghost grown = self.input@.push(x);
        proof {
            assert(grown.drop_last() =~= self.input@);
            assert(seq![x].drop_last() =~= Seq::<u8>::empty());
            assert(scan(Seq::<u8>::empty()) == Scan::Partial(ScanState::Start));
        }
        match advance(self.state, x) {
            Scan::Complete(kind) => {
                self.input.push(x);
                let input = Self::token(kind, self.input.as_slice());
                self.input.clear();
                self.state = ScanState::Start;
                input
            },
            Scan::Partial(state) => {
                self.input.push(x);
                self.state = state;
                None
            },
            Scan::Dead => {
                self.input.clear();
                self.state = ScanState::Start;
                match advance(ScanState::Start, x) {
                    Scan::Complete(kind) => {
                        let mut single: Vec<u8> = Vec::new();
                        single.push(x);
                        assert(single@ =~= seq![x]);
                        Self::token(kind, single.as_slice())
                    },
                    Scan::Partial(state) => {
                        self.input.push(x);
                        self.state = state;
                        assert(self.input@ =~= seq![x]);
                        None
                    },
                    Scan::Dead => None,
                }
            },
        }
    }
}

} // verus!
