//! Rendered page bitmaps.

use crate::geometry::DisplayRect;
use crate::placement::place_axis;
use crate::placement::Axis;
use crate::viewer::TerminalSize;
use vstd::prelude::*;

verus! {

/// A rendered page: RGBA pixels surrounded by a transparent border.
#[derive(Debug)]
pub struct Image {
    id: usize,
    /// Size of the bitmap without its border.
    dimensions: (i32, i32),
    data: Vec<u8>,
}

/// A request to draw an image that the terminal holds.
#[derive(Clone, Copy, Debug, PartialEq, Eq)]
pub struct DisplayCommand {
    /// Identifier of the image.
    pub id: usize,
    /// Column of the cell to draw from, counted from 1.
    pub col: usize,
    /// Row of the cell to draw from, counted from 1.
    pub row: usize,
    /// Part of the bitmap to draw: left, top, width, height, in its pixels.
    pub crop: (usize, usize, usize, usize),
    /// Number of columns to draw over.
    pub cols: usize,
    /// Number of rows to draw over.
    pub rows: usize,
}

/// A request to hand a bitmap over to the terminal.
#[derive(Clone, Copy, Debug, PartialEq, Eq, Structural)]
pub struct TransferCommand {
    /// Identifier the image will be known by.
    pub id: usize,
    /// Width of the bitmap in pixels, border included.
    pub width: usize,
    /// Height of the bitmap in pixels, border included.
    pub height: usize,
    /// Whether each pixel carries an alpha channel.
    pub alpha: bool,
}

/// The horizontal axis of a request to draw a bitmap of the given size at
/// `rect`. Both axes convert screen pixels into bitmap pixels by the ratio
/// of the bitmap's height to the height on screen.
pub open spec fn axis_x(
    rect: DisplayRect,
    width: int,
    height: int,
    padding: usize,
    terminal: TerminalSize,
) -> Axis {
    Axis {
        pos: rect.x,
        len: rect.width,
        cells: terminal.columns,
        extent: terminal.width,
        bitmap_len: width as i32,
        num: height as i32,
        den: rect.height,
        padding,
    }
}

/// The vertical axis of a request to draw a bitmap of the given size at
/// `rect`.
pub open spec fn axis_y(
    rect: DisplayRect,
    height: int,
    padding: usize,
    terminal: TerminalSize,
) -> Axis {
    Axis {
        pos: rect.y,
        len: rect.height,
        cells: terminal.rows,
        extent: terminal.height,
        bitmap_len: height as i32,
        num: height as i32,
        den: rect.height,
        padding,
    }
}

/// Hands out the identifiers under which the terminal knows the images: 1,
/// 2, 3 and so on, none of them twice.
pub struct IdAllocator {
    next: usize,
}

impl IdAllocator {
    /// The identifier that is handed out next.
    pub closed spec fn upcoming(&self) -> int {
        self.next as int
    }

    /// An allocator that starts at 1.
    pub fn new() -> (ids: IdAllocator)
        ensures
            ids.upcoming() == 1,
    {
        IdAllocator { next: 1 }
    }

    /// The next identifier; `None` once `usize` is used up.
    pub fn allocate(&mut self) -> (id: Option<usize>)
        ensures
            old(self).upcoming() < usize::MAX ==> id == Some(old(self).upcoming() as usize)
                && final(self).upcoming() == old(self).upcoming() + 1,
            old(self).upcoming() == usize::MAX ==> id is None && final(self).upcoming() == old(self).upcoming(),
    {
        if self.next == usize::MAX {
            None
        } else {
            let id = self.next;
            self.next = id + 1;
            Some(id)
        }
    }
}

/// Whether a bitmap of `width` by `height` pixels with a border of
/// `padding` pixels can be held: both bordered sides and the number of bytes
/// fit in `usize`, the sides without border in 31 bits.
pub open spec fn bordered_fits(width: int, height: int, padding: int) -> bool {
    &&& 0 <= width <= i32::MAX
    &&& 0 <= height <= i32::MAX
    &&& width + 2 * padding <= usize::MAX
    &&& height + 2 * padding <= usize::MAX
    &&& (width + 2 * padding) * (height + 2 * padding) * 4 <= usize::MAX
}

/// Byte `i` of the bordered RGBA bitmap made of `samples`, which hold
/// `width` by `height` pixels of `n` channels each, row by row. The border is
/// transparent black; a pixel without alpha channel is opaque.
pub open spec fn bordered_byte(
    samples: Seq<u8>,
    width: int,
    height: int,
    n: int,
    padding: int,
    i: int,
) -> u8 {
    let pixel = i / 4;
    let channel = i % 4;
    let row = pixel / (width + 2 * padding);
    let col = pixel % (width + 2 * padding);
    if padding <= row < padding + height && padding <= col < padding + width {
        if channel < n {
            samples[((row - padding) * width + (col - padding)) * n + channel]
        } else {
            255u8
        }
    } else {
        0u8
    }
}

/// The bordered RGBA bitmap made of `samples`.
pub open spec fn bordered(samples: Seq<u8>, width: int, height: int, n: int, padding: int) -> Seq<
    u8,
> {
    Seq::new(
        ((width + 2 * padding) * (height + 2 * padding) * 4) as nat,
        |i: int| bordered_byte(samples, width, height, n, padding, i),
    )
}

/// A channel of a pixel of the bitmap lies within the samples.
proof fn lemma_sample_index(row: int, col: int, width: int, height: int, n: int, channel: int)
    requires
        0 <= row < height,
        0 <= col < width,
        0 <= channel < n,
    ensures
        0 <= (row * width + col) * n + channel < width * height * n,
        0 <= row * width <= row * width + col <= (row * width + col) * n,
{
    assert(0 <= (row * width + col) * n + channel < width * height * n && 0 <= row * width <= row
        * width + col <= (row * width + col) * n) by (nonlinear_arith)
        requires
            0 <= row < height,
            0 <= col < width,
            0 <= channel < n,
    ;
}

/// Mathematical content of an [`Image`].
pub struct ImageView {
    pub id: usize,
    pub width: int,
    pub height: int,
    pub data: Seq<u8>,
}

impl ImageView {
    /// The request that makes the terminal answer whether it still holds the
    /// image: one transparent pixel of the border, drawn at the first cell.
    pub open spec fn probe(self) -> DisplayCommand {
        DisplayCommand { id: self.id, col: 1, row: 1, crop: (1, 1, 1, 1), cols: 2, rows: 2 }
    }

    /// Whether a request to draw the image at `rect` can be made: the window,
    /// the rectangle and the bitmap have sizes to go by, and some of the
    /// rectangle lies within the window.
    pub open spec fn showable(
        self,
        rect: DisplayRect,
        padding: usize,
        terminal: TerminalSize,
    ) -> bool {
        &&& axis_x(rect, self.width, self.height, padding, terminal).usable()
        &&& axis_x(rect, self.width, self.height, padding, terminal).on_screen()
        &&& axis_y(rect, self.height, padding, terminal).usable()
        &&& axis_y(rect, self.height, padding, terminal).on_screen()
    }

    /// The request that draws the image at `rect`, if one can be made.
    pub open spec fn shown(
        self,
        rect: DisplayRect,
        padding: usize,
        terminal: TerminalSize,
    ) -> Option<DisplayCommand> {
        if self.showable(rect, padding, terminal) {
            let across = axis_x(rect, self.width, self.height, padding, terminal).placement();
            let down = axis_y(rect, self.height, padding, terminal).placement();
            Some(
                DisplayCommand {
                    id: self.id,
                    col: (across.cell + 1) as usize,
                    row: (down.cell + 1) as usize,
                    crop: (across.crop_start, down.crop_start, across.crop_len, down.crop_len),
                    cols: across.span,
                    rows: down.span,
                },
            )
        } else {
            None
        }
    }
}

impl View for Image {
    type V = ImageView;

    closed spec fn view(&self) -> ImageView {
        ImageView {
            id: self.id,
            width: self.dimensions.0 as int,
            height: self.dimensions.1 as int,
            data: self.data@,
        }
    }
}

impl Image {
    /// An image made of an identifier, the size of the bitmap without its
    /// border, and the bytes of the bitmap with it.
    pub fn from_parts(id: usize, width: i32, height: i32, data: Vec<u8>) -> (image: Image)
        ensures
            image@ == (ImageView { id, width: width as int, height: height as int, data: data@ }),
    {
        Image { id, dimensions: (width, height), data }
    }

    /// Builds the image of a rendered page: the pixels of `samples`, `width`
    /// by `height` of them with `n` channels each, get an alpha channel if
    /// they have none and a transparent border of `padding` pixels on every
    /// side. The result is `None` unless `n` is 3 or 4, `samples` holds
    /// exactly the pixels announced, and the bordered bitmap can be held.
    pub fn new(
        id: usize,
        width: usize,
        height: usize,
        n: usize,
        samples: &[u8],
        padding: usize,
    ) -> (image: Option<Image>)
        ensures
            image is Some <==> (n == 3 || n == 4) && bordered_fits(
                width as int,
                height as int,
                padding as int,
            ) && samples@.len() == width * height * n,
            image matches Some(i) ==> i@ == (ImageView {
                id,
                width: width as int,
                height: height as int,
                data: bordered(samples@, width as int, height as int, n as int, padding as int),
            }),
    {
        if n != 3 && n != 4 {
            return None;
        }
        if width > i32::MAX as usize || height > i32::MAX as usize {
            return None;
        }
        let stride: u128 = width as u128 + 2 * (padding as u128);
        let rows: u128 = height as u128 + 2 * (padding as u128);
        if stride > usize::MAX as u128 || rows > usize::MAX as u128 {
            return None;
        }
        assert(stride * rows <= 0xFFFF_FFFF_FFFF_FFFF * 0xFFFF_FFFF_FFFF_FFFF) by (nonlinear_arith)
            requires
                0 <= stride <= 0xFFFF_FFFF_FFFF_FFFF,
                0 <= rows <= 0xFFFF_FFFF_FFFF_FFFF,
        ;
        let pixels: u128 = stride * rows;
        if pixels > (usize::MAX as u128) / 4 {
            return None;
        }
        assert(width * height <= 0x7FFF_FFFF * 0x7FFF_FFFF) by (nonlinear_arith)
            requires
                0 <= width <= 0x7FFF_FFFF,
                0 <= height <= 0x7FFF_FFFF,
        ;
        let expected: u128 = (width as u128) * (height as u128) * (n as u128);
        if samples.len() as u128 != expected {
            return None;
        }
        let stride: usize = stride as usize;
        let pixels: usize = pixels as usize;
        let mut data: Vec<u8> = Vec::new();
        let mut pixel: usize = 0;
        while pixel < pixels
            invariant
                0 <= pixel <= pixels,
                n == 3 || n == 4,
                stride == width + 2 * padding,
                pixels == (width + 2 * padding) * (height + 2 * padding),
                pixels * 4 <= usize::MAX,
                samples@.len() == width * height * n,
                samples@.len() <= usize::MAX,
                data@.len() == pixel * 4,
                forall|i: int|
                    0 <= i < data@.len() ==> #[trigger] data@[i] == bordered_byte(
                        samples@,
                        width as int,
                        height as int,
                        n as int,
                        padding as int,
                        i,
                    ),
            decreases pixels - pixel,
        {
            assert(stride > 0) by (nonlinear_arith)
                requires
                    pixel < pixels,
                    pixels == stride * (height + 2 * padding),
                    stride >= 0,
            ;
            let row = pixel / stride;
            let col = pixel % stride;
            let ghost before = data@;
            if padding <= row && row - padding < height && padding <= col && col - padding < width {
                let r: usize = row - padding;
                let c: usize = col - padding;
                proof {
                    lemma_sample_index(r as int, c as int, width as int, height as int, n as int, 0);
                    lemma_sample_index(
                        r as int,
                        c as int,
                        width as int,
                        height as int,
                        n as int,
                        n - 1,
                    );
                }
                let at = (r * width + c) * n;
                data.push(samples[at]);
                data.push(samples[at + 1]);
                data.push(samples[at + 2]);
                if n == 4 {
                    data.push(samples[at + 3]);
                } else {
                    data.push(255);
                }
            } else {
                data.push(0);
                data.push(0);
                data.push(0);
                data.push(0);
            }
            proof {
                assert forall|i: int| 0 <= i < data@.len() implies #[trigger] data@[i]
                    == bordered_byte(
                    samples@,
                    width as int,
                    height as int,
                    n as int,
                    padding as int,
                    i,
                ) by {
                    if i < before.len() {
                        assert(data@[i] == before[i]);
                    } else {
                        assert(i / 4 == pixel as int);
                        assert(i % 4 == i - 4 * pixel);
                    }
                }
            }
            pixel = pixel + 1;
        }
        proof {
            assert(data@ =~= bordered(
                samples@,
                width as int,
                height as int,
                n as int,
                padding as int,
            ));
        }
        Some(Image { id, dimensions: (width as i32, height as i32), data })
    }

    /// The identifier under which the terminal knows the bitmap.
    pub fn id(&self) -> (id: usize)
        ensures
            id == self@.id,
    {
        self.id
    }

    /// Number of bytes the bitmap occupies.
    pub fn size(&self) -> (size: usize)
        ensures
            size == self@.data.len(),
    {
        self.data.len()
    }

    /// Width and height of the bitmap without its border.
    pub fn dimensions(&self) -> (d: (i32, i32))
        ensures
            d.0 == self@.width,
            d.1 == self@.height,
    {
        self.dimensions
    }

    /// The request that makes the terminal answer whether it still holds the
    /// image: one transparent pixel of the border, drawn at the first cell.
    pub fn check(&self) -> (command: DisplayCommand)
        ensures
            command == self@.probe(),
    {
        DisplayCommand { id: self.id, col: 1, row: 1, crop: (1, 1, 1, 1), cols: 2, rows: 2 }
    }

    /// The request that draws the image at `rect`, a rectangle in window
    /// pixels: `None` when the rectangle lies outside the window, or when the
    /// window, the rectangle or the bitmap has no height or width to go by.
    pub fn display(&self, rect: DisplayRect, padding: usize, terminal: TerminalSize) -> (command:
        Option<DisplayCommand>)
        ensures
            command == self@.shown(rect, padding, terminal),
    {
        let across = place_axis(
            Axis {
                pos: rect.x,
                len: rect.width,
                cells: terminal.columns,
                extent: terminal.width,
                bitmap_len: self.dimensions.0,
                num: self.dimensions.1,
                den: rect.height,
                padding,
            },
        );
        let down = place_axis(
            Axis {
                pos: rect.y,
                len: rect.height,
                cells: terminal.rows,
                extent: terminal.height,
                bitmap_len: self.dimensions.1,
                num: self.dimensions.1,
                den: rect.height,
                padding,
            },
        );
        match (across, down) {
            (Some(a), Some(d)) => Some(
                DisplayCommand {
                    id: self.id,
                    col: a.cell + 1,
                    row: d.cell + 1,
                    crop: (a.crop_start, d.crop_start, a.crop_len, d.crop_len),
                    cols: a.span,
                    rows: d.span,
                },
            ),
            _ => None,
        }
    }

    /// The request that hands the bitmap over to the terminal, with alpha
    /// channel: `None` when the bordered size does not fit in `usize`.
    pub fn transfer(&self, padding: usize) -> (command: Option<TransferCommand>)
        ensures
            command is Some <==> self@.width >= 0 && self@.height >= 0 && self@.width + 2
                * padding <= usize::MAX && self@.height + 2 * padding <= usize::MAX,
            command matches Some(c) ==> c == (TransferCommand {
                id: self@.id,
                width: (self@.width + 2 * padding) as usize,
                height: (self@.height + 2 * padding) as usize,
                alpha: true,
            }),
    {
        if self.dimensions.0 < 0 || self.dimensions.1 < 0 {
            return None;
        }
        let width = self.dimensions.0 as u128 + 2 * (padding as u128);
        let height = self.dimensions.1 as u128 + 2 * (padding as u128);
        if width > usize::MAX as u128 || height > usize::MAX as u128 {
            return None;
        }
        Some(TransferCommand { id: self.id, width: width as usize, height: height as usize, alpha: true })
    }

    /// The bytes of the bitmap, border included.
    pub fn data(&self) -> (data: &Vec<u8>)
        ensures
            data@ == self@.data,
    {
        &self.data
    }
}

} // verus!
