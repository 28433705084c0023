//! The viewport: which part of the document is on screen, and at what zoom.
//!
//! Horizontal offsets are thousandths of a pixel, vertical offsets
//! thousandths of a point, and the scale is a number of thousandths: 2000
//! shows every point as two pixels.

use crate::document::offset_to_page;
use crate::document::page_top_of;
use crate::document::page_height_of;
use crate::document::DocView;
use crate::document::Link;
use crate::document::PageError;
use crate::document::PageMetadata;
use crate::geometry::covers;
use crate::geometry::rect_point_intersect;
use crate::geometry::trunc_div;
use crate::geometry::DisplayRect;
use crate::geometry::Point;
use crate::image::DisplayCommand;
use crate::image::Image;
use crate::image::TransferCommand;
use crate::registry::ImageRegistry;
use crate::registry::RegistryView;
use vstd::prelude::*;

verus! {

/// How far above the first page the viewport may rise, in thousandths of a
/// point.
pub const TOP_SLACK: i64 = 10_000;

/// Size of the terminal window, in pixels and in character cells.
#[derive(Clone, Copy, Debug, PartialEq, Eq, Structural)]
pub struct TerminalSize {
    pub width: u16,
    pub height: u16,
    pub columns: u16,
    pub rows: u16,
}

/// The settings the viewport is built with.
#[derive(Clone, Copy, Debug, PartialEq, Eq, Structural)]
pub struct ViewerConfig {
    /// Smallest scale the viewport accepts, in thousandths; above zero.
    pub scale_min: u32,
    /// Pages rendered ahead on either side of the visible ones.
    pub pages_preloaded: usize,
    /// Byte budget of the image registry.
    pub memory_limit: usize,
    /// Width of the transparent border of every image, in bitmap pixels.
    pub image_padding: usize,
}

/// The viewport together with the images it shows.
pub struct Viewer {
    scale: u32,
    page_first: usize,
    page_view: usize,
    offset: (i64, i64),
    document: PageMetadata,
    registry: ImageRegistry,
    terminal: TerminalSize,
    scale_min: u32,
    pages_preloaded: usize,
    image_padding: usize,
}

/// Mathematical content of a [`Viewer`].
pub struct ViewerView {
    /// Screen pixels per point, in thousandths.
    pub scale: int,
    /// First page that the top of the viewport meets.
    pub page_first: int,
    /// Page at the vertical middle of the viewport.
    pub page_view: int,
    /// Horizontal offset in thousandths of a pixel.
    pub x: int,
    /// Vertical offset in thousandths of a point.
    pub y: int,
    pub doc: DocView,
    pub registry: RegistryView,
    /// Width of the viewport in pixels.
    pub width: int,
    /// Height of the viewport in pixels.
    pub height: int,
    pub columns: int,
    pub rows: int,
    pub scale_min: int,
    pub pages_preloaded: int,
    pub image_padding: usize,
}

/// The smaller of two numbers.
pub open spec fn lesser(a: int, b: int) -> int {
    if a < b {
        a
    } else {
        b
    }
}

/// The larger of two numbers.
pub open spec fn greater(a: int, b: int) -> int {
    if a > b {
        a
    } else {
        b
    }
}

/// `v` brought into `lo..=hi`.
pub open spec fn clamp(v: int, lo: int, hi: int) -> int {
    if v < lo {
        lo
    } else if v > hi {
        hi
    } else {
        v
    }
}

impl ViewerView {
    /// What holds of every viewer between two operations.
    pub open spec fn valid(self) -> bool {
        &&& self.doc.valid()
        &&& self.registry.valid()
        &&& 1 <= self.scale <= u32::MAX
        &&& 1 <= self.scale_min <= u32::MAX
        &&& 0 <= self.width <= u16::MAX
        &&& 0 <= self.height <= u16::MAX
    }

    /// Width of the widest page on screen, in thousandths of a pixel.
    pub open spec fn doc_width(self) -> int {
        self.doc.max_width * self.scale / 1000
    }

    /// What is left of the viewport's width beside the document; negative
    /// when the document is wider.
    pub open spec fn slack(self) -> int {
        self.width * 1000 - self.doc_width()
    }

    /// Height of the viewport in thousandths of a point.
    pub open spec fn view_height(self) -> int {
        self.height * 1_000_000 / self.scale
    }

    /// Half the height of the viewport in thousandths of a point.
    pub open spec fn half_view_height(self) -> int {
        self.height * 500_000 / self.scale
    }

    /// The lowest vertical offset the viewport may take.
    pub open spec fn max_y(self) -> int {
        greater(-TOP_SLACK as int, self.doc.total_height() - self.view_height())
    }

    /// The last page, 0 for a document without pages.
    pub open spec fn last_page(self) -> int {
        if self.doc.pages() == 0 {
            0
        } else {
            self.doc.pages() - 1
        }
    }

    /// Whether scale and offset lie within their limits and the two page
    /// indices say where the viewport is.
    pub open spec fn in_bounds(self) -> bool {
        &&& self.scale >= self.scale_min
        &&& self.slack() <= 0 ==> self.slack() <= self.x <= 0
        &&& self.slack() >= 0 ==> 0 <= self.x <= self.slack()
        &&& -TOP_SLACK <= self.y <= self.max_y()
        &&& self.page_first == offset_to_page(self.doc.cumulative_heights, self.y)
        &&& self.page_view == clamp(
            offset_to_page(self.doc.cumulative_heights, self.y + self.half_view_height()),
            0,
            self.last_page(),
        )
    }

    /// The viewer with its scale raised to the minimum, its offset brought
    /// within its limits, and its page indices recomputed.
    pub open spec fn bound(self) -> ViewerView {
        let scaled = ViewerView {
            scale: if self.scale < self.scale_min {
                self.scale_min
            } else {
                self.scale
            },
            ..self
        };
        let x = lesser(greater(self.x, lesser(0, scaled.slack())), greater(0, scaled.slack()));
        let y = lesser(greater(self.y, -TOP_SLACK as int), scaled.max_y());
        ViewerView {
            x,
            y,
            page_first: offset_to_page(self.doc.cumulative_heights, y),
            page_view: clamp(
                offset_to_page(self.doc.cumulative_heights, y + scaled.half_view_height()),
                0,
                self.last_page(),
            ),
            ..scaled
        }
    }

    /// The viewer moved by `(dx, dy)`, each offset staying within 64 bits.
    pub open spec fn scrolled(self, dx: int, dy: int) -> ViewerView {
        (ViewerView {
            x: clamp(self.x + dx, i64::MIN as int, i64::MAX as int),
            y: clamp(self.y + dy, i64::MIN as int, i64::MAX as int),
            ..self
        }).bound()
    }

    /// The viewer zoomed by `amount` thousandths, the scale staying within 32
    /// bits.
    pub open spec fn zoomed(self, amount: int) -> ViewerView {
        (ViewerView { scale: clamp(self.scale + amount, 1, u32::MAX as int), ..self }).bound()
    }

    /// The scale at which the widest page is as wide as the viewport.
    pub open spec fn fitting_scale(self) -> int {
        if self.doc.max_width == 0 {
            self.scale_min
        } else {
            clamp(self.width * 1_000_000 / self.doc.max_width, 1, u32::MAX as int)
        }
    }

    /// The viewer zoomed so that the widest page fills the width.
    pub open spec fn fitted(self) -> ViewerView {
        (ViewerView { scale: self.fitting_scale(), ..self }).bound()
    }

    /// The viewer with the document centred horizontally.
    pub open spec fn centered(self) -> ViewerView {
        ViewerView { x: self.width * 500 - self.doc_width() / 2, ..self }
    }

    /// The page a jump to `page` aims at: `page` itself, or the last page
    /// when there are fewer.
    pub open spec fn jump_target(self, page: int) -> int {
        if page < self.doc.pages() {
            page
        } else {
            self.last_page()
        }
    }

    /// The viewer with its top at the start of `page`.
    pub open spec fn jumped(self, page: int) -> ViewerView {
        (ViewerView {
            page_first: self.jump_target(page),
            y: page_top_of(self.doc.cumulative_heights, self.jump_target(page)),
            ..self
        }).bound()
    }
}

/// Whatever the viewer was, after bounding its scale and offsets lie within
/// their limits, and its two page indices are pages of the document when it
/// has any.
pub proof fn lemma_bound_in_bounds(v: ViewerView)
    requires
        v.valid(),
    ensures
        v.bound().valid(),
        v.bound().in_bounds(),
        v.doc.pages() > 0 ==> 0 <= v.bound().page_first < v.doc.pages(),
        v.doc.pages() > 0 ==> 0 <= v.bound().page_view < v.doc.pages(),
        v.bound().bound() == v.bound(),
{
    let b = v.bound();
    let cum = v.doc.cumulative_heights;
    assert(b.view_height() >= 0) by (nonlinear_arith)
        requires
            b.view_height() == b.height * 1_000_000 / b.scale,
            b.height >= 0,
            b.scale >= 1,
    ;
    crate::document::lemma_offset_to_page_splits(cum, b.y, 0);
    crate::document::lemma_offset_to_page_splits(cum, b.y + b.half_view_height(), 0);
    if v.doc.pages() > 0 {
        let r = offset_to_page(cum, b.y);
        if r == cum.len() {
            assert(cum[cum.len() - 1] < b.y);
        }
    }
}

/// The product of two 32-bit numbers fits in 64 bits.
proof fn lemma_product_fits(a: int, b: int)
    requires
        0 <= a <= u32::MAX,
        0 <= b <= u32::MAX,
    ensures
        0 <= a * b <= 0xFFFF_FFFE_0000_0001,
        0 <= a * b / 1000 <= 0xFFFF_FFFE_0000_0001,
{
    assert(0 <= a * b <= 0xFFFF_FFFE_0000_0001) by (nonlinear_arith)
        requires
            0 <= a <= 0xFFFF_FFFF,
            0 <= b <= 0xFFFF_FFFF,
    ;
}

/// A quotient of a non-negative number by a positive one lies between zero
/// and the number.
proof fn lemma_quotient_fits(a: int, b: int)
    requires
        0 <= a,
        1 <= b,
    ensures
        0 <= a / b <= a,
{
    assert(0 <= a / b <= a) by (nonlinear_arith)
        requires
            0 <= a,
            1 <= b,
    ;
}

impl View for Viewer {
    type V = ViewerView;

    closed spec fn view(&self) -> ViewerView {
        ViewerView {
            scale: self.scale as int,
            page_first: self.page_first as int,
            page_view: self.page_view as int,
            x: self.offset.0 as int,
            y: self.offset.1 as int,
            doc: self.document@,
            registry: self.registry@,
            width: self.terminal.width as int,
            height: self.terminal.height as int,
            columns: self.terminal.columns as int,
            rows: self.terminal.rows as int,
            scale_min: self.scale_min as int,
            pages_preloaded: self.pages_preloaded as int,
            image_padding: self.image_padding,
        }
    }
}

impl Viewer {
    /// A viewer at scale 1 on a document without pages and with no image.
    pub fn new(config: ViewerConfig, terminal: TerminalSize) -> (viewer: Viewer)
        requires
            config.scale_min > 0,
        ensures
            viewer@.valid(),
            viewer@.scale == 1000,
            viewer@.x == 0 && viewer@.y == 0,
            viewer@.page_first == 0 && viewer@.page_view == 0,
            viewer@.doc.pages() == 0,
            viewer@.doc.max_width == 0,
            viewer@.registry.held == Map::<usize, Image>::empty(),
            viewer@.registry.memory_limit == config.memory_limit,
            viewer@.registry.memory_used == 0,
            viewer@.scale_min == config.scale_min,
            viewer@.pages_preloaded == config.pages_preloaded,
            viewer@.image_padding == config.image_padding,
            viewer@.width == terminal.width && viewer@.height == terminal.height,
            viewer@.columns == terminal.columns && viewer@.rows == terminal.rows,
    {
        Viewer {
            scale: 1000,
            page_first: 0,
            page_view: 0,
            offset: (0, 0),
            document: PageMetadata::empty(0),
            registry: ImageRegistry::new(config.memory_limit),
            terminal,
            scale_min: config.scale_min,
            pages_preloaded: config.pages_preloaded,
            image_padding: config.image_padding,
        }
    }

    /// Whether no document with pages was loaded yet.
    pub fn is_uninit(&self) -> (uninit: bool)
        ensures
            uninit == (self@.doc.pages() == 0),
    {
        self.document.pages() == 0
    }

    /// Replaces the document. Offsets and scale stay as they are until the
    /// next bounding.
    pub fn update_metadata(&mut self, document: PageMetadata)
        requires
            old(self)@.valid(),
            document@.valid(),
        ensures
            final(self)@ == (ViewerView { doc: document@, ..old(self)@ }),
            final(self)@.valid(),
    {
        self.document = document;
    }

    /// Takes over a new size of the terminal window.
    pub fn resize(&mut self, terminal: TerminalSize)
        requires
            old(self)@.valid(),
        ensures
            final(self)@ == (ViewerView {
                width: terminal.width as int,
                height: terminal.height as int,
                columns: terminal.columns as int,
                rows: terminal.rows as int,
                ..old(self)@
            }),
            final(self)@.valid(),
    {
        self.terminal = terminal;
    }

    /// Declares every held image stale.
    pub fn invalidate_registry(&mut self)
        requires
            old(self)@.valid(),
        ensures
            final(self)@ == (ViewerView {
                registry: old(self)@.registry.all_invalidated(),
                ..old(self)@
            }),
            final(self)@.valid(),
            final(self)@.registry.held.dom().len() == old(self)@.registry.held.dom().len(),
            old(self)@.registry.invalidated.subset_of(final(self)@.registry.invalidated),
    {
        self.registry.invalidate_all();
    }

    /// Takes in what the renderer sent for `page`: an image to hold, or
    /// `None` when the page is gone and its image has to go too.
    pub fn handle_image(&mut self, page: usize, image: Option<Image>)
        requires
            old(self)@.valid(),
        ensures
            final(self)@.valid(),
            image matches Some(i) ==> final(self)@ == (ViewerView {
                registry: old(self)@.registry.inserted(page, i),
                ..old(self)@
            }),
            image is None ==> final(self)@ == (ViewerView {
                registry: old(self)@.registry.without(page),
                ..old(self)@
            }),
    {
        match image {
            Some(i) => self.registry.insert(page, i),
            None => self.registry.remove(page),
        }
    }

    /// The image registry.
    pub fn registry(&self) -> (registry: &ImageRegistry)
        ensures
            registry@ == self@.registry,
    {
        &self.registry
    }

    /// The loaded document.
    pub fn document(&self) -> (document: &PageMetadata)
        ensures
            document@ == self@.doc,
    {
        &self.document
    }

    /// The size of the terminal window last taken over.
    pub fn terminal(&self) -> (terminal: TerminalSize)
        ensures
            terminal.width == self@.width,
            terminal.height == self@.height,
            terminal.columns == self@.columns,
            terminal.rows == self@.rows,
    {
        self.terminal
    }

    /// Number of pages of the document.
    pub fn pages(&self) -> (n: usize)
        ensures
            n == self@.doc.pages(),
    {
        self.document.pages()
    }

    /// The scale in thousandths.
    pub fn get_scale(&self) -> (scale: u32)
        ensures
            scale == self@.scale,
    {
        self.scale
    }

    /// First page that the top of the viewport meets.
    pub fn page_first(&self) -> (page: usize)
        ensures
            page == self@.page_first,
    {
        self.page_first
    }

    /// Page at the vertical middle of the viewport.
    pub fn page_view(&self) -> (page: usize)
        ensures
            page == self@.page_view,
    {
        self.page_view
    }

    /// Horizontal offset in thousandths of a pixel and vertical offset in
    /// thousandths of a point.
    pub fn offset(&self) -> (offset: (i64, i64))
        ensures
            offset.0 == self@.x,
            offset.1 == self@.y,
    {
        self.offset
    }

    /// Height of `page`, its bottom margin included.
    pub fn page_height(&self, page: usize) -> (height: Result<i64, PageError>)
        requires
            self@.valid(),
        ensures
            page < self@.doc.pages() ==> height == Ok::<i64, PageError>(
                crate::document::page_height_of(self@.doc.cumulative_heights, page as int) as i64,
            ),
            page >= self@.doc.pages() ==> height == Err::<i64, PageError>(
                PageError::OutOfRange { page, pages: self@.doc.pages() as usize },
            ),
    {
        self.document.page_height(page)
    }

    /// Width of `page`.
    pub fn page_width(&self, page: usize) -> (width: Result<u32, PageError>)
        requires
            self@.valid(),
        ensures
            page < self@.doc.pages() ==> width == Ok::<u32, PageError>(
                self@.doc.widths[page as int],
            ),
            page >= self@.doc.pages() ==> width == Err::<u32, PageError>(
                PageError::OutOfRange { page, pages: self@.doc.pages() as usize },
            ),
    {
        self.document.page_width(page)
    }

    /// The page on which a vertical offset falls.
    fn offset2page(&self, offset: i64) -> (page: usize)
        requires
            self@.valid(),
        ensures
            page == offset_to_page(self@.doc.cumulative_heights, offset as int),
            page <= self@.doc.pages(),
    {
        self.document.offset_to_page(offset)
    }

    /// Brings scale and offsets back within their limits and recomputes the
    /// two page indices.
    pub fn bound_viewer(&mut self)
        requires
            old(self)@.valid(),
        ensures
            final(self)@ == old(self)@.bound(),
            final(self)@.valid(),
            final(self)@.in_bounds(),
            final(self)@.doc.pages() > 0 ==> final(self)@.page_first < final(self)@.doc.pages()
                && final(self)@.page_view < final(self)@.doc.pages(),
    {
        proof {
            lemma_bound_in_bounds(self@);
        }
        if self.scale < self.scale_min {
            self.scale = self.scale_min;
        }
        let ghost scaled = self@;
        let max_width = self.document.max_width();
        proof {
            lemma_product_fits(max_width as int, scaled.scale);
            lemma_quotient_fits(scaled.height * 1_000_000, scaled.scale);
            lemma_quotient_fits(scaled.height * 500_000, scaled.scale);
        }
        let doc_width: i128 = (max_width as i128) * (self.scale as i128) / 1000;
        let slack: i128 = (self.terminal.width as i128) * 1000 - doc_width;
        let low: i128 = if slack < 0 { slack } else { 0 };
        let high: i128 = if slack > 0 { slack } else { 0 };
        let mut x: i128 = self.offset.0 as i128;
        if x < low {
            x = low;
        }
        if x > high {
            x = high;
        }
        let view_height: i128 = (self.terminal.height as i128) * 1_000_000 / (self.scale as i128);
        let half_height: i128 = (self.terminal.height as i128) * 500_000 / (self.scale as i128);
        let bottom: i128 = self.document.total_height() as i128 - view_height;
        let max_y: i128 = if bottom > -(TOP_SLACK as i128) { bottom } else { -(TOP_SLACK as i128) };
        let mut y: i128 = self.offset.1 as i128;
        if y < -(TOP_SLACK as i128) {
            y = -(TOP_SLACK as i128);
        }
        if y > max_y {
            y = max_y;
        }
        self.offset = (x as i64, y as i64);
        self.page_first = self.offset2page(y as i64);
        let middle = self.offset2page((y + half_height) as i64);
        let pages = self.document.pages();
        let last = if pages == 0 { 0 } else { pages - 1 };
        self.page_view = if middle > last { last } else { middle };
    }

    /// Moves the viewport by `amount`, given as thousandths of a pixel
    /// across and thousandths of a point down.
    pub fn scroll(&mut self, amount: (i64, i64))
        requires
            old(self)@.valid(),
        ensures
            final(self)@ == old(self)@.scrolled(amount.0 as int, amount.1 as int),
            final(self)@.valid(),
            final(self)@.in_bounds(),
    {
        self.offset = (saturating_sum(self.offset.0, amount.0), saturating_sum(self.offset.1, amount.1));
        self.bound_viewer();
    }

    /// Zooms by `amount` thousandths; a negative amount zooms out.
    pub fn scale(&mut self, amount: i64)
        requires
            old(self)@.valid(),
        ensures
            final(self)@ == old(self)@.zoomed(amount as int),
            final(self)@.valid(),
            final(self)@.in_bounds(),
    {
        let raised: i128 = self.scale as i128 + amount as i128;
        self.scale = if raised < 1 {
            1
        } else if raised > u32::MAX as i128 {
            u32::MAX
        } else {
            raised as u32
        };
        self.bound_viewer();
    }

    /// Zooms so that the widest page is as wide as the viewport.
    pub fn scale_page2terminal(&mut self)
        requires
            old(self)@.valid(),
        ensures
            final(self)@ == old(self)@.fitted(),
            final(self)@.valid(),
            final(self)@.in_bounds(),
    {
        let max_width = self.document.max_width();
        if max_width == 0 {
            self.scale = self.scale_min;
        } else {
            proof {
                lemma_quotient_fits(self@.width * 1_000_000, max_width as int);
            }
            let fitting: u64 = (self.terminal.width as u64) * 1_000_000 / (max_width as u64);
            self.scale = if fitting < 1 {
                1
            } else if fitting > u32::MAX as u64 {
                u32::MAX
            } else {
                fitting as u32
            };
        }
        self.bound_viewer();
    }

    /// Puts the middle of the widest page at the middle of the viewport.
    pub fn center_viewer(&mut self)
        requires
            old(self)@.valid(),
        ensures
            final(self)@ == old(self)@.centered(),
            final(self)@.valid(),
    {
        let max_width = self.document.max_width();
        proof {
            lemma_product_fits(max_width as int, self@.scale);
        }
        let doc_width: i128 = (max_width as i128) * (self.scale as i128) / 1000;
        let x: i128 = (self.terminal.width as i128) * 500 - doc_width / 2;
        self.offset = (x as i64, self.offset.1);
    }

    /// Puts the top of the viewport at the start of `page`, or of the last
    /// page when the document has fewer, and reports a `page` that the
    /// document does not have.
    pub fn jump(&mut self, page: usize) -> (res: Result<(), PageError>)
        requires
            old(self)@.valid(),
        ensures
            final(self)@ == old(self)@.jumped(page as int),
            final(self)@.valid(),
            final(self)@.in_bounds(),
            page < old(self)@.doc.pages() ==> res == Ok::<(), PageError>(()),
            page >= old(self)@.doc.pages() ==> res == Err::<(), PageError>(
                PageError::OutOfRange { page, pages: old(self)@.doc.pages() as usize },
            ),
    {
        let pages = self.document.pages();
        let res = if page >= pages {
            Err(PageError::OutOfRange { page, pages })
        } else {
            Ok(())
        };
        let target = if page < pages {
            page
        } else if pages == 0 {
            0
        } else {
            pages - 1
        };
        self.page_first = target;
        self.offset = (self.offset.0, self.document.page_top(target));
        self.bound_viewer();
        res
    }
}

/// The sum of two offsets, kept within 64 bits.
pub fn saturating_sum(a: i64, b: i64) -> (sum: i64)
    ensures
        sum == clamp(a + b, i64::MIN as int, i64::MAX as int),
{
    let wide: i128 = a as i128 + b as i128;
    if wide < i64::MIN as i128 {
        i64::MIN
    } else if wide > i64::MAX as i128 {
        i64::MAX
    } else {
        wide as i64
    }
}

/// Whole pixels of `v`, a number of `unit`-ths of a pixel: rounded toward
/// zero and kept within 32 bits.
pub open spec fn to_pixels(v: int, unit: int) -> int {
    clamp(trunc_div(v, unit), i32::MIN as int, i32::MAX as int)
}

/// Index of the first rectangle at or after `from` that covers the point,
/// the length of `bounds` when none does.
pub open spec fn hit_rect(bounds: Seq<(usize, DisplayRect)>, px: int, py: int, from: int) -> int
    decreases bounds.len() - from,
{
    if from < 0 || from >= bounds.len() {
        bounds.len() as int
    } else if covers(
        bounds[from].1.x as int,
        bounds[from].1.y as int,
        bounds[from].1.width as int,
        bounds[from].1.height as int,
        px,
        py,
    ) {
        from
    } else {
        hit_rect(bounds, px, py, from + 1)
    }
}

/// Index of the first link at or after `from` whose area covers the point,
/// the length of `links` when none does.
pub open spec fn hit_link(links: Seq<Link>, px: int, py: int, from: int) -> int
    decreases links.len() - from,
{
    if from < 0 || from >= links.len() {
        links.len() as int
    } else if covers(
        links[from].bounds.x as int,
        links[from].bounds.y as int,
        links[from].bounds.width as int,
        links[from].bounds.height as int,
        px,
        py,
    ) {
        from
    } else {
        hit_link(links, px, py, from + 1)
    }
}

impl ViewerView {
    /// Distance of the top of page `p` from the top of the viewport, in
    /// millionths of a pixel; negative when the page begins above it.
    pub open spec fn page_top_px(self, p: int) -> int {
        (page_top_of(self.doc.cumulative_heights, p) - self.y) * self.scale
    }

    /// Where page `p` is drawn: the page without its bottom margin, scaled.
    pub open spec fn page_rect(self, p: int) -> DisplayRect {
        DisplayRect {
            x: to_pixels(self.x, 1000) as i32,
            y: to_pixels(self.page_top_px(p), 1_000_000) as i32,
            width: to_pixels(self.doc.widths[p] * self.scale, 1_000_000) as i32,
            height: to_pixels(
                (page_height_of(self.doc.cumulative_heights, p) - self.doc.margin_bottom)
                    * self.scale,
                1_000_000,
            ) as i32,
        }
    }

    /// Number of pages from `from` on that begin above the bottom of the
    /// viewport, counted up to the first that does not.
    pub open spec fn visible_pages(self, from: int) -> int
        decreases self.doc.pages() - from,
    {
        if 0 <= from < self.doc.pages() && self.page_top_px(from) < self.height * 1_000_000 {
            1 + self.visible_pages(from + 1)
        } else {
            0
        }
    }

    /// The pages on screen with their rectangles, from `page_first` down.
    pub open spec fn display_bounds(self) -> Seq<(usize, DisplayRect)> {
        Seq::new(
            self.visible_pages(self.page_first) as nat,
            |i: int| ((self.page_first + i) as usize, self.page_rect(self.page_first + i)),
        )
    }

    /// The point `(px, py)` of the viewport in the points of the page drawn
    /// at `rect`.
    pub open spec fn projected(self, rect: DisplayRect, px: int, py: int) -> (int, int) {
        (to_pixels((px - rect.x) * 1000, self.scale), to_pixels((py - rect.y) * 1000, self.scale))
    }

    /// The link under the point `(px, py)` of the viewport: on the first page
    /// drawn there, the first link whose area covers the point.
    pub open spec fn link_at(self, px: int, py: int) -> Option<Link> {
        let bounds = self.display_bounds();
        let i = hit_rect(bounds, px, py, 0);
        if i >= bounds.len() {
            None
        } else {
            let links = self.doc.links[bounds[i].0 as int];
            let at = self.projected(bounds[i].1, px, py);
            let j = hit_link(links, at.0, at.1, 0);
            if j >= links.len() {
                None
            } else {
                Some(links[j])
            }
        }
    }
}

/// A difference of offsets times a scale fits in 128 bits with room to spare.
proof fn lemma_scaled_fits(d: int, s: int)
    requires
        -0x1_0000_0000_0000_0000 <= d <= 0x1_0000_0000_0000_0000,
        0 <= s <= 0x1_0000_0000,
    ensures
        -0x1_0000_0000_0000_0000_0000_0000 <= d * s <= 0x1_0000_0000_0000_0000_0000_0000,
        d >= 0 ==> d * s >= 0,
{
    assert(-0x1_0000_0000_0000_0000_0000_0000 <= d * s <= 0x1_0000_0000_0000_0000_0000_0000
        && (d >= 0 ==> d * s >= 0)) by (nonlinear_arith)
        requires
            -0x1_0000_0000_0000_0000 <= d <= 0x1_0000_0000_0000_0000,
            0 <= s <= 0x1_0000_0000,
    ;
}

/// Whole pixels of `v`, a number of `unit`-ths of a pixel.
pub fn pixels(v: i128, unit: i128) -> (px: i32)
    requires
        unit > 0,
    ensures
        px == to_pixels(v as int, unit as int),
{
    let q: i128 = v / unit;
    if q < i32::MIN as i128 {
        i32::MIN
    } else if q > i32::MAX as i128 {
        i32::MAX
    } else {
        q as i32
    }
}

impl Viewer {
    /// The pages that meet the viewport, each with the rectangle it is drawn
    /// in, in page order.
    pub fn calculate_display_bounds(&self) -> (bounds: Vec<(usize, DisplayRect)>)
        requires
            self@.valid(),
        ensures
            bounds@ == self@.display_bounds(),
            forall|i: int| 0 <= i < bounds.len() ==> (#[trigger] bounds[i]).0 < self@.doc.pages(),
    {
        let mut bounds: Vec<(usize, DisplayRect)> = Vec::new();
        let pages = self.document.pages();
        let first = self.page_first;
        if pages <= first {
            return bounds;
        }
        let scale = self.scale as i128;
        let limit: i128 = (self.terminal.height as i128) * 1_000_000;
        let x = pixels(self.offset.0 as i128, 1000);
        let margin = self.document.margin_bottom() as i128;
        let mut page = first;
        proof {
            lemma_scaled_fits(
                page_top_of(self@.doc.cumulative_heights, page as int) - self@.y,
                self@.scale,
            );
        }
        let mut top: i128 = (self.document.page_top(page) as i128 - self.offset.1 as i128) * scale;
        while page < pages && top < limit
            invariant
                self@.valid(),
                first <= page <= pages,
                pages == self@.doc.pages(),
                first == self@.page_first,
                scale == self@.scale,
                limit == self@.height * 1_000_000,
                margin == self@.doc.margin_bottom,
                x == to_pixels(self@.x, 1000),
                top == self@.page_top_px(page as int),
                bounds@.len() == page - first,
                forall|i: int|
                    0 <= i < bounds.len() ==> #[trigger] bounds[i] == (
                        (first + i) as usize,
                        self@.page_rect(first + i),
                    ),
                self@.visible_pages(first as int) == (page - first) + self@.visible_pages(
                    page as int,
                ),
            decreases pages - page,
        {
            let full = match self.document.page_height(page) {
                Ok(h) => h as i128,
                Err(_) => 0,
            };
            let wide = match self.document.page_width(page) {
                Ok(w) => w as i128,
                Err(_) => 0,
            };
            proof {
                assert(page_height_of(self@.doc.cumulative_heights, page as int)
                    >= self@.doc.margin_bottom);
                lemma_scaled_fits(full - margin, self@.scale);
                lemma_scaled_fits(wide as int, self@.scale);
                lemma_scaled_fits(
                    page_top_of(self@.doc.cumulative_heights, page + 1) - self@.y,
                    self@.scale,
                );
            }
            let rect = DisplayRect {
                x,
                y: pixels(top, 1_000_000),
                width: pixels(wide * scale, 1_000_000),
                height: pixels((full - margin) * scale, 1_000_000),
            };
            bounds.push((page, rect));
            page = page + 1;
            top = (self.document.page_top(page) as i128 - self.offset.1 as i128) * scale;
        }
        proof {
            assert(self@.visible_pages(page as int) == 0);
            assert(bounds@ =~= self@.display_bounds());
        }
        bounds
    }

    /// The link under the pointer: on the first page drawn under it, the
    /// first link whose area covers it.
    pub fn intersect_link<P: Point>(&self, mouse: &P) -> (link: Option<&Link>)
        requires
            self@.valid(),
        ensures
            link matches Some(l) ==> self@.link_at(mouse.px(), mouse.py()) == Some(*l),
            link is None ==> self@.link_at(mouse.px(), mouse.py()) is None,
    {
        let bounds = self.calculate_display_bounds();
        let mut i: usize = 0;
        while i < bounds.len() && !rect_point_intersect(&bounds[i].1, mouse)
            invariant
                0 <= i <= bounds.len(),
                hit_rect(bounds@, mouse.px(), mouse.py(), 0) == hit_rect(
                    bounds@,
                    mouse.px(),
                    mouse.py(),
                    i as int,
                ),
            decreases bounds.len() - i,
        {
            i = i + 1;
        }
        if i >= bounds.len() {
            return None;
        }
        let page = bounds[i].0;
        let rect = bounds[i].1;
        let scale = self.scale as i128;
        let page_point: (i32, i32) = (
            pixels((mouse.x() as i128 - rect.x as i128) * 1000, scale),
            pixels((mouse.y() as i128 - rect.y as i128) * 1000, scale),
        );
        let links = self.document.page_links(page);
        let mut j: usize = 0;
        while j < links.len() && !rect_point_intersect(&links[j].bounds, &page_point)
            invariant
                0 <= j <= links.len(),
                hit_link(links@, page_point.0 as int, page_point.1 as int, 0) == hit_link(
                    links@,
                    page_point.0 as int,
                    page_point.1 as int,
                    j as int,
                ),
            decreases links.len() - j,
        {
            j = j + 1;
        }
        if j >= links.len() {
            return None;
        }
        Some(&links[j])
    }
}

/// A page that a frame deals with: one on screen, with the rectangle it is
/// drawn in, or one kept ready beside them, without.
#[derive(Clone, Copy, Debug, PartialEq, Eq)]
pub struct Candidate {
    pub page: usize,
    pub rect: Option<DisplayRect>,
}

/// What a frame does about one page.
#[derive(Clone, Copy, Debug, PartialEq, Eq)]
pub enum FrameStep {
    /// Ask the renderer for the page.
    Render { page: usize },
    /// Send `command` to the terminal and await its acknowledgement.
    Show { page: usize, command: DisplayCommand },
}

/// What a frame does about `candidates`, taken in order, and the registry
/// it leaves. A page that needs rendering is requested and counts as
/// awaited from then on. A held page on screen is drawn where it can be; a
/// held page beside the screen is probed. Nothing is done about a page that
/// is awaited and not held.
pub open spec fn planned(
    registry: RegistryView,
    candidates: Seq<Candidate>,
    padding: usize,
    terminal: TerminalSize,
) -> (Seq<FrameStep>, RegistryView)
    decreases candidates.len(),
{
    if candidates.len() == 0 {
        (Seq::empty(), registry)
    } else {
        let earlier = planned(registry, candidates.drop_last(), padding, terminal);
        let page = candidates.last().page;
        if earlier.1.needs_render(page) {
            (
                earlier.0.push(FrameStep::Render { page }),
                RegistryView { scheduled: earlier.1.scheduled.insert(page), ..earlier.1 },
            )
        } else if earlier.1.held.contains_key(page) {
            match candidates.last().rect {
                None => (
                    earlier.0.push(
                        FrameStep::Show { page, command: earlier.1.held[page]@.probe() },
                    ),
                    earlier.1,
                ),
                Some(rect) => match earlier.1.held[page]@.shown(rect, padding, terminal) {
                    Some(command) => (earlier.0.push(FrameStep::Show { page, command }), earlier.1),
                    None => earlier,
                },
            }
        } else {
            earlier
        }
    }
}

/// The pages of the steps that await an acknowledgement, in order.
pub open spec fn awaited(steps: Seq<FrameStep>) -> Seq<usize>
    decreases steps.len(),
{
    if steps.len() == 0 {
        Seq::empty()
    } else {
        match steps.last() {
            FrameStep::Show { page, .. } => awaited(steps.drop_last()).push(page),
            FrameStep::Render { .. } => awaited(steps.drop_last()),
        }
    }
}

impl ViewerView {
    /// The terminal size held in the view.
    pub open spec fn terminal(self) -> TerminalSize {
        TerminalSize {
            width: self.width as u16,
            height: self.height as u16,
            columns: self.columns as u16,
            rows: self.rows as u16,
        }
    }

    /// The first page below the visible ones.
    pub open spec fn page_after(self) -> int {
        self.page_first + self.visible_pages(self.page_first)
    }

    /// The pages kept ready above the visible ones, nearest first.
    pub open spec fn fringe_before(self) -> Seq<Candidate> {
        Seq::new(
            lesser(self.pages_preloaded, self.page_first) as nat,
            |i: int| Candidate { page: (self.page_first - 1 - i) as usize, rect: None },
        )
    }

    /// The pages on screen, each with its rectangle.
    pub open spec fn on_screen(self) -> Seq<Candidate> {
        Seq::new(
            self.display_bounds().len(),
            |i: int|
                Candidate {
                    page: self.display_bounds()[i].0,
                    rect: Some(self.display_bounds()[i].1),
                },
        )
    }

    /// The pages kept ready below the visible ones, nearest first.
    pub open spec fn fringe_after(self) -> Seq<Candidate> {
        Seq::new(
            lesser(self.pages_preloaded, self.doc.pages() - self.page_after()) as nat,
            |i: int| Candidate { page: (self.page_after() + i) as usize, rect: None },
        )
    }

    /// The pages a frame deals with: those kept ready above, those on
    /// screen, those kept ready below. None when the first page is not a
    /// page of the document.
    pub open spec fn candidates(self) -> Seq<Candidate> {
        if self.doc.pages() <= self.page_first {
            Seq::empty()
        } else {
            self.fringe_before() + self.on_screen() + self.fringe_after()
        }
    }
}

/// The tops of the pages follow each other down the screen.
pub proof fn lemma_tops_grow(v: ViewerView, p: int, q: int)
    requires
        v.valid(),
        0 <= p <= q <= v.doc.pages(),
    ensures
        v.page_top_px(p) <= v.page_top_px(q),
{
    let a = page_top_of(v.doc.cumulative_heights, p) - v.y;
    let b = page_top_of(v.doc.cumulative_heights, q) - v.y;
    if p > 0 {
        assert(v.doc.cumulative_heights[p - 1] <= v.doc.cumulative_heights[q - 1]);
    } else if q > 0 {
        assert(0 <= v.doc.cumulative_heights[q - 1]);
    }
    assert(a * v.scale <= b * v.scale) by (nonlinear_arith)
        requires
            a <= b,
            v.scale >= 1,
    ;
}

/// The pages counted as visible begin above the bottom of the viewport, and
/// the page after them, if there is one, does not.
pub proof fn lemma_visible_pages_exact(v: ViewerView, from: int)
    requires
        0 <= from <= v.doc.pages(),
    ensures
        forall|p: int|
            from <= p < from + v.visible_pages(from) ==> #[trigger] v.page_top_px(p) < v.height
                * 1_000_000,
        from + v.visible_pages(from) < v.doc.pages() ==> v.page_top_px(
            from + v.visible_pages(from),
        ) >= v.height * 1_000_000,
    decreases v.doc.pages() - from,
{
    if from < v.doc.pages() && v.page_top_px(from) < v.height * 1_000_000 {
        lemma_visible_pages_exact(v, from + 1);
    }
}

/// The rectangles cover every page that meets the viewport, and no other:
/// in a bounded viewer a page has a rectangle if and only if it ends at or
/// below the top of the viewport and begins above its bottom.
pub proof fn lemma_display_bounds_cover(v: ViewerView, p: int)
    requires
        v.valid(),
        v.in_bounds(),
        0 <= p < v.doc.pages(),
    ensures
        (exists|i: int|
            0 <= i < v.display_bounds().len() && (#[trigger] v.display_bounds()[i]).0 == p) <==> (
        v.doc.cumulative_heights[p] >= v.y && v.page_top_px(p) < v.height * 1_000_000),
{
    let cum = v.doc.cumulative_heights;
    let first = v.page_first;
    let n = v.visible_pages(first);
    crate::document::lemma_offset_to_page_splits(cum, v.y, 0);
    lemma_visible_pages_bound(v, first);
    lemma_visible_pages_exact(v, first);
    let bounds = v.display_bounds();
    if cum[p] >= v.y && v.page_top_px(p) < v.height * 1_000_000 {
        if p < first {
            assert(cum[p] < v.y);
        }
        if p >= first + n {
            lemma_tops_grow(v, first + n, p);
        }
        assert(bounds[p - first].0 == p);
    }
    if exists|i: int| 0 <= i < bounds.len() && (#[trigger] bounds[i]).0 == p {
        let i = choose|i: int| 0 <= i < bounds.len() && (#[trigger] bounds[i]).0 == p;
        assert(p == first + i);
        assert(cum[p] >= v.y);
    }
}

/// The visible pages end within the document.
pub proof fn lemma_visible_pages_bound(v: ViewerView, from: int)
    requires
        0 <= from <= v.doc.pages(),
    ensures
        0 <= v.visible_pages(from) <= v.doc.pages() - from,
    decreases v.doc.pages() - from,
{
    if from < v.doc.pages() && v.page_top_px(from) < v.height * 1_000_000 {
        lemma_visible_pages_bound(v, from + 1);
    }
}

impl Viewer {
    /// The pages a frame deals with, in the order in which it does.
    #[verifier::loop_isolation(false)]
    pub fn candidates(&self) -> (candidates: Vec<Candidate>)
        requires
            self@.valid(),
        ensures
            candidates@ == self@.candidates(),
    {
        let mut candidates: Vec<Candidate> = Vec::new();
        let pages = self.document.pages();
        let first = self.page_first;
        if pages <= first {
            return candidates;
        }
        let before = if self.pages_preloaded < first { self.pages_preloaded } else { first };
        let mut i: usize = 0;
        while i < before
            invariant
                0 <= i <= before <= first,
                candidates@.len() == i,
                forall|k: int|
                    0 <= k < i ==> #[trigger] candidates@[k] == (Candidate {
                        page: (first - 1 - k) as usize,
                        rect: None,
                    }),
            decreases before - i,
        {
            candidates.push(Candidate { page: first - 1 - i, rect: None });
            i = i + 1;
        }
        assert(candidates@ =~= self@.fringe_before());
        let bounds = self.calculate_display_bounds();
        proof {
            lemma_visible_pages_bound(self@, first as int);
        }
        let mut j: usize = 0;
        while j < bounds.len()
            invariant
                0 <= j <= bounds.len(),
                candidates@.len() == before + j,
                forall|k: int| 0 <= k < before ==> candidates@[k] == self@.fringe_before()[k],
                forall|k: int|
                    before <= k < before + j ==> #[trigger] candidates@[k] == (Candidate {
                        page: bounds@[k - before].0,
                        rect: Some(bounds@[k - before].1),
                    }),
            decreases bounds.len() - j,
        {
            candidates.push(Candidate { page: bounds[j].0, rect: Some(bounds[j].1) });
            j = j + 1;
        }
        assert(candidates@ =~= self@.fringe_before() + self@.on_screen());
        let next = first + bounds.len();
        let after = if self.pages_preloaded < pages - next {
            self.pages_preloaded
        } else {
            pages - next
        };
        let shown = candidates.len();
        let mut k: usize = 0;
        while k < after
            invariant
                0 <= k <= after <= pages - next,
                candidates@.len() == shown + k,
                forall|m: int|
                    0 <= m < shown ==> candidates@[m] == (self@.fringe_before()
                        + self@.on_screen())[m],
                forall|m: int|
                    shown <= m < shown + k ==> #[trigger] candidates@[m] == (Candidate {
                        page: (next + m - shown) as usize,
                        rect: None,
                    }),
            decreases after - k,
        {
            candidates.push(Candidate { page: next + k, rect: None });
            k = k + 1;
        }
        assert(candidates@ =~= self@.candidates());
        candidates
    }

    /// Plans a frame: which pages to request from the renderer, and what to
    /// send to the terminal for the others. Every requested page counts as
    /// awaited afterwards.
    pub fn display_pages(&mut self) -> (steps: Vec<FrameStep>)
        requires
            old(self)@.valid(),
        ensures
            steps@ == planned(
                old(self)@.registry,
                old(self)@.candidates(),
                old(self)@.image_padding,
                old(self)@.terminal(),
            ).0,
            final(self)@ == (ViewerView {
                registry: planned(
                    old(self)@.registry,
                    old(self)@.candidates(),
                    old(self)@.image_padding,
                    old(self)@.terminal(),
                ).1,
                ..old(self)@
            }),
            final(self)@.valid(),
    {
        let candidates = self.candidates();
        let mut steps: Vec<FrameStep> = Vec::new();
        let padding = self.image_padding;
        let terminal = self.terminal;
        assert(terminal == self@.terminal());
        let mut i: usize = 0;
        while i < candidates.len()
            invariant
                0 <= i <= candidates.len(),
                self@ == (ViewerView { registry: self@.registry, ..old(self)@ }),
                self@.valid(),
                (steps@, self@.registry) == planned(
                    old(self)@.registry,
                    candidates@.take(i as int),
                    padding,
                    terminal,
                ),
            decreases candidates.len() - i,
        {
            let candidate = candidates[i];
            let page = candidate.page;
            proof {
                assert(candidates@.take(i + 1).drop_last() =~= candidates@.take(i as int));
                assert(candidates@.take(i + 1).last() == candidate);
            }
            if self.registry.needs_render(page) {
                self.registry.mark_scheduled(page);
                steps.push(FrameStep::Render { page });
            } else {
                match self.registry.get(page) {
                    Some(image) => match candidate.rect {
                        None => {
                            steps.push(FrameStep::Show { page, command: image.check() });
                        },
                        Some(rect) => match image.display(rect, padding, terminal) {
                            Some(command) => {
                                steps.push(FrameStep::Show { page, command });
                            },
                            None => {},
                        },
                    },
                    None => {},
                }
            }
            i = i + 1;
        }
        proof {
            assert(candidates@.take(candidates@.len() as int) =~= candidates@);
        }
        steps
    }

    /// Forgets the request for `page`, as when it could not be sent to the
    /// renderer.
    pub fn unschedule(&mut self, page: usize)
        requires
            old(self)@.valid(),
        ensures
            final(self)@ == (ViewerView {
                registry: RegistryView {
                    scheduled: old(self)@.registry.scheduled.remove(page),
                    ..old(self)@.registry
                },
                ..old(self)@
            }),
            final(self)@.valid(),
    {
        self.registry.unmark_scheduled(page);
    }

    /// What has to be handed over to the terminal again for `page`, whose
    /// image the terminal failed to acknowledge: `None` when no image is held
    /// for the page or its bordered size does not fit in `usize`.
    pub fn schedule_transfer(&self, page: usize) -> (again: Option<(TransferCommand, &Image)>)
        requires
            self@.valid(),
        ensures
            again matches Some(t) ==> self@.registry.held.contains_key(page) && *t.1
                == self@.registry.held[page] && t.0.id == t.1@.id && t.0.alpha && t.0.width
                == t.1@.width + 2 * self@.image_padding && t.0.height == t.1@.height + 2
                * self@.image_padding,
            again is None <==> !self@.registry.held.contains_key(page) || !(
            self@.registry.held[page]@.width >= 0 && self@.registry.held[page]@.height >= 0
                && self@.registry.held[page]@.width + 2 * self@.image_padding <= usize::MAX
                && self@.registry.held[page]@.height + 2 * self@.image_padding <= usize::MAX),
    {
        match self.registry.get(page) {
            Some(image) => match image.transfer(self.image_padding) {
                Some(command) => Some((command, image)),
                None => None,
            },
            None => None,
        }
    }
}

/// The pages of the steps that await an acknowledgement, in order.
pub fn displayed_pages(steps: &Vec<FrameStep>) -> (pages: Vec<usize>)
    ensures
        pages@ == awaited(steps@),
{
    let mut pages: Vec<usize> = Vec::new();
    let mut i: usize = 0;
    while i < steps.len()
        invariant
            0 <= i <= steps.len(),
            pages@ == awaited(steps@.take(i as int)),
        decreases steps.len() - i,
    {
        proof {
            assert(steps@.take(i + 1).drop_last() =~= steps@.take(i as int));
            assert(steps@.take(i + 1).last() == steps@[i as int]);
        }
        match steps[i] {
            FrameStep::Show { page, .. } => {
                pages.push(page);
            },
            FrameStep::Render { .. } => {},
        }
        i = i + 1;
    }
    proof {
        assert(steps@.take(steps@.len() as int) =~= steps@);
    }
    pages
}

impl ViewerView {
    /// The page that holds the top of the viewport: the first one that ends
    /// below it.
    pub open spec fn current_page(self) -> int {
        offset_to_page(
            self.doc.cumulative_heights,
            clamp(self.y + 1, i64::MIN as int, i64::MAX as int),
        )
    }

    /// The viewer after the metadata of a freshly loaded document arrived:
    /// every image is stale, the document is centred, and a viewer that had
    /// no pages before is zoomed to the width of the document.
    pub open spec fn loaded(self, doc: DocView) -> ViewerView {
        let centered = (ViewerView {
            doc,
            registry: self.registry.all_invalidated(),
            ..self
        }).centered();
        if self.doc.pages() == 0 {
            centered.fitted()
        } else {
            centered
        }
    }
}

impl Viewer {
    /// What the hint bar shows for `link`: nothing when the bar is switched
    /// off or narrower than five bytes. `share` is the part of the
    /// terminal's width that the bar takes, in thousandths.
    pub fn uri_hint(&self, link: &Link, enabled: bool, share: i64) -> (text: Option<Vec<u8>>)
        ensures
            !enabled ==> text is None,
            enabled ==> (text is Some <==> crate::hint::hint_text_of(
                vstd::utf8::encode_utf8(link.uri@),
                link.page,
                crate::hint::hint_width(self@.width as u16, share),
            ) is Some),
            enabled ==> (text matches Some(t) ==> Some(t@) == crate::hint::hint_text_of(
                vstd::utf8::encode_utf8(link.uri@),
                link.page,
                crate::hint::hint_width(self@.width as u16, share),
            )),
    {
        crate::hint::uri_hint(link, enabled, self.terminal.width, share)
    }

    /// The page that holds the top of the viewport.
    pub fn current_page(&self) -> (page: usize)
        requires
            self@.valid(),
        ensures
            page == self@.current_page(),
            page <= self@.doc.pages(),
    {
        self.offset2page(saturating_sum(self.offset.1, 1))
    }

    /// Takes over the metadata of a freshly loaded document.
    pub fn apply_metadata(&mut self, document: PageMetadata)
        requires
            old(self)@.valid(),
            document@.valid(),
        ensures
            final(self)@ == old(self)@.loaded(document@),
            final(self)@.valid(),
    {
        let uninit = self.is_uninit();
        self.update_metadata(document);
        self.invalidate_registry();
        self.center_viewer();
        if uninit {
            self.scale_page2terminal();
        }
    }
}

/// A jump to the first page reads back: whatever the viewer was, after a
/// jump to page 0 of a document with pages the first page on screen is
/// page 0.
pub proof fn lemma_jump_reads_back(v: ViewerView)
    requires
        v.valid(),
        v.doc.pages() > 0,
    ensures
        v.jumped(0).page_first == 0,
{
    let cum = v.doc.cumulative_heights;
    let y = v.jumped(0).y;
    assert(y <= 0);
    assert(crate::document::splits_at(cum, y, 0));
    crate::document::lemma_offset_to_page_splits(cum, y, 0);
}

/// A jump to a later page puts the top of the viewport on the boundary
/// between that page and the one before, or above it; the boundary counts
/// as part of the page before, so the first page on screen lies before the
/// page jumped to.
pub proof fn lemma_jump_lands_on_boundary(v: ViewerView, page: int)
    requires
        v.valid(),
        1 <= page < v.doc.pages(),
    ensures
        v.jumped(page).y <= v.doc.cumulative_heights[page - 1],
        v.jumped(page).page_first < page,
{
    let cum = v.doc.cumulative_heights;
    let y = v.jumped(page).y;
    crate::document::lemma_offset_to_page_splits(cum, y, 0);
    let r = offset_to_page(cum, y);
    if r >= page {
        assert(cum[page - 1] < y);
    }
}

} // verus!
