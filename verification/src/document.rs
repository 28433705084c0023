//! Page geometry of a loaded document.
//!
//! Lengths are whole numbers of thousandths: a page width of 612 points is
//! stored as 612000.

use vstd::prelude::*;

verus! {

/// Thousandths per unit of every fixed-point quantity of this crate.
pub const UNIT: i64 = 1000;

/// Largest cumulative height a document may reach, in thousandths of a point.
pub const MAX_EXTENT: i64 = 0x100_0000_0000;

/// Area of a page that reacts to the pointer, in whole page points.
#[derive(Clone, Copy, Debug, PartialEq, Eq, Structural)]
pub struct LinkRect {
    pub x: i32,
    pub y: i32,
    pub width: i32,
    pub height: i32,
}

impl crate::geometry::Rect for LinkRect {
    open spec fn left(&self) -> int {
        self.x as int
    }

    open spec fn top(&self) -> int {
        self.y as int
    }

    open spec fn span_x(&self) -> int {
        self.width as int
    }

    open spec fn span_y(&self) -> int {
        self.height as int
    }

    fn x(&self) -> (r: i32) {
        self.x
    }

    fn y(&self) -> (r: i32) {
        self.y
    }

    fn width(&self) -> (r: i32) {
        self.width
    }

    fn height(&self) -> (r: i32) {
        self.height
    }
}

/// A link on a page: its area and where it leads. A `uri` that starts with
/// `#` stands for the page `page` of the same document.
#[derive(Debug)]
pub struct Link {
    pub bounds: LinkRect,
    pub page: u32,
    pub uri: String,
}

/// Why a page could not be looked up.
#[derive(Clone, Copy, Debug, PartialEq, Eq, Structural)]
pub enum PageError {
    /// The index is not below the number of pages.
    OutOfRange { page: usize, pages: usize },
}

/// What the layout reads of a document.
pub struct PageMetadata {
    widths: Vec<u32>,
    cumulative_heights: Vec<i64>,
    max_width: u32,
    margin_bottom: u32,
    links: Vec<Vec<Link>>,
}

/// Mathematical content of a [`PageMetadata`].
pub struct DocView {
    pub widths: Seq<u32>,
    pub cumulative_heights: Seq<i64>,
    pub max_width: int,
    pub margin_bottom: int,
    pub links: Seq<Seq<Link>>,
}

/// `cumulative_heights[i]` for a document with the given page heights: the
/// heights of pages `0..=i`, each followed by the bottom margin.
pub open spec fn cumulative_height(heights: Seq<u32>, margin: int, i: int) -> int
    decreases i + 1,
{
    if i < 0 {
        0
    } else {
        cumulative_height(heights, margin, i - 1) + heights[i] + margin
    }
}

/// The widest of the first `n` pages, 0 when there is none.
pub open spec fn widest(widths: Seq<u32>, n: int) -> int
    decreases n,
{
    if n <= 0 {
        0
    } else if widths[n - 1] > widest(widths, n - 1) {
        widths[n - 1] as int
    } else {
        widest(widths, n - 1)
    }
}

/// Height of page `p` with its bottom margin; `cumulative_heights[-1]` counts as 0.
pub open spec fn page_height_of(cum: Seq<i64>, p: int) -> int {
    if p == 0 {
        cum[0] as int
    } else {
        cum[p] - cum[p - 1]
    }
}

/// Sum of the heights of pages `0..n`.
pub open spec fn sum_page_heights(cum: Seq<i64>, n: int) -> int
    decreases n,
{
    if n <= 0 {
        0
    } else {
        sum_page_heights(cum, n - 1) + page_height_of(cum, n - 1)
    }
}

/// The number of entries of `cum` that lie strictly below `y`. On a
/// non-decreasing sequence this is the index of the first entry that is at
/// least `y`, and the length when there is none.
pub open spec fn offset_to_page(cum: Seq<i64>, y: int) -> int
    decreases cum.len(),
{
    if cum.len() == 0 {
        0
    } else {
        offset_to_page(cum.drop_last(), y) + if cum.last() < y {
            1int
        } else {
            0int
        }
    }
}

/// `cum` never decreases and starts at or above zero.
pub open spec fn non_decreasing(cum: Seq<i64>) -> bool {
    &&& forall|i: int| 0 <= i < cum.len() ==> 0 <= #[trigger] cum[i] <= MAX_EXTENT
    &&& forall|i: int, j: int| 0 <= i <= j < cum.len() ==> cum[i] <= cum[j]
}

impl DocView {
    /// Number of pages.
    pub open spec fn pages(self) -> int {
        self.cumulative_heights.len() as int
    }

    /// Total height of the document, 0 when it has no page.
    pub open spec fn total_height(self) -> int {
        if self.cumulative_heights.len() == 0 {
            0
        } else {
            self.cumulative_heights.last() as int
        }
    }

    /// What every document holds: one width and one list of links per page,
    /// heights that accumulate without decreasing, each page at least as high
    /// as the margin below it, and the widest page known.
    pub open spec fn valid(self) -> bool {
        &&& self.widths.len() == self.cumulative_heights.len()
        &&& self.links.len() == self.cumulative_heights.len()
        &&& self.cumulative_heights.len() <= usize::MAX
        &&& non_decreasing(self.cumulative_heights)
        &&& 0 <= self.margin_bottom <= u32::MAX
        &&& forall|p: int|
            0 <= p < self.cumulative_heights.len() ==> #[trigger] page_height_of(
                self.cumulative_heights,
                p,
            ) >= self.margin_bottom
        &&& self.max_width == widest(self.widths, self.widths.len() as int)
    }
}

/// A page index below `r` has its cumulative height below `y`, one at or
/// above `r` does not: `r` is where `y` falls.
pub open spec fn splits_at(cum: Seq<i64>, y: int, r: int) -> bool {
    &&& 0 <= r <= cum.len()
    &&& forall|i: int| 0 <= i < r ==> #[trigger] cum[i] < y
    &&& forall|i: int| r <= i < cum.len() ==> #[trigger] cum[i] >= y
}

/// On a non-decreasing sequence `offset_to_page` is the one index at which
/// `y` splits the sequence.
pub proof fn lemma_offset_to_page_splits(cum: Seq<i64>, y: int, r: int)
    requires
        non_decreasing(cum),
    ensures
        splits_at(cum, y, offset_to_page(cum, y)),
        splits_at(cum, y, r) ==> r == offset_to_page(cum, y),
    decreases cum.len(),
{
    if cum.len() > 0 {
        let front = cum.drop_last();
        let n = front.len() as int;
        assert(non_decreasing(front)) by {
            assert forall|i: int, j: int| 0 <= i <= j < front.len() implies front[i]
                <= front[j] by {
                assert(front[i] == cum[i] && front[j] == cum[j]);
            }
            assert forall|i: int| 0 <= i < front.len() implies 0 <= #[trigger] front[i]
                <= MAX_EXTENT by {
                assert(front[i] == cum[i]);
            }
        }
        let rf = if r > n { n } else { r };
        lemma_offset_to_page_splits(front, y, rf);
        let q = offset_to_page(front, y);
        assert forall|i: int| 0 <= i < n implies front[i] == cum[i] by {}
        if cum.last() < y {
            assert forall|i: int| 0 <= i < n implies #[trigger] cum[i] < y by {
                assert(cum[i] <= cum[n]);
            }
            if q < n {
                assert(front[q] >= y);
                assert(cum[q] >= y);
            }
            assert(q == n);
            assert(splits_at(cum, y, n + 1));
            if splits_at(cum, y, r) {
                if r <= n {
                    assert(cum[n] >= y);
                }
            }
        } else {
            assert(splits_at(cum, y, q)) by {
                assert forall|i: int| q <= i < cum.len() implies #[trigger] cum[i] >= y by {
                    if i < n {
                        assert(front[i] >= y);
                    }
                }
                assert forall|i: int| 0 <= i < q implies #[trigger] cum[i] < y by {
                    assert(front[i] < y);
                }
            }
            if splits_at(cum, y, r) {
                if r > n {
                    assert(cum[n] < y);
                }
                assert(splits_at(front, y, r)) by {
                    assert forall|i: int| 0 <= i < r implies #[trigger] front[i] < y by {
                        assert(cum[i] < y);
                    }
                    assert forall|i: int| r <= i < front.len() implies #[trigger] front[i]
                        >= y by {
                        assert(cum[i] >= y);
                    }
                }
            }
        }
    } else {
        if splits_at(cum, y, r) {
            assert(r == 0);
        }
    }
}

/// The height of a page is the difference of two neighbouring cumulative
/// heights, and the heights of all pages add up to the last cumulative
/// height.
pub proof fn lemma_page_heights_sum(cum: Seq<i64>, n: int)
    requires
        0 <= n <= cum.len(),
    ensures
        forall|p: int|
            0 < p < cum.len() ==> #[trigger] page_height_of(cum, p) == cum[p] - cum[p - 1],
        cum.len() > 0 ==> page_height_of(cum, 0) == cum[0],
        sum_page_heights(cum, n) == if n == 0 {
            0
        } else {
            cum[n - 1] as int
        },
    decreases n,
{
    if n > 0 {
        lemma_page_heights_sum(cum, n - 1);
    }
}

impl View for PageMetadata {
    type V = DocView;

    closed spec fn view(&self) -> DocView {
        DocView {
            widths: self.widths@,
            cumulative_heights: self.cumulative_heights@,
            max_width: self.max_width as int,
            margin_bottom: self.margin_bottom as int,
            links: Seq::new(self.links@.len(), |i: int| self.links@[i]@),
        }
    }
}

impl PageMetadata {
    /// A document without pages.
    pub fn empty(margin_bottom: u32) -> (doc: PageMetadata)
        ensures
            doc@.valid(),
            doc@.pages() == 0,
            doc@.max_width == 0,
            doc@.margin_bottom == margin_bottom,
    {
        let doc = PageMetadata {
            widths: Vec::new(),
            cumulative_heights: Vec::new(),
            max_width: 0,
            margin_bottom,
            links: Vec::new(),
        };
        assert(doc@.links.len() == 0);
        doc
    }

    /// Lays the pages out one below the other, each followed by
    /// `margin_bottom`. The result is `None` when the three lists differ in
    /// length or the document would be higher than [`MAX_EXTENT`].
    pub fn from_pages(
        widths: Vec<u32>,
        heights: Vec<u32>,
        links: Vec<Vec<Link>>,
        margin_bottom: u32,
    ) -> (doc: Option<PageMetadata>)
        ensures
            doc is Some <==> widths.len() == heights.len() && links.len() == heights.len()
                && cumulative_height(heights@, margin_bottom as int, heights.len() - 1)
                <= MAX_EXTENT,
            doc matches Some(d) ==> {
                &&& d@.valid()
                &&& d@.widths == widths@
                &&& d@.margin_bottom == margin_bottom
                &&& d@.links == Seq::new(links@.len(), |i: int| links@[i]@)
                &&& d@.cumulative_heights.len() == heights.len()
                &&& forall|i: int|
                    0 <= i < heights.len() ==> #[trigger] d@.cumulative_heights[i]
                        == cumulative_height(heights@, margin_bottom as int, i)
            },
    {
        let n = heights.len();
        if widths.len() != n || links.len() != n {
            return None;
        }
        let mut cumulative_heights: Vec<i64> = Vec::new();
        let mut max_width: u32 = 0;
        let mut total: i64 = 0;
        let mut i: usize = 0;
        while i < n
            invariant
                0 <= i <= n,
                n == heights.len(),
                n == widths.len(),
                cumulative_heights.len() == i,
                total == cumulative_height(heights@, margin_bottom as int, i - 1),
                0 <= total <= MAX_EXTENT,
                max_width == widest(widths@, i as int),
                forall|k: int|
                    0 <= k < i ==> #[trigger] cumulative_heights[k] == cumulative_height(
                        heights@,
                        margin_bottom as int,
                        k,
                    ),
            decreases n - i,
        {
            let step: i64 = heights[i] as i64 + margin_bottom as i64;
            if step > MAX_EXTENT - total {
                proof {
                    lemma_cumulative_grows(heights@, margin_bottom as int, i as int, n - 1);
                }
                return None;
            }
            total = total + step;
            cumulative_heights.push(total);
            if widths[i] > max_width {
                max_width = widths[i];
            }
            i = i + 1;
        }
        let doc = PageMetadata { widths, cumulative_heights, max_width, margin_bottom, links };
        proof {
            let cum = doc@.cumulative_heights;
            assert forall|a: int, b: int| 0 <= a <= b < cum.len() implies cum[a] <= cum[b] by {
                lemma_cumulative_grows(heights@, margin_bottom as int, a, b);
            }
            assert forall|k: int| 0 <= k < cum.len() implies 0 <= #[trigger] cum[k]
                <= MAX_EXTENT by {
                lemma_cumulative_grows(heights@, margin_bottom as int, k, n - 1);
                lemma_cumulative_grows(heights@, margin_bottom as int, -1, k);
            }
            assert forall|p: int| 0 <= p < cum.len() implies #[trigger] page_height_of(cum, p)
                >= margin_bottom by {
                assert(cum[p] == cumulative_height(heights@, margin_bottom as int, p));
                assert(cumulative_height(heights@, margin_bottom as int, p) == cumulative_height(
                    heights@,
                    margin_bottom as int,
                    p - 1,
                ) + heights@[p] + margin_bottom);
                if p > 0 {
                    assert(cum[p - 1] == cumulative_height(heights@, margin_bottom as int, p - 1));
                } else {
                    assert(cumulative_height(heights@, margin_bottom as int, -1) == 0);
                }
            }
            assert(doc@.links =~= Seq::new(links@.len(), |i: int| links@[i]@));
        }
        Some(doc)
    }

    /// Number of pages.
    pub fn pages(&self) -> (n: usize)
        ensures
            n == self@.pages(),
    {
        self.cumulative_heights.len()
    }

    /// Width of the widest page, 0 for a document without pages.
    pub fn max_width(&self) -> (w: u32)
        ensures
            w == self@.max_width,
    {
        self.max_width
    }

    /// The margin below every page.
    pub fn margin_bottom(&self) -> (m: u32)
        ensures
            m == self@.margin_bottom,
    {
        self.margin_bottom
    }

    /// Height of the whole document.
    pub fn total_height(&self) -> (h: i64)
        ensures
            h == self@.total_height(),
    {
        let n = self.cumulative_heights.len();
        if n == 0 {
            0
        } else {
            self.cumulative_heights[n - 1]
        }
    }

    /// Cumulative height of the pages before `page`: where `page` begins.
    pub fn page_top(&self, page: usize) -> (top: i64)
        requires
            page <= self@.pages(),
        ensures
            top == page_top_of(self@.cumulative_heights, page as int),
    {
        if page == 0 {
            0
        } else {
            self.cumulative_heights[page - 1]
        }
    }

    /// Height of `page`, its bottom margin included.
    pub fn page_height(&self, page: usize) -> (height: Result<i64, PageError>)
        requires
            self@.valid(),
        ensures
            page < self@.pages() ==> height == Ok::<i64, PageError>(
                page_height_of(self@.cumulative_heights, page as int) as i64,
            ),
            page < self@.pages() ==> 0 <= page_height_of(self@.cumulative_heights, page as int)
                <= MAX_EXTENT,
            page >= self@.pages() ==> height == Err::<i64, PageError>(
                PageError::OutOfRange { page, pages: self@.pages() as usize },
            ),
    {
        let n = self.cumulative_heights.len();
        if page >= n {
            return Err(PageError::OutOfRange { page, pages: n });
        }
        if page == 0 {
            Ok(self.cumulative_heights[0])
        } else {
            Ok(self.cumulative_heights[page] - self.cumulative_heights[page - 1])
        }
    }

    /// Width of `page`.
    pub fn page_width(&self, page: usize) -> (width: Result<u32, PageError>)
        ensures
            page < self@.widths.len() ==> width == Ok::<u32, PageError>(self@.widths[page as int]),
            page >= self@.widths.len() ==> width == Err::<u32, PageError>(
                PageError::OutOfRange { page, pages: self@.widths.len() as usize },
            ),
    {
        let n = self.widths.len();
        if page >= n {
            return Err(PageError::OutOfRange { page, pages: n });
        }
        Ok(self.widths[page])
    }

    /// The links of `page`.
    pub fn page_links(&self, page: usize) -> (links: &Vec<Link>)
        requires
            self@.valid(),
            page < self@.pages(),
        ensures
            links@ == self@.links[page as int],
    {
        &self.links[page]
    }

    /// The page on which the vertical offset `offset` falls, found by binary
    /// search; the number of pages when `offset` lies below the last one.
    pub fn offset_to_page(&self, offset: i64) -> (page: usize)
        requires
            self@.valid(),
        ensures
            page == offset_to_page(self@.cumulative_heights, offset as int),
            page <= self@.pages(),
    {
        let n = self.cumulative_heights.len();
        let mut lo: usize = 0;
        let mut hi: usize = n;
        while lo < hi
            invariant
                0 <= lo <= hi <= n,
                n == self.cumulative_heights.len(),
                self@.valid(),
                forall|i: int| 0 <= i < lo ==> #[trigger] self.cumulative_heights@[i] < offset,
                forall|i: int| hi <= i < n ==> #[trigger] self.cumulative_heights@[i] >= offset,
            decreases hi - lo,
        {
            let mid = lo + (hi - lo) / 2;
            if self.cumulative_heights[mid] < offset {
                assert forall|i: int| 0 <= i < mid + 1 implies #[trigger] self.cumulative_heights@[i]
                    < offset by {
                    assert(self@.cumulative_heights[i] <= self@.cumulative_heights[mid as int]);
                }
                lo = mid + 1;
            } else {
                assert forall|i: int| mid <= i < n implies #[trigger] self.cumulative_heights@[i]
                    >= offset by {
                    assert(self@.cumulative_heights[mid as int] <= self@.cumulative_heights[i]);
                }
                hi = mid;
            }
        }
        proof {
            lemma_offset_to_page_splits(self@.cumulative_heights, offset as int, lo as int);
        }
        lo
    }
}

/// Where page `p` begins: the cumulative height of the page before it, 0 for
/// the first page.
pub open spec fn page_top_of(cum: Seq<i64>, p: int) -> int {
    if p <= 0 {
        0
    } else {
        cum[p - 1] as int
    }
}

/// Cumulative heights never decrease from one page to a later one.
pub proof fn lemma_cumulative_grows(heights: Seq<u32>, margin: int, a: int, b: int)
    requires
        -1 <= a <= b,
        0 <= margin,
    ensures
        0 <= cumulative_height(heights, margin, a) <= cumulative_height(heights, margin, b),
    decreases b + 1,
{
    if a < b {
        lemma_cumulative_grows(heights, margin, a, b - 1);
    } else if a >= 0 {
        lemma_cumulative_grows(heights, margin, a - 1, a - 1);
    }
}

} // verus!
