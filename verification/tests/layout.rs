use meowpdf::document::{Link, LinkRect, PageError, PageMetadata, MAX_EXTENT};
use meowpdf::geometry::{rect_point_intersect, DisplayRect};
use meowpdf::viewer::{pixels, saturating_sum, TerminalSize, Viewer, ViewerConfig};

fn config() -> ViewerConfig {
    ViewerConfig { scale_min: 200, pages_preloaded: 3, memory_limit: 1000, image_padding: 32 }
}

fn terminal() -> TerminalSize {
    TerminalSize { width: 1224, height: 800, columns: 153, rows: 40 }
}

fn no_links(n: usize) -> Vec<Vec<Link>> {
    (0..n).map(|_| Vec::new()).collect()
}

/// Three pages whose cumulative heights are 100, 250 and 400 points.
fn small_document() -> PageMetadata {
    PageMetadata::from_pages(
        vec![612_000, 612_000, 612_000],
        vec![90_000, 140_000, 140_000],
        no_links(3),
        10_000,
    )
    .unwrap()
}

/// Three letter pages, 612 by 792 points, margin included.
fn letter_document() -> PageMetadata {
    PageMetadata::from_pages(
        vec![612_000, 612_000, 612_000],
        vec![782_000, 782_000, 782_000],
        no_links(3),
        10_000,
    )
    .unwrap()
}

#[test]
fn offset_to_page_binary_search() {
    let doc = small_document();
    assert_eq!(doc.offset_to_page(0), 0);
    assert_eq!(doc.offset_to_page(100_000), 0);
    assert_eq!(doc.offset_to_page(101_000), 1);
    assert_eq!(doc.offset_to_page(399_000), 2);
    assert_eq!(doc.offset_to_page(1_000_000), 3);
    assert_eq!(doc.offset_to_page(-5), 0);
}

#[test]
fn offset_to_page_of_empty_document() {
    let doc = PageMetadata::empty(10_000);
    assert_eq!(doc.offset_to_page(0), 0);
    assert_eq!(doc.offset_to_page(i64::MAX), 0);
    assert_eq!(doc.pages(), 0);
    assert_eq!(doc.total_height(), 0);
}

#[test]
fn page_heights_are_differences_and_sum_to_the_last() {
    let doc = small_document();
    assert_eq!(doc.page_height(0), Ok(100_000));
    assert_eq!(doc.page_height(1), Ok(150_000));
    assert_eq!(doc.page_height(2), Ok(150_000));
    let sum: i64 = (0..3).map(|p| doc.page_height(p).unwrap()).sum();
    assert_eq!(sum, doc.total_height());
    assert_eq!(doc.total_height(), 400_000);
    assert_eq!(doc.page_top(0), 0);
    assert_eq!(doc.page_top(2), 250_000);
    assert_eq!(doc.max_width(), 612_000);
    assert_eq!(doc.margin_bottom(), 10_000);
}

#[test]
fn page_lookups_report_a_missing_page() {
    let doc = small_document();
    assert_eq!(doc.page_height(3), Err(PageError::OutOfRange { page: 3, pages: 3 }));
    assert_eq!(doc.page_width(7), Err(PageError::OutOfRange { page: 7, pages: 3 }));
    assert_eq!(doc.page_width(1), Ok(612_000));
}

#[test]
fn from_pages_refuses_lists_of_different_length() {
    assert!(PageMetadata::from_pages(vec![1, 2], vec![1], no_links(1), 0).is_none());
    assert!(PageMetadata::from_pages(vec![1], vec![1], no_links(2), 0).is_none());
}

#[test]
fn from_pages_refuses_a_document_beyond_the_limit() {
    let n = (MAX_EXTENT / (u32::MAX as i64)) as usize;
    assert_eq!(n, 256);
    assert!(PageMetadata::from_pages(vec![1; n], vec![u32::MAX; n], no_links(n), 0).is_some());
    let n = n + 1;
    assert!(PageMetadata::from_pages(vec![1; n], vec![u32::MAX; n], no_links(n), 0).is_none());
}

#[test]
fn widest_page_is_found() {
    let doc = PageMetadata::from_pages(vec![5, 900, 30], vec![1, 1, 1], no_links(3), 0).unwrap();
    assert_eq!(doc.max_width(), 900);
}

#[test]
fn fit_to_width_at_load() {
    let mut viewer = Viewer::new(config(), terminal());
    assert!(viewer.is_uninit());
    viewer.apply_metadata(letter_document());
    assert_eq!(viewer.get_scale(), 2000);
    assert_eq!(viewer.offset().0, 0);
    assert_eq!(viewer.page_first(), 0);
    assert!(!viewer.is_uninit());
    assert_eq!(viewer.pages(), 3);
}

#[test]
fn second_load_keeps_the_scale() {
    let mut viewer = Viewer::new(config(), terminal());
    viewer.apply_metadata(letter_document());
    viewer.scale(500);
    assert_eq!(viewer.get_scale(), 2500);
    viewer.apply_metadata(small_document());
    assert_eq!(viewer.get_scale(), 2500);
    // centred: 1224/2 px minus half of 612 pt at scale 2.5
    assert_eq!(viewer.offset().0, 612_000 - 765_000);
}

#[test]
fn bound_clamps_offsets_and_pages() {
    let mut viewer = Viewer::new(config(), terminal());
    viewer.apply_metadata(letter_document());
    viewer.scroll((5_000_000, 50_000_000));
    // the document is as wide as the window: no room to either side
    assert_eq!(viewer.offset().0, 0);
    // total 2376 pt, window 800 px at scale 2 = 400 pt
    assert_eq!(viewer.offset().1, 2_376_000 - 400_000);
    assert_eq!(viewer.page_first(), 2);
    assert_eq!(viewer.page_view(), 2);
    viewer.scroll((-5_000_000, -50_000_000));
    assert_eq!(viewer.offset(), (0, -10_000));
    assert_eq!(viewer.page_first(), 0);
    assert_eq!(viewer.page_view(), 0);
}

#[test]
fn bound_is_idempotent() {
    let mut viewer = Viewer::new(config(), terminal());
    viewer.apply_metadata(letter_document());
    viewer.scroll((123, 456_789));
    let before = (viewer.offset(), viewer.get_scale(), viewer.page_first(), viewer.page_view());
    viewer.bound_viewer();
    let after = (viewer.offset(), viewer.get_scale(), viewer.page_first(), viewer.page_view());
    assert_eq!(before, after);
}

#[test]
fn narrow_document_moves_within_the_slack() {
    let mut viewer = Viewer::new(config(), terminal());
    viewer.apply_metadata(letter_document());
    viewer.scale(-1000);
    assert_eq!(viewer.get_scale(), 1000);
    // 612 px wide in a window of 1224 px: x may lie in 0..=612 px
    viewer.scroll((10_000_000, 0));
    assert_eq!(viewer.offset().0, 612_000);
    viewer.scroll((-10_000_000, 0));
    assert_eq!(viewer.offset().0, 0);
    viewer.center_viewer();
    assert_eq!(viewer.offset().0, 306_000);
}

#[test]
fn zoom_stops_at_the_minimal_scale() {
    let mut viewer = Viewer::new(config(), terminal());
    viewer.apply_metadata(letter_document());
    viewer.scale(-1_000_000);
    assert_eq!(viewer.get_scale(), 200);
    viewer.scale(i64::MAX);
    assert_eq!(viewer.get_scale(), u32::MAX);
}

#[test]
fn jump_to_first_page_reads_back() {
    let mut viewer = Viewer::new(config(), terminal());
    viewer.apply_metadata(letter_document());
    viewer.scroll((0, 1_000_000));
    assert_eq!(viewer.jump(0), Ok(()));
    assert_eq!(viewer.page_first(), 0);
    assert_eq!(viewer.offset().1, 0);
}

#[test]
fn jump_puts_the_top_at_the_start_of_the_page() {
    let mut viewer = Viewer::new(config(), terminal());
    viewer.apply_metadata(letter_document());
    assert_eq!(viewer.jump(1), Ok(()));
    assert_eq!(viewer.offset().1, 792_000);
    // the offset is the upper bound of page 0, which the search assigns to it
    assert_eq!(viewer.page_first(), 0);
    assert_eq!(viewer.current_page(), 1);
}

#[test]
fn jump_beyond_the_document_fails_and_goes_to_the_last_page() {
    let mut viewer = Viewer::new(config(), terminal());
    viewer.apply_metadata(letter_document());
    assert_eq!(viewer.jump(9), Err(PageError::OutOfRange { page: 9, pages: 3 }));
    assert_eq!(viewer.offset().1, 1_584_000);
}

#[test]
fn jump_in_an_empty_document_fails() {
    let mut viewer = Viewer::new(config(), terminal());
    assert_eq!(viewer.jump(0), Err(PageError::OutOfRange { page: 0, pages: 0 }));
    assert_eq!(viewer.page_first(), 0);
}

#[test]
fn display_bounds_of_the_first_page() {
    let mut viewer = Viewer::new(config(), terminal());
    viewer.apply_metadata(letter_document());
    let bounds = viewer.calculate_display_bounds();
    assert_eq!(bounds, vec![(0, DisplayRect { x: 0, y: 0, width: 1224, height: 1564 })]);
}

#[test]
fn display_bounds_after_scrolling() {
    let mut viewer = Viewer::new(config(), terminal());
    viewer.apply_metadata(letter_document());
    viewer.scroll((0, 500_000));
    let bounds = viewer.calculate_display_bounds();
    assert_eq!(
        bounds,
        vec![
            (0, DisplayRect { x: 0, y: -1000, width: 1224, height: 1564 }),
            (1, DisplayRect { x: 0, y: 584, width: 1224, height: 1564 }),
        ]
    );
}

#[test]
fn display_bounds_of_an_empty_document() {
    let viewer = Viewer::new(config(), terminal());
    assert!(viewer.calculate_display_bounds().is_empty());
}

#[test]
fn pixels_round_toward_zero_and_saturate() {
    assert_eq!(pixels(1_999_999, 1_000_000), 1);
    assert_eq!(pixels(-1_999_999, 1_000_000), -1);
    assert_eq!(pixels(-999, 1000), 0);
    assert_eq!(pixels(i128::MAX, 1), i32::MAX);
    assert_eq!(pixels(i128::MIN, 1), i32::MIN);
}

#[test]
fn saturating_sum_stays_within_64_bits() {
    assert_eq!(saturating_sum(i64::MAX, 1), i64::MAX);
    assert_eq!(saturating_sum(i64::MIN, -1), i64::MIN);
    assert_eq!(saturating_sum(-3, 5), 2);
}

#[test]
fn rect_point_intersect_counts_both_edges() {
    let rect = DisplayRect { x: 10, y: 20, width: 5, height: 5 };
    assert!(rect_point_intersect(&rect, &(10, 20)));
    assert!(rect_point_intersect(&rect, &(15, 25)));
    assert!(!rect_point_intersect(&rect, &(16, 25)));
    assert!(!rect_point_intersect(&rect, &(9, 20)));
    let wide = DisplayRect { x: i32::MAX, y: 0, width: i32::MAX, height: 0 };
    assert!(rect_point_intersect(&wide, &(i32::MAX, 0)));
}

#[test]
fn link_under_the_pointer_is_found() {
    let links = vec![
        vec![
            Link {
                bounds: LinkRect { x: 100, y: 100, width: 50, height: 10 },
                page: 2,
                uri: "#2".to_string(),
            },
            Link {
                bounds: LinkRect { x: 100, y: 100, width: 500, height: 500 },
                page: 0,
                uri: "https://example.org".to_string(),
            },
        ],
        Vec::new(),
        Vec::new(),
    ];
    let doc = PageMetadata::from_pages(
        vec![612_000, 612_000, 612_000],
        vec![782_000, 782_000, 782_000],
        links,
        10_000,
    )
    .unwrap();
    let mut viewer = Viewer::new(config(), terminal());
    viewer.apply_metadata(doc);
    // scale 2: pixel (220, 210) is point (110, 105)
    let hit = viewer.intersect_link(&(220, 210)).unwrap();
    assert_eq!(hit.uri, "#2");
    assert_eq!(hit.page, 2);
    // pixel (220, 400) is point (110, 200): only the second link covers it
    let hit = viewer.intersect_link(&(220, 400)).unwrap();
    assert_eq!(hit.uri, "https://example.org");
    assert!(viewer.intersect_link(&(10, 10)).is_none());
    assert!(viewer.intersect_link(&(2000, 10)).is_none());
}

#[test]
fn resize_is_taken_over() {
    let mut viewer = Viewer::new(config(), terminal());
    viewer.apply_metadata(letter_document());
    viewer.resize(TerminalSize { width: 612, height: 400, columns: 80, rows: 20 });
    assert_eq!(viewer.terminal().width, 612);
    viewer.bound_viewer();
    // the document is twice as wide as the window now
    viewer.scroll((-10_000_000, 0));
    assert_eq!(viewer.offset().0, -612_000);
}
