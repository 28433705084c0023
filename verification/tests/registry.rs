use meowpdf::image::Image;
use meowpdf::registry::ImageRegistry;
use meowpdf::renderer::{render_step, RenderFlags, RenderWork, RendererAction};
use meowpdf::viewer::{FrameStep, TerminalSize, Viewer, ViewerConfig};

fn image(id: usize, bytes: usize) -> Image {
    Image::from_parts(id, 10, 10, vec![0; bytes])
}

#[test]
fn new_registry_is_empty() {
    let registry = ImageRegistry::new(1000);
    assert_eq!(registry.len(), 0);
    assert_eq!(registry.memory_used(), 0);
    assert_eq!(registry.memory_limit(), 1000);
    assert!(registry.get(0).is_none());
    assert!(registry.needs_render(0));
}

#[test]
fn eviction_drops_the_oldest_pages() {
    let mut registry = ImageRegistry::new(1000);
    registry.insert(0, image(1, 400));
    registry.insert(1, image(2, 400));
    assert_eq!(registry.memory_used(), 800);
    registry.insert(2, image(3, 400));
    // 1200 bytes reach the limit: the oldest page leaves
    assert_eq!(registry.memory_used(), 800);
    assert!(!registry.contains(0));
    assert!(registry.contains(1) && registry.contains(2));
    registry.insert(3, image(4, 400));
    assert_eq!(registry.memory_used(), 800);
    assert!(!registry.contains(0) && !registry.contains(1));
    assert!(registry.contains(2) && registry.contains(3));
    assert_eq!(registry.len(), 2);
}

#[test]
fn memory_used_is_the_sum_of_the_held_sizes() {
    let mut registry = ImageRegistry::new(10_000);
    registry.insert(4, image(1, 100));
    registry.insert(9, image(2, 250));
    registry.insert(2, image(3, 7));
    assert_eq!(registry.memory_used(), 357);
    registry.remove(9);
    assert_eq!(registry.memory_used(), 107);
    registry.remove(9);
    assert_eq!(registry.memory_used(), 107);
    registry.insert(4, image(4, 1));
    assert_eq!(registry.memory_used(), 8);
    assert_eq!(registry.get(4).unwrap().id(), 4);
    assert_eq!(registry.len(), 2);
}

#[test]
fn an_image_that_alone_reaches_the_limit_is_not_kept() {
    let mut registry = ImageRegistry::new(1000);
    registry.insert(0, image(1, 400));
    registry.insert(1, image(2, 1000));
    assert_eq!(registry.len(), 0);
    assert_eq!(registry.memory_used(), 0);
}

#[test]
fn a_limit_of_zero_keeps_nothing() {
    let mut registry = ImageRegistry::new(0);
    registry.insert(0, image(1, 0));
    assert_eq!(registry.len(), 0);
    registry.insert(1, image(2, 5));
    assert_eq!(registry.len(), 0);
    assert_eq!(registry.memory_used(), 0);
}

#[test]
fn eviction_skips_pages_that_are_gone() {
    let mut registry = ImageRegistry::new(1000);
    registry.insert(0, image(1, 300));
    registry.insert(1, image(2, 300));
    registry.remove(0);
    registry.insert(2, image(3, 300));
    registry.insert(3, image(4, 300));
    // 900 bytes held, nothing to drop yet
    assert_eq!(registry.len(), 3);
    registry.insert(4, image(5, 300));
    // the entry of page 0 is skipped, page 1 leaves
    assert!(!registry.contains(1));
    assert_eq!(registry.memory_used(), 900);
}

#[test]
fn invalidation_preserves_visibility() {
    let mut registry = ImageRegistry::new(1000);
    registry.insert(5, image(1, 100));
    assert!(!registry.needs_render(5));
    registry.invalidate_all();
    assert_eq!(registry.len(), 1);
    assert!(registry.is_invalidated(5));
    assert_eq!(registry.get(5).unwrap().id(), 1);
    assert_eq!(registry.memory_used(), 100);
    assert!(registry.needs_render(5));
    registry.mark_scheduled(5);
    assert!(registry.is_scheduled(5));
    assert!(!registry.needs_render(5));
    registry.insert(5, image(2, 120));
    assert!(!registry.is_invalidated(5));
    assert!(!registry.is_scheduled(5));
    assert_eq!(registry.get(5).unwrap().id(), 2);
    assert_eq!(registry.memory_used(), 120);
    assert_eq!(registry.len(), 1);
}

#[test]
fn invalidate_all_keeps_every_image_and_forgets_requests() {
    let mut registry = ImageRegistry::new(10_000);
    registry.insert(1, image(1, 10));
    registry.insert(2, image(2, 10));
    registry.mark_scheduled(7);
    registry.invalidate_all();
    assert_eq!(registry.len(), 2);
    assert!(registry.is_invalidated(1) && registry.is_invalidated(2));
    assert!(!registry.is_invalidated(7));
    assert!(!registry.is_scheduled(7));
    registry.unmark_scheduled(7);
    assert!(registry.needs_render(7));
}

#[test]
fn document_shrink_frees_the_stale_page() {
    let mut viewer = Viewer::new(
        ViewerConfig { scale_min: 200, pages_preloaded: 1, memory_limit: 1000, image_padding: 4 },
        TerminalSize { width: 1000, height: 500, columns: 100, rows: 50 },
    );
    viewer.handle_image(5, Some(image(1, 300)));
    assert_eq!(viewer.registry().memory_used(), 300);
    let flags = RenderFlags { alpha: false, inverse: false };
    let step = render_step(flags, 2, RendererAction::Display(5));
    assert_eq!(step.work, RenderWork::Missing { page: 5 });
    assert!(!step.echo);
    viewer.handle_image(5, None);
    assert!(!viewer.registry().contains(5));
    assert_eq!(viewer.registry().memory_used(), 0);
    // a page that is not held can be dropped again
    viewer.handle_image(5, None);
    assert_eq!(viewer.registry().len(), 0);
}

#[test]
fn stale_page_is_requested_once_and_shown_until_replaced() {
    let mut viewer = Viewer::new(
        ViewerConfig { scale_min: 200, pages_preloaded: 0, memory_limit: 100_000, image_padding: 4 },
        TerminalSize { width: 1000, height: 500, columns: 100, rows: 50 },
    );
    let doc = meowpdf::document::PageMetadata::from_pages(
        vec![500_000],
        vec![490_000],
        vec![Vec::new()],
        10_000,
    )
    .unwrap();
    viewer.apply_metadata(doc);
    viewer.handle_image(0, Some(image(7, 400)));
    viewer.invalidate_registry();
    let steps = viewer.display_pages();
    assert_eq!(steps, vec![FrameStep::Render { page: 0 }]);
    assert!(viewer.registry().is_scheduled(0));
    let steps = viewer.display_pages();
    assert_eq!(steps.len(), 1);
    match steps[0] {
        FrameStep::Show { page, command } => {
            assert_eq!(page, 0);
            assert_eq!(command.id, 7);
        }
        FrameStep::Render { .. } => panic!("the stale page is not requested twice"),
    }
    viewer.handle_image(0, Some(image(8, 400)));
    assert!(!viewer.registry().is_invalidated(0));
    assert_eq!(viewer.registry().get(0).unwrap().id(), 8);
}
