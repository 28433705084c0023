use meowpdf::config::{validate, Binding, Config, ConfigAction, ConfigError, ConfigViewer, ConfigViewerUriHint};
use meowpdf::commands::PointerShape;
use meowpdf::control::{
    event_source, handle_key, pages_to_retransfer, pointer_outcome, since, EventSource, Follow,
    KeyConfig, KeyOutcome, LastExecuted, PointerOutcome,
};
use meowpdf::document::{Link, LinkRect};
use meowpdf::input::MouseEventType;
use meowpdf::document::PageMetadata;
use meowpdf::graphics::terminal_graphics_apc_success;
use meowpdf::image::Image;
use meowpdf::renderer::{
    confirm_action, first_ready, invert_pixels, render_step, send_action, send_and_confirm_action,
    RenderFlags, RenderStep, RenderWork, RendererAction, SendError,
};
use meowpdf::viewer::{displayed_pages, FrameStep, TerminalSize, Viewer, ViewerConfig};

fn viewer() -> Viewer {
    let mut viewer = Viewer::new(
        ViewerConfig { scale_min: 200, pages_preloaded: 1, memory_limit: 1 << 30, image_padding: 32 },
        TerminalSize { width: 1224, height: 800, columns: 153, rows: 40 },
    );
    let doc = PageMetadata::from_pages(
        vec![612_000; 6],
        vec![782_000; 6],
        (0..6).map(|_| Vec::new()).collect(),
        10_000,
    )
    .unwrap();
    viewer.apply_metadata(doc);
    viewer
}

fn keys() -> KeyConfig {
    KeyConfig { scroll_speed: 20_000, scale_amount: 500, inverse_scroll: false }
}

fn quiet() -> KeyOutcome {
    KeyOutcome { quit: false, send: None }
}

#[test]
fn ack_driven_retransfer() {
    let displayed = vec![3, 4, 5];
    let payloads: [&[u8]; 3] = [b"OK", b"ENOENT:missing", b"OK"];
    let acks: Vec<bool> = payloads.iter().map(|p| terminal_graphics_apc_success(p)).collect();
    assert_eq!(pages_to_retransfer(&displayed, &acks), vec![4]);
    assert_eq!(pages_to_retransfer(&displayed, &vec![true, true, true]), Vec::<usize>::new());
    assert_eq!(pages_to_retransfer(&displayed, &vec![false]), vec![3]);
    assert_eq!(pages_to_retransfer(&displayed, &vec![false, false, false, false]), vec![3, 4, 5]);
}

#[test]
fn retransfer_hands_out_the_held_image() {
    let mut viewer = viewer();
    viewer.handle_image(4, Some(Image::from_parts(11, 100, 50, vec![0; 16])));
    let (command, image) = viewer.schedule_transfer(4).unwrap();
    assert_eq!(command.id, 11);
    assert_eq!(command.width, 164);
    assert_eq!(command.height, 114);
    assert!(command.alpha);
    assert_eq!(image.size(), 16);
    assert!(viewer.schedule_transfer(3).is_none());
}

#[test]
fn frame_requests_missing_pages_and_their_fringe() {
    let mut viewer = viewer();
    // page 0 is on screen, page 1 is kept ready
    let steps = viewer.display_pages();
    assert_eq!(steps, vec![FrameStep::Render { page: 0 }, FrameStep::Render { page: 1 }]);
    assert_eq!(displayed_pages(&steps), Vec::<usize>::new());
    // both are awaited now: nothing is requested twice
    assert_eq!(viewer.display_pages(), Vec::new());
    viewer.unschedule(1);
    assert_eq!(viewer.display_pages(), vec![FrameStep::Render { page: 1 }]);
}

#[test]
fn frame_shows_held_pages_and_probes_the_fringe() {
    let mut viewer = viewer();
    viewer.scroll((0, 2_000_000));
    // 2000 pt down: page 2 begins at 1584 pt, page 3 at 2376 pt (752 px down)
    assert_eq!(viewer.page_first(), 2);
    let candidates: Vec<usize> = viewer.candidates().iter().map(|c| c.page).collect();
    assert_eq!(candidates, vec![1, 2, 3, 4]);
    viewer.handle_image(1, Some(Image::from_parts(21, 918, 1173, vec![0; 8])));
    viewer.handle_image(2, Some(Image::from_parts(22, 918, 1173, vec![0; 8])));
    let steps = viewer.display_pages();
    assert_eq!(steps.len(), 4);
    match steps[0] {
        FrameStep::Show { page, command } => {
            assert_eq!(page, 1);
            assert_eq!(command, Image::from_parts(21, 918, 1173, Vec::new()).check());
        }
        _ => panic!("page 1 is held and probed"),
    }
    match steps[1] {
        FrameStep::Show { page, command } => {
            assert_eq!(page, 2);
            assert_eq!(command.id, 22);
            assert_eq!(command.row, 1);
        }
        _ => panic!("page 2 is held and drawn"),
    }
    assert_eq!(steps[2], FrameStep::Render { page: 3 });
    assert_eq!(steps[3], FrameStep::Render { page: 4 });
    assert_eq!(displayed_pages(&steps), vec![1, 2]);
}

#[test]
fn keys_scroll_zoom_and_jump() {
    let mut viewer = viewer();
    let mut last = LastExecuted::new(10_000);
    assert_eq!(handle_key(ConfigAction::MoveDown, keys(), &mut viewer, 10_000, &mut last), quiet());
    assert_eq!(viewer.offset().1, 20_000);
    handle_key(ConfigAction::MoveUp, keys(), &mut viewer, 10_000, &mut last);
    assert_eq!(viewer.offset().1, 0);
    handle_key(ConfigAction::ZoomOut, keys(), &mut viewer, 10_000, &mut last);
    assert_eq!(viewer.get_scale(), 1500);
    handle_key(ConfigAction::MoveRight, keys(), &mut viewer, 10_000, &mut last);
    assert_eq!(viewer.offset().0, 20_000);
    handle_key(ConfigAction::MoveLeft, keys(), &mut viewer, 10_000, &mut last);
    assert_eq!(viewer.offset().0, 0);
    handle_key(ConfigAction::ZoomIn, keys(), &mut viewer, 10_000, &mut last);
    assert_eq!(viewer.get_scale(), 2000);
    handle_key(ConfigAction::JumpLastPage, keys(), &mut viewer, 10_000, &mut last);
    assert_eq!(viewer.offset().1, 5 * 792_000);
    handle_key(ConfigAction::JumpFirstPage, keys(), &mut viewer, 10_000, &mut last);
    assert_eq!(viewer.offset().1, 0);
    handle_key(ConfigAction::NextPage, keys(), &mut viewer, 10_000, &mut last);
    assert_eq!(viewer.offset().1, 792_000);
    handle_key(ConfigAction::NextPage, keys(), &mut viewer, 10_000, &mut last);
    assert_eq!(viewer.offset().1, 2 * 792_000);
    handle_key(ConfigAction::PrevPage, keys(), &mut viewer, 10_000, &mut last);
    assert_eq!(viewer.offset().1, 792_000);
    handle_key(ConfigAction::CenterViewer, keys(), &mut viewer, 10_000, &mut last);
    assert_eq!(viewer.offset().0, 0);
    assert_eq!(
        handle_key(ConfigAction::Quit, keys(), &mut viewer, 10_000, &mut last),
        KeyOutcome { quit: true, send: None }
    );
}

#[test]
fn inverse_scroll_turns_the_vertical_keys_round() {
    let mut viewer = viewer();
    let mut last = LastExecuted::new(0);
    let inverse = KeyConfig { inverse_scroll: true, ..keys() };
    handle_key(ConfigAction::MoveUp, inverse, &mut viewer, 0, &mut last);
    assert_eq!(viewer.offset().1, 20_000);
    handle_key(ConfigAction::MoveDown, inverse, &mut viewer, 0, &mut last);
    assert_eq!(viewer.offset().1, 0);
}

#[test]
fn toggles_are_throttled() {
    let mut viewer = viewer();
    viewer.handle_image(0, Some(Image::from_parts(1, 10, 10, vec![0; 4])));
    let mut last = LastExecuted::new(10_000);
    assert_eq!(last, LastExecuted { load: 9_500, alpha: 9_500, inverse: 9_500 });
    let sent = handle_key(ConfigAction::ToggleAlpha, keys(), &mut viewer, 10_000, &mut last);
    assert_eq!(sent, KeyOutcome { quit: false, send: Some(RendererAction::ToggleAlpha) });
    assert_eq!(last.alpha, 10_000);
    assert!(viewer.registry().is_invalidated(0));
    let dropped = handle_key(ConfigAction::ToggleAlpha, keys(), &mut viewer, 10_499, &mut last);
    assert_eq!(dropped, quiet());
    assert_eq!(last.alpha, 10_000);
    let sent = handle_key(ConfigAction::ToggleInverse, keys(), &mut viewer, 10_499, &mut last);
    assert_eq!(sent, KeyOutcome { quit: false, send: Some(RendererAction::ToggleInverse) });
    let sent = handle_key(ConfigAction::ToggleAlpha, keys(), &mut viewer, 10_500, &mut last);
    assert_eq!(sent.send, Some(RendererAction::ToggleAlpha));
    let dropped = handle_key(ConfigAction::ToggleInverse, keys(), &mut viewer, 3, &mut last);
    assert_eq!(dropped, quiet());
}

#[test]
fn reloads_are_throttled() {
    let mut last = LastExecuted::new(10_000);
    assert!(!last.accept_reload(10_400));
    assert!(last.accept_reload(10_500));
    assert_eq!(last.load, 10_500);
    assert!(!last.accept_reload(11_499));
    assert!(last.accept_reload(11_500));
    assert_eq!(since(5, 9), 0);
    assert_eq!(since(9, 5), 4);
    assert_eq!(LastExecuted::new(100).alpha, 0);
}

#[test]
fn worker_steps() {
    let flags = RenderFlags { alpha: false, inverse: true };
    assert_eq!(
        render_step(flags, 3, RendererAction::Load),
        RenderStep {
            flags,
            echo: true,
            drain_control: true,
            drain_requests: true,
            work: RenderWork::Reload
        }
    );
    let step = render_step(flags, 3, RendererAction::ToggleAlpha);
    assert_eq!(step.flags, RenderFlags { alpha: true, inverse: true });
    assert!(step.echo && step.drain_requests && !step.drain_control);
    assert_eq!(step.work, RenderWork::Idle);
    let step = render_step(flags, 3, RendererAction::ToggleInverse);
    assert_eq!(step.flags, RenderFlags { alpha: false, inverse: false });
    let step = render_step(flags, 3, RendererAction::Display(2));
    assert_eq!(step.work, RenderWork::Rasterize { page: 2, alpha: false, inverse: true });
    assert!(!step.echo && !step.drain_requests);
    let step = render_step(flags, 3, RendererAction::Display(3));
    assert_eq!(step.work, RenderWork::Missing { page: 3 });
}

#[test]
fn actions_go_to_their_queues() {
    assert_eq!(RendererAction::Load.priority(), 0);
    assert_eq!(RendererAction::ToggleAlpha.priority(), 0);
    assert_eq!(RendererAction::ToggleInverse.priority(), 0);
    assert_eq!(RendererAction::Display(4).priority(), 1);
    assert_eq!(send_action(RendererAction::Display(4)), Ok(1));
    assert_eq!(send_action(RendererAction::Load), Err(SendError::NeedsConfirmation));
    assert_eq!(send_and_confirm_action(RendererAction::Load), Ok(0));
    assert_eq!(send_and_confirm_action(RendererAction::Display(1)), Err(SendError::CannotConfirm));
    assert_eq!(confirm_action(RendererAction::Load, RendererAction::Load), Ok(()));
    assert_eq!(
        confirm_action(RendererAction::Load, RendererAction::ToggleAlpha),
        Err(SendError::Mismatch)
    );
    assert_eq!(
        confirm_action(RendererAction::Display(1), RendererAction::Display(2)),
        Err(SendError::Mismatch)
    );
}

#[test]
fn biased_selection_takes_the_lowest_ready_queue() {
    assert_eq!(first_ready(&[true, true]), Some(0));
    assert_eq!(first_ready(&[false, true]), Some(1));
    assert_eq!(first_ready(&[false, false]), None);
    assert_eq!(first_ready(&[]), None);
}

#[test]
fn inversion_leaves_alpha_alone() {
    let mut rgba = vec![0u8, 10, 255, 77, 1, 2, 3, 4];
    invert_pixels(&mut rgba, 4);
    assert_eq!(rgba, vec![255, 245, 0, 77, 254, 253, 252, 4]);
    let mut rgb = vec![0u8, 10, 255, 1, 2, 3];
    invert_pixels(&mut rgb, 3);
    assert_eq!(rgb, vec![255, 245, 0, 254, 253, 252]);
    let mut grey = vec![5u8, 6];
    invert_pixels(&mut grey, 1);
    assert_eq!(grey, vec![5, 6]);
    invert_pixels(&mut grey, 0);
    assert_eq!(grey, vec![5, 6]);
}

fn valid_config() -> Config {
    Config {
        viewer: ConfigViewer {
            scroll_speed: 20_000,
            render_precision: 1_500,
            memory_limit: 314_572_800,
            scale_min: 200,
            scale_amount: 500,
            margin_bottom: 10_000,
            pages_preloaded: 3,
            inverse_scroll: false,
            uri_hint: ConfigViewerUriHint {
                enabled: true,
                background: "blue".to_string(),
                foreground: "white".to_string(),
                width: 200,
            },
        },
        bindings: Some(vec![Binding { keys: "q".to_string(), action: ConfigAction::Quit }]),
    }
}

#[test]
fn configuration_is_checked() {
    assert_eq!(validate(&valid_config()), Ok(()));
    let mut config = valid_config();
    config.viewer.render_precision = 0;
    config.viewer.scale_min = 0;
    assert_eq!(validate(&config), Err(ConfigError::RenderPrecision));
    let mut config = valid_config();
    config.viewer.scale_min = -1;
    config.viewer.margin_bottom = -1;
    assert_eq!(validate(&config), Err(ConfigError::ScaleMin));
    let mut config = valid_config();
    config.viewer.margin_bottom = -1;
    config.bindings = None;
    assert_eq!(validate(&config), Err(ConfigError::MarginBottom));
    let mut config = valid_config();
    config.bindings = None;
    assert_eq!(validate(&config), Err(ConfigError::Bindings));
    let mut config = valid_config();
    config.viewer.margin_bottom = 0;
    assert_eq!(validate(&config), Ok(()));
}

#[test]
fn sources_are_ranked() {
    assert_eq!(event_source(0), Some(EventSource::Metadata));
    assert_eq!(event_source(1), Some(EventSource::Image));
    assert_eq!(event_source(2), Some(EventSource::FileChanged));
    assert_eq!(event_source(3), Some(EventSource::Rerender));
    assert_eq!(event_source(4), Some(EventSource::Key));
    assert_eq!(event_source(5), Some(EventSource::Mouse));
    assert_eq!(event_source(6), Some(EventSource::Resize));
    assert_eq!(event_source(7), None);
}

#[test]
fn pointer_follows_links_on_a_press() {
    let link = |uri: &str| Link {
        bounds: LinkRect { x: 0, y: 0, width: 1, height: 1 },
        page: 4,
        uri: uri.to_string(),
    };
    let inside = link("#section");
    let outside = link("https://example.org");
    assert_eq!(
        pointer_outcome(None, MouseEventType::LCLICK),
        PointerOutcome { shape: PointerShape::Default, follow: Follow::Stay }
    );
    assert_eq!(
        pointer_outcome(Some(&inside), MouseEventType::HOVER),
        PointerOutcome { shape: PointerShape::Pointer, follow: Follow::Stay }
    );
    assert_eq!(
        pointer_outcome(Some(&inside), MouseEventType::LRELEASE),
        PointerOutcome { shape: PointerShape::Pointer, follow: Follow::Stay }
    );
    assert_eq!(
        pointer_outcome(Some(&inside), MouseEventType::LCLICK),
        PointerOutcome { shape: PointerShape::Default, follow: Follow::Page(4) }
    );
    assert_eq!(
        pointer_outcome(Some(&outside), MouseEventType::RCLICK),
        PointerOutcome { shape: PointerShape::Default, follow: Follow::Address }
    );
    assert_eq!(
        pointer_outcome(Some(&link("")), MouseEventType::LCLICK).follow,
        Follow::Address
    );
}
