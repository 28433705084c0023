//! What the event loop decides: what a key does, when a repeated request is
//! dropped, and which images go to the terminal again.

use crate::commands::PointerShape;
use crate::config::ConfigAction;
use crate::document::Link;
use crate::input::MouseEventType;
use crate::renderer::RendererAction;
use crate::viewer::clamp;
use crate::viewer::Viewer;
use crate::viewer::ViewerView;
use vstd::prelude::*;

verus! {

/// Milliseconds that have to pass between two accepted switches of alpha or
/// inversion.
pub const TOGGLE_INTERVAL: u64 = 500;

/// Milliseconds that have to pass between two reloads caused by a change of
/// the file.
pub const RELOAD_INTERVAL: u64 = 1000;

/// When each throttled request was last accepted, in milliseconds of a
/// clock that never runs backwards.
#[derive(Clone, Copy, Debug, PartialEq, Eq, Structural)]
pub struct LastExecuted {
    pub load: u64,
    pub alpha: u64,
    pub inverse: u64,
}

/// The settings that keys go by, in thousandths.
#[derive(Clone, Copy, Debug, PartialEq, Eq, Structural)]
pub struct KeyConfig {
    pub scroll_speed: i64,
    pub scale_amount: i64,
    pub inverse_scroll: bool,
}

/// What the event loop has to do after a key.
#[derive(Clone, Copy, Debug, PartialEq, Eq, Structural)]
pub struct KeyOutcome {
    /// Whether the program ends.
    pub quit: bool,
    /// The control action to send to the renderer and have confirmed.
    pub send: Option<RendererAction>,
}

/// Milliseconds from `last` to `now`, 0 when `now` is the earlier.
pub open spec fn elapsed(now: u64, last: u64) -> int {
    if now >= last {
        now - last
    } else {
        0
    }
}

/// `-v`, kept within 64 bits.
pub open spec fn negated(v: int) -> int {
    clamp(-v, i64::MIN as int, i64::MAX as int)
}

/// What `action` does to the viewer.
pub open spec fn viewer_after_key(
    v: ViewerView,
    keys: KeyConfig,
    action: ConfigAction,
    now: u64,
    last: LastExecuted,
) -> ViewerView {
    match action {
        ConfigAction::MoveUp => v.scrolled(
            0,
            if keys.inverse_scroll {
                keys.scroll_speed as int
            } else {
                negated(keys.scroll_speed as int)
            },
        ),
        ConfigAction::MoveDown => v.scrolled(
            0,
            if keys.inverse_scroll {
                negated(keys.scroll_speed as int)
            } else {
                keys.scroll_speed as int
            },
        ),
        ConfigAction::MoveLeft => v.scrolled(negated(keys.scroll_speed as int), 0),
        ConfigAction::MoveRight => v.scrolled(keys.scroll_speed as int, 0),
        ConfigAction::CenterViewer => v.centered(),
        ConfigAction::JumpFirstPage => v.jumped(0),
        ConfigAction::JumpLastPage => v.jumped(v.last_page()),
        ConfigAction::PrevPage => v.jumped(
            if v.current_page() == 0 {
                0
            } else {
                v.current_page() - 1
            },
        ),
        ConfigAction::NextPage => v.jumped(v.current_page() + 1),
        ConfigAction::ZoomIn => v.zoomed(keys.scale_amount as int),
        ConfigAction::ZoomOut => v.zoomed(negated(keys.scale_amount as int)),
        ConfigAction::ToggleAlpha => if elapsed(now, last.alpha) >= TOGGLE_INTERVAL {
            ViewerView { registry: v.registry.all_invalidated(), ..v }
        } else {
            v
        },
        ConfigAction::ToggleInverse => if elapsed(now, last.inverse) >= TOGGLE_INTERVAL {
            ViewerView { registry: v.registry.all_invalidated(), ..v }
        } else {
            v
        },
        ConfigAction::Quit => v,
    }
}

/// What `action` does to the record of accepted requests.
pub open spec fn throttle_after_key(action: ConfigAction, now: u64, last: LastExecuted) -> LastExecuted {
    match action {
        ConfigAction::ToggleAlpha => if elapsed(now, last.alpha) >= TOGGLE_INTERVAL {
            LastExecuted { alpha: now, ..last }
        } else {
            last
        },
        ConfigAction::ToggleInverse => if elapsed(now, last.inverse) >= TOGGLE_INTERVAL {
            LastExecuted { inverse: now, ..last }
        } else {
            last
        },
        _ => last,
    }
}

/// What the event loop has to do after `action`.
pub open spec fn outcome_of_key(action: ConfigAction, now: u64, last: LastExecuted) -> KeyOutcome {
    match action {
        ConfigAction::Quit => KeyOutcome { quit: true, send: None },
        ConfigAction::ToggleAlpha => KeyOutcome {
            quit: false,
            send: if elapsed(now, last.alpha) >= TOGGLE_INTERVAL {
                Some(RendererAction::ToggleAlpha)
            } else {
                None
            },
        },
        ConfigAction::ToggleInverse => KeyOutcome {
            quit: false,
            send: if elapsed(now, last.inverse) >= TOGGLE_INTERVAL {
                Some(RendererAction::ToggleInverse)
            } else {
                None
            },
        },
        _ => KeyOutcome { quit: false, send: None },
    }
}

impl LastExecuted {
    /// A record that dates every request half a second before `now`, or at
    /// 0 where the clock has not run that long: a switch is accepted at once,
    /// a reload after another half second.
    pub fn new(now: u64) -> (last: LastExecuted)
        ensures
            last.load == if now >= TOGGLE_INTERVAL {
                (now - TOGGLE_INTERVAL) as u64
            } else {
                0u64
            },
            last.alpha == last.load,
            last.inverse == last.load,
    {
        let start = if now >= TOGGLE_INTERVAL {
            now - TOGGLE_INTERVAL
        } else {
            0
        };
        LastExecuted { load: start, alpha: start, inverse: start }
    }

    /// Whether a change of the file leads to a reload at `now`: only when a
    /// second has passed since the last one. An accepted reload is recorded.
    pub fn accept_reload(&mut self, now: u64) -> (accepted: bool)
        ensures
            accepted == (elapsed(now, old(self).load) >= RELOAD_INTERVAL),
            accepted ==> *final(self) == (LastExecuted { load: now, ..*old(self) }),
            !accepted ==> *final(self) == *old(self),
    {
        if since(now, self.load) >= RELOAD_INTERVAL {
            self.load = now;
            true
        } else {
            false
        }
    }
}

/// Milliseconds from `last` to `now`, 0 when `now` is the earlier.
pub fn since(now: u64, last: u64) -> (ms: u64)
    ensures
        ms == elapsed(now, last),
{
    if now >= last {
        now - last
    } else {
        0
    }
}

/// `-v`, kept within 64 bits.
fn negate(v: i64) -> (r: i64)
    ensures
        r == negated(v as int),
{
    if v == i64::MIN {
        i64::MAX
    } else {
        -v
    }
}

/// Carries out the action a key is bound to. Scrolling, zooming and jumping
/// change the viewer at once. A switch of alpha or inversion is dropped
/// within half a second of the last accepted one; an accepted one makes
/// every image stale and has to be sent to the renderer.
pub fn handle_key(
    action: ConfigAction,
    keys: KeyConfig,
    viewer: &mut Viewer,
    now: u64,
    throttle: &mut LastExecuted,
) -> (outcome: KeyOutcome)
    requires
        old(viewer)@.valid(),
    ensures
        final(viewer)@.valid(),
        final(viewer)@ == viewer_after_key(old(viewer)@, keys, action, now, *old(throttle)),
        *final(throttle) == throttle_after_key(action, now, *old(throttle)),
        outcome == outcome_of_key(action, now, *old(throttle)),
{
    let speed = keys.scroll_speed;
    match action {
        ConfigAction::MoveUp => {
            viewer.scroll((0, if keys.inverse_scroll { speed } else { negate(speed) }));
            KeyOutcome { quit: false, send: None }
        },
        ConfigAction::MoveDown => {
            viewer.scroll((0, if keys.inverse_scroll { negate(speed) } else { speed }));
            KeyOutcome { quit: false, send: None }
        },
        ConfigAction::MoveLeft => {
            viewer.scroll((negate(speed), 0));
            KeyOutcome { quit: false, send: None }
        },
        ConfigAction::MoveRight => {
            viewer.scroll((speed, 0));
            KeyOutcome { quit: false, send: None }
        },
        ConfigAction::CenterViewer => {
            viewer.center_viewer();
            KeyOutcome { quit: false, send: None }
        },
        ConfigAction::JumpFirstPage => {
            let _ = viewer.jump(0);
            KeyOutcome { quit: false, send: None }
        },
        ConfigAction::JumpLastPage => {
            let pages = viewer.pages();
            let last = if pages == 0 { 0 } else { pages - 1 };
            let _ = viewer.jump(last);
            KeyOutcome { quit: false, send: None }
        },
        ConfigAction::PrevPage => {
            let current = viewer.current_page();
            let _ = viewer.jump(if current == 0 { 0 } else { current - 1 });
            KeyOutcome { quit: false, send: None }
        },
        ConfigAction::NextPage => {
            let current = viewer.current_page();
            let pages = viewer.pages();
            assert(current <= pages);
            if current < usize::MAX {
                let _ = viewer.jump(current + 1);
            } else {
                let _ = viewer.jump(current);
                assert(viewer@ == old(viewer)@.jumped(current + 1));
            }
            KeyOutcome { quit: false, send: None }
        },
        ConfigAction::Quit => KeyOutcome { quit: true, send: None },
        ConfigAction::ToggleAlpha => {
            if since(now, throttle.alpha) < TOGGLE_INTERVAL {
                return KeyOutcome { quit: false, send: None };
            }
            throttle.alpha = now;
            viewer.invalidate_registry();
            KeyOutcome { quit: false, send: Some(RendererAction::ToggleAlpha) }
        },
        ConfigAction::ToggleInverse => {
            if since(now, throttle.inverse) < TOGGLE_INTERVAL {
                return KeyOutcome { quit: false, send: None };
            }
            throttle.inverse = now;
            viewer.invalidate_registry();
            KeyOutcome { quit: false, send: Some(RendererAction::ToggleInverse) }
        },
        ConfigAction::ZoomIn => {
            viewer.scale(keys.scale_amount);
            KeyOutcome { quit: false, send: None }
        },
        ConfigAction::ZoomOut => {
            viewer.scale(negate(keys.scale_amount));
            KeyOutcome { quit: false, send: None }
        },
    }
}

/// The pages whose acknowledgement was a failure, in the order of
/// `displayed`. The acknowledgements are matched to the pages one by one; a
/// page without acknowledgement is not among them.
pub open spec fn failed_pages(displayed: Seq<usize>, acknowledged: Seq<bool>) -> Seq<usize>
    decreases displayed.len(),
{
    if displayed.len() == 0 {
        Seq::empty()
    } else if displayed.len() > acknowledged.len() || acknowledged[displayed.len() - 1] {
        failed_pages(displayed.drop_last(), acknowledged)
    } else {
        failed_pages(displayed.drop_last(), acknowledged).push(displayed.last())
    }
}

/// The pages whose images have to be handed over to the terminal again.
pub fn pages_to_retransfer(displayed: &Vec<usize>, acknowledged: &Vec<bool>) -> (pages: Vec<usize>)
    ensures
        pages@ == failed_pages(displayed@, acknowledged@),
{
    let mut pages: Vec<usize> = Vec::new();
    let mut i: usize = 0;
    while i < displayed.len()
        invariant
            0 <= i <= displayed.len(),
            pages@ == failed_pages(displayed@.take(i as int), acknowledged@),
        decreases displayed.len() - i,
    {
        proof {
            assert(displayed@.take(i + 1).drop_last() =~= displayed@.take(i as int));
            assert(displayed@.take(i + 1).last() == displayed@[i as int]);
        }
        if i < acknowledged.len() && !acknowledged[i] {
            pages.push(displayed[i]);
        }
        i = i + 1;
    }
    proof {
        assert(displayed@.take(displayed@.len() as int) =~= displayed@);
    }
    pages
}

/// Where an event of the loop comes from, in the order in which the
/// sources are served when several are ready.
#[derive(Clone, Copy, Debug, PartialEq, Eq, Structural)]
pub enum EventSource {
    /// The renderer measured a document.
    Metadata,
    /// The renderer rendered a page.
    Image,
    /// The file of the document changed.
    FileChanged,
    /// The loop woke itself to draw again.
    Rerender,
    /// A key was pressed.
    Key,
    /// The mouse moved or clicked.
    Mouse,
    /// The window changed its size.
    Resize,
}

/// The source with the given rank, the most urgent being 0.
pub fn event_source(rank: usize) -> (source: Option<EventSource>)
    ensures
        source == match rank {
            0 => Some(EventSource::Metadata),
            1 => Some(EventSource::Image),
            2 => Some(EventSource::FileChanged),
            3 => Some(EventSource::Rerender),
            4 => Some(EventSource::Key),
            5 => Some(EventSource::Mouse),
            6 => Some(EventSource::Resize),
            _ => None,
        },
{
    match rank {
        0 => Some(EventSource::Metadata),
        1 => Some(EventSource::Image),
        2 => Some(EventSource::FileChanged),
        3 => Some(EventSource::Rerender),
        4 => Some(EventSource::Key),
        5 => Some(EventSource::Mouse),
        6 => Some(EventSource::Resize),
        _ => None,
    }
}

/// Where a click on a link leads.
#[derive(Clone, Copy, Debug, PartialEq, Eq, Structural)]
pub enum Follow {
    /// Nowhere: nothing was clicked.
    Stay,
    /// To a page of the document.
    Page(u32),
    /// To the address of the link, which is opened outside the viewer.
    Address,
}

/// What the pointer looks like and does.
#[derive(Clone, Copy, Debug, PartialEq, Eq, Structural)]
pub struct PointerOutcome {
    pub shape: PointerShape,
    pub follow: Follow,
}

/// Whether a mouse event is a press of a button.
pub open spec fn is_press(event: MouseEventType) -> bool {
    event is LCLICK || event is RCLICK
}

/// What the pointer looks like and does over `link`. Over no link it has
/// its default shape. Over a link it points, until a press follows the
/// link: to its page if the address of the link begins with `#`, to its
/// address otherwise.
pub open spec fn pointer_over(link: Option<Link>, event: MouseEventType) -> PointerOutcome {
    match link {
        None => PointerOutcome { shape: PointerShape::Default, follow: Follow::Stay },
        Some(l) => if !is_press(event) {
            PointerOutcome { shape: PointerShape::Pointer, follow: Follow::Stay }
        } else if vstd::utf8::encode_utf8(l.uri@).len() > 0 && vstd::utf8::encode_utf8(l.uri@)[0]
            == 35 {
            PointerOutcome { shape: PointerShape::Default, follow: Follow::Page(l.page) }
        } else {
            PointerOutcome { shape: PointerShape::Default, follow: Follow::Address }
        },
    }
}

/// Decides what the pointer looks like and does.
pub fn pointer_outcome(link: Option<&Link>, event: MouseEventType) -> (outcome: PointerOutcome)
    ensures
        link matches Some(l) ==> outcome == pointer_over(Some(*l), event),
        link is None ==> outcome == pointer_over(None, event),
{
    match link {
        None => PointerOutcome { shape: PointerShape::Default, follow: Follow::Stay },
        Some(l) => {
            let press = match event {
                MouseEventType::LCLICK => true,
                MouseEventType::RCLICK => true,
                _ => false,
            };
            if !press {
                return PointerOutcome { shape: PointerShape::Pointer, follow: Follow::Stay };
            }
            let address = l.uri.as_str().as_bytes();
            if address.len() > 0 && address[0] == 35 {
                PointerOutcome { shape: PointerShape::Default, follow: Follow::Page(l.page) }
            } else {
                PointerOutcome { shape: PointerShape::Default, follow: Follow::Address }
            }
        },
    }
}

} // verus!
