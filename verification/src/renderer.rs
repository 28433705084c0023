//! What the rendering worker decides, apart from rendering itself.
//!
//! The worker serves two queues. Control actions wait in queue 0 and are
//! served before the page requests of queue 1.

use vstd::prelude::*;

verus! {

/// What the worker can be asked to do.
#[derive(Copy, Clone, Debug, PartialEq, Eq, Structural)]
pub enum RendererAction {
    /// Open the document again and measure its pages.
    Load,
    /// Render a page.
    Display(usize),
    /// Switch the inversion of colours.
    ToggleInverse,
    /// Switch the alpha channel.
    ToggleAlpha,
}

/// Why an action was not sent.
#[derive(Copy, Clone, Debug, PartialEq, Eq, Structural)]
pub enum SendError {
    /// A control action has to be sent with confirmation.
    NeedsConfirmation,
    /// A page request cannot be confirmed.
    CannotConfirm,
    /// The worker confirmed another action than the one sent.
    Mismatch,
}

/// The two switches of the worker.
#[derive(Copy, Clone, Debug, PartialEq, Eq, Structural)]
pub struct RenderFlags {
    pub alpha: bool,
    pub inverse: bool,
}

/// What the worker renders next.
#[derive(Copy, Clone, Debug, PartialEq, Eq, Structural)]
pub enum RenderWork {
    /// Nothing.
    Idle,
    /// The document is opened again; its metadata go out on queue 0.
    Reload,
    /// The page is rendered with these switches; the image goes out on
    /// queue 1.
    Rasterize { page: usize, alpha: bool, inverse: bool },
    /// The document has no such page; a result without image goes out on
    /// queue 1, so that an image held for the page is dropped.
    Missing { page: usize },
}

/// What the worker does about one action.
#[derive(Copy, Clone, Debug, PartialEq, Eq, Structural)]
pub struct RenderStep {
    /// The switches after the action.
    pub flags: RenderFlags,
    /// Whether the action is echoed to the sender as accepted.
    pub echo: bool,
    /// Whether the control actions still waiting are dropped.
    pub drain_control: bool,
    /// Whether the page requests still waiting are dropped.
    pub drain_requests: bool,
    /// What is rendered.
    pub work: RenderWork,
}

impl RendererAction {
    /// Whether the action is a control action.
    pub open spec fn is_control(self) -> bool {
        !(self is Display)
    }

    /// The queue the action waits in: 0 for control actions, 1 for page
    /// requests.
    pub fn priority(&self) -> (queue: usize)
        ensures
            queue == if self.is_control() {
                0usize
            } else {
                1usize
            },
    {
        match self {
            RendererAction::Display(_) => 1,
            _ => 0,
        }
    }
}

/// What the worker does about `action` on a document of `pages` pages.
pub open spec fn step_of(flags: RenderFlags, pages: usize, action: RendererAction) -> RenderStep {
    match action {
        RendererAction::Load => RenderStep {
            flags,
            echo: true,
            drain_control: true,
            drain_requests: true,
            work: RenderWork::Reload,
        },
        RendererAction::ToggleAlpha => RenderStep {
            flags: RenderFlags { alpha: !flags.alpha, inverse: flags.inverse },
            echo: true,
            drain_control: false,
            drain_requests: true,
            work: RenderWork::Idle,
        },
        RendererAction::ToggleInverse => RenderStep {
            flags: RenderFlags { alpha: flags.alpha, inverse: !flags.inverse },
            echo: true,
            drain_control: false,
            drain_requests: true,
            work: RenderWork::Idle,
        },
        RendererAction::Display(page) => RenderStep {
            flags,
            echo: false,
            drain_control: false,
            drain_requests: false,
            work: if page < pages {
                RenderWork::Rasterize { page, alpha: flags.alpha, inverse: flags.inverse }
            } else {
                RenderWork::Missing { page }
            },
        },
    }
}

/// Decides what the worker does about `action`.
pub fn render_step(flags: RenderFlags, pages: usize, action: RendererAction) -> (step: RenderStep)
    ensures
        step == step_of(flags, pages, action),
{
    match action {
        RendererAction::Load => RenderStep {
            flags,
            echo: true,
            drain_control: true,
            drain_requests: true,
            work: RenderWork::Reload,
        },
        RendererAction::ToggleAlpha => RenderStep {
            flags: RenderFlags { alpha: !flags.alpha, inverse: flags.inverse },
            echo: true,
            drain_control: false,
            drain_requests: true,
            work: RenderWork::Idle,
        },
        RendererAction::ToggleInverse => RenderStep {
            flags: RenderFlags { alpha: flags.alpha, inverse: !flags.inverse },
            echo: true,
            drain_control: false,
            drain_requests: true,
            work: RenderWork::Idle,
        },
        RendererAction::Display(page) => {
            let work = if page < pages {
                RenderWork::Rasterize { page, alpha: flags.alpha, inverse: flags.inverse }
            } else {
                RenderWork::Missing { page }
            };
            RenderStep { flags, echo: false, drain_control: false, drain_requests: false, work }
        },
    }
}

/// The queue on which a page request is sent without confirmation; a
/// control action is refused.
pub fn send_action(action: RendererAction) -> (queue: Result<usize, SendError>)
    ensures
        action is Display ==> queue == Ok::<usize, SendError>(1),
        !(action is Display) ==> queue == Err::<usize, SendError>(SendError::NeedsConfirmation),
{
    match action {
        RendererAction::Display(_) => Ok(1),
        _ => Err(SendError::NeedsConfirmation),
    }
}

/// The queue on which a control action is sent before its confirmation is
/// awaited; a page request is refused.
pub fn send_and_confirm_action(action: RendererAction) -> (queue: Result<usize, SendError>)
    ensures
        !(action is Display) ==> queue == Ok::<usize, SendError>(0),
        action is Display ==> queue == Err::<usize, SendError>(SendError::CannotConfirm),
{
    match action {
        RendererAction::Display(_) => Err(SendError::CannotConfirm),
        _ => Ok(0),
    }
}

/// Whether the worker echoed the action that was sent.
pub fn confirm_action(sent: RendererAction, echoed: RendererAction) -> (res: Result<(), SendError>)
    ensures
        sent == echoed ==> res == Ok::<(), SendError>(()),
        sent != echoed ==> res == Err::<(), SendError>(SendError::Mismatch),
{
    if sent == echoed {
        Ok(())
    } else {
        Err(SendError::Mismatch)
    }
}

/// Index of the first queue that has something to hand out, the number of
/// queues when none has.
pub open spec fn first_ready_of(ready: Seq<bool>, from: int) -> int
    decreases ready.len() - from,
{
    if from < 0 || from >= ready.len() {
        ready.len() as int
    } else if ready[from] {
        from
    } else {
        first_ready_of(ready, from + 1)
    }
}

/// The queue a biased selection takes from: the lowest one that is ready.
pub fn first_ready(ready: &[bool]) -> (queue: Option<usize>)
    ensures
        queue matches Some(q) ==> q == first_ready_of(ready@, 0) && q < ready@.len() && ready@[q as int]
            && forall|i: int| 0 <= i < q ==> !ready@[i],
        queue is None ==> forall|i: int| 0 <= i < ready@.len() ==> !ready@[i],
{
    let mut i: usize = 0;
    while i < ready.len()
        invariant
            0 <= i <= ready@.len(),
            first_ready_of(ready@, 0) == first_ready_of(ready@, i as int),
            forall|k: int| 0 <= k < i ==> !ready@[k],
        decreases ready.len() - i,
    {
        if ready[i] {
            return Some(i);
        }
        i = i + 1;
    }
    None
}

/// `samples` with the colour channels of every pixel inverted: in each
/// group of `n` bytes the first three are replaced by their complement.
pub open spec fn inverted(samples: Seq<u8>, n: int) -> Seq<u8> {
    Seq::new(
        samples.len(),
        |i: int|
            if n >= 3 && i % n < 3 {
                (255 - samples[i]) as u8
            } else {
                samples[i]
            },
    )
}

/// Inverts the colours of pixels of `n` channels each, leaving a fourth
/// channel as it is. Pixels of fewer than three channels are left alone.
pub fn invert_pixels(samples: &mut Vec<u8>, n: usize)
    ensures
        final(samples)@ == inverted(old(samples)@, n as int),
{
    if n < 3 {
        assert(samples@ =~= inverted(samples@, n as int));
        return ;
    }
    let len = samples.len();
    let mut i: usize = 0;
    while i < len
        invariant
            0 <= i <= len,
            n >= 3,
            len == samples@.len(),
            len == old(samples)@.len(),
            forall|k: int| 0 <= k < i ==> #[trigger] samples@[k] == inverted(old(samples)@, n as int)[k],
            forall|k: int| i <= k < len ==> #[trigger] samples@[k] == old(samples)@[k],
        decreases len - i,
    {
        if i % n < 3 {
            let value = samples[i];
            samples.set(i, 255 - value);
        }
        i = i + 1;
    }
    assert(samples@ =~= inverted(old(samples)@, n as int));
}

} // verus!
