//! The fixed-timestep runtime: the shared per-frame context, the view state
//! machine with its three-way action protocol, and the frame-pacing clock
//! with FPS accounting.

use vstd::prelude::*;

use crate::events::EventState;
use crate::fonts::FontCache;
use crate::render::Frame;

verus! {

/// The target frame interval: one sixtieth of a second in whole
/// milliseconds, truncating.
pub const FRAME_INTERVAL_MS: u64 = 1000 / 60;

/// The shared per-frame context handed to the active view: the debounced
/// input sampler, the frame's draw-command buffer, and the font cache.
#[derive(Debug)]
pub struct Phi {
    pub events: EventState,
    pub frame: Frame,
    pub fonts: FontCache,
}

impl Phi {
    /// A context around the given sampler and frame buffer, with an empty
    /// font cache.
    pub fn new(events: EventState, frame: Frame) -> (p: Phi)
        ensures
            p.events == events,
            p.frame == frame,
            p.fonts.entries() == Seq::<crate::fonts::FontEntry>::empty(),
    {
        Phi { events, frame, fonts: FontCache::new() }
    }

    /// The output surface's dimensions in pixels.
    pub fn output_size(&self) -> (r: (i32, i32))
        ensures
            r.0 == self.frame.out_w(),
            r.1 == self.frame.out_h(),
    {
        self.frame.output_size()
    }
}

/// What a view asks of the runtime after one step: keep presenting this
/// view, replace it with a new one, or end the runtime.
#[derive(Debug)]
pub enum ViewAction<V> {
    Continue,
    ChangeView(V),
    Quit,
}

/// One interactive screen. Its single operation steps the view for one
/// frame: it reads the context's debounced input, mutates its own state,
/// records draw commands into the context's frame, and returns exactly one
/// action. `elapsed_ms` is the time since the previous frame ran.
pub trait View: Sized {
    fn render(&mut self, context: &mut Phi, elapsed_ms: u64) -> ViewAction<Self>;
}

/// What the frame-pacing clock asks of the embedding loop: sleep for `ms`
/// and retry without doing any work, or run a frame that covers
/// `elapsed_ms`, reporting the frame counter whenever a second has passed.
#[derive(Clone, Copy, Debug)]
pub enum Pace {
    Wait { ms: u64 },
    Run { elapsed_ms: u64, fps_report: Option<u32> },
}

/// The frame-pacing clock: the start time of the frame that last ran, the
/// time of the last FPS report, and the frames counted since.
#[derive(Clone, Copy, Debug)]
pub struct FrameTiming {
    pub before: u64,
    pub last_second: u64,
    pub fps: u32,
}

/// How one clock reading advances the pacing state. A reading within the
/// target interval of the last frame asks the loop to sleep out the
/// remainder and skips the frame entirely; a later reading runs a frame,
/// counts it, and rolls the counter into an FPS report once more than a
/// second has passed since the last report.
pub open spec fn spec_tick(t: FrameTiming, now: u64) -> (FrameTiming, Pace) {
    if now - t.before < FRAME_INTERVAL_MS {
        (t, Pace::Wait { ms: (FRAME_INTERVAL_MS - (now - t.before)) as u64 })
    } else if now - t.last_second > 1000 {
        (
            FrameTiming { before: now, last_second: now, fps: 0 },
            Pace::Run { elapsed_ms: (now - t.before) as u64, fps_report: Some((t.fps + 1) as u32) },
        )
    } else {
        (
            FrameTiming { before: now, last_second: t.last_second, fps: (t.fps + 1) as u32 },
            Pace::Run { elapsed_ms: (now - t.before) as u64, fps_report: None },
        )
    }
}

impl FrameTiming {
    /// Well-formedness: the last report does not postdate the last frame,
    /// no more than a second of counting has accumulated, and the counter
    /// matches the time it counted (so it can never overflow: frames are at
    /// least one interval apart).
    pub open spec fn wf(self) -> bool {
        &&& self.last_second <= self.before
        &&& self.before - self.last_second <= 1000
        &&& FRAME_INTERVAL_MS * self.fps <= self.before - self.last_second + FRAME_INTERVAL_MS
    }

    /// Pacing state for a runtime started at clock reading `now`.
    pub fn new(now: u64) -> (t: FrameTiming)
        ensures
            t.wf(),
            t.before == now,
            t.last_second == now,
            t.fps == 0,
    {
        FrameTiming { before: now, last_second: now, fps: 0 }
    }

    /// Advances the pacing state by one clock reading, exactly as
    /// [`spec_tick`] describes. The clock is monotonic, so readings never
    /// run backwards past the last frame start.
    pub fn tick(&mut self, now: u64) -> (p: Pace)
        requires
            old(self).wf(),
            now >= old(self).before,
        ensures
            final(self).wf(),
            (*final(self), p) == spec_tick(*old(self), now),
    {
        let dt: u64 = now - self.before;
        if dt < FRAME_INTERVAL_MS {
            return Pace::Wait { ms: FRAME_INTERVAL_MS - dt };
        }
        self.before = now;
        let counted: u32 = self.fps + 1;
        if now - self.last_second > 1000 {
            self.last_second = now;
            self.fps = 0;
            Pace::Run { elapsed_ms: dt, fps_report: Some(counted) }
        } else {
            self.fps = counted;
            Pace::Run { elapsed_ms: dt, fps_report: None }
        }
    }
}

/// What the runtime asks of the embedding loop after one frame: execute the
/// recorded draw commands and present them, proceed straight to the next
/// iteration (the view was just replaced, so nothing is presented), or end
/// the loop.
#[derive(Clone, Copy, Debug, PartialEq, Eq, Structural)]
pub enum FrameDirective {
    Present,
    Proceed,
    Quit,
}

/// The fixed-timestep driver: owns the active view and the pacing clock.
/// There is exactly one active view and no view history; replacing the view
/// destroys the old one before the next frame is stepped.
///
/// The embedding loop drives one iteration as: [`Runtime::pace`] with the
/// clock; on a go-ahead, poll the context's sampler over the pending events
/// (exactly once, so the view sees this frame's edges), step `view` with
/// the paced elapsed time, and hand the returned action to
/// [`Runtime::act`].
#[derive(Debug)]
pub struct Runtime<V> {
    pub timing: FrameTiming,
    pub view: V,
}

impl<V: View> Runtime<V> {
    /// Well-formedness of the pacing state.
    pub open spec fn wf(self) -> bool {
        self.timing.wf()
    }

    /// A runtime around an initial view, started at clock reading `now`.
    pub fn new(view: V, now: u64) -> (r: Runtime<V>)
        ensures
            r.wf(),
            r.view == view,
            r.timing == (FrameTiming { before: now, last_second: now, fps: 0 }),
    {
        Runtime { timing: FrameTiming::new(now), view }
    }

    /// Paces one loop iteration: either the remaining sleep before the next
    /// frame is due, or the go-ahead to run one. The active view is
    /// untouched.
    pub fn pace(&mut self, now: u64) -> (p: Pace)
        requires
            old(self).wf(),
            now >= old(self).timing.before,
        ensures
            final(self).wf(),
            final(self).view == old(self).view,
            (final(self).timing, p) == spec_tick(old(self).timing, now),
    {
        self.timing.tick(now)
    }

    /// Acts on the action the active view returned for one frame. A
    /// replacement view is installed before this call returns, so the next
    /// frame can only ever step the new view; continuing keeps the view and
    /// asks the loop to present; quitting keeps the view and ends the loop.
    /// The pacing state is untouched.
    pub fn act(&mut self, action: ViewAction<V>) -> (d: FrameDirective)
        ensures
            final(self).timing == old(self).timing,
            action matches ViewAction::Continue
                ==> d == FrameDirective::Present && final(self).view == old(self).view,
            action matches ViewAction::ChangeView(v)
                ==> d == FrameDirective::Proceed && final(self).view == v,
            action matches ViewAction::Quit
                ==> d == FrameDirective::Quit && final(self).view == old(self).view,
    {
        match action {
            ViewAction::Continue => FrameDirective::Present,
            ViewAction::ChangeView(v) => {
                self.view = v;
                FrameDirective::Proceed
            },
            ViewAction::Quit => FrameDirective::Quit,
        }
    }
}

} // verus!
