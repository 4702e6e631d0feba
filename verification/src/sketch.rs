//! The sketch scheduler: the state that a sketch owns, its frame metrics,
//! and what is decided at the end of each frame.

use vstd::prelude::*;
use crate::canvas::{Canvas, FontWeight};
use crate::color::Color;

verus! {

/// The width and the height of the canvas of a sketch that was given no size.
pub const DEFAULT_SIZE: usize = 800;

/// The frame duration, in milliseconds, of a sketch that was given no rate:
/// that of thirty frames a second.
pub const DEFAULT_FRAME_TIME: u64 = 33;

/// A frame that ends with no more than this many milliseconds to spare is
/// not followed by a sleep.
pub const PACING_THRESHOLD: u64 = 10;

/// What the previous frame measured.
#[derive(Clone, Copy, Debug, PartialEq, Eq, Structural)]
pub struct SketchMetrics {
    /// The number of frames completed; wraps around.
    pub frame_count: usize,
    /// The duration of the previous frame, in milliseconds.
    pub delta_time: u128,
    /// `1000 / delta_time`, as of the last frame that took a millisecond or more.
    pub frames_per_second: usize,
}

impl Default for SketchMetrics {
    fn default() -> (m: Self)
        ensures
            m == (SketchMetrics { frame_count: 0, delta_time: 0, frames_per_second: 0 }),
    {
        SketchMetrics { frame_count: 0, delta_time: 0, frames_per_second: 0 }
    }
}

/// Where a sketch stands in its life.
#[derive(Clone, Copy, Debug, PartialEq, Eq, Structural)]
pub enum Phase {
    /// Created; nothing was set yet.
    Unconfigured,
    /// At least one setting was made.
    Configured,
    /// Frames are being run. No setting leads back from here.
    Running,
    /// The presentation sink asked to stop. Nothing leads on from here.
    Stopped,
}

/// The phase after a setting was made: a sketch that has not run yet is
/// configured; a running or stopped sketch stays running or stopped, for
/// there is no way back from either.
pub open spec fn phase_after_setting(before: Phase) -> Phase {
    match before {
        Phase::Unconfigured => Phase::Configured,
        Phase::Configured => Phase::Configured,
        Phase::Running => Phase::Running,
        Phase::Stopped => Phase::Stopped,
    }
}

/// No setting leads back from running or stopped, so a sketch that was begun
/// is never again in a phase in which `begin` asks for its setup callback.
pub proof fn lemma_no_way_back(before: Phase)
    ensures
        before == Phase::Running || before == Phase::Stopped ==> phase_after_setting(before)
            == before,
        phase_after_setting(before) == Phase::Unconfigured || phase_after_setting(before)
            == Phase::Configured ==> before == Phase::Unconfigured || before == Phase::Configured,
{
}

/// The phase after a setting was made.
fn settled(before: Phase) -> (after: Phase)
    ensures
        after == phase_after_setting(before),
{
    match before {
        Phase::Unconfigured => Phase::Configured,
        Phase::Configured => Phase::Configured,
        Phase::Running => Phase::Running,
        Phase::Stopped => Phase::Stopped,
    }
}

/// What is registered with the runner of a sketch: its callbacks and its
/// presentation sink. The runner holds them; the sketch knows which exist.
#[derive(Clone, Copy, Debug, PartialEq, Eq, Structural)]
pub struct Hooks {
    pub setup: bool,
    pub update: bool,
    pub draw: bool,
    pub renderer: bool,
}

/// One step of a frame, in the order in which a frame takes them.
#[derive(Clone, Copy, Debug, PartialEq, Eq, Structural)]
pub enum FrameStep {
    /// Call the update callback with the state and the metrics.
    Update,
    /// Call the draw callback with the canvas, the state and the metrics.
    Draw,
    /// Hand the canvas to the presentation sink.
    Present,
}

/// The place of a step in a frame.
pub open spec fn step_rank(step: FrameStep) -> int {
    match step {
        FrameStep::Update => 0,
        FrameStep::Draw => 1,
        FrameStep::Present => 2,
    }
}

/// Whether there is something registered for a step.
pub open spec fn is_registered(hooks: Hooks, step: FrameStep) -> bool {
    match step {
        FrameStep::Update => hooks.update,
        FrameStep::Draw => hooks.draw,
        FrameStep::Present => hooks.renderer,
    }
}

/// The first registered step at or after a place in the frame, if there is one.
pub open spec fn step_from(hooks: Hooks, rank: int) -> Option<FrameStep> {
    if rank <= 0 && hooks.update {
        Some(FrameStep::Update)
    } else if rank <= 1 && hooks.draw {
        Some(FrameStep::Draw)
    } else if rank <= 2 && hooks.renderer {
        Some(FrameStep::Present)
    } else {
        None
    }
}

/// The steps of a frame come in order, update before draw before present;
/// each is a registered one, and no registered one is passed over.
pub proof fn lemma_steps_in_order(hooks: Hooks, rank: int)
    ensures
        step_from(hooks, rank) matches Some(step) ==> step_rank(step) >= rank && is_registered(
            hooks,
            step,
        ) && forall|other: FrameStep|
            rank <= step_rank(other) < step_rank(step) ==> !is_registered(hooks, other),
        step_from(hooks, rank) is None ==> forall|other: FrameStep|
            rank <= step_rank(other) ==> !is_registered(hooks, other),
{
}

/// What the runner of a sketch does when a frame has ended.
#[derive(Clone, Copy, Debug, PartialEq, Eq, Structural)]
pub enum FrameAction {
    /// Leave the loop.
    Stop,
    /// Start the next frame at once.
    Next,
    /// Sleep for so many milliseconds, then start the next frame.
    Sleep(u64),
}

/// The metrics after a frame of `elapsed` milliseconds: one frame more,
/// wrapping around; the new duration; and the new rate, or the old one where
/// the frame took less than a millisecond.
pub open spec fn metrics_after(before: SketchMetrics, elapsed: u128) -> SketchMetrics {
    SketchMetrics {
        frame_count: if before.frame_count == usize::MAX {
            0
        } else {
            (before.frame_count + 1) as usize
        },
        delta_time: elapsed,
        frames_per_second: if elapsed == 0 {
            before.frames_per_second
        } else {
            (1000int / elapsed as int) as usize
        },
    }
}

/// How a frame of `elapsed` milliseconds is paced against a frame duration:
/// where more than the threshold is left of the duration, a sleep for what
/// is left; else the next frame at once. Time lost is never made up.
pub open spec fn pacing(frame_time: u64, elapsed: u128) -> FrameAction {
    if frame_time - elapsed > PACING_THRESHOLD {
        FrameAction::Sleep((frame_time - elapsed) as u64)
    } else {
        FrameAction::Next
    }
}

impl SketchMetrics {
    /// The metrics after one more frame, which took `elapsed` milliseconds.
    pub fn after_frame(&self, elapsed: u128) -> (m: SketchMetrics)
        ensures
            m == metrics_after(*self, elapsed),
    {
        SketchMetrics {
            frame_count: self.frame_count.wrapping_add(1),
            delta_time: elapsed,
            frames_per_second: if elapsed > 0 {
                (1000 / elapsed) as usize
            } else {
                self.frames_per_second
            },
        }
    }
}

/// Paces a frame of `elapsed` milliseconds against a frame duration.
pub fn pace(frame_time: u64, elapsed: u128) -> (action: FrameAction)
    ensures
        action == pacing(frame_time, elapsed),
        frame_time - elapsed > PACING_THRESHOLD ==> action == FrameAction::Sleep(
            (frame_time - elapsed) as u64,
        ),
        elapsed >= frame_time - PACING_THRESHOLD ==> action == FrameAction::Next,
{
    if elapsed < frame_time as u128 && frame_time - elapsed as u64 > PACING_THRESHOLD {
        FrameAction::Sleep(frame_time - elapsed as u64)
    } else {
        FrameAction::Next
    }
}

/// A canvas, the state of the user, the metrics of the previous frame, and
/// the duration that a frame is paced to.
pub struct Sketch<State> {
    canvas: Canvas,
    state: State,
    metrics: SketchMetrics,
    frame_time: u64,
    phase: Phase,
    hooks: Hooks,
}

impl<State> Sketch<State> {
    pub closed spec fn spec_canvas(&self) -> Canvas {
        self.canvas
    }

    pub closed spec fn spec_state(&self) -> State {
        self.state
    }

    pub closed spec fn spec_metrics(&self) -> SketchMetrics {
        self.metrics
    }

    pub closed spec fn spec_frame_time(&self) -> u64 {
        self.frame_time
    }

    pub closed spec fn spec_phase(&self) -> Phase {
        self.phase
    }

    pub closed spec fn spec_hooks(&self) -> Hooks {
        self.hooks
    }

    /// Whether the sketch has the canvas, the state, the metrics and the
    /// frame duration of `before`.
    pub open spec fn same_content(&self, before: Self) -> bool {
        &&& self.spec_canvas() == before.spec_canvas()
        &&& self.spec_state() == before.spec_state()
        &&& self.spec_metrics() == before.spec_metrics()
        &&& self.spec_frame_time() == before.spec_frame_time()
    }

    /// Whether a canvas is as new: white, with a black stroke, no fill, a
    /// white background and regular text of size 16.
    pub open spec fn is_fresh(canvas: Canvas, width: usize, height: usize) -> bool {
        &&& canvas.spec_width() == width
        &&& canvas.spec_height() == height
        &&& canvas.consistent()
        &&& canvas.stroke_color() == Some(Color { red: 0, green: 0, blue: 0 })
        &&& canvas.fill_color() == None::<Color>
        &&& canvas.background_color() == (Color { red: 255, green: 255, blue: 255 })
        &&& canvas.text_style().spec_size() == 16
        &&& canvas.text_style().spec_weight() == FontWeight::Regular
        &&& forall|i: int|
            0 <= i < width * height ==> #[trigger] canvas.pixels()[i] == (Color {
                red: 255,
                green: 255,
                blue: 255,
            })
    }

    /// A sketch with the state that `state_fn` makes, which is called at
    /// once, a fresh canvas of the default size, and the default frame
    /// duration.
    pub fn new<F: FnOnce() -> State>(state_fn: F) -> (s: Self)
        requires
            state_fn.requires(()),
        ensures
            state_fn.ensures((), s.spec_state()),
            Self::is_fresh(s.spec_canvas(), DEFAULT_SIZE, DEFAULT_SIZE),
            s.spec_metrics() == (SketchMetrics { frame_count: 0, delta_time: 0, frames_per_second: 0 }),
            s.spec_frame_time() == DEFAULT_FRAME_TIME,
            s.spec_phase() == Phase::Unconfigured,
            s.spec_hooks() == (Hooks { setup: false, update: false, draw: false, renderer: false }),
    {
        Sketch {
            canvas: Canvas::new(DEFAULT_SIZE, DEFAULT_SIZE),
            state: state_fn(),
            metrics: SketchMetrics { frame_count: 0, delta_time: 0, frames_per_second: 0 },
            frame_time: DEFAULT_FRAME_TIME,
            phase: Phase::Unconfigured,
            hooks: Hooks { setup: false, update: false, draw: false, renderer: false },
        }
    }

    /// Replaces the canvas by a fresh one of the given size.
    pub fn size(self, width: usize, height: usize) -> (s: Self)
        requires
            3 * (width * height) <= isize::MAX,
        ensures
            Self::is_fresh(s.spec_canvas(), width, height),
            s.spec_state() == self.spec_state(),
            s.spec_metrics() == self.spec_metrics(),
            s.spec_frame_time() == self.spec_frame_time(),
            s.spec_hooks() == self.spec_hooks(),
            s.spec_phase() == phase_after_setting(self.spec_phase()),
    {
        let mut s = self;
        s.canvas = Canvas::new(width, height);
        s.phase = settled(s.phase);
        s
    }

    /// Sets the frame duration to that of `fps` frames a second, in whole
    /// milliseconds.
    pub fn fps(self, fps: usize) -> (s: Self)
        requires
            fps > 0,
        ensures
            s.spec_frame_time() == 1000int / fps as int,
            s.spec_canvas() == self.spec_canvas(),
            s.spec_state() == self.spec_state(),
            s.spec_metrics() == self.spec_metrics(),
            s.spec_hooks() == self.spec_hooks(),
            s.spec_phase() == phase_after_setting(self.spec_phase()),
    {
        let mut s = self;
        s.frame_time = (1000 / fps) as u64;
        s.phase = settled(s.phase);
        s
    }

    /// Registers a presentation sink, which the runner holds.
    pub fn renderer(self) -> (s: Self)
        ensures
            s.spec_hooks() == (Hooks { renderer: true, ..self.spec_hooks() }),
            s.spec_phase() == phase_after_setting(self.spec_phase()),
            s.same_content(self),
    {
        let mut s = self;
        s.hooks.renderer = true;
        s.phase = settled(s.phase);
        s
    }

    /// Registers a setup callback, which the runner holds.
    pub fn setup(self) -> (s: Self)
        ensures
            s.spec_hooks() == (Hooks { setup: true, ..self.spec_hooks() }),
            s.spec_phase() == phase_after_setting(self.spec_phase()),
            s.same_content(self),
    {
        let mut s = self;
        s.hooks.setup = true;
        s.phase = settled(s.phase);
        s
    }

    /// Registers an update callback, which the runner holds.
    pub fn update(self) -> (s: Self)
        ensures
            s.spec_hooks() == (Hooks { update: true, ..self.spec_hooks() }),
            s.spec_phase() == phase_after_setting(self.spec_phase()),
            s.same_content(self),
    {
        let mut s = self;
        s.hooks.update = true;
        s.phase = settled(s.phase);
        s
    }

    /// Registers a draw callback, which the runner holds.
    pub fn draw(self) -> (s: Self)
        ensures
            s.spec_hooks() == (Hooks { draw: true, ..self.spec_hooks() }),
            s.spec_phase() == phase_after_setting(self.spec_phase()),
            s.same_content(self),
    {
        let mut s = self;
        s.hooks.draw = true;
        s.phase = settled(s.phase);
        s
    }

    pub fn state_mut(&mut self) -> (state: &mut State)
        ensures
            *state == old(self).spec_state(),
            final(self).spec_state() == *final(state),
            final(self).spec_canvas() == old(self).spec_canvas(),
            final(self).spec_metrics() == old(self).spec_metrics(),
            final(self).spec_frame_time() == old(self).spec_frame_time(),
            final(self).spec_phase() == old(self).spec_phase(),
            final(self).spec_hooks() == old(self).spec_hooks(),
    {
        &mut self.state
    }

    pub fn state(&self) -> (state: &State)
        ensures
            *state == self.spec_state(),
    {
        &self.state
    }

    pub fn canvas_mut(&mut self) -> (canvas: &mut Canvas)
        ensures
            *canvas == old(self).spec_canvas(),
            final(self).spec_canvas() == *final(canvas),
            final(self).spec_state() == old(self).spec_state(),
            final(self).spec_metrics() == old(self).spec_metrics(),
            final(self).spec_frame_time() == old(self).spec_frame_time(),
            final(self).spec_phase() == old(self).spec_phase(),
            final(self).spec_hooks() == old(self).spec_hooks(),
    {
        &mut self.canvas
    }

    pub fn canvas(&self) -> (canvas: &Canvas)
        ensures
            *canvas == self.spec_canvas(),
    {
        &self.canvas
    }

    /// What the update callback gets: the state, and the metrics of the
    /// previous frame.
    pub fn update_parts(&mut self) -> (parts: (&mut State, &SketchMetrics))
        ensures
            *parts.0 == old(self).spec_state(),
            *parts.1 == old(self).spec_metrics(),
            final(self).spec_state() == *final(parts.0),
            final(self).spec_canvas() == old(self).spec_canvas(),
            final(self).spec_metrics() == old(self).spec_metrics(),
            final(self).spec_frame_time() == old(self).spec_frame_time(),
            final(self).spec_phase() == old(self).spec_phase(),
            final(self).spec_hooks() == old(self).spec_hooks(),
    {
        (&mut self.state, &self.metrics)
    }

    /// What the draw callback gets: the canvas, the state, and the metrics
    /// of the previous frame.
    pub fn draw_parts(&mut self) -> (parts: (&mut Canvas, &State, &SketchMetrics))
        ensures
            *parts.0 == old(self).spec_canvas(),
            *parts.1 == old(self).spec_state(),
            *parts.2 == old(self).spec_metrics(),
            final(self).spec_canvas() == *final(parts.0),
            final(self).spec_state() == old(self).spec_state(),
            final(self).spec_metrics() == old(self).spec_metrics(),
            final(self).spec_frame_time() == old(self).spec_frame_time(),
            final(self).spec_phase() == old(self).spec_phase(),
            final(self).spec_hooks() == old(self).spec_hooks(),
    {
        (&mut self.canvas, &self.state, &self.metrics)
    }

    /// The metrics of the previous frame.
    pub fn metrics(&self) -> (m: &SketchMetrics)
        ensures
            *m == self.spec_metrics(),
    {
        &self.metrics
    }

    pub fn frame_count(&self) -> (n: usize)
        ensures
            n == self.spec_metrics().frame_count,
    {
        self.metrics.frame_count
    }

    /// The duration of the previous frame, in milliseconds.
    pub fn delta_time(&self) -> (d: u128)
        ensures
            d == self.spec_metrics().delta_time,
    {
        self.metrics.delta_time
    }

    /// The duration that frames are paced to, in milliseconds.
    pub fn frame_time(&self) -> (t: u64)
        ensures
            t == self.spec_frame_time(),
    {
        self.frame_time
    }

    pub fn phase(&self) -> (p: Phase)
        ensures
            p == self.spec_phase(),
    {
        self.phase
    }

    pub fn hooks(&self) -> (h: Hooks)
        ensures
            h == self.spec_hooks(),
    {
        self.hooks
    }

    /// Starts the run of a sketch that has not run yet, and says whether
    /// its setup callback is to be called, which is once, before the first
    /// frame, where one is registered. A running or stopped sketch stays as
    /// it is.
    pub fn begin(&mut self) -> (run_setup: bool)
        ensures
            final(self).spec_phase() == match old(self).spec_phase() {
                Phase::Unconfigured => Phase::Running,
                Phase::Configured => Phase::Running,
                Phase::Running => Phase::Running,
                Phase::Stopped => Phase::Stopped,
            },
            run_setup == (old(self).spec_hooks().setup && (old(self).spec_phase()
                == Phase::Unconfigured || old(self).spec_phase() == Phase::Configured)),
            final(self).same_content(*old(self)),
            final(self).spec_hooks() == old(self).spec_hooks(),
    {
        match self.phase {
            Phase::Unconfigured => {
                self.phase = Phase::Running;
                self.hooks.setup
            },
            Phase::Configured => {
                self.phase = Phase::Running;
                self.hooks.setup
            },
            Phase::Running => false,
            Phase::Stopped => false,
        }
    }

    /// The step that a frame of a running sketch starts with: the first
    /// registered one. A sketch that is not running takes no step.
    pub fn first_step(&self) -> (step: Option<FrameStep>)
        ensures
            step == if self.spec_phase() == Phase::Running {
                step_from(self.spec_hooks(), 0)
            } else {
                None
            },
    {
        match self.phase {
            Phase::Running => {},
            _ => {
                return None;
            },
        }
        if self.hooks.update {
            Some(FrameStep::Update)
        } else if self.hooks.draw {
            Some(FrameStep::Draw)
        } else if self.hooks.renderer {
            Some(FrameStep::Present)
        } else {
            None
        }
    }

    /// The step that follows `done` in a frame of a running sketch: the
    /// next registered one, or none when the frame is through.
    pub fn next_step(&self, done: FrameStep) -> (step: Option<FrameStep>)
        ensures
            step == if self.spec_phase() == Phase::Running {
                step_from(self.spec_hooks(), step_rank(done) + 1)
            } else {
                None
            },
    {
        match self.phase {
            Phase::Running => {},
            _ => {
                return None;
            },
        }
        match done {
            FrameStep::Update => {
                if self.hooks.draw {
                    Some(FrameStep::Draw)
                } else if self.hooks.renderer {
                    Some(FrameStep::Present)
                } else {
                    None
                }
            },
            FrameStep::Draw => {
                if self.hooks.renderer {
                    Some(FrameStep::Present)
                } else {
                    None
                }
            },
            FrameStep::Present => None,
        }
    }

    /// Ends a frame of a running sketch. `keep_going` is what the
    /// presentation sink answered, `true` where there is none; `elapsed` is
    /// the time since the frame began, in milliseconds.
    ///
    /// Where the sink asked to stop, the sketch is stopped and its metrics
    /// stay. Else the frame is counted, its duration and rate are recorded,
    /// and the frame is paced. A sketch that is not running stays as it is
    /// and the runner is told to stop.
    pub fn end_frame(&mut self, keep_going: bool, elapsed: u128) -> (action: FrameAction)
        ensures
            final(self).spec_canvas() == old(self).spec_canvas(),
            final(self).spec_state() == old(self).spec_state(),
            final(self).spec_frame_time() == old(self).spec_frame_time(),
            final(self).spec_hooks() == old(self).spec_hooks(),
            (final(self).spec_phase(), final(self).spec_metrics(), action) == if old(self).spec_phase()
                != Phase::Running {
                (old(self).spec_phase(), old(self).spec_metrics(), FrameAction::Stop)
            } else if !keep_going {
                (Phase::Stopped, old(self).spec_metrics(), FrameAction::Stop)
            } else {
                (
                    Phase::Running,
                    metrics_after(old(self).spec_metrics(), elapsed),
                    pacing(old(self).spec_frame_time(), elapsed),
                )
            },
    {
        match self.phase {
            Phase::Running => {},
            _ => {
                return FrameAction::Stop;
            },
        }
        if !keep_going {
            self.phase = Phase::Stopped;
            return FrameAction::Stop;
        }
        self.metrics = self.metrics.after_frame(elapsed);
        pace(self.frame_time, elapsed)
    }
}

} // verus!
