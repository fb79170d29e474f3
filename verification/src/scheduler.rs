//! The frame scheduler: a state machine driving one frame at a time.
//!
//! Each loop iteration acquires a presentable image, builds fresh bindings
//! for it, records and submits one command buffer that uploads the camera
//! block and dispatches the compute work groups, chains the present after
//! that work, and blocks on the completion signal before the next frame —
//! there is never more than one frame in flight.  Staleness reported at
//! acquire or present is recovered by rebuilding the chain and skipping to
//! the next tick; device failures are fatal and stop the loop; a quit
//! request is honoured at the next frame boundary, never mid-frame.
//!
//! The machine itself decides and owns no device objects: the surrounding
//! loop performs each returned action against the device and feeds the
//! outcome back as the next event.

use crate::chain::ReadySignal;
use crate::dispatch::{ceil_div, dispatch_dims, DispatchDims};
use crate::error::FatalDeviceError;
use vstd::prelude::*;

verus! {

/// Nanoseconds the loop sleeps after each frame: a fixed 1/60 s cadence
/// limiter.
pub const FRAME_INTERVAL_NANOS: u32 = 1_000_000_000 / 60;

/// Fixed per-process render parameters: target resolution and the local
/// work-group size the compute program declares (the dispatch must match
/// it exactly).
#[derive(Clone, Copy, PartialEq, Eq, Structural, Debug)]
pub struct RenderConfig {
    pub width: u32,
    pub height: u32,
    pub local_size: u32,
}

impl RenderConfig {
    /// A usable configuration: the program's local group size is never
    /// zero.
    pub open spec fn wf(self) -> bool {
        self.local_size >= 1
    }
}

/// The image held for the frame in flight, with its readiness signal.
#[derive(Clone, Copy, PartialEq, Eq, Structural, Debug)]
pub struct FrameHold {
    pub image_index: usize,
    pub signal: ReadySignal,
}

/// Progress of the current frame attempt.
#[derive(Clone, Copy, PartialEq, Eq, Structural, Debug)]
pub enum FrameState {
    /// Between frames; nothing held, nothing in flight.
    Idle,
    /// Waiting for the chain to hand out an image.
    Acquiring,
    /// An image is held; bindings are being built and commands recorded.
    Recording,
    /// The command buffer is submitted; the present has not been accepted.
    Submitted,
    /// The present is chained; waiting on the completion signal.
    Presented,
    /// The chain went stale mid-frame; it must be rebuilt before the next
    /// attempt.
    Invalidated,
    /// A non-recoverable device error; the loop must stop.
    Faulted,
}

/// Outcome of the last action, reported by the loop.
#[derive(Clone, Copy, PartialEq, Eq, Structural, Debug)]
pub enum FrameEvent {
    /// A new loop iteration begins.
    TickStarted,
    /// The chain handed out an image and its readiness signal.
    ImageAcquired { image_index: usize, signal: ReadySignal },
    /// Acquire or present reported the chain stale.
    ChainStale,
    /// No image was available this tick.
    AcquireTimedOut,
    /// The command buffer was recorded and submitted, ordered after the
    /// readiness signal and signalling a completion fence.
    WorkSubmitted,
    /// The display accepted the chained present.
    PresentAccepted,
    /// The completion fence fired: the submitted work is done.
    CompletionSignaled,
    /// The chain was rebuilt from current surface geometry.
    ChainRebuilt,
    /// The device failed non-recoverably.
    DeviceFailed { error: FatalDeviceError },
}

/// What the loop must do next against the device.
#[derive(Clone, Copy, PartialEq, Eq, Structural, Debug)]
pub enum FrameAction {
    /// Acquire the next presentable image from the chain.
    AcquireImage,
    /// Build fresh descriptor bindings for the held image, record one
    /// command buffer that uploads the camera block and dispatches `dims`
    /// work groups, and submit it ordered after the readiness signal.
    RecordAndSubmit { image_index: usize, signal: ReadySignal, dims: DispatchDims },
    /// Chain the present of the held image after the submitted work.
    PresentImage { image_index: usize, signal: ReadySignal },
    /// Block until the completion fence fires.
    WaitCompletion,
    /// Rebuild the presentation chain from current surface geometry.
    RebuildChain,
    /// Sleep the fixed cadence interval, then start the next tick.
    SleepTick,
    /// Stop the loop; quit was requested and no frame is in flight.
    Halt,
    /// Stop the loop and report the fatal error.
    ReportFatal { error: FatalDeviceError },
}

/// Which events the machine can receive in each state: exactly the
/// outcomes of the action it last requested, plus the tick that starts a
/// frame.
pub open spec fn accepts(s: FrameState, e: FrameEvent) -> bool {
    match s {
        FrameState::Idle => e is TickStarted,
        FrameState::Acquiring => {
            ||| (e matches FrameEvent::ImageAcquired { image_index, signal }
                && signal.image_index == image_index)
            ||| e is ChainStale
            ||| e is AcquireTimedOut
        },
        FrameState::Recording => e is WorkSubmitted || e is DeviceFailed,
        FrameState::Submitted => e is PresentAccepted || e is ChainStale || e is DeviceFailed,
        FrameState::Presented => e is CompletionSignaled,
        FrameState::Invalidated => e is ChainRebuilt,
        FrameState::Faulted => false,
    }
}

/// The frame scheduler.
pub struct Scheduler {
    pub state: FrameState,
    pub config: RenderConfig,
    /// The image of the frame in flight, from acquire to completion.
    pub held: Option<FrameHold>,
    /// A quit was observed; honoured at the next frame boundary.
    pub quit_pending: bool,
    /// The fatal error that stopped the machine, if any.
    pub fault: Option<FatalDeviceError>,
}

impl Scheduler {
    /// The machine's invariant: the configuration is usable, an image is
    /// held exactly while a frame is between acquire and completion, and
    /// a fault is recorded exactly in the faulted state.
    pub open spec fn wf(self) -> bool {
        &&& self.config.wf()
        &&& (self.held is Some <==> (self.state is Recording || self.state is Submitted
            || self.state is Presented))
        &&& (self.fault is Some <==> self.state is Faulted)
    }

    /// The work-group counts the configuration calls for.
    pub open spec fn dims_spec(self) -> DispatchDims {
        DispatchDims {
            x: ceil_div(self.config.width as nat, self.config.local_size as nat) as u32,
            y: ceil_div(self.config.height as nat, self.config.local_size as nat) as u32,
            z: 1,
        }
    }

    /// The transition table: from the current machine and an event to the
    /// next machine and the action the loop must perform.
    pub open spec fn next_spec(self, e: FrameEvent) -> (Scheduler, FrameAction) {
        match (self.state, e) {
            (FrameState::Idle, FrameEvent::TickStarted) => if self.quit_pending {
                (self, FrameAction::Halt)
            } else {
                (Scheduler { state: FrameState::Acquiring, ..self }, FrameAction::AcquireImage)
            },
            (FrameState::Acquiring, FrameEvent::ImageAcquired { image_index, signal }) => (
                Scheduler {
                    state: FrameState::Recording,
                    held: Some(FrameHold { image_index, signal }),
                    ..self
                },
                FrameAction::RecordAndSubmit { image_index, signal, dims: self.dims_spec() },
            ),
            (FrameState::Acquiring, FrameEvent::ChainStale) => (
                Scheduler { state: FrameState::Invalidated, ..self },
                FrameAction::RebuildChain,
            ),
            (FrameState::Acquiring, FrameEvent::AcquireTimedOut) => (
                Scheduler { state: FrameState::Idle, ..self },
                FrameAction::SleepTick,
            ),
            (FrameState::Recording, FrameEvent::WorkSubmitted) => (
                Scheduler { state: FrameState::Submitted, ..self },
                FrameAction::PresentImage {
                    image_index: self.held->0.image_index,
                    signal: self.held->0.signal,
                },
            ),
            (FrameState::Submitted, FrameEvent::PresentAccepted) => (
                Scheduler { state: FrameState::Presented, ..self },
                FrameAction::WaitCompletion,
            ),
            (FrameState::Submitted, FrameEvent::ChainStale) => (
                Scheduler { state: FrameState::Invalidated, held: None, ..self },
                FrameAction::RebuildChain,
            ),
            (FrameState::Recording, FrameEvent::DeviceFailed { error }) => (
                Scheduler { state: FrameState::Faulted, held: None, fault: Some(error), ..self },
                FrameAction::ReportFatal { error },
            ),
            (FrameState::Submitted, FrameEvent::DeviceFailed { error }) => (
                Scheduler { state: FrameState::Faulted, held: None, fault: Some(error), ..self },
                FrameAction::ReportFatal { error },
            ),
            (FrameState::Presented, FrameEvent::CompletionSignaled) => if self.quit_pending {
                (Scheduler { state: FrameState::Idle, held: None, ..self }, FrameAction::Halt)
            } else {
                (Scheduler { state: FrameState::Idle, held: None, ..self }, FrameAction::SleepTick)
            },
            (FrameState::Invalidated, FrameEvent::ChainRebuilt) => if self.quit_pending {
                (Scheduler { state: FrameState::Idle, ..self }, FrameAction::Halt)
            } else {
                (Scheduler { state: FrameState::Idle, ..self }, FrameAction::SleepTick)
            },
            _ => (self, FrameAction::Halt),
        }
    }

    /// A fresh machine, between frames.
    pub fn new(config: RenderConfig) -> (s: Scheduler)
        requires
            config.wf(),
        ensures
            s.wf(),
            s.state is Idle,
            s.config == config,
            s.held is None,
            !s.quit_pending,
            s.fault is None,
    {
        Scheduler { state: FrameState::Idle, config, held: None, quit_pending: false, fault: None }
    }

    /// Note a user-initiated quit.  It is honoured at the next frame
    /// boundary: a frame in flight always runs to completion first.
    pub fn request_quit(&mut self)
        ensures
            final(self).state == old(self).state,
            final(self).config == old(self).config,
            final(self).held == old(self).held,
            final(self).fault == old(self).fault,
            final(self).quit_pending,
    {
        self.quit_pending = true;
    }

    /// Advance the machine by one event and return the action the loop
    /// must perform next.  The whole behaviour is the transition table
    /// `next_spec`.
    pub fn step(&mut self, event: FrameEvent) -> (action: FrameAction)
        requires
            old(self).wf(),
            accepts(old(self).state, event),
        ensures
            final(self).wf(),
            *final(self) == old(self).next_spec(event).0,
            action == old(self).next_spec(event).1,
    {
        match (self.state, event) {
            (FrameState::Idle, FrameEvent::TickStarted) => {
                if self.quit_pending {
                    FrameAction::Halt
                } else {
                    self.state = FrameState::Acquiring;
                    FrameAction::AcquireImage
                }
            },
            (FrameState::Acquiring, FrameEvent::ImageAcquired { image_index, signal }) => {
                self.state = FrameState::Recording;
                self.held = Some(FrameHold { image_index, signal });
                let dims = dispatch_dims(self.config.width, self.config.height, self.config.local_size);
                proof {
                    assert(dims == old(self).dims_spec());
                }
                FrameAction::RecordAndSubmit { image_index, signal, dims }
            },
            (FrameState::Acquiring, FrameEvent::ChainStale) => {
                self.state = FrameState::Invalidated;
                FrameAction::RebuildChain
            },
            (FrameState::Acquiring, FrameEvent::AcquireTimedOut) => {
                self.state = FrameState::Idle;
                FrameAction::SleepTick
            },
            (FrameState::Recording, FrameEvent::WorkSubmitted) => {
                self.state = FrameState::Submitted;
                let held = self.held.unwrap();
                FrameAction::PresentImage { image_index: held.image_index, signal: held.signal }
            },
            (FrameState::Submitted, FrameEvent::PresentAccepted) => {
                self.state = FrameState::Presented;
                FrameAction::WaitCompletion
            },
            (FrameState::Submitted, FrameEvent::ChainStale) => {
                self.state = FrameState::Invalidated;
                self.held = None;
                FrameAction::RebuildChain
            },
            (FrameState::Recording, FrameEvent::DeviceFailed { error }) => {
                self.state = FrameState::Faulted;
                self.held = None;
                self.fault = Some(error);
                FrameAction::ReportFatal { error }
            },
            (FrameState::Submitted, FrameEvent::DeviceFailed { error }) => {
                self.state = FrameState::Faulted;
                self.held = None;
                self.fault = Some(error);
                FrameAction::ReportFatal { error }
            },
            (FrameState::Presented, FrameEvent::CompletionSignaled) => {
                self.state = FrameState::Idle;
                self.held = None;
                if self.quit_pending {
                    FrameAction::Halt
                } else {
                    FrameAction::SleepTick
                }
            },
            (FrameState::Invalidated, FrameEvent::ChainRebuilt) => {
                self.state = FrameState::Idle;
                if self.quit_pending {
                    FrameAction::Halt
                } else {
                    FrameAction::SleepTick
                }
            },
            _ => FrameAction::Halt,
        }
    }
}

/// A quit request never cuts a frame short: the machine issues `Halt` only
/// between frames — from idle at a tick, after the completion signal of a
/// presented frame, or after a rebuild — and only once a quit is pending.
/// While work is recorded or submitted, the step never halts.
pub proof fn lemma_halt_only_between_frames(s: Scheduler, e: FrameEvent)
    requires
        s.wf(),
        accepts(s.state, e),
    ensures
        s.next_spec(e).1 is Halt ==> s.quit_pending && (s.state is Idle || s.state is Presented
            || s.state is Invalidated),
        s.state is Recording || s.state is Submitted ==> !(s.next_spec(e).1 is Halt),
{
}

/// A pending quit is never forgotten: every step keeps it set until the
/// loop halts.
pub proof fn lemma_quit_sticks(s: Scheduler, e: FrameEvent)
    ensures
        s.next_spec(e).0.quit_pending == s.quit_pending,
{
}

/// The faulted state is terminal: no event is accepted there, so a fatal
/// device error always stops the loop.
pub proof fn lemma_faulted_terminal(e: FrameEvent)
    ensures
        !accepts(FrameState::Faulted, e),
{
}

} // verus!
