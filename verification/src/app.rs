//! Event-scheduling core of the application loop.
//!
//! Each loop iteration drains pending terminal input, then runs an update
//! phase, a render phase and an exit phase.  The decisions of those phases
//! (dispatch or not, terminate or not) are made here; the surrounding
//! binary performs the input polling and the actual event dispatch.

use vstd::prelude::*;

verus! {

/// Outcome a handler asks the loop to finish with.
#[derive(Debug, Clone, Copy, PartialEq, Eq, Hash, Structural)]
pub enum ExitRequest {
    Success,
    Failure(i32),
}

/// Shared flag set a handler uses to ask for work.  Repeated asks coalesce
/// into a single pending flag; reading a flag clears it ("take" semantics).
pub struct Context {
    exit_request: Option<ExitRequest>,
    redraw_request: bool,
    update_request: bool,
}

impl Context {
    pub closed spec fn spec_exit_request(&self) -> Option<ExitRequest> {
        self.exit_request
    }

    pub closed spec fn spec_redraw_requested(&self) -> bool {
        self.redraw_request
    }

    pub closed spec fn spec_update_requested(&self) -> bool {
        self.update_request
    }

    pub fn new() -> (r: Self)
        ensures
            r.spec_exit_request() is None,
            !r.spec_redraw_requested(),
            !r.spec_update_requested(),
    {
        Self { exit_request: None, redraw_request: false, update_request: false }
    }

    pub fn take_exit_request(&mut self) -> (r: Option<ExitRequest>)
        ensures
            r == old(self).spec_exit_request(),
            final(self).spec_exit_request() is None,
            final(self).spec_redraw_requested() == old(self).spec_redraw_requested(),
            final(self).spec_update_requested() == old(self).spec_update_requested(),
    {
        let r = self.exit_request;
        self.exit_request = None;
        r
    }

    pub fn take_redraw_request(&mut self) -> (r: bool)
        ensures
            r == old(self).spec_redraw_requested(),
            !final(self).spec_redraw_requested(),
            final(self).spec_exit_request() == old(self).spec_exit_request(),
            final(self).spec_update_requested() == old(self).spec_update_requested(),
    {
        let r = self.redraw_request;
        self.redraw_request = false;
        r
    }

    pub fn take_update_request(&mut self) -> (r: bool)
        ensures
            r == old(self).spec_update_requested(),
            !final(self).spec_update_requested(),
            final(self).spec_exit_request() == old(self).spec_exit_request(),
            final(self).spec_redraw_requested() == old(self).spec_redraw_requested(),
    {
        let r = self.update_request;
        self.update_request = false;
        r
    }

    pub fn request_exit(&mut self, request: ExitRequest)
        ensures
            final(self).spec_exit_request() == Some(request),
            final(self).spec_redraw_requested() == old(self).spec_redraw_requested(),
            final(self).spec_update_requested() == old(self).spec_update_requested(),
    {
        self.exit_request = Some(request);
    }

    pub fn request_redraw(&mut self)
        ensures
            final(self).spec_redraw_requested(),
            final(self).spec_exit_request() == old(self).spec_exit_request(),
            final(self).spec_update_requested() == old(self).spec_update_requested(),
    {
        self.redraw_request = true;
    }

    pub fn request_update(&mut self)
        ensures
            final(self).spec_update_requested(),
            final(self).spec_exit_request() == old(self).spec_exit_request(),
            final(self).spec_redraw_requested() == old(self).spec_redraw_requested(),
    {
        self.update_request = true;
    }
}

/// A proposed shutdown outcome that the handler may veto once before it
/// becomes final.  The token moves `false -> true` at most once and is
/// discarded after one exit phase.
pub struct CancellableExitRequest {
    pub request: ExitRequest,
    cancelled: bool,
}

impl CancellableExitRequest {
    pub closed spec fn spec_cancelled(&self) -> bool {
        self.cancelled
    }

    pub closed spec fn spec_request(&self) -> ExitRequest {
        self.request
    }

    pub fn new(request: ExitRequest) -> (r: Self)
        ensures
            r.spec_request() == request,
            !r.spec_cancelled(),
    {
        Self { request, cancelled: false }
    }

    pub fn cancel(&mut self)
        ensures
            final(self).spec_cancelled(),
            final(self).spec_request() == old(self).spec_request(),
    {
        self.cancelled = true;
    }

    pub fn is_cancelled(&self) -> (r: bool)
        ensures
            r == self.spec_cancelled(),
    {
        self.cancelled
    }

    /// Confirms or discards the request: a cancelled request yields nothing
    /// and normal iteration resumes; otherwise the requested outcome becomes
    /// the loop's final outcome.
    pub fn resolve(self) -> (r: Option<ExitRequest>)
        ensures
            r == (if self.spec_cancelled() {
                Option::<ExitRequest>::None
            } else {
                Some(self.spec_request())
            }),
    {
        if self.cancelled {
            None
        } else {
            Some(self.request)
        }
    }
}

/// `std::io::Error`, declared so that loop errors can carry the failure
/// reported by the terminal backend.  The value is opaque here; vstd gives
/// the type no specification.
#[verifier::external_type_specification]
#[verifier::external_body]
pub struct ExIoError(std::io::Error);

/// Error surface of a loop run: an input-polling/read failure is fatal
/// infrastructure, a handler error propagates to the loop's caller.
pub enum LoopError<E> {
    IoError(std::io::Error),
    UserError(E),
}

/// Per-channel pacing: never fire on its own, or fire periodically.
/// The period is a duration in the caller's clock units.
#[derive(Debug, Clone, Copy, PartialEq, Eq, Hash, Structural)]
pub enum FrameRate {
    OnDemand,
    Duration(u64),
}

#[derive(Debug, Clone, Copy)]
pub struct AppSettings {
    pub render_framerate: FrameRate,
    pub update_framerate: FrameRate,
}

/// Deadline tracker for one dispatch channel.  Times are instants on a
/// monotonic clock, in the same units as the `FrameRate` period.
pub struct FrameTimer {
    frame_rate: FrameRate,
    next_frame: u64,
}

impl FrameTimer {
    pub closed spec fn spec_frame_rate(&self) -> FrameRate {
        self.frame_rate
    }

    pub closed spec fn spec_next_frame(&self) -> u64 {
        self.next_frame
    }

    /// A periodic timer is due once the current time reaches its deadline;
    /// an on-demand timer is never due on its own.
    pub open spec fn spec_due(&self, now: u64) -> bool {
        self.spec_frame_rate() matches FrameRate::Duration(d) && now >= self.spec_next_frame()
    }

    pub fn new(frame_rate: FrameRate, now: u64) -> (r: Self)
        ensures
            r.spec_frame_rate() == frame_rate,
            r.spec_next_frame() == now,
    {
        Self { frame_rate, next_frame: now }
    }

    pub fn next_frame(&self) -> (r: u64)
        ensures
            r == self.spec_next_frame(),
    {
        self.next_frame
    }

    /// Reports whether the channel's tick is due and, if so, reschedules
    /// the deadline one period after the old one (a fixed cadence: a fire
    /// does not absorb the lateness of the iteration that observed it).
    pub fn frame_ready(&mut self, now: u64) -> (r: bool)
        requires
            (old(self).spec_frame_rate() matches FrameRate::Duration(d) ==> (now >= old(
                self,
            ).spec_next_frame() ==> old(self).spec_next_frame() + d <= u64::MAX)),
        ensures
            r == old(self).spec_due(now),
            final(self).spec_frame_rate() == old(self).spec_frame_rate(),
            final(self).spec_next_frame() == (match old(self).spec_frame_rate() {
                FrameRate::OnDemand => old(self).spec_next_frame(),
                FrameRate::Duration(d) => if r {
                    (old(self).spec_next_frame() + d) as u64
                } else {
                    old(self).spec_next_frame()
                },
            }),
    {
        match self.frame_rate {
            FrameRate::OnDemand => false,
            FrameRate::Duration(time) => {
                if now >= self.next_frame {
                    self.next_frame = self.next_frame + time;
                    true
                } else {
                    false
                }
            },
        }
    }
}

/// Update phase of one iteration: dispatch when the timer is due (a due tick
/// subsumes an explicit request) or, failing that, when an update was
/// requested.  Either way the pending flag is cleared, so at most one update
/// is dispatched per iteration.
pub fn update_phase(update_timer: &mut FrameTimer, context: &mut Context, now: u64) -> (dispatch:
    bool)
    requires
        (old(update_timer).spec_frame_rate() matches FrameRate::Duration(d) ==> (now >= old(
            update_timer,
        ).spec_next_frame() ==> old(update_timer).spec_next_frame() + d <= u64::MAX)),
    ensures
        dispatch == (old(update_timer).spec_due(now) || old(context).spec_update_requested()),
        !final(context).spec_update_requested(),
        final(context).spec_redraw_requested() == old(context).spec_redraw_requested(),
        final(context).spec_exit_request() == old(context).spec_exit_request(),
        final(update_timer).spec_frame_rate() == old(update_timer).spec_frame_rate(),
        final(update_timer).spec_next_frame() == (match old(update_timer).spec_frame_rate() {
            FrameRate::OnDemand => old(update_timer).spec_next_frame(),
            FrameRate::Duration(d) => if old(update_timer).spec_due(now) {
                (old(update_timer).spec_next_frame() + d) as u64
            } else {
                old(update_timer).spec_next_frame()
            },
        }),
{
    if update_timer.frame_ready(now) {
        let _ = context.take_update_request();
        true
    } else {
        context.take_update_request()
    }
}

/// Render phase of one iteration; the policy is identical to the update
/// phase, run against the render timer and the redraw flag.
pub fn render_phase(render_timer: &mut FrameTimer, context: &mut Context, now: u64) -> (dispatch:
    bool)
    requires
        (old(render_timer).spec_frame_rate() matches FrameRate::Duration(d) ==> (now >= old(
            render_timer,
        ).spec_next_frame() ==> old(render_timer).spec_next_frame() + d <= u64::MAX)),
    ensures
        dispatch == (old(render_timer).spec_due(now) || old(context).spec_redraw_requested()),
        !final(context).spec_redraw_requested(),
        final(context).spec_update_requested() == old(context).spec_update_requested(),
        final(context).spec_exit_request() == old(context).spec_exit_request(),
        final(render_timer).spec_frame_rate() == old(render_timer).spec_frame_rate(),
        final(render_timer).spec_next_frame() == (match old(render_timer).spec_frame_rate() {
            FrameRate::OnDemand => old(render_timer).spec_next_frame(),
            FrameRate::Duration(d) => if old(render_timer).spec_due(now) {
                (old(render_timer).spec_next_frame() + d) as u64
            } else {
                old(render_timer).spec_next_frame()
            },
        }),
{
    if render_timer.frame_ready(now) {
        let _ = context.take_redraw_request();
        true
    } else {
        context.take_redraw_request()
    }
}

} // verus!
