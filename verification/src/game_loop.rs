//! Earlier, simpler variant of the loop core: a render request flag but no
//! update flag, both channels strictly periodic, and a paste accumulator
//! that batches consecutive bracketed-paste chunks into one event.

use vstd::prelude::*;
use vstd::string::StrSliceExecFns;
use vstd::string::StringExecFns;
use crate::app::ExitRequest;

verus! {

/// Shared flag set for this loop variant: an exit request and a coalesced
/// redraw flag, both with "take" semantics.
pub struct LoopContext {
    exit_request: Option<ExitRequest>,
    redraw_requested: bool,
}

impl LoopContext {
    pub closed spec fn spec_exit_request(&self) -> Option<ExitRequest> {
        self.exit_request
    }

    pub closed spec fn spec_redraw_requested(&self) -> bool {
        self.redraw_requested
    }

    pub fn new() -> (r: Self)
        ensures
            r.spec_exit_request() is None,
            !r.spec_redraw_requested(),
    {
        Self { exit_request: None, redraw_requested: false }
    }

    pub fn take_request(&mut self) -> (r: Option<ExitRequest>)
        ensures
            r == old(self).spec_exit_request(),
            final(self).spec_exit_request() is None,
            final(self).spec_redraw_requested() == old(self).spec_redraw_requested(),
    {
        let r = self.exit_request;
        self.exit_request = None;
        r
    }

    pub fn take_redraw_request(&mut self) -> (r: bool)
        ensures
            r == old(self).spec_redraw_requested(),
            !final(self).spec_redraw_requested(),
            final(self).spec_exit_request() == old(self).spec_exit_request(),
    {
        let r = self.redraw_requested;
        self.redraw_requested = false;
        r
    }

    pub fn request_exit(&mut self, request: ExitRequest)
        ensures
            final(self).spec_exit_request() == Some(request),
            final(self).spec_redraw_requested() == old(self).spec_redraw_requested(),
    {
        self.exit_request = Some(request);
    }

    pub fn request_render(&mut self)
        ensures
            final(self).spec_redraw_requested(),
            final(self).spec_exit_request() == old(self).spec_exit_request(),
    {
        self.redraw_requested = true;
    }
}

/// Same single-shot veto token as the main loop's, for this loop variant.
pub struct CancellableExitRequest {
    pub request: ExitRequest,
    cancelled: bool,
}

impl CancellableExitRequest {
    pub closed spec fn spec_cancelled(&self) -> bool {
        self.cancelled
    }

    pub closed spec fn spec_request(&self) -> ExitRequest {
        self.request
    }

    pub fn new(request: ExitRequest) -> (r: Self)
        ensures
            r.spec_request() == request,
            !r.spec_cancelled(),
    {
        Self { request, cancelled: false }
    }

    pub fn cancel(&mut self)
        ensures
            final(self).spec_cancelled(),
            final(self).spec_request() == old(self).spec_request(),
    {
        self.cancelled = true;
    }

    pub fn resolve(self) -> (r: Option<ExitRequest>)
        ensures
            r == (if self.spec_cancelled() {
                Option::<ExitRequest>::None
            } else {
                Some(self.spec_request())
            }),
    {
        if self.cancelled {
            None
        } else {
            Some(self.request)
        }
    }
}

/// Fixed per-channel periods, in the caller's clock units.
#[derive(Debug, Clone, Copy)]
pub struct GameSettings {
    pub render_frametime: u64,
    pub update_frametime: u64,
}

/// Error surface of this loop variant.
pub enum LoopError<E> {
    IoError(std::io::Error),
    UserError(E),
}

/// Update phase: strictly periodic, no on-demand catch-up in this variant.
/// The deadline advances by one period when it fires.
pub fn update_phase(next_update_time: &mut u64, update_frametime: u64, now: u64) -> (dispatch:
    bool)
    requires
        *old(next_update_time) <= now ==> *old(next_update_time) + update_frametime <= u64::MAX,
    ensures
        dispatch == (*old(next_update_time) <= now),
        *final(next_update_time) == (if dispatch {
            (*old(next_update_time) + update_frametime) as u64
        } else {
            *old(next_update_time)
        }),
{
    if *next_update_time <= now {
        *next_update_time = *next_update_time + update_frametime;
        true
    } else {
        false
    }
}

/// Render phase: dispatch when the render deadline is reached (which
/// subsumes a pending redraw request) or, failing that, when a redraw was
/// requested; either way the flag ends cleared, so at most one render is
/// dispatched per iteration.
pub fn render_phase(
    next_render_time: &mut u64,
    render_frametime: u64,
    context: &mut LoopContext,
    now: u64,
) -> (dispatch: bool)
    requires
        *old(next_render_time) <= now ==> *old(next_render_time) + render_frametime <= u64::MAX,
    ensures
        dispatch == (*old(next_render_time) <= now || old(context).spec_redraw_requested()),
        !final(context).spec_redraw_requested(),
        final(context).spec_exit_request() == old(context).spec_exit_request(),
        *final(next_render_time) == (if *old(next_render_time) <= now {
            (*old(next_render_time) + render_frametime) as u64
        } else {
            *old(next_render_time)
        }),
{
    if *next_render_time <= now {
        *next_render_time = *next_render_time + render_frametime;
        let _ = context.take_redraw_request();
        true
    } else {
        context.take_redraw_request()
    }
}

/// Accumulates consecutive paste chunks into one buffer, so that a burst of
/// bracketed-paste events reaches the handler as a single paste.
pub struct PastaReader {
    buffer: String,
}

impl PastaReader {
    pub closed spec fn spec_buffer(&self) -> Seq<char> {
        self.buffer@
    }

    pub fn new() -> (r: Self)
        ensures
            r.spec_buffer() == Seq::<char>::empty(),
    {
        Self { buffer: String::new() }
    }

    pub fn clear(&mut self)
        ensures
            final(self).spec_buffer() == Seq::<char>::empty(),
    {
        self.buffer = String::new();
    }

    /// Appends one paste chunk to the pending batch.
    pub fn push_paste(&mut self, pasta: &str)
        ensures
            final(self).spec_buffer() == old(self).spec_buffer() + pasta@,
    {
        self.buffer.append(pasta);
    }

    pub fn is_empty(&self) -> (r: bool)
        ensures
            r == (self.spec_buffer().len() == 0),
    {
        self.buffer.as_str().unicode_len() == 0
    }

    /// Hands out the accumulated batch and leaves the buffer empty.
    pub fn take_text(&mut self) -> (r: String)
        ensures
            r@ == old(self).spec_buffer(),
            final(self).spec_buffer() == Seq::<char>::empty(),
    {
        let r = self.buffer.clone();
        self.buffer = String::new();
        r
    }
}

} // verus!
