use vstd::prelude::*;

use crate::error::CaptureError;
use crate::frame::{can_allocate, plan_buffer, spec_plan, BufferPlan, ImageDims, PixelFormat};

verus! {

/// Where a capture stands.
#[derive(Clone, Copy, Debug, PartialEq, Eq, Structural)]
pub enum CaptureState {
    Idle,
    /// A capture of an output was requested; its buffer description is awaited.
    Requested,
    /// The frame was described and its buffer is being allocated.
    BufferNegotiated(ImageDims),
    /// The compositor was asked to copy the frame into the buffer.
    CopyRequested(ImageDims),
    /// The buffer holds the frame.
    Ready(ImageDims),
    Failed(CaptureError),
}

/// A notification of the compositor's frame object.
#[derive(Clone, Copy, Debug, PartialEq, Eq, Structural)]
pub enum FrameEvent {
    /// The geometry and `wl_shm` format code of the buffer the frame needs.
    Buffer { format: u32, width: u32, height: u32, stride: u32 },
    /// The copy is complete.
    Ready,
    /// The frame could not be copied.
    Failed,
    /// Flags, damage and other notifications, which a still capture ignores.
    Other,
}

/// What the driver is to do next for the capture.
#[derive(Clone, Copy, Debug, PartialEq, Eq, Structural)]
pub enum CaptureAction {
    /// Nothing to do but wait for the next notification.
    Wait,
    /// Ask the screencopy manager to capture the output at this index.
    RequestCapture { output: usize },
    /// Create the shared-memory pool and buffer that the plan describes.
    AllocateBuffer(BufferPlan),
    /// Ask the compositor to copy the frame into the buffer.
    Copy,
    /// The buffer holds a frame of these dimensions.
    Finished(ImageDims),
    /// The capture is abandoned.
    Abort(CaptureError),
}

/// How a capture resolved, if it has.
#[derive(Clone, Copy, Debug, PartialEq, Eq, Structural)]
pub enum CaptureOutcome {
    Pending,
    Ready(ImageDims),
    Failed(CaptureError),
}

/// The dimensions that a buffer description gives.
pub open spec fn described_dims(format: u32, width: u32, height: u32, stride: u32) -> ImageDims {
    ImageDims { width, height, stride, format: PixelFormat::spec_from_code(format) }
}

/// The next state and the action for a frame notification.
pub open spec fn spec_next(state: CaptureState, event: FrameEvent) -> (CaptureState, CaptureAction) {
    match state {
        CaptureState::Idle | CaptureState::Ready(_) | CaptureState::Failed(_) => (
            state,
            CaptureAction::Wait,
        ),
        _ => match event {
            FrameEvent::Failed => (
                CaptureState::Failed(CaptureError::ProtocolFailure),
                CaptureAction::Abort(CaptureError::ProtocolFailure),
            ),
            FrameEvent::Other => (state, CaptureAction::Wait),
            FrameEvent::Ready => match state {
                CaptureState::CopyRequested(dims) => (
                    CaptureState::Ready(dims),
                    CaptureAction::Finished(dims),
                ),
                _ => (
                    CaptureState::Failed(CaptureError::ProtocolFailure),
                    CaptureAction::Abort(CaptureError::ProtocolFailure),
                ),
            },
            FrameEvent::Buffer { format, width, height, stride } => match state {
                CaptureState::Requested => {
                    let dims = described_dims(format, width, height, stride);
                    if !dims.format.is_supported() {
                        (
                            CaptureState::Failed(CaptureError::UnsupportedPixelFormat),
                            CaptureAction::Abort(CaptureError::UnsupportedPixelFormat),
                        )
                    } else if !can_allocate(dims) {
                        (
                            CaptureState::Failed(CaptureError::AllocationFailure),
                            CaptureAction::Abort(CaptureError::AllocationFailure),
                        )
                    } else if !dims.wf() {
                        (
                            CaptureState::Failed(CaptureError::ProtocolFailure),
                            CaptureAction::Abort(CaptureError::ProtocolFailure),
                        )
                    } else {
                        (
                            CaptureState::BufferNegotiated(dims),
                            CaptureAction::AllocateBuffer(spec_plan(dims)),
                        )
                    }
                },
                _ => (state, CaptureAction::Wait),
            },
        },
    }
}

/// Whenever a notification makes the session allocate a buffer, that notification is
/// the frame's buffer description, the buffer is sized stride times height of it, and
/// the session holds the same description as its negotiated frame.
pub proof fn lemma_buffer_follows_description(state: CaptureState, event: FrameEvent)
    ensures
        spec_next(state, event).1 matches CaptureAction::AllocateBuffer(plan) ==> {
            &&& event is Buffer
            &&& state == CaptureState::Requested
            &&& plan.pool_size as int == event->stride as int * event->height as int
            &&& plan.stride as int == event->stride as int
            &&& plan.width as int == event->width as int
            &&& plan.height as int == event->height as int
            &&& plan.format == event->format
            &&& spec_next(state, event).0 == CaptureState::BufferNegotiated(
                described_dims(event->format, event->width, event->height, event->stride),
            )
        },
        state == CaptureState::Requested && event is Buffer && ({
            let dims = described_dims(event->format, event->width, event->height, event->stride);
            dims.format.is_supported() && can_allocate(dims) && dims.wf()
        }) ==> spec_next(state, event).1 is AllocateBuffer,
{
    if let FrameEvent::Buffer { format, width, height, stride } = event {
        let dims = described_dims(format, width, height, stride);
        if state == CaptureState::Requested && dims.format.is_supported() && can_allocate(dims)
            && dims.wf() {
            let s = stride as int;
            let h = height as int;
            assert(s <= s * h) by (nonlinear_arith)
                requires
                    h >= 1,
                    s >= 0,
            ;
            assert(h <= s * h) by (nonlinear_arith)
                requires
                    s >= 1,
                    h >= 0,
            ;
        }
    }
}

/// One frame capture, from its request to its resolution.
pub struct CaptureSession {
    pub state: CaptureState,
}

impl CaptureSession {
    /// A session before its capture is requested.
    pub fn new() -> (r: CaptureSession)
        ensures
            r.state == CaptureState::Idle,
    {
        CaptureSession { state: CaptureState::Idle }
    }

    /// Starts the capture of output `output` of `output_count`: it fails with
    /// `MissingCapability` without the capabilities a capture needs (a screencopy
    /// manager and shared memory) or without that output.
    pub fn start(&mut self, has_capabilities: bool, output_count: usize, output: usize) -> (r:
        CaptureAction)
        requires
            old(self).state == CaptureState::Idle,
        ensures
            has_capabilities && output < output_count ==> final(self).state == CaptureState::Requested
                && r == (CaptureAction::RequestCapture { output }),
            !(has_capabilities && output < output_count) ==> final(self).state == CaptureState::Failed(
                CaptureError::MissingCapability,
            ) && r == CaptureAction::Abort(CaptureError::MissingCapability),
    {
        if has_capabilities && output < output_count {
            self.state = CaptureState::Requested;
            CaptureAction::RequestCapture { output }
        } else {
            self.state = CaptureState::Failed(CaptureError::MissingCapability);
            CaptureAction::Abort(CaptureError::MissingCapability)
        }
    }

    /// Handles a notification of the frame object. A buffer description in a format
    /// the normalizer cannot read fails the capture before any buffer is allocated.
    pub fn on_event(&mut self, event: FrameEvent) -> (r: CaptureAction)
        ensures
            (final(self).state, r) == spec_next(old(self).state, event),
            old(self).state == CaptureState::Requested && event is Buffer
                && !PixelFormat::spec_from_code(event->format).is_supported() ==> final(self).state
                == CaptureState::Failed(CaptureError::UnsupportedPixelFormat) && !(r is AllocateBuffer)
                && !(r is Copy),
    {
        match self.state {
            CaptureState::Idle | CaptureState::Ready(_) | CaptureState::Failed(_) => {
                return CaptureAction::Wait;
            },
            _ => {},
        }
        match event {
            FrameEvent::Failed => {
                self.state = CaptureState::Failed(CaptureError::ProtocolFailure);
                CaptureAction::Abort(CaptureError::ProtocolFailure)
            },
            FrameEvent::Other => CaptureAction::Wait,
            FrameEvent::Ready => match self.state {
                CaptureState::CopyRequested(dims) => {
                    self.state = CaptureState::Ready(dims);
                    CaptureAction::Finished(dims)
                },
                _ => {
                    self.state = CaptureState::Failed(CaptureError::ProtocolFailure);
                    CaptureAction::Abort(CaptureError::ProtocolFailure)
                },
            },
            FrameEvent::Buffer { format, width, height, stride } => match self.state {
                CaptureState::Requested => {
                    let dims = ImageDims {
                        width,
                        height,
                        stride,
                        format: PixelFormat::from_code(format),
                    };
                    if !dims.format.supported() {
                        self.state = CaptureState::Failed(CaptureError::UnsupportedPixelFormat);
                        return CaptureAction::Abort(CaptureError::UnsupportedPixelFormat);
                    }
                    match plan_buffer(&dims) {
                        Ok(plan) => {
                            self.state = CaptureState::BufferNegotiated(dims);
                            CaptureAction::AllocateBuffer(plan)
                        },
                        Err(e) => {
                            self.state = CaptureState::Failed(e);
                            CaptureAction::Abort(e)
                        },
                    }
                },
                _ => CaptureAction::Wait,
            },
        }
    }

    /// Reports how creating the planned buffer went: on success the copy is requested,
    /// on failure the capture fails with the error given.
    pub fn on_buffer_allocated(&mut self, result: Result<(), CaptureError>) -> (r: CaptureAction)
        requires
            old(self).state is BufferNegotiated,
        ensures
            result is Ok ==> final(self).state == CaptureState::CopyRequested(
                old(self).state->BufferNegotiated_0,
            ) && r == CaptureAction::Copy,
            result matches Err(e) ==> final(self).state == CaptureState::Failed(e) && r
                == CaptureAction::Abort(e),
    {
        match self.state {
            CaptureState::BufferNegotiated(dims) => match result {
                Ok(()) => {
                    self.state = CaptureState::CopyRequested(dims);
                    CaptureAction::Copy
                },
                Err(e) => {
                    self.state = CaptureState::Failed(e);
                    CaptureAction::Abort(e)
                },
            },
            _ => CaptureAction::Wait,
        }
    }

    /// How the capture resolved: `Ready` with the frame's dimensions, `Failed` with the
    /// reason, or `Pending` while it runs.
    pub fn outcome(&self) -> (r: CaptureOutcome)
        ensures
            self.state matches CaptureState::Ready(d) ==> r == CaptureOutcome::Ready(d),
            self.state matches CaptureState::Failed(e) ==> r == CaptureOutcome::Failed(e),
            !(self.state is Ready) && !(self.state is Failed) ==> r == CaptureOutcome::Pending,
    {
        match self.state {
            CaptureState::Ready(d) => CaptureOutcome::Ready(d),
            CaptureState::Failed(e) => CaptureOutcome::Failed(e),
            _ => CaptureOutcome::Pending,
        }
    }
}

} // verus!
