use vstd::prelude::*;
use vstd::string::StringSliceAdditionalSpecFns;

use crate::capture::{spec_next, CaptureAction, CaptureSession, CaptureState, FrameEvent};
use crate::error::CaptureError;
use crate::frame::{can_allocate, plan_buffer, spec_plan, BufferPlan, ImageDims, PixelFormat};
use crate::overlay::{overlay_plan, spec_configure_reply, ConfigureReply, OverlaySession, OverlayState, KEY_ESC};
use crate::registry::{cap_bound, count_outputs, spec_to_bind, Capability, CapabilitySet};

verus! {

/// The state of one run, threaded through every compositor notification: the bound
/// capabilities, the capture, the overlay, and the dimensions of the captured frame.
pub struct RShotState {
    pub capabilities: CapabilitySet,
    pub capture: CaptureSession,
    pub overlay: OverlaySession,
    pub image_dims: ImageDims,
}

impl RShotState {
    pub open spec fn wf(&self) -> bool {
        self.capabilities.wf()
    }

    /// A run before any announcement.
    pub fn new() -> (r: RShotState)
        ensures
            r.wf(),
            r.capabilities@ == Seq::<(u32, Capability)>::empty(),
            r.capture.state == CaptureState::Idle,
            r.overlay.state == OverlayState::Unopened,
            r.image_dims == (ImageDims {
                width: 0,
                height: 0,
                stride: 0,
                format: PixelFormat::Xbgr8888,
            }),
    {
        RShotState {
            capabilities: CapabilitySet::new(),
            capture: CaptureSession::new(),
            overlay: OverlaySession::new(),
            image_dims: ImageDims::default(),
        }
    }

    /// Handles a registry announcement: the capability to bind, if any.
    pub fn on_global(&mut self, id: u32, interface: &str) -> (r: Option<Capability>)
        requires
            old(self).wf(),
        ensures
            final(self).wf(),
            r == spec_to_bind(old(self).capabilities@, id, interface.spec_bytes()),
            r matches Some(cap) ==> final(self).capabilities@ == old(self).capabilities@.push(
                (id, cap),
            ),
            r is None ==> final(self).capabilities@ == old(self).capabilities@,
            final(self).capture == old(self).capture,
            final(self).overlay == old(self).overlay,
            final(self).image_dims == old(self).image_dims,
    {
        self.capabilities.on_global(id, interface)
    }

    /// Requests the capture of the first output, or fails with `MissingCapability`
    /// where no screencopy manager, no shared memory or no output is bound.
    pub fn capture_screenshot(&mut self) -> (r: CaptureAction)
        requires
            old(self).capture.state == CaptureState::Idle,
        ensures
            final(self).capabilities == old(self).capabilities,
            final(self).overlay == old(self).overlay,
            final(self).image_dims == old(self).image_dims,
            ({
                let ok = cap_bound(old(self).capabilities@, Capability::ScreencopyManager)
                    && cap_bound(old(self).capabilities@, Capability::Shm)
                    && count_outputs(old(self).capabilities@) > 0;
                &&& ok ==> final(self).capture.state == CaptureState::Requested && r == (
                CaptureAction::RequestCapture { output: 0 })
                &&& !ok ==> final(self).capture.state == CaptureState::Failed(
                    CaptureError::MissingCapability,
                ) && r == CaptureAction::Abort(CaptureError::MissingCapability)
            }),
    {
        let has_manager = self.capabilities.has(Capability::ScreencopyManager);
        let has_shm = self.capabilities.has(Capability::Shm);
        let outputs = self.capabilities.output_count();
        self.capture.start(has_manager && has_shm, outputs, 0)
    }

    /// Handles a notification of the capture's frame object; an accepted buffer
    /// description becomes the run's image dimensions.
    pub fn on_frame_event(&mut self, event: FrameEvent) -> (r: CaptureAction)
        ensures
            (final(self).capture.state, r) == spec_next(old(self).capture.state, event),
            final(self).capabilities == old(self).capabilities,
            final(self).overlay == old(self).overlay,
            final(self).capture.state matches CaptureState::BufferNegotiated(d)
                ==> final(self).image_dims == d,
            !(final(self).capture.state is BufferNegotiated) ==> final(self).image_dims
                == old(self).image_dims,
    {
        let action = self.capture.on_event(event);
        if let CaptureState::BufferNegotiated(d) = self.capture.state {
            self.image_dims = d;
        }
        action
    }

    /// Plans the shared-memory buffer for the negotiated frame: a pool of exactly stride
    /// times height bytes and one view at offset zero with the frame's geometry and
    /// format. Fails with `MissingCapability` where no shared memory is bound, with
    /// `AllocationFailure` for a zero height or stride or a size past the pool's limit,
    /// and with `ProtocolFailure` for a stride too short for its row.
    pub fn create_buffer(&self) -> (r: Result<BufferPlan, CaptureError>)
        ensures
            !cap_bound(self.capabilities@, Capability::Shm) ==> r == Err::<BufferPlan, CaptureError>(
                CaptureError::MissingCapability,
            ),
            cap_bound(self.capabilities@, Capability::Shm) ==> {
                &&& r is Ok <==> can_allocate(self.image_dims) && self.image_dims.wf()
                &&& !can_allocate(self.image_dims) ==> r == Err::<BufferPlan, CaptureError>(
                    CaptureError::AllocationFailure,
                )
                &&& can_allocate(self.image_dims) && !self.image_dims.wf() ==> r == Err::<
                    BufferPlan,
                    CaptureError,
                >(CaptureError::ProtocolFailure)
            },
            r matches Ok(p) ==> p == spec_plan(self.image_dims) && p.pool_size as int
                == self.image_dims.stride as int * self.image_dims.height as int,
    {
        if !self.capabilities.has(Capability::Shm) {
            return Err(CaptureError::MissingCapability);
        }
        plan_buffer(&self.image_dims)
    }

    /// Reports how creating the planned capture buffer went: on success the copy is
    /// requested, on failure the capture fails with the error given.
    pub fn on_buffer_allocated(&mut self, result: Result<(), CaptureError>) -> (r: CaptureAction)
        requires
            old(self).capture.state is BufferNegotiated,
        ensures
            result is Ok ==> final(self).capture.state == CaptureState::CopyRequested(
                old(self).capture.state->BufferNegotiated_0,
            ) && r == CaptureAction::Copy,
            result matches Err(e) ==> final(self).capture.state == CaptureState::Failed(e) && r
                == CaptureAction::Abort(e),
            final(self).capabilities == old(self).capabilities,
            final(self).overlay == old(self).overlay,
            final(self).image_dims == old(self).image_dims,
    {
        self.capture.on_buffer_allocated(result)
    }

    /// Raises the overlay where a compositor and a layer shell are bound; says whether
    /// its surface is to be created.
    pub fn create_layer_surface(&mut self) -> (r: bool)
        requires
            old(self).overlay.state == OverlayState::Unopened,
        ensures
            r == (cap_bound(old(self).capabilities@, Capability::Compositor) && cap_bound(
                old(self).capabilities@,
                Capability::LayerShell,
            )),
            r ==> final(self).overlay.state == OverlayState::Open,
            !r ==> final(self).overlay.state == OverlayState::Closed,
            final(self).capabilities == old(self).capabilities,
            final(self).capture == old(self).capture,
            final(self).image_dims == old(self).image_dims,
    {
        let has_compositor = self.capabilities.has(Capability::Compositor);
        let has_shell = self.capabilities.has(Capability::LayerShell);
        self.overlay.open(has_compositor, has_shell)
    }

    /// Answers a configure notification of the overlay surface: always acknowledged,
    /// rendered at the proposed size where the overlay is open and shared memory bound.
    pub fn on_configure(&self, serial: u32, width: u32, height: u32) -> (r: ConfigureReply)
        ensures
            r == spec_configure_reply(
                self.overlay.state,
                cap_bound(self.capabilities@, Capability::Shm),
                serial,
                width,
                height,
            ),
            r.ack_serial == serial,
            r.render == (if self.overlay.state == OverlayState::Open && cap_bound(
                self.capabilities@,
                Capability::Shm,
            ) {
                overlay_plan(width, height)
            } else {
                None
            }),
    {
        let has_shm = self.capabilities.has(Capability::Shm);
        self.overlay.on_configure(serial, width, height, has_shm)
    }

    /// Handles a key event: Escape pressed closes an open overlay.
    pub fn on_key(&mut self, key: u32, pressed: bool)
        ensures
            old(self).overlay.state == OverlayState::Open && pressed && key == KEY_ESC
                ==> final(self).overlay.state == OverlayState::Closed,
            !(old(self).overlay.state == OverlayState::Open && pressed && key == KEY_ESC)
                ==> final(self).overlay.state == old(self).overlay.state,
            final(self).capabilities == old(self).capabilities,
            final(self).capture == old(self).capture,
            final(self).image_dims == old(self).image_dims,
    {
        self.overlay.on_key(key, pressed)
    }

    /// The compositor closed the overlay surface.
    pub fn on_layer_closed(&mut self)
        ensures
            final(self).overlay.state == OverlayState::Closed,
            final(self).capabilities == old(self).capabilities,
            final(self).capture == old(self).capture,
            final(self).image_dims == old(self).image_dims,
    {
        self.overlay.on_closed()
    }

    /// Whether the overlay is open, so that the driver keeps dispatching.
    pub fn application_open(&self) -> (r: bool)
        ensures
            r == (self.overlay.state == OverlayState::Open),
    {
        self.overlay.is_open()
    }
}

} // verus!
