use vstd::prelude::*;

use crate::frame::{BufferPlan, FORMAT_ARGB8888};

verus! {

/// Evdev code of the Escape key, which closes the overlay.
pub const KEY_ESC: u32 = 1;

/// Where the overlay stands.
#[derive(Clone, Copy, Debug, PartialEq, Eq, Structural)]
pub enum OverlayState {
    Unopened,
    Open,
    Closed,
}

/// The answer to a configure notification: the serial to acknowledge, and the draw
/// buffer to allocate, fill and commit, if the surface is to be rendered.
#[derive(Clone, Copy, Debug, PartialEq, Eq, Structural)]
pub struct ConfigureReply {
    pub ack_serial: u32,
    pub render: Option<BufferPlan>,
}

/// The draw buffer for a proposed surface size: packed `Argb8888` rows without padding.
/// None where the size is zero or its byte count does not fit a pool.
pub open spec fn overlay_plan(width: u32, height: u32) -> Option<BufferPlan> {
    if width == 0 || height == 0 || 4 * (width as int) * (height as int) > i32::MAX {
        None
    } else {
        Some(
            BufferPlan {
                pool_size: (4 * (width as int) * (height as int)) as i32,
                offset: 0,
                width: width as i32,
                height: height as i32,
                stride: (4 * width as int) as i32,
                format: FORMAT_ARGB8888,
            },
        )
    }
}

/// The answer to a configure notification in `state`, shared memory bound or not.
pub open spec fn spec_configure_reply(
    state: OverlayState,
    has_shm: bool,
    serial: u32,
    width: u32,
    height: u32,
) -> ConfigureReply {
    ConfigureReply {
        ack_serial: serial,
        render: if state == OverlayState::Open && has_shm {
            overlay_plan(width, height)
        } else {
            None
        },
    }
}

/// Two configure notifications in a row are each acknowledged with their own serial,
/// in order, whether or not either is rendered; where the first comes while the overlay
/// cannot draw and the second while it can, at a size that fits a pool, only the second
/// is rendered.
pub proof fn lemma_each_configure_acknowledged(
    state1: OverlayState,
    has_shm1: bool,
    serial1: u32,
    width1: u32,
    height1: u32,
    state2: OverlayState,
    has_shm2: bool,
    serial2: u32,
    width2: u32,
    height2: u32,
)
    ensures
        spec_configure_reply(state1, has_shm1, serial1, width1, height1).ack_serial == serial1,
        spec_configure_reply(state2, has_shm2, serial2, width2, height2).ack_serial == serial2,
        !(state1 == OverlayState::Open && has_shm1) && state2 == OverlayState::Open && has_shm2
            && overlay_plan(width2, height2) is Some ==> {
            &&& spec_configure_reply(state1, has_shm1, serial1, width1, height1).render is None
            &&& spec_configure_reply(state2, has_shm2, serial2, width2, height2).render is Some
        },
{
}

/// The full-screen input overlay raised after a capture.
pub struct OverlaySession {
    pub state: OverlayState,
}

impl OverlaySession {
    /// An overlay not yet raised.
    pub fn new() -> (r: OverlaySession)
        ensures
            r.state == OverlayState::Unopened,
    {
        OverlaySession { state: OverlayState::Unopened }
    }

    /// Raises the overlay when both a compositor and a layer shell are bound, and says
    /// whether its surface is to be created; otherwise the overlay is skipped and closed.
    pub fn open(&mut self, has_compositor: bool, has_shell: bool) -> (r: bool)
        requires
            old(self).state == OverlayState::Unopened,
        ensures
            r == (has_compositor && has_shell),
            r ==> final(self).state == OverlayState::Open,
            !r ==> final(self).state == OverlayState::Closed,
    {
        if has_compositor && has_shell {
            self.state = OverlayState::Open;
            true
        } else {
            self.state = OverlayState::Closed;
            false
        }
    }

    /// Answers a configure notification: its serial is always acknowledged; an open
    /// overlay with shared memory at hand is rendered at the proposed size.
    pub fn on_configure(&self, serial: u32, width: u32, height: u32, has_shm: bool) -> (r:
        ConfigureReply)
        ensures
            r == spec_configure_reply(self.state, has_shm, serial, width, height),
            r.ack_serial == serial,
            r.render == (if self.state == OverlayState::Open && has_shm {
                overlay_plan(width, height)
            } else {
                None
            }),
    {
        if !(matches!(self.state, OverlayState::Open) && has_shm) || width == 0 || height == 0
            || width > 0x1fff_ffff {
            proof {
                if width > 0x1fff_ffff && height >= 1 {
                    assert(4 * (width as int) * (height as int) >= 4 * (width as int))
                        by (nonlinear_arith)
                        requires
                            height >= 1,
                            width >= 0,
                    ;
                }
            }
            return ConfigureReply { ack_serial: serial, render: None };
        }
        let stride: u64 = 4 * (width as u64);
        proof {
            assert(stride * height as int == 4 * (width as int) * (height as int))
                by (nonlinear_arith)
                requires
                    stride == 4 * (width as int),
            ;
            assert(stride * height as int <= 0x7fff_fffc * 0xffff_ffff) by (nonlinear_arith)
                requires
                    stride <= 0x7fff_fffc,
                    height <= 0xffff_ffff,
            ;
        }
        let size: u64 = stride * (height as u64);
        if size > 0x7fff_ffffu64 {
            return ConfigureReply { ack_serial: serial, render: None };
        }
        proof {
            assert(stride <= size) by (nonlinear_arith)
                requires
                    size == stride * height as int,
                    height >= 1,
                    stride >= 0,
            ;
        }
        let plan = BufferPlan {
            pool_size: size as i32,
            offset: 0,
            width: width as i32,
            height: height as i32,
            stride: stride as i32,
            format: FORMAT_ARGB8888,
        };
        ConfigureReply { ack_serial: serial, render: Some(plan) }
    }

    /// Handles a key event: pressing Escape closes an open overlay.
    pub fn on_key(&mut self, key: u32, pressed: bool)
        ensures
            old(self).state == OverlayState::Open && pressed && key == KEY_ESC
                ==> final(self).state == OverlayState::Closed,
            !(old(self).state == OverlayState::Open && pressed && key == KEY_ESC)
                ==> final(self).state == old(self).state,
    {
        if matches!(self.state, OverlayState::Open) && pressed && key == KEY_ESC {
            self.state = OverlayState::Closed;
        }
    }

    /// The compositor closed the surface: the overlay is closed, whatever its state.
    pub fn on_closed(&mut self)
        ensures
            final(self).state == OverlayState::Closed,
    {
        self.state = OverlayState::Closed;
    }

    /// Whether the overlay is open, so that the driver keeps dispatching.
    pub fn is_open(&self) -> (r: bool)
        ensures
            r == (self.state == OverlayState::Open),
    {
        matches!(self.state, OverlayState::Open)
    }
}

/// Whether a seat's capability bits announce a keyboard.
pub fn seat_has_keyboard(capabilities: u32) -> (r: bool)
    ensures
        r == (capabilities & 2 != 0),
{
    capabilities & 2 != 0
}

} // verus!
