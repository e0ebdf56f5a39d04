use vstd::prelude::*;

verus! {

/// Why a capture or an overlay session was abandoned.
#[derive(Clone, Copy, Debug, PartialEq, Eq, Structural)]
pub enum CaptureError {
    /// A compositor capability that the step needs was never announced.
    MissingCapability,
    /// The compositor chose a pixel encoding that the normalizer cannot read.
    UnsupportedPixelFormat,
    /// The shared-memory region could not be created or sized.
    AllocationFailure,
    /// The compositor reported the capture as failed, or broke the protocol.
    ProtocolFailure,
    /// A region selection reaches past the captured image.
    RegionOutOfBounds,
}

} // verus!
