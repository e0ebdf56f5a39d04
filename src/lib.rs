//! Still-frame screen capture over a compositor's screencopy protocol: the
//! capability registry, the capture and overlay session state machines, the
//! shared-memory buffer geometry and the pixel-format normalizer.
pub mod error;
pub mod frame;
pub mod render;
pub mod registry;
pub mod capture;
pub mod overlay;
pub mod argparser;
pub mod state;
