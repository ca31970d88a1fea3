//! Per-frame synchronisation and dynamic draw-batch construction for a
//! real-time renderer, stated over plain values and proved with Verus.
//!
//! The GPU itself (buffers, pipelines, swapchains, fences) is held by the
//! caller; this crate decides what is drawn, in which order, which buffer a
//! mesh reads, when a swapchain image may be recorded again and when the
//! surface must be rebuilt.
use vstd::prelude::*;

pub mod batch;
pub mod device;
pub mod frame;
pub mod pipelines;

verus! {

/// The renderer as a system of the engine's update loop. It keeps no state of
/// its own: each tick it calls [`frame::handle_possible_resize`] and then
/// renders one frame, with the state that the caller owns.
#[derive(Clone, Copy, Debug, Default)]
pub struct RendererHandler {}

} // verus!
