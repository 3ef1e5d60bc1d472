//! Atlas allocation and frame-gated compositing for many independently sized
//! 2D surfaces sharing one square texture.
//!
//! The library packs the rectangles of a changing set of surfaces into a
//! single square atlas (growing and shrinking the atlas as the working set
//! changes), guards the expensive composite-and-copy step so that it runs at
//! most once per frame however often the render graph invokes it, and plans
//! the per-surface region copies from the atlas back into each surface's own
//! destination texture.

pub mod atlas;
pub mod buffer;
pub mod geom;
pub mod node;
pub mod shelf;
