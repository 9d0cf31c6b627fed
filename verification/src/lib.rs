//! An isometric tile-map engine: terrain generation from sampled noise, the
//! isometric projection and its inverse, outline visibility, and the
//! viewport's reaction to input events, expressed as draw calls on a
//! recording canvas.

pub mod canvas;
pub mod events;
pub mod map;
pub mod outline;
pub mod projection;
pub mod render;
pub mod tile;
pub mod viewport;
