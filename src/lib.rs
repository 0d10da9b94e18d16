//! Grid visibility by recursive shadowcasting, with per-cell direction
//! bitmaps and scalar opacity.
//!
//! `ShadowcastContext::for_each` reports each cell that an eye can see,
//! together with the edges and corners of the cell that face the eye and the
//! visibility that reached it. Its result is stated exactly by the spec
//! function `shadowcast::shadowcast`, and the laws in `shadowcast` and
//! `vision_distance` are proved of that function.

mod geometry;
mod grid;
pub mod octants;
pub mod shadowcast;
pub mod vision_distance;

pub use geometry::{Coord, Direction, DirectionBitmap, Size, CARDINAL_BITS};
pub use grid::{InputGrid, OpacityGrid};
pub use shadowcast::{ShadowcastContext, Sighting};
pub use vision_distance::VisionDistance;
