//! Geometry core of a small 2D vector-graphics toolkit.
//!
//! Paths are built from lines, cubic curves and arcs.  A drawing compiles them
//! into triangles with the side data that a tessellating renderer needs: closed
//! paths by ear clipping, open paths segment by segment.  Everything works on
//! an integer grid, so that every geometric decision is exact.

use vstd::prelude::*;

pub mod area;
pub mod clipping;
pub mod convex;
pub mod drawing;
pub mod edges;
pub mod error;
pub mod geometry;
pub mod monotone;
pub mod path;
pub mod shader;
pub mod triangulation;

pub use drawing::Drawing;
pub use error::TrdlError;
pub use path::Path;
