//! Layouts for large image galleries, computed on integers.
//!
//! Given the width of a container, a thumbnail size and a padding, a
//! [`Layout`] places every item of a collection in rows of equal height
//! (masonry), in columns of equal width, or in a uniform grid, and keeps the
//! computed geometry in buffers that only grow.
//!
//! Every function states its result in its contract, over a mathematical
//! model of the data: [`model`] holds the model of the store, [`grid`],
//! [`vertical`] and [`horizontal`] what the three layouts are, and [`laws`]
//! what follows for every store. Lengths are pixels; sums of offsets saturate
//! at `u32::MAX`.
//!
//! Beside the layouts stand what is shipped with them: the mailbox between
//! the thread that asks for a layout and the worker that computes it
//! ([`sync`]), a buffer of decoded pixels ([`pixels`]), and the reading of a
//! crate's toolchain file ([`toolchain`]).

pub mod columns;
pub mod data;
pub mod geometry;
pub mod grid;
pub mod horizontal;
pub mod laws;
pub mod layout;
pub mod model;
pub mod packed;
pub mod pixels;
pub mod ratio;
pub mod rounding;
pub mod sync;
pub mod toolchain;
pub mod transform;
pub mod util;
pub mod vertical;

pub use columns::ColumnHeights;
pub use data::{execute, Computation, MasonryConfig, MasonryType};
pub use layout::Layout;
pub use packed::U32x4;
pub use ratio::{correct_aspect_ratio, AspectRatio};
pub use rounding::DivInt;
pub use transform::Transform;
pub use util::UnwrapOrAbort;
