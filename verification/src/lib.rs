//! A generalized Langton's Ant (turmite) simulation on an unbounded
//! two-dimensional lattice, together with the pure parts of a terminal
//! renderer: a rotation table parsed from a symbol sequence, a sparse board
//! mapping lattice coordinates to cyclic state indices, a palette of display
//! colors derived by perceptual interpolation, and an exact dual-resolution
//! mapping between lattice coordinates and terminal cells.

pub mod canvas;
pub mod colors;
pub mod geometry;
pub mod simulator;

pub use canvas::Canvas;
pub use canvas::PaintOp;
pub use colors::ColorPalette;
pub use geometry::Mat2;
pub use geometry::Vec2;
pub use simulator::InvalidRotationSymbol;
pub use simulator::Simulator;
