//! Black & Gold: a tile-flipping simulation of bouncing balls on a shared
//! board, in fixed-point arithmetic.

pub mod ball;
pub mod board;
pub mod bounce;
pub mod frame;
pub mod laws;
pub mod random;
pub mod session;
pub mod simple_logger;
pub mod units;
pub mod vastness;
