//! Trailing-window bookkeeping for rolling power-means over the columns of a
//! matrix of IEEE 754 single-precision cells.
//!
//! Cells are carried as their 32-bit patterns. The library decides, row by
//! row, which observation enters the window, which one leaves it, how many
//! observations the window holds and whether a mean is due; the caller owns
//! the arithmetic on the values themselves.

pub mod observation;
pub mod window;
pub mod sweep;
pub mod matrix;
pub mod protocol;
pub mod laws;

pub use matrix::{Matrix, ShapeFault};
pub use observation::missing;
pub use protocol::get_stat_protocol;
pub use sweep::sweep_column;
pub use window::Step;
