//! A discretized complex field on a periodic one-dimensional grid.
//!
//! The library holds the parts of the engine whose behaviour is discrete:
//! the field buffers and their shape invariant, the ring topology of the
//! grid, the update order of one integration step (the scalar kernel is
//! supplied by the caller), the speed and pause controls of the driver, and
//! the ordered layout of the points that a projection emits.

pub mod ring;
pub mod field;
pub mod control;
pub mod projection;
