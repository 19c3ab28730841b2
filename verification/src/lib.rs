//! A population of random walkers on a toroidal canvas whose survival depends
//! on the brightness of the previously rendered frame under their feet.
//!
//! All quantities are integers on a lattice chosen by the host: a heading of
//! length one is `UNIT` lattice steps long, and a position advances by
//! `velocity * speed` per tick, exactly. Angles are whole numbers of a unit of
//! the host's choice; the rotation itself is lent by the host, which is
//! handed the amount in hundredths of that unit.

pub mod dice;
pub mod frame;
pub mod geometry;
pub mod walker;
pub mod walkers;

pub use crate::frame::{Frame, Pixel};
pub use crate::geometry::{Vec2, UNIT};
pub use crate::walker::{Segment, Walker};
pub use crate::walkers::{Params, Rolls, TickError, Walkers, MAX_EXTENT};
