//! A vector with a capacity fixed in its type, and two futures that race the
//! pending operations held in such a vector.
//!
//! [`StaticVec`] holds at most `N` elements. An operation that would grow it
//! past `N` reports [`StaticVecError::CapacityExceeded`]; nothing is ever
//! dropped in silence to make room. [`SelectVec`] and [`SelectVecAndFut`] poll
//! the futures stored in a vector in index order and resolve to the first one
//! that completes; [`round`] holds the model of such a round and its laws.
pub mod error;
pub mod model;
pub mod round;
pub mod select;
pub mod store;
pub mod trusted;

pub use error::StaticVecError;
pub use round::Step;
pub use select::{SelectVec, SelectVecAndFut};
pub use store::StaticVec;
