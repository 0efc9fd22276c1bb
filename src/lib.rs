//! A self-initializing vector: O(1) indexed reads and writes over a fixed
//! capacity, where a slot's default value is produced only when the slot is
//! first touched.

mod init;
pub mod laws;
mod sivec;

pub use init::{Constant, Initializer, NoDefault};
pub use sivec::{SIVec, SIVecError, MAX_CAP};
