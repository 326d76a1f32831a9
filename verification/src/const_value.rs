//! Model file names and download locations.
pub mod v1;
pub mod v2;
