//! The rows of the tables.

pub mod levels;
pub mod locations;
pub mod residents;
pub mod timestamps;
