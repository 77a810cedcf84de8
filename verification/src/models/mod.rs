//! The shapes of requests and responses.

pub mod locations;
pub mod residents;
pub mod response;
pub mod timestamps;
