//! What each route answers, given the tables and the request.

pub mod locations_controller;
pub mod residents_controller;
pub mod timestamps_controller;
