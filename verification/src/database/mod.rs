//! The store as a service: one request in, one answer out.

pub mod db;
