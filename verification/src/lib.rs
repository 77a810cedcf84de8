//! Facility tracking: residents wear RFID tags, scans at location readers move
//! them between locations, and staff query residents, locations and movement
//! history.
//!
//! The crate holds the rules of that service as verified code: the toggle rule
//! applied on each scan, the tables with their invariants, and the read queries
//! over the movement history. Transport (HTTP, JSON, the database driver) is
//! left to the program built around it.

pub mod calendar;
pub mod controllers;
pub mod database;
pub mod entity;
pub mod error;
pub mod history;
pub mod models;
pub mod sequences;
pub mod store;
pub mod tables;
pub mod toggle;
