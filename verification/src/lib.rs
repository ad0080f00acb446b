//! Lookup of geolocation records by IP address, with a fixed vocabulary of
//! failures and their HTTP representation.

pub mod address;
pub mod database;
pub mod grammar;
pub mod handler;
pub mod laws;
pub mod parse;
pub mod taxonomy;

pub use address::IpAddress;
pub use database::{GeoDatabase, Image};
pub use handler::{city, country, liveness, record_reply, respond};
pub use taxonomy::{LookupError, Reply};
