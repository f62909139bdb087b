//! A small record library: named "waffle" records owned by the signer who
//! created them, each located at an address derived deterministically from
//! the record's name.

pub mod address;
pub mod error;
pub mod store;
pub mod waffle;
