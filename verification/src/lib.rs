//! A personal time-tracking library.
//!
//! A user starts and stops *activities*: time intervals tagged with free-form
//! labels. At most one activity is ongoing at any time; stopping it turns it
//! into a finished record with a unique identifier, kept in a store that can
//! be filtered and edited.
//!
//! The crate is organised leaf to root:
//! - [`datetimew`]: the second-resolution instant type;
//! - [`activity`]: ongoing and finished activities, with the interval
//!   invariant `start_time <= end_time`;
//! - [`errors`]: the error kinds surfaced to callers;
//! - [`model`]: the mathematical model of a tracking session and the proved
//!   laws about its transitions;
//! - [`storage`]: the two storage capability traits the service is written
//!   against;
//! - [`memory`]: in-memory implementations of the storage capabilities;
//! - [`service`]: the activity lifecycle service itself.

pub mod activity;
pub mod datetimew;
pub mod errors;
pub mod memory;
pub mod model;
pub mod service;
pub mod storage;
