//! A weekly feed-digest service, verified.
//!
//! Feed entries arrive through an authenticated API and are kept in an
//! append-only store. Once per week a scheduler triggers compilation of the
//! entries that fall in the current calendar week (starting at the most
//! recent Sunday midnight) into a single digest payload, which a dispatcher
//! delivers to a list of webhook destinations, stopping at the first failure.

pub mod auth;
pub mod calendar;
pub mod digest;
pub mod dispatch;
pub mod errors;
pub mod link;
pub mod sched;
pub mod service;
pub mod store;
pub mod timefmt;
