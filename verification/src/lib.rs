//! Core of a multi-user note service: a revisioned note store that keeps
//! revision numbers monotonically consistent under partial updates, and a
//! collaboration relay that fans inbound edits out to every live subscriber
//! of the same note. Text is carried as raw bytes throughout; transport,
//! persistence and token plumbing live outside this crate.

pub mod auth;
pub mod errors;
pub mod models;
pub mod frame;
pub mod relay;
pub mod store;
