//! The back end of a newsletter service: readers subscribe and confirm through
//! an emailed token, and an administrator publishes issues to the confirmed
//! audience. Requests that trigger emails are guarded so that a retried or
//! duplicated request never produces a second externally visible effect.

pub mod domain;
pub mod idempotency;
pub mod subscriptions;
pub mod newsletters;
pub mod errors;
pub mod password;
pub mod utils;
