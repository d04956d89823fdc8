//! Retrying an operation that can succeed, fail recoverably or fail fatally.
//!
//! The recoverable error type carries the policy: how long to wait before the
//! next attempt, given every recoverable failure seen so far, and when to give
//! up. The [`try_again::Orchestrator`] keeps the failure history, consults the
//! policy after each attempt and, once retrying has ended, hands the history
//! and the final error to the caller's loggers.
pub mod clock;
pub mod retryable;
pub mod run;
pub mod status;
pub mod try_again;

pub use retryable::{Retryable, RetryableResult};
