//! The application's own primitives: scheduling, the worker runtime and the
//! health status.

pub mod http;
pub mod runtime;
pub mod scheduler;
