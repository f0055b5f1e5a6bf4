//! Lease-based dispatch of rebuild jobs: a queue whose items are leased to
//! one worker at a time, the registry of workers, the catalog of package
//! releases, and the decisions of the worker-side rebuild pipeline.

pub mod api;
pub mod artifact;
pub mod auth;
pub mod catalog;
pub mod clock;
pub mod laws;
pub mod queue;
pub mod rebuild;
pub mod registry;
