//! The consumer side of the pipeline: preferences, view state and the
//! delegate that schedules and applies updates.

pub mod delegate;
pub mod rate;
pub mod types;
pub mod view;
pub mod window;
