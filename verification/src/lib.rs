//! Core engine of an iterative, plan-driven development loop.
//!
//! The library models markdown task plans, a hierarchical feature index,
//! a line-delimited JSON event stream, the hook exit-code protocol, and
//! the decisions of the iteration loop, each with a verified contract.

pub mod config;
pub mod engine;
pub mod hooks;
pub mod impl_plan;
pub mod state;
pub mod streaming;
pub mod text;
pub mod verify;
