//! A runtime that deploys sandboxed guest artifacts, keeps the table of running service
//! instances, and mediates every exchange between host state and guest code through
//! bounds-checked memory access and per-call registers.

pub mod artifact;
pub mod catalog;
pub mod dispatch;
pub mod error;
pub mod instance;
pub mod laws;
pub mod logic;
pub mod memory;
pub mod runtime;
pub mod service;
