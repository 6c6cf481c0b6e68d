//! Core of a load-generation and correctness-stress tool for a clustered
//! database: deterministic synthetic row generation, row validation,
//! the operation execution framework, sharded run statistics, and the
//! worker-pool control loop.
//!
//! All network I/O (session establishment, statement preparation, request
//! execution) lives outside this crate; the functions here compute what to
//! send and decide what every possible reply means.

pub mod codec;
pub mod distribution;
pub mod error;
pub mod generator;
pub mod operation;
pub mod run;
pub mod settings;
pub mod stats;
pub mod validator;
pub mod value;
