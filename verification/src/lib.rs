//! Function multiversioning with capability-gated dispatch.
//!
//! Several implementations of one function are each compiled for a different
//! set of processor capabilities. This crate decides which of them a call
//! site runs: it models the targets, orders them by priority, resolves the
//! dispatch method and selects a variant for a machine.
//!
//! - `target`, `target_list`, `priority`: targets, lists of them and their
//!   priority order.
//! - `method`, `environment`, `plan`: dispatch methods, what the build knows
//!   of the processor, and the plan of a dispatch site.
//! - `selector`: selection at run time and what a dispatch site remembers.
//! - `options`, `syntax`: the options of the attribute, read with `syn`.
//! - `rustflags`: the compiler flags that harden indirect branches.
//! - `error`, `search`, `text`: errors and helpers.

pub mod environment;
pub mod error;
pub mod method;
pub mod options;
pub mod plan;
pub mod priority;
pub mod rustflags;
pub mod search;
pub mod selector;
pub mod syntax;
pub mod target;
pub mod target_list;
pub mod text;
