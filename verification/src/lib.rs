//! Incremental construction of fixed-length, fully initialized arrays.
//!
//! The crate offers three layers. The [`builder`] module holds a
//! low-level bounded builder with checked push and finish operations.
//! The [`move_builder`] module wraps it in a move-based builder whose
//! very existence as a value proves that the array under construction is
//! not yet full, so that pushing through it can neither fail nor panic.
//! The [`construct`] module drives the move-based builder with a
//! caller-supplied per-element producer — no-argument, index-taking,
//! prefix-taking, fallible or not — or with an iterator or a cloned
//! seed, and is the intended entry point for most callers; its drivers
//! are re-exported at the crate root.

pub mod builder;
pub mod construct;
pub mod move_builder;

pub use construct::build;
pub use construct::build_cloned;
pub use construct::build_indexed;
pub use construct::build_iter;
pub use construct::build_prefix;
pub use construct::try_build;
pub use construct::try_build_indexed;
pub use construct::try_build_iter;
pub use construct::try_build_prefix;
pub use construct::IndexedError;
