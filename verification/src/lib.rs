//! Discovery and synchronization audit for a fleet of local
//! version-control checkouts.
//!
//! The library walks an in-memory picture of a directory tree to find
//! repository roots under a bounded-depth traversal policy
//! ([`explore`]), reconciles each repository's local branch tips against
//! every remote's tracking tips to classify warnings ([`check`],
//! [`tips`]), and reduces the per-repository outcomes into one aggregate
//! through a commutative, associative combination ([`stats`], [`scan`]).
//! The version-control backend itself, the worker pool and the output
//! streams stand behind the trusted boundary in [`backend`].

pub mod backend;
pub mod check;
pub mod err;
pub mod explore;
pub mod options;
pub mod report;
pub mod scan;
pub mod seqtools;
pub mod stats;
pub mod tips;
pub mod util;
