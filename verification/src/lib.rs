//! Load-benchmark engine for a remote minting service.
//!
//! A run has two phases. The submission phase ([`dispatch`]) sends rounds of
//! mint requests under a bounded number of permits and keeps the mints the
//! service accepted ([`accepted`]). The reconciliation phase ([`reconcile`])
//! looks at every accepted mint round after round ([`item`]) until each one
//! is resolved as created, failed or timed out, retrying failed mints where
//! the policy says so, and gathers one record per mint ([`record`]).
//!
//! The engine performs no I/O. Its driver sends the requests, reads the
//! clock ([`clock`]) and hands the engine what came back ([`graphql`],
//! [`mint`], [`remote`]); the engine decides. What holds of every run is
//! stated and proved in [`laws`].

pub mod accepted;
pub mod cli;
pub mod clock;
pub mod config;
pub mod dispatch;
pub mod graphql;
pub mod ids;
pub mod item;
pub mod laws;
pub mod mint;
pub mod reconcile;
pub mod record;
pub mod remote;
