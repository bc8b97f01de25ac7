//! The options of the command line.

use vstd::prelude::*;
use std::path::PathBuf;

verus! {

/// `std::path::PathBuf`, carried through as it is; nothing is claimed of what it holds.
#[verifier::external_type_specification]
#[verifier::external_body]
pub struct ExPathBuf(PathBuf);

/// Copying a `PathBuf` (`Clone::clone`); nothing is claimed of the copy.
pub assume_specification[ <PathBuf as Clone>::clone ](path: &PathBuf) -> PathBuf;

/// All options of one invocation.
#[derive(Debug, Clone)]
pub struct Opt {
    pub global: GlobalOptions,
    pub cmd: Cli,
}

/// Where the configuration is read from and the report is written to.
#[derive(Debug, Clone)]
pub struct GlobalOptions {
    /// The configuration file.
    pub config: PathBuf,
    /// The report.
    pub output: PathBuf,
}

/// The shape of the run.
#[derive(Debug, Clone, Copy, PartialEq, Eq, Structural)]
pub struct Cli {
    /// Number of concurrent requests.
    pub parallelism: usize,
    /// Number of iterations to run.
    pub iterations: usize,
    /// Seconds to wait between two iterations.
    pub delay: u64,
    /// Whether failed mints are retried.
    pub retry: bool,
}

impl Default for Cli {
    /// A run of nothing: no requests, no iterations, no delay, no retries.
    fn default() -> (cli: Cli)
        ensures
            cli == (Cli { parallelism: 0, iterations: 0, delay: 0, retry: false }),
    {
        Cli { parallelism: 0, iterations: 0, delay: 0, retry: false }
    }
}

} // verus!
