//! The configuration of a run and the plan that follows from it.

use vstd::prelude::*;
use crate::cli::Opt;
use crate::item::Policy;

verus! {

/// Everything a run is configured with.
#[derive(Debug)]
pub struct Config {
    pub hub: Hub,
    pub settings: Settings,
    pub mint: MintConfig,
}

/// The settings of the engine; each may be left open.
#[derive(Debug, Clone)]
pub struct Settings {
    /// Requests per round.
    pub parallelism: Option<usize>,
    /// Rounds to run.
    pub iterations: Option<usize>,
    /// Seconds between two rounds.
    pub delay: Option<u64>,
    /// Whether failed mints are retried.
    pub retry: Option<bool>,
    /// How much is logged.
    pub log_level: Option<String>,
    /// Seconds a mint may stay pending.
    pub timeout: Option<u64>,
    /// Seconds between two rounds of status checks.
    pub retry_delay: Option<u64>,
}

/// Where the service is and how to authenticate to it.
#[derive(Debug)]
pub struct Hub {
    pub url: String,
    pub token: String,
}

/// What is minted.
#[derive(Debug, Clone)]
pub struct MintConfig {
    pub collection_id: String,
    pub recipient: String,
    pub creator: CreatorConfig,
    pub description: String,
    pub compressed: bool,
    pub image: String,
}

/// The creator named in each mint.
#[derive(Debug, Clone)]
pub struct CreatorConfig {
    pub address: String,
    pub verified: bool,
}

/// Seconds a mint may stay pending where the settings leave it open.
pub const DEFAULT_TIMEOUT: u64 = 400;

/// Seconds between two rounds of status checks where the settings leave it open.
pub const DEFAULT_RETRY_DELAY: u64 = 10;

/// What a run is going to do.
#[derive(Clone, Copy, Debug, PartialEq, Eq, Structural)]
pub struct Plan {
    /// Requests per round.
    pub parallelism: usize,
    /// Rounds to run.
    pub iterations: usize,
    /// Seconds between two rounds.
    pub delay: u64,
    /// Requests in all.
    pub total_mints: usize,
    /// The rules of reconciliation.
    pub policy: Policy,
    /// Seconds to wait between the last request and the first status check, if any.
    pub settle_wait: Option<u64>,
}

/// Why the settings ask for no plan.
#[derive(Clone, Copy, Debug, PartialEq, Eq, Structural)]
pub enum PlanError {
    /// The parallelism is not set.
    NoParallelism,
    /// The number of iterations is not set.
    NoIterations,
    /// The parallelism times the iterations does not fit the machine.
    TooManyMints,
}

/// An option's value, or `default` where it holds none.
pub open spec fn or_default<T>(option: Option<T>, default: T) -> T {
    match option {
        Some(value) => value,
        None => default,
    }
}

/// The rules of reconciliation that the settings ask for: a pending timeout
/// of 400 seconds and a poll interval of 10 seconds where they are left
/// open, and no retries unless asked for.
pub open spec fn policy_of(settings: Settings) -> Policy {
    Policy {
        pending_timeout: or_default(settings.timeout, DEFAULT_TIMEOUT),
        poll_interval: or_default(settings.retry_delay, DEFAULT_RETRY_DELAY),
        retry_enabled: or_default(settings.retry, false),
    }
}

/// The plan that the settings ask for. There is one where the parallelism
/// and the number of iterations are set and their product fits the machine;
/// otherwise the first of these that fails is the error. A run of fewer than
/// two iterations waits one poll interval before its first status check.
pub open spec fn plan_of(settings: Settings) -> Result<Plan, PlanError> {
    match (settings.parallelism, settings.iterations) {
        (None, _) => Err(PlanError::NoParallelism),
        (Some(_), None) => Err(PlanError::NoIterations),
        (Some(parallelism), Some(iterations)) => if parallelism * iterations <= usize::MAX {
            Ok(
                Plan {
                    parallelism,
                    iterations,
                    delay: or_default(settings.delay, 0),
                    total_mints: (parallelism * iterations) as usize,
                    policy: policy_of(settings),
                    settle_wait: if iterations < 2 {
                        Some(policy_of(settings).poll_interval)
                    } else {
                        None
                    },
                },
            )
        } else {
            Err(PlanError::TooManyMints)
        },
    }
}

impl Settings {
    /// The settings with the shape of the run taken from the command line:
    /// parallelism, iterations, delay and retry are what the command line
    /// says, everything else stays.
    pub fn merge(self, cli: &Opt) -> (merged: Settings)
        ensures
            merged.parallelism == Some(cli.cmd.parallelism),
            merged.iterations == Some(cli.cmd.iterations),
            merged.delay == Some(cli.cmd.delay),
            merged.retry == Some(cli.cmd.retry),
            merged.log_level == self.log_level,
            merged.timeout == self.timeout,
            merged.retry_delay == self.retry_delay,
    {
        let mut settings = self;
        let cmd = cli.cmd;
        settings.parallelism = Some(cmd.parallelism);
        settings.iterations = Some(cmd.iterations);
        settings.delay = Some(cmd.delay);
        settings.retry = Some(cmd.retry);
        settings
    }

    /// The rules of reconciliation that the settings ask for.
    pub fn policy(&self) -> (policy: Policy)
        ensures
            policy == policy_of(*self),
    {
        Policy {
            pending_timeout: match self.timeout {
                Some(secs) => secs,
                None => DEFAULT_TIMEOUT,
            },
            poll_interval: match self.retry_delay {
                Some(secs) => secs,
                None => DEFAULT_RETRY_DELAY,
            },
            retry_enabled: match self.retry {
                Some(retry) => retry,
                None => false,
            },
        }
    }

    /// The plan that the settings ask for, or why there is none.
    pub fn plan(&self) -> (plan: Result<Plan, PlanError>)
        ensures
            plan == plan_of(*self),
    {
        let parallelism = match self.parallelism {
            Some(n) => n,
            None => { return Err(PlanError::NoParallelism); },
        };
        let iterations = match self.iterations {
            Some(n) => n,
            None => { return Err(PlanError::NoIterations); },
        };
        let total_mints = match parallelism.checked_mul(iterations) {
            Some(n) => n,
            None => { return Err(PlanError::TooManyMints); },
        };
        let policy = self.policy();
        Ok(
            Plan {
                parallelism,
                iterations,
                delay: match self.delay {
                    Some(secs) => secs,
                    None => 0,
                },
                total_mints,
                policy,
                settle_wait: if iterations < 2 {
                    Some(policy.poll_interval)
                } else {
                    None
                },
            },
        )
    }
}

} // verus!
