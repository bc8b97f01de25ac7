use std::path::PathBuf;

use benchy::cli::{Cli, GlobalOptions, Opt};
use benchy::config::{Plan, PlanError, Settings, DEFAULT_RETRY_DELAY, DEFAULT_TIMEOUT};
use benchy::item::Policy;
use benchy::record::{count_failures, finalize, Record, Summary};

fn open_settings() -> Settings {
    Settings {
        parallelism: None,
        iterations: None,
        delay: None,
        retry: None,
        log_level: None,
        timeout: None,
        retry_delay: None,
    }
}

fn options(cmd: Cli) -> Opt {
    Opt {
        global: GlobalOptions {
            config: PathBuf::from("./config.json"),
            output: PathBuf::from("./output.csv"),
        },
        cmd,
    }
}

#[test]
fn merge_takes_the_shape_of_the_run_from_the_command_line() {
    let settings = Settings {
        parallelism: Some(8),
        iterations: None,
        delay: Some(3),
        retry: Some(true),
        log_level: Some(String::from("debug")),
        timeout: Some(60),
        retry_delay: None,
    };
    let cli = options(Cli { parallelism: 2, iterations: 5, delay: 1, retry: false });
    let merged = settings.merge(&cli);
    assert_eq!(merged.parallelism, Some(2));
    assert_eq!(merged.iterations, Some(5));
    assert_eq!(merged.delay, Some(1));
    assert_eq!(merged.retry, Some(false));
    assert_eq!(merged.log_level, Some(String::from("debug")));
    assert_eq!(merged.timeout, Some(60));
    assert_eq!(merged.retry_delay, None);
}

#[test]
fn default_cli_is_a_run_of_nothing() {
    assert_eq!(Cli::default(), Cli { parallelism: 0, iterations: 0, delay: 0, retry: false });
}

#[test]
fn policy_defaults() {
    assert_eq!(DEFAULT_TIMEOUT, 400);
    assert_eq!(DEFAULT_RETRY_DELAY, 10);
    assert_eq!(
        open_settings().policy(),
        Policy { pending_timeout: 400, poll_interval: 10, retry_enabled: false }
    );
    let set = Settings {
        timeout: Some(5),
        retry_delay: Some(2),
        retry: Some(true),
        ..open_settings()
    };
    assert_eq!(set.policy(), Policy { pending_timeout: 5, poll_interval: 2, retry_enabled: true });
}

#[test]
fn plan_needs_parallelism_and_iterations() {
    assert_eq!(open_settings().plan(), Err(PlanError::NoParallelism));
    assert_eq!(
        Settings { parallelism: Some(1), ..open_settings() }.plan(),
        Err(PlanError::NoIterations)
    );
    assert_eq!(
        Settings { iterations: Some(1), ..open_settings() }.plan(),
        Err(PlanError::NoParallelism)
    );
}

#[test]
fn plan_of_a_single_iteration_waits_before_the_first_check() {
    let settings = Settings { parallelism: Some(3), iterations: Some(1), ..open_settings() };
    assert_eq!(
        settings.plan(),
        Ok(Plan {
            parallelism: 3,
            iterations: 1,
            delay: 0,
            total_mints: 3,
            policy: Policy { pending_timeout: 400, poll_interval: 10, retry_enabled: false },
            settle_wait: Some(10),
        })
    );
}

#[test]
fn plan_of_several_iterations() {
    let settings = Settings {
        parallelism: Some(4),
        iterations: Some(5),
        delay: Some(2),
        retry: Some(true),
        log_level: None,
        timeout: Some(30),
        retry_delay: Some(3),
    };
    assert_eq!(
        settings.plan(),
        Ok(Plan {
            parallelism: 4,
            iterations: 5,
            delay: 2,
            total_mints: 20,
            policy: Policy { pending_timeout: 30, poll_interval: 3, retry_enabled: true },
            settle_wait: None,
        })
    );
}

#[test]
fn plan_refuses_a_total_that_does_not_fit() {
    let settings =
        Settings { parallelism: Some(usize::MAX), iterations: Some(2), ..open_settings() };
    assert_eq!(settings.plan(), Err(PlanError::TooManyMints));
    let settings =
        Settings { parallelism: Some(usize::MAX), iterations: Some(1), ..open_settings() };
    assert_eq!(settings.plan().map(|p| p.total_mints), Ok(usize::MAX));
}

fn record(success: bool) -> Record {
    Record {
        mint_id: 1,
        completion_sec: 2,
        retry_count: 0,
        success,
        reason: if success { String::new() } else { String::from("timeout") },
    }
}

#[test]
fn finalize_counts_the_failures() {
    assert_eq!(finalize(&Vec::new()), Summary::AllCreated);
    assert_eq!(finalize(&vec![record(true), record(true)]), Summary::AllCreated);
    let mixed = vec![record(false), record(true), record(false)];
    assert_eq!(finalize(&mixed), Summary::SomeFailed(2));
    assert_eq!(count_failures(&mixed), 2);
}
