use launcher_bootstrap::error::BootstrapError;
use launcher_bootstrap::pipeline::{advance, start, Action, Stage};

const ARCHIVE: &str = "wine-osu-winello-fonts-wow64-10.12-1-x86_64.tar.xz";
const RUNTIME: &str = "wine-osu-winello-fonts-wow64-10.12-1-x86_64";
const URL: &str = "https://github.com/lbls741/LinuxLuncherWineRelease/releases/download/Release/wine-osu-winello-fonts-wow64-10.12-1-x86_64.tar.xz";

fn fetch() -> Action {
    Action::Fetch { url: URL.to_string(), file_name: ARCHIVE.to_string() }
}

fn extract() -> Action {
    Action::Extract { file_name: ARCHIVE.to_string() }
}

fn provision() -> Action {
    Action::Provision { runtime_dir: RUNTIME.to_string(), prefix_dir: "wine_prefix".to_string() }
}

fn record() -> Action {
    Action::RecordPrefix { key: "env_dir".to_string(), prefix_dir: "wine_prefix".to_string() }
}

fn remove() -> Action {
    Action::RemoveArtifact { file_name: ARCHIVE.to_string() }
}

fn network(detail: &str) -> BootstrapError {
    BootstrapError::Network { detail: detail.to_string() }
}

/// Feeds the outcomes to a run, one by one, and collects the actions asked for.
fn drive(outcomes: Vec<Result<(), BootstrapError>>) -> (Stage, Vec<Action>) {
    let (mut stage, first) = start();
    let mut actions = vec![first];
    for outcome in outcomes {
        let (next, action) = advance(stage, outcome);
        stage = next;
        actions.push(action);
    }
    (stage, actions)
}

fn is_step(action: &Action) -> bool {
    matches!(
        action,
        Action::Fetch { .. }
            | Action::Extract { .. }
            | Action::Provision { .. }
            | Action::RecordPrefix { .. }
            | Action::RemoveArtifact { .. }
    )
}

#[test]
fn a_run_starts_with_the_fetch() {
    assert_eq!(start(), (Stage::Fetching, fetch()));
}

#[test]
fn a_run_without_failures_takes_the_five_steps_in_order() {
    let (stage, actions) = drive(vec![Ok(()); 5]);
    assert_eq!(stage, Stage::Succeeded);
    assert_eq!(
        actions,
        vec![
            fetch(),
            extract(),
            provision(),
            record(),
            remove(),
            Action::Finish { result: Ok(()) },
        ]
    );
}

#[test]
fn every_stage_leads_to_the_next_on_success() {
    assert_eq!(advance(Stage::Fetching, Ok(())), (Stage::Extracting, extract()));
    assert_eq!(advance(Stage::Extracting, Ok(())), (Stage::Provisioning, provision()));
    assert_eq!(advance(Stage::Provisioning, Ok(())), (Stage::Recording, record()));
    assert_eq!(advance(Stage::Recording, Ok(())), (Stage::Cleaning, remove()));
    assert_eq!(
        advance(Stage::Cleaning, Ok(())),
        (Stage::Succeeded, Action::Finish { result: Ok(()) })
    );
}

#[test]
fn every_stage_ends_the_run_on_failure() {
    let stages = [
        Stage::Fetching,
        Stage::Extracting,
        Stage::Provisioning,
        Stage::Recording,
        Stage::Cleaning,
    ];
    for stage in stages {
        assert_eq!(
            advance(stage, Err(network("down"))),
            (Stage::Failed, Action::Finish { result: Err(network("down")) })
        );
    }
}

#[test]
fn a_run_that_has_ended_stays_ended() {
    for stage in [Stage::Succeeded, Stage::Failed] {
        assert_eq!(advance(stage, Ok(())), (stage, Action::Idle));
        assert_eq!(advance(stage, Err(network("late"))), (stage, Action::Idle));
    }
}

#[test]
fn extraction_waits_for_the_fetch_and_provisioning_for_the_extraction() {
    // Every run of up to seven outcomes, each a success or a failure.
    for length in 0..=7usize {
        for pattern in 0..(1u32 << length) {
            let outcomes: Vec<Result<(), BootstrapError>> = (0..length)
                .map(|i| if pattern & (1 << i) == 0 { Ok(()) } else { Err(network("x")) })
                .collect();
            let (_, actions) = drive(outcomes.clone());
            for (i, action) in actions.iter().enumerate() {
                match action {
                    Action::Fetch { .. } => assert_eq!(i, 0),
                    Action::Extract { .. } => {
                        assert_eq!(i, 1);
                        assert_eq!(actions[0], fetch());
                        assert!(outcomes[0].is_ok());
                    }
                    Action::Provision { .. } => {
                        assert_eq!(i, 2);
                        assert_eq!(actions[1], extract());
                        assert!(outcomes[1].is_ok());
                    }
                    Action::RecordPrefix { .. } => {
                        assert_eq!(i, 3);
                        assert_eq!(actions[2], provision());
                        assert!(outcomes[2].is_ok());
                    }
                    Action::RemoveArtifact { .. } => {
                        assert_eq!(i, 4);
                        assert_eq!(actions[3], record());
                        assert!(outcomes[3].is_ok());
                    }
                    Action::Finish { .. } | Action::Idle => {}
                }
            }
        }
    }
}

#[test]
fn success_is_reported_only_after_the_staged_bundle_was_removed() {
    for length in 0..=7usize {
        for pattern in 0..(1u32 << length) {
            let outcomes: Vec<Result<(), BootstrapError>> = (0..length)
                .map(|i| if pattern & (1 << i) == 0 { Ok(()) } else { Err(network("x")) })
                .collect();
            let (stage, actions) = drive(outcomes.clone());
            if stage == Stage::Succeeded {
                assert!(outcomes.len() >= 5);
                assert_eq!(actions[4], remove());
                assert!(outcomes[4].is_ok());
                assert_eq!(actions[5], Action::Finish { result: Ok(()) });
            }
        }
    }
}

#[test]
fn a_failed_fetch_ends_the_run_before_anything_else_begins() {
    let (stage, actions) =
        drive(vec![Err(network("connection refused")), Ok(()), Ok(()), Ok(()), Ok(())]);
    assert_eq!(stage, Stage::Failed);
    assert_eq!(
        actions,
        vec![
            fetch(),
            Action::Finish { result: Err(network("connection refused")) },
            Action::Idle,
            Action::Idle,
            Action::Idle,
            Action::Idle,
        ]
    );
}

#[test]
fn nothing_begins_after_a_failure() {
    for length in 1..=7usize {
        for pattern in 1..(1u32 << length) {
            let outcomes: Vec<Result<(), BootstrapError>> = (0..length)
                .map(|i| if pattern & (1 << i) == 0 { Ok(()) } else { Err(network("x")) })
                .collect();
            let failed = outcomes.iter().position(|o| o.is_err()).unwrap();
            let (stage, actions) = drive(outcomes);
            for action in &actions[failed + 1..] {
                assert!(!is_step(action));
            }
            if failed < 5 {
                assert_eq!(stage, Stage::Failed);
                assert_eq!(actions[failed + 1], Action::Finish { result: Err(network("x")) });
            } else {
                assert_eq!(stage, Stage::Succeeded);
            }
        }
    }
}

#[test]
fn a_failure_is_reported_as_it_came() {
    let failures = vec![
        BootstrapError::Io { detail: "disk full".to_string() },
        BootstrapError::Archive { detail: "bad magic".to_string() },
        BootstrapError::MissingExecutable { path: "/r/bin/wine".to_string() },
        BootstrapError::ProvisioningFailed { code: Some(3) },
        BootstrapError::ConfigCorrupt { key: "env_dir".to_string() },
    ];
    for failure in failures {
        let (stage, action) = advance(Stage::Provisioning, Err(failure.clone()));
        assert_eq!(stage, Stage::Failed);
        assert_eq!(action, Action::Finish { result: Err(failure) });
    }
}

#[test]
fn the_steps_of_a_run_name_the_same_files() {
    let (_, actions) = drive(vec![Ok(()); 4]);
    let staged = match &actions[0] {
        Action::Fetch { url, file_name } => {
            assert!(url.ends_with(file_name.as_str()));
            file_name.clone()
        }
        other => panic!("{:?}", other),
    };
    let created = match &actions[2] {
        Action::Provision { runtime_dir, prefix_dir } => {
            assert_eq!(format!("{}.tar.xz", runtime_dir), staged);
            prefix_dir.clone()
        }
        other => panic!("{:?}", other),
    };
    assert_eq!(actions[1], Action::Extract { file_name: staged.clone() });
    assert_eq!(actions[3], Action::RecordPrefix { key: "env_dir".to_string(), prefix_dir: created });
    assert_eq!(actions[4], Action::RemoveArtifact { file_name: staged });
}
