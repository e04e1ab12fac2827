use basic_fuzzer::number_range::NumberRange;
use basic_fuzzer::trial::{
    classify, contains_code, is_pass, ok_exit_codes, run_session, SessionEnd, Termination,
    TrialConfig, TrialOutcome,
};

#[test]
fn allow_list_from_two_ignores() {
    let codes = ok_exit_codes(&vec![2, 5]);
    assert_eq!(codes, vec![0, 2, 5]);
}

#[test]
fn allow_list_always_holds_zero() {
    let codes = ok_exit_codes(&vec![]);
    assert_eq!(codes, vec![0]);
    assert!(contains_code(&codes, 0));
}

#[test]
fn classify_allow_listed_exit_passes() {
    let allow = ok_exit_codes(&vec![2]);
    assert_eq!(classify(&Termination::Exited(0), &allow), TrialOutcome::Passed);
    assert_eq!(classify(&Termination::Exited(2), &allow), TrialOutcome::Passed);
}

#[test]
fn classify_other_exit_fails_with_that_code() {
    let allow = ok_exit_codes(&vec![]);
    assert_eq!(
        classify(&Termination::Exited(1), &allow),
        TrialOutcome::FailedWithCode(1)
    );
    assert_eq!(
        classify(&Termination::Exited(77), &allow),
        TrialOutcome::FailedWithCode(77)
    );
}

#[test]
fn classify_signal_fails() {
    let allow = ok_exit_codes(&vec![2]);
    assert_eq!(classify(&Termination::Terminated, &allow), TrialOutcome::FailedBySignal);
}

#[test]
fn pass_lets_the_loop_continue() {
    assert!(is_pass(&TrialOutcome::Passed));
    assert!(!is_pass(&TrialOutcome::FailedWithCode(1)));
    assert!(!is_pass(&TrialOutcome::FailedBySignal));
}

#[test]
fn session_of_all_passes_runs_the_whole_budget() {
    let allow = ok_exit_codes(&vec![]);
    let outcomes = vec![Termination::Exited(0); 10];
    let end = run_session(&outcomes, 10, &allow);
    assert_eq!(end, SessionEnd::Succeeded { trials: 10 });
}

#[test]
fn session_stops_at_the_first_failure() {
    let allow = ok_exit_codes(&vec![]);
    let outcomes = vec![Termination::Exited(1); 10];
    let end = run_session(&outcomes, 10, &allow);
    assert_eq!(
        end,
        SessionEnd::FoundFailure { trials: 1, outcome: TrialOutcome::FailedWithCode(1) }
    );
}

#[test]
fn session_treats_ignored_code_as_a_pass() {
    let allow = ok_exit_codes(&vec![1]);
    let outcomes = vec![Termination::Exited(1); 7];
    let end = run_session(&outcomes, 7, &allow);
    assert_eq!(end, SessionEnd::Succeeded { trials: 7 });
}

#[test]
fn session_records_a_mid_run_signal() {
    let allow = ok_exit_codes(&vec![]);
    let outcomes = vec![
        Termination::Exited(0),
        Termination::Exited(0),
        Termination::Terminated,
        Termination::Exited(0),
    ];
    let end = run_session(&outcomes, 4, &allow);
    assert_eq!(
        end,
        SessionEnd::FoundFailure { trials: 3, outcome: TrialOutcome::FailedBySignal }
    );
}

#[test]
fn config_rejects_zero_budget_or_length() {
    let n_args = NumberRange::default();
    let n_input = NumberRange::default();
    assert!(TrialConfig::new(vec![], vec![], 0, n_args, 256, n_input, &vec![]).is_none());
    assert!(TrialConfig::new(vec![], vec![], 5, n_args, 0, n_input, &vec![]).is_none());
}

#[test]
fn config_builds_allow_list_with_zero_first() {
    let n_args = NumberRange::default();
    let n_input = NumberRange::default();
    let c = TrialConfig::new(
        b"prog".to_vec(),
        vec![b"fixed".to_vec()],
        10,
        n_args,
        256,
        n_input,
        &vec![3, 9],
    )
    .unwrap();
    assert_eq!(c.ok_exit_codes, vec![0, 3, 9]);
    assert_eq!(c.n_tries, 10);
    assert_eq!(c.program, b"prog".to_vec());
}
