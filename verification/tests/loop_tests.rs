use ralph::config::RunConfig;
use ralph::controller::{decide, run_loop, AttemptOutcome, Decision, LoopOutcome};

fn config(max_iterations: u16, completion: &str) -> RunConfig {
    RunConfig::new(max_iterations, completion.to_string(), 0, None).unwrap()
}

fn completed(exit_code: i32, output: &str) -> AttemptOutcome {
    AttemptOutcome::Completed { exit_code, output: output.to_string() }
}

#[test]
fn config_rejects_zero_budget() {
    assert!(RunConfig::new(0, "DONE".to_string(), 2, None).is_none());
}

#[test]
fn config_rejects_empty_marker() {
    assert!(RunConfig::new(10, "".to_string(), 2, None).is_none());
}

#[test]
fn config_accepts_and_keeps_fields() {
    let cfg = RunConfig::new(10, "DONE".to_string(), 2, Some("m".to_string())).unwrap();
    assert_eq!(cfg.max_iterations, 10);
    assert_eq!(cfg.completion, "DONE");
    assert_eq!(cfg.sleep_secs, 2);
    assert_eq!(cfg.model, Some("m".to_string()));
}

#[test]
fn budget_of_one_runs_no_attempt() {
    // The loop range excludes the budget itself: a budget of 1 means the
    // loop body never executes.
    let cfg = config(1, "DONE");
    let records: Vec<AttemptOutcome> = vec![];
    assert_eq!(run_loop(&cfg, &records), LoopOutcome::Exhausted { attempts: 0 });
}

#[test]
fn marker_on_third_attempt_stops_there() {
    // DONE appears on attempt 3; the loop reports success after attempt 3
    // and never starts a fourth run, although the budget would allow one.
    let cfg = config(4, "DONE");
    let records = vec![
        completed(0, "working...\n"),
        completed(0, "still going\n"),
        completed(0, "DONE\n"),
    ];
    assert_eq!(run_loop(&cfg, &records), LoopOutcome::Succeeded { attempts: 3 });
}

#[test]
fn budget_of_three_allows_only_two_attempts() {
    // With a budget of 3 the loop body runs at most twice, so a marker the
    // agent would only emit on attempt 3 is never seen.
    let cfg = config(3, "DONE");
    let records = vec![
        completed(0, "working...\n"),
        completed(0, "still going\n"),
        completed(0, "DONE\n"),
    ];
    assert_eq!(run_loop(&cfg, &records), LoopOutcome::Exhausted { attempts: 2 });
}

#[test]
fn markerless_budget_of_two_exhausts_after_one_attempt() {
    let cfg = config(2, "DONE");
    let records = vec![completed(0, "not done"), completed(0, "not done")];
    assert_eq!(run_loop(&cfg, &records), LoopOutcome::Exhausted { attempts: 1 });
}

#[test]
fn nonzero_exit_code_does_not_stop_the_loop() {
    // A failing agent run without the marker is warned about and retried.
    let cfg = config(4, "DONE");
    let records = vec![
        completed(7, "crashed mid-task\n"),
        completed(0, "recovered and DONE\n"),
    ];
    assert_eq!(run_loop(&cfg, &records), LoopOutcome::Succeeded { attempts: 2 });
}

#[test]
fn fatal_before_second_attempt_aborts_at_once() {
    // The plan becomes unreadable before attempt 2: the run aborts right
    // after attempt 1, and attempt 2 is never made.
    let cfg = config(4, "DONE");
    let records = vec![completed(0, "working...\n"), AttemptOutcome::Fatal, completed(0, "DONE\n")];
    assert_eq!(run_loop(&cfg, &records), LoopOutcome::Aborted { attempts: 1 });
}

#[test]
fn decide_stops_only_on_marker() {
    let cfg = config(10, "DONE");
    assert_eq!(decide(&cfg, 1, 0, "all DONE here"), Decision::Stop);
    assert_eq!(decide(&cfg, 1, 3, "DONE despite the exit code"), Decision::Stop);
    assert_eq!(decide(&cfg, 1, 0, "nothing yet"), Decision::Continue { warn: false });
}

#[test]
fn decide_warns_exactly_on_nonzero_exit() {
    let cfg = config(10, "DONE");
    assert_eq!(decide(&cfg, 2, 1, "nope"), Decision::Continue { warn: true });
    assert_eq!(decide(&cfg, 2, -1, "nope"), Decision::Continue { warn: true });
    assert_eq!(decide(&cfg, 2, 0, "nope"), Decision::Continue { warn: false });
}

#[test]
fn decide_gives_up_on_final_allowed_attempt() {
    let cfg = config(3, "DONE");
    assert_eq!(decide(&cfg, 2, 0, "nope"), Decision::GiveUp { warn: false });
    assert_eq!(decide(&cfg, 2, 9, "nope"), Decision::GiveUp { warn: true });
    assert_eq!(decide(&cfg, 1, 0, "nope"), Decision::Continue { warn: false });
}

#[test]
fn marker_split_across_attempts_is_not_seen() {
    // Each attempt's buffer is fresh; marker halves in different attempts
    // never match.
    let cfg = config(3, "DONE");
    let records = vec![completed(0, "DO"), completed(0, "NE")];
    assert_eq!(run_loop(&cfg, &records), LoopOutcome::Exhausted { attempts: 2 });
}
