//! The iteration controller.
//!
//! The controller owns the retry loop. Attempts are numbered from 1 and run
//! while the attempt index stays below the configured budget, so a budget of
//! N allows at most N-1 attempts. After each attempt the merged output is
//! scanned for the completion marker: found means stop with success; absent
//! means warn if the exit code was non-zero, sleep, and go on; when the final
//! allowed attempt passes without the marker, exhaustion is reported. A plan
//! read failure or a spawn failure is fatal and aborts the loop at once.

use vstd::prelude::*;
use crate::config::RunConfig;
use crate::text::contains_seq;
use crate::text::contains_str;

verus! {

/// What one attempt produced, as handed back by the surrounding binary.
#[derive(Debug, Clone, PartialEq, Eq)]
pub enum AttemptOutcome {
    /// The plan could not be re-read, the agent could not be spawned, or a
    /// stream read failed: fatal, aborts the loop immediately.
    Fatal,
    /// The agent ran to termination: its exit code (-1 when unavailable) and
    /// the merged text of both output streams.
    Completed { exit_code: i32, output: String },
}

/// How a whole supervised run ended. `attempts` counts completed agent
/// invocations.
#[derive(Debug, Clone, Copy, PartialEq, Eq)]
pub enum LoopOutcome {
    /// The marker was seen on the last of `attempts` invocations.
    Succeeded { attempts: u16 },
    /// The budget ran out: every allowed attempt completed without the marker.
    Exhausted { attempts: u16 },
    /// A fatal error struck while preparing or running the next attempt.
    Aborted { attempts: u16 },
}

/// The controller's decision after one completed attempt.
#[derive(Debug, Clone, Copy, PartialEq, Eq)]
pub enum Decision {
    /// Marker found: stop and report success.
    Stop,
    /// Marker absent, budget remains: sleep, then run the next attempt;
    /// `warn` asks for a non-zero-exit warning first.
    Continue { warn: bool },
    /// Marker absent on the final allowed attempt: report exhaustion;
    /// `warn` as above.
    GiveUp { warn: bool },
}

/// This attempt completed and its output holds the marker.
pub open spec fn attempt_stops(rec: AttemptOutcome, marker: Seq<char>) -> bool {
    rec matches AttemptOutcome::Completed { output, .. } && contains_seq(output@, marker)
}

/// This attempt completed but its output lacks the marker: the loop goes on.
pub open spec fn attempt_continues(rec: AttemptOutcome, marker: Seq<char>) -> bool {
    rec matches AttemptOutcome::Completed { output, .. } && !contains_seq(output@, marker)
}

/// The decision taken after attempt `i` of a budget of `n`.
pub open spec fn spec_decide(
    marker: Seq<char>,
    n: int,
    i: int,
    exit_code: int,
    output: Seq<char>,
) -> Decision {
    if contains_seq(output, marker) {
        Decision::Stop
    } else if i + 1 < n {
        Decision::Continue { warn: exit_code != 0 }
    } else {
        Decision::GiveUp { warn: exit_code != 0 }
    }
}

/// One step of the controller: scans the merged output of attempt `i` for
/// the marker and decides whether to stop, go on, or give up. A non-zero
/// exit code never stops the loop; it only asks for a warning.
pub fn decide(cfg: &RunConfig, i: u16, exit_code: i32, output: &str) -> (d: Decision)
    requires
        cfg.wf(),
        1 <= i < cfg.max_iterations,
    ensures
        d == spec_decide(
            cfg.completion@,
            cfg.max_iterations as int,
            i as int,
            exit_code as int,
            output@,
        ),
{
    if contains_str(output, cfg.completion.as_str()) {
        Decision::Stop
    } else if i + 1 < cfg.max_iterations {
        Decision::Continue { warn: exit_code != 0 }
    } else {
        Decision::GiveUp { warn: exit_code != 0 }
    }
}

/// The rest of the run, standing at attempt `i`: `recs[j - 1]` is what
/// attempt `j` would produce, should it run.
pub open spec fn loop_from(marker: Seq<char>, n: int, recs: Seq<AttemptOutcome>, i: int) -> LoopOutcome
    decreases n - i,
{
    if i >= n {
        LoopOutcome::Exhausted { attempts: (i - 1) as u16 }
    } else {
        match recs[i - 1] {
            AttemptOutcome::Fatal => LoopOutcome::Aborted { attempts: (i - 1) as u16 },
            AttemptOutcome::Completed { exit_code, output } => {
                if contains_seq(output@, marker) {
                    LoopOutcome::Succeeded { attempts: i as u16 }
                } else {
                    loop_from(marker, n, recs, i + 1)
                }
            },
        }
    }
}

/// The whole run, from attempt 1.
pub open spec fn spec_run_loop(marker: Seq<char>, n: int, recs: Seq<AttemptOutcome>) -> LoopOutcome {
    loop_from(marker, n, recs, 1)
}

/// The retry loop over a given schedule of attempt outcomes. The records
/// stand for what each attempt produces as it runs; the loop stops at the
/// first marker hit or fatal record, and gives up when the budget is out.
pub fn run_loop(cfg: &RunConfig, records: &Vec<AttemptOutcome>) -> (r: LoopOutcome)
    requires
        cfg.wf(),
        records@.len() + 1 >= cfg.max_iterations,
    ensures
        r == spec_run_loop(cfg.completion@, cfg.max_iterations as int, records@),
{
    let n = cfg.max_iterations;
    let mut i: u16 = 1;
    while i < n
        invariant
            cfg.wf(),
            n == cfg.max_iterations,
            1 <= i <= n,
            records@.len() + 1 >= n,
            spec_run_loop(cfg.completion@, n as int, records@) == loop_from(
                cfg.completion@,
                n as int,
                records@,
                i as int,
            ),
        decreases n - i,
    {
        match &records[(i - 1) as usize] {
            AttemptOutcome::Fatal => {
                return LoopOutcome::Aborted { attempts: i - 1 };
            },
            AttemptOutcome::Completed { exit_code, output } => {
                let d = decide(cfg, i, *exit_code, output.as_str());
                if matches!(d, Decision::Stop) {
                    return LoopOutcome::Succeeded { attempts: i };
                }
            },
        }
        i += 1;
    }
    LoopOutcome::Exhausted { attempts: n - 1 }
}

/// Completed agent invocations of an ended run.
pub open spec fn attempts_of(r: LoopOutcome) -> int {
    match r {
        LoopOutcome::Succeeded { attempts } => attempts as int,
        LoopOutcome::Exhausted { attempts } => attempts as int,
        LoopOutcome::Aborted { attempts } => attempts as int,
    }
}

proof fn lemma_attempts_bounded_from(marker: Seq<char>, n: int, recs: Seq<AttemptOutcome>, i: int)
    requires
        1 <= i <= n <= u16::MAX,
    ensures
        attempts_of(loop_from(marker, n, recs, i)) <= n - 1,
    decreases n - i,
{
    if i < n {
        match recs[i - 1] {
            AttemptOutcome::Fatal => {},
            AttemptOutcome::Completed { exit_code, output } => {
                if !contains_seq(output@, marker) {
                    lemma_attempts_bounded_from(marker, n, recs, i + 1);
                }
            },
        }
    }
}

/// For every budget of N, the loop body runs at most N-1 times, never N:
/// whatever the attempts produce.
pub proof fn lemma_attempts_bounded(marker: Seq<char>, n: int, recs: Seq<AttemptOutcome>)
    requires
        1 <= n <= u16::MAX,
    ensures
        attempts_of(spec_run_loop(marker, n, recs)) <= n - 1,
{
    lemma_attempts_bounded_from(marker, n, recs, 1);
}

/// While every attempt before `k` completes without the marker, the loop
/// reaches attempt `k`.
pub proof fn lemma_loop_reaches(marker: Seq<char>, n: int, recs: Seq<AttemptOutcome>, i: int, k: int)
    requires
        1 <= i <= k <= n <= u16::MAX,
        forall|j: int| i <= j < k ==> attempt_continues(#[trigger] recs[j - 1], marker),
    ensures
        loop_from(marker, n, recs, i) == loop_from(marker, n, recs, k),
    decreases k - i,
{
    if i < k {
        assert(attempt_continues(recs[i - 1], marker));
        lemma_loop_reaches(marker, n, recs, i + 1, k);
    }
}

/// If the marker first appears during attempt k <= N-1, the loop stops right
/// there and reports success after exactly k attempts; attempt k+1 never runs.
pub proof fn lemma_marker_stops(marker: Seq<char>, n: int, recs: Seq<AttemptOutcome>, k: int)
    requires
        1 <= n <= u16::MAX,
        1 <= k <= n - 1,
        forall|j: int| 1 <= j < k ==> attempt_continues(#[trigger] recs[j - 1], marker),
        attempt_stops(recs[k - 1], marker),
    ensures
        spec_run_loop(marker, n, recs) == (LoopOutcome::Succeeded { attempts: k as u16 }),
{
    lemma_loop_reaches(marker, n, recs, 1, k);
}

/// If the marker never appears across all N-1 allowed attempts, the run
/// reports exhaustion after exactly N-1 attempts, not N.
pub proof fn lemma_exhaustion(marker: Seq<char>, n: int, recs: Seq<AttemptOutcome>)
    requires
        1 <= n <= u16::MAX,
        forall|j: int| 1 <= j <= n - 1 ==> attempt_continues(#[trigger] recs[j - 1], marker),
    ensures
        spec_run_loop(marker, n, recs) == (LoopOutcome::Exhausted { attempts: (n - 1) as u16 }),
{
    lemma_loop_reaches(marker, n, recs, 1, n);
}

/// If a fatal error strikes while preparing attempt k, after k-1 markerless
/// attempts, the run aborts at once: no further attempt is made.
pub proof fn lemma_fatal_aborts(marker: Seq<char>, n: int, recs: Seq<AttemptOutcome>, k: int)
    requires
        1 <= n <= u16::MAX,
        1 <= k <= n - 1,
        forall|j: int| 1 <= j < k ==> attempt_continues(#[trigger] recs[j - 1], marker),
        recs[k - 1] is Fatal,
    ensures
        spec_run_loop(marker, n, recs) == (LoopOutcome::Aborted { attempts: (k - 1) as u16 }),
{
    lemma_loop_reaches(marker, n, recs, 1, k);
}

/// Two schedules that differ only in exit codes.
pub open spec fn same_streams(r1: AttemptOutcome, r2: AttemptOutcome) -> bool {
    match (r1, r2) {
        (AttemptOutcome::Fatal, AttemptOutcome::Fatal) => true,
        (
            AttemptOutcome::Completed { output: o1, .. },
            AttemptOutcome::Completed { output: o2, .. },
        ) => o1@ == o2@,
        _ => false,
    }
}

proof fn lemma_exit_codes_ignored_from(
    marker: Seq<char>,
    n: int,
    recs1: Seq<AttemptOutcome>,
    recs2: Seq<AttemptOutcome>,
    i: int,
)
    requires
        1 <= i <= n <= u16::MAX,
        recs1.len() == recs2.len(),
        recs1.len() + 1 >= n,
        forall|j: int| 0 <= j < recs1.len() ==> same_streams(#[trigger] recs1[j], recs2[j]),
    ensures
        loop_from(marker, n, recs1, i) == loop_from(marker, n, recs2, i),
    decreases n - i,
{
    if i < n {
        assert(same_streams(recs1[i - 1], recs2[i - 1]));
        match recs1[i - 1] {
            AttemptOutcome::Fatal => {},
            AttemptOutcome::Completed { exit_code, output } => {
                if !contains_seq(output@, marker) {
                    lemma_exit_codes_ignored_from(marker, n, recs1, recs2, i + 1);
                }
            },
        }
    }
}

/// A non-zero exit code with no marker never stops the loop: the run's
/// outcome depends on the streamed output alone, not on any exit code.
pub proof fn lemma_exit_codes_ignored(
    marker: Seq<char>,
    n: int,
    recs1: Seq<AttemptOutcome>,
    recs2: Seq<AttemptOutcome>,
)
    requires
        1 <= n <= u16::MAX,
        recs1.len() == recs2.len(),
        recs1.len() + 1 >= n,
        forall|j: int| 0 <= j < recs1.len() ==> same_streams(#[trigger] recs1[j], recs2[j]),
    ensures
        spec_run_loop(marker, n, recs1) == spec_run_loop(marker, n, recs2),
{
    lemma_exit_codes_ignored_from(marker, n, recs1, recs2, 1);
}

} // verus!
