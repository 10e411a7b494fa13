//! Run configuration, parsed once at startup and immutable afterwards.

use vstd::prelude::*;

verus! {

/// Configuration of one supervised run.
///
/// `max_iterations` bounds the retry loop: attempts are numbered from 1 and
/// run while the attempt index stays below this count, so a value of 1 means
/// the loop body never executes. `completion` is the marker whose presence in
/// the captured output is the sole success signal.
pub struct RunConfig {
    /// Iteration budget; at least 1.
    pub max_iterations: u16,
    /// Completion marker; non-empty.
    pub completion: String,
    /// Fixed delay, in seconds, between attempts.
    pub sleep_secs: u64,
    /// Optional model identifier forwarded to the spawned agent.
    pub model: Option<String>,
}

impl RunConfig {
    /// Well-formed: the budget is at least one and the marker is non-empty.
    pub open spec fn wf(self) -> bool {
        &&& self.max_iterations >= 1
        &&& self.completion@.len() > 0
    }

    /// Validates and assembles a configuration; a zero budget or an empty
    /// marker is rejected.
    pub fn new(max_iterations: u16, completion: String, sleep_secs: u64, model: Option<
        String,
    >) -> (r: Option<RunConfig>)
        ensures
            r is Some <==> max_iterations >= 1 && completion@.len() > 0,
            r matches Some(c) ==> c.wf() && c.max_iterations == max_iterations
                && c.completion == completion && c.sleep_secs == sleep_secs && c.model == model,
    {
        if max_iterations >= 1 && !completion.as_str().is_empty() {
            Some(RunConfig { max_iterations, completion, sleep_secs, model })
        } else {
            None
        }
    }
}

} // verus!
