//! Prompt assembly.
//!
//! Each attempt sends the agent one prompt: a fixed preamble stating the
//! rules of the supervised loop, then the instructions text, the current
//! plan text and the completion marker, each embedded verbatim inside
//! structural markers. The plan is re-read before every attempt, so the
//! prompt always reflects the plan as it stands now.

use vstd::prelude::*;
use crate::text::{contains_seq, is_match_at};

verus! {

/// Fixed preamble: what the supervised agent is asked to do.
pub open spec fn about_text() -> Seq<char> {
    "<about>\nYou are an autonomous coding agent running inside a supervised loop.\nFollow <instructions> exactly, in order.\nComplete exactly one task per iteration and verify it before moving on.\nDo not output <completion-text> unless all tasks are verified complete.\nWhen all tasks are verified complete, output exactly <completion-text> and nothing else.\n</about>\n"@
}

pub open spec fn instructions_open() -> Seq<char> {
    "<instructions>\n"@
}

pub open spec fn instructions_close() -> Seq<char> {
    "\n</instructions>\n"@
}

pub open spec fn plan_open() -> Seq<char> {
    "<plan>\n"@
}

pub open spec fn plan_close() -> Seq<char> {
    "\n</plan>\n"@
}

pub open spec fn marker_open() -> Seq<char> {
    "<completion-text>\n"@
}

pub open spec fn marker_close() -> Seq<char> {
    "\n</completion-text>"@
}

/// Everything that precedes the embedded plan.
pub open spec fn prompt_prefix(instructions: Seq<char>) -> Seq<char> {
    about_text() + instructions_open() + instructions + instructions_close() + plan_open()
}

/// Everything that follows the embedded plan.
pub open spec fn prompt_suffix(marker: Seq<char>) -> Seq<char> {
    plan_close() + marker_open() + marker + marker_close()
}

/// The whole prompt: preamble, instructions, plan and marker, each verbatim.
pub open spec fn prompt_text(instructions: Seq<char>, plan: Seq<char>, marker: Seq<char>) -> Seq<
    char,
> {
    prompt_prefix(instructions) + plan + prompt_suffix(marker)
}

/// Assembles the prompt for one attempt.
pub fn build_prompt(instructions: &str, plan: &str, marker: &str) -> (r: String)
    ensures
        r@ == prompt_text(instructions@, plan@, marker@),
{
    let mut p = String::new();
    p.append(
        "<about>\nYou are an autonomous coding agent running inside a supervised loop.\nFollow <instructions> exactly, in order.\nComplete exactly one task per iteration and verify it before moving on.\nDo not output <completion-text> unless all tasks are verified complete.\nWhen all tasks are verified complete, output exactly <completion-text> and nothing else.\n</about>\n",
    );
    p.append("<instructions>\n");
    p.append(instructions);
    p.append("\n</instructions>\n");
    p.append("<plan>\n");
    p.append(plan);
    p.append("\n</plan>\n");
    p.append("<completion-text>\n");
    p.append(marker);
    p.append("\n</completion-text>");
    proof {
        assert(p@ =~= prompt_text(instructions@, plan@, marker@));
    }
    p
}

/// The current plan stands verbatim in the prompt.
pub proof fn lemma_prompt_embeds_plan(instructions: Seq<char>, plan: Seq<char>, marker: Seq<char>)
    ensures
        contains_seq(prompt_text(instructions, plan, marker), plan),
{
    let pre = prompt_prefix(instructions);
    let whole = prompt_text(instructions, plan, marker);
    assert(is_match_at(whole, plan, pre.len() as int)) by {
        assert(whole.subrange(pre.len() as int, pre.len() + plan.len() as int) =~= plan);
    }
}

/// The prompt is a function of the current plan: any change to the plan
/// changes the prompt, so a stale plan can never be sent unnoticed.
pub proof fn lemma_prompt_reflects_plan(
    instructions: Seq<char>,
    plan1: Seq<char>,
    plan2: Seq<char>,
    marker: Seq<char>,
)
    requires
        plan1 != plan2,
    ensures
        prompt_text(instructions, plan1, marker) != prompt_text(instructions, plan2, marker),
{
    let pre = prompt_prefix(instructions);
    let whole1 = prompt_text(instructions, plan1, marker);
    let whole2 = prompt_text(instructions, plan2, marker);
    if plan1.len() != plan2.len() {
        assert(whole1.len() != whole2.len());
    } else {
        assert(exists|k: int| 0 <= k < plan1.len() && plan1[k] != plan2[k]) by {
            if forall|k: int| 0 <= k < plan1.len() ==> plan1[k] == #[trigger] plan2[k] {
                assert(plan1 =~= plan2);
            }
        }
        let k = choose|k: int| 0 <= k < plan1.len() && plan1[k] != plan2[k];
        assert(whole1[pre.len() + k] == plan1[k]);
        assert(whole2[pre.len() + k] == plan2[k]);
    }
}

} // verus!
