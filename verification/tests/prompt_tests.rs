use ralph::prompt::build_prompt;
use ralph::text::contains_str;

#[test]
fn prompt_embeds_all_three_inputs_verbatim() {
    let p = build_prompt("run the tests", "fix the parser", "DONE");
    assert!(contains_str(&p, "run the tests"));
    assert!(contains_str(&p, "fix the parser"));
    assert!(contains_str(&p, "DONE"));
}

#[test]
fn prompt_uses_structural_markers() {
    let p = build_prompt("inst", "plan", "DONE");
    assert!(contains_str(&p, "<instructions>\ninst\n</instructions>"));
    assert!(contains_str(&p, "<plan>\nplan\n</plan>"));
    assert!(contains_str(&p, "<completion-text>\nDONE\n</completion-text>"));
}

#[test]
fn prompt_reflects_a_mutated_plan() {
    // The plan is re-read before every attempt; a change between attempts
    // must show up in the next prompt.
    let before = build_prompt("inst", "step one remains", "DONE");
    let after = build_prompt("inst", "step one is finished; do step two", "DONE");
    assert_ne!(before, after);
    assert!(contains_str(&before, "step one remains"));
    assert!(!contains_str(&before, "do step two"));
    assert!(contains_str(&after, "do step two"));
}
