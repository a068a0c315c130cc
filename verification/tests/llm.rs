use aurek::llm::{
    analysis_prompt, default_model_path, interpret_response, next_wait_step, parse_response,
    strip_reasoning, warning_of_line, WaitStep, STARTUP_ATTEMPTS,
};

fn strings(v: &[&str]) -> Vec<String> {
    v.iter().map(|s| s.to_string()).collect()
}

#[test]
fn json_array_answer_is_taken_as_is() {
    assert_eq!(
        parse_response("[\"Uses curl | sh\", \"sudo: escalation\"]"),
        strings(&["Uses curl | sh", "sudo: escalation"])
    );
}

#[test]
fn empty_json_array_means_no_concerns() {
    assert!(parse_response("  []  ").is_empty());
}

#[test]
fn reasoning_before_end_marker_is_dropped() {
    assert_eq!(
        parse_response("I think - this is bad\n[End thinking]\n[\"a\"]"),
        strings(&["a"])
    );
}

#[test]
fn text_after_response_label_is_used() {
    assert_eq!(
        parse_response("response: - bad thing\n* other\n\u{2022} third"),
        strings(&["bad thing", "other", "third"])
    );
}

#[test]
fn long_lines_with_colon_are_concerns() {
    assert_eq!(
        parse_response("Network access :  downloads binaries from an unknown host\nok"),
        strings(&["Network access: downloads binaries from an unknown host"])
    );
}

#[test]
fn short_line_is_kept_whole_when_nothing_else_found() {
    assert_eq!(parse_response("  short: x \n"), strings(&["short: x"]));
}

#[test]
fn safe_verdicts_mean_no_concerns() {
    assert!(parse_response("This package looks SAFE.").is_empty());
    assert!(parse_response("No Issues found").is_empty());
}

#[test]
fn empty_answer_means_no_concerns() {
    assert!(parse_response("").is_empty());
}

#[test]
fn code_fence_lines_are_not_concerns() {
    let r = "```json: this line is long enough to count```";
    assert_eq!(parse_response(r), strings(&[r]));
}

#[test]
fn bullet_without_text_is_skipped() {
    assert_eq!(parse_response("- \n--- x"), strings(&["x"]));
}

#[test]
fn interpret_takes_json_result_when_present() {
    assert_eq!(interpret_response("whatever", Some(strings(&["q"]))), strings(&["q"]));
    assert_eq!(interpret_response("- item", None), strings(&["item"]));
}

#[test]
fn single_line_concerns() {
    assert_eq!(warning_of_line("  * spaced  "), Some("spaced".to_string()));
    assert_eq!(warning_of_line("a: b"), None);
    assert_eq!(warning_of_line("plain text without colon at all"), None);
}

#[test]
fn strip_reasoning_markers() {
    assert_eq!(strip_reasoning("abc[End thinking]def[End thinking]g"), "def[End thinking]g");
    assert_eq!(strip_reasoning("x response: y response: z"), " y response: z");
    assert_eq!(strip_reasoning("plain"), "plain");
}

#[test]
fn prompt_text_is_exact() {
    let p = analysis_prompt("pkgname=x", "x");
    assert_eq!(
        p,
        "Analyze this PKGBUILD file for malware or suspicious code.\nPackage: x\nPKGBUILD:\n```\npkgname=x\n```\n\nReturn a JSON array of security concerns. If none found, return an empty array [].\nFormat each concern as a string. Do NOT include your thinking process, only the response."
    );
}

#[test]
fn prompt_holds_package_and_pkgbuild() {
    let p = analysis_prompt("build() { make; }", "archey3");
    assert!(p.contains("build() { make; }"));
    assert!(p.contains("archey3"));
}

#[test]
fn default_model_under_home() {
    assert_eq!(default_model_path("/home/u"), "/home/u/models/gemma-2b-it-Q4_K_M.gguf");
}

#[test]
fn startup_waits() {
    assert!(matches!(next_wait_step(0, true), WaitStep::Ready));
    assert!(matches!(next_wait_step(0, false), WaitStep::Wait));
    assert!(matches!(next_wait_step(10, false), WaitStep::Report(10)));
    assert!(matches!(next_wait_step(11, false), WaitStep::Wait));
    assert!(matches!(next_wait_step(50, false), WaitStep::Report(50)));
    assert!(matches!(next_wait_step(59, false), WaitStep::GiveUp));
    assert!(matches!(next_wait_step(59, true), WaitStep::Ready));
    assert_eq!(STARTUP_ATTEMPTS, 60);
}
