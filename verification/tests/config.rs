use aurek::config::Config;

#[test]
fn default_settings() {
    let c = Config::default();
    assert!(c.color);
    assert!(!c.llm_response_on_cli);
    assert_eq!(c.default_llm_model, None);
    assert!(c.scan_by_default);
}

#[test]
fn empty_file_gives_defaults() {
    let c = Config::parse("");
    assert!(c.color && !c.llm_response_on_cli && c.scan_by_default);
    assert_eq!(c.default_llm_model, None);
}

#[test]
fn reads_every_key() {
    let c = Config::parse(
        "color=false\nscan_by_default = 0;\n# comment = 1\ndefault_llm_model = /m/g.gguf;;\nllm_response_on_cli=true\n",
    );
    assert!(!c.color);
    assert!(!c.scan_by_default);
    assert!(c.llm_response_on_cli);
    assert_eq!(c.default_llm_model, Some("/m/g.gguf".to_string()));
}

#[test]
fn only_one_and_true_switch_on() {
    assert!(Config::parse("color = 1").color);
    assert!(Config::parse("color = true").color);
    assert!(!Config::parse("color = yes").color);
    assert!(!Config::parse("color = TRUE").color);
    assert!(Config::parse("scan_by_default=true;").scan_by_default);
}

#[test]
fn comments_blank_lines_and_unknown_keys_are_ignored() {
    let c = Config::parse("   \n#color=false\n  # scan_by_default=0\nverbose=0\nno equals sign\n");
    assert!(c.color && c.scan_by_default && !c.llm_response_on_cli);
    assert_eq!(c.default_llm_model, None);
}

#[test]
fn later_lines_override_earlier_ones() {
    assert!(!Config::parse("color=true\ncolor=false").color);
    assert!(Config::parse("color=false\ncolor=1").color);
}

#[test]
fn carriage_returns_are_white_space() {
    let c = Config::parse("color=false\r\nscan_by_default=0\r\n");
    assert!(!c.color && !c.scan_by_default);
}

#[test]
fn value_keeps_inner_text_and_splits_at_first_equals() {
    let c = Config::parse("default_llm_model = a=b ;");
    assert_eq!(c.default_llm_model, Some("a=b ".to_string()));
}

#[test]
fn apply_line_changes_one_setting() {
    let mut c = Config::default();
    c.apply_line("  llm_response_on_cli = 1  ");
    assert!(c.llm_response_on_cli && c.color && c.scan_by_default);
}
