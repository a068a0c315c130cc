use aurek::args::Args;

fn args_with(extra: &[&str]) -> Args {
    Args {
        install: Some("archey3".to_string()),
        remove: None,
        no_scan: false,
        no_llm: false,
        model_path: None,
        quiet: false,
        extra_args: extra.iter().map(|s| s.to_string()).collect(),
    }
}

#[test]
fn check_flag_found_among_extra_args() {
    assert!(args_with(&["--needed", "--check"]).has_check_flag());
}

#[test]
fn check_flag_absent() {
    assert!(!args_with(&["--needed", "--checks", "check"]).has_check_flag());
    assert!(!args_with(&[]).has_check_flag());
}

#[test]
fn filtered_args_drop_every_check_and_keep_order() {
    let a = args_with(&["--check", "--needed", "--check", "--noconfirm"]);
    assert_eq!(a.get_filtered_args(), vec!["--needed".to_string(), "--noconfirm".to_string()]);
}

#[test]
fn filtered_args_unchanged_without_check() {
    let a = args_with(&["-y", "--devel"]);
    assert_eq!(a.get_filtered_args(), vec!["-y".to_string(), "--devel".to_string()]);
}

#[test]
fn filtered_args_shorter_exactly_when_check_given() {
    for extra in [&["--check"][..], &["a", "b"][..], &[][..], &["x", "--check", "y"][..]] {
        let a = args_with(extra);
        assert_eq!(a.get_filtered_args().len() < a.extra_args.len(), a.has_check_flag());
        let again = Args { extra_args: a.get_filtered_args(), ..args_with(&[]) };
        assert!(!again.has_check_flag());
        assert_eq!(again.get_filtered_args(), a.get_filtered_args());
    }
}
