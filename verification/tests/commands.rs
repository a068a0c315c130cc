use aurek::args::Args;
use aurek::aur::{AurClient, AurError, AurInfo};
use aurek::config::Config;
use aurek::flow::{plan, react_to_scan, Plan, ScanStatus};
use aurek::yay::{install_arguments, install_command_text, paru_warning_needed, passthrough_arguments};

fn args(install: Option<&str>, no_scan: bool, quiet: bool, extra: &[&str]) -> Args {
    Args {
        install: install.map(|s| s.to_string()),
        remove: None,
        no_scan,
        no_llm: false,
        model_path: None,
        quiet,
        extra_args: extra.iter().map(|s| s.to_string()).collect(),
    }
}

#[test]
fn aur_addresses() {
    assert_eq!(AurClient::info_url("archey3"), "https://aur.archlinux.org/rpc/v5/info?arg[]=archey3");
    assert_eq!(
        AurClient::pkgbuild_url("archey3"),
        "https://aur.archlinux.org/cgit/aur.git/plain/PKGBUILD?h=archey3"
    );
}

#[test]
fn package_base_of_first_result() {
    let info = AurInfo { results: Some(vec![Some("base".to_string()), Some("other".to_string())]) };
    assert_eq!(AurClient::package_base(&info).ok(), Some("base".to_string()));
}

#[test]
fn package_base_errors() {
    let none = AurInfo { results: None };
    assert!(matches!(AurClient::package_base(&none), Err(AurError::NoResults)));
    let empty = AurInfo { results: Some(vec![]) };
    assert!(matches!(AurClient::package_base(&empty), Err(AurError::NotFound)));
    let missing = AurInfo { results: Some(vec![None]) };
    assert!(matches!(AurClient::package_base(&missing), Err(AurError::MissingPackageBase)));
}

#[test]
fn aur_error_messages() {
    assert_eq!(AurError::NoResults.message("p"), "No results found for package: p");
    assert_eq!(AurError::NotFound.message("p"), "Package not found in AUR: p");
    assert_eq!(AurError::MissingPackageBase.message("p"), "Missing PackageBase field");
}

#[test]
fn install_arguments_drop_check() {
    let a = args(Some("archey3"), false, false, &["--check", "--needed"]);
    assert_eq!(install_arguments("archey3", &a), vec!["-S", "archey3", "--needed"]);
}

#[test]
fn passthrough_arguments_keep_everything() {
    let a = args(Some("pkg"), true, false, &["--noconfirm"]);
    assert_eq!(passthrough_arguments(&a), vec!["-S", "pkg", "--noconfirm"]);
    let b = args(None, false, false, &["-Syu"]);
    assert_eq!(passthrough_arguments(&b), vec!["-Syu"]);
}

#[test]
fn removal_is_handed_on() {
    let mut a = args(None, false, false, &["--noconfirm"]);
    a.remove = Some("pkg".to_string());
    assert_eq!(passthrough_arguments(&a), vec!["-R", "pkg", "--noconfirm"]);
}

#[test]
fn readme_install_line_for_archey3() {
    let a = args(Some("archey3"), false, false, &["--check"]);
    assert_eq!(install_command_text("archey3", &a.get_filtered_args()), "yay -S archey3");
}

#[test]
fn install_command_line_text() {
    let f = vec!["--needed".to_string(), "--noconfirm".to_string()];
    assert_eq!(install_command_text("archey3", &f), "yay -S archey3 --needed --noconfirm");
    assert_eq!(install_command_text("archey3", &vec![]), "yay -S archey3");
}

#[test]
fn paru_warning() {
    assert!(paru_warning_needed(true, false));
    assert!(!paru_warning_needed(true, true));
    assert!(!paru_warning_needed(false, false));
}

#[test]
fn scan_when_installing_with_defaults() {
    match plan(&args(Some("archey3"), false, false, &["--check"]), &Config::default()) {
        Plan::Scan(p) => assert_eq!(p, "archey3"),
        Plan::Run { .. } => panic!("expected a scan"),
    }
}

#[test]
fn no_check_flag_means_no_scan() {
    assert!(matches!(
        plan(&args(Some("archey3"), false, false, &[]), &Config::default()),
        Plan::Run { note_skipped_scan: false }
    ));
}

#[test]
fn no_scan_flag_skips_and_says_so() {
    match plan(&args(Some("archey3"), true, false, &["--check"]), &Config::default()) {
        Plan::Run { note_skipped_scan } => assert!(note_skipped_scan),
        Plan::Scan(_) => panic!("no scan expected"),
    }
    match plan(&args(Some("archey3"), true, true, &[]), &Config::default()) {
        Plan::Run { note_skipped_scan } => assert!(!note_skipped_scan),
        Plan::Scan(_) => panic!("no scan expected"),
    }
}

#[test]
fn no_package_or_scans_off_means_run() {
    assert!(matches!(
        plan(&args(None, false, false, &["-Syu"]), &Config::default()),
        Plan::Run { note_skipped_scan: false }
    ));
    let mut c = Config::default();
    c.scan_by_default = false;
    assert!(matches!(
        plan(&args(Some("p"), false, false, &["--check"]), &c),
        Plan::Run { note_skipped_scan: false }
    ));
}

#[test]
fn reactions_to_scans() {
    let r = react_to_scan(false, ScanStatus::Concerns);
    assert!(r.show_findings && !r.show_all_clear && r.ask_to_continue);
    let r = react_to_scan(true, ScanStatus::Concerns);
    assert!(!r.show_findings && r.ask_to_continue);
    let r = react_to_scan(false, ScanStatus::Clean);
    assert!(!r.show_findings && r.show_all_clear && !r.ask_to_continue);
    let r = react_to_scan(true, ScanStatus::Clean);
    assert!(!r.show_all_clear && !r.ask_to_continue);
    let r = react_to_scan(false, ScanStatus::Failed);
    assert!(!r.show_findings && !r.show_all_clear && r.ask_to_continue);
}
