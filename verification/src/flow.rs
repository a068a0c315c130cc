//! The decisions of a run of aurek: whether to scan, and what follows a scan.
use vstd::prelude::*;
use crate::args::{Args, check_marker};
use crate::config::Config;

verus! {

/// What a run does.
pub enum Plan {
    /// Scan this package, then install it.
    Scan(String),
    /// Hand the command on to yay; first say that the scan was skipped
    /// when `note_skipped_scan`.
    Run { note_skipped_scan: bool },
}

/// A package is scanned when one is to be installed, `--check` is among the
/// extra arguments, `--no-scan` is absent and the settings do not turn scans
/// off.
pub open spec fn scan_requested(args: &Args, config: &Config) -> bool {
    &&& !args.no_scan
    &&& args.install is Some
    &&& args.extra().contains(check_marker())
    &&& config.scan_by_default
}

/// What a run with these arguments and settings does (from `main`).
pub fn plan(args: &Args, config: &Config) -> (r: Plan)
    ensures
        match r {
            Plan::Scan(p) => scan_requested(args, config) && args.install->0@ == p@,
            Plan::Run { note_skipped_scan } => !scan_requested(args, config) && note_skipped_scan
                == (!args.quiet && args.install is Some && args.no_scan),
        },
{
    let should_scan = if args.no_scan {
        false
    } else if args.install.is_some() {
        args.has_check_flag() && config.scan_by_default
    } else {
        false
    };
    match &args.install {
        Some(p) => if should_scan {
            Plan::Scan(p.clone())
        } else {
            Plan::Run { note_skipped_scan: !args.quiet && args.no_scan }
        },
        None => Plan::Run { note_skipped_scan: false },
    }
}

/// How a scan ended.
pub enum ScanStatus {
    /// Concerns were found.
    Concerns,
    /// Nothing was found.
    Clean,
    /// The scan could not be done.
    Failed,
}

/// What follows a scan.
pub struct Reaction {
    /// Show the concerns.
    pub show_findings: bool,
    /// Say that no malware was detected.
    pub show_all_clear: bool,
    /// Ask whether to continue before installing.
    pub ask_to_continue: bool,
}

/// What follows a scan that ended with `status` (from `main`).
pub fn react_to_scan(quiet: bool, status: ScanStatus) -> (r: Reaction)
    ensures
        r.show_findings == (!quiet && status is Concerns),
        r.show_all_clear == (!quiet && status is Clean),
        r.ask_to_continue == !(status is Clean),
{
    match status {
        ScanStatus::Concerns => Reaction {
            show_findings: !quiet,
            show_all_clear: false,
            ask_to_continue: true,
        },
        ScanStatus::Clean => Reaction {
            show_findings: false,
            show_all_clear: !quiet,
            ask_to_continue: false,
        },
        ScanStatus::Failed => Reaction {
            show_findings: false,
            show_all_clear: false,
            ask_to_continue: true,
        },
    }
}


/// Law: without `--check` aurek hands the command on to yay; `--no-scan`, a
/// run without a package, and settings that turn scans off each mean that no
/// scan is made either.
pub proof fn law_when_scans_happen(args: &Args, config: &Config)
    ensures
        !args.extra().contains(check_marker()) ==> !scan_requested(args, config),
        args.no_scan ==> !scan_requested(args, config),
        args.install is None ==> !scan_requested(args, config),
        !config.scan_by_default ==> !scan_requested(args, config),
{
}


/// Law: whether a package is scanned depends only on the package, the extra
/// arguments (`--check`), `--no-scan` and the settings: two command lines that
/// agree on those, but differ in `--quiet`, `--no-llm`, `--model` or `-R`,
/// are scanned alike.
pub proof fn law_scanning_ignores_other_flags(a: &Args, b: &Args, config: &Config)
    requires
        a.install == b.install,
        a.no_scan == b.no_scan,
        a.extra() == b.extra(),
    ensures
        scan_requested(a, config) == scan_requested(b, config),
{
}

/// Law: a package to install, `--check`, no `--no-scan` and scans left on in
/// the settings always give a scan of that package.
pub proof fn law_checked_install_is_scanned(args: &Args, config: &Config)
    requires
        args.install is Some,
        args.extra().contains(check_marker()),
        !args.no_scan,
        config.scan_by_default,
    ensures
        scan_requested(args, config),
{
}

} // verus!
