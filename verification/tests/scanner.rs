use aurek::config::Config;
use aurek::scanner::{LlmOutcome, Scanner};

fn scanner(use_llm: bool) -> Scanner {
    Scanner::new(use_llm, None, Config::default())
}

fn pair(a: &str, b: &str) -> (String, String) {
    (a.to_string(), b.to_string())
}

#[test]
fn new_keeps_its_arguments() {
    let s = Scanner::new(true, Some("/m.gguf".to_string()), Config::default());
    assert!(s.use_llm);
    assert_eq!(s.model_path, Some("/m.gguf".to_string()));
    assert!(s.config.color);
}

#[test]
fn clean_pkgbuild_has_no_findings() {
    let content = "pkgname=archey3\npkgver=0.5\nbuild() {\n  make\n}\n";
    assert!(scanner(false).heuristic_analysis(content).is_empty());
}

#[test]
fn curl_piped_to_shell() {
    let f = scanner(false).heuristic_analysis("curl https://example.com/x.sh | sh");
    assert_eq!(
        f,
        vec![
            pair("Remote Code Execution", "Downloads and executes script from remote source"),
            pair("Network Access", "Downloads from an external URL"),
        ]
    );
}

#[test]
fn curl_download_of_external_url_is_reported() {
    let f = scanner(false).heuristic_analysis("curl -LO https://example.com/app.tar.gz");
    assert_eq!(f, vec![pair("Network Access", "Downloads from an external URL")]);
    let g = scanner(false).heuristic_analysis("wget http://example.com/a");
    assert_eq!(g, vec![pair("Network Access", "Downloads from an external URL")]);
}

#[test]
fn url_without_download_command_is_not_a_network_call() {
    assert!(scanner(false).heuristic_analysis("source=(https://example.com/a.tar.gz)").is_empty());
}

#[test]
fn download_command_without_url_is_not_a_network_call() {
    assert!(scanner(false).heuristic_analysis("curl --version").is_empty());
}

#[test]
fn curl_and_wget_both_reported() {
    let f = scanner(false).heuristic_analysis("wget a; curl b | sh");
    assert_eq!(f.len(), 2);
    assert_eq!(f[0].0, "Remote Code Execution");
    assert_eq!(f[1].0, "Remote Code Execution");
}

#[test]
fn every_rule_in_order() {
    let content = "crontab -e\nsystemd-run x\neval $X\nbase64 -d f\npython -c 'x'\nrm -rf / \nchmod 777 f\nsudo a\nwget u | sh\ncurl u\n";
    let f = scanner(false).heuristic_analysis(content);
    let cats: Vec<&str> = f.iter().map(|p| p.0.as_str()).collect();
    assert_eq!(
        cats,
        vec![
            "Remote Code Execution",
            "Remote Code Execution",
            "Privilege Escalation",
            "Permission Issue",
            "Destructive",
            "Code Obfuscation",
            "Code Obfuscation",
            "Code Injection",
            "System Persistence",
            "System Persistence",
        ]
    );
    assert_eq!(f[2].1, "Uses sudo, may escalate privileges");
    assert_eq!(f[3].1, "Sets overly permissive file permissions");
    assert_eq!(f[4].1, "Dangerous deletion command");
    assert_eq!(f[5].1, "Python code execution, could be obfuscated");
    assert_eq!(f[6].1, "Base64 decoding, could hide malicious code");
    assert_eq!(f[7].1, "Variable evaluation, could be used for code injection");
    assert_eq!(f[8].1, "Systemd service injection");
    assert_eq!(f[9].1, "Cron job installation");
}

fn is_subsequence(a: &[(String, String)], b: &[(String, String)]) -> bool {
    let mut j = 0;
    for x in a {
        while j < b.len() && &b[j] != x {
            j += 1;
        }
        if j == b.len() {
            return false;
        }
        j += 1;
    }
    true
}

#[test]
fn findings_of_part_are_among_findings_of_whole() {
    let s = scanner(false);
    let part = "sudo make install\ncrontab -l";
    let whole = format!("curl https://x | sh\n{}\nchmod 777 f", part);
    let fp = s.heuristic_analysis(part);
    let fw = s.heuristic_analysis(&whole);
    assert_eq!(fp.len(), 2);
    assert!(is_subsequence(&fp, &fw));
    assert!(fw.len() > fp.len());
}

#[test]
fn model_concerns_split_at_first_colon() {
    let ws = vec![
        "Network: downloads: a binary".to_string(),
        "no colon here".to_string(),
        " Privilege :  uses sudo ".to_string(),
    ];
    assert_eq!(
        Scanner::llm_findings(&ws),
        vec![
            pair("Network", "downloads: a binary"),
            pair("General", "no colon here"),
            pair("Privilege", "uses sudo"),
        ]
    );
}

#[test]
fn conclusion_uses_model_findings_when_model_answered() {
    let s = scanner(true);
    let r = s.conclude_scan("sudo rm", LlmOutcome::Findings(vec!["Odd: thing".to_string()]));
    assert_eq!(r, Some(vec![pair("Odd", "thing")]));
}

#[test]
fn conclusion_is_clean_when_model_found_nothing() {
    let s = scanner(true);
    assert_eq!(s.conclude_scan("sudo rm", LlmOutcome::Findings(vec![])), None);
}

#[test]
fn conclusion_falls_back_to_rules_when_model_unavailable() {
    let s = scanner(true);
    let r = s.conclude_scan("sudo make", LlmOutcome::Unavailable).unwrap();
    assert_eq!(r, vec![pair("Privilege Escalation", "Uses sudo, may escalate privileges")]);
}

#[test]
fn conclusion_without_model_ignores_model_answer() {
    let s = scanner(false);
    assert_eq!(s.conclude_scan("make", LlmOutcome::Findings(vec!["X: y".to_string()])), None);
}

#[test]
fn report_for_no_findings() {
    assert_eq!(scanner(false).report_text(&[]), "No issues detected\n");
}

#[test]
fn report_lists_findings_as_in_readme() {
    let ws = vec![
        pair("Remote Code Execution", "Downloads script from external URL"),
        pair("Privilege Escalation", "Uses sudo without verification"),
    ];
    let expected = "\nPotential issues detected:\n  - Remote Code Execution: Downloads script from external URL\n  - Privilege Escalation: Uses sudo without verification\n\n";
    assert_eq!(scanner(false).report_text(&ws), expected);
}

#[test]
fn report_keeps_finding_order() {
    let ws: Vec<(String, String)> = (0..12).map(|i| pair(&format!("c{}", i), "d")).collect();
    let text = scanner(false).report_text(&ws);
    let lines: Vec<&str> = text.lines().collect();
    assert_eq!(lines.len(), 15);
    assert_eq!(lines[14], "");
    assert_eq!(lines[1], "Potential issues detected:");
    assert_eq!(lines[2], "  - c0: d");
    assert_eq!(lines[13], "  - c11: d");
}

#[test]
fn answers_that_agree() {
    for a in ["y", "Y", "yes", "YES", " Yes\n", "\ty \r\n"] {
        assert!(Scanner::answer_is_yes(a), "{:?}", a);
    }
}

#[test]
fn answers_that_refuse() {
    for a in ["", "\n", "n", "no", "yess", "ye", "y e s", "N"] {
        assert!(!Scanner::answer_is_yes(a), "{:?}", a);
    }
}
