//! The package scanner: pattern rules over a PKGBUILD, the findings of the
//! language model, the report shown to the user and the answer read back.
use vstd::prelude::*;
use vstd::string::*;
use crate::config::Config;
use crate::text::{
    chars_equal, chars_of, contains, occurs_at, contains_chars, find_chars,
    first_occurrence, is_first_occurrence, lemma_contains_iff_first, lower_chars, lower_seq, trim,
    trim_str, views,
};

verus! {

/// Findings as pairs of plain texts: (category, description).
pub open spec fn finding_views(v: Seq<(String, String)>) -> Seq<(Seq<char>, Seq<char>)> {
    v.map_values(|p: (String, String)| (p.0@, p.1@))
}

/// Scans packages before they are installed.
pub struct Scanner {
    /// Ask the local language model first.
    pub use_llm: bool,
    /// The model file, where one was given.
    pub model_path: Option<String>,
    /// The user's settings.
    pub config: Config,
}

/// What the language model gave for a PKGBUILD.
pub enum LlmOutcome {
    /// The model could not be used; the pattern rules decide.
    Unavailable,
    /// The concerns that the model reported.
    Findings(Vec<String>),
}

/// One pattern rule: when `hit`, the finding is appended.
pub open spec fn rule(
    found: Seq<(Seq<char>, Seq<char>)>,
    hit: bool,
    category: Seq<char>,
    description: Seq<char>,
) -> Seq<(Seq<char>, Seq<char>)> {
    if hit {
        found.push((category, description))
    } else {
        found
    }
}

/// Whether each pattern rule fires on `c`, in rule order.
pub open spec fn rule_hits(c: Seq<char>) -> Seq<bool> {
    seq![
        contains(c, "curl"@) && contains(c, "| sh"@),
        contains(c, "wget"@) && contains(c, "| sh"@),
        contains(c, "sudo"@),
        contains(c, "chmod 777"@),
        contains(c, "rm -rf /"@),
        contains(c, "python -c"@),
        contains(c, "base64 -d"@),
        contains(c, "eval $"@),
        contains(c, "systemd-run"@),
        contains(c, "crontab"@),
        network_download(c),
    ]
}

/// The finding of each pattern rule, in rule order.
pub open spec fn rule_labels() -> Seq<(Seq<char>, Seq<char>)> {
    seq![
        ("Remote Code Execution"@, "Downloads and executes script from remote source"@),
        ("Remote Code Execution"@, "Downloads and executes script from remote source"@),
        ("Privilege Escalation"@, "Uses sudo, may escalate privileges"@),
        ("Permission Issue"@, "Sets overly permissive file permissions"@),
        ("Destructive"@, "Dangerous deletion command"@),
        ("Code Obfuscation"@, "Python code execution, could be obfuscated"@),
        ("Code Obfuscation"@, "Base64 decoding, could hide malicious code"@),
        ("Code Injection"@, "Variable evaluation, could be used for code injection"@),
        ("System Persistence"@, "Systemd service injection"@),
        ("System Persistence"@, "Cron job installation"@),
        ("Network Access"@, "Downloads from an external URL"@),
    ]
}

/// The findings of the first `n` rules, given which of them fire.
pub open spec fn select_findings(
    hits: Seq<bool>,
    labels: Seq<(Seq<char>, Seq<char>)>,
    n: nat,
) -> Seq<(Seq<char>, Seq<char>)>
    decreases n,
{
    if n == 0 {
        Seq::empty()
    } else {
        rule(
            select_findings(hits, labels, (n - 1) as nat),
            hits[n - 1],
            labels[n - 1].0,
            labels[n - 1].1,
        )
    }
}

/// The findings of the pattern rules for a PKGBUILD, in rule order.
pub open spec fn heuristic_findings(c: Seq<char>) -> Seq<(Seq<char>, Seq<char>)> {
    select_findings(rule_hits(c), rule_labels(), 11)
}

/// A download command (`curl`, `wget`) together with an external URL
/// (`http://`, `https://`).
pub open spec fn network_download(c: Seq<char>) -> bool {
    (contains(c, "curl"@) || contains(c, "wget"@)) && (contains(c, "http://"@) || contains(
        c,
        "https://"@,
    ))
}

/// A concern of the model as a finding: `category: description` is split at
/// the first `:`; without `:` the category is `General`.
pub open spec fn llm_finding(w: Seq<char>) -> (Seq<char>, Seq<char>) {
    match first_occurrence(w, seq![':']) {
        Some(i) => (trim(w.take(i)), trim(w.skip(i + 1))),
        None => ("General"@, w),
    }
}

pub open spec fn llm_findings(ws: Seq<Seq<char>>) -> Seq<(Seq<char>, Seq<char>)> {
    ws.map_values(|w: Seq<char>| llm_finding(w))
}

/// The findings of a scan: the model's when it was used and answered, the
/// pattern rules' otherwise.
pub open spec fn scan_findings(use_llm: bool, content: Seq<char>, llm: LlmOutcome) -> Seq<
    (Seq<char>, Seq<char>),
> {
    match llm {
        LlmOutcome::Findings(ws) => if use_llm {
            llm_findings(views(ws@))
        } else {
            heuristic_findings(content)
        },
        LlmOutcome::Unavailable => heuristic_findings(content),
    }
}

/// The report line of one finding: `  - <category>: <description>`.
pub open spec fn warning_line(category: Seq<char>, description: Seq<char>) -> Seq<char> {
    "  - "@ + category + ": "@ + description + "\n"@
}

/// The report lines of all findings, in order.
pub open spec fn warning_lines(ws: Seq<(Seq<char>, Seq<char>)>) -> Seq<char>
    decreases ws.len(),
{
    if ws.len() == 0 {
        Seq::empty()
    } else {
        warning_lines(ws.drop_last()) + warning_line(ws.last().0, ws.last().1)
    }
}

/// The text shown for a list of findings: a header, one line per finding,
/// and a blank line.
pub open spec fn warnings_report(ws: Seq<(Seq<char>, Seq<char>)>) -> Seq<char> {
    if ws.len() == 0 {
        "No issues detected\n"@
    } else {
        "\nPotential issues detected:\n"@ + warning_lines(ws) + "\n"@
    }
}

/// The answer to "Continue anyway?" agrees: `y` or `yes`, in any case,
/// surrounded by any white space.
pub open spec fn is_yes(answer: Seq<char>) -> bool {
    lower_seq(trim(answer)) == "y"@ || lower_seq(trim(answer)) == "yes"@
}

fn add_finding(
    found: &mut Vec<(String, String)>,
    hit: bool,
    category: &str,
    description: &str,
)
    ensures
        finding_views(final(found)@) == rule(
            finding_views(old(found)@),
            hit,
            category@,
            description@,
        ),
{
    if hit {
        let ghost before = finding_views(found@);
        found.push((category.to_owned(), description.to_owned()));
        assert(finding_views(found@) =~= before.push((category@, description@)));
    }
}

impl Scanner {
    pub fn new(use_llm: bool, model_path: Option<String>, config: Config) -> (r: Self)
        ensures
            r.use_llm == use_llm,
            r.model_path == model_path,
            r.config == config,
    {
        Scanner { use_llm, model_path, config }
    }

    /// The findings of the pattern rules for a PKGBUILD.
    pub fn heuristic_analysis(&self, content: &str) -> (r: Vec<(String, String)>)
        ensures
            finding_views(r@) == heuristic_findings(content@),
    {
        let c = chars_of(content);
        let ghost h = rule_hits(content@);
        let ghost l = rule_labels();
        let pipe_to_shell = contains_chars(&c, &chars_of("| sh"));
        let mut w: Vec<(String, String)> = Vec::new();
        assert(finding_views(w@) =~= select_findings(h, l, 0));
        let hit = contains_chars(&c, &chars_of("curl")) && pipe_to_shell;
        assert(hit == h[0]);
        add_finding(&mut w, hit, "Remote Code Execution", "Downloads and executes script from remote source");
        assert(finding_views(w@) == select_findings(h, l, 1));
        let hit = contains_chars(&c, &chars_of("wget")) && pipe_to_shell;
        assert(hit == h[1]);
        add_finding(&mut w, hit, "Remote Code Execution", "Downloads and executes script from remote source");
        assert(finding_views(w@) == select_findings(h, l, 2));
        let hit = contains_chars(&c, &chars_of("sudo"));
        assert(hit == h[2]);
        add_finding(&mut w, hit, "Privilege Escalation", "Uses sudo, may escalate privileges");
        assert(finding_views(w@) == select_findings(h, l, 3));
        let hit = contains_chars(&c, &chars_of("chmod 777"));
        assert(hit == h[3]);
        add_finding(&mut w, hit, "Permission Issue", "Sets overly permissive file permissions");
        assert(finding_views(w@) == select_findings(h, l, 4));
        let hit = contains_chars(&c, &chars_of("rm -rf /"));
        assert(hit == h[4]);
        add_finding(&mut w, hit, "Destructive", "Dangerous deletion command");
        assert(finding_views(w@) == select_findings(h, l, 5));
        let hit = contains_chars(&c, &chars_of("python -c"));
        assert(hit == h[5]);
        add_finding(&mut w, hit, "Code Obfuscation", "Python code execution, could be obfuscated");
        assert(finding_views(w@) == select_findings(h, l, 6));
        let hit = contains_chars(&c, &chars_of("base64 -d"));
        assert(hit == h[6]);
        add_finding(&mut w, hit, "Code Obfuscation", "Base64 decoding, could hide malicious code");
        assert(finding_views(w@) == select_findings(h, l, 7));
        let hit = contains_chars(&c, &chars_of("eval $"));
        assert(hit == h[7]);
        add_finding(&mut w, hit, "Code Injection", "Variable evaluation, could be used for code injection");
        assert(finding_views(w@) == select_findings(h, l, 8));
        let hit = contains_chars(&c, &chars_of("systemd-run"));
        assert(hit == h[8]);
        add_finding(&mut w, hit, "System Persistence", "Systemd service injection");
        assert(finding_views(w@) == select_findings(h, l, 9));
        let hit = contains_chars(&c, &chars_of("crontab"));
        assert(hit == h[9]);
        add_finding(&mut w, hit, "System Persistence", "Cron job installation");
        assert(finding_views(w@) == select_findings(h, l, 10));
        let downloads = contains_chars(&c, &chars_of("curl")) || contains_chars(
            &c,
            &chars_of("wget"),
        );
        let external_url = contains_chars(&c, &chars_of("http://")) || contains_chars(
            &c,
            &chars_of("https://"),
        );
        let hit = downloads && external_url;
        assert(hit == h[10]);
        add_finding(&mut w, hit, "Network Access", "Downloads from an external URL");
        assert(finding_views(w@) == select_findings(h, l, 11));
        w
    }

    /// The model's concerns as findings.
    pub fn llm_findings(warnings: &Vec<String>) -> (r: Vec<(String, String)>)
        ensures
            finding_views(r@) == llm_findings(views(warnings@)),
    {
        let n = warnings.len();
        let mut r: Vec<(String, String)> = Vec::new();
        let mut i: usize = 0;
        let colon: Vec<char> = vec![':'];
        assert(colon@ =~= seq![':']);
        while i < n
            invariant
                n == warnings.len(),
                i <= n,
                colon@ == seq![':'],
                finding_views(r@) == llm_findings(views(warnings@).take(i as int)),
            decreases n - i,
        {
            let w = warnings[i].as_str();
            let wv = chars_of(w);
            let wn = wv.len();
            let ghost before = finding_views(r@);
            match find_chars(&wv, &colon) {
                Some(k) => {
                    assert(occurs_at(wv@, colon@, k as int));
                    assert(colon@.len() == 1);
                    assert(k + 1 <= wn);
                    let category = trim_str(w.substring_char(0, k)).to_owned();
                    let description = trim_str(w.substring_char(k + 1, wn)).to_owned();
                    assert(wv@.subrange(0, k as int) =~= wv@.take(k as int));
                    assert(wv@.subrange(k + 1, wv@.len() as int) =~= wv@.skip(k + 1));
                    r.push((category, description));
                },
                None => {
                    r.push(("General".to_owned(), warnings[i].clone()));
                },
            }
            assert(finding_views(r@) =~= before.push(llm_finding(views(warnings@)[i as int])));
            i += 1;
            assert(llm_findings(views(warnings@).take(i as int)) =~= llm_findings(
                views(warnings@).take(i - 1),
            ).push(llm_finding(views(warnings@)[i - 1])));
        }
        assert(views(warnings@).take(n as int) =~= views(warnings@));
        r
    }

    /// The outcome of a scan of `content`: `None` when nothing was found,
    /// otherwise the findings (the deciding part of `scan_package`).
    pub fn conclude_scan(&self, content: &str, llm: LlmOutcome) -> (r: Option<
        Vec<(String, String)>,
    >)
        ensures
            match r {
                None => scan_findings(self.use_llm, content@, llm).len() == 0,
                Some(v) => v@.len() > 0 && finding_views(v@) == scan_findings(
                    self.use_llm,
                    content@,
                    llm,
                ),
            },
    {
        let found = match &llm {
            LlmOutcome::Findings(ws) => if self.use_llm {
                Self::llm_findings(ws)
            } else {
                self.heuristic_analysis(content)
            },
            LlmOutcome::Unavailable => self.heuristic_analysis(content),
        };
        if found.len() == 0 {
            None
        } else {
            Some(found)
        }
    }

    /// The text that `print_warnings` shows for the findings.
    pub fn report_text(&self, warnings: &[(String, String)]) -> (r: String)
        ensures
            r@ == warnings_report(finding_views(warnings@)),
    {
        let n = warnings.len();
        if n == 0 {
            return "No issues detected\n".to_owned();
        }
        let mut out = "\nPotential issues detected:\n".to_owned();
        let ghost head = out@;
        let mut i: usize = 0;
        assert(finding_views(warnings@).take(0) =~= Seq::<(Seq<char>, Seq<char>)>::empty());
        assert(out@ =~= head + warning_lines(finding_views(warnings@).take(0)));
        while i < n
            invariant
                n == warnings@.len(),
                i <= n,
                head == "\nPotential issues detected:\n"@,
                out@ == head + warning_lines(finding_views(warnings@).take(i as int)),
            decreases n - i,
        {
            let ghost fv = finding_views(warnings@);
            out.append("  - ");
            out.append(warnings[i].0.as_str());
            out.append(": ");
            out.append(warnings[i].1.as_str());
            out.append("\n");
            assert(fv.take(i + 1).drop_last() =~= fv.take(i as int));
            assert(out@ =~= head + warning_lines(fv.take(i + 1)));
            i += 1;
        }
        out.append("\n");
        assert(finding_views(warnings@).take(n as int) =~= finding_views(warnings@));
        out
    }

    /// Whether an answer to "Continue anyway? (y/N)" agrees (the deciding
    /// part of `confirm_continue`).
    pub fn answer_is_yes(answer: &str) -> (r: bool)
        ensures
            r == is_yes(answer@),
    {
        let t = lower_chars(trim_str(answer));
        chars_equal(&t, &chars_of("y")) || chars_equal(&t, &chars_of("yes"))
    }
}


/// Whether any pattern rule fires on `c`.
pub open spec fn any_pattern(c: Seq<char>) -> bool {
    ||| contains(c, "curl"@) && contains(c, "| sh"@)
    ||| contains(c, "wget"@) && contains(c, "| sh"@)
    ||| contains(c, "sudo"@)
    ||| contains(c, "chmod 777"@)
    ||| contains(c, "rm -rf /"@)
    ||| contains(c, "python -c"@)
    ||| contains(c, "base64 -d"@)
    ||| contains(c, "eval $"@)
    ||| contains(c, "systemd-run"@)
    ||| contains(c, "crontab"@)
    ||| network_download(c)
}

/// Law: the pattern rules find nothing exactly when none of the suspicious
/// patterns occurs in the PKGBUILD.
pub proof fn law_no_findings_iff_no_pattern(c: Seq<char>)
    ensures
        heuristic_findings(c).len() == 0 <==> !any_pattern(c),
{
    let h = rule_hits(c);
    lemma_select_empty(h, rule_labels(), 11);
    if any_pattern(c) {
        assert(exists|i: int| 0 <= i < 11 && h[i]) by {
            if h[0] {} else if h[1] {} else if h[2] {} else if h[3] {} else if h[4] {}
            else if h[5] {} else if h[6] {} else if h[7] {} else if h[8] {} else if h[9] {}
            else { assert(h[10]); }
        }
    }
}

/// The first `n` rules find nothing exactly when none of them fires.
proof fn lemma_select_empty(hits: Seq<bool>, labels: Seq<(Seq<char>, Seq<char>)>, n: nat)
    requires
        n <= hits.len(),
    ensures
        select_findings(hits, labels, n).len() == 0 <==> forall|i: int| 0 <= i < n ==> !hits[i],
    decreases n,
{
    if n > 0 {
        lemma_select_empty(hits, labels, (n - 1) as nat);
        lemma_select_len(hits, labels, (n - 1) as nat);
    }
}

proof fn lemma_select_len(hits: Seq<bool>, labels: Seq<(Seq<char>, Seq<char>)>, n: nat)
    ensures
        select_findings(hits, labels, n).len() <= n,
    decreases n,
{
    if n > 0 {
        lemma_select_len(hits, labels, (n - 1) as nat);
    }
}

/// A pattern found in a part of a text is found in the whole text.
proof fn lemma_contains_in_whole(c: Seq<char>, e: Seq<char>, p: Seq<char>)
    requires
        contains(e, c),
    ensures
        contains(c, p) ==> contains(e, p),
{
    if contains(c, p) {
        let i = choose|i: int| occurs_at(e, c, i);
        let j = choose|j: int| occurs_at(c, p, j);
        assert(e.subrange(i, i + c.len()) == c);
        assert(e.subrange(i + j, i + j + p.len()) =~= e.subrange(i, i + c.len()).subrange(
            j,
            j + p.len(),
        ));
        assert(e.subrange(i + j, i + j + p.len()) =~= c.subrange(j, j + p.len()));
        assert(occurs_at(e, p, i + j));
    }
}

/// `idx` picks the elements of `a`, in order, out of `b`.
pub open spec fn embeds<T>(a: Seq<T>, b: Seq<T>, idx: Seq<int>) -> bool {
    &&& idx.len() == a.len()
    &&& forall|k: int| 0 <= k < idx.len() ==> 0 <= #[trigger] idx[k] < b.len() && b[idx[k]] == a[k]
    &&& forall|k: int, l: int| 0 <= k < l < idx.len() ==> idx[k] < idx[l]
}

/// `a` is `b` with some elements left out, the others in their order.
pub open spec fn is_subsequence<T>(a: Seq<T>, b: Seq<T>) -> bool {
    exists|idx: Seq<int>| embeds(a, b, idx)
}

/// A rule that fires whenever a weaker one fires keeps the embedding.
proof fn lemma_rule_step(
    f: Seq<(Seq<char>, Seq<char>)>,
    g: Seq<(Seq<char>, Seq<char>)>,
    idx: Seq<int>,
    h: bool,
    h2: bool,
    category: Seq<char>,
    description: Seq<char>,
) -> (idx2: Seq<int>)
    requires
        embeds(f, g, idx),
        h ==> h2,
    ensures
        embeds(rule(f, h, category, description), rule(g, h2, category, description), idx2),
{
    if h {
        let idx2 = idx.push(g.len() as int);
        assert forall|k: int, l: int| 0 <= k < l < idx2.len() implies idx2[k] < idx2[l] by {
            if l < idx.len() {
                assert(idx[k] < idx[l]);
            } else {
                assert(0 <= idx[k] < g.len());
            }
        }
        idx2
    } else {
        idx
    }
}

/// When every rule that fires for one text fires for another, the first
/// text's findings are among the second's.
proof fn lemma_select_embeds(
    hc: Seq<bool>,
    he: Seq<bool>,
    labels: Seq<(Seq<char>, Seq<char>)>,
    n: nat,
) -> (idx: Seq<int>)
    requires
        n <= hc.len(),
        n <= he.len(),
        n <= labels.len(),
        forall|i: int| 0 <= i < n ==> hc[i] ==> he[i],
    ensures
        embeds(select_findings(hc, labels, n), select_findings(he, labels, n), idx),
    decreases n,
{
    if n == 0 {
        Seq::empty()
    } else {
        let prev = lemma_select_embeds(hc, he, labels, (n - 1) as nat);
        assert(hc[n - 1] ==> he[n - 1]);
        lemma_rule_step(
            select_findings(hc, labels, (n - 1) as nat),
            select_findings(he, labels, (n - 1) as nat),
            prev,
            hc[n - 1],
            he[n - 1],
            labels[n - 1].0,
            labels[n - 1].1,
        )
    }
}

/// Law: the findings for a part of a PKGBUILD are among the findings for the
/// whole, in the same order: adding text never removes a finding.
pub proof fn law_findings_of_part_in_whole(c: Seq<char>, e: Seq<char>)
    requires
        contains(e, c),
    ensures
        is_subsequence(heuristic_findings(c), heuristic_findings(e)),
{
    lemma_contains_in_whole(c, e, "curl"@);
    lemma_contains_in_whole(c, e, "| sh"@);
    lemma_contains_in_whole(c, e, "wget"@);
    lemma_contains_in_whole(c, e, "sudo"@);
    lemma_contains_in_whole(c, e, "chmod 777"@);
    lemma_contains_in_whole(c, e, "rm -rf /"@);
    lemma_contains_in_whole(c, e, "python -c"@);
    lemma_contains_in_whole(c, e, "base64 -d"@);
    lemma_contains_in_whole(c, e, "eval $"@);
    lemma_contains_in_whole(c, e, "systemd-run"@);
    lemma_contains_in_whole(c, e, "crontab"@);
    lemma_contains_in_whole(c, e, "http://"@);
    lemma_contains_in_whole(c, e, "https://"@);
    let hc = rule_hits(c);
    let he = rule_hits(e);
    assert forall|i: int| 0 <= i < 11 && hc[i] implies he[i] by {
        if i == 10 {
            assert(network_download(c) ==> network_download(e));
        }
    }
    let idx = lemma_select_embeds(hc, he, rule_labels(), 11);
    assert(embeds(heuristic_findings(c), heuristic_findings(e), idx));
}

/// Law: when the model is used and answered, the scan has one finding per
/// concern, in the model's order, whatever the PKGBUILD holds; a concern
/// without `:` is filed under `General` as it stands, and one with `:` is
/// split at its first `:` into a trimmed category and description.
pub proof fn law_model_answer_decides(c: Seq<char>, c2: Seq<char>, ws: Vec<String>)
    ensures
        scan_findings(true, c, LlmOutcome::Findings(ws)).len() == ws@.len(),
        scan_findings(true, c, LlmOutcome::Findings(ws)) == scan_findings(
            true,
            c2,
            LlmOutcome::Findings(ws),
        ),
        forall|i: int|
            0 <= i < ws@.len() ==> {
                let w = #[trigger] ws@[i]@;
                let f = scan_findings(true, c, LlmOutcome::Findings(ws))[i];
                &&& !contains(w, seq![':']) ==> f == ("General"@, w)
                &&& contains(w, seq![':']) ==> exists|k: int|
                    is_first_occurrence(w, seq![':'], k) && f.0 == trim(w.take(k)) && f.1 == trim(
                        w.skip(k + 1),
                    )
            },
{
    let f = scan_findings(true, c, LlmOutcome::Findings(ws));
    assert forall|i: int| 0 <= i < ws@.len() implies {
        let w = #[trigger] ws@[i]@;
        &&& !contains(w, seq![':']) ==> f[i] == ("General"@, w)
        &&& contains(w, seq![':']) ==> exists|k: int|
            is_first_occurrence(w, seq![':'], k) && f[i].0 == trim(w.take(k)) && f[i].1 == trim(
                w.skip(k + 1),
            )
    } by {
        let w = ws@[i]@;
        assert(views(ws@)[i] == w);
        lemma_contains_iff_first(w, seq![':']);
        if contains(w, seq![':']) {
            let k = first_occurrence(w, seq![':'])->0;
            assert(is_first_occurrence(w, seq![':'], k));
        }
    }
}

/// The first `n` rules find `x` exactly when a rule among them with finding
/// `x` fires.
proof fn lemma_select_contains(
    hits: Seq<bool>,
    labels: Seq<(Seq<char>, Seq<char>)>,
    n: nat,
    x: (Seq<char>, Seq<char>),
)
    requires
        n <= hits.len(),
        n <= labels.len(),
    ensures
        select_findings(hits, labels, n).contains(x) <==> exists|j: int|
            0 <= j < n && hits[j] && labels[j] == x,
    decreases n,
{
    if n > 0 {
        let m = (n - 1) as nat;
        lemma_select_contains(hits, labels, m, x);
        let prev = select_findings(hits, labels, m);
        if hits[n - 1] {
            let cur = prev.push(labels[n - 1]);
            if cur.contains(x) {
                let i = choose|i: int| 0 <= i < cur.len() && cur[i] == x;
                if i < prev.len() {
                    assert(prev[i] == x);
                } else {
                    assert(labels[n - 1] == x);
                }
            }
            if exists|j: int| 0 <= j < n && hits[j] && labels[j] == x {
                let j = choose|j: int| 0 <= j < n && hits[j] && labels[j] == x;
                if j < n - 1 {
                    let i = choose|i: int| 0 <= i < prev.len() && prev[i] == x;
                    assert(cur[i] == x);
                } else {
                    assert(cur[prev.len() as int] == x);
                }
            }
        }
    }
}

/// Rule `k`'s finding is that of no other rule, but for the two remote code
/// execution rules, which share one.
proof fn lemma_label_unique(k: int, j: int)
    requires
        0 <= k < 11,
        0 <= j < 11,
        rule_labels()[j] == rule_labels()[k],
    ensures
        j == k || (j <= 1 && k <= 1),
{
    reveal_strlit("Downloads and executes script from remote source");
    reveal_strlit("Uses sudo, may escalate privileges");
    reveal_strlit("Sets overly permissive file permissions");
    reveal_strlit("Dangerous deletion command");
    reveal_strlit("Python code execution, could be obfuscated");
    reveal_strlit("Base64 decoding, could hide malicious code");
    reveal_strlit("Variable evaluation, could be used for code injection");
    reveal_strlit("Systemd service injection");
    reveal_strlit("Cron job installation");
    reveal_strlit("Downloads from an external URL");
    let l = rule_labels();
    if k == 0 {
        if j == 2 {
            assert(l[2].1.len() != l[0].1.len() || l[2].1[0] != l[0].1[0]);
        }
        if j == 3 {
            assert(l[3].1.len() != l[0].1.len() || l[3].1[0] != l[0].1[0]);
        }
        if j == 4 {
            assert(l[4].1.len() != l[0].1.len() || l[4].1[0] != l[0].1[0]);
        }
        if j == 5 {
            assert(l[5].1.len() != l[0].1.len() || l[5].1[0] != l[0].1[0]);
        }
        if j == 6 {
            assert(l[6].1.len() != l[0].1.len() || l[6].1[0] != l[0].1[0]);
        }
        if j == 7 {
            assert(l[7].1.len() != l[0].1.len() || l[7].1[0] != l[0].1[0]);
        }
        if j == 8 {
            assert(l[8].1.len() != l[0].1.len() || l[8].1[0] != l[0].1[0]);
        }
        if j == 9 {
            assert(l[9].1.len() != l[0].1.len() || l[9].1[0] != l[0].1[0]);
        }
        if j == 10 {
            assert(l[10].1.len() != l[0].1.len() || l[10].1[0] != l[0].1[0]);
        }
    } else if k == 1 {
        if j == 2 {
            assert(l[2].1.len() != l[1].1.len() || l[2].1[0] != l[1].1[0]);
        }
        if j == 3 {
            assert(l[3].1.len() != l[1].1.len() || l[3].1[0] != l[1].1[0]);
        }
        if j == 4 {
            assert(l[4].1.len() != l[1].1.len() || l[4].1[0] != l[1].1[0]);
        }
        if j == 5 {
            assert(l[5].1.len() != l[1].1.len() || l[5].1[0] != l[1].1[0]);
        }
        if j == 6 {
            assert(l[6].1.len() != l[1].1.len() || l[6].1[0] != l[1].1[0]);
        }
        if j == 7 {
            assert(l[7].1.len() != l[1].1.len() || l[7].1[0] != l[1].1[0]);
        }
        if j == 8 {
            assert(l[8].1.len() != l[1].1.len() || l[8].1[0] != l[1].1[0]);
        }
        if j == 9 {
            assert(l[9].1.len() != l[1].1.len() || l[9].1[0] != l[1].1[0]);
        }
        if j == 10 {
            assert(l[10].1.len() != l[1].1.len() || l[10].1[0] != l[1].1[0]);
        }
    } else if k == 2 {
        if j == 0 {
            assert(l[0].1.len() != l[2].1.len() || l[0].1[0] != l[2].1[0]);
        }
        if j == 1 {
            assert(l[1].1.len() != l[2].1.len() || l[1].1[0] != l[2].1[0]);
        }
        if j == 3 {
            assert(l[3].1.len() != l[2].1.len() || l[3].1[0] != l[2].1[0]);
        }
        if j == 4 {
            assert(l[4].1.len() != l[2].1.len() || l[4].1[0] != l[2].1[0]);
        }
        if j == 5 {
            assert(l[5].1.len() != l[2].1.len() || l[5].1[0] != l[2].1[0]);
        }
        if j == 6 {
            assert(l[6].1.len() != l[2].1.len() || l[6].1[0] != l[2].1[0]);
        }
        if j == 7 {
            assert(l[7].1.len() != l[2].1.len() || l[7].1[0] != l[2].1[0]);
        }
        if j == 8 {
            assert(l[8].1.len() != l[2].1.len() || l[8].1[0] != l[2].1[0]);
        }
        if j == 9 {
            assert(l[9].1.len() != l[2].1.len() || l[9].1[0] != l[2].1[0]);
        }
        if j == 10 {
            assert(l[10].1.len() != l[2].1.len() || l[10].1[0] != l[2].1[0]);
        }
    } else if k == 3 {
        if j == 0 {
            assert(l[0].1.len() != l[3].1.len() || l[0].1[0] != l[3].1[0]);
        }
        if j == 1 {
            assert(l[1].1.len() != l[3].1.len() || l[1].1[0] != l[3].1[0]);
        }
        if j == 2 {
            assert(l[2].1.len() != l[3].1.len() || l[2].1[0] != l[3].1[0]);
        }
        if j == 4 {
            assert(l[4].1.len() != l[3].1.len() || l[4].1[0] != l[3].1[0]);
        }
        if j == 5 {
            assert(l[5].1.len() != l[3].1.len() || l[5].1[0] != l[3].1[0]);
        }
        if j == 6 {
            assert(l[6].1.len() != l[3].1.len() || l[6].1[0] != l[3].1[0]);
        }
        if j == 7 {
            assert(l[7].1.len() != l[3].1.len() || l[7].1[0] != l[3].1[0]);
        }
        if j == 8 {
            assert(l[8].1.len() != l[3].1.len() || l[8].1[0] != l[3].1[0]);
        }
        if j == 9 {
            assert(l[9].1.len() != l[3].1.len() || l[9].1[0] != l[3].1[0]);
        }
        if j == 10 {
            assert(l[10].1.len() != l[3].1.len() || l[10].1[0] != l[3].1[0]);
        }
    } else if k == 4 {
        if j == 0 {
            assert(l[0].1.len() != l[4].1.len() || l[0].1[0] != l[4].1[0]);
        }
        if j == 1 {
            assert(l[1].1.len() != l[4].1.len() || l[1].1[0] != l[4].1[0]);
        }
        if j == 2 {
            assert(l[2].1.len() != l[4].1.len() || l[2].1[0] != l[4].1[0]);
        }
        if j == 3 {
            assert(l[3].1.len() != l[4].1.len() || l[3].1[0] != l[4].1[0]);
        }
        if j == 5 {
            assert(l[5].1.len() != l[4].1.len() || l[5].1[0] != l[4].1[0]);
        }
        if j == 6 {
            assert(l[6].1.len() != l[4].1.len() || l[6].1[0] != l[4].1[0]);
        }
        if j == 7 {
            assert(l[7].1.len() != l[4].1.len() || l[7].1[0] != l[4].1[0]);
        }
        if j == 8 {
            assert(l[8].1.len() != l[4].1.len() || l[8].1[0] != l[4].1[0]);
        }
        if j == 9 {
            assert(l[9].1.len() != l[4].1.len() || l[9].1[0] != l[4].1[0]);
        }
        if j == 10 {
            assert(l[10].1.len() != l[4].1.len() || l[10].1[0] != l[4].1[0]);
        }
    } else if k == 5 {
        if j == 0 {
            assert(l[0].1.len() != l[5].1.len() || l[0].1[0] != l[5].1[0]);
        }
        if j == 1 {
            assert(l[1].1.len() != l[5].1.len() || l[1].1[0] != l[5].1[0]);
        }
        if j == 2 {
            assert(l[2].1.len() != l[5].1.len() || l[2].1[0] != l[5].1[0]);
        }
        if j == 3 {
            assert(l[3].1.len() != l[5].1.len() || l[3].1[0] != l[5].1[0]);
        }
        if j == 4 {
            assert(l[4].1.len() != l[5].1.len() || l[4].1[0] != l[5].1[0]);
        }
        if j == 6 {
            assert(l[6].1.len() != l[5].1.len() || l[6].1[0] != l[5].1[0]);
        }
        if j == 7 {
            assert(l[7].1.len() != l[5].1.len() || l[7].1[0] != l[5].1[0]);
        }
        if j == 8 {
            assert(l[8].1.len() != l[5].1.len() || l[8].1[0] != l[5].1[0]);
        }
        if j == 9 {
            assert(l[9].1.len() != l[5].1.len() || l[9].1[0] != l[5].1[0]);
        }
        if j == 10 {
            assert(l[10].1.len() != l[5].1.len() || l[10].1[0] != l[5].1[0]);
        }
    } else if k == 6 {
        if j == 0 {
            assert(l[0].1.len() != l[6].1.len() || l[0].1[0] != l[6].1[0]);
        }
        if j == 1 {
            assert(l[1].1.len() != l[6].1.len() || l[1].1[0] != l[6].1[0]);
        }
        if j == 2 {
            assert(l[2].1.len() != l[6].1.len() || l[2].1[0] != l[6].1[0]);
        }
        if j == 3 {
            assert(l[3].1.len() != l[6].1.len() || l[3].1[0] != l[6].1[0]);
        }
        if j == 4 {
            assert(l[4].1.len() != l[6].1.len() || l[4].1[0] != l[6].1[0]);
        }
        if j == 5 {
            assert(l[5].1.len() != l[6].1.len() || l[5].1[0] != l[6].1[0]);
        }
        if j == 7 {
            assert(l[7].1.len() != l[6].1.len() || l[7].1[0] != l[6].1[0]);
        }
        if j == 8 {
            assert(l[8].1.len() != l[6].1.len() || l[8].1[0] != l[6].1[0]);
        }
        if j == 9 {
            assert(l[9].1.len() != l[6].1.len() || l[9].1[0] != l[6].1[0]);
        }
        if j == 10 {
            assert(l[10].1.len() != l[6].1.len() || l[10].1[0] != l[6].1[0]);
        }
    } else if k == 7 {
        if j == 0 {
            assert(l[0].1.len() != l[7].1.len() || l[0].1[0] != l[7].1[0]);
        }
        if j == 1 {
            assert(l[1].1.len() != l[7].1.len() || l[1].1[0] != l[7].1[0]);
        }
        if j == 2 {
            assert(l[2].1.len() != l[7].1.len() || l[2].1[0] != l[7].1[0]);
        }
        if j == 3 {
            assert(l[3].1.len() != l[7].1.len() || l[3].1[0] != l[7].1[0]);
        }
        if j == 4 {
            assert(l[4].1.len() != l[7].1.len() || l[4].1[0] != l[7].1[0]);
        }
        if j == 5 {
            assert(l[5].1.len() != l[7].1.len() || l[5].1[0] != l[7].1[0]);
        }
        if j == 6 {
            assert(l[6].1.len() != l[7].1.len() || l[6].1[0] != l[7].1[0]);
        }
        if j == 8 {
            assert(l[8].1.len() != l[7].1.len() || l[8].1[0] != l[7].1[0]);
        }
        if j == 9 {
            assert(l[9].1.len() != l[7].1.len() || l[9].1[0] != l[7].1[0]);
        }
        if j == 10 {
            assert(l[10].1.len() != l[7].1.len() || l[10].1[0] != l[7].1[0]);
        }
    } else if k == 8 {
        if j == 0 {
            assert(l[0].1.len() != l[8].1.len() || l[0].1[0] != l[8].1[0]);
        }
        if j == 1 {
            assert(l[1].1.len() != l[8].1.len() || l[1].1[0] != l[8].1[0]);
        }
        if j == 2 {
            assert(l[2].1.len() != l[8].1.len() || l[2].1[0] != l[8].1[0]);
        }
        if j == 3 {
            assert(l[3].1.len() != l[8].1.len() || l[3].1[0] != l[8].1[0]);
        }
        if j == 4 {
            assert(l[4].1.len() != l[8].1.len() || l[4].1[0] != l[8].1[0]);
        }
        if j == 5 {
            assert(l[5].1.len() != l[8].1.len() || l[5].1[0] != l[8].1[0]);
        }
        if j == 6 {
            assert(l[6].1.len() != l[8].1.len() || l[6].1[0] != l[8].1[0]);
        }
        if j == 7 {
            assert(l[7].1.len() != l[8].1.len() || l[7].1[0] != l[8].1[0]);
        }
        if j == 9 {
            assert(l[9].1.len() != l[8].1.len() || l[9].1[0] != l[8].1[0]);
        }
        if j == 10 {
            assert(l[10].1.len() != l[8].1.len() || l[10].1[0] != l[8].1[0]);
        }
    } else if k == 9 {
        if j == 0 {
            assert(l[0].1.len() != l[9].1.len() || l[0].1[0] != l[9].1[0]);
        }
        if j == 1 {
            assert(l[1].1.len() != l[9].1.len() || l[1].1[0] != l[9].1[0]);
        }
        if j == 2 {
            assert(l[2].1.len() != l[9].1.len() || l[2].1[0] != l[9].1[0]);
        }
        if j == 3 {
            assert(l[3].1.len() != l[9].1.len() || l[3].1[0] != l[9].1[0]);
        }
        if j == 4 {
            assert(l[4].1.len() != l[9].1.len() || l[4].1[0] != l[9].1[0]);
        }
        if j == 5 {
            assert(l[5].1.len() != l[9].1.len() || l[5].1[0] != l[9].1[0]);
        }
        if j == 6 {
            assert(l[6].1.len() != l[9].1.len() || l[6].1[0] != l[9].1[0]);
        }
        if j == 7 {
            assert(l[7].1.len() != l[9].1.len() || l[7].1[0] != l[9].1[0]);
        }
        if j == 8 {
            assert(l[8].1.len() != l[9].1.len() || l[8].1[0] != l[9].1[0]);
        }
        if j == 10 {
            assert(l[10].1.len() != l[9].1.len() || l[10].1[0] != l[9].1[0]);
        }
    } else if k == 10 {
        if j == 0 {
            assert(l[0].1.len() != l[10].1.len() || l[0].1[0] != l[10].1[0]);
        }
        if j == 1 {
            assert(l[1].1.len() != l[10].1.len() || l[1].1[0] != l[10].1[0]);
        }
        if j == 2 {
            assert(l[2].1.len() != l[10].1.len() || l[2].1[0] != l[10].1[0]);
        }
        if j == 3 {
            assert(l[3].1.len() != l[10].1.len() || l[3].1[0] != l[10].1[0]);
        }
        if j == 4 {
            assert(l[4].1.len() != l[10].1.len() || l[4].1[0] != l[10].1[0]);
        }
        if j == 5 {
            assert(l[5].1.len() != l[10].1.len() || l[5].1[0] != l[10].1[0]);
        }
        if j == 6 {
            assert(l[6].1.len() != l[10].1.len() || l[6].1[0] != l[10].1[0]);
        }
        if j == 7 {
            assert(l[7].1.len() != l[10].1.len() || l[7].1[0] != l[10].1[0]);
        }
        if j == 8 {
            assert(l[8].1.len() != l[10].1.len() || l[8].1[0] != l[10].1[0]);
        }
        if j == 9 {
            assert(l[9].1.len() != l[10].1.len() || l[9].1[0] != l[10].1[0]);
        }
    }
}

/// Rule `k` (past the two remote code execution rules) finds its finding
/// exactly when it fires.
proof fn lemma_finding_iff_rule(c: Seq<char>, k: int)
    requires
        2 <= k < 11,
    ensures
        heuristic_findings(c).contains(rule_labels()[k]) <==> rule_hits(c)[k],
{
    let h = rule_hits(c);
    let l = rule_labels();
    lemma_select_contains(h, l, 11, l[k]);
    if heuristic_findings(c).contains(l[k]) {
        let j = choose|j: int| 0 <= j < 11 && h[j] && l[j] == l[k];
        lemma_label_unique(k, j);
    }
}

/// The remote code execution finding is found exactly when one of its two
/// rules fires.
proof fn lemma_finding_remote_code(c: Seq<char>)
    ensures
        heuristic_findings(c).contains(rule_labels()[0]) <==> rule_hits(c)[0] || rule_hits(c)[1],
{
    let h = rule_hits(c);
    let l = rule_labels();
    lemma_select_contains(h, l, 11, l[0]);
    if heuristic_findings(c).contains(l[0]) {
        let j = choose|j: int| 0 <= j < 11 && h[j] && l[j] == l[0];
        lemma_label_unique(0, j);
    }
    assert(l[1] == l[0]);
}

/// Law: each finding of the pattern rules is tied to its own pattern: it is
/// among the findings for a PKGBUILD exactly when that pattern occurs in it.
pub proof fn law_each_finding_has_its_pattern(c: Seq<char>)
    ensures
        heuristic_findings(c).contains(
            ("Remote Code Execution"@, "Downloads and executes script from remote source"@),
        ) <==> contains(c, "| sh"@) && (contains(c, "curl"@) || contains(c, "wget"@)),
        heuristic_findings(c).contains(
            ("Privilege Escalation"@, "Uses sudo, may escalate privileges"@),
        ) <==> contains(c, "sudo"@),
        heuristic_findings(c).contains(
            ("Permission Issue"@, "Sets overly permissive file permissions"@),
        ) <==> contains(c, "chmod 777"@),
        heuristic_findings(c).contains(("Destructive"@, "Dangerous deletion command"@))
            <==> contains(c, "rm -rf /"@),
        heuristic_findings(c).contains(
            ("Code Obfuscation"@, "Python code execution, could be obfuscated"@),
        ) <==> contains(c, "python -c"@),
        heuristic_findings(c).contains(
            ("Code Obfuscation"@, "Base64 decoding, could hide malicious code"@),
        ) <==> contains(c, "base64 -d"@),
        heuristic_findings(c).contains(
            ("Code Injection"@, "Variable evaluation, could be used for code injection"@),
        ) <==> contains(c, "eval $"@),
        heuristic_findings(c).contains(("System Persistence"@, "Systemd service injection"@))
            <==> contains(c, "systemd-run"@),
        heuristic_findings(c).contains(("System Persistence"@, "Cron job installation"@))
            <==> contains(c, "crontab"@),
        heuristic_findings(c).contains(("Network Access"@, "Downloads from an external URL"@))
            <==> (contains(c, "curl"@) || contains(c, "wget"@)) && (contains(c, "http://"@)
            || contains(c, "https://"@)),
{
    lemma_finding_remote_code(c);
    lemma_finding_iff_rule(c, 2);
    lemma_finding_iff_rule(c, 3);
    lemma_finding_iff_rule(c, 4);
    lemma_finding_iff_rule(c, 5);
    lemma_finding_iff_rule(c, 6);
    lemma_finding_iff_rule(c, 7);
    lemma_finding_iff_rule(c, 8);
    lemma_finding_iff_rule(c, 9);
    lemma_finding_iff_rule(c, 10);
}

/// Law: every concern of the model becomes exactly one finding, in order.
pub proof fn law_one_finding_per_concern(ws: Seq<Seq<char>>)
    ensures
        llm_findings(ws).len() == ws.len(),
        forall|i: int| 0 <= i < ws.len() ==> #[trigger] llm_findings(ws)[i] == llm_finding(ws[i]),
{
}

/// Law: without the language model the outcome of a scan depends on the
/// PKGBUILD alone, and a scan reports findings exactly when some are found.
pub proof fn law_scan_without_model(content: Seq<char>, llm: LlmOutcome)
    ensures
        scan_findings(false, content, llm) == heuristic_findings(content),
{
}

} // verus!
