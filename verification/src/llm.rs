//! What aurek asks the local language model and how its answer is read.
use vstd::prelude::*;
use vstd::string::*;
use crate::text::{
    CharClass, chars_of, contains, contains_chars, contains_str, find_chars, first_occurrence,
    in_class, is_in_class, lower_chars, lower_seq, occurs_at, split_lines, split_on,
    strip_leading, strip_start, trim, trim_str, utf8_len, utf8_len_exceeds, views,
};

verus! {

/// What `serde_json::from_str::<Vec<String>>` gives for a text: the strings of
/// a JSON array of strings, or nothing when the text is not one.
pub uninterp spec fn json_string_array(text: Seq<char>) -> Option<Seq<Seq<char>>>;

/// The texts of an optional list of strings.
pub open spec fn opt_views(o: Option<Vec<String>>) -> Option<Seq<Seq<char>>> {
    match o {
        Some(v) => Some(views(v@)),
        None => None,
    }
}

/// Calls `serde_json::from_str::<Vec<String>>`. Trusted: the result is the one
/// that `json_string_array` names for the text; nothing more is claimed of
/// which texts are JSON arrays of strings.
#[verifier::external_body]
fn parse_json_string_array(text: &str) -> (r: Option<Vec<String>>)
    ensures
        opt_views(r) == json_string_array(text@),
{
    serde_json::from_str::<Vec<String>>(text).ok()
}

/// The request sent to the model for a PKGBUILD.
pub open spec fn prompt_text(content: Seq<char>, package_name: Seq<char>) -> Seq<char> {
    "Analyze this PKGBUILD file for malware or suspicious code.\nPackage: "@ + package_name
        + "\nPKGBUILD:\n```\n"@ + content
        + "\n```\n\nReturn a JSON array of security concerns. If none found, return an empty array [].\nFormat each concern as a string. Do NOT include your thinking process, only the response."@
}

/// The request sent to the model for a PKGBUILD (the first part of `analyze_pkgbuild`).
pub fn analysis_prompt(content: &str, package_name: &str) -> (r: String)
    ensures
        r@ == prompt_text(content@, package_name@),
{
    let mut p = "Analyze this PKGBUILD file for malware or suspicious code.\nPackage: ".to_owned();
    p.append(package_name);
    p.append("\nPKGBUILD:\n```\n");
    p.append(content);
    p.append(
        "\n```\n\nReturn a JSON array of security concerns. If none found, return an empty array [].\nFormat each concern as a string. Do NOT include your thinking process, only the response.",
    );
    p
}

/// The answer without the model's reasoning: the text after the first
/// `[End thinking]`, else after the first `response:`, else all of it.
pub open spec fn after_reasoning(r: Seq<char>) -> Seq<char> {
    match first_occurrence(r, "[End thinking]"@) {
        Some(i) => r.skip(i + "[End thinking]"@.len()),
        None => match first_occurrence(r, "response:"@) {
            Some(i) => r.skip(i + "response:"@.len()),
            None => r,
        },
    }
}

/// The concern that one line of a free-text answer states, if any: a list
/// item (`-`, `*` or a bullet) gives its text; a line of more than 20 bytes
/// with a `:` and no code fence gives `head: tail`.
pub open spec fn line_warning(line: Seq<char>) -> Option<Seq<char>> {
    let t = trim(line);
    if t.len() > 0 && in_class(t[0], CharClass::Bullet) {
        let w = trim(strip_leading(t, CharClass::Bullet));
        if w.len() > 0 {
            Some(w)
        } else {
            None
        }
    } else if contains(t, seq![':']) && !contains(t, "```"@) && utf8_len(t) > 20 {
        let i = first_occurrence(t, seq![':'])->0;
        Some(trim(t.take(i)) + ": "@ + trim(t.skip(i + 1)))
    } else {
        None
    }
}

/// The concerns of the given lines, in order.
pub open spec fn line_warnings(lines: Seq<Seq<char>>) -> Seq<Seq<char>>
    decreases lines.len(),
{
    if lines.len() == 0 {
        Seq::empty()
    } else {
        let prev = line_warnings(lines.drop_last());
        match line_warning(lines.last()) {
            Some(w) => prev.push(w),
            None => prev,
        }
    }
}

/// The concerns of a free-text answer. When no line states one, a non-empty
/// answer without `[]` counts as one concern, unless it calls the package
/// safe or says there are no issues.
pub open spec fn free_text_warnings(body: Seq<char>) -> Seq<Seq<char>> {
    let found = line_warnings(split_on(body, '\n'));
    if found.len() == 0 && body.len() > 0 && !contains(body, "[]"@) {
        if contains(lower_seq(body), "safe"@) || contains(lower_seq(body), "no issues"@) {
            Seq::empty()
        } else {
            seq![trim(body)]
        }
    } else {
        found
    }
}

/// The concerns of an answer `body` whose trimmed text, read as a JSON array
/// of strings, gave `json`.
pub open spec fn response_warnings(body: Seq<char>, json: Option<Seq<Seq<char>>>) -> Seq<
    Seq<char>,
> {
    match json {
        Some(a) => a,
        None => free_text_warnings(body),
    }
}

/// The concerns that an answer of the model states.
pub open spec fn answer_warnings(response: Seq<char>) -> Seq<Seq<char>> {
    let body = after_reasoning(response);
    response_warnings(body, json_string_array(trim(body)))
}

/// The answer without the model's reasoning.
pub fn strip_reasoning<'a>(response: &'a str) -> (r: &'a str)
    ensures
        r@ == after_reasoning(response@),
{
    let v = chars_of(response);
    let n = v.len();
    let end_marker = "[End thinking]";
    let end_pattern = chars_of(end_marker);
    match find_chars(&v, &end_pattern) {
        Some(i) => {
            let k = end_marker.unicode_len();
            assert(occurs_at(v@, end_pattern@, i as int));
            assert(k == end_pattern@.len());
            assert(v@.subrange(i + k, v@.len() as int) =~= v@.skip(i + k));
            response.substring_char(i + k, n)
        },
        None => {
            let marker = "response:";
            let pattern = chars_of(marker);
            match find_chars(&v, &pattern) {
                Some(i) => {
                    let k = marker.unicode_len();
                    assert(occurs_at(v@, pattern@, i as int));
                    assert(v@.subrange(i + k, v@.len() as int) =~= v@.skip(i + k));
                    response.substring_char(i + k, n)
                },
                None => response,
            }
        },
    }
}

/// The concern stated by one line of a free-text answer.
pub fn warning_of_line(line: &str) -> (r: Option<String>)
    ensures
        match r {
            Some(w) => line_warning(line@) == Some(w@),
            None => line_warning(line@) is None,
        },
{
    let t = trim_str(line);
    let tv = chars_of(t);
    if tv.len() > 0 && is_in_class(tv[0], CharClass::Bullet) {
        let w = trim_str(strip_start(t, CharClass::Bullet));
        if w.unicode_len() > 0 {
            return Some(w.to_owned());
        }
        return None;
    }
    let colon: Vec<char> = vec![':'];
    assert(colon@ =~= seq![':']);
    match find_chars(&tv, &colon) {
        None => None,
        Some(i) => {
            assert(occurs_at(tv@, colon@, i as int));
            if contains_chars(&tv, &chars_of("```")) || !utf8_len_exceeds(&tv, 20) {
                return None;
            }
            let head = trim_str(t.substring_char(0, i));
            let tail = trim_str(t.substring_char(i + 1, tv.len()));
            assert(tv@.subrange(0, i as int) =~= tv@.take(i as int));
            assert(tv@.subrange(i + 1, tv@.len() as int) =~= tv@.skip(i + 1));
            let mut w = head.to_owned();
            w.append(": ");
            w.append(tail);
            Some(w)
        },
    }
}

/// The concerns of a free-text answer.
pub fn free_text_concerns(body: &str) -> (r: Vec<String>)
    ensures
        views(r@) == free_text_warnings(body@),
{
    let lines = split_lines(body);
    let n = lines.len();
    let mut found: Vec<String> = Vec::new();
    let mut i: usize = 0;
    assert(views(lines@).take(0) =~= Seq::<Seq<char>>::empty());
    while i < n
        invariant
            n == lines.len(),
            i <= n,
            views(lines@) == split_on(body@, '\n'),
            views(found@) == line_warnings(views(lines@).take(i as int)),
        decreases n - i,
    {
        assert(views(lines@).take(i + 1).drop_last() =~= views(lines@).take(i as int));
        let ghost before = views(found@);
        match warning_of_line(lines[i].as_str()) {
            Some(w) => {
                found.push(w);
                assert(views(found@) =~= before.push(line_warning(views(lines@)[i as int])->0));
            },
            None => {},
        }
        i += 1;
    }
    assert(views(lines@).take(n as int) =~= views(lines@));
    if found.len() == 0 && !body.is_empty() && !contains_str(body, "[]") {
        let lower = lower_chars(body);
        if contains_chars(&lower, &chars_of("safe")) || contains_chars(
            &lower,
            &chars_of("no issues"),
        ) {
            return Vec::new();
        }
        found.push(trim_str(body).to_owned());
        assert(views(found@) =~= seq![trim(body@)]);
    }
    found
}

/// The concerns of an answer `body`, given what reading its trimmed text as a
/// JSON array of strings gave.
pub fn interpret_response(body: &str, json: Option<Vec<String>>) -> (r: Vec<String>)
    ensures
        views(r@) == response_warnings(body@, opt_views(json)),
{
    match json {
        Some(a) => a,
        None => free_text_concerns(body),
    }
}

/// The concerns that an answer of the model states (`parse_response`).
pub fn parse_response(response: &str) -> (r: Vec<String>)
    ensures
        views(r@) == answer_warnings(response@),
{
    let body = strip_reasoning(response);
    let json = parse_json_string_array(trim_str(body));
    interpret_response(body, json)
}

/// The model file used when none is given: `<home>/models/gemma-2b-it-Q4_K_M.gguf`.
pub fn default_model_path(home: &str) -> (r: String)
    ensures
        r@ == home@ + "/models/gemma-2b-it-Q4_K_M.gguf"@,
{
    let mut p = home.to_owned();
    p.append("/models/gemma-2b-it-Q4_K_M.gguf");
    p
}

/// How many one-second waits the server gets to become ready.
pub const STARTUP_ATTEMPTS: u32 = 60;

/// What to do after a wait for the model server.
pub enum WaitStep {
    /// The server answers: go on.
    Ready,
    /// Wait again.
    Wait,
    /// Say how many seconds have passed, then wait again.
    Report(u32),
    /// Stop: the server did not start in time.
    GiveUp,
}

/// The step after wait number `attempt` (counted from 0), given whether the
/// server then answered a health check and a test completion.
pub open spec fn wait_step(attempt: u32, ready: bool) -> WaitStep {
    if ready {
        WaitStep::Ready
    } else if attempt + 1 >= STARTUP_ATTEMPTS {
        WaitStep::GiveUp
    } else if attempt % 10 == 0 && attempt > 0 {
        WaitStep::Report(attempt)
    } else {
        WaitStep::Wait
    }
}

/// The step after a wait for the model server (the deciding part of `start_server`).
pub fn next_wait_step(attempt: u32, ready: bool) -> (r: WaitStep)
    ensures
        r == wait_step(attempt, ready),
{
    if ready {
        WaitStep::Ready
    } else if attempt >= STARTUP_ATTEMPTS - 1 {
        WaitStep::GiveUp
    } else if attempt % 10 == 0 && attempt > 0 {
        WaitStep::Report(attempt)
    } else {
        WaitStep::Wait
    }
}


/// Law: the request for a PKGBUILD holds both the package's name and the
/// whole PKGBUILD.
pub proof fn law_prompt_holds_package_and_pkgbuild(content: Seq<char>, package_name: Seq<char>)
    ensures
        contains(prompt_text(content, package_name), content),
        contains(prompt_text(content, package_name), package_name),
{
    let a = "Analyze this PKGBUILD file for malware or suspicious code.\nPackage: "@;
    let b = "\nPKGBUILD:\n```\n"@;
    let c = "\n```\n\nReturn a JSON array of security concerns. If none found, return an empty array [].\nFormat each concern as a string. Do NOT include your thinking process, only the response."@;
    let p = prompt_text(content, package_name);
    let i = (a.len() + package_name.len() + b.len()) as int;
    assert(p.subrange(i, i + content.len()) =~= content);
    assert(occurs_at(p, content, i));
    let j = a.len() as int;
    assert(p.subrange(j, j + package_name.len()) =~= package_name);
    assert(occurs_at(p, package_name, j));
}

/// Law: an answer whose text (after the reasoning, trimmed) is a JSON array of
/// strings gives exactly those strings.
pub proof fn law_json_answer_taken_as_is(response: Seq<char>, a: Seq<Seq<char>>)
    requires
        json_string_array(trim(after_reasoning(response))) == Some(a),
    ensures
        answer_warnings(response) == a,
{
}

/// Law: what the model writes before its first `[End thinking]` is ignored.
pub proof fn law_reasoning_ignored(reasoning: Seq<char>, rest: Seq<char>)
    requires
        !contains((reasoning + "[End thinking]"@).drop_last(), "[End thinking]"@),
    ensures
        after_reasoning(reasoning + "[End thinking]"@ + rest) == rest,
        answer_warnings(reasoning + "[End thinking]"@ + rest) == response_warnings(
            rest,
            json_string_array(trim(rest)),
        ),
{
    let m = "[End thinking]"@;
    let full = reasoning + m + rest;
    let k = reasoning.len() as int;
    assert(full.subrange(k, k + m.len()) =~= m);
    assert forall|j: int| 0 <= j < k implies !occurs_at(full, m, j) by {
        if occurs_at(full, m, j) {
            let pre = (reasoning + m).drop_last();
            assert(pre.subrange(j, j + m.len()) =~= full.subrange(j, j + m.len()));
            assert(occurs_at(pre, m, j));
        }
    }
    crate::text::lemma_first_occurrence_is(full, m, k);
    assert(full.skip(k + m.len()) =~= rest);
}

/// Law: when some line of a free-text answer states a concern, the answer's
/// concerns are exactly those of its lines, whatever words such as "safe" or
/// "no issues" it holds; an answer gives no concern only when no line states
/// one and it is empty, holds `[]`, or calls the package safe or free of issues.
pub proof fn law_line_concerns_come_first(body: Seq<char>)
    ensures
        line_warnings(split_on(body, '\n')).len() > 0 ==> free_text_warnings(body)
            == line_warnings(split_on(body, '\n')),
        free_text_warnings(body).len() == 0 ==> {
            &&& line_warnings(split_on(body, '\n')).len() == 0
            &&& (body.len() == 0 || contains(body, "[]"@) || contains(lower_seq(body), "safe"@)
                || contains(lower_seq(body), "no issues"@))
        },
        line_warnings(split_on(body, '\n')).len() == 0 && body.len() > 0 && !contains(body, "[]"@)
            && !contains(lower_seq(body), "safe"@) && !contains(lower_seq(body), "no issues"@)
            ==> free_text_warnings(body) == seq![trim(body)],
{
}

/// Law: a list item `- w` of a free-text answer states the concern `w`,
/// for any `w` that has no surrounding white space and does not start with
/// another list marker.
pub proof fn law_list_item_is_concern(w: Seq<char>)
    requires
        trim(w) == w,
        w.len() > 0,
        !in_class(w[0], CharClass::Bullet),
    ensures
        line_warning(seq!['-', ' '] + w) == Some(w),
{
    let line = seq!['-', ' '] + w;
    crate::text::lemma_trimmed_ends(w);
    assert(line.last() == w.last());
    crate::text::lemma_trim_fixed(line);
    assert(line.drop_first() =~= seq![' '] + w);
    assert(strip_leading(line, CharClass::Bullet) == strip_leading(seq![' '] + w, CharClass::Bullet));
    assert(strip_leading(seq![' '] + w, CharClass::Bullet) == seq![' '] + w);
    assert((seq![' '] + w).drop_first() =~= w);
    assert(strip_leading(seq![' '] + w, CharClass::Whitespace) == strip_leading(w, CharClass::Whitespace));
    assert(strip_leading(w, CharClass::Whitespace) == w);
}

/// Law: the model server gets at most `STARTUP_ATTEMPTS` waits, and is used as
/// soon as it answers.
pub proof fn law_startup_is_bounded(attempt: u32)
    ensures
        wait_step(attempt, true) is Ready,
        attempt + 1 >= STARTUP_ATTEMPTS ==> wait_step(attempt, false) is GiveUp,
        attempt + 1 < STARTUP_ATTEMPTS ==> !(wait_step(attempt, false) is GiveUp),
{
}

} // verus!
