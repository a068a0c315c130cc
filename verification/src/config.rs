//! The settings file of aurek and how its text is read.
use vstd::prelude::*;
use vstd::string::*;
use crate::text::{
    CharClass, chars_of, find_chars, first_occurrence, is_whitespace, lemma_first_occurrence_is,
    lemma_split_on_nonempty, lemma_trim_fixed, lemma_trimmed_ends, occurs_at, same_text,
    split_lines, split_on, strip_end, strip_trailing, trim, trim_str, views,
};

verus! {

/// User settings.
#[derive(Debug, Clone)]
pub struct Config {
    /// Print in colour.
    pub color: bool,
    /// Show the model's answer on the terminal.
    pub llm_response_on_cli: bool,
    /// The model used when none is given on the command line.
    pub default_llm_model: Option<String>,
    /// Scan packages before installing them.
    pub scan_by_default: bool,
}

/// The settings as plain values.
pub struct ConfigView {
    pub color: bool,
    pub llm_response_on_cli: bool,
    pub default_llm_model: Option<Seq<char>>,
    pub scan_by_default: bool,
}

impl View for Config {
    type V = ConfigView;

    open spec fn view(&self) -> ConfigView {
        ConfigView {
            color: self.color,
            llm_response_on_cli: self.llm_response_on_cli,
            default_llm_model: match self.default_llm_model {
                Some(m) => Some(m@),
                None => None,
            },
            scan_by_default: self.scan_by_default,
        }
    }
}

/// The settings in force when no file says otherwise.
pub open spec fn default_config() -> ConfigView {
    ConfigView {
        color: true,
        llm_response_on_cli: false,
        default_llm_model: None,
        scan_by_default: true,
    }
}

impl Default for Config {
    fn default() -> (r: Self)
        ensures
            r@ == default_config(),
    {
        Config {
            color: true,
            llm_response_on_cli: false,
            default_llm_model: None,
            scan_by_default: true,
        }
    }
}

/// A switch is on when its value is `1` or `true`.
pub open spec fn switch_on(value: Seq<char>) -> bool {
    value == "1"@ || value == "true"@
}

/// The key of a `key = value` line: the text before the first `=`, trimmed.
pub open spec fn setting_key(t: Seq<char>, i: int) -> Seq<char> {
    trim(t.take(i))
}

/// The value of a `key = value` line: the text after the first `=`, trimmed,
/// without trailing `;`.
pub open spec fn setting_value(t: Seq<char>, i: int) -> Seq<char> {
    strip_trailing(trim(t.skip(i + 1)), CharClass::Semicolon)
}

/// The settings after one line of the file is read. Blank lines, lines that
/// start with `#`, lines without `=` and unknown keys change nothing.
pub open spec fn apply_setting(cfg: ConfigView, line: Seq<char>) -> ConfigView {
    let t = trim(line);
    if t.len() == 0 || t[0] == '#' {
        cfg
    } else {
        match first_occurrence(t, seq!['=']) {
            None => cfg,
            Some(i) => {
                let key = setting_key(t, i);
                let value = setting_value(t, i);
                if key == "color"@ {
                    ConfigView { color: switch_on(value), ..cfg }
                } else if key == "llm_response_on_cli"@ {
                    ConfigView { llm_response_on_cli: switch_on(value), ..cfg }
                } else if key == "default_llm_model"@ {
                    ConfigView { default_llm_model: Some(value), ..cfg }
                } else if key == "scan_by_default"@ {
                    ConfigView { scan_by_default: switch_on(value), ..cfg }
                } else {
                    cfg
                }
            },
        }
    }
}

/// The settings after the given lines are read, in order.
pub open spec fn apply_settings(cfg: ConfigView, lines: Seq<Seq<char>>) -> ConfigView
    decreases lines.len(),
{
    if lines.len() == 0 {
        cfg
    } else {
        apply_setting(apply_settings(cfg, lines.drop_last()), lines.last())
    }
}

/// The settings that a file with this text gives.
pub open spec fn parsed_config(content: Seq<char>) -> ConfigView {
    apply_settings(default_config(), split_on(content, '\n'))
}

fn switch_value(value: &str) -> (r: bool)
    ensures
        r == switch_on(value@),
{
    same_text(value, "1") || same_text(value, "true")
}

impl Config {
    /// Reads one line of a settings file into `self`.
    pub fn apply_line(&mut self, line: &str)
        ensures
            final(self)@ == apply_setting(old(self)@, line@),
    {
        let t = trim_str(line);
        let tv = chars_of(t);
        if tv.len() == 0 || tv[0] == '#' {
            return ;
        }
        let eq: Vec<char> = vec!['='];
        assert(eq@ =~= seq!['=']);
        match find_chars(&tv, &eq) {
            None => {},
            Some(i) => {
                let key = trim_str(t.substring_char(0, i));
                let value = strip_end(trim_str(t.substring_char(i + 1, tv.len())), CharClass::Semicolon);
                assert(tv@.subrange(0, i as int) =~= tv@.take(i as int));
                assert(tv@.subrange(i + 1, tv@.len() as int) =~= tv@.skip(i + 1));
                if same_text(key, "color") {
                    self.color = switch_value(value);
                } else if same_text(key, "llm_response_on_cli") {
                    self.llm_response_on_cli = switch_value(value);
                } else if same_text(key, "default_llm_model") {
                    self.default_llm_model = Some(value.to_owned());
                } else if same_text(key, "scan_by_default") {
                    self.scan_by_default = switch_value(value);
                }
            },
        }
    }

    /// The settings that a file with this text gives (the reading part of `from_file`).
    pub fn parse(content: &str) -> (r: Config)
        ensures
            r@ == parsed_config(content@),
    {
        let lines = split_lines(content);
        let mut config = Config::default();
        let n = lines.len();
        let mut i: usize = 0;
        assert(views(lines@).take(0) =~= Seq::<Seq<char>>::empty());
        while i < n
            invariant
                n == lines.len(),
                i <= n,
                views(lines@) == split_on(content@, '\n'),
                config@ == apply_settings(default_config(), views(lines@).take(i as int)),
            decreases n - i,
        {
            assert(views(lines@).take(i + 1).drop_last() =~= views(lines@).take(i as int));
            config.apply_line(lines[i].as_str());
            i += 1;
        }
        assert(views(lines@).take(n as int) =~= views(lines@));
        config
    }
}


/// Splitting at newlines distributes over a text joined by a newline.
pub proof fn lemma_split_on_join(a: Seq<char>, b: Seq<char>)
    ensures
        split_on(a + seq!['\n'] + b, '\n') == split_on(a, '\n') + split_on(b, '\n'),
    decreases b.len(),
{
    let joined = a + seq!['\n'] + b;
    if b.len() == 0 {
        assert(joined.drop_last() =~= a);
        assert(split_on(b, '\n') =~= seq![Seq::<char>::empty()]);
        assert(split_on(joined, '\n') =~= split_on(a, '\n') + split_on(b, '\n'));
    } else {
        assert(joined.drop_last() =~= a + seq!['\n'] + b.drop_last());
        lemma_split_on_join(a, b.drop_last());
        lemma_split_on_nonempty(b.drop_last(), '\n');
        let sa = split_on(a, '\n');
        let sb = split_on(b.drop_last(), '\n');
        if b.last() == '\n' {
            assert(split_on(joined, '\n') =~= sa + sb.push(Seq::<char>::empty()));
        } else {
            assert(split_on(joined, '\n') =~= sa + sb.update(sb.len() - 1, sb.last().push(b.last())));
        }
    }
}

/// A text without newlines is a single line.
pub proof fn lemma_split_on_single(line: Seq<char>)
    requires
        !line.contains('\n'),
    ensures
        split_on(line, '\n') == seq![line],
    decreases line.len(),
{
    if line.len() == 0 {
        assert(line =~= Seq::<char>::empty());
    } else {
        assert(!line.drop_last().contains('\n')) by {
            if line.drop_last().contains('\n') {
                let i = choose|i: int| 0 <= i < line.drop_last().len() && line.drop_last()[i] == '\n';
                assert(line[i] == '\n');
            }
        }
        lemma_split_on_single(line.drop_last());
        assert(line[line.len() - 1] != '\n');
        assert(line.drop_last().push(line.last()) =~= line);
        assert(split_on(line, '\n') =~= seq![line]);
    }
}

/// Reading two runs of lines one after the other.
pub proof fn lemma_apply_settings_append(cfg: ConfigView, l1: Seq<Seq<char>>, l2: Seq<Seq<char>>)
    ensures
        apply_settings(cfg, l1 + l2) == apply_settings(apply_settings(cfg, l1), l2),
    decreases l2.len(),
{
    if l2.len() == 0 {
        assert(l1 + l2 =~= l1);
    } else {
        assert((l1 + l2).drop_last() =~= l1 + l2.drop_last());
        lemma_apply_settings_append(cfg, l1, l2.drop_last());
    }
}

/// Law: a settings file is read line by line, top to bottom: the text after a
/// newline is applied on top of the settings that the text before it gives.
pub proof fn law_settings_read_in_order(a: Seq<char>, b: Seq<char>)
    ensures
        parsed_config(a + seq!['\n'] + b) == apply_settings(parsed_config(a), split_on(b, '\n')),
{
    lemma_split_on_join(a, b);
    lemma_apply_settings_append(default_config(), split_on(a, '\n'), split_on(b, '\n'));
}

/// Law: a later line overrides what earlier lines set; a last line of the form
/// `key = value` decides that key.
pub proof fn law_last_line_wins(a: Seq<char>, line: Seq<char>)
    requires
        !line.contains('\n'),
    ensures
        parsed_config(a + seq!['\n'] + line) == apply_setting(parsed_config(a), line),
{
    law_settings_read_in_order(a, line);
    lemma_split_on_single(line);
    let one = seq![line];
    assert(one.drop_last() =~= Seq::<Seq<char>>::empty());
    assert(one.last() == line);
    assert(apply_settings(parsed_config(a), one.drop_last()) == parsed_config(a));
}

/// Blank lines and comment lines.
pub open spec fn is_inert_line(line: Seq<char>) -> bool {
    trim(line).len() == 0 || trim(line)[0] == '#'
}

/// Law: blank lines and comments change no setting; a file of only such lines
/// gives the defaults.
pub proof fn law_comments_change_nothing(cfg: ConfigView, lines: Seq<Seq<char>>)
    requires
        forall|i: int| 0 <= i < lines.len() ==> is_inert_line(#[trigger] lines[i]),
    ensures
        apply_settings(cfg, lines) == cfg,
    decreases lines.len(),
{
    if lines.len() > 0 {
        assert(is_inert_line(lines[lines.len() - 1]));
        law_comments_change_nothing(cfg, lines.drop_last());
    }
}


/// A setting name: not empty, without `=`, `#`, newlines or surrounding white space.
pub open spec fn plain_key(key: Seq<char>) -> bool {
    &&& key.len() > 0
    &&& !is_whitespace(key[0])
    &&& !is_whitespace(key.last())
    &&& key[0] != '#'
    &&& forall|i: int| 0 <= i < key.len() ==> #[trigger] key[i] != '=' && key[i] != '\n'
}

/// A setting value as written without decoration: no surrounding white
/// space, no trailing `;`, no newline.
pub open spec fn plain_value(v: Seq<char>) -> bool {
    &&& trim(v) == v
    &&& v.len() > 0 ==> v.last() != ';'
    &&& forall|i: int| 0 <= i < v.len() ==> #[trigger] v[i] != '\n'
}

/// How the line `key=value` is read.
proof fn lemma_plain_line(key: Seq<char>, v: Seq<char>)
    requires
        plain_key(key),
        plain_value(v),
    ensures
        ({
            let line = key + seq!['='] + v;
            &&& trim(line) == line
            &&& line.len() > 0 && line[0] != '#'
            &&& first_occurrence(line, seq!['=']) == Some(key.len() as int)
            &&& setting_key(line, key.len() as int) == key
            &&& setting_value(line, key.len() as int) == v
            &&& !line.contains('\n')
        }),
{
    let line = key + seq!['='] + v;
    let k = key.len() as int;
    if v.len() > 0 {
        lemma_trimmed_ends(v);
        assert(line.last() == v.last());
    } else {
        assert(line.last() == '=');
    }
    assert(line[0] == key[0]);
    lemma_trim_fixed(line);
    assert(line.subrange(k, k + 1) =~= seq!['=']);
    assert forall|j: int| 0 <= j < k implies !occurs_at(line, seq!['='], j) by {
        assert(line.subrange(j, j + 1)[0] == key[j]);
    }
    lemma_first_occurrence_is(line, seq!['='], k);
    assert(line.take(k) =~= key);
    lemma_trim_fixed(key);
    assert(line.skip(k + 1) =~= v);
    if v.len() > 0 {
        assert(strip_trailing(v, CharClass::Semicolon) == v);
    }
    assert forall|i: int| 0 <= i < line.len() implies line[i] != '\n' by {
        if i < k {
            assert(line[i] == key[i]);
        } else if i > k {
            assert(line[i] == v[i - k - 1]);
        }
    }
}

/// Law: every switch reads its value the same way. After any text, a last
/// line `color=v`, `llm_response_on_cli=v` or `scan_by_default=v` turns that
/// switch on exactly when `v` is `1` or `true`, and `default_llm_model=v`
/// names the model `v`.
pub proof fn law_switches_read_alike(a: Seq<char>, v: Seq<char>)
    requires
        plain_value(v),
    ensures
        parsed_config(a + seq!['\n'] + ("color"@ + seq!['='] + v)).color == (v == "1"@ || v
            == "true"@),
        parsed_config(a + seq!['\n'] + ("llm_response_on_cli"@ + seq!['='] + v)).llm_response_on_cli
            == (v == "1"@ || v == "true"@),
        parsed_config(a + seq!['\n'] + ("scan_by_default"@ + seq!['='] + v)).scan_by_default == (v
            == "1"@ || v == "true"@),
        parsed_config(a + seq!['\n'] + ("default_llm_model"@ + seq!['='] + v)).default_llm_model
            == Some(v),
{
    reveal_strlit("color");
    reveal_strlit("llm_response_on_cli");
    reveal_strlit("scan_by_default");
    reveal_strlit("default_llm_model");
    lemma_plain_line("color"@, v);
    lemma_plain_line("llm_response_on_cli"@, v);
    lemma_plain_line("scan_by_default"@, v);
    lemma_plain_line("default_llm_model"@, v);
    law_last_line_wins(a, "color"@ + seq!['='] + v);
    law_last_line_wins(a, "llm_response_on_cli"@ + seq!['='] + v);
    law_last_line_wins(a, "scan_by_default"@ + seq!['='] + v);
    law_last_line_wins(a, "default_llm_model"@ + seq!['='] + v);
}


/// Law: a `key=value` line with any other key changes no setting.
pub proof fn law_unknown_keys_ignored(cfg: ConfigView, key: Seq<char>, v: Seq<char>)
    requires
        plain_key(key),
        plain_value(v),
        key != "color"@,
        key != "llm_response_on_cli"@,
        key != "default_llm_model"@,
        key != "scan_by_default"@,
    ensures
        apply_setting(cfg, key + seq!['='] + v) == cfg,
{
    lemma_plain_line(key, v);
}

} // verus!
