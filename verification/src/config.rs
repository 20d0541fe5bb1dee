//! Project configuration: the documented defaults and the reader of
//! `.yx/project.toml`, which only knows execution-policy keys.
use std::path::PathBuf;
use vstd::prelude::*;
use crate::text::{
    is_ws, lemma_find_char, lemma_trim_end_suffix, lemma_trim_start_prefix, trim_end_while,
    trim_start_while, ws, bracket, chars_of, find_char, find_in, is_bracket, lemma_find_char_bounds, range_eq, string_from, string_is,
    string_of, strip_bounds, trim, trim_brackets, trim_bounds,
};

verus! {

/// A filesystem path, carried through the library unread.
#[verifier::external_type_specification]
#[verifier::external_body]
pub struct ExPathBuf(PathBuf);

/// `<PathBuf as Clone>::clone`: the copy is the same path.
pub assume_specification[ <PathBuf as Clone>::clone ](p: &PathBuf) -> (r: PathBuf)
    ensures
        r == *p,
;

/// Execution policy of a Yocto project.
#[derive(Debug, Clone)]
pub struct ProjectConfig {
    pub root: PathBuf,
    pub profile: String,
    pub backend: String,
    pub yxenv_ref: String,
    pub image: Option<String>,
    pub kas_default: String,
    pub downloads: String,
    pub sstate: String,
    pub build_dir: String,
    pub default_target: String,
}

/// A `ProjectConfig` with its strings taken as character sequences.
#[verifier::ext_equal]
pub struct ConfigView {
    pub root: PathBuf,
    pub profile: Seq<char>,
    pub backend: Seq<char>,
    pub yxenv_ref: Seq<char>,
    pub image: Option<Seq<char>>,
    pub kas_default: Seq<char>,
    pub downloads: Seq<char>,
    pub sstate: Seq<char>,
    pub build_dir: Seq<char>,
    pub default_target: Seq<char>,
}

/// The view of an optional string.
pub open spec fn opt_view(o: Option<String>) -> Option<Seq<char>> {
    match o {
        Some(s) => Some(s@),
        None => None,
    }
}

impl View for ProjectConfig {
    type V = ConfigView;

    open spec fn view(&self) -> ConfigView {
        ConfigView {
            root: self.root,
            profile: self.profile@,
            backend: self.backend@,
            yxenv_ref: self.yxenv_ref@,
            image: opt_view(self.image),
            kas_default: self.kas_default@,
            downloads: self.downloads@,
            sstate: self.sstate@,
            build_dir: self.build_dir@,
            default_target: self.default_target@,
        }
    }
}

/// The documented defaults, under project root `root`.
pub open spec fn default_config(root: PathBuf) -> ConfigView {
    ConfigView {
        root: root,
        profile: "yocto-scarthgap-kas52"@,
        backend: "nix-develop"@,
        yxenv_ref: "github:why-ex/yx-env"@,
        image: None,
        kas_default: "kas/project.yml"@,
        downloads: ".yx/downloads"@,
        sstate: ".yx/sstate"@,
        build_dir: "build"@,
        default_target: "core-image-minimal"@,
    }
}

impl ConfigView {
    /// The setting `key = value` under `[section]`: the keys that the policy
    /// knows set their field, every other pair leaves the configuration as it is.
    pub open spec fn set(self, section: Seq<char>, key: Seq<char>, value: Seq<char>) -> ConfigView {
        if section == "env"@ && key == "profile"@ {
            ConfigView { profile: value, ..self }
        } else if section == "env"@ && key == "backend"@ {
            ConfigView { backend: value, ..self }
        } else if section == "env"@ && (key == "yxenv"@ || key == "yxenv_ref"@) {
            ConfigView { yxenv_ref: value, ..self }
        } else if section == "env"@ && key == "image"@ {
            ConfigView { image: Some(value), ..self }
        } else if section == "kas"@ && key == "default"@ {
            ConfigView { kas_default: value, ..self }
        } else if section == "paths"@ && key == "downloads"@ {
            ConfigView { downloads: value, ..self }
        } else if section == "paths"@ && key == "sstate"@ {
            ConfigView { sstate: value, ..self }
        } else if section == "paths"@ && (key == "build"@ || key == "build_dir"@) {
            ConfigView { build_dir: value, ..self }
        } else if section == "build"@ && (key == "target"@ || key == "default_target"@) {
            ConfigView { default_target: value, ..self }
        } else {
            self
        }
    }
}

/// `s` cut into lines at each `'\n'`.
pub open spec fn split_lines(s: Seq<char>) -> Seq<Seq<char>>
    decreases s.len(),
{
    let i = find_char(s, '\n');
    if i < 0 {
        seq![s]
    } else {
        proof {
            lemma_find_char_bounds(s, '\n');
        }
        seq![s.take(i)] + split_lines(s.skip(i + 1))
    }
}

/// The part of `s` before its first `c`, or all of `s`.
pub open spec fn before_char(s: Seq<char>, c: char) -> Seq<char> {
    let i = find_char(s, c);
    if i < 0 {
        s
    } else {
        s.take(i)
    }
}

/// A value with surrounding whitespace removed and, where it is wrapped in
/// double quotes, one quote taken off each end.
pub open spec fn unquoted(s: Seq<char>) -> Seq<char> {
    let t = trim(s);
    if t.len() >= 2 && t[0] == '"' && t.last() == '"' {
        t.subrange(1, t.len() - 1)
    } else {
        t
    }
}

/// A raw line without its comment, which runs from `#` to the end of the
/// line, and without surrounding whitespace.
pub open spec fn clean_line(raw: Seq<char>) -> Seq<char> {
    trim(before_char(raw, '#'))
}

/// A cleaned line of the form `[name]`.
pub open spec fn is_header(line: Seq<char>) -> bool {
    line.len() > 0 && line[0] == '[' && line.last() == ']'
}

/// The section after raw line `raw` read in `section`: a header opens the
/// section it names; any other line keeps the section.
pub open spec fn line_section(section: Seq<char>, raw: Seq<char>) -> Seq<char> {
    let line = clean_line(raw);
    if is_header(line) {
        trim(trim_brackets(line))
    } else {
        section
    }
}

/// The setting `(key, value)` that raw line `raw` makes, if it is a
/// `key = value` line; blank lines, headers and lines without `=` make none.
pub open spec fn line_setting(raw: Seq<char>) -> Option<(Seq<char>, Seq<char>)> {
    let line = clean_line(raw);
    if line.len() == 0 || is_header(line) {
        None
    } else {
        let i = find_char(line, '=');
        if i < 0 {
            None
        } else {
            Some((trim(line.take(i)), unquoted(line.skip(i + 1))))
        }
    }
}

/// One raw line read in `section`: the configuration and section after it.
/// A comment runs from `#` to the end of the line; a blank line does
/// nothing; `[name]` opens a section; `key = value` is a setting; any other
/// line is skipped.
pub open spec fn apply_line(cfg: ConfigView, section: Seq<char>, raw: Seq<char>) -> (ConfigView, Seq<char>) {
    let c = match line_setting(raw) {
        Some(kv) => cfg.set(section, kv.0, kv.1),
        None => cfg,
    };
    (c, line_section(section, raw))
}

/// The configuration after the lines `lines`, read in order from `section`.
pub open spec fn apply_lines(cfg: ConfigView, section: Seq<char>, lines: Seq<Seq<char>>) -> ConfigView
    decreases lines.len(),
{
    if lines.len() == 0 {
        cfg
    } else {
        let next = apply_line(cfg, section, lines[0]);
        apply_lines(next.0, next.1, lines.drop_first())
    }
}

/// The configuration after reading project file text `text`, which starts
/// outside any section.
pub open spec fn apply_text(cfg: ConfigView, text: Seq<char>) -> ConfigView {
    apply_lines(cfg, seq![], split_lines(text))
}

/// The section and key pairs that the configuration knows.
pub open spec fn is_policy_key(section: Seq<char>, key: Seq<char>) -> bool {
    ||| section == "env"@ && (key == "profile"@ || key == "backend"@ || key == "yxenv"@ || key
        == "yxenv_ref"@ || key == "image"@)
    ||| section == "kas"@ && key == "default"@
    ||| section == "paths"@ && (key == "downloads"@ || key == "sstate"@ || key == "build"@ || key
        == "build_dir"@)
    ||| section == "build"@ && (key == "target"@ || key == "default_target"@)
}

/// Reading no text leaves the configuration as it is: a project without a
/// project file has the defaults.
pub proof fn lemma_empty_text_keeps_config(cfg: ConfigView)
    ensures
        apply_text(cfg, seq![]) == cfg,
{
    let e = Seq::<char>::empty();
    assert(find_char(e, '\n') == -1);
    assert(split_lines(e) == seq![e]);
    assert(find_char(e, '#') == -1);
    assert(trim(e) =~= e);
    assert(apply_line(cfg, seq![], e) == (cfg, e));
    assert(seq![e].drop_first() =~= Seq::<Seq<char>>::empty());
    assert(apply_lines(cfg, e, Seq::<Seq<char>>::empty()) == cfg);
    assert(apply_lines(cfg, seq![], seq![e]) == apply_lines(cfg, e, seq![e].drop_first()));
}

/// A line that holds nothing but whitespace and a comment changes neither
/// the configuration nor the section.
pub proof fn lemma_comment_line_changes_nothing(cfg: ConfigView, section: Seq<char>, raw: Seq<char>)
    requires
        trim(before_char(raw, '#')).len() == 0,
    ensures
        apply_line(cfg, section, raw) == (cfg, section),
{
}

/// A setting of a pair that the configuration does not know leaves the
/// configuration as it is.
pub proof fn lemma_unknown_key_ignored(cfg: ConfigView, section: Seq<char>, key: Seq<char>, value: Seq<char>)
    requires
        !is_policy_key(section, key),
    ensures
        cfg.set(section, key, value) == cfg,
{
}

/// A character that can stand at either end of a bare name in the file.
pub open spec fn is_edge_char(c: char) -> bool {
    !is_ws(c) && !is_bracket(c) && c != '\n' && c != '#' && c != '='
}

/// A name, section or key, as written in the file: not empty, with no
/// newline, `#` or `=`, and neither whitespace nor a bracket at its ends.
pub open spec fn is_bare_name(s: Seq<char>) -> bool {
    &&& s.len() > 0
    &&& is_edge_char(s[0])
    &&& is_edge_char(s.last())
    &&& forall|i: int| 0 <= i < s.len() ==> #[trigger] s[i] != '\n' && s[i] != '#' && s[i] != '='
}

/// A value as written in the file: no newline or `#`, and no whitespace at
/// its ends.
pub open spec fn is_bare_value(v: Seq<char>) -> bool {
    &&& forall|i: int| 0 <= i < v.len() ==> #[trigger] v[i] != '\n' && v[i] != '#'
    &&& v.len() > 0 ==> !is_ws(v[0]) && !is_ws(v.last())
}

/// The project file text `[section]` newline `key = value`.
pub open spec fn setting_text(section: Seq<char>, key: Seq<char>, value: Seq<char>) -> Seq<char> {
    header_line(section) + seq!['\n'] + setting_line(key, value)
}

proof fn lemma_trim_bare(s: Seq<char>)
    requires
        s.len() > 0,
        !is_ws(s[0]),
        !is_ws(s.last()),
    ensures
        trim(s) == s,
{
}

proof fn lemma_no_char(s: Seq<char>, c: char)
    requires
        forall|i: int| 0 <= i < s.len() ==> s[i] != c,
    ensures
        find_char(s, c) == -1,
{
    lemma_find_char(s, c, s.len() as int);
}

/// The setting line `key = value`.
pub open spec fn setting_line(key: Seq<char>, value: Seq<char>) -> Seq<char> {
    key + seq![' ', '=', ' '] + value
}

/// The section header `[section]`.
pub open spec fn header_line(section: Seq<char>) -> Seq<char> {
    seq!['['] + section + seq![']']
}

proof fn lemma_setting_text_lines(section: Seq<char>, key: Seq<char>, value: Seq<char>)
    requires
        is_bare_name(section),
        is_bare_name(key),
        is_bare_value(value),
    ensures
        split_lines(setting_text(section, key, value)) == seq![
            header_line(section),
            setting_line(key, value),
        ],
        forall|i: int|
            0 <= i < setting_line(key, value).len() ==> #[trigger] setting_line(key, value)[i]
                != '#',
        forall|i: int| 0 <= i < header_line(section).len() ==> #[trigger] header_line(section)[i]
            != '#',
{
    let header = header_line(section);
    let line = setting_line(key, value);
    let text = setting_text(section, key, value);
    assert(text =~= header + seq!['\n'] + line);
    assert forall|i: int| 0 <= i < header.len() implies header[i] != '\n' && header[i] != '#' by {
        if 0 < i < header.len() - 1 {
            assert(header[i] == section[i - 1]);
        }
    }
    lemma_find_char(text, '\n', header.len() as int);
    assert(text.take(header.len() as int) =~= header);
    assert(text.skip(header.len() as int + 1) =~= line);
    assert forall|i: int| 0 <= i < line.len() implies line[i] != '\n' && line[i] != '#' by {
        if i < key.len() {
            assert(line[i] == key[i]);
        } else if i >= key.len() + 3 {
            assert(line[i] == value[i - key.len() - 3]);
        }
    }
    lemma_no_char(line, '\n');
    assert(split_lines(line) == seq![line]);
    assert(split_lines(text) =~= seq![header, line]);
}

proof fn lemma_header_opens_section(cfg: ConfigView, old_section: Seq<char>, section: Seq<char>)
    requires
        is_bare_name(section),
        forall|i: int| 0 <= i < header_line(section).len() ==> #[trigger] header_line(section)[i]
            != '#',
    ensures
        apply_line(cfg, old_section, header_line(section)) == (cfg, section),
{
    let header = header_line(section);
    lemma_no_char(header, '#');
    lemma_trim_bare(header);
    let bp = bracket();
    lemma_trim_start_prefix(seq!['['], section + seq![']'], bp);
    assert(header =~= seq!['['] + (section + seq![']']));
    assert(trim_start_while(section + seq![']'], bp) == section + seq![']']) by {
        assert((section + seq![']'])[0] == section[0]);
    }
    lemma_trim_end_suffix(section, seq![']'], bp);
    assert(trim_end_while(section, bp) == section);
    assert(trim_brackets(header) == section);
    lemma_trim_bare(section);
}

proof fn lemma_setting_line_sets(cfg: ConfigView, section: Seq<char>, key: Seq<char>, value: Seq<char>)
    requires
        is_bare_name(key),
        is_bare_value(value),
        forall|i: int|
            0 <= i < setting_line(key, value).len() ==> #[trigger] setting_line(key, value)[i]
                != '#',
    ensures
        apply_line(cfg, section, setting_line(key, value)) == (
            cfg.set(section, key, unquoted(value)),
            section,
        ),
{
    let line = setting_line(key, value);
    lemma_no_char(line, '#');
    assert(before_char(line, '#') == line);
    let ws_p = ws();
    let tl = trim(line);
    if value.len() > 0 {
        assert(line[0] == key[0]);
        assert(line.last() == value.last());
        lemma_trim_bare(line);
    } else {
        assert(line =~= (key + seq![' ', '=']) + seq![' ']);
        lemma_trim_end_suffix(key + seq![' ', '='], seq![' '], ws_p);
        assert((key + seq![' ', '='])[0] == key[0]);
        assert(trim_start_while(line, ws_p) == line);
        assert(trim_end_while(key + seq![' ', '='], ws_p) == key + seq![' ', '=']);
    }
    assert(tl.len() >= key.len() + 2);
    assert(tl =~= line.take(tl.len() as int));
    assert(tl[0] == key[0]);
    assert forall|i: int| 0 <= i < key.len() implies tl[i] != '=' by {
        assert(tl[i] == key[i]);
    }
    assert(tl[key.len() as int + 1] == '=');
    lemma_find_char(tl, '=', key.len() as int + 1);
    assert(tl.take(key.len() as int + 1) =~= key + seq![' ']);
    lemma_trim_end_suffix(key, seq![' '], ws_p);
    assert((key + seq![' '])[0] == key[0]);
    assert(trim(key + seq![' ']) == key);
    let rest = tl.skip(key.len() as int + 2);
    if value.len() > 0 {
        assert(rest =~= seq![' '] + value);
        lemma_trim_start_prefix(seq![' '], value, ws_p);
        lemma_trim_bare(value);
        assert(trim(rest) == trim(value));
    } else {
        assert(rest =~= value);
    }
    assert(unquoted(rest) == unquoted(value));
}

/// A comment after a setting, from `#` to the end of the line, changes
/// nothing: the line reads as the setting alone.
pub proof fn lemma_trailing_comment_ignored(
    cfg: ConfigView,
    section: Seq<char>,
    key: Seq<char>,
    value: Seq<char>,
    comment: Seq<char>,
)
    requires
        is_bare_name(key),
        is_bare_value(value),
    ensures
        apply_line(cfg, section, setting_line(key, value) + seq![' ', '#'] + comment)
            == apply_line(cfg, section, setting_line(key, value)),
        apply_line(cfg, section, setting_line(key, value)) == (
            cfg.set(section, key, unquoted(value)),
            section,
        ),
{
    let line = setting_line(key, value);
    let raw = line + seq![' ', '#'] + comment;
    assert forall|i: int| 0 <= i < line.len() implies line[i] != '#' by {
        if i < key.len() {
            assert(line[i] == key[i]);
        } else if i >= key.len() + 3 {
            assert(line[i] == value[i - key.len() - 3]);
        }
    }
    assert forall|i: int| 0 <= i < line.len() + 1 implies raw[i] != '#' by {
        if i < line.len() {
            assert(raw[i] == line[i]);
        }
    }
    lemma_find_char(raw, '#', line.len() as int + 1);
    assert(raw.take(line.len() as int + 1) =~= line + seq![' ']);
    lemma_no_char(line, '#');
    let ws_p = ws();
    lemma_trim_end_suffix(line, seq![' '], ws_p);
    assert((line + seq![' '])[0] == line[0]);
    assert(line[0] == key[0]);
    assert(trim_start_while(line + seq![' '], ws_p) == line + seq![' ']);
    assert(trim_start_while(line, ws_p) == line);
    assert(clean_line(raw) == clean_line(line));
    lemma_setting_line_sets(cfg, section, key, value);
}

/// A file that sets `key = value` under `[section]` gives the configuration
/// with that setting applied: a known key overrides its default, any other
/// leaves the configuration as it is.
pub proof fn lemma_setting_overrides(cfg: ConfigView, section: Seq<char>, key: Seq<char>, value: Seq<char>)
    requires
        is_bare_name(section),
        is_bare_name(key),
        is_bare_value(value),
    ensures
        apply_text(cfg, setting_text(section, key, value)) == cfg.set(section, key, unquoted(value)),
{
    let header = header_line(section);
    let line = setting_line(key, value);
    lemma_setting_text_lines(section, key, value);
    lemma_header_opens_section(cfg, seq![], section);
    lemma_setting_line_sets(cfg, section, key, value);
    let lines = seq![header, line];
    assert(lines.drop_first() =~= seq![line]);
    assert(seq![line].drop_first() =~= Seq::<Seq<char>>::empty());
    let c2 = cfg.set(section, key, unquoted(value));
    assert(apply_lines(c2, section, Seq::<Seq<char>>::empty()) == c2);
    assert(apply_lines(cfg, section, seq![line]) == c2);
    assert(apply_lines(cfg, seq![], lines) == c2);
}

/// A nonempty name of lowercase ASCII letters and underscores is a bare
/// name.
proof fn lemma_lowercase_bare_name(s: Seq<char>)
    requires
        s.len() > 0,
        forall|i: int| 0 <= i < s.len() ==> ('a' <= #[trigger] s[i] <= 'z' || s[i] == '_'),
    ensures
        is_bare_name(s),
{
}

/// A value wrapped in double quotes loses exactly those two quotes, and
/// surrounding whitespace goes; a value without surrounding whitespace that
/// does not start with a quote is kept as it is.
pub proof fn lemma_unquoted(t: Seq<char>, pad_left: Seq<char>, pad_right: Seq<char>)
    requires
        forall|i: int| 0 <= i < pad_left.len() ==> is_ws(#[trigger] pad_left[i]),
        forall|i: int| 0 <= i < pad_right.len() ==> is_ws(#[trigger] pad_right[i]),
    ensures
        unquoted(pad_left + (seq!['"'] + t + seq!['"']) + pad_right) == t,
        t.len() == 0 || (!is_ws(t[0]) && !is_ws(t.last()) && t[0] != '"') ==> unquoted(t) == t,
{
    let q = seq!['"'] + t + seq!['"'];
    let ws_p = ws();
    assert forall|i: int| 0 <= i < pad_left.len() implies ws_p(#[trigger] pad_left[i]) by {}
    assert forall|i: int| 0 <= i < pad_right.len() implies ws_p(#[trigger] pad_right[i]) by {}
    lemma_trim_start_prefix(pad_left, q + pad_right, ws_p);
    assert(pad_left + q + pad_right =~= pad_left + (q + pad_right));
    assert((q + pad_right)[0] == '"');
    assert(trim_start_while(q + pad_right, ws_p) == q + pad_right);
    lemma_trim_end_suffix(q, pad_right, ws_p);
    assert(q.last() == '"');
    assert(trim_end_while(q, ws_p) == q);
    assert(trim(pad_left + q + pad_right) == q);
    assert(q.subrange(1, q.len() - 1) =~= t);
    if t.len() > 0 && !is_ws(t[0]) && !is_ws(t.last()) && t[0] != '"' {
        lemma_trim_bare(t);
    }
    if t.len() == 0 {
        assert(trim(t) =~= t);
    }
}

/// Each key that the policy knows, set under its section, replaces its own
/// field with the unquoted value and leaves every other field as it was:
/// `[env]` `profile`, `backend`, `yxenv` or `yxenv_ref`, `image`; `[kas]`
/// `default`; `[paths]` `downloads`, `sstate`, `build` or `build_dir`;
/// `[build]` `target` or `default_target`.
pub proof fn lemma_known_keys_override(cfg: ConfigView, v: Seq<char>)
    requires
        is_bare_value(v),
    ensures
        apply_text(cfg, setting_text("env"@, "profile"@, v)) == (ConfigView { profile: unquoted(v), ..cfg }),
        apply_text(cfg, setting_text("env"@, "backend"@, v)) == (ConfigView { backend: unquoted(v), ..cfg }),
        apply_text(cfg, setting_text("env"@, "yxenv"@, v)) == (ConfigView { yxenv_ref: unquoted(v), ..cfg }),
        apply_text(cfg, setting_text("env"@, "yxenv_ref"@, v)) == (ConfigView { yxenv_ref: unquoted(v), ..cfg }),
        apply_text(cfg, setting_text("env"@, "image"@, v)) == (ConfigView { image: Some(unquoted(v)), ..cfg }),
        apply_text(cfg, setting_text("kas"@, "default"@, v)) == (ConfigView { kas_default: unquoted(v), ..cfg }),
        apply_text(cfg, setting_text("paths"@, "downloads"@, v)) == (ConfigView { downloads: unquoted(v), ..cfg }),
        apply_text(cfg, setting_text("paths"@, "sstate"@, v)) == (ConfigView { sstate: unquoted(v), ..cfg }),
        apply_text(cfg, setting_text("paths"@, "build"@, v)) == (ConfigView { build_dir: unquoted(v), ..cfg }),
        apply_text(cfg, setting_text("paths"@, "build_dir"@, v)) == (ConfigView { build_dir: unquoted(v), ..cfg }),
        apply_text(cfg, setting_text("build"@, "target"@, v)) == (ConfigView { default_target: unquoted(v), ..cfg }),
        apply_text(cfg, setting_text("build"@, "default_target"@, v)) == (ConfigView { default_target: unquoted(v), ..cfg }),
{
    reveal_strlit("env");
    reveal_strlit("kas");
    reveal_strlit("paths");
    reveal_strlit("build");
    reveal_strlit("profile");
    reveal_strlit("backend");
    reveal_strlit("yxenv");
    reveal_strlit("yxenv_ref");
    reveal_strlit("image");
    reveal_strlit("default");
    reveal_strlit("downloads");
    reveal_strlit("sstate");
    reveal_strlit("build_dir");
    reveal_strlit("target");
    reveal_strlit("default_target");
    assert("env"@.len() == 3 && "env"@[0] == 'e');
    assert("kas"@.len() == 3 && "kas"@[0] == 'k');
    assert("paths"@.len() == 5 && "paths"@[0] == 'p');
    assert("build"@.len() == 5 && "build"@[0] == 'b');
    assert("profile"@.len() == 7 && "profile"@[0] == 'p');
    assert("backend"@.len() == 7 && "backend"@[0] == 'b');
    assert("yxenv"@.len() == 5 && "yxenv"@[0] == 'y');
    assert("yxenv_ref"@.len() == 9 && "yxenv_ref"@[0] == 'y');
    assert("image"@.len() == 5 && "image"@[0] == 'i');
    assert("default"@.len() == 7 && "default"@[0] == 'd');
    assert("downloads"@.len() == 9 && "downloads"@[0] == 'd');
    assert("sstate"@.len() == 6 && "sstate"@[0] == 's');
    assert("build_dir"@.len() == 9 && "build_dir"@[0] == 'b');
    assert("target"@.len() == 6 && "target"@[0] == 't');
    assert("default_target"@.len() == 14 && "default_target"@[0] == 'd');
    lemma_lowercase_bare_name("env"@);
    lemma_lowercase_bare_name("kas"@);
    lemma_lowercase_bare_name("paths"@);
    lemma_lowercase_bare_name("build"@);
    lemma_lowercase_bare_name("profile"@);
    lemma_lowercase_bare_name("backend"@);
    lemma_lowercase_bare_name("yxenv"@);
    lemma_lowercase_bare_name("yxenv_ref"@);
    lemma_lowercase_bare_name("image"@);
    lemma_lowercase_bare_name("default"@);
    lemma_lowercase_bare_name("downloads"@);
    lemma_lowercase_bare_name("sstate"@);
    lemma_lowercase_bare_name("build_dir"@);
    lemma_lowercase_bare_name("target"@);
    lemma_lowercase_bare_name("default_target"@);
    lemma_setting_overrides(cfg, "env"@, "profile"@, v);
    lemma_setting_overrides(cfg, "env"@, "backend"@, v);
    lemma_setting_overrides(cfg, "env"@, "yxenv"@, v);
    lemma_setting_overrides(cfg, "env"@, "yxenv_ref"@, v);
    lemma_setting_overrides(cfg, "env"@, "image"@, v);
    lemma_setting_overrides(cfg, "kas"@, "default"@, v);
    lemma_setting_overrides(cfg, "paths"@, "downloads"@, v);
    lemma_setting_overrides(cfg, "paths"@, "sstate"@, v);
    lemma_setting_overrides(cfg, "paths"@, "build"@, v);
    lemma_setting_overrides(cfg, "paths"@, "build_dir"@, v);
    lemma_setting_overrides(cfg, "build"@, "target"@, v);
    lemma_setting_overrides(cfg, "build"@, "default_target"@, v);
}

/// The fields that lines of a project file set, each with the last value
/// set; `None` where no line sets it.
#[verifier::ext_equal]
pub struct ConfigPatch {
    pub profile: Option<Seq<char>>,
    pub backend: Option<Seq<char>>,
    pub yxenv_ref: Option<Seq<char>>,
    pub image: Option<Seq<char>>,
    pub kas_default: Option<Seq<char>>,
    pub downloads: Option<Seq<char>>,
    pub sstate: Option<Seq<char>>,
    pub build_dir: Option<Seq<char>>,
    pub default_target: Option<Seq<char>>,
}

/// A patch that sets nothing.
pub open spec fn empty_patch() -> ConfigPatch {
    ConfigPatch {
        profile: None,
        backend: None,
        yxenv_ref: None,
        image: None,
        kas_default: None,
        downloads: None,
        sstate: None,
        build_dir: None,
        default_target: None,
    }
}

/// The set value, or `old` where none is set.
pub open spec fn or_keep(set: Option<Seq<char>>, old: Seq<char>) -> Seq<char> {
    match set {
        Some(v) => v,
        None => old,
    }
}

impl ConfigPatch {
    /// The patch with the setting `key = value` under `[section]` added, by
    /// the same table as `ConfigView::set`.
    pub open spec fn set(self, section: Seq<char>, key: Seq<char>, value: Seq<char>) -> ConfigPatch {
        if section == "env"@ && key == "profile"@ {
            ConfigPatch { profile: Some(value), ..self }
        } else if section == "env"@ && key == "backend"@ {
            ConfigPatch { backend: Some(value), ..self }
        } else if section == "env"@ && (key == "yxenv"@ || key == "yxenv_ref"@) {
            ConfigPatch { yxenv_ref: Some(value), ..self }
        } else if section == "env"@ && key == "image"@ {
            ConfigPatch { image: Some(value), ..self }
        } else if section == "kas"@ && key == "default"@ {
            ConfigPatch { kas_default: Some(value), ..self }
        } else if section == "paths"@ && key == "downloads"@ {
            ConfigPatch { downloads: Some(value), ..self }
        } else if section == "paths"@ && key == "sstate"@ {
            ConfigPatch { sstate: Some(value), ..self }
        } else if section == "paths"@ && (key == "build"@ || key == "build_dir"@) {
            ConfigPatch { build_dir: Some(value), ..self }
        } else if section == "build"@ && (key == "target"@ || key == "default_target"@) {
            ConfigPatch { default_target: Some(value), ..self }
        } else {
            self
        }
    }
}

/// `cfg` with the fields that `p` sets replaced.
pub open spec fn patched(cfg: ConfigView, p: ConfigPatch) -> ConfigView {
    ConfigView {
        root: cfg.root,
        profile: or_keep(p.profile, cfg.profile),
        backend: or_keep(p.backend, cfg.backend),
        yxenv_ref: or_keep(p.yxenv_ref, cfg.yxenv_ref),
        image: match p.image {
            Some(v) => Some(v),
            None => cfg.image,
        },
        kas_default: or_keep(p.kas_default, cfg.kas_default),
        downloads: or_keep(p.downloads, cfg.downloads),
        sstate: or_keep(p.sstate, cfg.sstate),
        build_dir: or_keep(p.build_dir, cfg.build_dir),
        default_target: or_keep(p.default_target, cfg.default_target),
    }
}

/// The patch after the lines `lines`, read in order from `section`.
pub open spec fn patch_lines(p: ConfigPatch, section: Seq<char>, lines: Seq<Seq<char>>) -> ConfigPatch
    decreases lines.len(),
{
    if lines.len() == 0 {
        p
    } else {
        let q = match line_setting(lines[0]) {
            Some(kv) => p.set(section, kv.0, kv.1),
            None => p,
        };
        patch_lines(q, line_section(section, lines[0]), lines.drop_first())
    }
}

/// What project file text `text` sets.
pub open spec fn text_patch(text: Seq<char>) -> ConfigPatch {
    patch_lines(empty_patch(), seq![], split_lines(text))
}

proof fn lemma_patched_set(cfg: ConfigView, p: ConfigPatch, section: Seq<char>, key: Seq<char>, value: Seq<char>)
    ensures
        patched(cfg, p).set(section, key, value) == patched(cfg, p.set(section, key, value)),
{
}

proof fn lemma_apply_lines_patched(cfg: ConfigView, p: ConfigPatch, section: Seq<char>, lines: Seq<Seq<char>>)
    ensures
        apply_lines(patched(cfg, p), section, lines) == patched(cfg, patch_lines(p, section, lines)),
    decreases lines.len(),
{
    if lines.len() > 0 {
        let q = match line_setting(lines[0]) {
            Some(kv) => p.set(section, kv.0, kv.1),
            None => p,
        };
        if let Some(kv) = line_setting(lines[0]) {
            lemma_patched_set(cfg, p, section, kv.0, kv.1);
        }
        lemma_apply_lines_patched(cfg, q, line_section(section, lines[0]), lines.drop_first());
    }
}

/// Reading text changes exactly the fields that the text sets, to the
/// last value it sets for each, whatever the configuration was.
pub proof fn lemma_apply_text_patches(cfg: ConfigView, text: Seq<char>)
    ensures
        apply_text(cfg, text) == patched(cfg, text_patch(text)),
{
    assert(patched(cfg, empty_patch()) == cfg);
    lemma_apply_lines_patched(cfg, empty_patch(), seq![], split_lines(text));
}

/// Reading the same project file text twice gives what reading it once
/// gives.
pub proof fn lemma_apply_text_idempotent(cfg: ConfigView, text: Seq<char>)
    ensures
        apply_text(apply_text(cfg, text), text) == apply_text(cfg, text),
{
    lemma_apply_text_patches(cfg, text);
    lemma_apply_text_patches(apply_text(cfg, text), text);
    let p = text_patch(text);
    assert(patched(patched(cfg, p), p) == patched(cfg, p));
}

/// The section after the lines `lines`, read in order from `section`.
pub open spec fn section_after(section: Seq<char>, lines: Seq<Seq<char>>) -> Seq<char>
    decreases lines.len(),
{
    if lines.len() == 0 {
        section
    } else {
        section_after(line_section(section, lines[0]), lines.drop_first())
    }
}

/// Reading two runs of lines in turn is reading them one after the other.
pub proof fn lemma_apply_lines_concat(
    cfg: ConfigView,
    section: Seq<char>,
    a: Seq<Seq<char>>,
    b: Seq<Seq<char>>,
)
    ensures
        apply_lines(cfg, section, a + b) == apply_lines(
            apply_lines(cfg, section, a),
            section_after(section, a),
            b,
        ),
    decreases a.len(),
{
    if a.len() == 0 {
        assert(a + b =~= b);
    } else {
        assert((a + b)[0] == a[0]);
        assert((a + b).drop_first() =~= a.drop_first() + b);
        let next = apply_line(cfg, section, a[0]);
        lemma_apply_lines_concat(next.0, next.1, a.drop_first(), b);
    }
}

/// Lines that open a section before any setting: every `key = value`
/// line comes after a header.
pub open spec fn opens_section_first(lines: Seq<Seq<char>>) -> bool
    decreases lines.len(),
{
    if lines.len() == 0 {
        true
    } else if is_header(clean_line(lines[0])) {
        true
    } else if line_setting(lines[0]) is Some {
        false
    } else {
        opens_section_first(lines.drop_first())
    }
}

/// Lines that open a section before any setting read the same from any
/// section.
pub proof fn lemma_section_irrelevant(cfg: ConfigView, s1: Seq<char>, s2: Seq<char>, lines: Seq<Seq<char>>)
    requires
        opens_section_first(lines),
    ensures
        apply_lines(cfg, s1, lines) == apply_lines(cfg, s2, lines),
    decreases lines.len(),
{
    if lines.len() > 0 && !is_header(clean_line(lines[0])) {
        lemma_section_irrelevant(cfg, s1, s2, lines.drop_first());
    }
}

/// Text, a newline and more text are the lines of the first followed by
/// the lines of the second.
pub proof fn lemma_split_lines_concat(a: Seq<char>, b: Seq<char>)
    ensures
        split_lines(a + seq!['\n'] + b) == split_lines(a) + split_lines(b),
    decreases a.len(),
{
    let t = a + seq!['\n'] + b;
    lemma_find_char_bounds(a, '\n');
    let i = find_char(a, '\n');
    if i < 0 {
        lemma_find_char(t, '\n', a.len() as int);
        assert(t.take(a.len() as int) =~= a);
        assert(t.skip(a.len() as int + 1) =~= b);
        assert(seq![a] + split_lines(b) =~= split_lines(a) + split_lines(b));
    } else {
        assert forall|j: int| 0 <= j < i implies t[j] != '\n' by {
            assert(t[j] == a[j]);
        }
        lemma_find_char(t, '\n', i);
        assert(t.take(i) =~= a.take(i));
        assert(t.skip(i + 1) =~= a.skip(i + 1) + seq!['\n'] + b);
        lemma_split_lines_concat(a.skip(i + 1), b);
        assert(split_lines(a) == seq![a.take(i)] + split_lines(a.skip(i + 1)));
        assert(seq![a.take(i)] + (split_lines(a.skip(i + 1)) + split_lines(b)) =~= split_lines(a)
            + split_lines(b));
    }
}

/// Reading text `a` and then text `b` gives what reading `a`, a newline
/// and `b` gives, when `b` opens a section before any setting.
pub proof fn lemma_apply_text_in_turn(cfg: ConfigView, a: Seq<char>, b: Seq<char>)
    requires
        opens_section_first(split_lines(b)),
    ensures
        apply_text(apply_text(cfg, a), b) == apply_text(cfg, a + seq!['\n'] + b),
{
    lemma_split_lines_concat(a, b);
    lemma_apply_lines_concat(cfg, seq![], split_lines(a), split_lines(b));
    lemma_section_irrelevant(
        apply_text(cfg, a),
        section_after(seq![], split_lines(a)),
        seq![],
        split_lines(b),
    );
}

/// `unquoted(v[lo..hi])` as a new `String`.
fn unquote_range(v: &Vec<char>, lo: usize, hi: usize) -> (s: String)
    requires
        lo <= hi <= v@.len(),
    ensures
        s@ == unquoted(v@.subrange(lo as int, hi as int)),
{
    let (a, b) = trim_bounds(v, lo, hi);
    if b - a >= 2 && v[a] == '"' && v[b - 1] == '"' {
        assert(v@.subrange(a + 1, b - 1) =~= v@.subrange(a as int, b as int).subrange(
            1,
            b - a - 1,
        ));
        string_of(v, a + 1, b - 1)
    } else {
        string_of(v, a, b)
    }
}

/// Removes surrounding whitespace and one pair of surrounding double quotes.
pub fn unquote(value: &str) -> (s: String)
    ensures
        s@ == unquoted(value@),
{
    let v = chars_of(value);
    let n = v.len();
    assert(v@.subrange(0, n as int) =~= v@);
    unquote_range(&v, 0, n)
}

impl ProjectConfig {
    /// The documented defaults, under project root `root`.
    pub fn with_root(root: PathBuf) -> (cfg: Self)
        ensures
            cfg@ == default_config(root),
    {
        ProjectConfig {
            root,
            profile: string_from("yocto-scarthgap-kas52"),
            backend: string_from("nix-develop"),
            yxenv_ref: string_from("github:why-ex/yx-env"),
            image: None,
            kas_default: string_from("kas/project.yml"),
            downloads: string_from(".yx/downloads"),
            sstate: string_from(".yx/sstate"),
            build_dir: string_from("build"),
            default_target: string_from("core-image-minimal"),
        }
    }

    /// The configuration of a project whose root is `root` and whose
    /// project file holds `text`: the defaults, overridden by the file.
    pub fn from_project_text(root: PathBuf, text: &str) -> (cfg: Self)
        ensures
            cfg@ == apply_text(default_config(root), text@),
    {
        let mut cfg = Self::with_root(root);
        cfg.apply_toml_like(text);
        cfg
    }

    /// Applies setting `value` for `key` (`v[k1..k2]`) under `section`.
    fn set_value(&mut self, section: &String, v: &Vec<char>, k1: usize, k2: usize, value: String)
        requires
            k1 <= k2 <= v@.len(),
        ensures
            final(self)@ == old(self)@.set(section@, v@.subrange(k1 as int, k2 as int), value@),
    {
        proof {
            reveal_strlit("env");
            reveal_strlit("kas");
            reveal_strlit("paths");
            reveal_strlit("build");
            assert("env"@.len() == 3 && "kas"@.len() == 3 && "paths"@.len() == 5 && "build"@.len()
                == 5);
            assert("env"@[0] == 'e' && "kas"@[0] == 'k' && "paths"@[0] == 'p' && "build"@[0]
                == 'b');
            assert("env"@ != "kas"@);
            assert("env"@ != "paths"@);
            assert("env"@ != "build"@);
            assert("kas"@ != "paths"@);
            assert("kas"@ != "build"@);
            assert("paths"@ != "build"@);
        }
        if string_is(section, "env") {
            if range_eq(v, k1, k2, "profile") {
                self.profile = value;
            } else if range_eq(v, k1, k2, "backend") {
                self.backend = value;
            } else if range_eq(v, k1, k2, "yxenv") || range_eq(v, k1, k2, "yxenv_ref") {
                self.yxenv_ref = value;
            } else if range_eq(v, k1, k2, "image") {
                self.image = Some(value);
            }
        } else if string_is(section, "kas") {
            if range_eq(v, k1, k2, "default") {
                self.kas_default = value;
            }
        } else if string_is(section, "paths") {
            if range_eq(v, k1, k2, "downloads") {
                self.downloads = value;
            } else if range_eq(v, k1, k2, "sstate") {
                self.sstate = value;
            } else if range_eq(v, k1, k2, "build") || range_eq(v, k1, k2, "build_dir") {
                self.build_dir = value;
            }
        } else if string_is(section, "build") {
            if range_eq(v, k1, k2, "target") || range_eq(v, k1, k2, "default_target") {
                self.default_target = value;
            }
        }
    }

    /// Reads the raw line `v[lo..hi]` in `section`.
    fn read_line(&mut self, section: &mut String, v: &Vec<char>, lo: usize, hi: usize)
        requires
            lo <= hi <= v@.len(),
        ensures
            (final(self)@, final(section)@) == apply_line(
                old(self)@,
                old(section)@,
                v@.subrange(lo as int, hi as int),
            ),
    {
        let ghost raw = v@.subrange(lo as int, hi as int);
        let cut = match find_in(v, lo, hi, '#') {
            Some(h) => h,
            None => hi,
        };
        assert(v@.subrange(lo as int, cut as int) == before_char(raw, '#')) by {
            if find_char(raw, '#') >= 0 {
                assert(raw.take(find_char(raw, '#')) =~= v@.subrange(lo as int, cut as int));
            }
        }
        let (a, b) = trim_bounds(v, lo, cut);
        let ghost line = v@.subrange(a as int, b as int);
        if a == b {
            return;
        }
        assert(line[0] == v@[a as int] && line.last() == v@[b - 1]);
        if v[a] == '[' && v[b - 1] == ']' {
            let (c, d) = strip_bounds(v, a, b, true);
            let (e, f) = trim_bounds(v, c, d);
            *section = string_of(v, e, f);
            return;
        }
        match find_in(v, a, b, '=') {
            None => {},
            Some(q) => {
                assert(line.take(q - a) =~= v@.subrange(a as int, q as int));
                assert(line.skip(q - a + 1) =~= v@.subrange(q + 1, b as int));
                let (k1, k2) = trim_bounds(v, a, q);
                let value = unquote_range(v, q + 1, b);
                self.set_value(section, v, k1, k2, value);
            },
        }
    }

    /// Overrides settings from project file text `text`.
    pub fn apply_toml_like(&mut self, text: &str)
        ensures
            final(self)@ == apply_text(old(self)@, text@),
    {
        let v = chars_of(text);
        let n = v.len();
        let mut section = String::new();
        let mut start: usize = 0;
        assert(v@.subrange(0, n as int) =~= v@);
        loop
            invariant
                start <= n == v@.len(),
                v@ == text@,
                apply_lines(self@, section@, split_lines(v@.subrange(start as int, n as int)))
                    == apply_text(old(self)@, text@),
            decreases n - start,
        {
            let ghost rest = v@.subrange(start as int, n as int);
            match find_in(&v, start, n, '\n') {
                Some(e) => {
                    assert(rest.take(e - start) =~= v@.subrange(start as int, e as int));
                    assert(rest.skip(e - start + 1) =~= v@.subrange(e + 1, n as int));
                    assert(split_lines(rest).drop_first() =~= split_lines(
                        v@.subrange(e + 1, n as int),
                    ));
                    self.read_line(&mut section, &v, start, e);
                    start = e + 1;
                },
                None => {
                    let ghost c0 = self@;
                    let ghost s0 = section@;
                    assert(split_lines(rest).drop_first() =~= Seq::<Seq<char>>::empty());
                    self.read_line(&mut section, &v, start, n);
                    assert(apply_lines(c0, s0, split_lines(rest)) == apply_lines(
                        self@,
                        section@,
                        split_lines(rest).drop_first(),
                    ));
                    assert(apply_lines(self@, section@, Seq::<Seq<char>>::empty()) == self@);
                    return;
                },
            }
        }
    }

    /// The kas file named by `arg`, or the configured default.
    pub fn kas_file(&self, arg: Option<&String>) -> (s: String)
        ensures
            s@ == match arg {
                Some(a) => a@,
                None => self.kas_default@,
            },
    {
        match arg {
            Some(a) => a.clone(),
            None => self.kas_default.clone(),
        }
    }
}

} // verus!
