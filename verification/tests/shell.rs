use lib::shell::{join_shell_words, json_escape, shell_quote, split_after_double_dash};

fn strings(v: &[&str]) -> Vec<String> {
    v.iter().map(|s| s.to_string()).collect()
}

#[test]
fn safe_words_stay_bare() {
    assert_eq!(shell_quote("core-image-minimal"), "core-image-minimal");
    assert_eq!(shell_quote("a@b%c_d+e=f:g,h.i/j-k"), "a@b%c_d+e=f:g,h.i/j-k");
    assert_eq!(shell_quote("ABCxyz019"), "ABCxyz019");
}

#[test]
fn empty_word_is_printed_empty() {
    assert_eq!(shell_quote(""), "");
}

#[test]
fn unsafe_words_are_single_quoted() {
    assert_eq!(shell_quote("a b"), "'a b'");
    assert_eq!(shell_quote("$HOME"), "'$HOME'");
    assert_eq!(shell_quote("x#y"), "'x#y'");
    assert_eq!(shell_quote("é"), "'é'");
}

#[test]
fn single_quotes_are_escaped() {
    assert_eq!(shell_quote("it's"), "'it'\\''s'");
    assert_eq!(shell_quote("'"), "''\\'''");
}

#[test]
fn join_quotes_each_word() {
    let words = strings(&["bitbake", "-c", "devshell", "my recipe"]);
    assert_eq!(join_shell_words(&words), "bitbake -c devshell 'my recipe'");
    assert_eq!(join_shell_words(&[]), "");
    assert_eq!(join_shell_words(&strings(&["one"])), "one");
}

#[test]
fn json_escape_examples() {
    assert_eq!(json_escape("0.1.0"), "0.1.0");
    assert_eq!(json_escape("a\"b"), "a\\\"b");
    assert_eq!(json_escape("a\\b"), "a\\\\b");
    assert_eq!(json_escape("a\nb"), "a\\nb");
    assert_eq!(json_escape("\\\"\n"), "\\\\\\\"\\n");
}

#[test]
fn split_after_first_double_dash() {
    let args = strings(&["kas.yml", "--", "git", "status", "--", "x"]);
    assert_eq!(split_after_double_dash(&args), strings(&["git", "status", "--", "x"]));
}

#[test]
fn split_without_double_dash_keeps_all() {
    let args = strings(&["echo", "ok"]);
    assert_eq!(split_after_double_dash(&args), args);
    assert_eq!(split_after_double_dash(&[]), Vec::<String>::new());
}

#[test]
fn split_with_trailing_double_dash_is_empty() {
    let args = strings(&["a", "--"]);
    assert_eq!(split_after_double_dash(&args), Vec::<String>::new());
}

/// Reads words as a POSIX shell does, as far as blanks, single quotes and
/// backslashes go.
fn shell_read(line: &str) -> Vec<String> {
    let mut words = Vec::new();
    let mut cur: Option<String> = None;
    let mut quoted = false;
    let mut chars = line.chars();
    while let Some(c) = chars.next() {
        if quoted {
            if c == '\'' {
                quoted = false;
            } else {
                cur.get_or_insert_with(String::new).push(c);
            }
        } else if c == ' ' || c == '\t' || c == '\n' {
            if let Some(w) = cur.take() {
                words.push(w);
            }
        } else if c == '\'' {
            quoted = true;
            cur.get_or_insert_with(String::new);
        } else if c == '\\' {
            match chars.next() {
                Some(n) => cur.get_or_insert_with(String::new).push(n),
                None => cur.get_or_insert_with(String::new).push('\\'),
            }
        } else {
            cur.get_or_insert_with(String::new).push(c);
        }
    }
    if let Some(w) = cur {
        words.push(w);
    }
    words
}

#[test]
fn quoted_words_read_back() {
    let args = strings(&["bitbake", "it's", "a b", "$x;y", "tab\there", "new\nline", "\\", "''"]);
    assert_eq!(shell_read(&join_shell_words(&args)), args);
    for a in &args {
        assert_eq!(shell_read(&shell_quote(a)), vec![a.clone()]);
    }
}

#[test]
fn empty_argument_does_not_read_back() {
    let args = strings(&["a", "", "b"]);
    assert_eq!(shell_read(&join_shell_words(&args)), strings(&["a", "b"]));
}

/// Reads JSON string text with single-character escapes.
fn json_read(t: &str) -> Option<String> {
    let mut out = String::new();
    let mut chars = t.chars();
    while let Some(c) = chars.next() {
        if c == '\\' {
            let e = chars.next()?;
            out.push(match e {
                '"' => '"',
                '\\' => '\\',
                '/' => '/',
                'b' => '\u{8}',
                'f' => '\u{c}',
                'n' => '\n',
                'r' => '\r',
                't' => '\t',
                _ => return None,
            });
        } else if c == '"' || (c as u32) < 0x20 {
            return None;
        } else {
            out.push(c);
        }
    }
    Some(out)
}

#[test]
fn json_escape_reads_back() {
    for s in ["0.1.0", "a\"b", "back\\slash", "two\nlines", "\\\"\n", "é✓", ""] {
        assert_eq!(json_read(&json_escape(s)), Some(s.to_string()));
    }
}
