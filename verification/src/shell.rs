//! Shell quoting of command words, JSON string escaping, and the argument
//! split at `--`.
use vstd::prelude::*;
use crate::text::{chars_of, push_char, string_is};

verus! {

/// `s` with each character `c` replaced by `f(c)`.
pub open spec fn flat_chars(s: Seq<char>, f: spec_fn(char) -> Seq<char>) -> Seq<char>
    decreases s.len(),
{
    if s.len() == 0 {
        seq![]
    } else {
        flat_chars(s.drop_last(), f) + f(s.last())
    }
}

/// The words `ws` joined with `sep` between each two.
pub open spec fn join_with(ws: Seq<Seq<char>>, sep: Seq<char>) -> Seq<char>
    decreases ws.len(),
{
    if ws.len() == 0 {
        seq![]
    } else if ws.len() == 1 {
        ws[0]
    } else {
        join_with(ws.drop_last(), sep) + sep + ws.last()
    }
}

/// A character that a shell takes literally outside quotes: an ASCII letter
/// or digit, or one of `@%_+=:,./-`.
pub open spec fn is_shell_safe(c: char) -> bool {
    ||| ('a' <= c && c <= 'z')
    ||| ('A' <= c && c <= 'Z')
    ||| ('0' <= c && c <= '9')
    ||| c == '@'
    ||| c == '%'
    ||| c == '_'
    ||| c == '+'
    ||| c == '='
    ||| c == ':'
    ||| c == ','
    ||| c == '.'
    ||| c == '/'
    ||| c == '-'
}

/// Every character of `s` is shell-safe.
pub open spec fn all_shell_safe(s: Seq<char>) -> bool {
    forall|i: int| 0 <= i < s.len() ==> is_shell_safe(#[trigger] s[i])
}

/// What a character becomes inside single quotes: a quote closes the
/// quoted run, is written escaped, and opens a new run.
pub open spec fn single_quote_piece(c: char) -> Seq<char> {
    if c == '\'' {
        seq!['\'', '\\', '\'', '\'']
    } else {
        seq![c]
    }
}

/// `single_quote_piece` as a function value.
pub open spec fn quote_pieces() -> spec_fn(char) -> Seq<char> {
    |c: char| single_quote_piece(c)
}

/// `s` as one shell word: unchanged when every character is safe,
/// otherwise wrapped in single quotes with each quote escaped.
pub open spec fn shell_quoted(s: Seq<char>) -> Seq<char> {
    if all_shell_safe(s) {
        s
    } else {
        seq!['\''] + flat_chars(s, quote_pieces()) + seq!['\'']
    }
}

/// What a character becomes in JSON string text: backslash, double quote
/// and newline are escaped.
pub open spec fn json_piece(c: char) -> Seq<char> {
    if c == '\\' {
        seq!['\\', '\\']
    } else if c == '"' {
        seq!['\\', '"']
    } else if c == '\n' {
        seq!['\\', 'n']
    } else {
        seq![c]
    }
}

/// `json_piece` as a function value.
pub open spec fn json_pieces() -> spec_fn(char) -> Seq<char> {
    |c: char| json_piece(c)
}

/// `s` escaped for a JSON string.
pub open spec fn json_escaped(s: Seq<char>) -> Seq<char> {
    flat_chars(s, json_pieces())
}

/// A control character, which JSON string text must not hold as it is.
pub open spec fn is_control(c: char) -> bool {
    (c as int) < 0x20
}

/// The character that the single-character JSON escape `\e` stands for.
pub open spec fn json_escape_target(e: char) -> Option<char> {
    if e == '"' {
        Some('"')
    } else if e == '\\' {
        Some('\\')
    } else if e == '/' {
        Some('/')
    } else if e == 'b' {
        Some('\u{8}')
    } else if e == 'f' {
        Some('\u{c}')
    } else if e == 'n' {
        Some('\n')
    } else if e == 'r' {
        Some('\r')
    } else if e == 't' {
        Some('\t')
    } else {
        None
    }
}

/// The string that JSON string text `t` (what stands between the quotes)
/// denotes, reading the single-character escapes; `None` where `t` holds a
/// bare double quote or control character, a lone backslash, or another
/// escape (`\u` escapes are not read here).
pub open spec fn json_decode(t: Seq<char>) -> Option<Seq<char>>
    decreases t.len(),
{
    if t.len() == 0 {
        Some(seq![])
    } else if t[0] == '\\' {
        if t.len() < 2 {
            None
        } else {
            match (json_escape_target(t[1]), json_decode(t.skip(2))) {
                (Some(c), Some(r)) => Some(seq![c] + r),
                _ => None,
            }
        }
    } else if t[0] == '"' || is_control(t[0]) {
        None
    } else {
        match json_decode(t.drop_first()) {
            Some(r) => Some(seq![t[0]] + r),
            None => None,
        }
    }
}

/// Escaped text of a string whose only control character is newline is
/// valid JSON string text and reads back as that string.
pub proof fn lemma_json_escape_round_trip(s: Seq<char>)
    requires
        forall|i: int| 0 <= i < s.len() && is_control(#[trigger] s[i]) ==> s[i] == '\n',
    ensures
        json_decode(json_escaped(s)) == Some(s),
    decreases s.len(),
{
    if s.len() == 0 {
        assert(json_escaped(s) =~= Seq::<char>::empty());
    } else {
        let f = json_pieces();
        lemma_flat_front(s, f);
        let rest = s.drop_first();
        assert forall|i: int| 0 <= i < rest.len() && is_control(#[trigger] rest[i]) implies rest[i]
            == '\n' by {
            assert(rest[i] == s[i + 1]);
        }
        lemma_json_escape_round_trip(rest);
        let r = json_escaped(rest);
        let t = json_escaped(s);
        let c = s[0];
        assert(t == json_piece(c) + r);
        if c == '\\' || c == '"' || c == '\n' {
            assert(t.len() >= 2 && t[0] == '\\');
            assert(t.skip(2) =~= r);
            assert(json_escape_target(t[1]) == Some(c));
        } else {
            assert(t[0] == c);
            assert(t.drop_first() =~= r);
            assert(!is_control(c));
        }
        assert(seq![c] + rest =~= s);
    }
}

/// The views of a sequence of strings.
pub open spec fn views(args: Seq<String>) -> Seq<Seq<char>> {
    args.map_values(|a: String| a@)
}

/// The shell words of `args`, each quoted.
pub open spec fn quoted_words(args: Seq<Seq<char>>) -> Seq<Seq<char>> {
    args.map_values(|a: Seq<char>| shell_quoted(a))
}

/// Index of the first word `w` among `args`, or -1.
pub open spec fn word_index(args: Seq<Seq<char>>, w: Seq<char>) -> int
    decreases args.len(),
{
    if args.len() == 0 {
        -1
    } else if args[0] == w {
        0
    } else {
        let r = word_index(args.drop_first(), w);
        if r < 0 {
            -1
        } else {
            r + 1
        }
    }
}

/// Index of the first `--` among `args`, or -1.
pub open spec fn double_dash_index(args: Seq<Seq<char>>) -> int {
    word_index(args, "--"@)
}

/// The arguments after the first `--`, or all of them when there is none.
pub open spec fn after_double_dash(args: Seq<Seq<char>>) -> Seq<Seq<char>> {
    let i = double_dash_index(args);
    if i < 0 {
        args
    } else {
        args.skip(i + 1)
    }
}

/// The arguments after the first `--` are exactly those that follow it, in
/// order; without a `--` all arguments are kept.
pub proof fn lemma_after_double_dash(args: Seq<Seq<char>>)
    ensures
        !args.contains("--"@) ==> after_double_dash(args) == args,
        args.contains("--"@) ==> exists|i: int|
            0 <= i < args.len() && args[i] == "--"@ && (forall|j: int|
                0 <= j < i ==> args[j] != "--"@) && after_double_dash(args) == args.subrange(
                i + 1,
                args.len() as int,
            ),
{
    lemma_word_index_facts(args, "--"@);
    if args.contains("--"@) {
        let i = word_index(args, "--"@);
        assert(after_double_dash(args) =~= args.subrange(i + 1, args.len() as int));
    }
}

/// A word's first index is where it first occurs, and there is one exactly
/// when it occurs.
pub proof fn lemma_word_index_facts(args: Seq<Seq<char>>, w: Seq<char>)
    ensures
        -1 <= word_index(args, w) < args.len(),
        word_index(args, w) >= 0 <==> args.contains(w),
        word_index(args, w) >= 0 ==> args[word_index(args, w)] == w,
        forall|j: int| 0 <= j < word_index(args, w) ==> args[j] != w,
    decreases args.len(),
{
    if args.len() > 0 {
        lemma_word_index_facts(args.drop_first(), w);
        if args[0] != w {
            if args.contains(w) {
                let j = choose|j: int| 0 <= j < args.len() && args[j] == w;
                assert(args.drop_first()[j - 1] == w);
            }
            if args.drop_first().contains(w) {
                let j = choose|j: int| 0 <= j < args.drop_first().len() && args.drop_first()[j] == w;
                assert(args[j + 1] == w);
            }
            assert forall|j: int| 0 <= j < word_index(args, w) implies args[j] != w by {
                if j > 0 {
                    assert(args[j] == args.drop_first()[j - 1]);
                }
            }
        } else {
            assert(args[0] == w);
        }
    }
}

/// The first `w` is at `i` when `args[i]` is `w` and no earlier argument
/// is; there is none when no argument is.
pub proof fn lemma_word_index(args: Seq<Seq<char>>, w: Seq<char>, i: int)
    requires
        0 <= i <= args.len(),
        forall|j: int| 0 <= j < i ==> args[j] != w,
    ensures
        i < args.len() && args[i] == w ==> word_index(args, w) == i,
        i == args.len() ==> word_index(args, w) == -1,
    decreases i,
{
    if i > 0 {
        lemma_word_index(args.drop_first(), w, i - 1);
    }
}

/// Index of the first argument that spells `w`.
pub fn find_word(args: &[String], w: &str) -> (r: Option<usize>)
    ensures
        match r {
            Some(i) => i < args@.len() && i == word_index(views(args@), w@),
            None => word_index(views(args@), w@) == -1,
        },
{
    let n = args.len();
    let ghost a = views(args@);
    let mut i: usize = 0;
    while i < n
        invariant
            n == args@.len(),
            a == views(args@),
            i <= n,
            forall|j: int| 0 <= j < i ==> a[j] != w@,
        decreases n - i,
    {
        if string_is(&args[i], w) {
            proof {
                lemma_word_index(a, w@, i as int);
            }
            return Some(i);
        }
        i = i + 1;
    }
    proof {
        lemma_word_index(a, w@, i as int);
    }
    None
}

/// Replacing each character by a nonempty piece never shortens text.
proof fn lemma_quote_pieces_len(s: Seq<char>)
    ensures
        flat_chars(s, quote_pieces()).len() >= s.len(),
    decreases s.len(),
{
    if s.len() > 0 {
        lemma_quote_pieces_len(s.drop_last());
    }
}

/// A word is printed bare exactly when each of its characters is an ASCII
/// letter or digit or one of `@ % _ + = : , . / -`; any other word is
/// printed inside single quotes.
pub proof fn lemma_bare_only_when_plain(s: Seq<char>)
    ensures
        shell_quoted(s) == s <==> forall|i: int|
            0 <= i < s.len() ==> {
                let c = #[trigger] s[i];
                ||| 'a' <= c <= 'z'
                ||| 'A' <= c <= 'Z'
                ||| '0' <= c <= '9'
                ||| c == '@' || c == '%' || c == '_' || c == '+' || c == '=' || c == ':' || c
                    == ',' || c == '.' || c == '/' || c == '-'
            },
        shell_quoted(s) != s ==> shell_quoted(s).len() >= 2 && shell_quoted(s)[0] == '\''
            && shell_quoted(s).last() == '\'',
{
    lemma_quote_pieces_len(s);
    if !all_shell_safe(s) {
        assert(shell_quoted(s).len() > s.len());
    }
}

/// A word holding a character that a shell treats specially outside
/// quotes (an operator, redirection, glob, expansion, quote, escape,
/// comment or blank) is printed inside single quotes.
pub proof fn lemma_metacharacters_quoted(s: Seq<char>, i: int)
    requires
        0 <= i < s.len(),
        ({
            let c = s[i];
            ||| c == '|' || c == '&' || c == ';' || c == '<' || c == '>' || c == '(' || c == ')'
            ||| c == '*' || c == '?' || c == '[' || c == ']' || c == '~' || c == '{' || c == '}'
            ||| c == '$' || c == '`' || c == '\'' || c == '"' || c == '\\' || c == '#' || c
                == '!'
            ||| c == ' ' || c == '\t' || c == '\n'
        }),
    ensures
        shell_quoted(s) != s,
        shell_quoted(s)[0] == '\'',
        shell_quoted(s).last() == '\'',
{
    lemma_bare_only_when_plain(s);
    assert(!is_shell_safe(s[i]));
}

/// A blank that separates words outside quotes.
pub open spec fn is_blank(c: char) -> bool {
    c == ' ' || c == '\t' || c == '\n'
}

/// The word begun so far, empty when none has begun.
pub open spec fn word_so_far(cur: Option<Seq<char>>) -> Seq<char> {
    match cur {
        Some(w) => w,
        None => seq![],
    }
}

/// The words a POSIX shell reads from `line`, as far as quoting goes:
/// blanks outside quotes separate words, single quotes take everything up
/// to the next single quote literally, a backslash outside quotes takes the
/// next character literally, and every other character is literal.
/// `quoted` tells whether the reader is inside single quotes and `cur` is
/// the word begun so far.
pub open spec fn shell_words_from(line: Seq<char>, quoted: bool, cur: Option<Seq<char>>) -> Seq<
    Seq<char>,
>
    decreases line.len(),
{
    if line.len() == 0 {
        match cur {
            Some(w) => seq![w],
            None => seq![],
        }
    } else {
        let c = line[0];
        let rest = line.drop_first();
        if quoted {
            if c == '\'' {
                shell_words_from(rest, false, cur)
            } else {
                shell_words_from(rest, true, Some(word_so_far(cur).push(c)))
            }
        } else if is_blank(c) {
            match cur {
                Some(w) => seq![w] + shell_words_from(rest, false, None),
                None => shell_words_from(rest, false, None),
            }
        } else if c == '\'' {
            shell_words_from(rest, true, Some(word_so_far(cur)))
        } else if c == '\\' && rest.len() > 0 {
            shell_words_from(rest.drop_first(), false, Some(word_so_far(cur).push(rest[0])))
        } else {
            shell_words_from(rest, false, Some(word_so_far(cur).push(c)))
        }
    }
}

/// The words a POSIX shell reads from the command line `line`.
pub open spec fn shell_words(line: Seq<char>) -> Seq<Seq<char>> {
    shell_words_from(line, false, None)
}

/// Replacing characters distributes over concatenation.
pub proof fn lemma_flat_concat(a: Seq<char>, b: Seq<char>, f: spec_fn(char) -> Seq<char>)
    ensures
        flat_chars(a + b, f) == flat_chars(a, f) + flat_chars(b, f),
    decreases b.len(),
{
    if b.len() == 0 {
        assert(a + b =~= a);
        assert(flat_chars(a, f) + flat_chars(b, f) =~= flat_chars(a, f));
    } else {
        assert((a + b).drop_last() =~= a + b.drop_last());
        assert((a + b).last() == b.last());
        lemma_flat_concat(a, b.drop_last(), f);
        assert(flat_chars(a + b, f) =~= flat_chars(a, f) + flat_chars(b, f));
    }
}

/// The replacement of a nonempty sequence starts with that of its first
/// character.
pub proof fn lemma_flat_front(s: Seq<char>, f: spec_fn(char) -> Seq<char>)
    requires
        s.len() > 0,
    ensures
        flat_chars(s, f) == f(s[0]) + flat_chars(s.drop_first(), f),
{
    assert(s =~= seq![s[0]] + s.drop_first());
    lemma_flat_concat(seq![s[0]], s.drop_first(), f);
    assert(seq![s[0]].drop_last() =~= Seq::<char>::empty());
    assert(flat_chars(Seq::<char>::empty(), f) =~= Seq::<char>::empty());
    assert(seq![s[0]].last() == s[0]);
    assert(Seq::<char>::empty() + f(s[0]) =~= f(s[0]));
    assert(flat_chars(seq![s[0]], f) =~= f(s[0]));
}

/// Inside single quotes, the escaped text of `s` and the closing quote give
/// `s` and leave the reader outside quotes.
proof fn lemma_read_single_quoted(s: Seq<char>, w: Seq<char>, x: Seq<char>)
    ensures
        shell_words_from(
            flat_chars(s, quote_pieces()) + seq!['\''] + x,
            true,
            Some(w),
        ) == shell_words_from(x, false, Some(w + s)),
    decreases s.len(),
{
    let f = quote_pieces();
    let line = flat_chars(s, f) + seq!['\''] + x;
    if s.len() == 0 {
        assert(flat_chars(s, f) =~= Seq::<char>::empty());
        assert(line =~= seq!['\''] + x);
        assert(line[0] == '\'');
        assert(line.drop_first() =~= x);
        assert(w + s =~= w);
    } else {
        lemma_flat_front(s, f);
        let tail = flat_chars(s.drop_first(), f) + seq!['\''] + x;
        lemma_read_single_quoted(s.drop_first(), w.push(s[0]), x);
        assert(w.push(s[0]) + s.drop_first() =~= w + s);
        if s[0] == '\'' {
            assert(line =~= seq!['\'', '\\', '\'', '\''] + tail);
            let l1 = line.drop_first();
            assert(l1 =~= seq!['\\', '\'', '\''] + tail);
            assert(shell_words_from(line, true, Some(w)) == shell_words_from(l1, false, Some(w)));
            let l2 = l1.drop_first();
            assert(l2 =~= seq!['\'', '\''] + tail);
            assert(l1[0] == '\\' && l2.len() > 0 && l2[0] == '\'');
            let l3 = l2.drop_first();
            assert(l3 =~= seq!['\''] + tail);
            assert(shell_words_from(l1, false, Some(w)) == shell_words_from(
                l3,
                false,
                Some(w.push('\'')),
            ));
            assert(l3[0] == '\'');
            assert(l3.drop_first() =~= tail);
            assert(shell_words_from(l3, false, Some(w.push('\''))) == shell_words_from(
                tail,
                true,
                Some(w.push('\'')),
            ));
        } else {
            assert(line =~= seq![s[0]] + tail);
            assert(line[0] == s[0]);
            assert(line.drop_first() =~= tail);
        }
    }
}

/// Outside quotes, shell-safe characters are read literally into the word.
proof fn lemma_read_safe(s: Seq<char>, w: Seq<char>, x: Seq<char>)
    requires
        all_shell_safe(s),
    ensures
        shell_words_from(s + x, false, Some(w)) == shell_words_from(x, false, Some(w + s)),
    decreases s.len(),
{
    if s.len() == 0 {
        assert(s + x =~= x);
        assert(w + s =~= w);
    } else {
        assert(is_shell_safe(s[0]));
        assert((s + x)[0] == s[0]);
        assert((s + x).drop_first() =~= s.drop_first() + x);
        assert(w.push(s[0]) + s.drop_first() =~= w + s);
        lemma_read_safe(s.drop_first(), w.push(s[0]), x);
    }
}

/// A nonempty quoted word extends the word being read by exactly its text.
pub proof fn lemma_read_quoted_word(s: Seq<char>, cur: Option<Seq<char>>, x: Seq<char>)
    requires
        s.len() > 0,
    ensures
        shell_words_from(shell_quoted(s) + x, false, cur) == shell_words_from(
            x,
            false,
            Some(word_so_far(cur) + s),
        ),
{
    if all_shell_safe(s) {
        assert(is_shell_safe(s[0]));
        assert((s + x)[0] == s[0]);
        assert((s + x).drop_first() =~= s.drop_first() + x);
        lemma_read_safe(s.drop_first(), word_so_far(cur).push(s[0]), x);
        assert(word_so_far(cur).push(s[0]) + s.drop_first() =~= word_so_far(cur) + s);
    } else {
        let f = quote_pieces();
        let line = seq!['\''] + flat_chars(s, f) + seq!['\''] + x;
        assert(shell_quoted(s) + x =~= line);
        assert(line.drop_first() =~= flat_chars(s, f) + seq!['\''] + x);
        lemma_read_single_quoted(s, word_so_far(cur), x);
    }
}

/// Outside quotes and between words, a shell reads `text` as the start of
/// one word whose text so far is `word`, whatever follows.
pub open spec fn reads_as(text: Seq<char>, word: Seq<char>) -> bool {
    forall|x: Seq<char>|
        #[trigger] shell_words_from(text + x, false, None) == shell_words_from(
            x,
            false,
            Some(word),
        )
}

/// A nonempty quoted word reads as itself.
pub proof fn lemma_quoted_reads_as(s: Seq<char>)
    requires
        s.len() > 0,
    ensures
        reads_as(shell_quoted(s), s),
{
    assert forall|x: Seq<char>|
        #[trigger] shell_words_from(shell_quoted(s) + x, false, None) == shell_words_from(
            x,
            false,
            Some(s),
        ) by {
        lemma_read_quoted_word(s, None, x);
        assert(seq![] + s =~= s);
    }
}

/// Texts that each read as one word, joined with spaces, read as those
/// words.
pub proof fn lemma_read_joined(texts: Seq<Seq<char>>, words: Seq<Seq<char>>, x: Seq<char>)
    requires
        texts.len() > 0,
        texts.len() == words.len(),
        forall|i: int| 0 <= i < texts.len() ==> reads_as(#[trigger] texts[i], words[i]),
    ensures
        shell_words_from(join_with(texts, seq![' ']) + x, false, None) == words.drop_last()
            + shell_words_from(x, false, Some(words.last())),
    decreases texts.len(),
{
    if texts.len() == 1 {
        assert(join_with(texts, seq![' ']) == texts[0]);
        assert(reads_as(texts[0], words[0]));
        assert(shell_words_from(texts[0] + x, false, None) == shell_words_from(
            x,
            false,
            Some(words[0]),
        ));
        assert(words.drop_last() + shell_words_from(x, false, Some(words.last())) =~= shell_words_from(
            x,
            false,
            Some(words.last()),
        ));
    } else {
        let front = texts.drop_last();
        let wfront = words.drop_last();
        let tail = seq![' '] + texts.last() + x;
        assert(join_with(texts, seq![' ']) + x =~= join_with(front, seq![' ']) + tail);
        assert forall|i: int| 0 <= i < front.len() implies reads_as(
            #[trigger] front[i],
            wfront[i],
        ) by {
            assert(front[i] == texts[i]);
            assert(reads_as(texts[i], words[i]));
        }
        lemma_read_joined(front, wfront, tail);
        assert(tail[0] == ' ');
        assert(tail.drop_first() =~= texts.last() + x);
        assert(reads_as(texts[texts.len() - 1], words[words.len() - 1]));
        assert(shell_words_from(texts.last() + x, false, None) == shell_words_from(
            x,
            false,
            Some(words.last()),
        ));
        assert(wfront.drop_last() + seq![wfront.last()] =~= wfront);
        assert(wfront.drop_last() + (seq![wfront.last()] + shell_words_from(
            x,
            false,
            Some(words.last()),
        )) =~= wfront + shell_words_from(x, false, Some(words.last())));
    }
}

/// Texts that each read as one word, joined with spaces, read as exactly
/// those words.
pub proof fn lemma_joined_words(texts: Seq<Seq<char>>, words: Seq<Seq<char>>)
    requires
        texts.len() == words.len(),
        forall|i: int| 0 <= i < texts.len() ==> reads_as(#[trigger] texts[i], words[i]),
    ensures
        shell_words(join_with(texts, seq![' '])) == words,
{
    if texts.len() > 0 {
        let e = Seq::<char>::empty();
        lemma_read_joined(texts, words, e);
        assert(join_with(texts, seq![' ']) + e =~= join_with(texts, seq![' ']));
        assert(words.drop_last() + seq![words.last()] =~= words);
    }
}

/// A shell reads the joined quoted arguments back as exactly those
/// arguments, when none of them is empty.
pub proof fn lemma_join_shell_words_round_trip(args: Seq<Seq<char>>)
    requires
        forall|i: int| 0 <= i < args.len() ==> #[trigger] args[i].len() > 0,
    ensures
        shell_words(join_with(quoted_words(args), seq![' '])) == args,
{
    let q = quoted_words(args);
    assert forall|i: int| 0 <= i < q.len() implies reads_as(#[trigger] q[i], args[i]) by {
        lemma_quoted_reads_as(args[i]);
    }
    lemma_joined_words(q, args);
}

/// A shell reads a quoted nonempty word back as that one word.
pub proof fn lemma_shell_quote_round_trip(s: Seq<char>)
    requires
        s.len() > 0,
    ensures
        shell_words(shell_quoted(s)) == seq![s],
{
    let e = Seq::<char>::empty();
    lemma_read_quoted_word(s, None, e);
    assert(shell_quoted(s) + e =~= shell_quoted(s));
    assert(seq![] + s =~= s);
}

/// `str::is_ascii_alphanumeric` or one of `@%_+=:,./-`.
fn shell_safe(c: char) -> (b: bool)
    ensures
        b == is_shell_safe(c),
{
    ('a' <= c && c <= 'z') || ('A' <= c && c <= 'Z') || ('0' <= c && c <= '9') || c == '@' || c
        == '%' || c == '_' || c == '+' || c == '=' || c == ':' || c == ',' || c == '.' || c == '/'
        || c == '-'
}

/// Quotes `s` for a POSIX shell, so that it reads back as the one word `s`.
pub fn shell_quote(s: &str) -> (r: String)
    ensures
        r@ == shell_quoted(s@),
{
    let v = chars_of(s);
    let n = v.len();
    let mut safe = true;
    let mut i: usize = 0;
    while i < n
        invariant
            n == v@.len(),
            v@ == s@,
            i <= n,
            safe == (forall|j: int| 0 <= j < i ==> is_shell_safe(#[trigger] v@[j])),
        decreases n - i,
    {
        if !shell_safe(v[i]) {
            safe = false;
        }
        i = i + 1;
    }
    if safe {
        return s.to_owned();
    }
    let ghost f = quote_pieces();
    let mut out = String::new();
    push_char(&mut out, '\'');
    let mut i: usize = 0;
    while i < n
        invariant
            n == v@.len(),
            v@ == s@,
            i <= n,
            f == quote_pieces(),
            out@ == seq!['\''] + flat_chars(v@.subrange(0, i as int), f),
        decreases n - i,
    {
        let c = v[i];
        if c == '\'' {
            push_char(&mut out, '\'');
            push_char(&mut out, '\\');
            push_char(&mut out, '\'');
            push_char(&mut out, '\'');
        } else {
            push_char(&mut out, c);
        }
        assert(v@.subrange(0, i + 1).drop_last() =~= v@.subrange(0, i as int));
        i = i + 1;
    }
    push_char(&mut out, '\'');
    assert(v@.subrange(0, n as int) =~= v@);
    out
}

/// Escapes backslash, double quote and newline for a JSON string.
pub fn json_escape(s: &str) -> (r: String)
    ensures
        r@ == json_escaped(s@),
{
    let v = chars_of(s);
    let n = v.len();
    let ghost f = json_pieces();
    let mut out = String::new();
    let mut i: usize = 0;
    while i < n
        invariant
            n == v@.len(),
            v@ == s@,
            i <= n,
            f == json_pieces(),
            out@ == flat_chars(v@.subrange(0, i as int), f),
        decreases n - i,
    {
        let c = v[i];
        if c == '\\' {
            push_char(&mut out, '\\');
            push_char(&mut out, '\\');
        } else if c == '"' {
            push_char(&mut out, '\\');
            push_char(&mut out, '"');
        } else if c == '\n' {
            push_char(&mut out, '\\');
            push_char(&mut out, 'n');
        } else {
            push_char(&mut out, c);
        }
        assert(v@.subrange(0, i + 1).drop_last() =~= v@.subrange(0, i as int));
        i = i + 1;
    }
    assert(v@.subrange(0, n as int) =~= v@);
    out
}

/// `parts` separated by single spaces.
pub fn join_spaced(parts: &[String]) -> (r: String)
    ensures
        r@ == join_with(views(parts@), seq![' ']),
{
    let n = parts.len();
    let ghost w = views(parts@);
    let mut out = String::new();
    let mut i: usize = 0;
    while i < n
        invariant
            n == parts@.len(),
            i <= n,
            w == views(parts@),
            out@ == join_with(w.subrange(0, i as int), seq![' ']),
        decreases n - i,
    {
        if i > 0 {
            push_char(&mut out, ' ');
        }
        out.append(parts[i].as_str());
        assert(w.subrange(0, i + 1).drop_last() =~= w.subrange(0, i as int));
        i = i + 1;
    }
    assert(w.subrange(0, n as int) =~= w);
    out
}

/// The shell-quoted `args`, separated by single spaces.
pub fn join_shell_words(args: &[String]) -> (r: String)
    ensures
        r@ == join_with(quoted_words(views(args@)), seq![' ']),
{
    let n = args.len();
    let ghost w = quoted_words(views(args@));
    let mut out = String::new();
    let mut i: usize = 0;
    while i < n
        invariant
            n == args@.len(),
            i <= n,
            w == quoted_words(views(args@)),
            out@ == join_with(w.subrange(0, i as int), seq![' ']),
        decreases n - i,
    {
        if i > 0 {
            push_char(&mut out, ' ');
        }
        let q = shell_quote(args[i].as_str());
        out.append(q.as_str());
        assert(w.subrange(0, i + 1).drop_last() =~= w.subrange(0, i as int));
        assert(w[i as int] == q@);
        i = i + 1;
    }
    assert(w.subrange(0, n as int) =~= w);
    out
}

/// The arguments after the first `--`, or all of them when none is `--`.
pub fn split_after_double_dash(args: &[String]) -> (r: Vec<String>)
    ensures
        views(r@) == after_double_dash(views(args@)),
{
    let n = args.len();
    let ghost a = views(args@);
    let from: usize = match find_word(args, "--") {
        Some(i) => i + 1,
        None => 0,
    };
    let mut out: Vec<String> = Vec::new();
    let mut k: usize = from;
    while k < n
        invariant
            n == args@.len(),
            a == views(args@),
            from <= k <= n,
            views(out@) == a.subrange(from as int, k as int),
        decreases n - k,
    {
        let c = args[k].clone();
        assert(c@ == a[k as int]);
        let ghost before = out@;
        out.push(c);
        assert(views(out@) =~= views(before).push(c@));
        assert(views(out@) =~= a.subrange(from as int, k + 1));
        k = k + 1;
    }
    assert(a.subrange(0, n as int) =~= a);
    assert(a.skip(from as int) =~= a.subrange(from as int, n as int));
    out
}

} // verus!
