//! Command specifications: a program, its arguments, working directory and
//! environment overrides, printable as one shell command line.
use std::path::PathBuf;
use vstd::prelude::*;
use crate::shell::{
    all_shell_safe, join_spaced, join_with, lemma_joined_words, lemma_quoted_reads_as,
    lemma_read_quoted_word, quoted_words, reads_as, shell_quote, shell_quoted, shell_words,
    shell_words_from, views,
};
use crate::text::{chars_of, find_in, push_char, string_from, trim, trim_bounds};

verus! {

/// A command to run or print.
#[derive(Debug, Clone)]
pub struct CmdSpec {
    pub program: String,
    pub args: Vec<String>,
    pub cwd: Option<PathBuf>,
    pub envs: Vec<(String, String)>,
}

/// A `CmdSpec` with its strings taken as character sequences.
#[verifier::ext_equal]
pub struct CmdView {
    pub program: Seq<char>,
    pub args: Seq<Seq<char>>,
    pub cwd: Option<PathBuf>,
    pub envs: Seq<(Seq<char>, Seq<char>)>,
}

/// The views of environment overrides.
pub open spec fn env_views(envs: Seq<(String, String)>) -> Seq<(Seq<char>, Seq<char>)> {
    envs.map_values(|p: (String, String)| (p.0@, p.1@))
}

impl View for CmdSpec {
    type V = CmdView;

    open spec fn view(&self) -> CmdView {
        CmdView {
            program: self.program@,
            args: views(self.args@),
            cwd: self.cwd,
            envs: env_views(self.envs@),
        }
    }
}

/// `KEY=value` with both sides shell-quoted.
pub open spec fn env_word(kv: (Seq<char>, Seq<char>)) -> Seq<char> {
    shell_quoted(kv.0) + seq!['='] + shell_quoted(kv.1)
}

/// The words of the printed command line: the environment overrides, the
/// program, then the arguments, each quoted.
pub open spec fn printable_words(c: CmdView) -> Seq<Seq<char>> {
    c.envs.map_values(|kv: (Seq<char>, Seq<char>)| env_word(kv)) + seq![shell_quoted(c.program)]
        + quoted_words(c.args)
}

/// The command line as printed before it runs.
pub open spec fn printed(c: CmdView) -> Seq<char> {
    join_with(printable_words(c), seq![' '])
}

/// The word `KEY=value` that a shell reads from an environment override.
pub open spec fn env_assignment(kv: (Seq<char>, Seq<char>)) -> Seq<char> {
    kv.0 + seq!['='] + kv.1
}

/// The words of a command as a shell reads them back: the overrides, the
/// program, then the arguments.
pub open spec fn command_words(c: CmdView) -> Seq<Seq<char>> {
    c.envs.map_values(|kv: (Seq<char>, Seq<char>)| env_assignment(kv)) + seq![c.program] + c.args
}

proof fn lemma_env_word_reads_as(kv: (Seq<char>, Seq<char>))
    requires
        kv.0.len() > 0,
    ensures
        reads_as(env_word(kv), env_assignment(kv)),
{
    let (k, v) = kv;
    assert forall|x: Seq<char>|
        #[trigger] shell_words_from(env_word(kv) + x, false, None) == shell_words_from(
            x,
            false,
            Some(env_assignment(kv)),
        ) by {
        let after_key = seq!['='] + shell_quoted(v) + x;
        assert(env_word(kv) + x =~= shell_quoted(k) + after_key);
        lemma_read_quoted_word(k, None, after_key);
        assert(seq![] + k =~= k);
        assert(after_key[0] == '=');
        assert(after_key.drop_first() =~= shell_quoted(v) + x);
        assert(k.push('=') =~= k + seq!['=']);
        if v.len() > 0 {
            lemma_read_quoted_word(v, Some(k.push('=')), x);
            assert(k.push('=') + v =~= env_assignment(kv));
        } else {
            assert(all_shell_safe(v));
            assert(shell_quoted(v) + x =~= x);
            assert(k.push('=') =~= env_assignment(kv));
        }
    }
}

/// A shell reads the printed command line back as the overrides, the
/// program and the arguments, when the program, each argument and each
/// variable name is nonempty.
pub proof fn lemma_printed_round_trip(c: CmdView)
    requires
        c.program.len() > 0,
        forall|i: int| 0 <= i < c.args.len() ==> #[trigger] c.args[i].len() > 0,
        forall|i: int| 0 <= i < c.envs.len() ==> #[trigger] c.envs[i].0.len() > 0,
    ensures
        shell_words(printed(c)) == command_words(c),
{
    let texts = printable_words(c);
    let words = command_words(c);
    let ne = c.envs.len();
    assert forall|i: int| 0 <= i < texts.len() implies reads_as(#[trigger] texts[i], words[i]) by {
        if i < ne {
            lemma_env_word_reads_as(c.envs[i]);
        } else if i == ne {
            lemma_quoted_reads_as(c.program);
        } else {
            lemma_quoted_reads_as(c.args[i - ne - 1]);
        }
    }
    lemma_joined_words(texts, words);
}

/// The exit status that `yx` returns for a command: its own code; 128 when
/// it ended without one; 127 when it could not be started (`None`).
pub open spec fn exit_status(outcome: Option<Option<i32>>) -> i32 {
    match outcome {
        Some(Some(code)) => code,
        Some(None) => 128,
        None => 127,
    }
}

impl CmdSpec {
    /// A command that runs `program` with no arguments, in the current
    /// directory and environment.
    pub fn new(program: String) -> (c: Self)
        ensures
            c@ == (CmdView { program: program@, args: seq![], cwd: None, envs: seq![] }),
    {
        let c = CmdSpec { program, args: Vec::new(), cwd: None, envs: Vec::new() };
        assert(views(c.args@) =~= seq![]);
        assert(env_views(c.envs@) =~= seq![]);
        c
    }

    /// Appends the argument `arg`.
    pub fn arg(self, arg: String) -> (c: Self)
        ensures
            c@ == (CmdView { args: self@.args.push(arg@), ..self@ }),
    {
        let mut c = self;
        let ghost before = c.args@;
        c.args.push(arg);
        assert(views(c.args@) =~= views(before).push(arg@));
        c
    }

    /// Appends the arguments `args`, in order.
    pub fn args(self, args: Vec<String>) -> (c: Self)
        ensures
            c@ == (CmdView { args: self@.args + views(args@), ..self@ }),
    {
        let mut c = self;
        let ghost start = views(c.args@);
        let mut i: usize = 0;
        while i < args.len()
            invariant
                i <= args@.len(),
                c@ == (CmdView { args: start + views(args@).subrange(0, i as int), ..self@ }),
            decreases args@.len() - i,
        {
            let ghost before = c.args@;
            c.args.push(args[i].clone());
            assert(views(c.args@) =~= views(before).push(args@[i as int]@));
            assert(start + views(args@).subrange(0, i + 1) =~= (start + views(args@).subrange(
                0,
                i as int,
            )).push(args@[i as int]@));
            i = i + 1;
        }
        assert(views(args@).subrange(0, args@.len() as int) =~= views(args@));
        c
    }

    /// Runs in directory `cwd`.
    pub fn cwd(self, cwd: PathBuf) -> (c: Self)
        ensures
            c@ == (CmdView { cwd: Some(cwd), ..self@ }),
    {
        let mut c = self;
        c.cwd = Some(cwd);
        c
    }

    /// Sets environment variable `key` to `value` for the command.
    pub fn env(self, key: String, value: String) -> (c: Self)
        ensures
            c@ == (CmdView { envs: self@.envs.push((key@, value@)), ..self@ }),
    {
        let mut c = self;
        let ghost before = c.envs@;
        c.envs.push((key, value));
        assert(env_views(c.envs@) =~= env_views(before).push((key@, value@)));
        c
    }

    /// The command as one shell line: `KEY=value` overrides, the program and
    /// its arguments, each quoted, separated by spaces.
    pub fn printable(&self) -> (s: String)
        ensures
            s@ == printed(self@),
    {
        let ghost w = printable_words(self@);
        let ghost e = env_views(self.envs@);
        let mut parts: Vec<String> = Vec::new();
        let mut i: usize = 0;
        while i < self.envs.len()
            invariant
                i <= self.envs@.len(),
                e == env_views(self.envs@),
                views(parts@) == e.subrange(0, i as int).map_values(
                    |kv: (Seq<char>, Seq<char>)| env_word(kv),
                ),
            decreases self.envs@.len() - i,
        {
            let mut part = shell_quote(self.envs[i].0.as_str());
            push_char(&mut part, '=');
            let q = shell_quote(self.envs[i].1.as_str());
            part.append(q.as_str());
            assert(part@ == env_word(e[i as int]));
            let ghost before = parts@;
            parts.push(part);
            assert(views(parts@) =~= views(before).push(env_word(e[i as int])));
            assert(e.subrange(0, i + 1).map_values(|kv: (Seq<char>, Seq<char>)| env_word(kv))
                =~= e.subrange(0, i as int).map_values(
                |kv: (Seq<char>, Seq<char>)| env_word(kv),
            ).push(env_word(e[i as int])));
            i = i + 1;
        }
        assert(e.subrange(0, e.len() as int) =~= e);
        let ghost before = parts@;
        parts.push(shell_quote(self.program.as_str()));
        assert(views(parts@) =~= views(before).push(shell_quoted(self.program@)));
        let ghost mid = views(parts@);
        let mut j: usize = 0;
        while j < self.args.len()
            invariant
                j <= self.args@.len(),
                views(parts@) == mid + quoted_words(views(self.args@)).subrange(0, j as int),
            decreases self.args@.len() - j,
        {
            let ghost before = parts@;
            let q = shell_quote(self.args[j].as_str());
            parts.push(q);
            assert(views(parts@) =~= views(before).push(q@));
            assert(quoted_words(views(self.args@)).subrange(0, j + 1) =~= quoted_words(
                views(self.args@),
            ).subrange(0, j as int).push(q@));
            j = j + 1;
        }
        assert(quoted_words(views(self.args@)).subrange(0, self.args@.len() as int)
            =~= quoted_words(views(self.args@)));
        assert(views(parts@) =~= w);
        join_spaced(parts.as_slice())
    }

    /// The line echoed before a command runs: `+ ` and the printable line.
    pub fn echo_line(&self) -> (s: String)
        ensures
            s@ == seq!['+', ' '] + printed(self@),
    {
        let mut s = String::new();
        push_char(&mut s, '+');
        push_char(&mut s, ' ');
        let p = self.printable();
        s.append(p.as_str());
        s
    }
}

/// What running a command comes to: echo it and exit without launching it
/// (a dry run), or echo it and launch it.
#[derive(Debug)]
pub enum RunStep {
    /// Write `line` on standard error and exit with `code`; nothing runs.
    EchoOnly { line: String, code: i32 },
    /// Write `line` on standard error, then launch the command.
    EchoAndLaunch { line: String },
}

/// A dry run only echoes the command and exits with 0; otherwise the
/// command is echoed and launched.
pub open spec fn run_step_spec(c: CmdView, dry_run: bool) -> (Seq<char>, bool, i32) {
    (seq!['+', ' '] + printed(c), !dry_run, 0)
}

/// A dry run launches nothing and exits with 0; otherwise the command is
/// launched. Either way the same line is echoed first: `+ `, then the
/// command as a shell line.
pub proof fn lemma_dry_run_launches_nothing(c: CmdView, dry_run: bool)
    ensures
        !run_step_spec(c, true).1,
        run_step_spec(c, true).2 == 0,
        run_step_spec(c, false).1,
        run_step_spec(c, dry_run).0 == seq!['+', ' '] + join_with(printable_words(c), seq![' ']),
{
}

impl CmdSpec {
    /// Whether and how the command is run: with `dry_run` it is only
    /// echoed, and the exit status is 0.
    pub fn run_step(&self, dry_run: bool) -> (r: RunStep)
        ensures
            match r {
                RunStep::EchoOnly { line, code } => dry_run && line@ == run_step_spec(
                    self@,
                    dry_run,
                ).0 && code == run_step_spec(self@, dry_run).2,
                RunStep::EchoAndLaunch { line } => !dry_run && line@ == run_step_spec(
                    self@,
                    dry_run,
                ).0,
            },
    {
        let line = self.echo_line();
        if dry_run {
            RunStep::EchoOnly { line, code: 0 }
        } else {
            RunStep::EchoAndLaunch { line }
        }
    }
}

/// `yx` returns a command's own exit code; 128 when it ended without one
/// (killed by a signal); 127 exactly when it could not be started.
pub proof fn lemma_exit_status(code: i32, outcome: Option<Option<i32>>)
    ensures
        exit_status(Some(Some(code))) == code,
        exit_status(Some(None)) == 128,
        exit_status(None) == 127,
        outcome is None ==> exit_status(outcome) == 127,
{
}

/// The exit status for a command outcome: `Some(code)` when it ran, where
/// `code` is its exit code if it had one; `None` when it could not start.
pub fn exit_code(outcome: Option<Option<i32>>) -> (code: i32)
    ensures
        code == exit_status(outcome),
{
    match outcome {
        Some(Some(code)) => code,
        Some(None) => 128,
        None => 127,
    }
}

/// Whether a command name is a path, which is checked as a file directly
/// rather than searched for in `PATH`.
pub fn names_a_path(name: &str) -> (b: bool)
    ensures
        b == name@.contains('/'),
{
    let v = chars_of(name);
    let n = v.len();
    assert(v@.subrange(0, n as int) =~= v@);
    match find_in(&v, 0, n, '/') {
        Some(i) => {
            proof {
                crate::text::lemma_find_char_bounds(v@, '/');
            }
            true
        },
        None => {
            proof {
                crate::text::lemma_find_char_bounds(v@, '/');
            }
            false
        },
    }
}

/// A user or group id: the output of `id`, trimmed, when `id` ran,
/// succeeded and wrote UTF-8 (`Some`); `1000` otherwise (`None`).
pub fn id_or_default(output: Option<&str>) -> (id: String)
    ensures
        id@ == match output {
            Some(s) => trim(s@),
            None => "1000"@,
        },
{
    match output {
        Some(s) => {
            let v = chars_of(s);
            let n = v.len();
            assert(v@.subrange(0, n as int) =~= v@);
            let (a, b) = trim_bounds(&v, 0, n);
            crate::text::string_of(&v, a, b)
        },
        None => string_from("1000"),
    }
}

} // verus!
