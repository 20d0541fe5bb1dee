//! What a command-line invocation comes to: a command to run, or a message
//! and an exit status, or one of the built-in reports.
use vstd::prelude::*;
use crate::cmd::{CmdSpec, CmdView};
use crate::shell::{find_word, join_with, lemma_word_index_facts, quoted_words, views, word_index};
use crate::text::string_from;

verus! {

/// The next thing the program does.
#[derive(Debug)]
pub enum Step {
    /// Echo the command on standard error, run it unless this is a dry run,
    /// and exit with its status.
    Run(CmdSpec),
    /// Write `message` on standard error, then the usage text if `usage`,
    /// and exit with `code`.
    Fail { message: String, usage: bool, code: i32 },
    /// Write the usage text and exit with 0.
    Usage,
    /// Print the environment and configuration report and exit with 0.
    Info,
    /// Print the machine-readable handshake and exit with 0.
    Handshake,
    /// Check for the required tools and exit with the verdict.
    Doctor,
}

/// A `Step` with its strings taken as character sequences.
#[verifier::ext_equal]
pub enum StepView {
    Run(CmdView),
    Fail(Seq<char>, bool, i32),
    Usage,
    Info,
    Handshake,
    Doctor,
}

impl View for Step {
    type V = StepView;

    open spec fn view(&self) -> StepView {
        match self {
            Step::Run(c) => StepView::Run(c@),
            Step::Fail { message, usage, code } => StepView::Fail(message@, *usage, *code),
            Step::Usage => StepView::Usage,
            Step::Info => StepView::Info,
            Step::Handshake => StepView::Handshake,
            Step::Doctor => StepView::Doctor,
        }
    }
}

/// A command run in the current directory.
pub open spec fn command(
    program: Seq<char>,
    args: Seq<Seq<char>>,
    envs: Seq<(Seq<char>, Seq<char>)>,
) -> CmdView {
    CmdView { program, args, cwd: None, envs }
}

/// The environment override that marks the layer a command enters.
pub open spec fn layer_env(layer: Seq<char>) -> Seq<(Seq<char>, Seq<char>)> {
    seq![("YX_LAYER"@, layer)]
}

/// `words` as one shell command line.
pub open spec fn command_line(words: Seq<Seq<char>>) -> Seq<char> {
    join_with(quoted_words(words), seq![' '])
}

/// The argument at `i`, if any.
pub open spec fn arg_at(args: Seq<Seq<char>>, i: int) -> Option<Seq<char>> {
    if 0 <= i < args.len() {
        Some(args[i])
    } else {
        None
    }
}

/// A failure with `message`, without the usage text, and status 2.
pub open spec fn fail2(message: Seq<char>) -> StepView {
    StepView::Fail(message, false, 2)
}

/// `Fail` with `message`, exit status 2, no usage text.
pub fn fail_with(message: String) -> (s: Step)
    ensures
        s@ == fail2(message@),
{
    Step::Fail { message, usage: false, code: 2 }
}

/// `lit` followed by `tail`.
pub fn concat_str(lit: &str, tail: &String) -> (s: String)
    ensures
        s@ == lit@ + tail@,
{
    let mut s = string_from(lit);
    s.append(tail.as_str());
    s
}

/// The arguments after the first one.
pub fn rest_of(args: &[String]) -> (r: &[String])
    requires
        args@.len() >= 1,
    ensures
        views(r@) == views(args@).skip(1),
{
    let r = &args[1..args.len()];
    assert(views(r@) =~= views(args@).skip(1));
    r
}

/// The argument at `i`, if any.
pub fn get_arg(args: &[String], i: usize) -> (r: Option<&String>)
    ensures
        match r {
            Some(a) => arg_at(views(args@), i as int) == Some(a@),
            None => arg_at(views(args@), i as int) is None,
        },
{
    if i < args.len() {
        Some(&args[i])
    } else {
        None
    }
}

/// The nearest of a run of probes that found something: the first index
/// whose probe is true, with none before it; `None` when none is.
pub fn first_found(probes: &[bool]) -> (r: Option<usize>)
    ensures
        match r {
            Some(i) => i < probes@.len() && probes@[i as int] && forall|j: int|
                0 <= j < i ==> !probes@[j],
            None => forall|j: int| 0 <= j < probes@.len() ==> !probes@[j],
        },
{
    let mut i: usize = 0;
    while i < probes.len()
        invariant
            i <= probes@.len(),
            forall|j: int| 0 <= j < i ==> !probes@[j],
        decreases probes@.len() - i,
    {
        if probes[i] {
            return Some(i);
        }
        i = i + 1;
    }
    None
}

/// A copy of the arguments `args`.
pub fn copy_args(args: &[String]) -> (r: Vec<String>)
    ensures
        views(r@) == views(args@),
{
    let mut out: Vec<String> = Vec::new();
    let mut i: usize = 0;
    while i < args.len()
        invariant
            i <= args@.len(),
            views(out@) == views(args@).subrange(0, i as int),
        decreases args@.len() - i,
    {
        let ghost before = out@;
        out.push(args[i].clone());
        assert(views(out@) =~= views(before).push(args@[i as int]@));
        i = i + 1;
    }
    assert(views(args@).subrange(0, args@.len() as int) =~= views(args@));
    out
}

/// `head` followed by the arguments `tail`.
pub fn prepend(head: &str, tail: &[String]) -> (r: Vec<String>)
    ensures
        views(r@) == seq![head@] + views(tail@),
{
    let mut out: Vec<String> = Vec::new();
    out.push(string_from(head));
    let mut i: usize = 0;
    while i < tail.len()
        invariant
            i <= tail@.len(),
            views(out@) == seq![head@] + views(tail@).subrange(0, i as int),
        decreases tail@.len() - i,
    {
        let ghost before = out@;
        out.push(tail[i].clone());
        assert(views(out@) =~= views(before).push(tail@[i as int]@));
        assert(seq![head@] + views(tail@).subrange(0, i + 1) =~= (seq![head@] + views(
            tail@,
        ).subrange(0, i as int)).push(tail@[i as int]@));
        i = i + 1;
    }
    assert(views(tail@).subrange(0, tail@.len() as int) =~= views(tail@));
    out
}

/// `args` without the first `flag`, and whether there was one.
pub open spec fn without_flag(args: Seq<Seq<char>>, flag: Seq<char>) -> (Seq<Seq<char>>, bool) {
    let i = word_index(args, flag);
    if i < 0 {
        (args, false)
    } else {
        (args.remove(i), true)
    }
}

/// Removes the first `flag` from `args`; true when there was one.
pub fn take_flag(args: &mut Vec<String>, flag: &str) -> (found: bool)
    ensures
        (views(final(args)@), found) == without_flag(views(old(args)@), flag@),
{
    match find_word(args.as_slice(), flag) {
        Some(pos) => {
            let ghost before = args@;
            args.remove(pos);
            assert(views(args@) =~= views(before).remove(pos as int));
            true
        },
        None => false,
    }
}

/// The dry-run request among `args`: `--dry-run`, or else its alias
/// `--print-command`, is taken out; the second is looked for only when the
/// first is absent.
pub open spec fn dry_run_request(args: Seq<Seq<char>>) -> (Seq<Seq<char>>, bool) {
    let first = without_flag(args, "--dry-run"@);
    if first.1 {
        first
    } else {
        without_flag(args, "--print-command"@)
    }
}

/// Takes the dry-run flag out of `args`; true when it was given.
pub fn take_dry_run(args: &mut Vec<String>) -> (dry_run: bool)
    ensures
        (views(final(args)@), dry_run) == dry_run_request(views(old(args)@)),
{
    take_flag(args, "--dry-run") || take_flag(args, "--print-command")
}

/// Either spelling asks for a dry run. When one is given, the arguments
/// left are the given ones with exactly one argument taken out: the first
/// `--dry-run`, or, when there is none, the first `--print-command`; every
/// other argument keeps its place and order. When neither is given the
/// arguments are left as they are.
pub proof fn lemma_dry_run_aliases(args: Seq<Seq<char>>)
    ensures
        dry_run_request(args).1 <==> (args.contains("--dry-run"@) || args.contains(
            "--print-command"@,
        )),
        dry_run_request(args).1 ==> exists|i: int|
            0 <= i < args.len() && dry_run_request(args).0 == args.remove(i) && (if args.contains(
                "--dry-run"@,
            ) {
                args[i] == "--dry-run"@ && forall|j: int| 0 <= j < i ==> args[j] != "--dry-run"@
            } else {
                args[i] == "--print-command"@ && forall|j: int|
                    0 <= j < i ==> args[j] != "--print-command"@
            }),
        !dry_run_request(args).1 ==> dry_run_request(args).0 == args,
{
    lemma_word_index_contains(args, "--dry-run"@);
    lemma_word_index_contains(args, "--print-command"@);
    if args.contains("--dry-run"@) {
        let i = word_index(args, "--dry-run"@);
        assert(0 <= i < args.len() && dry_run_request(args).0 == args.remove(i));
    } else if args.contains("--print-command"@) {
        let i = word_index(args, "--print-command"@);
        assert(0 <= i < args.len() && dry_run_request(args).0 == args.remove(i));
    }
}

/// A word occurs exactly when it has a first index.
pub proof fn lemma_word_index_contains(args: Seq<Seq<char>>, w: Seq<char>)
    ensures
        -1 <= word_index(args, w) < args.len(),
        word_index(args, w) >= 0 <==> args.contains(w),
        word_index(args, w) >= 0 ==> args[word_index(args, w)] == w,
        forall|j: int| 0 <= j < word_index(args, w) ==> args[j] != w,
{
    lemma_word_index_facts(args, w);
}

/// Taking a flag out removes exactly its first occurrence and reports that
/// it was there; a flag that is not there leaves the arguments as they are.
pub proof fn lemma_take_flag(args: Seq<Seq<char>>, flag: Seq<char>)
    ensures
        without_flag(args, flag).1 <==> args.contains(flag),
        !args.contains(flag) ==> without_flag(args, flag).0 == args,
        args.contains(flag) ==> exists|i: int|
            0 <= i < args.len() && args[i] == flag && (forall|j: int|
                0 <= j < i ==> args[j] != flag) && without_flag(args, flag).0 == args.remove(i),
{
    lemma_word_index_facts(args, flag);
}

} // verus!
