//! The executor that runs inside `yx-env`: the layer commands of the
//! environment, of kas and of BitBake.
use vstd::prelude::*;
use crate::cmd::{CmdSpec, CmdView};
use crate::config::{opt_view, ConfigView, ProjectConfig};
use crate::env::{EnvState, YX_PROTOCOL};
use crate::plan::{
    arg_at, command, command_line, concat_str, copy_args, fail2, fail_with, get_arg, layer_env, prepend,
    rest_of, Step, StepView,
};
use crate::shell::{
    after_double_dash, double_dash_index, find_word, is_control, join_shell_words, json_decode,
    json_escape, json_escaped, lemma_join_shell_words_round_trip, lemma_json_escape_round_trip,
    lemma_word_index, shell_words, split_after_double_dash, views,
};
use crate::text::{decimal, decimal_digits, push_char, string_from, string_is};

verus! {

/// `kas shell <kas_file> -c <line>` in the kas layer.
pub open spec fn kas_shell_run(kas_file: Seq<char>, line: Seq<char>) -> CmdView {
    command("kas"@, seq!["shell"@, kas_file, "-c"@, line], layer_env("kas"@))
}

/// `bitbake <args>` run through the default kas file's shell.
pub open spec fn bitbake_plan(cfg: ConfigView, args: Seq<Seq<char>>) -> CmdView {
    kas_shell_run(cfg.kas_default, command_line(seq!["bitbake"@] + args))
}

/// The kas file named at `args[i]`, or the configured default.
pub open spec fn kas_file_at(cfg: ConfigView, args: Seq<Seq<char>>, i: int) -> Seq<char> {
    match arg_at(args, i) {
        Some(f) => f,
        None => cfg.kas_default,
    }
}

/// `yx devshell <recipe>`: `bitbake -c devshell <recipe>`.
pub open spec fn devshell_plan(cfg: ConfigView, args: Seq<Seq<char>>) -> StepView {
    if args.len() == 0 {
        fail2("usage: yx devshell <recipe>"@)
    } else {
        StepView::Run(bitbake_plan(cfg, seq!["-c"@, "devshell"@, args[0]]))
    }
}

/// `yx build [target]`: `bitbake <target>`, the configured default target
/// when none is given.
pub open spec fn build_plan(cfg: ConfigView, args: Seq<Seq<char>>) -> CmdView {
    let target = if args.len() == 0 {
        cfg.default_target
    } else {
        args[0]
    };
    bitbake_plan(cfg, seq![target])
}

/// The per-repository command that prints each repository's name and
/// checked-out revision.
pub open spec fn manifest_script() -> Seq<char> {
    "printf '%s ' \"$KAS_REPO_NAME\"; git rev-parse HEAD"@
}

/// `yx manifest [kas.yml]`.
pub open spec fn manifest_plan(cfg: ConfigView, args: Seq<Seq<char>>) -> CmdView {
    command("kas"@, seq!["for-all-repos"@, kas_file_at(cfg, args, 0), manifest_script()], seq![])
}

/// A command given as words, run with `YX_LAYER` set to `layer`.
pub open spec fn passthrough_plan(cmd: Seq<Seq<char>>, layer: Seq<char>) -> StepView {
    if cmd.len() == 0 {
        fail2("usage: yx env exec -- <command> [args...]"@)
    } else {
        StepView::Run(command(cmd[0], cmd.skip(1), layer_env(layer)))
    }
}

/// The kas subcommands that take an optional kas file and nothing else.
pub open spec fn is_kas_action(sub: Seq<char>) -> bool {
    ||| sub == "build"@
    ||| sub == "checkout"@
    ||| sub == "dump"@
    ||| sub == "lock"@
    ||| sub == "menu"@
    ||| sub == "clean"@
    ||| sub == "cleanall"@
    ||| sub == "purge"@
}

/// The kas file of `yx kas for-all-repos [kas.yml] -- <command>`: the word
/// after the subcommand when a `--` follows it, otherwise the configured
/// default.
pub open spec fn repos_kas_file(cfg: ConfigView, args: Seq<Seq<char>>) -> Seq<char> {
    if double_dash_index(args.skip(1)) >= 1 {
        args[1]
    } else {
        cfg.kas_default
    }
}

/// `yx kas <subcommand> ...`.
pub open spec fn kas_plan(cfg: ConfigView, args: Seq<Seq<char>>) -> StepView {
    if args.len() == 0 {
        fail2("usage: yx kas <shell|exec|build|checkout|dump|lock|for-all-repos> ..."@)
    } else {
        let sub = args[0];
        if sub == "shell"@ {
            StepView::Run(
                command("kas"@, seq!["shell"@, kas_file_at(cfg, args, 1)], layer_env("kas"@)),
            )
        } else if sub == "exec"@ {
            let cmd = after_double_dash(args.skip(1));
            if cmd.len() == 0 {
                fail2("usage: yx kas exec -- <command> [args...]"@)
            } else {
                StepView::Run(kas_shell_run(cfg.kas_default, command_line(cmd)))
            }
        } else if is_kas_action(sub) {
            StepView::Run(command("kas"@, seq![sub, kas_file_at(cfg, args, 1)], seq![]))
        } else if sub == "for-all-repos"@ {
            let rest = after_double_dash(args.skip(1));
            if rest.len() == 0 {
                fail2("usage: yx kas for-all-repos [kas.yml] -- <command>"@)
            } else {
                StepView::Run(
                    command(
                        "kas"@,
                        seq!["for-all-repos"@, repos_kas_file(cfg, args), command_line(rest)],
                        seq![],
                    ),
                )
            }
        } else {
            fail2("yx kas: unknown subcommand: "@ + sub)
        }
    }
}

/// `yx env <subcommand> ...` inside the environment; `shell` is `$SHELL`.
pub open spec fn env_plan(args: Seq<Seq<char>>, shell: Option<Seq<char>>) -> StepView {
    if args.len() == 0 || args[0] == "info"@ {
        StepView::Info
    } else if args[0] == "doctor"@ {
        StepView::Doctor
    } else if args[0] == "shell"@ {
        let program = match shell {
            Some(s) => s,
            None => "bash"@,
        };
        StepView::Run(command(program, seq![], layer_env("env"@)))
    } else if args[0] == "exec"@ {
        passthrough_plan(after_double_dash(args.skip(1)), "env"@)
    } else {
        fail2("yx env: unknown subcommand: "@ + args[0])
    }
}

/// What the executor does for its command line `args` (flags taken out).
pub open spec fn internal_plan(cfg: ConfigView, args: Seq<Seq<char>>, shell: Option<Seq<char>>) -> StepView {
    if args.len() == 0 {
        StepView::Usage
    } else {
        let c = args[0];
        let rest = args.skip(1);
        if c == "--internal-handshake"@ || c == "__handshake"@ {
            StepView::Handshake
        } else if c == "env"@ {
            env_plan(rest, shell)
        } else if c == "kas"@ {
            kas_plan(cfg, rest)
        } else if c == "bitbake"@ {
            StepView::Run(bitbake_plan(cfg, rest))
        } else if c == "devshell"@ {
            devshell_plan(cfg, rest)
        } else if c == "build"@ {
            StepView::Run(build_plan(cfg, rest))
        } else if c == "manifest"@ {
            StepView::Run(manifest_plan(cfg, rest))
        } else if c == "doctor"@ {
            StepView::Doctor
        } else if c == "help"@ || c == "--help"@ || c == "-h"@ {
            StepView::Usage
        } else {
            StepView::Fail("yx-internal: unknown command: "@ + c, true, 2)
        }
    }
}

/// `yx build [target]` is `yx bitbake <target>`, with the configured
/// default target when none is given; `yx devshell <recipe>` is
/// `yx bitbake -c devshell <recipe>`.
pub proof fn lemma_shortcuts_are_bitbake(cfg: ConfigView, args: Seq<Seq<char>>)
    ensures
        args.len() == 0 ==> build_plan(cfg, args) == bitbake_plan(cfg, seq![cfg.default_target]),
        args.len() > 0 ==> build_plan(cfg, args) == bitbake_plan(cfg, seq![args[0]]),
        args.len() > 0 ==> devshell_plan(cfg, args) == StepView::Run(
            bitbake_plan(cfg, seq!["-c"@, "devshell"@, args[0]]),
        ),
{
}

/// `yx bitbake <args>` runs `kas shell <default kas file> -c <line>` in the
/// kas layer, and a shell reads `<line>` as `bitbake` followed by exactly
/// the given arguments (each nonempty).
pub proof fn lemma_bitbake_in_kas_context(cfg: ConfigView, args: Seq<Seq<char>>)
    requires
        forall|i: int| 0 <= i < args.len() ==> #[trigger] args[i].len() > 0,
    ensures
        bitbake_plan(cfg, args).program == "kas"@,
        bitbake_plan(cfg, args).args.len() == 4,
        bitbake_plan(cfg, args).args[0] == "shell"@,
        bitbake_plan(cfg, args).args[1] == cfg.kas_default,
        bitbake_plan(cfg, args).args[2] == "-c"@,
        shell_words(bitbake_plan(cfg, args).args[3]) == seq!["bitbake"@] + args,
        bitbake_plan(cfg, args).envs == seq![("YX_LAYER"@, "kas"@)],
        bitbake_plan(cfg, args).cwd is None,
{
    reveal_strlit("bitbake");
    let w = seq!["bitbake"@] + args;
    assert forall|i: int| 0 <= i < w.len() implies #[trigger] w[i].len() > 0 by {
        if i > 0 {
            assert(w[i] == args[i - 1]);
        }
    }
    lemma_join_shell_words_round_trip(w);
}

/// `yx build [target]` runs, in the kas context, a line that a shell reads
/// as `bitbake <target>`, the configured default target when none is given.
pub proof fn lemma_build_runs_bitbake_target(cfg: ConfigView, args: Seq<Seq<char>>)
    requires
        args.len() > 0 ==> args[0].len() > 0,
        args.len() == 0 ==> cfg.default_target.len() > 0,
    ensures
        build_plan(cfg, args).program == "kas"@,
        build_plan(cfg, args).args[1] == cfg.kas_default,
        shell_words(build_plan(cfg, args).args[3]) == seq![
            "bitbake"@,
            if args.len() == 0 {
                cfg.default_target
            } else {
                args[0]
            },
        ],
{
    let t = if args.len() == 0 {
        cfg.default_target
    } else {
        args[0]
    };
    lemma_bitbake_in_kas_context(cfg, seq![t]);
    assert(seq!["bitbake"@] + seq![t] =~= seq!["bitbake"@, t]);
}

/// `yx devshell <recipe>` runs, in the kas context, a line that a shell
/// reads as `bitbake -c devshell <recipe>`; without a recipe it fails with
/// status 2.
pub proof fn lemma_devshell_runs_bitbake(cfg: ConfigView, args: Seq<Seq<char>>)
    ensures
        args.len() == 0 ==> (devshell_plan(cfg, args) matches StepView::Fail(_, false, 2)),
        args.len() > 0 && args[0].len() > 0 ==> (devshell_plan(cfg, args) matches StepView::Run(c)
            && c.program == "kas"@ && shell_words(c.args[3]) == seq![
            "bitbake"@,
            "-c"@,
            "devshell"@,
            args[0],
        ]),
{
    if args.len() > 0 && args[0].len() > 0 {
        reveal_strlit("-c");
        reveal_strlit("devshell");
        let w = seq!["-c"@, "devshell"@, args[0]];
        assert forall|i: int| 0 <= i < w.len() implies #[trigger] w[i].len() > 0 by {}
        lemma_bitbake_in_kas_context(cfg, w);
        assert(seq!["bitbake"@] + w =~= seq!["bitbake"@, "-c"@, "devshell"@, args[0]]);
    }
}

/// `yx kas exec -- <command>` runs `kas shell <default kas file> -c <line>`
/// in the kas layer, and a shell reads `<line>` as exactly the words after
/// the first `--` (each nonempty).
pub proof fn lemma_kas_exec_runs_command(cfg: ConfigView, args: Seq<Seq<char>>)
    requires
        args.len() > 0,
        args[0] == "exec"@,
        after_double_dash(args.skip(1)).len() > 0,
        forall|i: int|
            0 <= i < after_double_dash(args.skip(1)).len() ==> #[trigger] after_double_dash(
                args.skip(1),
            )[i].len() > 0,
    ensures
        kas_plan(cfg, args) matches StepView::Run(c) && c.program == "kas"@ && c.args.len() == 4
            && c.args[0] == "shell"@ && c.args[1] == cfg.kas_default && c.args[2] == "-c"@
            && shell_words(c.args[3]) == after_double_dash(args.skip(1)) && c.envs == seq![
            ("YX_LAYER"@, "kas"@),
        ],
{
    reveal_strlit("exec");
    reveal_strlit("shell");
    assert("exec"@.len() == 4 && "shell"@.len() == 5);
    lemma_join_shell_words_round_trip(after_double_dash(args.skip(1)));
}

/// `yx kas for-all-repos [kas.yml] -- <command>` runs `kas for-all-repos`
/// with the kas file named before `--` (or the default) and a line that a
/// shell reads as exactly the words after the first `--` (each nonempty).
pub proof fn lemma_for_all_repos_runs_command(cfg: ConfigView, args: Seq<Seq<char>>)
    requires
        args.len() > 1,
        args[0] == "for-all-repos"@,
        args[2] == "--"@,
        args[1] != "--"@,
        args.len() > 3,
        forall|i: int| 3 <= i < args.len() ==> #[trigger] args[i].len() > 0,
    ensures
        kas_plan(cfg, args) matches StepView::Run(c) && c.program == "kas"@ && c.args.len() == 3
            && c.args[0] == "for-all-repos"@ && c.args[1] == args[1] && shell_words(c.args[2])
            == args.skip(3),
{
    reveal_strlit("for-all-repos");
    reveal_strlit("shell");
    reveal_strlit("exec");
    reveal_strlit("build");
    reveal_strlit("checkout");
    reveal_strlit("dump");
    reveal_strlit("lock");
    reveal_strlit("menu");
    reveal_strlit("clean");
    reveal_strlit("cleanall");
    reveal_strlit("purge");
    assert("for-all-repos"@.len() == 13);
    assert(args[0] != "shell"@ && args[0] != "exec"@ && !is_kas_action(args[0]));
    let rest = args.skip(1);
    assert(rest[0] != "--"@ && rest[1] == "--"@);
    lemma_word_index(rest, "--"@, 1);
    assert(after_double_dash(rest) =~= args.skip(3));
    assert forall|i: int| 0 <= i < args.skip(3).len() implies #[trigger] args.skip(3)[i].len()
        > 0 by {
        assert(args.skip(3)[i] == args[i + 3]);
    }
    lemma_join_shell_words_round_trip(args.skip(3));
}

/// `yx env exec -- <command> [args...]` runs the command given after the
/// first `--` with its arguments, in the env layer; with no command it
/// fails with status 2.
pub proof fn lemma_env_exec_runs_command(args: Seq<Seq<char>>, shell: Option<Seq<char>>)
    requires
        args.len() > 0,
        args[0] == "exec"@,
    ensures
        after_double_dash(args.skip(1)).len() == 0 ==> (env_plan(args, shell) matches StepView::Fail(
            _,
            false,
            2,
        )),
        after_double_dash(args.skip(1)).len() > 0 ==> (env_plan(args, shell) matches StepView::Run(c)
            && c.program == after_double_dash(args.skip(1))[0] && seq![c.program] + c.args
            == after_double_dash(args.skip(1)) && c.envs == seq![("YX_LAYER"@, "env"@)]),
{
    reveal_strlit("exec");
    reveal_strlit("info");
    reveal_strlit("doctor");
    reveal_strlit("shell");
    assert("exec"@.len() == 4 && "info"@.len() == 4 && "exec"@[0] == 'e' && "info"@[0] == 'i');
    assert("doctor"@.len() == 6 && "shell"@.len() == 5);
    let cmd = after_double_dash(args.skip(1));
    if cmd.len() > 0 {
        assert(seq![cmd[0]] + cmd.skip(1) =~= cmd);
    }
}

/// The executor's routes: the handshake under either spelling, the doctor,
/// and each layer command with the arguments after it; `yx env` and `yx
/// env info` print the report and `yx env doctor` runs the doctor.
pub proof fn lemma_executor_routes(cfg: ConfigView, args: Seq<Seq<char>>, shell: Option<Seq<char>>)
    requires
        args.len() > 0,
    ensures
        args[0] == "--internal-handshake"@ || args[0] == "__handshake"@ ==> internal_plan(
            cfg,
            args,
            shell,
        ) == StepView::Handshake,
        args[0] == "doctor"@ ==> internal_plan(cfg, args, shell) == StepView::Doctor,
        args[0] == "bitbake"@ ==> internal_plan(cfg, args, shell) == StepView::Run(
            bitbake_plan(cfg, args.skip(1)),
        ),
        args[0] == "build"@ ==> internal_plan(cfg, args, shell) == StepView::Run(
            build_plan(cfg, args.skip(1)),
        ),
        args[0] == "devshell"@ ==> internal_plan(cfg, args, shell) == devshell_plan(
            cfg,
            args.skip(1),
        ),
        args[0] == "manifest"@ ==> internal_plan(cfg, args, shell) == StepView::Run(
            manifest_plan(cfg, args.skip(1)),
        ),
        args[0] == "kas"@ ==> internal_plan(cfg, args, shell) == kas_plan(cfg, args.skip(1)),
        (args.len() == 1 && args[0] == "env"@) || (args.len() > 1 && args[0] == "env"@ && args[1]
            == "info"@) ==> internal_plan(cfg, args, shell) == StepView::Info,
        args.len() > 1 && args[0] == "env"@ && args[1] == "doctor"@ ==> internal_plan(
            cfg,
            args,
            shell,
        ) == StepView::Doctor,
{
    reveal_strlit("--internal-handshake");
    reveal_strlit("__handshake");
    reveal_strlit("env");
    reveal_strlit("kas");
    reveal_strlit("bitbake");
    reveal_strlit("devshell");
    reveal_strlit("build");
    reveal_strlit("manifest");
    reveal_strlit("doctor");
    reveal_strlit("info");
    reveal_strlit("shell");
    reveal_strlit("exec");
    assert("--internal-handshake"@.len() == 20 && "--internal-handshake"@[0] == '-');
    assert("__handshake"@.len() == 11 && "__handshake"@[0] == '_');
    assert("env"@.len() == 3 && "env"@[0] == 'e');
    assert("kas"@.len() == 3 && "kas"@[0] == 'k');
    assert("bitbake"@.len() == 7 && "bitbake"@[0] == 'b');
    assert("devshell"@.len() == 8 && "devshell"@[0] == 'd');
    assert("build"@.len() == 5 && "build"@[0] == 'b');
    assert("manifest"@.len() == 8 && "manifest"@[0] == 'm');
    assert("doctor"@.len() == 6 && "doctor"@[0] == 'd');
    assert("info"@.len() == 4 && "info"@[0] == 'i');
    assert("shell"@.len() == 5 && "shell"@[0] == 's');
    assert("exec"@.len() == 4 && "exec"@[0] == 'e');
    assert("devshell"@[1] == 'e' && "manifest"@[1] == 'a');
    if args.len() > 1 {
        assert(args.skip(1)[0] == args[1]);
    }
}

/// The kas actions (`build`, `checkout`, `dump`, `lock`, `menu`, `clean`,
/// `cleanall`, `purge`) run `kas <action> <kas file>` and `shell` runs `kas
/// shell <kas file>` in the kas layer, where the kas file is the one given
/// after the subcommand or the configured default; `manifest` runs `kas
/// for-all-repos` on that file with the command that prints each
/// repository's name and revision.
pub proof fn lemma_kas_subcommands(cfg: ConfigView, args: Seq<Seq<char>>)
    requires
        args.len() > 0,
    ensures
        (args[0] == "build"@ || args[0] == "checkout"@ || args[0] == "dump"@ || args[0] == "lock"@
            || args[0] == "menu"@ || args[0] == "clean"@ || args[0] == "cleanall"@ || args[0]
            == "purge"@) ==> kas_plan(cfg, args) == StepView::Run(
            CmdView {
                program: "kas"@,
                args: seq![
                    args[0],
                    if args.len() > 1 {
                        args[1]
                    } else {
                        cfg.kas_default
                    },
                ],
                cwd: None,
                envs: seq![],
            },
        ),
        args[0] == "shell"@ ==> kas_plan(cfg, args) == StepView::Run(
            CmdView {
                program: "kas"@,
                args: seq![
                    "shell"@,
                    if args.len() > 1 {
                        args[1]
                    } else {
                        cfg.kas_default
                    },
                ],
                cwd: None,
                envs: seq![("YX_LAYER"@, "kas"@)],
            },
        ),
        manifest_plan(cfg, seq![]) == (CmdView {
            program: "kas"@,
            args: seq![
                "for-all-repos"@,
                cfg.kas_default,
                "printf '%s ' \"$KAS_REPO_NAME\"; git rev-parse HEAD"@,
            ],
            cwd: None,
            envs: seq![],
        }),
        manifest_plan(cfg, args) == (CmdView {
            program: "kas"@,
            args: seq![
                "for-all-repos"@,
                args[0],
                "printf '%s ' \"$KAS_REPO_NAME\"; git rev-parse HEAD"@,
            ],
            cwd: None,
            envs: seq![],
        }),
{
    reveal_strlit("shell");
    reveal_strlit("exec");
    reveal_strlit("build");
    reveal_strlit("checkout");
    reveal_strlit("dump");
    reveal_strlit("lock");
    reveal_strlit("menu");
    reveal_strlit("clean");
    reveal_strlit("cleanall");
    reveal_strlit("purge");
    reveal_strlit("for-all-repos");
    assert("shell"@.len() == 5 && "shell"@[0] == 's');
    assert("exec"@.len() == 4 && "exec"@[0] == 'e');
    assert("build"@.len() == 5 && "build"@[0] == 'b');
    assert("checkout"@.len() == 8 && "checkout"@[0] == 'c');
    assert("dump"@.len() == 4 && "dump"@[0] == 'd');
    assert("lock"@.len() == 4 && "lock"@[0] == 'l');
    assert("menu"@.len() == 4 && "menu"@[0] == 'm');
    assert("clean"@.len() == 5 && "clean"@[0] == 'c');
    assert("cleanall"@.len() == 8 && "cleanall"@[0] == 'c');
    assert("purge"@.len() == 5 && "purge"@[0] == 'p');
    assert("for-all-repos"@.len() == 13 && "for-all-repos"@[0] == 'f');
    assert("exec"@[1] == 'x' && "clean"@[1] == 'l' && "checkout"@[1] == 'h');
    assert("cleanall"@[1] == 'l');
}

/// The executor answers a command it does not know with a message, the
/// usage text and exit status 2.
pub proof fn lemma_internal_unknown_command(cfg: ConfigView, args: Seq<Seq<char>>, shell: Option<Seq<char>>)
    requires
        args.len() > 0,
        !(args[0] == "--internal-handshake"@ || args[0] == "__handshake"@ || args[0] == "env"@
            || args[0] == "kas"@ || args[0] == "bitbake"@ || args[0] == "devshell"@ || args[0]
            == "build"@ || args[0] == "manifest"@ || args[0] == "doctor"@ || args[0] == "help"@
            || args[0] == "--help"@ || args[0] == "-h"@),
    ensures
        internal_plan(cfg, args, shell) == StepView::Fail(
            "yx-internal: unknown command: "@ + args[0],
            true,
            2,
        ),
{
}

/// `help`, `--help` or `-h` first, or no command at all, gives the usage
/// text and status 0.
pub proof fn lemma_internal_help(cfg: ConfigView, args: Seq<Seq<char>>, shell: Option<Seq<char>>)
    requires
        args.len() == 0 || args[0] == "help"@ || args[0] == "--help"@ || args[0] == "-h"@,
    ensures
        internal_plan(cfg, args, shell) == StepView::Usage,
{
    reveal_strlit("help");
    reveal_strlit("--help");
    reveal_strlit("-h");
    reveal_strlit("--internal-handshake");
    reveal_strlit("__handshake");
    reveal_strlit("env");
    reveal_strlit("kas");
    reveal_strlit("bitbake");
    reveal_strlit("devshell");
    reveal_strlit("build");
    reveal_strlit("manifest");
    reveal_strlit("doctor");
    if args.len() > 0 {
        let c = args[0];
        assert(c.len() == 4 || c.len() == 6 || c.len() == 2);
        assert(c[0] == 'h' || c[0] == '-');
        assert(c != "--internal-handshake"@ && c != "__handshake"@ && c != "env"@ && c != "kas"@);
        assert(c != "bitbake"@ && c != "devshell"@ && c != "build"@ && c != "manifest"@);
        assert(c != "doctor"@);
    }
}

/// `kas shell <kas_file> -c <line>` in the kas layer.
fn kas_shell(kas_file: String, line: String) -> (c: CmdSpec)
    ensures
        c@ == kas_shell_run(kas_file@, line@),
{
    CmdSpec::new(string_from("kas")).arg(string_from("shell")).arg(kas_file).arg(
        string_from("-c"),
    ).arg(line).env(string_from("YX_LAYER"), string_from("kas"))
}

/// Runs `bitbake` with `args` through the kas shell of the default kas file.
pub fn bitbake_cmd(cfg: &ProjectConfig, args: &[String]) -> (c: CmdSpec)
    ensures
        c@ == bitbake_plan(cfg@, views(args@)),
{
    let words = prepend("bitbake", args);
    let line = join_shell_words(words.as_slice());
    kas_shell(cfg.kas_default.clone(), line)
}

/// Opens a devshell for the recipe named first in `args`.
pub fn devshell_cmd(cfg: &ProjectConfig, args: &[String]) -> (s: Step)
    ensures
        s@ == devshell_plan(cfg@, views(args@)),
{
    if args.len() == 0 {
        return fail_with(string_from("usage: yx devshell <recipe>"));
    }
    let mut words: Vec<String> = Vec::new();
    words.push(string_from("-c"));
    words.push(string_from("devshell"));
    words.push(args[0].clone());
    assert(views(words@) =~= seq!["-c"@, "devshell"@, views(args@)[0]]);
    Step::Run(bitbake_cmd(cfg, words.as_slice()))
}

/// Builds the target named first in `args`, or the default target.
pub fn build_cmd(cfg: &ProjectConfig, args: &[String]) -> (c: CmdSpec)
    ensures
        c@ == build_plan(cfg@, views(args@)),
{
    let target = if args.len() == 0 {
        cfg.default_target.clone()
    } else {
        args[0].clone()
    };
    let mut words: Vec<String> = Vec::new();
    words.push(target);
    assert(views(words@) =~= seq![words@[0]@]);
    bitbake_cmd(cfg, words.as_slice())
}

/// Prints the name and revision of each repository of the kas file named
/// first in `args`, or of the default one.
pub fn manifest_cmd(cfg: &ProjectConfig, args: &[String]) -> (c: CmdSpec)
    ensures
        c@ == manifest_plan(cfg@, views(args@)),
{
    let kas_file = cfg.kas_file(get_arg(args, 0));
    CmdSpec::new(string_from("kas")).arg(string_from("for-all-repos")).arg(kas_file).arg(
        string_from("printf '%s ' \"$KAS_REPO_NAME\"; git rev-parse HEAD"),
    )
}

/// Runs the command `cmd` (program first) with `YX_LAYER` set to `layer`.
pub fn run_passthrough(cmd: &[String], layer: &str) -> (s: Step)
    ensures
        s@ == passthrough_plan(views(cmd@), layer@),
{
    if cmd.len() == 0 {
        return fail_with(string_from("usage: yx env exec -- <command> [args...]"));
    }
    let rest = copy_args(rest_of(cmd));
    Step::Run(
        CmdSpec::new(cmd[0].clone()).args(rest).env(string_from("YX_LAYER"), string_from(layer)),
    )
}

/// Whether `sub` is a kas subcommand that takes only an optional kas file.
fn kas_action(sub: &String) -> (b: bool)
    ensures
        b == is_kas_action(sub@),
{
    string_is(sub, "build") || string_is(sub, "checkout") || string_is(sub, "dump")
        || string_is(sub, "lock") || string_is(sub, "menu") || string_is(sub, "clean")
        || string_is(sub, "cleanall") || string_is(sub, "purge")
}

/// `yx kas <subcommand> ...`: enters the kas shell, runs a command in it,
/// runs one of kas's own actions, or runs a command in every repository.
pub fn kas_cmd(cfg: &ProjectConfig, args: &[String]) -> (s: Step)
    ensures
        s@ == kas_plan(cfg@, views(args@)),
{
    if args.len() == 0 {
        return fail_with(
            string_from("usage: yx kas <shell|exec|build|checkout|dump|lock|for-all-repos> ..."),
        );
    }
    let sub = &args[0];
    if string_is(sub, "shell") {
        let kas_file = cfg.kas_file(get_arg(args, 1));
        Step::Run(
            CmdSpec::new(string_from("kas")).arg(string_from("shell")).arg(kas_file).env(
                string_from("YX_LAYER"),
                string_from("kas"),
            ),
        )
    } else if string_is(sub, "exec") {
        let cmd = split_after_double_dash(rest_of(args));
        if cmd.len() == 0 {
            return fail_with(string_from("usage: yx kas exec -- <command> [args...]"));
        }
        let line = join_shell_words(cmd.as_slice());
        Step::Run(kas_shell(cfg.kas_default.clone(), line))
    } else if kas_action(sub) {
        let kas_file = cfg.kas_file(get_arg(args, 1));
        Step::Run(CmdSpec::new(string_from("kas")).arg(sub.clone()).arg(kas_file))
    } else if string_is(sub, "for-all-repos") {
        let rest = split_after_double_dash(rest_of(args));
        if rest.len() == 0 {
            return fail_with(string_from("usage: yx kas for-all-repos [kas.yml] -- <command>"));
        }
        let kas_file = match find_word(rest_of(args), "--") {
            Some(i) => if i >= 1 {
                args[1].clone()
            } else {
                cfg.kas_default.clone()
            },
            None => cfg.kas_default.clone(),
        };
        let line = join_shell_words(rest.as_slice());
        Step::Run(
            CmdSpec::new(string_from("kas")).arg(string_from("for-all-repos")).arg(kas_file).arg(
                line,
            ),
        )
    } else {
        fail_with(concat_str("yx kas: unknown subcommand: ", sub))
    }
}

/// `yx env <subcommand> ...` inside the environment; `shell` is the value
/// of `SHELL`, if set.
pub fn env_cmd(args: &[String], shell: Option<String>) -> (s: Step)
    ensures
        s@ == env_plan(views(args@), opt_view(shell)),
{
    if args.len() == 0 || string_is(&args[0], "info") {
        Step::Info
    } else if string_is(&args[0], "doctor") {
        Step::Doctor
    } else if string_is(&args[0], "shell") {
        let program = match shell {
            Some(s) => s,
            None => string_from("bash"),
        };
        Step::Run(CmdSpec::new(program).env(string_from("YX_LAYER"), string_from("env")))
    } else if string_is(&args[0], "exec") {
        let cmd = split_after_double_dash(rest_of(args));
        run_passthrough(cmd.as_slice(), "env")
    } else {
        fail_with(concat_str("yx env: unknown subcommand: ", &args[0]))
    }
}

/// What the executor does for its command line `args` (flags taken out);
/// `shell` is the value of `SHELL`, if set.
pub fn dispatch(cfg: &ProjectConfig, args: &[String], shell: Option<String>) -> (s: Step)
    ensures
        s@ == internal_plan(cfg@, views(args@), opt_view(shell)),
{
    if args.len() == 0 {
        return Step::Usage;
    }
    let c = &args[0];
    let rest = rest_of(args);
    if string_is(c, "--internal-handshake") || string_is(c, "__handshake") {
        Step::Handshake
    } else if string_is(c, "env") {
        env_cmd(rest, shell)
    } else if string_is(c, "kas") {
        kas_cmd(cfg, rest)
    } else if string_is(c, "bitbake") {
        Step::Run(bitbake_cmd(cfg, rest))
    } else if string_is(c, "devshell") {
        devshell_cmd(cfg, rest)
    } else if string_is(c, "build") {
        Step::Run(build_cmd(cfg, rest))
    } else if string_is(c, "manifest") {
        Step::Run(manifest_cmd(cfg, rest))
    } else if string_is(c, "doctor") {
        Step::Doctor
    } else if string_is(c, "help") || string_is(c, "--help") || string_is(c, "-h") {
        Step::Usage
    } else {
        Step::Fail {
            message: concat_str("yx-internal: unknown command: ", c),
            usage: true,
            code: 2,
        }
    }
}

/// The handshake the executor prints for the launcher: its kind, version,
/// protocol and capabilities as one JSON object.
pub open spec fn handshake_text(version: Seq<char>) -> Seq<char> {
    "{\"kind\":\"yx-internal\",\"version\":\""@ + json_escaped(version) + "\",\"protocol\":"@
        + decimal_digits(YX_PROTOCOL as nat)
        + ",\"capabilities\":[\"env\",\"kas\",\"bitbake\",\"manifest\"]}"@
}

/// The handshake is the JSON object
/// `{"kind":"yx-internal","version":"<version>","protocol":1,"capabilities":["env","kas","bitbake","manifest"]}`
/// with the version escaped so that it reads back as itself.
pub proof fn lemma_handshake_object(version: Seq<char>)
    ensures
        handshake_text(version) == "{\"kind\":\"yx-internal\",\"version\":\""@ + json_escaped(
            version,
        ) + "\",\"protocol\":1,\"capabilities\":[\"env\",\"kas\",\"bitbake\",\"manifest\"]}"@,
        (forall|i: int| 0 <= i < version.len() && is_control(#[trigger] version[i]) ==> version[i]
            == '\n') ==> json_decode(json_escaped(version)) == Some(version),
{
    reveal_strlit("\",\"protocol\":");
    reveal_strlit(",\"capabilities\":[\"env\",\"kas\",\"bitbake\",\"manifest\"]}");
    reveal_strlit("\",\"protocol\":1,\"capabilities\":[\"env\",\"kas\",\"bitbake\",\"manifest\"]}");
    assert(decimal_digits(1) == seq!['1']);
    assert("\",\"protocol\":"@ + decimal_digits(YX_PROTOCOL as nat)
        + ",\"capabilities\":[\"env\",\"kas\",\"bitbake\",\"manifest\"]}"@
        =~= "\",\"protocol\":1,\"capabilities\":[\"env\",\"kas\",\"bitbake\",\"manifest\"]}"@);
    let a = "{\"kind\":\"yx-internal\",\"version\":\""@ + json_escaped(version);
    assert(handshake_text(version) =~= a + ("\",\"protocol\":"@ + decimal_digits(YX_PROTOCOL as nat)
        + ",\"capabilities\":[\"env\",\"kas\",\"bitbake\",\"manifest\"]}"@));
    if forall|i: int| 0 <= i < version.len() && is_control(#[trigger] version[i]) ==> version[i]
        == '\n' {
        lemma_json_escape_round_trip(version);
    }
}

/// The handshake line for executor version `version`.
pub fn handshake_line(version: &str) -> (s: String)
    ensures
        s@ == handshake_text(version@),
{
    let mut s = string_from("{\"kind\":\"yx-internal\",\"version\":\"");
    let v = json_escape(version);
    s.append(v.as_str());
    s.append("\",\"protocol\":");
    let p = decimal(YX_PROTOCOL);
    s.append(p.as_str());
    s.append(",\"capabilities\":[\"env\",\"kas\",\"bitbake\",\"manifest\"]}");
    s
}

/// An optional value, or `fallback` where there is none.
pub open spec fn or_else(o: Option<Seq<char>>, fallback: Seq<char>) -> Seq<char> {
    match o {
        Some(v) => v,
        None => fallback,
    }
}

/// `true` or `false`, as `bool`'s `Display` writes it.
pub open spec fn bool_text(b: bool) -> Seq<char> {
    if b {
        "true"@
    } else {
        "false"@
    }
}

/// The environment report: executor version, protocol, the markers of the
/// environment, the project root as displayed, and the configured profile
/// and kas file.
pub open spec fn env_info_text(
    cfg: ConfigView,
    state: EnvState,
    version: Seq<char>,
    root: Seq<char>,
) -> Seq<Seq<char>> {
    seq![
        "yx-internal "@ + version,
        "protocol: "@ + decimal_digits(YX_PROTOCOL as nat),
        "inside yxenv: "@ + bool_text(state.inside),
        "yxenv profile: "@ + or_else(opt_view(state.profile), "<unknown>"@),
        "yxenv version: "@ + or_else(opt_view(state.version), "<unknown>"@),
        "yxenv backend: "@ + or_else(opt_view(state.backend), "<unknown>"@),
        "current layer: "@ + or_else(opt_view(state.layer), "env"@),
        "project root: "@ + root,
        "configured profile: "@ + cfg.profile,
        "default kas file: "@ + cfg.kas_default,
    ]
}

/// `lit` followed by the value of `o`, or by `fallback` where there is none.
fn labelled_or(lit: &str, o: &Option<String>, fallback: &str) -> (s: String)
    ensures
        s@ == lit@ + or_else(opt_view(*o), fallback@),
{
    let mut s = string_from(lit);
    match o {
        Some(v) => s.append(v.as_str()),
        None => s.append(fallback),
    }
    s
}

/// The lines of the environment report; `root` is the project root as
/// displayed.
pub fn env_info_lines(cfg: &ProjectConfig, state: &EnvState, version: &str, root: &str) -> (lines: Vec<String>)
    ensures
        views(lines@) == env_info_text(cfg@, *state, version@, root@),
{
    let mut lines: Vec<String> = Vec::new();
    lines.push(concat_str("yx-internal ", &string_from(version)));
    let p = decimal(YX_PROTOCOL);
    lines.push(concat_str("protocol: ", &p));
    let b = if state.inside {
        string_from("true")
    } else {
        string_from("false")
    };
    lines.push(concat_str("inside yxenv: ", &b));
    lines.push(labelled_or("yxenv profile: ", &state.profile, "<unknown>"));
    lines.push(labelled_or("yxenv version: ", &state.version, "<unknown>"));
    lines.push(labelled_or("yxenv backend: ", &state.backend, "<unknown>"));
    lines.push(labelled_or("current layer: ", &state.layer, "env"));
    lines.push(concat_str("project root: ", &string_from(root)));
    lines.push(concat_str("configured profile: ", &cfg.profile));
    lines.push(concat_str("default kas file: ", &cfg.kas_default));
    assert(views(lines@) =~= env_info_text(cfg@, *state, version@, root@));
    lines
}

/// The tools the doctor looks for, in the order it reports them.
pub open spec fn doctor_tool_names() -> Seq<Seq<char>> {
    seq!["git"@, "kas"@, "python3"@, "bitbake"@, "bitbake-layers"@, "bash"@]
}

/// The tools without which the environment is broken; BitBake's are only
/// reported.
pub open spec fn is_required_tool(i: int) -> bool {
    i == 0 || i == 1 || i == 2 || i == 5
}

/// `s` padded with spaces on the right to `width` characters.
pub open spec fn pad_right(s: Seq<char>, width: nat) -> Seq<char> {
    if s.len() >= width {
        s
    } else {
        s + Seq::new((width - s.len()) as nat, |i: int| ' ')
    }
}

/// One line of the doctor report.
pub open spec fn doctor_line_text(name: Seq<char>, found: bool) -> Seq<char> {
    "  "@ + pad_right(name, 16) + " "@ + if found {
        "ok"@
    } else {
        "missing"@
    }
}

/// The doctor's exit status: 1 when a required tool is missing, else 0.
pub open spec fn doctor_status(found: Seq<bool>) -> i32 {
    if exists|i: int| 0 <= i < found.len() && is_required_tool(i) && !found[i] {
        1
    } else {
        0
    }
}

/// The doctor fails, with status 1, exactly when `git`, `kas`, `python3`
/// or `bash` is missing; a missing `bitbake` or `bitbake-layers` alone
/// leaves the status 0. `found` holds one finding per tool, in the order
/// of `doctor_tool_names`.
pub proof fn lemma_doctor_required_tools(found: Seq<bool>)
    requires
        found.len() == doctor_tool_names().len(),
    ensures
        doctor_status(found) == 1 <==> exists|i: int|
            0 <= i < found.len() && !found[i] && {
                let name = #[trigger] doctor_tool_names()[i];
                name == "git"@ || name == "kas"@ || name == "python3"@ || name == "bash"@
            },
        doctor_status(found) == 0 || doctor_status(found) == 1,
{
    reveal_strlit("git");
    reveal_strlit("kas");
    reveal_strlit("python3");
    reveal_strlit("bitbake");
    reveal_strlit("bitbake-layers");
    reveal_strlit("bash");
    let names = doctor_tool_names();
    assert(names[3][0] == 'b' && "python3"@[0] == 'p' && "git"@.len() == 3 && "kas"@.len() == 3
        && "bash"@.len() == 4 && names[3].len() == 7);
    assert(names[3] != "git"@ && names[3] != "kas"@ && names[3] != "python3"@ && names[3]
        != "bash"@);
    assert(names[4].len() == 14 && "python3"@.len() == 7);
    assert(names[4] != "git"@ && names[4] != "kas"@ && names[4] != "python3"@ && names[4]
        != "bash"@);
    if doctor_status(found) == 1 {
        let i = choose|i: int| 0 <= i < found.len() && is_required_tool(i) && !found[i];
        assert(names[i] == "git"@ || names[i] == "kas"@ || names[i] == "python3"@ || names[i]
            == "bash"@);
    }
    if exists|i: int|
        0 <= i < found.len() && !found[i] && {
            let name = #[trigger] doctor_tool_names()[i];
            name == "git"@ || name == "kas"@ || name == "python3"@ || name == "bash"@
        } {
        let i = choose|i: int|
            0 <= i < found.len() && !found[i] && {
                let name = #[trigger] doctor_tool_names()[i];
                name == "git"@ || name == "kas"@ || name == "python3"@ || name == "bash"@
            };
        assert(i != 3 && i != 4);
        assert(is_required_tool(i));
    }
}

/// The tools the doctor looks for, in order.
pub fn doctor_tools() -> (names: Vec<String>)
    ensures
        views(names@) == doctor_tool_names(),
{
    let mut names: Vec<String> = Vec::new();
    names.push(string_from("git"));
    names.push(string_from("kas"));
    names.push(string_from("python3"));
    names.push(string_from("bitbake"));
    names.push(string_from("bitbake-layers"));
    names.push(string_from("bash"));
    assert(views(names@) =~= doctor_tool_names());
    names
}

/// The report line for tool `name`, found or not.
pub fn doctor_line(name: &String, found: bool) -> (s: String)
    ensures
        s@ == doctor_line_text(name@, found),
{
    let mut s = string_from("  ");
    s.append(name.as_str());
    let n = name.as_str().unicode_len();
    let mut k: usize = n;
    while k < 16
        invariant
            n == name@.len(),
            n <= k <= 16 || (n > 16 && k == n),
            s@ == "  "@ + name@ + Seq::new((k - n) as nat, |i: int| ' '),
        decreases 16 - k,
    {
        push_char(&mut s, ' ');
        assert(Seq::new((k + 1 - n) as nat, |i: int| ' ') =~= Seq::new(
            (k - n) as nat,
            |i: int| ' ',
        ).push(' '));
        k = k + 1;
    }
    assert(pad_right(name@, 16) =~= name@ + Seq::new((k - n) as nat, |i: int| ' '));
    s.append(" ");
    if found {
        s.append("ok");
    } else {
        s.append("missing");
    }
    s
}

/// The doctor's exit status for the findings `found`, one per tool in the
/// order of `doctor_tools`.
pub fn doctor_exit_code(found: &[bool]) -> (code: i32)
    requires
        found@.len() == doctor_tool_names().len(),
    ensures
        code == doctor_status(found@),
{
    if !found[0] {
        assert(is_required_tool(0) && !found@[0]);
        1
    } else if !found[1] {
        assert(is_required_tool(1) && !found@[1]);
        1
    } else if !found[2] {
        assert(is_required_tool(2) && !found@[2]);
        1
    } else if !found[5] {
        assert(is_required_tool(5) && !found@[5]);
        1
    } else {
        assert(!exists|i: int| 0 <= i < found@.len() && is_required_tool(i) && !found@[i]);
        0
    }
}

} // verus!
