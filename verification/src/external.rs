//! The launcher that runs on the host: it enters the configured `yx-env`
//! environment, through `nix develop` or a container, and runs `yx` again
//! inside it.
use vstd::prelude::*;
use crate::cmd::{CmdSpec, CmdView};
use crate::config::{ConfigView, ProjectConfig};
use crate::plan::{command, concat_str, copy_args, fail2, fail_with, prepend, rest_of, Step, StepView};
use crate::shell::{join_spaced, join_with, views};
use crate::text::{push_char, string_from, string_is};

verus! {

/// What a container entry needs to know of the host: the current
/// directory as displayed, and the user and group ids.
#[derive(Debug, Clone)]
pub struct HostInfo {
    pub cwd: String,
    pub uid: String,
    pub gid: String,
}

/// Backends that enter the environment through a container runtime.
pub open spec fn is_container_backend(backend: Seq<char>) -> bool {
    backend == "container"@ || backend == "docker"@ || backend == "podman"@
}

/// The container runtime for a container backend: `podman` for `podman`,
/// `docker` otherwise.
pub open spec fn runtime_for(backend: Seq<char>) -> Seq<char> {
    if backend == "podman"@ {
        "podman"@
    } else {
        "docker"@
    }
}

/// The flake reference of the configured environment: `<yxenv>#<profile>`.
pub open spec fn flake_ref(cfg: ConfigView) -> Seq<char> {
    cfg.yxenv_ref + seq!['#'] + cfg.profile
}

/// `nix develop <yxenv>#<profile>`, in the project root.
pub open spec fn nix_shell_plan(cfg: ConfigView) -> CmdView {
    CmdView {
        program: "nix"@,
        args: seq!["develop"@, flake_ref(cfg)],
        cwd: Some(cfg.root),
        envs: seq![],
    }
}

/// `nix develop <yxenv>#<profile> -c yx <args>`, in the project root.
pub open spec fn nix_reexec_plan(cfg: ConfigView, args: Seq<Seq<char>>) -> CmdView {
    CmdView {
        program: "nix"@,
        args: seq!["develop"@, flake_ref(cfg), "-c"@, "yx"@] + args,
        cwd: Some(cfg.root),
        envs: seq![],
    }
}

/// The refusal when a container backend has no image.
pub open spec fn missing_image_text() -> Seq<char> {
    "container backend requires [env].image in .yx/project.toml"@
}

/// `<runtime> run` of the configured image, interactive and removed after,
/// as the host user, with the current directory, `/tmp` and `/var/tmp`
/// mounted at the same paths and the current directory as working
/// directory; it runs `yx <args>`, or `bash` when there are no arguments.
pub open spec fn container_plan(
    cfg: ConfigView,
    runtime: Seq<char>,
    args: Seq<Seq<char>>,
    host: (Seq<char>, Seq<char>, Seq<char>),
) -> Result<CmdView, Seq<char>> {
    match cfg.image {
        None => Err(missing_image_text()),
        Some(image) => {
            let (cwd, uid, gid) = host;
            let base = seq![
                "run"@,
                "--rm"@,
                "-ti"@,
                "-u"@,
                uid + seq![':'] + gid,
                "-v"@,
                cwd + seq![':'] + cwd + ":rw"@,
                "-v"@,
                "/tmp:/tmp:rw"@,
                "-v"@,
                "/var/tmp:/var/tmp:rw"@,
                "--workdir"@,
                cwd,
                image,
            ];
            let tail = if args.len() == 0 {
                seq!["bash"@]
            } else {
                seq!["yx"@] + args
            };
            Ok(command(runtime, base + tail, seq![]))
        },
    }
}

/// The host facts as plain sequences.
pub open spec fn host_view(h: HostInfo) -> (Seq<char>, Seq<char>, Seq<char>) {
    (h.cwd@, h.uid@, h.gid@)
}

/// A container command, or the message `yx: <why>` with status 2.
pub open spec fn container_step(r: Result<CmdView, Seq<char>>) -> StepView {
    match r {
        Ok(c) => StepView::Run(c),
        Err(e) => fail2("yx: "@ + e),
    }
}

/// Enters the environment's bare shell.
pub open spec fn enter_shell_plan(cfg: ConfigView, host: (Seq<char>, Seq<char>, Seq<char>)) -> StepView {
    if is_container_backend(cfg.backend) {
        container_step(container_plan(cfg, runtime_for(cfg.backend), seq![], host))
    } else {
        StepView::Run(nix_shell_plan(cfg))
    }
}

/// Enters the environment and runs `yx <args>` in it.
pub open spec fn reexec_plan(
    cfg: ConfigView,
    args: Seq<Seq<char>>,
    host: (Seq<char>, Seq<char>, Seq<char>),
) -> StepView {
    if is_container_backend(cfg.backend) {
        container_step(container_plan(cfg, runtime_for(cfg.backend), args, host))
    } else {
        StepView::Run(nix_reexec_plan(cfg, args))
    }
}

/// `yx env <subcommand> ...` on the host.
pub open spec fn env_plan(
    cfg: ConfigView,
    args: Seq<Seq<char>>,
    host: (Seq<char>, Seq<char>, Seq<char>),
) -> StepView {
    if args.len() == 0 || args[0] == "info"@ {
        StepView::Info
    } else if args[0] == "shell"@ {
        enter_shell_plan(cfg, host)
    } else if args[0] == "exec"@ {
        reexec_plan(cfg, seq!["env"@] + args, host)
    } else if args[0] == "doctor"@ {
        reexec_plan(cfg, seq!["doctor"@], host)
    } else {
        fail2("yx env: unknown subcommand: "@ + args[0])
    }
}

/// The refusal to act as the executor inside the environment.
pub open spec fn already_inside_text(args: Seq<Seq<char>>) -> Seq<char> {
    "yx-external: YXENV=1 is set, so this appears to be inside yxenv.\nyx-external should normally run on the host, while yx-internal should be first in PATH inside yxenv.\nrequested command: yx "@
        + join_with(args, seq![' '])
}

/// The commands that are passed through to the executor as they are.
pub open spec fn is_reexec_command(c: Seq<char>) -> bool {
    c == "doctor"@ || c == "kas"@ || c == "bitbake"@ || c == "build"@ || c == "devshell"@ || c
        == "manifest"@
}

/// What the launcher does for its command line `args` (flags taken out);
/// `inside` tells whether it runs inside the environment.
pub open spec fn external_plan(
    cfg: ConfigView,
    args: Seq<Seq<char>>,
    inside: bool,
    host: (Seq<char>, Seq<char>, Seq<char>),
) -> StepView {
    if args.len() == 0 || args[0] == "help"@ || args[0] == "--help"@ || args[0] == "-h"@ {
        StepView::Usage
    } else if inside {
        fail2(already_inside_text(args))
    } else if args[0] == "env"@ {
        env_plan(cfg, args.skip(1), host)
    } else if args[0] == "shell"@ {
        enter_shell_plan(cfg, host)
    } else if is_reexec_command(args[0]) {
        reexec_plan(cfg, args, host)
    } else {
        StepView::Fail("yx-external: unknown command: "@ + args[0], true, 2)
    }
}

/// Whether the invocation enters a container through a configured image,
/// the one case in which it uses the host facts.
pub open spec fn enters_container(cfg: ConfigView, args: Seq<Seq<char>>, inside: bool) -> bool {
    &&& is_container_backend(cfg.backend)
    &&& cfg.image is Some
    &&& !inside
    &&& args.len() > 0
    &&& !(args[0] == "help"@ || args[0] == "--help"@ || args[0] == "-h"@)
    &&& {
        ||| args[0] == "shell"@
        ||| is_reexec_command(args[0])
        ||| args[0] == "env"@ && args.len() > 1 && (args[1] == "shell"@ || args[1] == "exec"@
            || args[1] == "doctor"@)
    }
}

/// The host facts matter only when the invocation enters a container.
pub proof fn lemma_host_needed_only_for_containers(
    cfg: ConfigView,
    args: Seq<Seq<char>>,
    inside: bool,
    h1: (Seq<char>, Seq<char>, Seq<char>),
    h2: (Seq<char>, Seq<char>, Seq<char>),
)
    requires
        !enters_container(cfg, args, inside),
    ensures
        external_plan(cfg, args, inside, h1) == external_plan(cfg, args, inside, h2),
{
    if args.len() > 0 && args[0] == "env"@ {
        let rest = args.skip(1);
        if rest.len() > 0 {
            assert(rest[0] == args[1]);
        }
    }
}

/// Whether the invocation enters a container and so needs the host facts.
pub fn needs_host(cfg: &ProjectConfig, args: &[String], inside: bool) -> (b: bool)
    ensures
        b == enters_container(cfg@, views(args@), inside),
{
    if !uses_container(&cfg.backend) || cfg.image.is_none() || inside || args.len() == 0 {
        return false;
    }
    if string_is(&args[0], "help") || string_is(&args[0], "--help") || string_is(&args[0], "-h") {
        return false;
    }
    if string_is(&args[0], "shell") || string_is(&args[0], "doctor") || string_is(&args[0], "kas")
        || string_is(&args[0], "bitbake") || string_is(&args[0], "build") || string_is(
        &args[0],
        "devshell",
    ) || string_is(&args[0], "manifest") {
        return true;
    }
    string_is(&args[0], "env") && args.len() > 1 && (string_is(&args[1], "shell") || string_is(
        &args[1],
        "exec",
    ) || string_is(&args[1], "doctor"))
}

/// With a container backend and an image, entering the environment runs
/// the runtime the backend names: `podman` for `podman`, `docker` for
/// `docker` and `container`. It runs `run --rm -ti -u ...` on the image,
/// with `yx` and the given arguments at the end, or `bash` for the bare
/// shell.
pub proof fn lemma_container_entry_runtime(
    cfg: ConfigView,
    args: Seq<Seq<char>>,
    host: (Seq<char>, Seq<char>, Seq<char>),
)
    requires
        cfg.backend == "podman"@ || cfg.backend == "docker"@ || cfg.backend == "container"@,
        cfg.image is Some,
    ensures
        reexec_plan(cfg, args, host) matches StepView::Run(c) && c.program == (if cfg.backend
            == "podman"@ {
            "podman"@
        } else {
            "docker"@
        }) && c.args.take(4) == seq!["run"@, "--rm"@, "-ti"@, "-u"@] && c.args[13] == cfg.image->0
            && (args.len() > 0 ==> c.args.skip(14) == seq!["yx"@] + args) && c.cwd is None
            && c.args[4] == host.1 + seq![':'] + host.2 && c.args[5] == "-v"@ && c.args[6]
            == host.0 + seq![':'] + host.0 + seq![':', 'r', 'w'] && c.args.subrange(7, 11) == seq![
            "-v"@,
            "/tmp:/tmp:rw"@,
            "-v"@,
            "/var/tmp:/var/tmp:rw"@,
        ] && c.args[11] == "--workdir"@ && c.args[12] == host.0,
        enter_shell_plan(cfg, host) matches StepView::Run(c) && c.program == (if cfg.backend
            == "podman"@ {
            "podman"@
        } else {
            "docker"@
        }) && c.args.take(4) == seq!["run"@, "--rm"@, "-ti"@, "-u"@] && c.args.last() == "bash"@,
{
    reveal_strlit(":rw");
    assert(":rw"@ =~= seq![':', 'r', 'w']);
    let r = reexec_plan(cfg, args, host);
    if let StepView::Run(c) = r {
        assert(c.args.take(4) =~= seq!["run"@, "--rm"@, "-ti"@, "-u"@]);
        assert(c.args.subrange(7, 11) =~= seq!["-v"@, "/tmp:/tmp:rw"@, "-v"@, "/var/tmp:/var/tmp:rw"@]);
        if args.len() > 0 {
            assert(c.args.skip(14) =~= seq!["yx"@] + args);
        }
    }
    if let StepView::Run(c) = enter_shell_plan(cfg, host) {
        assert(c.args.take(4) =~= seq!["run"@, "--rm"@, "-ti"@, "-u"@]);
    }
}

/// `help`, `--help` or `-h` first, or no command at all, gives the usage
/// text, inside the environment or not.
pub proof fn lemma_external_help(
    cfg: ConfigView,
    args: Seq<Seq<char>>,
    inside: bool,
    host: (Seq<char>, Seq<char>, Seq<char>),
)
    requires
        args.len() == 0 || args[0] == "help"@ || args[0] == "--help"@ || args[0] == "-h"@,
    ensures
        external_plan(cfg, args, inside, host) == StepView::Usage,
{
}

/// On the host with the `nix develop` backend: the executor's commands
/// (`doctor`, `kas`, `bitbake`, `build`, `devshell`, `manifest`) are run
/// again inside the environment with the same arguments; `yx shell` and
/// `yx env shell` enter the bare environment; `yx env exec ...` runs
/// `yx env exec ...` inside; `yx env doctor` runs `yx doctor` inside; `yx
/// env` and `yx env info` print the report.
pub proof fn lemma_launcher_routes(
    cfg: ConfigView,
    args: Seq<Seq<char>>,
    host: (Seq<char>, Seq<char>, Seq<char>),
)
    requires
        !is_container_backend(cfg.backend),
        args.len() > 0,
    ensures
        (args[0] == "doctor"@ || args[0] == "kas"@ || args[0] == "bitbake"@ || args[0] == "build"@
            || args[0] == "devshell"@ || args[0] == "manifest"@) ==> external_plan(
            cfg,
            args,
            false,
            host,
        ) == StepView::Run(nix_reexec_plan(cfg, args)),
        args[0] == "shell"@ ==> external_plan(cfg, args, false, host) == StepView::Run(
            nix_shell_plan(cfg),
        ),
        args.len() > 1 && args[0] == "env"@ && args[1] == "shell"@ ==> external_plan(
            cfg,
            args,
            false,
            host,
        ) == StepView::Run(nix_shell_plan(cfg)),
        args.len() > 1 && args[0] == "env"@ && args[1] == "exec"@ ==> external_plan(
            cfg,
            args,
            false,
            host,
        ) == StepView::Run(nix_reexec_plan(cfg, args)),
        args.len() > 1 && args[0] == "env"@ && args[1] == "doctor"@ ==> external_plan(
            cfg,
            args,
            false,
            host,
        ) == StepView::Run(nix_reexec_plan(cfg, seq!["doctor"@])),
        (args.len() == 1 && args[0] == "env"@) || (args.len() > 1 && args[0] == "env"@ && args[1]
            == "info"@) ==> external_plan(cfg, args, false, host) == StepView::Info,
{
    reveal_strlit("help");
    reveal_strlit("--help");
    reveal_strlit("-h");
    reveal_strlit("env");
    reveal_strlit("shell");
    reveal_strlit("doctor");
    reveal_strlit("kas");
    reveal_strlit("bitbake");
    reveal_strlit("build");
    reveal_strlit("devshell");
    reveal_strlit("manifest");
    reveal_strlit("info");
    reveal_strlit("exec");
    assert("help"@.len() == 4 && "help"@[0] == 'h');
    assert("--help"@.len() == 6 && "--help"@[0] == '-');
    assert("-h"@.len() == 2 && "-h"@[0] == '-');
    assert("env"@.len() == 3 && "env"@[0] == 'e');
    assert("shell"@.len() == 5 && "shell"@[0] == 's');
    assert("doctor"@.len() == 6 && "doctor"@[0] == 'd');
    assert("kas"@.len() == 3 && "kas"@[0] == 'k');
    assert("bitbake"@.len() == 7 && "bitbake"@[0] == 'b');
    assert("build"@.len() == 5 && "build"@[0] == 'b');
    assert("devshell"@.len() == 8 && "devshell"@[0] == 'd');
    assert("manifest"@.len() == 8 && "manifest"@[0] == 'm');
    assert("info"@.len() == 4 && "info"@[0] == 'i');
    assert("exec"@.len() == 4 && "exec"@[0] == 'e');
    assert("bitbake"@[1] == 'i' && "build"@[1] == 'u');
    assert("devshell"@[1] == 'e');
    if args.len() > 1 && args[0] == "env"@ {
        assert(args.skip(1)[0] == args[1]);
        assert(seq!["env"@] + args.skip(1) =~= args);
    }
}

/// Inside the environment the launcher refuses every command but help, with
/// exit status 2.
pub proof fn lemma_refuses_inside(cfg: ConfigView, args: Seq<Seq<char>>, host: (Seq<char>, Seq<char>, Seq<char>))
    requires
        args.len() > 0,
        !(args[0] == "help"@ || args[0] == "--help"@ || args[0] == "-h"@),
    ensures
        external_plan(cfg, args, true, host) == fail2(already_inside_text(args)),
{
}

/// A container backend without an image is refused, whatever is asked.
pub proof fn lemma_container_needs_image(
    cfg: ConfigView,
    runtime: Seq<char>,
    args: Seq<Seq<char>>,
    host: (Seq<char>, Seq<char>, Seq<char>),
)
    requires
        cfg.image is None,
    ensures
        container_plan(cfg, runtime, args, host) == Err::<CmdView, Seq<char>>(missing_image_text()),
        is_container_backend(cfg.backend) ==> reexec_plan(cfg, args, host) == fail2(
            "yx: "@ + missing_image_text(),
        ),
        is_container_backend(cfg.backend) ==> enter_shell_plan(cfg, host) == fail2(
            "yx: "@ + missing_image_text(),
        ),
{
}

/// With the `nix develop` backend, a passed-through command is
/// `nix develop <yxenv>#<profile> -c yx` followed by the given arguments
/// unchanged, and the bare shell adds no command.
pub proof fn lemma_nix_reexec_keeps_args(cfg: ConfigView, args: Seq<Seq<char>>, host: (Seq<char>, Seq<char>, Seq<char>))
    requires
        !is_container_backend(cfg.backend),
    ensures
        reexec_plan(cfg, args, host) == StepView::Run(nix_reexec_plan(cfg, args)),
        nix_reexec_plan(cfg, args).args.skip(4) == args,
        nix_reexec_plan(cfg, args).args.take(4) == seq![
            "develop"@,
            cfg.yxenv_ref + seq!['#'] + cfg.profile,
            "-c"@,
            "yx"@,
        ],
        nix_reexec_plan(cfg, args).program == "nix"@,
        nix_reexec_plan(cfg, args).cwd == Some(cfg.root),
        enter_shell_plan(cfg, host) == StepView::Run(nix_shell_plan(cfg)),
        nix_shell_plan(cfg).program == "nix"@,
        nix_shell_plan(cfg).args == seq!["develop"@, cfg.yxenv_ref + seq!['#'] + cfg.profile],
        nix_shell_plan(cfg).cwd == Some(cfg.root),
{
    assert(nix_reexec_plan(cfg, args).args.skip(4) =~= args);
    assert(nix_reexec_plan(cfg, args).args.take(4) =~= seq!["develop"@, flake_ref(cfg), "-c"@, "yx"@]);
}

/// The launcher answers a command it does not know with a message, the
/// usage text and exit status 2.
pub proof fn lemma_external_unknown_command(
    cfg: ConfigView,
    args: Seq<Seq<char>>,
    host: (Seq<char>, Seq<char>, Seq<char>),
)
    requires
        args.len() > 0,
        !(args[0] == "help"@ || args[0] == "--help"@ || args[0] == "-h"@ || args[0] == "env"@
            || args[0] == "shell"@ || is_reexec_command(args[0])),
    ensures
        external_plan(cfg, args, false, host) == StepView::Fail(
            "yx-external: unknown command: "@ + args[0],
            true,
            2,
        ),
{
}

/// Whether `backend` enters through a container runtime.
pub fn uses_container(backend: &String) -> (b: bool)
    ensures
        b == is_container_backend(backend@),
{
    string_is(backend, "container") || string_is(backend, "docker") || string_is(backend, "podman")
}

/// The container runtime for `backend`.
pub fn container_runtime(backend: &String) -> (r: String)
    ensures
        r@ == runtime_for(backend@),
{
    if string_is(backend, "podman") {
        string_from("podman")
    } else {
        string_from("docker")
    }
}

fn flake(cfg: &ProjectConfig) -> (s: String)
    ensures
        s@ == flake_ref(cfg@),
{
    let mut s = cfg.yxenv_ref.clone();
    push_char(&mut s, '#');
    s.append(cfg.profile.as_str());
    s
}

/// `nix develop <yxenv>#<profile>` in the project root.
pub fn nix_develop_shell_cmd(cfg: &ProjectConfig) -> (c: CmdSpec)
    ensures
        c@ == nix_shell_plan(cfg@),
{
    CmdSpec::new(string_from("nix")).arg(string_from("develop")).arg(flake(cfg)).cwd(
        cfg.root.clone(),
    )
}

/// `nix develop <yxenv>#<profile> -c yx <args>` in the project root.
pub fn nix_develop_reexec_cmd(cfg: &ProjectConfig, args: &[String]) -> (c: CmdSpec)
    ensures
        c@ == nix_reexec_plan(cfg@, views(args@)),
{
    let rest = copy_args(args);
    let c = CmdSpec::new(string_from("nix")).arg(string_from("develop")).arg(flake(cfg)).arg(
        string_from("-c"),
    ).arg(string_from("yx")).args(rest).cwd(cfg.root.clone());
    c
}

/// `a`, then `sep`, then `b`.
fn joined(a: &String, sep: char, b: &String) -> (s: String)
    ensures
        s@ == a@ + seq![sep] + b@,
{
    let mut s = a.clone();
    push_char(&mut s, sep);
    s.append(b.as_str());
    s
}

/// The container entry command through `runtime`, or the refusal when no
/// image is configured.
pub fn container_cmd(cfg: &ProjectConfig, runtime: &str, args: &[String], host: &HostInfo) -> (r: Result<CmdSpec, String>)
    ensures
        match r {
            Ok(c) => container_plan(cfg@, runtime@, views(args@), host_view(*host)) == Ok::<CmdView, Seq<char>>(c@),
            Err(e) => container_plan(cfg@, runtime@, views(args@), host_view(*host)) == Err::<CmdView, Seq<char>>(e@),
        },
{
    let image = match &cfg.image {
        Some(i) => i.clone(),
        None => {
            return Err(string_from("container backend requires [env].image in .yx/project.toml"));
        },
    };
    let mut mount = joined(&host.cwd, ':', &host.cwd);
    mount.append(":rw");
    let mut c = CmdSpec::new(string_from(runtime)).arg(string_from("run")).arg(string_from("--rm")).arg(
        string_from("-ti"),
    ).arg(string_from("-u")).arg(joined(&host.uid, ':', &host.gid)).arg(string_from("-v")).arg(
        mount,
    ).arg(string_from("-v")).arg(string_from("/tmp:/tmp:rw")).arg(string_from("-v")).arg(
        string_from("/var/tmp:/var/tmp:rw"),
    ).arg(string_from("--workdir")).arg(host.cwd.clone()).arg(image);
    let ghost cwd = host.cwd@;
    let ghost base = seq![
        "run"@,
        "--rm"@,
        "-ti"@,
        "-u"@,
        host.uid@ + seq![':'] + host.gid@,
        "-v"@,
        cwd + seq![':'] + cwd + ":rw"@,
        "-v"@,
        "/tmp:/tmp:rw"@,
        "-v"@,
        "/var/tmp:/var/tmp:rw"@,
        "--workdir"@,
        cwd,
        image@,
    ];
    assert(c@.args =~= base);
    if args.len() == 0 {
        c = c.arg(string_from("bash"));
        assert(c@ =~= command(runtime@, base + seq!["bash"@], seq![]));
    } else {
        let rest = copy_args(args);
        c = c.arg(string_from("yx")).args(rest);
        assert(c@ =~= command(runtime@, base + (seq!["yx"@] + views(args@)), seq![]));
    }
    Ok(c)
}

fn container_or_fail(r: Result<CmdSpec, String>) -> (s: Step)
    ensures
        s@ == container_step(match r {
            Ok(c) => Ok::<CmdView, Seq<char>>(c@),
            Err(e) => Err::<CmdView, Seq<char>>(e@),
        }),
{
    match r {
        Ok(c) => Step::Run(c),
        Err(e) => fail_with(concat_str("yx: ", &e)),
    }
}

/// Enters the environment's bare shell.
pub fn enter_env_shell(cfg: &ProjectConfig, host: &HostInfo) -> (s: Step)
    ensures
        s@ == enter_shell_plan(cfg@, host_view(*host)),
{
    if uses_container(&cfg.backend) {
        let runtime = container_runtime(&cfg.backend);
        let empty: Vec<String> = Vec::new();
        assert(views(empty@) =~= seq![]);
        container_or_fail(container_cmd(cfg, runtime.as_str(), empty.as_slice(), host))
    } else {
        Step::Run(nix_develop_shell_cmd(cfg))
    }
}

/// Enters the environment and runs `yx <args>` in it.
pub fn enter_and_reexec(cfg: &ProjectConfig, args: &[String], host: &HostInfo) -> (s: Step)
    ensures
        s@ == reexec_plan(cfg@, views(args@), host_view(*host)),
{
    if uses_container(&cfg.backend) {
        let runtime = container_runtime(&cfg.backend);
        container_or_fail(container_cmd(cfg, runtime.as_str(), args, host))
    } else {
        Step::Run(nix_develop_reexec_cmd(cfg, args))
    }
}

/// `yx env <subcommand> ...` on the host.
pub fn env_cmd(cfg: &ProjectConfig, args: &[String], host: &HostInfo) -> (s: Step)
    ensures
        s@ == env_plan(cfg@, views(args@), host_view(*host)),
{
    if args.len() == 0 || string_is(&args[0], "info") {
        Step::Info
    } else if string_is(&args[0], "shell") {
        enter_env_shell(cfg, host)
    } else if string_is(&args[0], "exec") {
        let words = prepend("env", args);
        enter_and_reexec(cfg, words.as_slice(), host)
    } else if string_is(&args[0], "doctor") {
        let mut words: Vec<String> = Vec::new();
        words.push(string_from("doctor"));
        assert(views(words@) =~= seq!["doctor"@]);
        enter_and_reexec(cfg, words.as_slice(), host)
    } else {
        fail_with(concat_str("yx env: unknown subcommand: ", &args[0]))
    }
}

/// The refusal to act as the executor inside the environment, naming the
/// requested command `args`.
pub fn already_inside_message(args: &[String]) -> (s: String)
    ensures
        s@ == already_inside_text(views(args@)),
{
    let mut s = string_from(
        "yx-external: YXENV=1 is set, so this appears to be inside yxenv.\nyx-external should normally run on the host, while yx-internal should be first in PATH inside yxenv.\nrequested command: yx ",
    );
    let j = join_spaced(args);
    s.append(j.as_str());
    s
}

/// What the launcher does for its command line `args` (flags taken out);
/// `inside` tells whether `YXENV=1` is set.
pub fn dispatch(cfg: &ProjectConfig, args: &[String], inside: bool, host: &HostInfo) -> (s: Step)
    ensures
        s@ == external_plan(cfg@, views(args@), inside, host_view(*host)),
{
    if args.len() == 0 || string_is(&args[0], "help") || string_is(&args[0], "--help")
        || string_is(&args[0], "-h") {
        return Step::Usage;
    }
    if inside {
        return fail_with(already_inside_message(args));
    }
    let c = &args[0];
    if string_is(c, "env") {
        env_cmd(cfg, rest_of(args), host)
    } else if string_is(c, "shell") {
        enter_env_shell(cfg, host)
    } else if string_is(c, "doctor") || string_is(c, "kas") || string_is(c, "bitbake")
        || string_is(c, "build") || string_is(c, "devshell") || string_is(c, "manifest") {
        enter_and_reexec(cfg, args, host)
    } else {
        Step::Fail {
            message: concat_str("yx-external: unknown command: ", c),
            usage: true,
            code: 2,
        }
    }
}

/// The launcher's report: version, project root as displayed, backend,
/// environment reference and profile, default kas file and target, and the
/// container image where one is configured.
pub open spec fn external_info_text(cfg: ConfigView, version: Seq<char>, root: Seq<char>) -> Seq<Seq<char>> {
    let base = seq![
        "yx-external "@ + version,
        "project root: "@ + root,
        "backend: "@ + cfg.backend,
        "yxenv ref: "@ + cfg.yxenv_ref,
        "profile: "@ + cfg.profile,
        "default kas file: "@ + cfg.kas_default,
        "default target: "@ + cfg.default_target,
    ];
    match cfg.image {
        Some(image) => base.push("container image: "@ + image),
        None => base,
    }
}

/// The lines of the launcher's report; `root` is the project root as
/// displayed.
pub fn external_info_lines(cfg: &ProjectConfig, version: &str, root: &str) -> (lines: Vec<String>)
    ensures
        views(lines@) == external_info_text(cfg@, version@, root@),
{
    let mut lines: Vec<String> = Vec::new();
    lines.push(concat_str("yx-external ", &string_from(version)));
    lines.push(concat_str("project root: ", &string_from(root)));
    lines.push(concat_str("backend: ", &cfg.backend));
    lines.push(concat_str("yxenv ref: ", &cfg.yxenv_ref));
    lines.push(concat_str("profile: ", &cfg.profile));
    lines.push(concat_str("default kas file: ", &cfg.kas_default));
    lines.push(concat_str("default target: ", &cfg.default_target));
    if let Some(image) = &cfg.image {
        lines.push(concat_str("container image: ", image));
    }
    assert(views(lines@) =~= external_info_text(cfg@, version@, root@));
    lines
}

} // verus!
