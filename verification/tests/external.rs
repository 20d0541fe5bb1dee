use std::path::PathBuf;

use lib::config::ProjectConfig;
use lib::external::{
    already_inside_message, container_cmd, container_runtime, dispatch, enter_and_reexec,
    enter_env_shell, env_cmd, external_info_lines, nix_develop_reexec_cmd, nix_develop_shell_cmd,
    needs_host, uses_container, HostInfo,
};
use lib::plan::{first_found, prepend, take_dry_run, take_flag, Step};

fn cfg() -> ProjectConfig {
    ProjectConfig::with_root(PathBuf::from("/proj"))
}

fn container_cfg(image: Option<&str>) -> ProjectConfig {
    let mut c = cfg();
    c.backend = "container".to_string();
    c.image = image.map(|s| s.to_string());
    c
}

fn host() -> HostInfo {
    HostInfo { cwd: "/proj/sub".to_string(), uid: "1001".to_string(), gid: "1002".to_string() }
}

fn strings(v: &[&str]) -> Vec<String> {
    v.iter().map(|s| s.to_string()).collect()
}

fn printed(step: Step) -> String {
    match step {
        Step::Run(c) => c.printable(),
        other => panic!("expected a command, got {:?}", other),
    }
}

fn failure(step: Step) -> (String, bool, i32) {
    match step {
        Step::Fail { message, usage, code } => (message, usage, code),
        other => panic!("expected a failure, got {:?}", other),
    }
}

#[test]
fn nix_develop_commands() {
    let c = nix_develop_reexec_cmd(&cfg(), &strings(&["kas", "dump"]));
    assert_eq!(c.program, "nix");
    assert_eq!(c.args, strings(&["develop", "github:why-ex/yx-env#yocto-scarthgap-kas52", "-c", "yx", "kas", "dump"]));
    assert_eq!(c.cwd, Some(PathBuf::from("/proj")));
    assert_eq!(c.printable(), "nix develop 'github:why-ex/yx-env#yocto-scarthgap-kas52' -c yx kas dump");
    let s = nix_develop_shell_cmd(&cfg());
    assert_eq!(s.args, strings(&["develop", "github:why-ex/yx-env#yocto-scarthgap-kas52"]));
    assert_eq!(s.cwd, Some(PathBuf::from("/proj")));
}

#[test]
fn container_backends() {
    assert!(uses_container(&"container".to_string()));
    assert!(uses_container(&"docker".to_string()));
    assert!(uses_container(&"podman".to_string()));
    assert!(!uses_container(&"nix-develop".to_string()));
    assert_eq!(container_runtime(&"podman".to_string()), "podman");
    assert_eq!(container_runtime(&"container".to_string()), "docker");
    assert_eq!(container_runtime(&"docker".to_string()), "docker");
}

#[test]
fn container_command_layout() {
    let c = container_cmd(&container_cfg(Some("img:1")), "docker", &strings(&["kas", "dump"]), &host()).unwrap();
    assert_eq!(c.program, "docker");
    assert_eq!(c.args, strings(&[
        "run", "--rm", "-ti", "-u", "1001:1002", "-v", "/proj/sub:/proj/sub:rw", "-v", "/tmp:/tmp:rw",
        "-v", "/var/tmp:/var/tmp:rw", "--workdir", "/proj/sub", "img:1", "yx", "kas", "dump",
    ]));
    assert_eq!(c.cwd, None);
    let shell = container_cmd(&container_cfg(Some("img:1")), "podman", &[], &host()).unwrap();
    assert_eq!(shell.program, "podman");
    assert_eq!(shell.args.last().unwrap(), "bash");
}

#[test]
fn container_requires_image() {
    let err = container_cmd(&container_cfg(None), "docker", &[], &host()).unwrap_err();
    assert_eq!(err, "container backend requires [env].image in .yx/project.toml");
    assert_eq!(
        failure(enter_and_reexec(&container_cfg(None), &strings(&["kas", "dump"]), &host())),
        ("yx: container backend requires [env].image in .yx/project.toml".to_string(), false, 2)
    );
    assert_eq!(failure(enter_env_shell(&container_cfg(None), &host())).2, 2);
}

#[test]
fn env_subcommands_on_host() {
    let c = cfg();
    assert!(matches!(env_cmd(&c, &[], &host()), Step::Info));
    assert_eq!(printed(env_cmd(&c, &strings(&["shell"]), &host())), "nix develop 'github:why-ex/yx-env#yocto-scarthgap-kas52'");
    assert_eq!(
        printed(env_cmd(&c, &strings(&["exec", "--", "kas", "--version"]), &host())),
        "nix develop 'github:why-ex/yx-env#yocto-scarthgap-kas52' -c yx env exec -- kas --version"
    );
    assert_eq!(
        printed(env_cmd(&c, &strings(&["doctor"]), &host())),
        "nix develop 'github:why-ex/yx-env#yocto-scarthgap-kas52' -c yx doctor"
    );
    assert_eq!(failure(env_cmd(&c, &strings(&["x"]), &host())), ("yx env: unknown subcommand: x".to_string(), false, 2));
}

#[test]
fn dispatch_on_host() {
    let c = cfg();
    assert!(matches!(dispatch(&c, &[], false, &host()), Step::Usage));
    assert!(matches!(dispatch(&c, &strings(&["--help"]), true, &host()), Step::Usage));
    assert_eq!(
        printed(dispatch(&c, &strings(&["kas", "dump"]), false, &host())),
        "nix develop 'github:why-ex/yx-env#yocto-scarthgap-kas52' -c yx kas dump"
    );
    assert_eq!(printed(dispatch(&c, &strings(&["shell"]), false, &host())), "nix develop 'github:why-ex/yx-env#yocto-scarthgap-kas52'");
    for cmd in ["doctor", "bitbake", "build", "devshell", "manifest"] {
        let p = printed(dispatch(&c, &strings(&[cmd]), false, &host()));
        assert!(p.ends_with(&format!("-c yx {}", cmd)));
    }
    assert_eq!(failure(dispatch(&c, &strings(&["frob"]), false, &host())), ("yx-external: unknown command: frob".to_string(), true, 2));
}

#[test]
fn refuses_inside_environment() {
    let (message, usage, code) = failure(dispatch(&cfg(), &strings(&["env", "info"]), true, &host()));
    assert_eq!(code, 2);
    assert!(!usage);
    assert_eq!(message, already_inside_message(&strings(&["env", "info"])));
    assert!(message.ends_with("requested command: yx env info"));
    assert!(message.starts_with("yx-external: YXENV=1 is set"));
}

#[test]
fn container_dispatch() {
    let c = container_cfg(Some("img"));
    let p = printed(dispatch(&c, &strings(&["kas", "dump"]), false, &host()));
    assert_eq!(p, "docker run --rm -ti -u 1001:1002 -v /proj/sub:/proj/sub:rw -v /tmp:/tmp:rw -v /var/tmp:/var/tmp:rw --workdir /proj/sub img yx kas dump");
}

#[test]
fn info_report() {
    let lines = external_info_lines(&container_cfg(Some("img")), "0.1.0", "/proj");
    assert_eq!(lines, strings(&[
        "yx-external 0.1.0",
        "project root: /proj",
        "backend: container",
        "yxenv ref: github:why-ex/yx-env",
        "profile: yocto-scarthgap-kas52",
        "default kas file: kas/project.yml",
        "default target: core-image-minimal",
        "container image: img",
    ]));
    assert_eq!(external_info_lines(&cfg(), "0.1.0", "/proj").len(), 7);
}

#[test]
fn flags_are_taken_out() {
    let mut args = strings(&["kas", "--dry-run", "dump", "--dry-run"]);
    assert!(take_flag(&mut args, "--dry-run"));
    assert_eq!(args, strings(&["kas", "dump", "--dry-run"]));
    assert!(!take_flag(&mut args, "--nope"));
    assert_eq!(args, strings(&["kas", "dump", "--dry-run"]));
}

#[test]
fn dry_run_aliases() {
    let mut a = strings(&["--print-command", "kas", "dump"]);
    assert!(take_dry_run(&mut a));
    assert_eq!(a, strings(&["kas", "dump"]));
    let mut b = strings(&["--dry-run", "kas", "--print-command"]);
    assert!(take_dry_run(&mut b));
    assert_eq!(b, strings(&["kas", "--print-command"]));
    let mut c = strings(&["kas"]);
    assert!(!take_dry_run(&mut c));
    assert_eq!(c, strings(&["kas"]));
}

#[test]
fn prepend_head() {
    assert_eq!(prepend("env", &strings(&["exec", "x"])), strings(&["env", "exec", "x"]));
}

#[test]
fn host_facts_only_for_container_entry() {
    let img = container_cfg(Some("img"));
    assert!(needs_host(&img, &strings(&["kas", "dump"]), false));
    assert!(needs_host(&img, &strings(&["shell"]), false));
    assert!(needs_host(&img, &strings(&["env", "exec", "--", "ls"]), false));
    assert!(!needs_host(&img, &strings(&["env", "info"]), false));
    assert!(!needs_host(&img, &strings(&["env"]), false));
    assert!(!needs_host(&img, &strings(&["kas", "dump"]), true));
    assert!(!needs_host(&img, &strings(&["--help"]), false));
    assert!(!needs_host(&img, &strings(&["frob"]), false));
    assert!(!needs_host(&container_cfg(None), &strings(&["kas", "dump"]), false));
    assert!(!needs_host(&cfg(), &strings(&["kas", "dump"]), false));
}

#[test]
fn nearest_probe_wins() {
    assert_eq!(first_found(&[false, true, true]), Some(1));
    assert_eq!(first_found(&[true, false]), Some(0));
    assert_eq!(first_found(&[false, false]), None);
    assert_eq!(first_found(&[]), None);
}
