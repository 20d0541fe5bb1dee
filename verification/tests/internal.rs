use std::path::PathBuf;

use lib::config::ProjectConfig;
use lib::env::EnvState;
use lib::internal::{
    bitbake_cmd, build_cmd, devshell_cmd, dispatch, doctor_exit_code, doctor_line, doctor_tools,
    env_cmd, env_info_lines, handshake_line, kas_cmd, manifest_cmd, run_passthrough,
};
use lib::plan::Step;

fn cfg() -> ProjectConfig {
    ProjectConfig::with_root(PathBuf::from("/proj"))
}

fn strings(v: &[&str]) -> Vec<String> {
    v.iter().map(|s| s.to_string()).collect()
}

fn printed(step: Step) -> String {
    match step {
        Step::Run(c) => c.printable(),
        other => panic!("expected a command, got {:?}", other),
    }
}

fn failure(step: Step) -> (String, bool, i32) {
    match step {
        Step::Fail { message, usage, code } => (message, usage, code),
        other => panic!("expected a failure, got {:?}", other),
    }
}

#[test]
fn bitbake_runs_in_kas_shell() {
    let c = bitbake_cmd(&cfg(), &strings(&["core-image-minimal"]));
    assert_eq!(c.program, "kas");
    assert_eq!(c.args, strings(&["shell", "kas/project.yml", "-c", "bitbake core-image-minimal"]));
    assert_eq!(c.envs, vec![("YX_LAYER".to_string(), "kas".to_string())]);
    assert_eq!(c.cwd, None);
}

#[test]
fn build_defaults_to_configured_target() {
    let c = build_cmd(&cfg(), &[]);
    assert_eq!(c.args[3], "bitbake core-image-minimal");
    let c = build_cmd(&cfg(), &strings(&["my image"]));
    assert_eq!(c.args[3], "bitbake 'my image'");
}

#[test]
fn devshell_maps_to_bitbake_c_devshell() {
    assert_eq!(
        printed(devshell_cmd(&cfg(), &strings(&["busybox"]))),
        "YX_LAYER=kas kas shell kas/project.yml -c 'bitbake -c devshell busybox'"
    );
    assert_eq!(failure(devshell_cmd(&cfg(), &[])), ("usage: yx devshell <recipe>".to_string(), false, 2));
}

#[test]
fn manifest_uses_for_all_repos() {
    let c = manifest_cmd(&cfg(), &[]);
    assert_eq!(c.args, strings(&["for-all-repos", "kas/project.yml", "printf '%s ' \"$KAS_REPO_NAME\"; git rev-parse HEAD"]));
    let c = manifest_cmd(&cfg(), &strings(&["other.yml"]));
    assert_eq!(c.args[1], "other.yml");
}

#[test]
fn passthrough_runs_command_in_layer() {
    assert_eq!(printed(run_passthrough(&strings(&["echo", "ok"]), "env")), "YX_LAYER=env echo ok");
    assert_eq!(failure(run_passthrough(&[], "env")), ("usage: yx env exec -- <command> [args...]".to_string(), false, 2));
}

#[test]
fn kas_subcommands() {
    let c = cfg();
    assert_eq!(printed(kas_cmd(&c, &strings(&["shell"]))), "YX_LAYER=kas kas shell kas/project.yml");
    assert_eq!(printed(kas_cmd(&c, &strings(&["shell", "x.yml"]))), "YX_LAYER=kas kas shell x.yml");
    assert_eq!(printed(kas_cmd(&c, &strings(&["dump"]))), "kas dump kas/project.yml");
    assert_eq!(printed(kas_cmd(&c, &strings(&["checkout", "b.yml"]))), "kas checkout b.yml");
    for sub in ["build", "lock", "menu", "clean", "cleanall", "purge"] {
        assert_eq!(printed(kas_cmd(&c, &strings(&[sub]))), format!("kas {} kas/project.yml", sub));
    }
    assert_eq!(
        printed(kas_cmd(&c, &strings(&["exec", "--", "bitbake-layers", "show-layers"]))),
        "YX_LAYER=kas kas shell kas/project.yml -c 'bitbake-layers show-layers'"
    );
    assert_eq!(
        printed(kas_cmd(&c, &strings(&["for-all-repos", "a.yml", "--", "git", "status"]))),
        "kas for-all-repos a.yml 'git status'"
    );
    assert_eq!(
        printed(kas_cmd(&c, &strings(&["for-all-repos", "--", "git", "status"]))),
        "kas for-all-repos kas/project.yml 'git status'"
    );
    assert_eq!(
        printed(kas_cmd(&c, &strings(&["for-all-repos", "git", "status"]))),
        "kas for-all-repos kas/project.yml 'git status'"
    );
}

#[test]
fn kas_errors() {
    let c = cfg();
    assert_eq!(failure(kas_cmd(&c, &[])).2, 2);
    assert_eq!(failure(kas_cmd(&c, &strings(&["exec", "--"]))), ("usage: yx kas exec -- <command> [args...]".to_string(), false, 2));
    assert_eq!(failure(kas_cmd(&c, &strings(&["for-all-repos"]))), ("usage: yx kas for-all-repos [kas.yml] -- <command>".to_string(), false, 2));
    assert_eq!(failure(kas_cmd(&c, &strings(&["frob"]))), ("yx kas: unknown subcommand: frob".to_string(), false, 2));
}

#[test]
fn env_subcommands_inside() {
    assert!(matches!(env_cmd(&[], None), Step::Info));
    assert!(matches!(env_cmd(&strings(&["info"]), None), Step::Info));
    assert!(matches!(env_cmd(&strings(&["doctor"]), None), Step::Doctor));
    assert_eq!(printed(env_cmd(&strings(&["shell"]), None)), "YX_LAYER=env bash");
    assert_eq!(printed(env_cmd(&strings(&["shell"]), Some("/bin/zsh".to_string()))), "YX_LAYER=env /bin/zsh");
    assert_eq!(printed(env_cmd(&strings(&["exec", "--", "kas", "--version"]), None)), "YX_LAYER=env kas --version");
    assert_eq!(failure(env_cmd(&strings(&["nope"]), None)), ("yx env: unknown subcommand: nope".to_string(), false, 2));
}

#[test]
fn dispatch_routes_commands() {
    let c = cfg();
    assert!(matches!(dispatch(&c, &[], None), Step::Usage));
    assert!(matches!(dispatch(&c, &strings(&["--internal-handshake"]), None), Step::Handshake));
    assert!(matches!(dispatch(&c, &strings(&["__handshake"]), None), Step::Handshake));
    assert!(matches!(dispatch(&c, &strings(&["help"]), None), Step::Usage));
    assert!(matches!(dispatch(&c, &strings(&["-h"]), None), Step::Usage));
    assert!(matches!(dispatch(&c, &strings(&["doctor"]), None), Step::Doctor));
    assert!(matches!(dispatch(&c, &strings(&["env", "info"]), None), Step::Info));
    assert_eq!(printed(dispatch(&c, &strings(&["kas", "dump"]), None)), "kas dump kas/project.yml");
    assert_eq!(printed(dispatch(&c, &strings(&["bitbake", "core-image-minimal"]), None)), "YX_LAYER=kas kas shell kas/project.yml -c 'bitbake core-image-minimal'");
    assert_eq!(printed(dispatch(&c, &strings(&["build"]), None)), "YX_LAYER=kas kas shell kas/project.yml -c 'bitbake core-image-minimal'");
    assert_eq!(printed(dispatch(&c, &strings(&["devshell", "busybox"]), None)), "YX_LAYER=kas kas shell kas/project.yml -c 'bitbake -c devshell busybox'");
    assert_eq!(printed(dispatch(&c, &strings(&["manifest"]), None)), "kas for-all-repos kas/project.yml 'printf '\\''%s '\\'' \"$KAS_REPO_NAME\"; git rev-parse HEAD'");
    assert_eq!(failure(dispatch(&c, &strings(&["launch"]), None)), ("yx-internal: unknown command: launch".to_string(), true, 2));
}

#[test]
fn handshake_is_json() {
    assert_eq!(
        handshake_line("0.1.0"),
        "{\"kind\":\"yx-internal\",\"version\":\"0.1.0\",\"protocol\":1,\"capabilities\":[\"env\",\"kas\",\"bitbake\",\"manifest\"]}"
    );
    assert!(handshake_line("1\"2").contains("\"version\":\"1\\\"2\""));
}

#[test]
fn env_info_report() {
    let state = EnvState::from_vars(Some("1".to_string()), Some("prof".to_string()), None, None, None);
    let lines = env_info_lines(&cfg(), &state, "0.1.0", "/proj");
    assert_eq!(lines, strings(&[
        "yx-internal 0.1.0",
        "protocol: 1",
        "inside yxenv: true",
        "yxenv profile: prof",
        "yxenv version: <unknown>",
        "yxenv backend: <unknown>",
        "current layer: env",
        "project root: /proj",
        "configured profile: yocto-scarthgap-kas52",
        "default kas file: kas/project.yml",
    ]));
}

#[test]
fn doctor_report() {
    let tools = doctor_tools();
    assert_eq!(tools, strings(&["git", "kas", "python3", "bitbake", "bitbake-layers", "bash"]));
    assert_eq!(doctor_line(&tools[0], true), "  git              ok");
    assert_eq!(doctor_line(&tools[4], false), "  bitbake-layers   missing");
    assert_eq!(doctor_exit_code(&[true; 6]), 0);
    assert_eq!(doctor_exit_code(&[true, true, true, false, false, true]), 0);
    assert_eq!(doctor_exit_code(&[true, false, true, true, true, true]), 1);
    assert_eq!(doctor_exit_code(&[true, true, true, true, true, false]), 1);
}
