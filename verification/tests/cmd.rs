use std::path::PathBuf;

use lib::cmd::{exit_code, id_or_default, names_a_path, CmdSpec, RunStep};

#[test]
fn builder_collects_parts() {
    let c = CmdSpec::new("kas".to_string())
        .arg("shell".to_string())
        .args(vec!["a.yml".to_string(), "-c".to_string()])
        .cwd(PathBuf::from("/proj"))
        .env("YX_LAYER".to_string(), "kas".to_string());
    assert_eq!(c.program, "kas");
    assert_eq!(c.args, vec!["shell", "a.yml", "-c"]);
    assert_eq!(c.cwd, Some(PathBuf::from("/proj")));
    assert_eq!(c.envs, vec![("YX_LAYER".to_string(), "kas".to_string())]);
}

#[test]
fn new_command_is_bare() {
    let c = CmdSpec::new("true".to_string());
    assert!(c.args.is_empty());
    assert!(c.envs.is_empty());
    assert_eq!(c.cwd, None);
    assert_eq!(c.printable(), "true");
}

#[test]
fn printable_quotes_each_part() {
    let c = CmdSpec::new("kas".to_string())
        .arg("shell".to_string())
        .arg("kas/project.yml".to_string())
        .arg("-c".to_string())
        .arg("bitbake core-image-minimal".to_string())
        .env("YX_LAYER".to_string(), "kas".to_string());
    assert_eq!(c.printable(), "YX_LAYER=kas kas shell kas/project.yml -c 'bitbake core-image-minimal'");
    assert_eq!(c.echo_line(), "+ YX_LAYER=kas kas shell kas/project.yml -c 'bitbake core-image-minimal'");
}

#[test]
fn printable_quotes_env_values() {
    let c = CmdSpec::new("sh".to_string()).env("A".to_string(), "x y".to_string()).env("B".to_string(), String::new());
    assert_eq!(c.printable(), "A='x y' B= sh");
}

#[test]
fn exit_codes() {
    assert_eq!(exit_code(Some(Some(0))), 0);
    assert_eq!(exit_code(Some(Some(1))), 1);
    assert_eq!(exit_code(Some(Some(42))), 42);
    assert_eq!(exit_code(Some(None)), 128);
    assert_eq!(exit_code(None), 127);
}

#[test]
fn path_like_names() {
    assert!(names_a_path("./tool"));
    assert!(names_a_path("/usr/bin/git"));
    assert!(!names_a_path("git"));
    assert!(!names_a_path(""));
}

#[test]
fn ids_from_output() {
    assert_eq!(id_or_default(Some("1001\n")), "1001");
    assert_eq!(id_or_default(Some("  7 ")), "7");
    assert_eq!(id_or_default(None), "1000");
}

#[test]
fn dry_run_only_echoes() {
    let c = CmdSpec::new("kas".to_string()).arg("dump".to_string());
    match c.run_step(true) {
        RunStep::EchoOnly { line, code } => {
            assert_eq!(line, "+ kas dump");
            assert_eq!(code, 0);
        }
        other => panic!("expected echo only, got {:?}", other),
    }
    match c.run_step(false) {
        RunStep::EchoAndLaunch { line } => assert_eq!(line, "+ kas dump"),
        other => panic!("expected launch, got {:?}", other),
    }
}
