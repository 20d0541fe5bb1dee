use std::path::PathBuf;

use lib::config::{unquote, ProjectConfig};

fn defaults() -> ProjectConfig {
    ProjectConfig::with_root(PathBuf::from("/work/proj"))
}

#[test]
fn defaults_match_documentation() {
    let cfg = defaults();
    assert_eq!(cfg.root, PathBuf::from("/work/proj"));
    assert_eq!(cfg.profile, "yocto-scarthgap-kas52");
    assert_eq!(cfg.backend, "nix-develop");
    assert_eq!(cfg.yxenv_ref, "github:why-ex/yx-env");
    assert_eq!(cfg.image, None);
    assert_eq!(cfg.kas_default, "kas/project.yml");
    assert_eq!(cfg.downloads, ".yx/downloads");
    assert_eq!(cfg.sstate, ".yx/sstate");
    assert_eq!(cfg.build_dir, "build");
    assert_eq!(cfg.default_target, "core-image-minimal");
}

#[test]
fn empty_text_keeps_defaults() {
    let cfg = ProjectConfig::from_project_text(PathBuf::from("/p"), "");
    let d = ProjectConfig::with_root(PathBuf::from("/p"));
    assert_eq!(cfg.profile, d.profile);
    assert_eq!(cfg.backend, d.backend);
    assert_eq!(cfg.kas_default, d.kas_default);
    assert_eq!(cfg.image, None);
}

#[test]
fn readme_example_config() {
    let text = "[env]\nprofile = \"yocto-scarthgap-kas52\"\nbackend = \"nix-develop\"\nyxenv = \"github:why-ex/yx-env\"\n\n[kas]\ndefault = \"kas/project.yml\"\n";
    let cfg = ProjectConfig::from_project_text(PathBuf::from("/p"), text);
    assert_eq!(cfg.profile, "yocto-scarthgap-kas52");
    assert_eq!(cfg.backend, "nix-develop");
    assert_eq!(cfg.yxenv_ref, "github:why-ex/yx-env");
    assert_eq!(cfg.kas_default, "kas/project.yml");
}

#[test]
fn configured_values_override_defaults() {
    let text = "[env]\nprofile = other\nbackend = \"podman\"\nimage = \"ghcr.io/x/y:1\"\n[kas]\ndefault = kas/a.yml\n[paths]\ndownloads = /dl\nsstate = /ss\nbuild = out\n[build]\ntarget = my-image\n";
    let cfg = ProjectConfig::from_project_text(PathBuf::from("/p"), text);
    assert_eq!(cfg.profile, "other");
    assert_eq!(cfg.backend, "podman");
    assert_eq!(cfg.image, Some("ghcr.io/x/y:1".to_string()));
    assert_eq!(cfg.kas_default, "kas/a.yml");
    assert_eq!(cfg.downloads, "/dl");
    assert_eq!(cfg.sstate, "/ss");
    assert_eq!(cfg.build_dir, "out");
    assert_eq!(cfg.default_target, "my-image");
}

#[test]
fn alternative_key_names() {
    let text = "[env]\nyxenv_ref = ref\n[paths]\nbuild_dir = b2\n[build]\ndefault_target = t2\n";
    let cfg = ProjectConfig::from_project_text(PathBuf::from("/p"), text);
    assert_eq!(cfg.yxenv_ref, "ref");
    assert_eq!(cfg.build_dir, "b2");
    assert_eq!(cfg.default_target, "t2");
}

#[test]
fn unknown_keys_and_sections_are_ignored() {
    let text = "[env]\nmachine = qemux86\n[layers]\nprofile = nope\n[kas]\nprofile = nope\nrepos = a\n";
    let cfg = ProjectConfig::from_project_text(PathBuf::from("/p"), text);
    assert_eq!(cfg.profile, "yocto-scarthgap-kas52");
    assert_eq!(cfg.kas_default, "kas/project.yml");
}

#[test]
fn keys_outside_sections_are_ignored() {
    let cfg = ProjectConfig::from_project_text(PathBuf::from("/p"), "profile = x\n");
    assert_eq!(cfg.profile, "yocto-scarthgap-kas52");
}

#[test]
fn comments_blank_lines_and_crlf() {
    let text = "# a comment\r\n\r\n[env] # the env section\r\nprofile = p1 # trailing comment\r\n   \r\nbackend=  \"nd\"  \r\n";
    let cfg = ProjectConfig::from_project_text(PathBuf::from("/p"), text);
    assert_eq!(cfg.profile, "p1");
    assert_eq!(cfg.backend, "nd");
}

#[test]
fn section_header_trimming() {
    let text = "[[ env ]]\nprofile = x\n";
    let cfg = ProjectConfig::from_project_text(PathBuf::from("/p"), text);
    assert_eq!(cfg.profile, "x");
}

#[test]
fn later_setting_wins_and_lines_without_equals_skip() {
    let text = "[env]\nprofile = a\njust words\nprofile = b\n";
    let cfg = ProjectConfig::from_project_text(PathBuf::from("/p"), text);
    assert_eq!(cfg.profile, "b");
}

#[test]
fn value_keeps_text_after_first_equals() {
    let text = "[env]\nyxenv = path:/x?a=b\n";
    let cfg = ProjectConfig::from_project_text(PathBuf::from("/p"), text);
    assert_eq!(cfg.yxenv_ref, "path:/x?a=b");
}

#[test]
fn apply_keeps_root_and_untouched_fields() {
    let mut cfg = defaults();
    cfg.apply_toml_like("[paths]\nsstate = s\n");
    assert_eq!(cfg.root, PathBuf::from("/work/proj"));
    assert_eq!(cfg.sstate, "s");
    assert_eq!(cfg.downloads, ".yx/downloads");
}

#[test]
fn unquote_examples() {
    assert_eq!(unquote("  \"abc\"  "), "abc");
    assert_eq!(unquote("\"\""), "");
    assert_eq!(unquote("\""), "\"");
    assert_eq!(unquote("'x'"), "'x'");
    assert_eq!(unquote("\"a\"b\""), "a\"b");
    assert_eq!(unquote("plain"), "plain");
}

#[test]
fn kas_file_prefers_argument() {
    let cfg = defaults();
    assert_eq!(cfg.kas_file(None), "kas/project.yml");
    let other = "kas/other.yml".to_string();
    assert_eq!(cfg.kas_file(Some(&other)), "kas/other.yml");
}

fn fields(c: &ProjectConfig) -> Vec<String> {
    vec![
        c.profile.clone(),
        c.backend.clone(),
        c.yxenv_ref.clone(),
        format!("{:?}", c.image),
        c.kas_default.clone(),
        c.downloads.clone(),
        c.sstate.clone(),
        c.build_dir.clone(),
        c.default_target.clone(),
    ]
}

#[test]
fn applying_twice_is_applying_once() {
    let text = "[env]\nprofile = a\nimage = img\n[paths]\nbuild = b\n[env]\nprofile = c\n";
    let mut once = defaults();
    once.apply_toml_like(text);
    let mut twice = defaults();
    twice.apply_toml_like(text);
    twice.apply_toml_like(text);
    assert_eq!(fields(&once), fields(&twice));
    assert_eq!(once.profile, "c");
}

#[test]
fn texts_in_turn_equal_joined_text() {
    let a = "[env]\nprofile = a\n[paths]\nsstate = s";
    let b = "# comment\n\n[kas]\ndefault = k.yml\n[env]\nbackend = docker";
    let mut in_turn = defaults();
    in_turn.apply_toml_like(a);
    in_turn.apply_toml_like(b);
    let mut joined = defaults();
    joined.apply_toml_like(&format!("{}\n{}", a, b));
    assert_eq!(fields(&in_turn), fields(&joined));
    assert_eq!(joined.kas_default, "k.yml");
    assert_eq!(joined.backend, "docker");
}

#[test]
fn text_without_own_section_continues_previous_one() {
    let a = "[env]\nprofile = a";
    let b = "backend = podman";
    let mut in_turn = defaults();
    in_turn.apply_toml_like(a);
    in_turn.apply_toml_like(b);
    let mut joined = defaults();
    joined.apply_toml_like(&format!("{}\n{}", a, b));
    assert_eq!(in_turn.backend, "nix-develop");
    assert_eq!(joined.backend, "podman");
}
