use lib::env::{EnvState, YX_PROTOCOL};

#[test]
fn inside_only_when_marker_is_one() {
    let s = EnvState::from_vars(Some("1".to_string()), Some("p".to_string()), None, Some("devshell".to_string()), Some("kas".to_string()));
    assert!(s.inside);
    assert_eq!(s.profile, Some("p".to_string()));
    assert_eq!(s.version, None);
    assert_eq!(s.backend, Some("devshell".to_string()));
    assert_eq!(s.layer, Some("kas".to_string()));
    assert!(!EnvState::from_vars(Some("0".to_string()), None, None, None, None).inside);
    assert!(!EnvState::from_vars(Some("1 ".to_string()), None, None, None, None).inside);
    assert!(!EnvState::from_vars(None, None, None, None, None).inside);
}

#[test]
fn protocol_version() {
    assert_eq!(YX_PROTOCOL, 1);
}
