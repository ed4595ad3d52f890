use autocheck::checks::{command_line, is_json_file_name, Check, ChecksConfig, Cmd, Group};

fn check(name: &str, cmd: Cmd) -> Check {
    Check { name: name.into(), description: "d".into(), cmd, manual: false, audited: false }
}

fn valid_config() -> ChecksConfig {
    ChecksConfig {
        project_root: None,
        path_log_file: None,
        groups: vec![Group {
            label: "Quality".into(),
            color: Some("Green".into()),
            checks: vec![Check {
                name: "fmt".into(),
                description: "Check formatting".into(),
                cmd: Cmd::Array(vec!["cargo".into(), "fmt".into(), "--check".into()]),
                manual: false,
                audited: false,
            }],
        }],
    }
}

#[test]
fn test_valid_config_loads() {
    let cfg = valid_config().validate().unwrap();
    assert_eq!(cfg.groups.len(), 1);
    assert_eq!(cfg.groups[0].checks.len(), 1);
}

#[test]
fn test_empty_groups_rejected() {
    let cfg = ChecksConfig { project_root: None, path_log_file: None, groups: vec![] };
    let result = cfg.validate();
    assert!(result.is_err());
}

#[test]
fn test_empty_checks_rejected() {
    let cfg = ChecksConfig {
        project_root: None,
        path_log_file: None,
        groups: vec![Group { label: "A".into(), color: None, checks: vec![] }],
    };
    let result = cfg.validate();
    assert!(result.is_err());
}

#[test]
fn test_string_cmd() {
    let c = check("x", Cmd::String("cargo fmt".into()));
    let args = c.cmd.as_args();
    assert_eq!(args, vec!["cargo fmt"]);
}

#[test]
fn test_array_cmd() {
    let c = check("x", Cmd::Array(vec!["cargo".into(), "fmt".into()]));
    let args = c.cmd.as_args();
    assert_eq!(args, vec!["cargo", "fmt"]);
}

#[test]
fn validation_error_messages() {
    let empty = ChecksConfig { project_root: None, path_log_file: None, groups: vec![] };
    assert_eq!(empty.validate().unwrap_err(), "Config must contain at least one group");
    let cfg = ChecksConfig {
        project_root: None,
        path_log_file: None,
        groups: vec![
            Group { label: "A".into(), color: None, checks: vec![check("x", Cmd::String("x".into()))] },
            Group { label: "B".into(), color: None, checks: vec![] },
            Group { label: "C".into(), color: None, checks: vec![] },
        ],
    };
    assert_eq!(cfg.validate().unwrap_err(), "Group 'B' has no checks");
}

#[test]
fn is_string_tells_commands_apart() {
    assert!(Cmd::String("a".into()).is_string());
    assert!(!Cmd::Array(vec![]).is_string());
}

#[test]
fn command_lines() {
    assert_eq!(
        command_line(&Cmd::String("cargo fmt".into())),
        Ok(("sh".to_string(), vec!["-c".to_string(), "cargo fmt".to_string()]))
    );
    assert_eq!(
        command_line(&Cmd::Array(vec!["cargo".into(), "test".into(), "-q".into()])),
        Ok(("cargo".to_string(), vec!["test".to_string(), "-q".to_string()]))
    );
    assert_eq!(command_line(&Cmd::Array(vec![])), Err("Empty command".to_string()));
}

#[test]
fn json_file_names() {
    assert!(is_json_file_name("checks.json"));
    assert!(is_json_file_name("a.json"));
    assert!(!is_json_file_name(".json"));
    assert!(!is_json_file_name("checks.jsonx"));
    assert!(!is_json_file_name("checks.yaml"));
    assert!(is_json_file_name("a.b.json"));
}

#[test]
fn clones_are_equal() {
    let c = valid_config();
    let g = c.groups[0].clone();
    assert_eq!(g.label, "Quality");
    assert_eq!(g.checks[0].cmd.as_args(), vec!["cargo", "fmt", "--check"]);
}
