use autocheck::config::{dirs_path, SavedConfig};

#[test]
fn test_parse_all_keys() {
    let content = "repo=/my/repo\nbranch=main\nselected_config=/some/config.json\nlog_folder=logs\n";
    let cfg = SavedConfig::parse(content);
    assert_eq!(cfg.repo, "/my/repo");
    assert_eq!(cfg.branch, "main");
    assert_eq!(cfg.selected_config, "/some/config.json");
    assert_eq!(cfg.log_folder, "logs");
}

#[test]
fn test_missing_keys_default_empty() {
    let cfg = SavedConfig::parse("");
    assert_eq!(cfg.repo, "");
    assert_eq!(cfg.branch, "");
    assert_eq!(cfg.selected_config, "");
    assert_eq!(cfg.log_folder, "");
}

#[test]
fn test_unknown_keys_ignored() {
    let content = "foo=bar\nrepo=/x\nbaz=qux\n";
    let cfg = SavedConfig::parse(content);
    assert_eq!(cfg.repo, "/x");
    assert_eq!(cfg.branch, "");
}

#[test]
fn test_round_trip() {
    let cfg = SavedConfig {
        repo: "/repo".into(),
        branch: "dev".into(),
        selected_config: "/cfg.json".into(),
        log_folder: "logs".into(),
    };
    let s = cfg.to_string_repr();
    let cfg2 = SavedConfig::parse(&s);
    assert_eq!(cfg2.repo, cfg.repo);
    assert_eq!(cfg2.branch, cfg.branch);
    assert_eq!(cfg2.selected_config, cfg.selected_config);
    assert_eq!(cfg2.log_folder, cfg.log_folder);
}

#[test]
fn parse_trims_lines_and_handles_crlf() {
    let cfg = SavedConfig::parse("  repo=/a b  \r\nbranch=x\r\nlog_folder=l");
    assert_eq!(cfg.repo, "/a b");
    assert_eq!(cfg.branch, "x");
    assert_eq!(cfg.log_folder, "l");
}

#[test]
fn parse_later_line_wins() {
    let cfg = SavedConfig::parse("repo=/first\nrepo=/second\n");
    assert_eq!(cfg.repo, "/second");
}

#[test]
fn to_string_repr_exact_text() {
    let cfg = SavedConfig {
        repo: "/r".into(),
        branch: "b".into(),
        selected_config: "c".into(),
        log_folder: "".into(),
    };
    assert_eq!(cfg.to_string_repr(), "repo=/r\nbranch=b\nselected_config=c\nlog_folder=\n");
}

#[test]
fn round_trip_loses_trailing_space() {
    // A value ending with whitespace is trimmed when read back.
    let cfg = SavedConfig {
        repo: "/r".into(),
        branch: "dev ".into(),
        selected_config: "".into(),
        log_folder: "".into(),
    };
    let back = SavedConfig::parse(&cfg.to_string_repr());
    assert_eq!(back.branch, "dev");
}

#[test]
fn default_is_empty() {
    let cfg = SavedConfig::default();
    assert_eq!(cfg.repo, "");
    assert_eq!(cfg.log_folder, "");
}

#[test]
fn config_paths_below_home() {
    assert_eq!(
        SavedConfig::config_path(Some("/home/u".to_string())),
        Some("/home/u/.config/autocheck/config".to_string())
    );
    assert_eq!(
        SavedConfig::legacy_path(Some("/home/u/".to_string())),
        Some("/home/u/.config/pre_commit/config".to_string())
    );
    assert_eq!(dirs_path(Some("/h".to_string())), Some("/h/.config/autocheck".to_string()));
    assert_eq!(SavedConfig::config_path(None), None);
}

#[test]
fn stored_setup_prefers_primary_file() {
    let p = SavedConfig::from_stored(Some("repo=/a\n".into()), Some("repo=/b\n".into()));
    assert_eq!(p.repo, "/a");
    let l = SavedConfig::from_stored(None, Some("repo=/b\n".into()));
    assert_eq!(l.repo, "/b");
    let d = SavedConfig::from_stored(None, None);
    assert_eq!(d.repo, "");
    assert_eq!(d.branch, "");
}
