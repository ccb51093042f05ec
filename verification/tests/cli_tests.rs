use vibevoice_tts_provider::cli::CliOptions;

fn args(list: &[&str]) -> Vec<String> {
    list.iter().map(|s| s.to_string()).collect()
}

#[test]
fn cli_defaults() {
    let opts = CliOptions::from_args(&args(&["provider"]));
    assert!(!opts.no_tui);
    assert_eq!(opts.config_path, "config.toml");
}

#[test]
fn cli_no_tui_and_path() {
    let opts = CliOptions::from_args(&args(&["provider", "--no-tui", "my.toml"]));
    assert!(opts.no_tui);
    assert_eq!(opts.config_path, "my.toml");
}

#[test]
fn cli_path_before_flag() {
    let opts = CliOptions::from_args(&args(&["provider", "a.toml", "--no-tui", "b.toml"]));
    assert!(opts.no_tui);
    assert_eq!(opts.config_path, "a.toml");
}

#[test]
fn cli_skips_dashed_and_program_name() {
    let opts = CliOptions::from_args(&args(&["provider", "-v", "provider", "c.toml"]));
    assert!(!opts.no_tui);
    assert_eq!(opts.config_path, "c.toml");
}

#[test]
fn cli_empty_args() {
    let opts = CliOptions::from_args(&Vec::new());
    assert!(!opts.no_tui);
    assert_eq!(opts.config_path, "config.toml");
}
