use dotfiles::cli::Args;
use dotfiles::config::{initialize_config, resolve_config, Config};
use dotfiles::error::DotfilesError;
use dotfiles::paths::{get_backup_dir, get_config_path, get_home_dir, legacy_config_path};

fn config(dir: &str) -> Config {
    Config { source_dir: dir.to_string() }
}

#[test]
fn test_initialize_config() {
    let c = initialize_config("/custom/dotfiles/path");
    assert!(c.source_dir.contains("/custom/dotfiles/path"));
}

#[test]
fn test_default_config() {
    let choice = resolve_config(None, None).unwrap();
    assert_eq!(choice.config.source_dir, ".");
    assert_eq!(Config::default().source_dir, ".");
}

#[test]
fn test_get_config_path() {
    assert_eq!(get_config_path("/tmp/home_1"), "/tmp/home_1/.dotfiles-rustrc.yaml");
    assert_eq!(get_config_path("/tmp/home_1/"), "/tmp/home_1/.dotfiles-rustrc.yaml");
    assert_eq!(legacy_config_path("/h"), "/h/.dotfiles-rustrc");
}

#[test]
fn test_get_home_dir() {
    let home = get_home_dir(Some("/tmp/home_2".to_string()), Some("/root".to_string())).unwrap();
    assert_eq!(home, "/tmp/home_2");
    let home = get_home_dir(None, Some("/root".to_string())).unwrap();
    assert!(home.starts_with("/"));
    assert_eq!(get_home_dir(None, None).unwrap_err(), DotfilesError::MissingDirectory);
}

#[test]
fn test_get_backup_dir() {
    assert_eq!(get_backup_dir("/tmp/home_3"), "/tmp/home_3/.local/share/dotfiles-rust/backup");
}

#[test]
fn test_migrate_json_to_yaml() {
    let choice = resolve_config(None, Some(Some(config("/old/json/config/path")))).unwrap();
    assert_eq!(choice.config.source_dir, "/old/json/config/path");
    assert!(choice.migrate_legacy);
}

#[test]
fn config_choices() {
    let choice = resolve_config(Some(Some(config("/a"))), Some(Some(config("/b")))).unwrap();
    assert_eq!(choice.config.source_dir, "/a");
    assert!(!choice.migrate_legacy);
    assert_eq!(resolve_config(Some(None), None).unwrap_err(), DotfilesError::InvalidConfig);
    let choice = resolve_config(None, Some(None)).unwrap();
    assert_eq!(choice.config.source_dir, ".");
    assert!(!choice.migrate_legacy);
}

#[test]
fn read_only_commands() {
    assert!(Args::Status { verbose: false }.is_read_only());
    assert!(Args::List { file: None }.is_read_only());
    assert!(Args::Install { dry_run: true, force: false, backup: true, verbose: false }.is_read_only());
    assert!(!Args::Install { dry_run: false, force: false, backup: true, verbose: false }.is_read_only());
    assert!(!Args::ClearBackups { force: true }.is_read_only());
    assert!(!Args::Init { source_dir: ".".to_string() }.is_read_only());
}
