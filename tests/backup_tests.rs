use dotfiles::backup::{
    backup_file, find_all_backup_versions, find_backup_by_version, find_latest_backup,
    latest_in_listing, parse_backup_name, version_label, versions_in_listing, BackupEntry,
};
use dotfiles::error::DotfilesError;

fn file(name: &str) -> BackupEntry {
    BackupEntry { name: name.to_string(), is_file: true }
}

fn dir(name: &str) -> BackupEntry {
    BackupEntry { name: name.to_string(), is_file: false }
}

fn three_versions() -> Option<Vec<BackupEntry>> {
    Some(vec![
        file("test_file.txt.1678886400"),
        file("test_file.txt.1678972800"),
        file("test_file.txt.1679059200"),
    ])
}

#[test]
fn test_backup_file() {
    let plan = backup_file("/home/u/test_file.txt", "/backups", true, true, 1700000000, false).unwrap();
    assert!(plan.write);
    assert!(plan.backup_path.starts_with("/backups/test_file.txt."));
    assert_eq!(plan.backup_path, "/backups/test_file.txt.1700000000");

    // A dry run writes nothing, even where the directory is missing.
    let dry = backup_file("/home/u/test_file.txt", "/dry_run", false, true, 1700000000, true).unwrap();
    assert!(!dry.write);
    assert_eq!(dry.backup_path, "/dry_run/test_file.txt.1700000000");
}

#[test]
fn backup_file_errors() {
    assert_eq!(
        backup_file("/home/u/a.txt", "/backups", false, true, 5, false).unwrap_err(),
        DotfilesError::MissingDirectory
    );
    assert_eq!(
        backup_file("/home/u/a.txt", "/backups", true, false, 5, false).unwrap_err(),
        DotfilesError::MissingSource
    );
    assert_eq!(
        backup_file("/", "/backups", true, true, 5, false).unwrap_err(),
        DotfilesError::InvalidPath
    );
}

#[test]
fn backup_file_keeps_dots_of_dotfiles() {
    let plan = backup_file("/home/u/.bashrc", "/b", true, true, 1000000000, false).unwrap();
    assert_eq!(plan.backup_path, "/b/.bashrc.1000000000");
}

#[test]
fn test_find_backup_by_version() {
    let found = find_backup_by_version("test_file.txt", "1678972800", "/backup_1", &three_versions());
    assert_eq!(found.unwrap(), "/backup_1/test_file.txt.1678972800");
}

#[test]
fn find_backup_by_version_missing() {
    let listing = three_versions();
    assert_eq!(
        find_backup_by_version("test_file.txt", "1", "/b", &listing).unwrap_err(),
        DotfilesError::NotFound
    );
    assert_eq!(
        find_backup_by_version("test_file.txt", "1678972800", "/b", &None).unwrap_err(),
        DotfilesError::NotFound
    );
    assert_eq!(
        find_backup_by_version("..", "1678972800", "/b", &listing).unwrap_err(),
        DotfilesError::InvalidPath
    );
}

#[test]
fn find_backup_by_version_uses_the_file_name() {
    let listing = Some(vec![file("config.fish.300")]);
    let found = find_backup_by_version(".config/fish/config.fish", "300", "/b", &listing);
    assert_eq!(found.unwrap(), "/b/config.fish.300");
}

#[test]
fn test_find_latest_backup() {
    let latest = find_latest_backup("test_file.txt", "/backup_2", &three_versions()).unwrap();
    assert_eq!(latest, "/backup_2/test_file.txt.1679059200");
}

#[test]
fn find_latest_backup_none() {
    assert_eq!(
        find_latest_backup("test_file.txt", "/b", &Some(vec![])).unwrap_err(),
        DotfilesError::NotFound
    );
    assert_eq!(find_latest_backup("test_file.txt", "/b", &None).unwrap_err(), DotfilesError::NotFound);
    assert_eq!(
        find_latest_backup("other.txt", "/b", &three_versions()).unwrap_err(),
        DotfilesError::NotFound
    );
    assert_eq!(latest_in_listing("x", "/b", &None).unwrap_err(), DotfilesError::NotFound);
}

#[test]
fn test_find_all_backup_versions() {
    let versions = find_all_backup_versions("test_file.txt", "/backup_3", &three_versions()).unwrap();
    assert_eq!(versions.len(), 3, "Should find 3 backup versions");
    assert_eq!(versions[0], (1678886400, "/backup_3/test_file.txt.1678886400".to_string()));
    assert_eq!(versions[1], (1678972800, "/backup_3/test_file.txt.1678972800".to_string()));
    assert_eq!(versions[2], (1679059200, "/backup_3/test_file.txt.1679059200".to_string()));
}

#[test]
fn find_all_sorts_and_skips() {
    let listing = Some(vec![
        file(".vimrc.200"),
        dir(".vimrc.50"),
        file(".vimrc.abc"),
        file(".vimrc"),
        file(".bashrc.10"),
        file(".vimrc.100"),
        file("noext"),
        file(".vimrc.7"),
    ]);
    let versions = find_all_backup_versions(".vimrc", "/b", &listing).unwrap();
    let got: Vec<u64> = versions.iter().map(|v| v.0).collect();
    assert_eq!(got, vec![7, 100, 200]);
    assert_eq!(versions[2].1, "/b/.vimrc.200");
    assert!(find_all_backup_versions(".vimrc", "/b", &None).unwrap().is_empty());
    assert_eq!(find_all_backup_versions("", "/b", &listing).unwrap_err(), DotfilesError::InvalidPath);
}

#[test]
fn latest_among_equal_versions_is_the_last_listed() {
    let listing = Some(vec![file("f.10"), file("f.010"), file("f.9")]);
    assert_eq!(find_latest_backup("f", "/b", &listing).unwrap(), "/b/f.010");
    let sorted = versions_in_listing("f", "/b", &listing);
    assert_eq!(sorted[0].0, 9);
    assert_eq!(sorted[1].1, "/b/f.10");
    assert_eq!(sorted[2].1, "/b/f.010");
}

#[test]
fn written_versions_listed_once_in_order() {
    // Backups written at increasing times come back sorted, once each,
    // whatever the directory order; the latest is the greatest.
    let names: Vec<String> = [300u64, 100, 200]
        .iter()
        .map(|v| {
            let p = backup_file("/h/.bashrc", "/b", true, true, *v, false).unwrap().backup_path;
            p.trim_start_matches("/b/").to_string()
        })
        .collect();
    let listing = Some(names.iter().map(|n| file(n)).collect::<Vec<_>>());
    let all = find_all_backup_versions("/h/.bashrc", "/b", &listing).unwrap();
    assert_eq!(
        all,
        vec![
            (100, "/b/.bashrc.100".to_string()),
            (200, "/b/.bashrc.200".to_string()),
            (300, "/b/.bashrc.300".to_string()),
        ]
    );
    assert_eq!(find_latest_backup(".bashrc", "/b", &listing).unwrap(), "/b/.bashrc.300");
}

#[test]
fn backup_name_round_trip() {
    let plan = backup_file("/h/.bash.profile.d", "/b", true, true, 1000000000, false).unwrap();
    assert_eq!(plan.backup_path, "/b/.bash.profile.d.1000000000");
    let listing = Some(vec![file(".bash.profile.d.1000000000")]);
    assert_eq!(
        find_backup_by_version(".bash.profile.d", "1000000000", "/b", &listing).unwrap(),
        plan.backup_path
    );
    assert_eq!(
        parse_backup_name(".bash.profile.d.1000000000"),
        Some((".bash.profile.d".to_string(), 1000000000))
    );
}

#[test]
fn parse_backup_name_cases() {
    assert_eq!(parse_backup_name(".bashrc.1000000000"), Some((".bashrc".to_string(), 1000000000)));
    assert_eq!(parse_backup_name("noext"), None);
    assert_eq!(parse_backup_name("a.b.x"), None);
    assert_eq!(parse_backup_name("a."), None);
    assert_eq!(parse_backup_name("a.+7"), Some(("a".to_string(), 7)));
    assert_eq!(parse_backup_name(".5"), Some(("".to_string(), 5)));
}

#[test]
fn version_labels() {
    assert_eq!(version_label(0), "1970-01-01 00:00:00");
    assert_eq!(version_label(1000000000), "2001-09-09 01:46:40");
    assert_eq!(version_label(u64::MAX), "1969-12-31 23:59:59");
    assert_eq!(version_label(9223372036854775807), "9223372036854775807");
}
