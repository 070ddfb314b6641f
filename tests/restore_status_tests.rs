use dotfiles::backup::BackupEntry;
use dotfiles::engine::{FileState, RestoreOutcome};
use dotfiles::restore_all::{latest_per_file, plan_cleanup, plan_source_install, CleanupOutcome};
use dotfiles::status::{diff_snippets, diff_texts, status_of, tally, StatusKind};

fn file(name: &str) -> BackupEntry {
    BackupEntry { name: name.to_string(), is_file: true }
}

#[test]
fn groups_keep_the_latest_of_each_name() {
    let entries = vec![
        file(".vimrc.1000000000"),
        file(".bashrc.1000000100"),
        file(".vimrc.1000000200"),
        BackupEntry { name: ".config".to_string(), is_file: false },
        file("notes"),
        file("x.y"),
    ];
    let groups = latest_per_file(&entries);
    assert_eq!(groups.len(), 2);
    assert_eq!(groups[0].filename, ".vimrc");
    assert_eq!(groups[0].version, 1000000200);
    assert_eq!(groups[0].backup_name, ".vimrc.1000000200");
    assert_eq!(groups[1].filename, ".bashrc");
    assert_eq!(groups[1].version, 1000000100);
    assert!(latest_per_file(&vec![]).is_empty());
}

#[test]
fn cleanup_removes_only_backupless_installed_files() {
    let groups = latest_per_file(&vec![file(".vimrc.1"), file(".bashrc.1")]);
    assert_eq!(plan_cleanup(".vimrc", &groups, true, false), CleanupOutcome::Keep);
    assert_eq!(plan_cleanup(".zshrc", &groups, true, false), CleanupOutcome::Remove);
    assert_eq!(plan_cleanup(".zshrc", &groups, true, true), CleanupOutcome::WouldRemove);
    assert_eq!(plan_cleanup(".zshrc", &groups, false, false), CleanupOutcome::Keep);
    assert_eq!(plan_cleanup(".git/config", &groups, true, false), CleanupOutcome::Keep);
}

#[test]
fn source_install_when_no_backups() {
    let step = plan_source_install(".vimrc", true, false).unwrap();
    assert_eq!(step.outcome, RestoreOutcome::FromSource);
    assert!(step.backup_target && step.copy_source);
    let step = plan_source_install(".vimrc", false, true).unwrap();
    assert!(!step.copy_source && !step.backup_target);
    assert!(plan_source_install("node_modules/a.js", true, false).is_none());
}

#[test]
fn test_status_dotfiles() {
    let src = |s: &str| Some(s.as_bytes().to_vec());
    let tgt = |s: &str| FileState::Present(Some(s.as_bytes().to_vec()));
    let kinds = vec![
        status_of(".vimrc", false, &src("vimrc content"), &FileState::Absent),
        status_of(".bashrc", false, &src("identical content"), &tgt("identical content")),
        status_of(".zshrc", false, &src("source zshrc content"), &tgt("modified zshrc content")),
        status_of(".git/config", false, &src("git config"), &FileState::Absent),
        status_of(".config", true, &None, &FileState::Present(None)),
    ];
    assert_eq!(kinds[0], Some(StatusKind::Missing));
    assert_eq!(kinds[1], Some(StatusKind::Installed));
    assert_eq!(kinds[2], Some(StatusKind::Modified));
    assert_eq!(kinds[3], None);
    assert_eq!(kinds[4], Some(StatusKind::Installed));
    let t = tally(&kinds);
    assert_eq!((t.installed, t.missing, t.modified), (2, 1, 1));
}

#[test]
fn diff_shows_three_clipped_lines() {
    let long_a = "a".repeat(70);
    let long_b = "b".repeat(70);
    let source = format!("same\n{}\nx1\nx2\nx3\nx4\n", long_a);
    let target = format!("same\r\n{}\ny1\ny2\ny3\ny4\nextra\n", long_b);
    let d = diff_texts(&source, &target);
    assert_eq!(d.len(), 3);
    assert_eq!(d[0].line, 2);
    assert_eq!(d[0].source, "a".repeat(60));
    assert_eq!(d[0].target, "b".repeat(60));
    assert_eq!((d[1].line, d[1].source.as_str(), d[1].target.as_str()), (3, "x1", "y1"));
    assert_eq!(d[2].line, 4);
}

#[test]
fn diff_compares_up_to_the_shorter_file() {
    let a = vec!["1".to_string(), "2".to_string()];
    let b = vec!["1".to_string(), "2".to_string(), "3".to_string()];
    assert!(diff_snippets(&a, &b).is_empty());
    assert!(diff_texts("", "anything").is_empty());
}
