//! The per-file decisions of install, uninstall and restore.
//!
//! Each operation walks the tracked files one by one; for each, the caller
//! observes the file system and asks here what to do. A step lists the
//! writes to make, in order: parent directories, a backup of the target,
//! then the copy or removal. Under a dry run a step writes nothing and only
//! its outcome is reported.

use vstd::prelude::*;
use crate::text::{contains_seq, contains_str};

verus! {

/// A path is left alone when it holds one of these as a substring.
pub open spec fn is_blacklisted_spec(rel: Seq<char>) -> bool {
    contains_seq(rel, ".git"@) || contains_seq(rel, ".dotfiles-rustrc.yaml"@) || contains_seq(
        rel,
        "README.md"@,
    ) || contains_seq(rel, "node_modules"@) || contains_seq(rel, ".DS_Store"@)
}

/// Whether a relative path is excluded from install, uninstall and status.
pub fn is_blacklisted(rel: &str) -> (r: bool)
    ensures
        r == is_blacklisted_spec(rel@),
{
    contains_str(rel, ".git") || contains_str(rel, ".dotfiles-rustrc.yaml") || contains_str(
        rel,
        "README.md",
    ) || contains_str(rel, "node_modules") || contains_str(rel, ".DS_Store")
}

/// A target file as observed: absent, or present with its bytes when they
/// could be read.
#[derive(Debug, Clone)]
pub enum FileState {
    Absent,
    Present(Option<Vec<u8>>),
}

/// Both files were read and hold the same bytes.
pub open spec fn identical(source: Option<Vec<u8>>, target: FileState) -> bool {
    match source {
        Some(s) => match target {
            FileState::Present(Some(t)) => s@ == t@,
            _ => false,
        },
        None => false,
    }
}

fn same_bytes(a: &Vec<u8>, b: &Vec<u8>) -> (r: bool)
    ensures
        r == (a@ == b@),
{
    if a.len() != b.len() {
        return false;
    }
    let mut i: usize = 0;
    while i < a.len()
        invariant
            a@.len() == b@.len(),
            i <= a@.len(),
            forall|k: int| 0 <= k < i ==> a@[k] == b@[k],
        decreases a@.len() - i,
    {
        if a[i] != b[i] {
            return false;
        }
        i = i + 1;
    }
    assert(a@ =~= b@);
    true
}

/// Whether the source and the target hold the same bytes; an unreadable
/// file counts as different.
pub fn files_identical(source: &Option<Vec<u8>>, target: &FileState) -> (r: bool)
    ensures
        r == identical(*source, *target),
{
    match source {
        Some(s) => match target {
            FileState::Present(Some(t)) => same_bytes(s, t),
            _ => false,
        },
        None => false,
    }
}

/// How install went for one file.
#[derive(Debug, Clone, Copy, PartialEq, Eq, Structural)]
pub enum InstallOutcome {
    /// The path is blacklisted.
    Blacklisted,
    /// The source was copied over the target.
    Copied,
    /// Dry run: the source would be copied, after a backup of the target
    /// if `with_backup`.
    WouldCopy { with_backup: bool },
    /// The target already holds the source's bytes.
    Unchanged,
    /// The target differs and `force` was not given.
    NeedsForce,
}

/// What install does to one file.
#[derive(Debug, Clone, Copy, PartialEq, Eq, Structural)]
pub struct InstallStep {
    pub outcome: InstallOutcome,
    /// Create the target's missing parent directories.
    pub create_parent: bool,
    /// Back up the current target first.
    pub backup_target: bool,
    /// Copy the source over the target.
    pub copy_source: bool,
}

impl InstallStep {
    /// The step changes something on disk.
    pub open spec fn writes(self) -> bool {
        self.create_parent || self.backup_target || self.copy_source
    }
}

/// A step that only reports `outcome`.
pub open spec fn no_writes(outcome: InstallOutcome) -> InstallStep {
    InstallStep { outcome, create_parent: false, backup_target: false, copy_source: false }
}

/// The install decision for one file.
pub open spec fn install_step(
    blacklisted: bool,
    target_exists: bool,
    same: bool,
    force: bool,
    backup: bool,
    dry_run: bool,
) -> InstallStep {
    if blacklisted {
        no_writes(InstallOutcome::Blacklisted)
    } else if target_exists && same {
        no_writes(InstallOutcome::Unchanged)
    } else if target_exists && !force {
        no_writes(InstallOutcome::NeedsForce)
    } else if dry_run {
        no_writes(InstallOutcome::WouldCopy { with_backup: target_exists && backup })
    } else {
        InstallStep {
            outcome: InstallOutcome::Copied,
            create_parent: true,
            backup_target: target_exists && backup,
            copy_source: true,
        }
    }
}

/// Decides what install does to the file at relative path `rel`: a new
/// file is copied; one with the same bytes is left as it is; one that
/// differs is overwritten only with `force`, after a backup if `backup`.
pub fn plan_install(
    rel: &str,
    source: &Option<Vec<u8>>,
    target: &FileState,
    force: bool,
    backup: bool,
    dry_run: bool,
) -> (r: InstallStep)
    ensures
        r == install_step(
            is_blacklisted_spec(rel@),
            *target !is Absent,
            identical(*source, *target),
            force,
            backup,
            dry_run,
        ),
        dry_run ==> !r.writes(),
{
    let blacklisted = is_blacklisted(rel);
    let target_exists = match target {
        FileState::Absent => false,
        FileState::Present(_) => true,
    };
    let same = files_identical(source, target);
    if blacklisted {
        InstallStep {
            outcome: InstallOutcome::Blacklisted,
            create_parent: false,
            backup_target: false,
            copy_source: false,
        }
    } else if target_exists && same {
        InstallStep {
            outcome: InstallOutcome::Unchanged,
            create_parent: false,
            backup_target: false,
            copy_source: false,
        }
    } else if target_exists && !force {
        InstallStep {
            outcome: InstallOutcome::NeedsForce,
            create_parent: false,
            backup_target: false,
            copy_source: false,
        }
    } else if dry_run {
        InstallStep {
            outcome: InstallOutcome::WouldCopy { with_backup: target_exists && backup },
            create_parent: false,
            backup_target: false,
            copy_source: false,
        }
    } else {
        InstallStep {
            outcome: InstallOutcome::Copied,
            create_parent: true,
            backup_target: target_exists && backup,
            copy_source: true,
        }
    }
}

/// How uninstall went for one file.
#[derive(Debug, Clone, Copy, PartialEq, Eq, Structural)]
pub enum UninstallOutcome {
    /// The path is blacklisted.
    Blacklisted,
    /// The target does not exist.
    NotInstalled,
    /// The target differs from the source and `force` was not given.
    Modified,
    /// The latest backup was copied over the target.
    Restored,
    /// The target was removed; it had no backup.
    Removed,
    /// Dry run: the latest backup would be copied over the target.
    WouldRestore,
    /// Dry run: the target would be removed.
    WouldRemove,
}

/// What uninstall does to one file.
#[derive(Debug, Clone, Copy, PartialEq, Eq, Structural)]
pub struct UninstallStep {
    pub outcome: UninstallOutcome,
    /// Copy the latest backup over the target.
    pub restore_backup: bool,
    /// Then delete that backup.
    pub delete_backup: bool,
    /// Remove the target.
    pub remove_target: bool,
}

impl UninstallStep {
    /// The step changes something on disk.
    pub open spec fn writes(self) -> bool {
        self.restore_backup || self.delete_backup || self.remove_target
    }
}

/// The uninstall decision for one file.
pub open spec fn uninstall_step(
    blacklisted: bool,
    target_exists: bool,
    same: bool,
    has_backup: bool,
    force: bool,
    keep_backups: bool,
    dry_run: bool,
) -> UninstallStep {
    let quiet = |o: UninstallOutcome|
        UninstallStep { outcome: o, restore_backup: false, delete_backup: false, remove_target: false };
    if blacklisted {
        quiet(UninstallOutcome::Blacklisted)
    } else if !target_exists {
        quiet(UninstallOutcome::NotInstalled)
    } else if !same && !force {
        quiet(UninstallOutcome::Modified)
    } else if has_backup {
        if dry_run {
            quiet(UninstallOutcome::WouldRestore)
        } else {
            UninstallStep {
                outcome: UninstallOutcome::Restored,
                restore_backup: true,
                delete_backup: !keep_backups,
                remove_target: false,
            }
        }
    } else if dry_run {
        quiet(UninstallOutcome::WouldRemove)
    } else {
        UninstallStep {
            outcome: UninstallOutcome::Removed,
            restore_backup: false,
            delete_backup: false,
            remove_target: true,
        }
    }
}

/// Decides what uninstall does to the file at relative path `rel`, given
/// whether a latest backup of it was found: a target that differs from the
/// source is left alone unless `force`; otherwise the latest backup is put
/// back (and then deleted unless `keep_backups`), or, with no backup, the
/// target is removed.
pub fn plan_uninstall(
    rel: &str,
    source: &Option<Vec<u8>>,
    target: &FileState,
    backup_found: bool,
    force: bool,
    keep_backups: bool,
    dry_run: bool,
) -> (r: UninstallStep)
    ensures
        r == uninstall_step(
            is_blacklisted_spec(rel@),
            *target !is Absent,
            identical(*source, *target),
            backup_found,
            force,
            keep_backups,
            dry_run,
        ),
        dry_run ==> !r.writes(),
{
    let blacklisted = is_blacklisted(rel);
    let target_exists = match target {
        FileState::Absent => false,
        FileState::Present(_) => true,
    };
    let same = files_identical(source, target);
    let mut r = UninstallStep {
        outcome: UninstallOutcome::Blacklisted,
        restore_backup: false,
        delete_backup: false,
        remove_target: false,
    };
    if blacklisted {
    } else if !target_exists {
        r.outcome = UninstallOutcome::NotInstalled;
    } else if !same && !force {
        r.outcome = UninstallOutcome::Modified;
    } else if backup_found {
        if dry_run {
            r.outcome = UninstallOutcome::WouldRestore;
        } else {
            r.outcome = UninstallOutcome::Restored;
            r.restore_backup = true;
            r.delete_backup = !keep_backups;
        }
    } else if dry_run {
        r.outcome = UninstallOutcome::WouldRemove;
    } else {
        r.outcome = UninstallOutcome::Removed;
        r.remove_target = true;
    }
    r
}

/// Which source restoring one named file draws on.
#[derive(Debug, Clone, Copy, PartialEq, Eq, Structural)]
pub enum RestoreOutcome {
    /// The backup asked for is put back.
    FromBackup,
    /// No such backup; the source's copy is installed instead.
    FromSource,
    /// Neither a backup nor a source copy exists, but the target does: the
    /// user is asked whether to delete it.
    ConfirmDelete,
    /// Nothing exists anywhere.
    NothingToRestore,
}

/// What restoring one named file does.
#[derive(Debug, Clone, Copy, PartialEq, Eq, Structural)]
pub struct RestoreStep {
    pub outcome: RestoreOutcome,
    /// Create the target's missing parent directories.
    pub create_parent: bool,
    /// Back up the current target first.
    pub backup_target: bool,
    /// Copy the backup over the target.
    pub copy_backup: bool,
    /// Then delete that backup.
    pub delete_backup: bool,
    /// Copy the source over the target.
    pub copy_source: bool,
}

impl RestoreStep {
    /// The step changes something on disk.
    pub open spec fn writes(self) -> bool {
        self.create_parent || self.backup_target || self.copy_backup || self.delete_backup
            || self.copy_source
    }
}

/// The restore decision for one named file.
pub open spec fn restore_step(
    backup_found: bool,
    source_exists: bool,
    target_exists: bool,
    keep_backups: bool,
    dry_run: bool,
) -> RestoreStep {
    let w = !dry_run;
    let none = RestoreStep {
        outcome: RestoreOutcome::NothingToRestore,
        create_parent: false,
        backup_target: false,
        copy_backup: false,
        delete_backup: false,
        copy_source: false,
    };
    if backup_found {
        RestoreStep {
            outcome: RestoreOutcome::FromBackup,
            create_parent: w,
            copy_backup: w,
            delete_backup: w && !keep_backups,
            ..none
        }
    } else if source_exists {
        RestoreStep {
            outcome: RestoreOutcome::FromSource,
            create_parent: w,
            backup_target: w && target_exists,
            copy_source: w,
            ..none
        }
    } else if target_exists {
        RestoreStep { outcome: RestoreOutcome::ConfirmDelete, ..none }
    } else {
        none
    }
}

/// Decides how to restore one named file, given whether the backup asked
/// for (a version, or the latest) was found: the backup is put back and
/// deleted unless `keep_backups`; failing that the source's copy is
/// installed, after a backup of whatever the target holds; failing that an
/// existing target is offered for deletion.
pub fn plan_restore(
    backup_found: bool,
    source_exists: bool,
    target_exists: bool,
    keep_backups: bool,
    dry_run: bool,
) -> (r: RestoreStep)
    ensures
        r == restore_step(backup_found, source_exists, target_exists, keep_backups, dry_run),
        dry_run ==> !r.writes(),
{
    let w = !dry_run;
    let mut r = RestoreStep {
        outcome: RestoreOutcome::NothingToRestore,
        create_parent: false,
        backup_target: false,
        copy_backup: false,
        delete_backup: false,
        copy_source: false,
    };
    if backup_found {
        r.outcome = RestoreOutcome::FromBackup;
        r.create_parent = w;
        r.copy_backup = w;
        r.delete_backup = w && !keep_backups;
    } else if source_exists {
        r.outcome = RestoreOutcome::FromSource;
        r.create_parent = w;
        r.backup_target = w && target_exists;
        r.copy_source = w;
    } else if target_exists {
        r.outcome = RestoreOutcome::ConfirmDelete;
    }
    r
}

/// What becomes of an orphaned target once the user has answered.
#[derive(Debug, Clone, Copy, PartialEq, Eq, Structural)]
pub enum DeletionOutcome {
    Deleted,
    WouldDelete,
    Cancelled,
}

/// Whether an orphaned target goes, once the user has answered; `confirmed`
/// is whether the answer was yes.
pub fn orphan_deletion(confirmed: bool, dry_run: bool) -> (r: DeletionOutcome)
    ensures
        r == (if !confirmed {
            DeletionOutcome::Cancelled
        } else if dry_run {
            DeletionOutcome::WouldDelete
        } else {
            DeletionOutcome::Deleted
        }),
{
    if !confirmed {
        DeletionOutcome::Cancelled
    } else if dry_run {
        DeletionOutcome::WouldDelete
    } else {
        DeletionOutcome::Deleted
    }
}

/// The text without leading and trailing white space.
pub uninterp spec fn trimmed(s: Seq<char>) -> Seq<char>;

/// Relies on std's `str::trim`: the text without leading and trailing white
/// space.
#[verifier::external_body]
fn trim_text(s: &str) -> (r: String)
    ensures
        r@ == trimmed(s@),
{
    s.trim().to_string()
}

/// The text in lower case.
pub uninterp spec fn lowercased(s: Seq<char>) -> Seq<char>;

/// Relies on std's `str::to_lowercase`: the text in lower case, which
/// depends on the characters alone.
#[verifier::external_body]
fn lowercase_text(s: &str) -> (r: String)
    ensures
        r@ == lowercased(s@),
{
    s.to_lowercase()
}

/// Whether an answer, already trimmed and in lower case, says yes.
pub fn answer_is_yes(normalized: &str) -> (r: bool)
    ensures
        r == (normalized@ == "yes"@),
{
    let yes = String::from_str("yes");
    let given = String::from_str(normalized);
    given == yes
}

/// Whether a typed answer to a confirmation prompt says yes, in any case
/// and with any surrounding white space.
pub fn is_yes(answer: &str) -> (r: bool)
    ensures
        r == (lowercased(trimmed(answer@)) == "yes"@),
{
    let t = trim_text(answer);
    let l = lowercase_text(t.as_str());
    answer_is_yes(l.as_str())
}

/// What becomes of the backup store on a reset.
#[derive(Debug, Clone, Copy, PartialEq, Eq, Structural)]
pub enum ClearOutcome {
    /// There is no backup directory; nothing is done.
    NoBackups,
    /// The user did not confirm.
    Cancelled,
    /// The whole backup directory is removed.
    Cleared,
}

/// Whether clearing the backups must first ask the user.
pub fn clear_needs_confirmation(dir_exists: bool, force: bool) -> (r: bool)
    ensures
        r == (dir_exists && !force),
{
    dir_exists && !force
}

/// Decides the reset of the backup store: nothing without a backup
/// directory; otherwise it is removed when `force` is given or the user
/// confirmed.
pub fn plan_clear_backups(dir_exists: bool, force: bool, confirmed: bool) -> (r: ClearOutcome)
    ensures
        r == (if !dir_exists {
            ClearOutcome::NoBackups
        } else if force || confirmed {
            ClearOutcome::Cleared
        } else {
            ClearOutcome::Cancelled
        }),
{
    if !dir_exists {
        ClearOutcome::NoBackups
    } else if force || confirmed {
        ClearOutcome::Cleared
    } else {
        ClearOutcome::Cancelled
    }
}

} // verus!
