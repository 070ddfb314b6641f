//! A model of one tracked file across the source tree, the home tree and
//! the backup store, the effect of each step on it, and the laws that the
//! decisions obey there.

use vstd::prelude::*;
use crate::engine::{install_step, restore_step, uninstall_step, InstallOutcome, InstallStep, RestoreStep};
use crate::status::status_spec;

verus! {

/// One tracked file: the source's bytes, the target's bytes where it
/// exists, and the backups taken of it, oldest first.
pub struct FileModel {
    pub source: Seq<u8>,
    pub target: Option<Seq<u8>>,
    pub backups: Seq<Seq<u8>>,
}

/// The install decision on a model whose files can all be read.
pub open spec fn install_on(m: FileModel, force: bool, backup: bool, dry_run: bool) -> InstallStep {
    install_step(false, m.target is Some, m.target == Some(m.source), force, backup, dry_run)
}

/// What an install step does to the model.
pub open spec fn apply_install(m: FileModel, s: InstallStep) -> FileModel {
    FileModel {
        source: m.source,
        target: if s.copy_source {
            Some(m.source)
        } else {
            m.target
        },
        backups: if s.backup_target && m.target is Some {
            m.backups.push(m.target.unwrap())
        } else {
            m.backups
        },
    }
}

/// What a restore step does to the model; `backup` is the content of the
/// backup that was found.
pub open spec fn apply_restore(m: FileModel, backup: Seq<u8>, s: RestoreStep) -> FileModel {
    FileModel {
        source: m.source,
        target: if s.copy_backup {
            Some(backup)
        } else if s.copy_source {
            Some(m.source)
        } else {
            m.target
        },
        backups: if s.backup_target && m.target is Some {
            m.backups.push(m.target.unwrap())
        } else {
            m.backups
        },
    }
}

/// Install is idempotent: where the target already holds the source's
/// bytes nothing is written and no backup is taken, and after one install
/// that did not stop for want of `force`, a second one writes nothing.
pub proof fn lemma_install_idempotent(m: FileModel, force: bool, backup: bool, dry_run: bool)
    ensures
        m.target == Some(m.source) ==> !install_on(m, force, backup, dry_run).writes()
            && apply_install(m, install_on(m, force, backup, dry_run)) == m,
        ({
            let first = install_on(m, force, backup, false);
            let m1 = apply_install(m, first);
            first.outcome != InstallOutcome::NeedsForce ==> {
                &&& m1.target == Some(m1.source)
                &&& !install_on(m1, force, backup, dry_run).writes()
                &&& apply_install(m1, install_on(m1, force, backup, dry_run)) == m1
            }
        }),
{
}

/// A dry run leaves the file system as it was: no install, uninstall or
/// restore step of a dry run writes anything.
pub proof fn lemma_dry_run_writes_nothing(
    m: FileModel,
    backup_content: Seq<u8>,
    blacklisted: bool,
    target_exists: bool,
    same: bool,
    found: bool,
    source_exists: bool,
    force: bool,
    backup: bool,
    keep_backups: bool,
)
    ensures
        !install_step(blacklisted, target_exists, same, force, backup, true).writes(),
        apply_install(m, install_on(m, force, backup, true)) == m,
        !uninstall_step(blacklisted, target_exists, same, found, force, keep_backups, true).writes(),
        !restore_step(found, source_exists, target_exists, keep_backups, true).writes(),
        apply_restore(
            m,
            backup_content,
            restore_step(found, true, m.target is Some, keep_backups, true),
        ) == m,
{
}

/// Overwriting is gated by `force`: a target that differs from the source
/// is left as it is without `force`; with `force` and backups on, it ends
/// up with the source's bytes and exactly one new backup holds what it had.
pub proof fn lemma_force_gated_overwrite(m: FileModel, backup: bool)
    requires
        m.target is Some,
        m.target != Some(m.source),
    ensures
        apply_install(m, install_on(m, false, backup, false)) == m,
        !install_on(m, false, backup, false).writes(),
        backup ==> ({
            let after = apply_install(m, install_on(m, true, true, false));
            &&& after.target == Some(m.source)
            &&& after.backups == m.backups.push(m.target.unwrap())
        }),
{
}

/// A blacklisted path is never written by install or uninstall, nor
/// reported by status.
pub proof fn lemma_blacklisted_untouched(
    is_dir: bool,
    target_exists: bool,
    same: bool,
    found: bool,
    force: bool,
    backup: bool,
    keep_backups: bool,
    dry_run: bool,
)
    ensures
        install_step(true, target_exists, same, force, backup, dry_run).outcome
            == InstallOutcome::Blacklisted,
        !install_step(true, target_exists, same, force, backup, dry_run).writes(),
        !uninstall_step(true, target_exists, same, found, force, keep_backups, dry_run).writes(),
        status_spec(true, is_dir, target_exists, same) is None,
{
}

/// Restoring a version that does not exist falls back to the source: the
/// target ends up with the source's bytes, and a target that existed was
/// backed up first.
pub proof fn lemma_restore_falls_back_to_source(
    m: FileModel,
    backup_content: Seq<u8>,
    keep_backups: bool,
)
    ensures
        ({
            let after = apply_restore(
                m,
                backup_content,
                restore_step(false, true, m.target is Some, keep_backups, false),
            );
            &&& after.target == Some(m.source)
            &&& m.target is Some ==> after.backups == m.backups.push(m.target.unwrap())
            &&& m.target is None ==> after.backups == m.backups
        }),
{
}

} // verus!
