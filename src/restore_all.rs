//! Restoring every file at once: the latest backup of each file name in the
//! backup directory, and afterwards the removal of installed files that had
//! no backup.

use vstd::prelude::*;
use crate::backup::{backup_name_parts, parse_backup_name, BackupEntry};
use crate::engine::{is_blacklisted, is_blacklisted_spec, plan_restore, restore_step, RestoreStep};

verus! {

/// The latest backup of one file name.
#[derive(Debug, Clone)]
pub struct BackupGroup {
    pub filename: String,
    pub version: u64,
    /// The backup's name in the backup directory.
    pub backup_name: String,
}

/// The file name and version that a directory entry stores, if any.
pub open spec fn parts_of(e: BackupEntry) -> Option<(Seq<char>, u64)> {
    if e.is_file {
        backup_name_parts(e.name@)
    } else {
        None
    }
}

/// `g` stands for the entry `e`.
pub open spec fn group_from(g: BackupGroup, e: BackupEntry) -> bool {
    parts_of(e) == Some((g.filename@, g.version)) && e.name@ == g.backup_name@
}

/// No version of `g`'s file name in `e` is greater than `g`'s.
pub open spec fn group_bounds(g: BackupGroup, e: BackupEntry) -> bool {
    parts_of(e) is Some && parts_of(e).unwrap().0 == g.filename@ ==> parts_of(e).unwrap().1
        <= g.version
}

/// Some group has the file name `name`.
pub open spec fn has_group(groups: Seq<BackupGroup>, name: Seq<char>) -> bool {
    exists|j: int| 0 <= j < groups.len() && (#[trigger] groups[j]).filename@ == name
}

/// The file name that `e` stores, if any, has a group.
pub open spec fn covers(groups: Seq<BackupGroup>, e: BackupEntry) -> bool {
    parts_of(e) is Some ==> has_group(groups, parts_of(e).unwrap().0)
}

/// The file names are pairwise distinct.
pub open spec fn distinct_names(groups: Seq<BackupGroup>) -> bool {
    forall|a: int, b: int|
        0 <= a < groups.len() && 0 <= b < groups.len() && a != b ==> (#[trigger] groups[a]).filename@
            != (#[trigger] groups[b]).filename@
}

/// The groups are the latest backups of `entries`: one per stored file
/// name, each standing for an entry of greatest version for its name.
pub open spec fn latest_groups(groups: Seq<BackupGroup>, entries: Seq<BackupEntry>) -> bool {
    &&& distinct_names(groups)
    &&& forall|j: int|
        0 <= j < groups.len() ==> exists|k: int|
            0 <= k < entries.len() && group_from(#[trigger] groups[j], #[trigger] entries[k])
    &&& forall|j: int, k: int|
        0 <= j < groups.len() && 0 <= k < entries.len() ==> group_bounds(
            #[trigger] groups[j],
            #[trigger] entries[k],
        )
    &&& forall|k: int| 0 <= k < entries.len() ==> covers(groups, #[trigger] entries[k])
}

fn find_group(groups: &Vec<BackupGroup>, name: &String) -> (r: Option<usize>)
    ensures
        match r {
            Some(j) => j < groups@.len() && groups@[j as int].filename@ == name@,
            None => !has_group(groups@, name@),
        },
{
    let mut j: usize = 0;
    while j < groups.len()
        invariant
            j <= groups@.len(),
            forall|a: int| 0 <= a < j ==> (#[trigger] groups@[a]).filename@ != name@,
        decreases groups@.len() - j,
    {
        if groups[j].filename == *name {
            return Some(j);
        }
        j = j + 1;
    }
    None
}

/// Groups the backup directory's entries by file name and keeps, for each,
/// the entry of greatest version (the last in directory order among equal
/// versions). Entries that are not files, or whose name does not end in
/// `.<u64>`, are skipped.
pub fn latest_per_file(entries: &Vec<BackupEntry>) -> (r: Vec<BackupGroup>)
    ensures
        latest_groups(r@, entries@),
{
    let mut r: Vec<BackupGroup> = Vec::new();
    let mut i: usize = 0;
    while i < entries.len()
        invariant
            i <= entries@.len(),
            latest_groups(r@, entries@.subrange(0, i as int)),
        decreases entries@.len() - i,
    {
        let ghost old_r = r@;
        let ghost pre = entries@.subrange(0, i as int);
        let ghost post = entries@.subrange(0, i + 1);
        assert forall|k: int| 0 <= k < i implies post[k] == pre[k] by {}
        let e = &entries[i];
        assert(post[i as int] == *e);
        let parsed = if e.is_file {
            parse_backup_name(e.name.as_str())
        } else {
            None
        };
        assert(parsed is None ==> parts_of(*e) is None);
        match parsed {
            None => {
                assert forall|j: int| 0 <= j < r@.len() implies exists|k: int|
                    0 <= k < post.len() && group_from(#[trigger] r@[j], #[trigger] post[k]) by {
                    let k = choose|k: int| 0 <= k < pre.len() && group_from(r@[j], pre[k]);
                    assert(post[k] == pre[k]);
                }
                assert forall|k: int| 0 <= k < post.len() implies covers(r@, #[trigger] post[k]) by {
                    if k < i {
                        assert(covers(r@, pre[k]));
                    }
                }
                assert(latest_groups(r@, post));
            },
            Some((stem, v)) => {
                assert(parts_of(*e) == Some((stem@, v)));
                match find_group(&r, &stem) {
                    Some(j0) => {
                        if v >= r[j0].version {
                            let g = BackupGroup { filename: stem, version: v, backup_name: e.name.clone() };
                            r.set(j0, g);
                            assert(group_from(r@[j0 as int], post[i as int]));
                        }
                        assert forall|j: int| 0 <= j < r@.len() implies exists|k: int|
                            0 <= k < post.len() && group_from(#[trigger] r@[j], #[trigger] post[k]) by {
                            if j == j0 && r@[j] != old_r[j] {
                                assert(group_from(r@[j], post[i as int]));
                            } else {
                                let k = choose|k: int| 0 <= k < pre.len() && group_from(old_r[j], pre[k]);
                                assert(post[k] == pre[k]);
                                assert(group_from(r@[j], post[k]));
                            }
                        }
                        assert forall|j: int, k: int| 0 <= j < r@.len() && 0 <= k < post.len() implies group_bounds(
                            #[trigger] r@[j],
                            #[trigger] post[k],
                        ) by {
                            if k < i {
                                assert(group_bounds(old_r[j], pre[k]));
                                if j == j0 {
                                    assert(old_r[j].filename@ == r@[j].filename@);
                                }
                            } else if j != j0 {
                                assert(old_r[j].filename@ != old_r[j0 as int].filename@);
                            }
                        }
                        assert forall|k: int| 0 <= k < post.len() implies covers(r@, #[trigger] post[k]) by {
                            if k < i {
                                assert(covers(old_r, pre[k]));
                                if parts_of(pre[k]) is Some {
                                    let j = choose|j: int| 0 <= j < old_r.len() && (#[trigger] old_r[j]).filename@ == parts_of(pre[k]).unwrap().0;
                                    assert(r@[j].filename@ == old_r[j].filename@);
                                }
                            } else {
                                assert(r@[j0 as int].filename@ == stem@);
                            }
                        }
                        assert forall|a: int, b: int|
                            0 <= a < r@.len() && 0 <= b < r@.len() && a != b implies (#[trigger] r@[a]).filename@
                                != (#[trigger] r@[b]).filename@ by {
                            assert(old_r[a].filename@ != old_r[b].filename@);
                            assert(r@[a].filename@ == old_r[a].filename@);
                            assert(r@[b].filename@ == old_r[b].filename@);
                        }
                        assert(latest_groups(r@, post));
                    },
                    None => {
                        let g = BackupGroup { filename: stem, version: v, backup_name: e.name.clone() };
                        r.push(g);
                        let ghost n = old_r.len() as int;
                        assert(group_from(r@[n], post[i as int]));
                        assert forall|j: int| 0 <= j < r@.len() implies exists|k: int|
                            0 <= k < post.len() && group_from(#[trigger] r@[j], #[trigger] post[k]) by {
                            if j < n {
                                let k = choose|k: int| 0 <= k < pre.len() && group_from(old_r[j], pre[k]);
                                assert(post[k] == pre[k]);
                                assert(group_from(r@[j], post[k]));
                            } else {
                                assert(group_from(r@[j], post[i as int]));
                            }
                        }
                        assert forall|j: int, k: int| 0 <= j < r@.len() && 0 <= k < post.len() implies group_bounds(
                            #[trigger] r@[j],
                            #[trigger] post[k],
                        ) by {
                            if j < n && k < i {
                                assert(group_bounds(old_r[j], pre[k]));
                            } else if j < n {
                                assert(old_r[j].filename@ != stem@);
                            } else if k < i {
                                assert(covers(old_r, pre[k]));
                                if parts_of(pre[k]) is Some && parts_of(pre[k]).unwrap().0 == stem@ {
                                    assert(has_group(old_r, stem@));
                                }
                            }
                        }
                        assert forall|k: int| 0 <= k < post.len() implies covers(r@, #[trigger] post[k]) by {
                            if k < i {
                                assert(covers(old_r, pre[k]));
                                if parts_of(pre[k]) is Some {
                                    let j = choose|j: int| 0 <= j < old_r.len() && (#[trigger] old_r[j]).filename@ == parts_of(pre[k]).unwrap().0;
                                    assert(r@[j] == old_r[j]);
                                }
                            } else {
                                assert(r@[n].filename@ == stem@);
                            }
                        }
                        assert forall|a: int, b: int|
                            0 <= a < r@.len() && 0 <= b < r@.len() && a != b implies (#[trigger] r@[a]).filename@
                                != (#[trigger] r@[b]).filename@ by {
                            if a < n && b < n {
                                assert(old_r[a].filename@ != old_r[b].filename@);
                            } else if a < n {
                                assert(r@[a] == old_r[a]);
                            } else if b < n {
                                assert(r@[b] == old_r[b]);
                            }
                        }
                        assert(latest_groups(r@, post));
                    },
                }
            },
        }
        i = i + 1;
    }
    assert(entries@.subrange(0, entries@.len() as int) =~= entries@);
    r
}

/// With no backups at all, restore-all installs each tracked source file
/// instead, backing up whatever the target holds first; `None` for a
/// blacklisted path, which is left alone.
pub fn plan_source_install(rel: &str, target_exists: bool, dry_run: bool) -> (r: Option<RestoreStep>)
    ensures
        is_blacklisted_spec(rel@) ==> r is None,
        !is_blacklisted_spec(rel@) ==> r == Some(restore_step(false, true, target_exists, false, dry_run)),
{
    if is_blacklisted(rel) {
        None
    } else {
        Some(plan_restore(false, true, target_exists, false, dry_run))
    }
}

/// What becomes of an installed file after the restore of all backups.
#[derive(Debug, Clone, Copy, PartialEq, Eq, Structural)]
pub enum CleanupOutcome {
    /// The target stays.
    Keep,
    /// The target, installed but without a backup, is removed.
    Remove,
    /// Dry run: the target would be removed.
    WouldRemove,
}

/// After the backups are restored, decides whether the target of the tracked
/// source file at `rel` goes: it does when it exists and no backup group
/// bears its relative path.
pub fn plan_cleanup(rel: &str, groups: &Vec<BackupGroup>, target_exists: bool, dry_run: bool) -> (r:
    CleanupOutcome)
    ensures
        r == (if is_blacklisted_spec(rel@) || has_group(groups@, rel@) || !target_exists {
            CleanupOutcome::Keep
        } else if dry_run {
            CleanupOutcome::WouldRemove
        } else {
            CleanupOutcome::Remove
        }),
{
    if is_blacklisted(rel) || !target_exists {
        return CleanupOutcome::Keep;
    }
    let name = String::from_str(rel);
    match find_group(groups, &name) {
        Some(_) => CleanupOutcome::Keep,
        None => if dry_run {
            CleanupOutcome::WouldRemove
        } else {
            CleanupOutcome::Remove
        },
    }
}

} // verus!
