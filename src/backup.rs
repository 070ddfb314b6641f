//! The backup store: one flat directory whose files are named
//! `<file name>.<version>`, the version being a time in Unix seconds.
//!
//! The store is read through a snapshot of the directory's entries, taken by
//! the caller; what to write is handed back as a plan.

use vstd::prelude::*;
use vstd::seq_lib::{to_multiset_build, to_multiset_insert};
use crate::error::DotfilesError;
use crate::paths::{file_name_of, path_file_name};
use crate::text::{
    chars_of, decimal_of, decimal_string, is_digit, join_path, join_spec, last_index, last_index_of, lemma_decimal_of,
    lemma_last_index_of, lemma_parse_decimal, parse_u64, parse_u64_spec,
};

verus! {

/// One entry of the backup directory.
#[derive(Debug, Clone)]
pub struct BackupEntry {
    pub name: String,
    pub is_file: bool,
}

/// Where a backup goes, and whether it is to be written now.
#[derive(Debug, Clone)]
pub struct BackupPlan {
    pub backup_path: String,
    pub write: bool,
}

/// The name under which `version` of `filename` is stored.
pub open spec fn backup_name_of(filename: Seq<char>, version: u64) -> Seq<char> {
    filename + seq!['.'] + decimal_of(version as nat)
}

/// A stored name split at its last `.` into the file name and the version,
/// when the part after the dot reads as a `u64`.
pub open spec fn backup_name_parts(name: Seq<char>) -> Option<(Seq<char>, u64)> {
    let i = last_index_of(name, '.');
    if i < 0 {
        None
    } else {
        match parse_u64_spec(name.subrange(i + 1, name.len() as int)) {
            Some(v) => Some((name.subrange(0, i), v)),
            None => None,
        }
    }
}

/// The version that a directory entry holds of `filename`, if it holds one.
pub open spec fn entry_version(filename: Seq<char>, e: BackupEntry) -> Option<u64> {
    if e.is_file && backup_name_parts(e.name@) is Some && backup_name_parts(e.name@).unwrap().0
        == filename {
        Some(backup_name_parts(e.name@).unwrap().1)
    } else {
        None
    }
}

/// The versions of `filename` among `entries`, with their paths, in
/// directory order.
pub open spec fn versions_in(filename: Seq<char>, dir: Seq<char>, entries: Seq<BackupEntry>) -> Seq<
    (u64, Seq<char>),
>
    decreases entries.len(),
{
    if entries.len() == 0 {
        Seq::empty()
    } else {
        let rest = versions_in(filename, dir, entries.drop_last());
        let e = entries.last();
        match entry_version(filename, e) {
            Some(v) => rest.push((v, join_spec(dir, e.name@))),
            None => rest,
        }
    }
}

/// The versions with their paths as text.
pub open spec fn pairs_view(s: Seq<(u64, String)>) -> Seq<(u64, Seq<char>)> {
    s.map_values(|p: (u64, String)| (p.0, p.1@))
}

/// Versions never decrease along the sequence.
pub open spec fn sorted_by_version(s: Seq<(u64, String)>) -> bool {
    forall|i: int, j: int| 0 <= i < j < s.len() ==> s[i].0 <= s[j].0
}

/// A stored name splits back into the file name and the version it was
/// written with, however many dots the file name holds.
pub proof fn lemma_backup_name_round_trip(filename: Seq<char>, version: u64)
    ensures
        backup_name_parts(backup_name_of(filename, version)) == Some((filename, version)),
{
    let name = backup_name_of(filename, version);
    let d = decimal_of(version as nat);
    let k = filename.len() as int;
    lemma_decimal_of(version as nat);
    lemma_last_index_of(name, '.');
    lemma_parse_decimal(version);
    let i = last_index_of(name, '.');
    assert(name[k] == '.');
    if i > k {
        assert(name[i] == d[i - k - 1]);
        assert(is_digit(d[i - k - 1]));
    }
    assert(i == k);
    assert(name.subrange(k + 1, name.len() as int) =~= d);
    assert(name.subrange(0, k) =~= filename);
}

/// Splits a stored name into the file name and the version.
pub fn parse_backup_name(name: &str) -> (r: Option<(String, u64)>)
    ensures
        match r {
            Some((n, v)) => backup_name_parts(name@) == Some((n@, v)),
            None => backup_name_parts(name@) is None,
        },
{
    let c = chars_of(name);
    proof {
        lemma_last_index_of(name@, '.');
    }
    match last_index(&c, '.') {
        None => None,
        Some(i) => {
            let n = c.len();
            let suffix = name.substring_char(i + 1, n);
            match parse_u64(suffix) {
                Some(v) => {
                    let stem = name.substring_char(0, i);
                    Some((String::from_str(stem), v))
                },
                None => None,
            }
        },
    }
}

/// Puts `(v, path)` after every pair of `r` whose version is at most `v`.
fn insert_sorted(r: &mut Vec<(u64, String)>, v: u64, path: String)
    requires
        sorted_by_version(old(r)@),
    ensures
        sorted_by_version(final(r)@),
        pairs_view(final(r)@).to_multiset() == pairs_view(old(r)@).to_multiset().insert((v, path@)),
{
    let mut j: usize = r.len();
    while j > 0 && r[j - 1].0 > v
        invariant
            j <= r@.len(),
            sorted_by_version(r@),
            forall|k: int| j <= k < r@.len() ==> r@[k].0 > v,
        decreases j,
    {
        j = j - 1;
    }
    let ghost old_r = r@;
    proof {
        if j > 0 {
            assert(old_r[j - 1].0 <= v);
        }
    }
    r.insert(j, (v, path));
    proof {
        assert(pairs_view(r@) =~= pairs_view(old_r).insert(j as int, (v, path@)));
        to_multiset_insert(pairs_view(old_r), j as int, (v, path@));
        assert forall|a: int, b: int| 0 <= a < b < r@.len() implies r@[a].0 <= r@[b].0 by {
            if b < j {
            } else if b == j {
                if j > 0 {
                    assert(old_r[a].0 <= old_r[j - 1].0);
                }
            } else if a < j {
                assert(old_r[b - 1].0 > v);
            } else if a == j {
                assert(old_r[b - 1].0 > v);
            } else {
                assert(old_r[a - 1].0 <= old_r[b - 1].0);
            }
        }
    }
}

/// The versions of `filename` in the backup directory `dir`, given its
/// entries: each entry that is a file named `<filename>.<u64>` once, sorted
/// by version; among equal versions the directory order is kept.
pub fn backup_versions(filename: &str, dir: &str, entries: &Vec<BackupEntry>) -> (r: Vec<(u64, String)>)
    ensures
        sorted_by_version(r@),
        pairs_view(r@).to_multiset() == versions_in(filename@, dir@, entries@).to_multiset(),
{
    broadcast use vstd::seq_lib::group_to_multiset_ensures;

    let fname = String::from_str(filename);
    let mut r: Vec<(u64, String)> = Vec::new();
    let mut i: usize = 0;
    assert(pairs_view(r@) =~= Seq::empty());
    assert(entries@.subrange(0, 0) =~= Seq::<BackupEntry>::empty());
    while i < entries.len()
        invariant
            fname@ == filename@,
            i <= entries@.len(),
            sorted_by_version(r@),
            pairs_view(r@).to_multiset() == versions_in(
                filename@,
                dir@,
                entries@.subrange(0, i as int),
            ).to_multiset(),
        decreases entries@.len() - i,
    {
        let e = &entries[i];
        let ghost before = entries@.subrange(0, i as int);
        let ghost after = entries@.subrange(0, i + 1);
        assert(after.drop_last() =~= before);
        assert(after.last() == *e);
        if e.is_file {
            match parse_backup_name(e.name.as_str()) {
                Some((stem, v)) => {
                    if stem == fname {
                        let path = join_path(dir, e.name.as_str());
                        assert(entry_version(filename@, *e) == Some(v));
                        insert_sorted(&mut r, v, path);
                        proof {
                            to_multiset_build(
                                versions_in(filename@, dir@, before),
                                (v, join_spec(dir@, e.name@)),
                            );
                        }
                    }
                },
                None => {},
            }
        }
        i = i + 1;
    }
    assert(entries@.subrange(0, entries@.len() as int) =~= entries@);
    r
}

/// The versions of `filename` in a snapshot of the backup directory; none
/// when the directory is absent.
pub open spec fn listing_versions(
    filename: Seq<char>,
    dir: Seq<char>,
    listing: Option<Vec<BackupEntry>>,
) -> Seq<(u64, Seq<char>)> {
    match listing {
        Some(es) => versions_in(filename, dir, es@),
        None => Seq::empty(),
    }
}

/// The directory snapshot holds an entry of this name.
pub open spec fn has_entry(listing: Option<Vec<BackupEntry>>, name: Seq<char>) -> bool {
    match listing {
        Some(es) => exists|i: int| 0 <= i < es@.len() && (#[trigger] es@[i]).name@ == name,
        None => false,
    }
}

/// `p` is a stored version of greatest version.
pub open spec fn is_latest(vs: Seq<(u64, Seq<char>)>, p: (u64, Seq<char>)) -> bool {
    vs.contains(p) && forall|q: (u64, Seq<char>)| vs.contains(q) ==> q.0 <= p.0
}

/// Every version of a file in the backup directory, sorted by version.
/// `listing` is the directory's entries, or `None` where it does not exist.
pub fn find_all_backup_versions(
    file_path: &str,
    backup_dir: &str,
    listing: &Option<Vec<BackupEntry>>,
) -> (r: Result<Vec<(u64, String)>, DotfilesError>)
    ensures
        match file_name_of(file_path@) {
            None => r == Err::<Vec<(u64, String)>, DotfilesError>(DotfilesError::InvalidPath),
            Some(f) => r matches Ok(vs) && sorted_by_version(vs@) && pairs_view(vs@).to_multiset()
                == listing_versions(f, backup_dir@, *listing).to_multiset(),
        },
{
    match path_file_name(file_path) {
        None => Err(DotfilesError::InvalidPath),
        Some(filename) => Ok(versions_in_listing(filename.as_str(), backup_dir, listing)),
    }
}

/// The versions of `filename` in a snapshot of the backup directory, sorted.
pub fn versions_in_listing(filename: &str, backup_dir: &str, listing: &Option<Vec<BackupEntry>>) -> (r:
    Vec<(u64, String)>)
    ensures
        sorted_by_version(r@),
        pairs_view(r@).to_multiset() == listing_versions(
            filename@,
            backup_dir@,
            *listing,
        ).to_multiset(),
{
    broadcast use vstd::seq_lib::group_to_multiset_ensures;

    match listing {
        Some(entries) => backup_versions(filename, backup_dir, entries),
        None => {
            let r: Vec<(u64, String)> = Vec::new();
            assert(pairs_view(r@) =~= Seq::empty());
            r
        },
    }
}

/// The path of the latest backup of `filename` in a snapshot of the backup
/// directory: one of greatest version, the last in directory order among
/// equals; `NotFound` when there is none.
pub fn latest_in_listing(filename: &str, backup_dir: &str, listing: &Option<Vec<BackupEntry>>) -> (r:
    Result<String, DotfilesError>)
    ensures
        listing_versions(filename@, backup_dir@, *listing).len() == 0 <==> r == Err::<
            String,
            DotfilesError,
        >(DotfilesError::NotFound),
        r is Ok || r == Err::<String, DotfilesError>(DotfilesError::NotFound),
        r matches Ok(p) ==> exists|v: u64|
            is_latest(listing_versions(filename@, backup_dir@, *listing), (v, p@)),
{
    broadcast use vstd::seq_lib::group_to_multiset_ensures;

    let versions = versions_in_listing(filename, backup_dir, listing);
    let ghost all = listing_versions(filename@, backup_dir@, *listing);
    let ghost pv = pairs_view(versions@);
    assert(pv.to_multiset().len() == all.to_multiset().len());
    let n = versions.len();
    if n == 0 {
        assert(all.len() == 0);
        return Err(DotfilesError::NotFound);
    }
    let (v, p) = (versions[n - 1].0, versions[n - 1].1.clone());
    proof {
        assert(pv[n - 1] == (v, p@));
        assert(pv.contains((v, p@)));
        assert(pv.to_multiset().count((v, p@)) > 0);
        assert(all.contains((v, p@)));
        assert forall|q: (u64, Seq<char>)| all.contains(q) implies q.0 <= v by {
            assert(all.to_multiset().count(q) > 0);
            assert(pv.contains(q));
            let k = choose|k: int| 0 <= k < pv.len() && pv[k] == q;
            assert(versions@[k].0 <= versions@[n - 1].0);
        }
        assert(is_latest(all, (v, p@)));
    }
    let r = Ok(p);
    assert(r matches Ok(q) && is_latest(all, (v, q@)));
    r
}

/// The path of the latest backup of a file (see `latest_in_listing`).
pub fn find_latest_backup(file_path: &str, backup_dir: &str, listing: &Option<Vec<BackupEntry>>) -> (r:
    Result<String, DotfilesError>)
    ensures
        match file_name_of(file_path@) {
            None => r == Err::<String, DotfilesError>(DotfilesError::InvalidPath),
            Some(f) => {
                &&& listing_versions(f, backup_dir@, *listing).len() == 0 <==> r == Err::<
                    String,
                    DotfilesError,
                >(DotfilesError::NotFound)
                &&& r is Ok || r == Err::<String, DotfilesError>(DotfilesError::NotFound)
                &&& r matches Ok(p) ==> exists|v: u64|
                    is_latest(listing_versions(f, backup_dir@, *listing), (v, p@))
            },
        },
{
    match path_file_name(file_path) {
        None => Err(DotfilesError::InvalidPath),
        Some(filename) => latest_in_listing(filename.as_str(), backup_dir, listing),
    }
}

/// Looks up the backup named `<filename>.<version>` in a snapshot of the
/// backup directory, and gives its path.
pub fn version_in_listing(
    filename: &str,
    version: &str,
    backup_dir: &str,
    listing: &Option<Vec<BackupEntry>>,
) -> (r: Result<String, DotfilesError>)
    ensures
        has_entry(*listing, filename@ + seq!['.'] + version@) ==> (r matches Ok(p) && p@
            == join_spec(backup_dir@, filename@ + seq!['.'] + version@)),
        !has_entry(*listing, filename@ + seq!['.'] + version@) ==> r == Err::<String, DotfilesError>(
            DotfilesError::NotFound,
        ),
{
    let mut name = String::from_str(filename);
    let dot = ".";
    proof {
        reveal_strlit(".");
    }
    name.append(dot);
    name.append(version);
    assert(name@ =~= filename@ + seq!['.'] + version@);
    match listing {
        None => Err(DotfilesError::NotFound),
        Some(entries) => {
            let mut i: usize = 0;
            while i < entries.len()
                invariant
                    *listing == Some(*entries),
                    name@ == filename@ + seq!['.'] + version@,
                    i <= entries@.len(),
                    forall|k: int| 0 <= k < i ==> (#[trigger] entries@[k]).name@ != name@,
                decreases entries@.len() - i,
            {
                if entries[i].name == name {
                    assert(entries@[i as int].name@ == name@);
                    let ghost es = listing->Some_0;
                    assert(es == *entries);
                    assert(es@[i as int].name@ == filename@ + seq!['.'] + version@);
                    assert(has_entry(*listing, filename@ + seq!['.'] + version@));
                    return Ok(join_path(backup_dir, name.as_str()));
                }
                i = i + 1;
            }
            Err(DotfilesError::NotFound)
        },
    }
}

/// Looks up one version of a file's backups by the text of its version.
pub fn find_backup_by_version(
    file_path: &str,
    version: &str,
    backup_dir: &str,
    listing: &Option<Vec<BackupEntry>>,
) -> (r: Result<String, DotfilesError>)
    ensures
        match file_name_of(file_path@) {
            None => r == Err::<String, DotfilesError>(DotfilesError::InvalidPath),
            Some(f) => {
                &&& has_entry(*listing, f + seq!['.'] + version@) ==> (r matches Ok(p) && p@
                    == join_spec(backup_dir@, f + seq!['.'] + version@))
                &&& !has_entry(*listing, f + seq!['.'] + version@) ==> r == Err::<
                    String,
                    DotfilesError,
                >(DotfilesError::NotFound)
            },
        },
{
    match path_file_name(file_path) {
        None => Err(DotfilesError::InvalidPath),
        Some(filename) => version_in_listing(filename.as_str(), version, backup_dir, listing),
    }
}

/// Where the backup of a file named `filename` taken at `now` goes; it is
/// written unless this is a dry run, and then the file must exist.
pub fn backup_plan_for(
    filename: &str,
    backup_dir: &str,
    file_exists: bool,
    now: u64,
    dry_run: bool,
) -> (r: Result<BackupPlan, DotfilesError>)
    ensures
        !dry_run && !file_exists ==> r == Err::<BackupPlan, DotfilesError>(
            DotfilesError::MissingSource,
        ),
        dry_run || file_exists ==> (r matches Ok(plan) && plan.backup_path@ == join_spec(
            backup_dir@,
            backup_name_of(filename@, now),
        ) && plan.write == !dry_run),
{
    if !dry_run && !file_exists {
        return Err(DotfilesError::MissingSource);
    }
    let mut name = String::from_str(filename);
    let dot = ".";
    proof {
        reveal_strlit(".");
    }
    name.append(dot);
    let digits = decimal_string(now);
    name.append(digits.as_str());
    assert(name@ =~= backup_name_of(filename@, now));
    Ok(BackupPlan { backup_path: join_path(backup_dir, name.as_str()), write: !dry_run })
}

/// Decides the backup of the file at `file_path` into `backup_dir`, taken at
/// `now` (Unix seconds). Outside a dry run the directory and the file must
/// exist; in a dry run nothing is to be written.
pub fn backup_file(
    file_path: &str,
    backup_dir: &str,
    backup_dir_exists: bool,
    file_exists: bool,
    now: u64,
    dry_run: bool,
) -> (r: Result<BackupPlan, DotfilesError>)
    ensures
        !dry_run && !backup_dir_exists ==> r == Err::<BackupPlan, DotfilesError>(
            DotfilesError::MissingDirectory,
        ),
        dry_run || backup_dir_exists ==> match file_name_of(file_path@) {
            None => r == Err::<BackupPlan, DotfilesError>(DotfilesError::InvalidPath),
            Some(f) => {
                &&& !dry_run && !file_exists ==> r == Err::<BackupPlan, DotfilesError>(
                    DotfilesError::MissingSource,
                )
                &&& dry_run || file_exists ==> (r matches Ok(plan) && plan.backup_path@
                    == join_spec(backup_dir@, backup_name_of(f, now)) && plan.write == !dry_run)
            },
        },
{
    if !backup_dir_exists && !dry_run {
        return Err(DotfilesError::MissingDirectory);
    }
    match path_file_name(file_path) {
        None => Err(DotfilesError::InvalidPath),
        Some(filename) => backup_plan_for(filename.as_str(), backup_dir, file_exists, now, dry_run),
    }
}

proof fn lemma_versions_in_entry(filename: Seq<char>, dir: Seq<char>, entries: Seq<BackupEntry>, k: int)
    requires
        0 <= k < entries.len(),
        entry_version(filename, entries[k]) is Some,
    ensures
        versions_in(filename, dir, entries).contains(
            (entry_version(filename, entries[k]).unwrap(), join_spec(dir, entries[k].name@)),
        ),
    decreases entries.len(),
{
    let rest = versions_in(filename, dir, entries.drop_last());
    if k == entries.len() - 1 {
        let vs = versions_in(filename, dir, entries);
        assert(vs[vs.len() - 1] == (
            entry_version(filename, entries[k]).unwrap(),
            join_spec(dir, entries[k].name@),
        ));
    } else {
        lemma_versions_in_entry(filename, dir, entries.drop_last(), k);
        assert(entries.drop_last()[k] == entries[k]);
        let x = (entry_version(filename, entries[k]).unwrap(), join_spec(dir, entries[k].name@));
        let j = choose|j: int| 0 <= j < rest.len() && rest[j] == x;
        assert(versions_in(filename, dir, entries)[j] == x);
    }
}

/// A backup written for `version` of a file is found again: looking it up
/// by the version's decimal text finds the path it was written to, and the
/// file's versions list it with that path.
pub proof fn lemma_backup_found_again(
    filename: Seq<char>,
    version: u64,
    dir: Seq<char>,
    listing: Option<Vec<BackupEntry>>,
    k: int,
)
    requires
        listing is Some,
        0 <= k < listing.unwrap()@.len(),
        listing.unwrap()@[k].is_file,
        listing.unwrap()@[k].name@ == backup_name_of(filename, version),
    ensures
        has_entry(listing, filename + seq!['.'] + decimal_of(version as nat)),
        join_spec(dir, filename + seq!['.'] + decimal_of(version as nat)) == join_spec(
            dir,
            backup_name_of(filename, version),
        ),
        listing_versions(filename, dir, listing).contains(
            (version, join_spec(dir, backup_name_of(filename, version))),
        ),
{
    let es = listing.unwrap()@;
    lemma_backup_name_round_trip(filename, version);
    lemma_versions_in_entry(filename, dir, es, k);
    assert(es[k].name@ == filename + seq!['.'] + decimal_of(version as nat));
}

/// Backups written for distinct versions of one file are each listed
/// exactly once, with the path they were written to; of them, the one of
/// greatest version is the only latest.
pub proof fn lemma_written_backups_listed(
    filename: Seq<char>,
    dir: Seq<char>,
    entries: Seq<BackupEntry>,
    vs: Seq<u64>,
)
    requires
        entries.len() == vs.len(),
        forall|i: int|
            0 <= i < entries.len() ==> (#[trigger] entries[i]).is_file && entries[i].name@
                == backup_name_of(filename, vs[i]),
        vs.no_duplicates(),
    ensures
        versions_in(filename, dir, entries) == vs.map_values(
            |v: u64| (v, join_spec(dir, backup_name_of(filename, v))),
        ),
        forall|k: int|
            0 <= k < vs.len() ==> versions_in(filename, dir, entries).to_multiset().count(
                (vs[k], join_spec(dir, backup_name_of(filename, #[trigger] vs[k]))),
            ) == 1,
        forall|k: int|
            0 <= k < vs.len() && (forall|j: int| 0 <= j < vs.len() ==> vs[j] <= #[trigger] vs[k])
                ==> forall|p: (u64, Seq<char>)|
                is_latest(versions_in(filename, dir, entries), p) ==> p == (
                    vs[k],
                    join_spec(dir, backup_name_of(filename, vs[k])),
                ),
    decreases entries.len(),
{
    broadcast use vstd::seq_lib::group_to_multiset_ensures;

    let f = |v: u64| (v, join_spec(dir, backup_name_of(filename, v)));
    let listed = versions_in(filename, dir, entries);
    if entries.len() > 0 {
        let n = entries.len() - 1;
        let sub = vs.drop_last();
        assert(sub.no_duplicates());
        assert forall|i: int| 0 <= i < entries.drop_last().len() implies (#[trigger] entries.drop_last()[i]).is_file
            && entries.drop_last()[i].name@ == backup_name_of(filename, sub[i]) by {
            assert(entries.drop_last()[i] == entries[i]);
        }
        lemma_written_backups_listed(filename, dir, entries.drop_last(), sub);
        lemma_backup_name_round_trip(filename, vs[n]);
        assert(entry_version(filename, entries[n]) == Some(vs[n]));
        assert(listed =~= vs.map_values(f));
    } else {
        assert(listed =~= vs.map_values(f));
    }
    assert(listed.no_duplicates()) by {
        assert forall|i: int, j: int| 0 <= i < listed.len() && 0 <= j < listed.len() && i != j implies listed[i] != listed[j] by {
            assert(listed[i].0 == vs[i]);
            assert(listed[j].0 == vs[j]);
        }
    }
    listed.lemma_multiset_has_no_duplicates();
    assert forall|k: int| 0 <= k < vs.len() implies listed.to_multiset().count(
        (vs[k], join_spec(dir, backup_name_of(filename, #[trigger] vs[k]))),
    ) == 1 by {
        assert(listed[k] == f(vs[k]));
        assert(listed.contains(f(vs[k])));
    }
    assert forall|k: int|
        0 <= k < vs.len() && (forall|j: int| 0 <= j < vs.len() ==> vs[j] <= #[trigger] vs[k]) implies forall|p: (u64, Seq<char>)|
        is_latest(listed, p) ==> p == (vs[k], join_spec(dir, backup_name_of(filename, vs[k]))) by {
        assert forall|p: (u64, Seq<char>)| is_latest(listed, p) implies p == (
            vs[k],
            join_spec(dir, backup_name_of(filename, vs[k])),
        ) by {
            let i = choose|i: int| 0 <= i < listed.len() && listed[i] == p;
            assert(listed[k] == f(vs[k]));
            assert(listed.contains(listed[k]));
            assert(vs[k] <= p.0);
            assert(p.0 == vs[i]);
            assert(vs[i] <= vs[k]);
            assert(i == k);
        }
    }
}

/// The UTC date and time, as `YYYY-MM-DD HH:MM:SS`, of a Unix time in
/// seconds, where the time is within the calendar's range.
pub uninterp spec fn utc_text(secs: int) -> Option<Seq<char>>;

/// Relies on chrono's `DateTime::<Utc>::from_timestamp` (`None` out of
/// range) and `format` with the pattern `%Y-%m-%d %H:%M:%S`.
#[verifier::external_body]
fn utc_date_text(secs: i64) -> (r: Option<String>)
    ensures
        match r {
            Some(t) => utc_text(secs as int) == Some(t@),
            None => utc_text(secs as int) is None,
        },
{
    match chrono::DateTime::<chrono::Utc>::from_timestamp(secs, 0) {
        Some(dt) => Some(dt.format("%Y-%m-%d %H:%M:%S").to_string()),
        None => None,
    }
}

/// A version read as a signed number of seconds, as a two's complement
/// cast reads it.
pub open spec fn signed_seconds(version: u64) -> int {
    if version <= i64::MAX {
        version as int
    } else {
        version - 0x1_0000_0000_0000_0000
    }
}

/// How a version is shown: its UTC date and time, or its decimal text
/// where the date is out of range.
pub open spec fn label_of(version: u64, date: Option<Seq<char>>) -> Seq<char> {
    match date {
        Some(t) => t,
        None => decimal_of(version as nat),
    }
}

/// The label of a version, given its date text if it has one.
pub fn label_from(version: u64, date: Option<String>) -> (r: String)
    ensures
        r@ == label_of(
            version,
            match date {
                Some(t) => Some(t@),
                None => None,
            },
        ),
{
    match date {
        Some(t) => t,
        None => decimal_string(version),
    }
}

/// How a backup version is shown to the user.
pub fn version_label(version: u64) -> (r: String)
    ensures
        r@ == label_of(version, utc_text(signed_seconds(version))),
{
    let secs: i64 = if version <= i64::MAX as u64 {
        version as i64
    } else {
        let below: u64 = u64::MAX - version;
        -(below as i64) - 1
    };
    let date = utc_date_text(secs);
    label_from(version, date)
}

} // verus!
