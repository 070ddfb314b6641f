//! Status: how each entry of the source root stands in the home directory,
//! the counts, and the first lines where a modified file differs.

use vstd::prelude::*;
use crate::engine::{files_identical, identical, is_blacklisted, is_blacklisted_spec, FileState};

verus! {

/// How an entry of the source root stands in the home directory.
#[derive(Debug, Clone, Copy, PartialEq, Eq, Structural)]
pub enum StatusKind {
    /// The target does not exist.
    Missing,
    /// The target holds the source's bytes, or is an existing directory.
    Installed,
    /// The target exists but differs.
    Modified,
}

/// How one entry of the source root stands; `None` for a blacklisted path,
/// which is not reported.
pub open spec fn status_spec(
    blacklisted: bool,
    is_dir: bool,
    target_exists: bool,
    same: bool,
) -> Option<StatusKind> {
    if blacklisted {
        None
    } else if !target_exists {
        Some(StatusKind::Missing)
    } else if is_dir || same {
        Some(StatusKind::Installed)
    } else {
        Some(StatusKind::Modified)
    }
}

/// Classifies the entry `rel` of the source root; for a directory only the
/// target's existence counts.
pub fn status_of(rel: &str, is_dir: bool, source: &Option<Vec<u8>>, target: &FileState) -> (r:
    Option<StatusKind>)
    ensures
        r == status_spec(
            is_blacklisted_spec(rel@),
            is_dir,
            *target !is Absent,
            identical(*source, *target),
        ),
{
    if is_blacklisted(rel) {
        return None;
    }
    match target {
        FileState::Absent => Some(StatusKind::Missing),
        FileState::Present(_) => if is_dir || files_identical(source, target) {
            Some(StatusKind::Installed)
        } else {
            Some(StatusKind::Modified)
        },
    }
}

/// How many of `kinds` are `Some(k)`.
pub open spec fn count_kind(kinds: Seq<Option<StatusKind>>, k: StatusKind) -> nat
    decreases kinds.len(),
{
    if kinds.len() == 0 {
        0
    } else {
        count_kind(kinds.drop_last(), k) + if kinds.last() == Some(k) {
            1nat
        } else {
            0nat
        }
    }
}

proof fn lemma_count_kind_le(kinds: Seq<Option<StatusKind>>, k: StatusKind)
    ensures
        count_kind(kinds, k) <= kinds.len(),
    decreases kinds.len(),
{
    if kinds.len() > 0 {
        lemma_count_kind_le(kinds.drop_last(), k);
    }
}

/// The number of entries of each kind.
#[derive(Debug, Clone, Copy, PartialEq, Eq, Structural)]
pub struct StatusTally {
    pub installed: usize,
    pub missing: usize,
    pub modified: usize,
}

/// Counts the entries of each kind.
pub fn tally(kinds: &Vec<Option<StatusKind>>) -> (r: StatusTally)
    ensures
        r.installed == count_kind(kinds@, StatusKind::Installed),
        r.missing == count_kind(kinds@, StatusKind::Missing),
        r.modified == count_kind(kinds@, StatusKind::Modified),
{
    let mut r = StatusTally { installed: 0, missing: 0, modified: 0 };
    let mut i: usize = 0;
    while i < kinds.len()
        invariant
            i <= kinds@.len(),
            r.installed == count_kind(kinds@.subrange(0, i as int), StatusKind::Installed),
            r.missing == count_kind(kinds@.subrange(0, i as int), StatusKind::Missing),
            r.modified == count_kind(kinds@.subrange(0, i as int), StatusKind::Modified),
        decreases kinds@.len() - i,
    {
        let ghost next = kinds@.subrange(0, i + 1);
        assert(next.drop_last() =~= kinds@.subrange(0, i as int));
        proof {
            lemma_count_kind_le(next, StatusKind::Installed);
            lemma_count_kind_le(next, StatusKind::Missing);
            lemma_count_kind_le(next, StatusKind::Modified);
        }
        match kinds[i] {
            Some(StatusKind::Installed) => r.installed = r.installed + 1,
            Some(StatusKind::Missing) => r.missing = r.missing + 1,
            Some(StatusKind::Modified) => r.modified = r.modified + 1,
            None => {},
        }
        i = i + 1;
    }
    assert(kinds@.subrange(0, kinds@.len() as int) =~= kinds@);
    r
}

/// At most this many differing lines are shown of a modified file.
pub const MAX_SNIPPETS: usize = 3;

/// A shown line is cut to this many characters.
pub const SNIPPET_WIDTH: usize = 60;

/// The lines of a text, as std's `str::lines` splits them.
pub uninterp spec fn lines_of(text: Seq<char>) -> Seq<Seq<char>>;

/// Relies on std's `str::lines`: the text split at line ends, each line
/// without its `\n` or `\r\n`.
#[verifier::external_body]
fn split_lines(text: &str) -> (r: Vec<String>)
    ensures
        r@.map_values(|l: String| l@) == lines_of(text@),
{
    text.lines().map(|l| l.to_string()).collect()
}

/// A line cut to its first `SNIPPET_WIDTH` characters.
pub open spec fn clip(line: Seq<char>) -> Seq<char> {
    if line.len() > SNIPPET_WIDTH {
        line.take(SNIPPET_WIDTH as int)
    } else {
        line
    }
}

/// Cuts a line to its first `SNIPPET_WIDTH` characters.
pub fn clip_line(line: &str) -> (r: String)
    ensures
        r@ == clip(line@),
{
    let n = line.unicode_len();
    if n > SNIPPET_WIDTH {
        String::from_str(line.substring_char(0, SNIPPET_WIDTH))
    } else {
        String::from_str(line)
    }
}

/// The positions, below `n`, at which the two sequences of lines differ.
pub open spec fn differing(a: Seq<Seq<char>>, b: Seq<Seq<char>>, n: int) -> Seq<int>
    decreases n,
{
    if n <= 0 {
        Seq::empty()
    } else if a[n - 1] != b[n - 1] {
        differing(a, b, n - 1).push(n - 1)
    } else {
        differing(a, b, n - 1)
    }
}

/// One line where the source and the target differ.
#[derive(Debug, Clone)]
pub struct LineDiff {
    /// The line's number, from 1.
    pub line: usize,
    pub source: String,
    pub target: String,
}

/// The first `MAX_SNIPPETS` positions at which the lines differ, compared
/// one for one up to the shorter length, each pair of lines clipped.
pub open spec fn snippets_match(r: Seq<LineDiff>, a: Seq<Seq<char>>, b: Seq<Seq<char>>) -> bool {
    let n = if a.len() < b.len() {
        a.len()
    } else {
        b.len()
    };
    let d = differing(a, b, n as int);
    &&& r.len() == if d.len() < MAX_SNIPPETS {
        d.len()
    } else {
        MAX_SNIPPETS as nat
    }
    &&& forall|t: int|
        0 <= t < r.len() ==> (#[trigger] r[t]).line == d[t] + 1 && r[t].source@ == clip(a[d[t]])
            && r[t].target@ == clip(b[d[t]])
}

proof fn lemma_differing_bounds(a: Seq<Seq<char>>, b: Seq<Seq<char>>, n: int)
    ensures
        differing(a, b, n).len() <= if n < 0 { 0 } else { n },
        forall|t: int| 0 <= t < differing(a, b, n).len() ==> 0 <= #[trigger] differing(a, b, n)[t] < n,
    decreases n,
{
    if n > 0 {
        lemma_differing_bounds(a, b, n - 1);
    }
}

/// The first lines at which two sequences of lines differ.
pub fn diff_snippets(a: &Vec<String>, b: &Vec<String>) -> (r: Vec<LineDiff>)
    ensures
        snippets_match(
            r@,
            a@.map_values(|l: String| l@),
            b@.map_values(|l: String| l@),
        ),
{
    let ghost av = a@.map_values(|l: String| l@);
    let ghost bv = b@.map_values(|l: String| l@);
    let n = if a.len() < b.len() {
        a.len()
    } else {
        b.len()
    };
    let mut r: Vec<LineDiff> = Vec::new();
    let mut i: usize = 0;
    while i < n
        invariant
            n <= a@.len(),
            n <= b@.len(),
            i <= n,
            av == a@.map_values(|l: String| l@),
            bv == b@.map_values(|l: String| l@),
            r@.len() == if differing(av, bv, i as int).len() < MAX_SNIPPETS {
                differing(av, bv, i as int).len()
            } else {
                MAX_SNIPPETS as nat
            },
            forall|t: int|
                0 <= t < r@.len() ==> (#[trigger] r@[t]).line == differing(av, bv, i as int)[t] + 1
                    && r@[t].source@ == clip(av[differing(av, bv, i as int)[t]]) && r@[t].target@ == clip(
                    bv[differing(av, bv, i as int)[t]],
                ),
        decreases n - i,
    {
        proof {
            lemma_differing_bounds(av, bv, i as int);
        }
        let ghost before = differing(av, bv, i as int);
        let differs = !(a[i] == b[i]);
        assert(av[i as int] == a@[i as int]@);
        assert(bv[i as int] == b@[i as int]@);
        if differs && r.len() < MAX_SNIPPETS {
            let d = LineDiff {
                line: i + 1,
                source: clip_line(a[i].as_str()),
                target: clip_line(b[i].as_str()),
            };
            r.push(d);
        }
        proof {
            let after = differing(av, bv, i + 1);
            if differs {
                assert(after == before.push(i as int));
                assert forall|t: int| 0 <= t < r@.len() implies (#[trigger] r@[t]).line == after[t] + 1
                    && r@[t].source@ == clip(av[after[t]]) && r@[t].target@ == clip(bv[after[t]]) by {
                    assert(after[t] == if t < before.len() { before[t] } else { i as int });
                }
            } else {
                assert(after == before);
            }
        }
        i = i + 1;
    }
    r
}

/// The first lines at which a modified file's text differs from the source's.
pub fn diff_texts(source: &str, target: &str) -> (r: Vec<LineDiff>)
    ensures
        snippets_match(r@, lines_of(source@), lines_of(target@)),
{
    let a = split_lines(source);
    let b = split_lines(target);
    diff_snippets(&a, &b)
}

} // verus!
