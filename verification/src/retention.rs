//! The retention sweep: which files of the working directories are
//! deleted, and how often the sweep runs.

use vstd::prelude::*;

verus! {

/// The seconds between two sweeps.
pub const SWEEP_INTERVAL_SECONDS: u64 = 600;

/// The age, in seconds, beyond which a file is deleted.
pub const MAX_AGE_SECONDS: u64 = 3600;

/// The age, in nanoseconds, beyond which a file is deleted.
pub open spec fn max_age_nanos() -> int {
    MAX_AGE_SECONDS * 1_000_000_000
}

/// The directories that are swept, in the order of the sweep.
pub fn swept_directories() -> (dirs: Vec<&'static str>)
    ensures
        dirs@.len() == 2,
        dirs@[0]@ == "./processed"@,
        dirs@[1]@ == "./uploads"@,
{
    let mut dirs: Vec<&'static str> = Vec::new();
    dirs.push("./processed");
    dirs.push("./uploads");
    dirs
}

/// What the listing of a directory says of one entry. Times are in
/// nanoseconds since 1 January 1970.
#[derive(Debug)]
pub enum Entry {
    /// The entry, its kind or its time of last change could not be read.
    Unreadable,
    /// The entry is no regular file.
    Other,
    /// A regular file and the time of its last change.
    File { path: String, modified: u128 },
}

/// The age of a file at the time `now`. A file that was changed after
/// `now` has no age.
pub open spec fn age(modified: u128, now: u128) -> int {
    if now >= modified {
        now - modified
    } else {
        0
    }
}

/// Whether a file of that time of last change is deleted at `now`: when
/// it is older than an hour.
pub open spec fn is_stale(modified: u128, now: u128) -> bool {
    age(modified, now) > max_age_nanos()
}

/// Whether a file of that time of last change is deleted at `now`.
pub fn file_is_stale(modified: u128, now: u128) -> (stale: bool)
    ensures
        stale == is_stale(modified, now),
{
    now >= modified && now - modified > 3_600_000_000_000
}

/// The entries that a sweep looks at: those before the first unreadable
/// one, which ends the sweep of its directory.
pub open spec fn swept_len(entries: Seq<Entry>) -> int
    decreases entries.len(),
{
    if entries.len() == 0 || entries[0] is Unreadable {
        0
    } else {
        1 + swept_len(entries.drop_first())
    }
}

/// The paths that a sweep of the first `n` entries deletes, in order:
/// those of the regular files that are older than an hour.
pub open spec fn stale_paths(entries: Seq<Entry>, now: u128, n: int) -> Seq<Seq<char>>
    decreases n,
{
    if n <= 0 {
        Seq::empty()
    } else {
        let before = stale_paths(entries, now, n - 1);
        match entries[n - 1] {
            Entry::File { path, modified } => if is_stale(modified, now) {
                before.push(path@)
            } else {
                before
            },
            _ => before,
        }
    }
}

/// The result of planning a sweep.
#[derive(Debug)]
pub struct Sweep {
    /// The files to delete, in the order of the listing. A file that cannot
    /// be deleted does not end the sweep.
    pub delete: Vec<String>,
    /// Whether the sweep was ended by an unreadable entry. The files before
    /// it are deleted all the same.
    pub aborted: bool,
}

proof fn lemma_swept_len(entries: Seq<Entry>, n: int)
    requires
        0 <= n <= entries.len(),
        forall|i: int| 0 <= i < n ==> !(#[trigger] entries[i] is Unreadable),
        n < entries.len() ==> entries[n] is Unreadable,
    ensures
        swept_len(entries) == n,
    decreases entries.len(),
{
    if entries.len() == 0 || entries[0] is Unreadable {
    } else {
        let rest = entries.drop_first();
        assert forall|i: int| 0 <= i < n - 1 implies !(#[trigger] rest[i] is Unreadable) by {
            assert(rest[i] == entries[i + 1]);
        }
        if n < entries.len() {
            assert(rest[n - 1] == entries[n]);
        }
        lemma_swept_len(rest, n - 1);
    }
}

/// Plans the sweep of one directory at the time `now`, from the listing
/// of its entries.
pub fn cleanup_directory(entries: &Vec<Entry>, now: u128) -> (sweep: Sweep)
    ensures
        crate::text::texts(sweep.delete@) == stale_paths(entries@, now, swept_len(entries@)),
        sweep.aborted == (swept_len(entries@) < entries@.len()),
{
    let mut delete: Vec<String> = Vec::new();
    let mut i: usize = 0;
    proof {
        assert(crate::text::texts(delete@) =~= Seq::<Seq<char>>::empty());
    }
    while i < entries.len()
        invariant
            i <= entries@.len(),
            forall|j: int| 0 <= j < i ==> !(#[trigger] entries@[j] is Unreadable),
            crate::text::texts(delete@) == stale_paths(entries@, now, i as int),
        decreases entries@.len() - i,
    {
        let ghost before = crate::text::texts(delete@);
        match &entries[i] {
            Entry::Unreadable => {
                proof {
                    lemma_swept_len(entries@, i as int);
                }
                return Sweep { delete, aborted: true };
            },
            Entry::Other => {},
            Entry::File { path, modified } => {
                if file_is_stale(*modified, now) {
                    delete.push(path.clone());
                    proof {
                        assert(crate::text::texts(delete@) =~= before.push(path@));
                    }
                }
            },
        }
        i += 1;
    }
    proof {
        lemma_swept_len(entries@, i as int);
    }
    Sweep { delete, aborted: false }
}

/// A file is deleted only if it is older than an hour, and every regular
/// file older than an hour that the sweep reaches is deleted.
pub proof fn lemma_only_stale_files_are_deleted(entries: Seq<Entry>, now: u128, n: int)
    requires
        0 <= n <= entries.len(),
    ensures
        forall|p: Seq<char>| #[trigger]
            stale_paths(entries, now, n).contains(p) ==> exists|i: int|
                0 <= i < n && #[trigger] is_stale_file(entries[i], p, now),
        forall|i: int|
            0 <= i < n && entries[i] is File && is_stale(entries[i]->modified, now)
                ==> #[trigger] stale_paths(entries, now, n).contains(entries[i]->path@),
    decreases n,
{
    if n > 0 {
        lemma_only_stale_files_are_deleted(entries, now, n - 1);
        let before = stale_paths(entries, now, n - 1);
        let after = stale_paths(entries, now, n);
        assert forall|p: Seq<char>| #[trigger] after.contains(p) implies exists|i: int|
            0 <= i < n && #[trigger] is_stale_file(entries[i], p, now) by {
            if before.contains(p) {
                let i = choose|i: int|
                    0 <= i < n - 1 && #[trigger] is_stale_file(entries[i], p, now);
                assert(is_stale_file(entries[i], p, now));
            } else {
                let k = choose|k: int| 0 <= k < after.len() && after[k] == p;
                assert(after.len() == before.len() + 1 && k == before.len()) by {
                    if k < before.len() {
                        assert(before[k] == p);
                    }
                }
                assert(is_stale_file(entries[n - 1], p, now));
            }
        }
        assert forall|i: int|
            0 <= i < n && entries[i] is File && is_stale(
                entries[i]->modified,
                now,
            ) implies #[trigger] after.contains(entries[i]->path@) by {
            if i < n - 1 {
                assert(before.contains(entries[i]->path@));
                let k = choose|k: int| 0 <= k < before.len() && before[k] == entries[i]->path@;
                assert(after[k] == before[k]);
            } else {
                assert(after[after.len() - 1] == entries[i]->path@);
            }
        }
    }
}

/// Whether `entry` is a regular file at `path` that is older than an
/// hour at `now`.
pub open spec fn is_stale_file(entry: Entry, path: Seq<char>, now: u128) -> bool {
    entry is File && entry->path@ == path && is_stale(entry->modified, now)
}

} // verus!
