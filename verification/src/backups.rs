//! Backup retention: which archive of a backup directory is the newest, which
//! is the oldest, and which ones leave when the directory holds more than it
//! may.
//!
//! The caller lists the directory and deletes files; this module decides. A
//! file's modification time, in nanoseconds since the epoch, is the only key
//! by which files are ordered.
use vstd::prelude::*;

verus! {

/// One entry of the backup directory as it was listed. `modified` is `None`
/// where the entry's metadata could not be read.
#[derive(Debug, Clone, PartialEq, Eq)]
pub struct Listed {
    pub path: String,
    pub modified: Option<u128>,
}

/// A backup archive: its path and its modification time.
#[derive(Debug, Clone, PartialEq, Eq)]
pub struct BackupFile {
    pub path: String,
    pub modified: u128,
}

/// Which end of the order a scan keeps.
#[derive(Debug, Clone, Copy, PartialEq, Eq, Structural)]
pub enum KeepBy {
    Newest,
    Oldest,
}

/// The mathematical value of a [`Listed`].
pub struct ListedModel {
    pub path: Seq<char>,
    pub modified: Option<u128>,
}

/// The mathematical value of a [`BackupFile`].
pub struct BackupModel {
    pub path: Seq<char>,
    pub modified: u128,
}

impl View for Listed {
    type V = ListedModel;

    open spec fn view(&self) -> ListedModel {
        ListedModel { path: self.path@, modified: self.modified }
    }
}

impl View for BackupFile {
    type V = BackupModel;

    open spec fn view(&self) -> BackupModel {
        BackupModel { path: self.path@, modified: self.modified }
    }
}

pub open spec fn listing_of(files: Seq<Listed>) -> Seq<ListedModel> {
    Seq::new(files.len(), |i: int| files[i]@)
}

pub open spec fn backups_of(entries: Seq<BackupFile>) -> Seq<BackupModel> {
    Seq::new(entries.len(), |i: int| entries[i]@)
}

pub open spec fn texts_of(texts: Seq<String>) -> Seq<Seq<char>> {
    Seq::new(texts.len(), |i: int| texts[i]@)
}

pub open spec fn paths_of(entries: Seq<BackupModel>) -> Seq<Seq<char>> {
    Seq::new(entries.len(), |i: int| entries[i].path)
}

/// The entries of a listing whose modification time could be read, in the
/// order of the listing.
pub open spec fn readable(files: Seq<ListedModel>) -> Seq<BackupModel>
    decreases files.len(),
{
    if files.len() == 0 {
        Seq::empty()
    } else {
        let before = readable(files.drop_last());
        match files.last().modified {
            Some(time) => before.push(BackupModel { path: files.last().path, modified: time }),
            None => before,
        }
    }
}

/// Whether a scan that keeps by `keep` holds on to a file of time `held`
/// when it meets one of time `met`: only where the held one is strictly
/// better.
pub open spec fn prefers(keep: KeepBy, held: u128, met: u128) -> bool {
    match keep {
        KeepBy::Newest => held > met,
        KeepBy::Oldest => held < met,
    }
}

/// Entry `i` is the one a scan keeps: no earlier entry is strictly better,
/// and it is strictly better than every later one. Among entries of the same
/// time the last one is kept.
pub open spec fn is_kept(entries: Seq<BackupModel>, keep: KeepBy, i: int) -> bool {
    &&& 0 <= i < entries.len()
    &&& forall|j: int| 0 <= j < i ==> !prefers(keep, entries[j].modified, entries[i].modified)
    &&& forall|j: int|
        i < j < entries.len() ==> prefers(keep, entries[i].modified, entries[j].modified)
}

/// The index of the entry that a scan keeps.
pub open spec fn kept_index(entries: Seq<BackupModel>, keep: KeepBy) -> int {
    choose|i: int| is_kept(entries, keep, i)
}

/// A scan keeps one entry only.
pub proof fn kept_is_unique(entries: Seq<BackupModel>, keep: KeepBy, i: int, j: int)
    requires
        is_kept(entries, keep, i),
        is_kept(entries, keep, j),
    ensures
        i == j,
        kept_index(entries, keep) == i,
{
    if i < j {
        assert(prefers(keep, entries[i].modified, entries[j].modified));
    } else if j < i {
        assert(prefers(keep, entries[j].modified, entries[i].modified));
    }
    let k = kept_index(entries, keep);
    if k < i {
        assert(prefers(keep, entries[k].modified, entries[i].modified));
    } else if i < k {
        assert(prefers(keep, entries[i].modified, entries[k].modified));
    }
}

/// The entries that leave when the oldest entry is removed `count` times, in
/// the order in which they leave. Removal stops when nothing is left.
pub open spec fn evictions(entries: Seq<BackupModel>, count: nat) -> Seq<BackupModel>
    decreases count,
{
    if count == 0 || entries.len() == 0 {
        Seq::empty()
    } else {
        let i = kept_index(entries, KeepBy::Oldest);
        seq![entries[i]] + evictions(entries.remove(i), (count - 1) as nat)
    }
}

/// The entries that stay when the oldest entry is removed `count` times.
pub open spec fn survivors(entries: Seq<BackupModel>, count: nat) -> Seq<BackupModel>
    decreases count,
{
    if count == 0 || entries.len() == 0 {
        entries
    } else {
        let i = kept_index(entries, KeepBy::Oldest);
        survivors(entries.remove(i), (count - 1) as nat)
    }
}

/// How many entries a directory of `count` entries holds over its cap.
pub open spec fn excess(count: nat, cap: nat) -> nat {
    if count > cap {
        (count - cap) as nat
    } else {
        0
    }
}

/// Every list that is not empty has an oldest and a newest entry.
pub proof fn some_entry_is_kept(entries: Seq<BackupModel>, keep: KeepBy)
    requires
        entries.len() > 0,
    ensures
        is_kept(entries, keep, kept_index(entries, keep)),
    decreases entries.len(),
{
    if entries.len() == 1 {
        assert(is_kept(entries, keep, 0));
    } else {
        let before = entries.drop_last();
        some_entry_is_kept(before, keep);
        let b = kept_index(before, keep);
        let last = entries.len() - 1;
        if prefers(keep, entries[b].modified, entries[last].modified) {
            assert forall|j: int| b < j < entries.len() implies prefers(
                keep,
                entries[b].modified,
                entries[j].modified,
            ) by {
                if j < last {
                    assert(before[j] == entries[j]);
                }
            }
            assert forall|j: int| 0 <= j < b implies !prefers(
                keep,
                entries[j].modified,
                entries[b].modified,
            ) by {
                assert(before[j] == entries[j]);
            }
            assert(is_kept(entries, keep, b));
        } else {
            assert forall|j: int| 0 <= j < last implies !prefers(
                keep,
                entries[j].modified,
                entries[last].modified,
            ) by {
                assert(before[j] == entries[j]);
                assert(before[b] == entries[b]);
                if j < b {
                    assert(!prefers(keep, before[j].modified, before[b].modified));
                } else if b < j {
                    assert(prefers(keep, before[b].modified, before[j].modified));
                }
            }
            assert(is_kept(entries, keep, last));
        }
    }
}

/// Retention keeps the newest: after `count` removals, as many entries are
/// gone as were asked for and were there; every entry that stays was in the
/// directory; and no entry that stays is older than one that left.
pub proof fn retention_keeps_newest(entries: Seq<BackupModel>, count: nat)
    ensures
        evictions(entries, count).len() == if count <= entries.len() {
            count
        } else {
            entries.len()
        },
        survivors(entries, count).len() + evictions(entries, count).len() == entries.len(),
        forall|j: int|
            0 <= j < survivors(entries, count).len() ==> entries.contains(
                #[trigger] survivors(entries, count)[j],
            ),
        forall|i: int|
            0 <= i < evictions(entries, count).len() ==> entries.contains(
                #[trigger] evictions(entries, count)[i],
            ),
        forall|i: int, j: int|
            0 <= i < evictions(entries, count).len() && 0 <= j < survivors(entries, count).len()
                ==> (#[trigger] evictions(entries, count)[i]).modified <= (#[trigger] survivors(
                entries,
                count,
            )[j]).modified,
    decreases count,
{
    let gone = evictions(entries, count);
    let stay = survivors(entries, count);
    if count == 0 || entries.len() == 0 {
        assert forall|j: int| 0 <= j < stay.len() implies entries.contains(#[trigger] stay[j]) by {
            assert(entries[j] == stay[j]);
        }
    } else {
        let k = kept_index(entries, KeepBy::Oldest);
        some_entry_is_kept(entries, KeepBy::Oldest);
        let rest = entries.remove(k);
        retention_keeps_newest(rest, (count - 1) as nat);
        let gone_rest = evictions(rest, (count - 1) as nat);
        assert(gone == seq![entries[k]] + gone_rest);
        assert forall|x: BackupModel| rest.contains(x) implies entries.contains(x)
            && entries[k].modified <= x.modified by {
            let j = rest.index_of(x);
            if j < k {
                assert(entries[j] == x);
            } else {
                assert(entries[j + 1] == x);
            }
        }
        assert forall|j: int| 0 <= j < stay.len() implies entries.contains(#[trigger] stay[j]) by {
            assert(rest.contains(stay[j]));
        }
        assert forall|i: int| 0 <= i < gone.len() implies entries.contains(#[trigger] gone[i]) by {
            if i == 0 {
                assert(gone[0] == entries[k]);
            } else {
                assert(gone[i] == gone_rest[i - 1]);
                assert(rest.contains(gone_rest[i - 1]));
            }
        }
        assert forall|i: int, j: int| 0 <= i < gone.len() && 0 <= j < stay.len() implies (
        #[trigger] gone[i]).modified <= (#[trigger] stay[j]).modified by {
            if i == 0 {
                assert(gone[0] == entries[k]);
                assert(rest.contains(stay[j]));
            } else {
                assert(gone[i] == gone_rest[i - 1]);
            }
        }
    }
}

// ---------------------------------------------------------------------------
// Scans
// ---------------------------------------------------------------------------

/// Scans the entries and keeps one by its modification time: the newest or
/// the oldest, and of several with that time the last. Gives its index, and
/// nothing for an empty list.
pub fn stream_keep_by_key(entries: &Vec<BackupFile>, keep: KeepBy) -> (kept: Option<usize>)
    ensures
        match kept {
            Some(i) => is_kept(backups_of(entries@), keep, i as int) && i == kept_index(
                backups_of(entries@),
                keep,
            ),
            None => entries@.len() == 0,
        },
{
    if entries.len() == 0 {
        return None;
    }
    let ghost all = backups_of(entries@);
    let mut best: usize = 0;
    let mut i: usize = 1;
    while i < entries.len()
        invariant
            1 <= i <= entries@.len(),
            all == backups_of(entries@),
            best < i,
            forall|j: int| 0 <= j < best ==> !prefers(keep, all[j].modified, all[best as int].modified),
            forall|j: int|
                best < j < i ==> prefers(keep, all[best as int].modified, all[j].modified),
        decreases entries@.len() - i,
    {
        let held = entries[best].modified;
        let met = entries[i].modified;
        let stays = match keep {
            KeepBy::Newest => held > met,
            KeepBy::Oldest => held < met,
        };
        if !stays {
            assert forall|j: int| 0 <= j < i implies !prefers(
                keep,
                all[j].modified,
                all[i as int].modified,
            ) by {
                if j < best {
                    assert(!prefers(keep, all[j].modified, all[best as int].modified));
                } else if best < j {
                    assert(prefers(keep, all[best as int].modified, all[j].modified));
                }
            }
            best = i;
        }
        i += 1;
    }
    proof {
        kept_is_unique(all, keep, best as int, best as int);
    }
    Some(best)
}

/// The entries of a listing whose modification time could be read; the
/// others are passed over.
pub fn iter_paths_with_sys_time(files: &Vec<Listed>) -> (entries: Vec<BackupFile>)
    ensures
        backups_of(entries@) == readable(listing_of(files@)),
{
    let mut entries: Vec<BackupFile> = Vec::new();
    let mut i: usize = 0;
    let ghost listing = listing_of(files@);
    assert(listing.subrange(0, 0) =~= Seq::<ListedModel>::empty());
    assert(backups_of(entries@) =~= Seq::<BackupModel>::empty());
    while i < files.len()
        invariant
            i <= files@.len(),
            listing == listing_of(files@),
            backups_of(entries@) == readable(listing.subrange(0, i as int)),
        decreases files@.len() - i,
    {
        let ghost before = backups_of(entries@);
        proof {
            let upto = listing.subrange(0, i + 1);
            assert(upto.drop_last() =~= listing.subrange(0, i as int));
            assert(upto.last() == files@[i as int]@);
        }
        match files[i].modified {
            Some(time) => {
                let path = files[i].path.clone();
                entries.push(BackupFile { path, modified: time });
                assert(backups_of(entries@) =~= before.push(
                    BackupModel { path: files@[i as int].path@, modified: time },
                ));
            },
            None => {},
        }
        i += 1;
    }
    assert(listing.subrange(0, i as int) =~= listing);
    entries
}

/// The path of the newest backup, if there is any.
pub fn latest_file(entries: &Vec<BackupFile>) -> (latest: Option<String>)
    ensures
        match latest {
            Some(path) => entries@.len() > 0 && path@ == backups_of(entries@)[kept_index(
                backups_of(entries@),
                KeepBy::Newest,
            )].path,
            None => entries@.len() == 0,
        },
{
    match stream_keep_by_key(entries, KeepBy::Newest) {
        Some(i) => Some(entries[i].path.clone()),
        None => None,
    }
}

/// Takes the oldest backup off the list and gives its path, for the caller
/// to delete the file. An empty list stays as it is.
pub fn remove_oldest_backup(entries: &mut Vec<BackupFile>) -> (removed: Option<String>)
    ensures
        match removed {
            Some(path) => {
                let i = kept_index(backups_of(old(entries)@), KeepBy::Oldest);
                &&& old(entries)@.len() > 0
                &&& is_kept(backups_of(old(entries)@), KeepBy::Oldest, i)
                &&& path@ == backups_of(old(entries)@)[i].path
                &&& backups_of(final(entries)@) == backups_of(old(entries)@).remove(i)
            },
            None => old(entries)@.len() == 0 && final(entries)@ == old(entries)@,
        },
{
    match stream_keep_by_key(entries, KeepBy::Oldest) {
        Some(i) => {
            let gone = entries.remove(i);
            assert(backups_of(final(entries)@) =~= backups_of(old(entries)@).remove(i as int));
            Some(gone.path)
        },
        None => None,
    }
}

/// The retention rule: the paths to delete, oldest first, so that a
/// directory listed as `files` holds no more than `cap` entries. Only
/// entries whose modification time could be read can leave.
pub fn backups_to_remove(files: &Vec<Listed>, cap: usize) -> (doomed: Vec<String>)
    ensures
        texts_of(doomed@) == paths_of(
            evictions(readable(listing_of(files@)), excess(files@.len(), cap as nat)),
        ),
{
    let mut entries = iter_paths_with_sys_time(files);
    let mut left: usize = if files.len() > cap {
        files.len() - cap
    } else {
        0
    };
    let mut doomed: Vec<String> = Vec::new();
    let ghost all = backups_of(entries@);
    let ghost total = excess(files@.len(), cap as nat);
    let ghost gone = Seq::<BackupModel>::empty();
    assert(gone + evictions(all, total) =~= evictions(all, total));
    assert(texts_of(doomed@) =~= paths_of(gone));
    while left > 0 && entries.len() > 0
        invariant
            texts_of(doomed@) == paths_of(gone),
            evictions(all, total) == gone + evictions(backups_of(entries@), left as nat),
        decreases left,
    {
        let ghost now = backups_of(entries@);
        let ghost before = texts_of(doomed@);
        let removed = remove_oldest_backup(&mut entries);
        match removed {
            Some(path) => {
                let ghost i = kept_index(now, KeepBy::Oldest);
                proof {
                    assert(evictions(now, left as nat) == seq![now[i]] + evictions(
                        now.remove(i),
                        (left - 1) as nat,
                    ));
                    assert(gone + (seq![now[i]] + evictions(now.remove(i), (left - 1) as nat))
                        =~= gone.push(now[i]) + evictions(now.remove(i), (left - 1) as nat));
                    gone = gone.push(now[i]);
                }
                let ghost listed = doomed@;
                doomed.push(path);
                assert(doomed@ == listed.push(path));
                assert(texts_of(doomed@) =~= texts_of(listed).push(path@));
                assert(paths_of(gone) =~= before.push(now[i].path));
            },
            None => {},
        }
        left -= 1;
    }
    assert(gone + Seq::<BackupModel>::empty() =~= gone);
    doomed
}

} // verus!
