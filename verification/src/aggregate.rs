//! What a subtree adds up to: the bytes it holds and when it last changed.

use vstd::prelude::*;
use crate::file_info::{later, later_of, EntryView, Timestamp};
use crate::files_db::{subtree, FilesDB, IndexView};
use crate::path::EntryPath;

verus! {

/// The bytes that one entry holds itself; none where its size is unknown.
pub open spec fn own_size(e: EntryView) -> nat {
    match e.meta.size {
        Some(n) => n as nat,
        None => 0,
    }
}

/// The bytes that the entries hold together.
pub open spec fn total_size(entries: IndexView) -> nat
    decreases entries.len(),
{
    if entries.len() == 0 {
        0
    } else {
        total_size(entries.drop_last()) + own_size(entries.last())
    }
}

/// The latest time at which one of the entries was modified; the first of them where several tie.
pub open spec fn latest_update(entries: IndexView) -> Option<Timestamp>
    decreases entries.len(),
{
    if entries.len() == 0 {
        None
    } else {
        later_of(latest_update(entries.drop_last()), entries.last().meta.touched)
    }
}

/// A count of bytes as a `u64`: the largest `u64` stands for every count beyond it.
pub open spec fn saturated(n: nat) -> u64 {
    if n > u64::MAX {
        u64::MAX
    } else {
        n as u64
    }
}

/// The bytes held by `root` and everything beneath it.
pub fn subtree_size(db: &FilesDB, root: &EntryPath) -> (size: u64)
    ensures
        size == saturated(total_size(subtree(db@, root@))),
{
    let mut it = db.iter_dir(root);
    let ghost all = it.remaining();
    let ghost seen: IndexView = Seq::empty();
    let mut size: u64 = 0;
    loop
        invariant
            seen + it.remaining() == all,
            size == saturated(total_size(seen)),
        ensures
            size == saturated(total_size(all)),
        decreases it.remaining().len(),
    {
        match it.next() {
            None => {
                break ;
            },
            Some(info) => {
                proof {
                    let grown = seen.push(info@);
                    assert(grown.drop_last() =~= seen);
                    seen = grown;
                }
                if let Some(bytes) = info.size {
                    size = size.saturating_add(bytes);
                }
            },
        }
    }
    size
}

/// The latest time at which `root` or something beneath it was modified.
pub fn subtree_last_update(db: &FilesDB, root: &EntryPath) -> (latest: Option<Timestamp>)
    ensures
        latest == latest_update(subtree(db@, root@)),
{
    let mut it = db.iter_dir(root);
    let ghost all = it.remaining();
    let ghost seen: IndexView = Seq::empty();
    let mut latest: Option<Timestamp> = None;
    loop
        invariant
            seen + it.remaining() == all,
            latest == latest_update(seen),
        ensures
            latest == latest_update(all),
        decreases it.remaining().len(),
    {
        match it.next() {
            None => {
                break ;
            },
            Some(info) => {
                proof {
                    let grown = seen.push(info@);
                    assert(grown.drop_last() =~= seen);
                    seen = grown;
                }
                latest = later(latest, info.touched);
            },
        }
    }
    latest
}

} // verus!
