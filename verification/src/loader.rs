//! What a loader needs of the index while it fills it: batches of a fixed
//! size on the way in, and one writer that records them.

use vstd::prelude::*;
use crate::file_info::{EntryView, FileMeta};
use crate::files_db::{put, FilesDB, IndexView};
use crate::insertion::recorded;
use crate::path::EntryPath;

verus! {

/// The number of items that travel together from one stage of loading to the next.
pub const BULK_SIZE: usize = 10000;

/// Puts `item` into `buffer` and hands the buffer's content on once it holds `BULK_SIZE` items.
pub fn push_batched<T>(buffer: &mut Vec<T>, item: T) -> (full: Option<Vec<T>>)
    ensures
        match full {
            Some(batch) => {
                &&& batch@ == old(buffer)@.push(item)
                &&& batch@.len() >= BULK_SIZE
                &&& final(buffer)@.len() == 0
            },
            None => final(buffer)@ == old(buffer)@.push(item) && final(buffer)@.len() < BULK_SIZE,
        },
{
    buffer.push(item);
    if buffer.len() >= BULK_SIZE {
        let mut batch: Vec<T> = Vec::new();
        std::mem::swap(buffer, &mut batch);
        Some(batch)
    } else {
        None
    }
}

/// What is left in `buffer` when a stage ends, if anything is.
pub fn take_rest<T>(buffer: Vec<T>) -> (rest: Option<Vec<T>>)
    ensures
        match rest {
            Some(batch) => batch@ == buffer@ && batch@.len() > 0,
            None => buffer@.len() == 0,
        },
{
    if buffer.len() > 0 {
        Some(buffer)
    } else {
        None
    }
}

/// The entries that a batch holds.
pub open spec fn batch_view(batch: Seq<(EntryPath, FileMeta)>) -> Seq<EntryView> {
    batch.map_values(|pair: (EntryPath, FileMeta)| EntryView { path: pair.0@, meta: pair.1 })
}

/// The index `s` after `insertions` were recorded in it one by one.
pub open spec fn recorded_onto(s: IndexView, insertions: Seq<EntryView>) -> IndexView
    decreases insertions.len(),
{
    if insertions.len() == 0 {
        s
    } else {
        put(recorded_onto(s, insertions.drop_last()), insertions.last().path, insertions.last().meta)
    }
}

/// Recording onto an empty index is recording.
pub proof fn lemma_recorded_onto_empty(insertions: Seq<EntryView>)
    ensures
        recorded_onto(Seq::empty(), insertions) == recorded(insertions),
    decreases insertions.len(),
{
    if insertions.len() > 0 {
        lemma_recorded_onto_empty(insertions.drop_last());
    }
}

/// Recording two series one after the other is recording them as one.
pub proof fn lemma_recorded_onto_twice(s: IndexView, first: Seq<EntryView>, second: Seq<EntryView>)
    ensures
        recorded_onto(recorded_onto(s, first), second) == recorded_onto(s, first + second),
    decreases second.len(),
{
    if second.len() > 0 {
        lemma_recorded_onto_twice(s, first, second.drop_last());
        assert((first + second).drop_last() =~= first + second.drop_last());
    }
}

/// Records the entries of `batch` in `db`, in their order.
pub fn record_batch(db: &mut FilesDB, batch: Vec<(EntryPath, FileMeta)>)
    ensures
        final(db)@ == recorded_onto(old(db)@, batch_view(batch@)),
{
    let ghost wanted = batch_view(batch@);
    for pair in it: batch.into_iter()
        invariant
            wanted == batch_view(batch@),
            it.seq() == batch@,
            db@ == recorded_onto(old(db)@, wanted.take(it.index() as int)),
    {
        let (path, meta) = pair;
        proof {
            let k = it.index() as int;
            assert(wanted.take(k + 1).drop_last() =~= wanted.take(k));
        }
        db.add(path, meta);
    }
    assert(wanted.take(batch@.len() as int) =~= wanted);
}

} // verus!
