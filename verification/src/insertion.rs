//! What an index holds after a series of insertions, and what its queries
//! then find, whatever the order in which the insertions came.

use vstd::prelude::*;
use vstd::seq_lib::to_multiset_contains;
use crate::aggregate::{own_size, total_size};
use crate::file_info::EntryView;
use crate::files_db::{
    holds, in_level, in_subtree, lemma_entry_is_at, lemma_put_at, lemma_put_sorted,
    lemma_splits_at_exists, level, put, sorted, splits_at, subtree, IndexView,
};
use crate::path::{
    child_of, lemma_child_is_within, lemma_path_lt_asymmetric, path_lt, within, PathView,
};

verus! {

/// The index after `insertions` were recorded one by one in an empty index.
pub open spec fn recorded(insertions: Seq<EntryView>) -> IndexView
    decreases insertions.len(),
{
    if insertions.len() == 0 {
        Seq::empty()
    } else {
        put(recorded(insertions.drop_last()), insertions.last().path, insertions.last().meta)
    }
}

/// No path is inserted with two different records.
pub open spec fn one_record_per_path(insertions: Seq<EntryView>) -> bool {
    forall|i: int, j: int|
        #![trigger insertions[i], insertions[j]]
        0 <= i < insertions.len() && 0 <= j < insertions.len() && insertions[i].path
            == insertions[j].path ==> insertions[i] == insertions[j]
}

/// Whatever was inserted, the entries stand in the order of their paths.
pub proof fn lemma_recorded_sorted(insertions: Seq<EntryView>)
    ensures
        sorted(recorded(insertions)),
    decreases insertions.len(),
{
    if insertions.len() > 0 {
        lemma_recorded_sorted(insertions.drop_last());
        lemma_put_sorted(
            recorded(insertions.drop_last()),
            insertions.last().path,
            insertions.last().meta,
        );
    }
}

/// After an insertion the index holds the new entry, and of the others those with another path.
pub proof fn lemma_put_holds(s: IndexView, new: EntryView, e: EntryView)
    requires
        sorted(s),
    ensures
        put(s, new.path, new.meta).contains(e) <==> e == new || (s.contains(e) && e.path
            != new.path),
{
    lemma_splits_at_exists(s, new.path);
    let at = choose|at: int| splits_at(s, new.path, at);
    lemma_put_at(s, new.path, new.meta, at);
    let t = put(s, new.path, new.meta);
    let replaces = at < s.len() && s[at].path == new.path;
    assert(t[at] == new);
    if t.contains(e) && e != new {
        let k = choose|k: int| 0 <= k < t.len() && t[k] == e;
        if replaces {
            if e.path == new.path {
                lemma_entry_is_at(s, new.path, at, k);
            }
        } else {
            let k0 = if k < at {
                k
            } else {
                k - 1
            };
            if e.path == new.path {
                lemma_entry_is_at(s, new.path, at, k0);
            }
        }
    }
    if s.contains(e) && e.path != new.path {
        let k = choose|k: int| 0 <= k < s.len() && s[k] == e;
        if replaces {
            assert(t[k] == e);
        } else if k >= at {
            assert(t[k + 1] == e);
        }
    }
}

/// Where no path is inserted with two different records, the index holds what was inserted.
pub proof fn lemma_recorded_holds(insertions: Seq<EntryView>, e: EntryView)
    requires
        one_record_per_path(insertions),
    ensures
        recorded(insertions).contains(e) <==> insertions.contains(e),
    decreases insertions.len(),
{
    if insertions.len() > 0 {
        let init = insertions.drop_last();
        let new = insertions.last();
        assert(one_record_per_path(init)) by {
            assert forall|i: int, j: int|
                #![trigger init[i], init[j]]
                0 <= i < init.len() && 0 <= j < init.len() && init[i].path
                    == init[j].path implies init[i] == init[j] by {
            }
        }
        lemma_recorded_holds(init, e);
        lemma_recorded_sorted(init);
        lemma_put_holds(recorded(init), new, e);
        if init.contains(e) {
            let k = choose|k: int| 0 <= k < init.len() && init[k] == e;
            assert(insertions[k] == e);
        }
        if insertions.contains(e) && e != new {
            let k = choose|k: int| 0 <= k < insertions.len() && insertions[k] == e;
            assert(init[k] == e);
        }
    }
}

/// Two sorted indexes that hold the same entries are the same index.
pub proof fn lemma_sorted_index_is_unique(s: IndexView, t: IndexView)
    requires
        sorted(s),
        sorted(t),
        forall|e: EntryView| s.contains(e) <==> t.contains(e),
    ensures
        s == t,
    decreases s.len(),
{
    if s.len() == 0 {
        if t.len() > 0 {
            assert(t.contains(t[0]));
        }
    } else {
        let last = s.last();
        assert(s.contains(last));
        let k = choose|k: int| 0 <= k < t.len() && t[k] == last;
        assert(t.contains(t.last()));
        let m = choose|m: int| 0 <= m < s.len() && s[m] == t.last();
        if k < t.len() - 1 {
            // then `last` comes before the last entry of `t`, which `s` holds before `last`
            if m < s.len() - 1 {
                lemma_path_lt_asymmetric(s[m].path, last.path);
            } else {
                lemma_path_lt_asymmetric(last.path, last.path);
            }
        }
        let s0 = s.drop_last();
        let t0 = t.drop_last();
        assert(sorted(s0)) by {
            assert forall|i: int, j: int| 0 <= i < j < s0.len() implies path_lt(
                #[trigger] s0[i].path,
                #[trigger] s0[j].path,
            ) by {
            }
        }
        assert(sorted(t0)) by {
            assert forall|i: int, j: int| 0 <= i < j < t0.len() implies path_lt(
                #[trigger] t0[i].path,
                #[trigger] t0[j].path,
            ) by {
            }
        }
        assert forall|e: EntryView| s0.contains(e) <==> t0.contains(e) by {
            if s0.contains(e) {
                let i = choose|i: int| 0 <= i < s0.len() && s0[i] == e;
                lemma_path_lt_asymmetric(e.path, last.path);
                assert(t.contains(e));
                let j = choose|j: int| 0 <= j < t.len() && t[j] == e;
                assert(t0[j] == e);
            }
            if t0.contains(e) {
                lemma_path_lt_asymmetric(e.path, last.path);
                assert(s.contains(e));
                let i = choose|i: int| 0 <= i < s.len() && s[i] == e;
                assert(s0[i] == e);
            }
        }
        lemma_sorted_index_is_unique(s0, t0);
        assert(s =~= s0.push(last));
    }
}

/// The index does not depend on the order of the insertions, where no path is inserted
/// with two different records.
pub proof fn lemma_recorded_in_any_order(insertions: Seq<EntryView>, rearranged: Seq<EntryView>)
    requires
        one_record_per_path(insertions),
        insertions.to_multiset() == rearranged.to_multiset(),
    ensures
        recorded(insertions) == recorded(rearranged),
{
    assert forall|e: EntryView| insertions.contains(e) <==> rearranged.contains(e) by {
        to_multiset_contains(insertions, e);
        to_multiset_contains(rearranged, e);
    }
    assert(one_record_per_path(rearranged)) by {
        assert forall|i: int, j: int|
            #![trigger rearranged[i], rearranged[j]]
            0 <= i < rearranged.len() && 0 <= j < rearranged.len() && rearranged[i].path
                == rearranged[j].path implies rearranged[i] == rearranged[j] by {
            assert(rearranged.contains(rearranged[i]));
            assert(rearranged.contains(rearranged[j]));
        }
    }
    lemma_recorded_sorted(insertions);
    lemma_recorded_sorted(rearranged);
    assert forall|e: EntryView|
        recorded(insertions).contains(e) <==> recorded(rearranged).contains(e) by {
        lemma_recorded_holds(insertions, e);
        lemma_recorded_holds(rearranged, e);
    }
    lemma_sorted_index_is_unique(recorded(insertions), recorded(rearranged));
}

/// What a subtree adds up to does not depend on the order in which its entries were
/// inserted, where no path is inserted with two different records.
pub proof fn lemma_subtree_size_in_any_order(
    insertions: Seq<EntryView>,
    rearranged: Seq<EntryView>,
    root: PathView,
)
    requires
        one_record_per_path(insertions),
        insertions.to_multiset() == rearranged.to_multiset(),
    ensures
        total_size(subtree(recorded(insertions), root)) == total_size(
            subtree(recorded(rearranged), root),
        ),
{
    lemma_recorded_in_any_order(insertions, rearranged);
}

/// Without one of its entries a sequence adds up to less by what that entry holds.
pub proof fn lemma_total_size_without(entries: IndexView, at: int)
    requires
        0 <= at < entries.len(),
    ensures
        total_size(entries) == total_size(entries.remove(at)) + own_size(entries[at]),
    decreases entries.len(),
{
    if at < entries.len() - 1 {
        lemma_total_size_without(entries.drop_last(), at);
        assert(entries.remove(at).drop_last() =~= entries.drop_last().remove(at));
    }
}

/// Entries that are all different and all found among `entries` add up to no more
/// than `entries`.
pub proof fn lemma_total_size_covers(some: IndexView, entries: IndexView)
    requires
        some.no_duplicates(),
        forall|i: int| 0 <= i < some.len() ==> entries.contains(#[trigger] some[i]),
    ensures
        total_size(some) <= total_size(entries),
    decreases some.len(),
{
    if some.len() > 0 {
        let last = some.last();
        let at = choose|at: int| 0 <= at < entries.len() && entries[at] == last;
        let rest = entries.remove(at);
        let init = some.drop_last();
        assert forall|i: int| 0 <= i < init.len() implies rest.contains(#[trigger] init[i]) by {
            let k = choose|k: int| 0 <= k < entries.len() && entries[k] == some[i];
            if k < at {
                assert(rest[k] == some[i]);
            } else {
                assert(rest[k - 1] == some[i]);
            }
        }
        assert(init.no_duplicates()) by {
            assert forall|i: int, j: int|
                0 <= i < init.len() && 0 <= j < init.len() && i != j implies init[i]
                != init[j] by {
            }
        }
        lemma_total_size_covers(init, rest);
        lemma_total_size_without(entries, at);
    }
}

/// What was inserted is found, and a subtree adds up to no less than the files known to lie
/// in it: files that are all different, inserted at the root of the subtree or beneath it,
/// where no path is inserted with two different records.
pub proof fn lemma_subtree_size_covers_files(
    insertions: Seq<EntryView>,
    root: PathView,
    files: Seq<EntryView>,
)
    requires
        one_record_per_path(insertions),
        files.no_duplicates(),
        forall|i: int|
            0 <= i < files.len() ==> insertions.contains(#[trigger] files[i]) && within(
                root,
                files[i].path,
            ),
    ensures
        forall|i: int|
            0 <= i < insertions.len() ==> holds(recorded(insertions), (#[trigger] insertions[i]).path),
        total_size(files) <= total_size(subtree(recorded(insertions), root)),
{
    let index = recorded(insertions);
    assert forall|i: int| 0 <= i < insertions.len() implies holds(
        index,
        (#[trigger] insertions[i]).path,
    ) by {
        lemma_recorded_holds(insertions, insertions[i]);
    }
    assert forall|i: int| 0 <= i < files.len() implies subtree(index, root).contains(
        #[trigger] files[i],
    ) by {
        lemma_subtree_of_recorded(insertions, root, files[i]);
    }
    lemma_total_size_covers(files, subtree(index, root));
}

/// A query for a subtree finds the entries of the index whose path is the root of the
/// subtree or lies beneath it: all of them, and no others.
pub proof fn lemma_subtree_holds(s: IndexView, root: PathView, e: EntryView)
    ensures
        subtree(s, root).contains(e) <==> s.contains(e) && within(root, e.path),
{
    let pred = in_subtree(root);
    if subtree(s, root).contains(e) {
        s.lemma_filter_contains_rev(pred, e);
        let k = choose|k: int| 0 <= k < s.filter(pred).len() && s.filter(pred)[k] == e;
        s.lemma_filter_pred(pred, k);
    }
    if s.contains(e) && within(root, e.path) {
        let k = choose|k: int| 0 <= k < s.len() && s[k] == e;
        s.lemma_filter_contains(pred, k);
    }
}

/// A query for a subtree of the index that a series of insertions has left finds what was
/// inserted at the root of the subtree or beneath it, where no path is inserted with two
/// different records.
pub proof fn lemma_subtree_of_recorded(insertions: Seq<EntryView>, root: PathView, e: EntryView)
    requires
        one_record_per_path(insertions),
    ensures
        subtree(recorded(insertions), root).contains(e) <==> insertions.contains(e) && within(
            root,
            e.path,
        ),
{
    lemma_subtree_holds(recorded(insertions), root, e);
    lemma_recorded_holds(insertions, e);
}

/// A query for a level finds the entries of the index that lie directly in the directory:
/// all of them, and nothing that lies deeper.
pub proof fn lemma_level_holds(s: IndexView, dir: PathView, e: EntryView)
    ensures
        level(s, dir).contains(e) <==> s.contains(e) && child_of(dir, e.path),
        level(s, dir).contains(e) ==> e.path.len() == dir.len() + 1 && within(dir, e.path),
{
    let pred = in_level(dir);
    if level(s, dir).contains(e) {
        s.lemma_filter_contains_rev(pred, e);
        let k = choose|k: int| 0 <= k < s.filter(pred).len() && s.filter(pred)[k] == e;
        s.lemma_filter_pred(pred, k);
        lemma_child_is_within(dir, e.path);
    }
    if s.contains(e) && child_of(dir, e.path) {
        let k = choose|k: int| 0 <= k < s.len() && s[k] == e;
        s.lemma_filter_contains(pred, k);
    }
}

} // verus!
