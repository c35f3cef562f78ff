//! The path index: entries kept in the order of their paths, so that a
//! directory is followed at once by everything beneath it.

use vstd::prelude::*;
use crate::file_info::{EntryView, FileInfo, FileMeta};
use crate::path::{
    child_of, lemma_child_is_within, lemma_path_lt_asymmetric, lemma_path_lt_connected,
    lemma_path_lt_transitive, lemma_within_is_convex, lemma_within_is_le, path_le, path_lt, within,
    EntryPath, PathOrder, PathView,
};

verus! {

/// The model of the index: its entries in the order in which queries walk them.
pub type IndexView = Seq<EntryView>;

/// Entries stand in the strict order of their paths, so no path occurs twice.
pub open spec fn sorted(s: IndexView) -> bool {
    forall|i: int, j: int| 0 <= i < j < s.len() ==> path_lt(#[trigger] s[i].path, #[trigger] s[j].path)
}

pub open spec fn comes_before(p: PathView) -> spec_fn(EntryView) -> bool {
    |e: EntryView| path_lt(e.path, p)
}

pub open spec fn comes_after(p: PathView) -> spec_fn(EntryView) -> bool {
    |e: EntryView| path_lt(p, e.path)
}

/// The index after `p` was recorded with `meta`: what came before `p` and
/// what comes after it stay in place; an earlier entry for `p` is gone.
pub open spec fn put(s: IndexView, p: PathView, meta: FileMeta) -> IndexView {
    s.filter(comes_before(p)) + seq![EntryView { path: p, meta }] + s.filter(comes_after(p))
}

/// Some entry has the path `p`.
pub open spec fn holds(s: IndexView, p: PathView) -> bool {
    exists|i: int| 0 <= i < s.len() && (#[trigger] s[i]).path == p
}

/// Some entry has the path `p` and is a directory.
pub open spec fn holds_dir(s: IndexView, p: PathView) -> bool {
    exists|i: int| 0 <= i < s.len() && (#[trigger] s[i]).path == p && s[i].meta.is_dir
}

pub open spec fn in_subtree(root: PathView) -> spec_fn(EntryView) -> bool {
    |e: EntryView| within(root, e.path)
}

pub open spec fn in_level(dir: PathView) -> spec_fn(EntryView) -> bool {
    |e: EntryView| child_of(dir, e.path)
}

pub open spec fn dir_in_subtree(root: PathView) -> spec_fn(EntryView) -> bool {
    |e: EntryView| within(root, e.path) && e.meta.is_dir
}

/// The entries whose path is `root` or lies beneath it, in order.
pub open spec fn subtree(s: IndexView, root: PathView) -> IndexView {
    s.filter(in_subtree(root))
}

/// The entries that lie directly in `dir`, in order.
pub open spec fn level(s: IndexView, dir: PathView) -> IndexView {
    s.filter(in_level(dir))
}

/// The directories among the entries of `subtree(s, root)`, in order.
pub open spec fn directories(s: IndexView, root: PathView) -> IndexView {
    s.filter(dir_in_subtree(root))
}

/// A filter that every element passes keeps the sequence.
pub proof fn lemma_filter_all<A>(s: Seq<A>, pred: spec_fn(A) -> bool)
    requires
        forall|i: int| 0 <= i < s.len() ==> pred(#[trigger] s[i]),
    ensures
        s.filter(pred) == s,
    decreases s.len(),
{
    reveal(Seq::filter);
    if s.len() > 0 {
        let init = s.drop_last();
        assert forall|i: int| 0 <= i < init.len() implies pred(#[trigger] init[i]) by {
        }
        lemma_filter_all(init, pred);
    }
}

/// A filter that no element passes leaves nothing.
pub proof fn lemma_filter_none<A>(s: Seq<A>, pred: spec_fn(A) -> bool)
    requires
        forall|i: int| 0 <= i < s.len() ==> !pred(#[trigger] s[i]),
    ensures
        s.filter(pred) == Seq::<A>::empty(),
    decreases s.len(),
{
    reveal(Seq::filter);
    if s.len() > 0 {
        let init = s.drop_last();
        assert forall|i: int| 0 <= i < init.len() implies !pred(#[trigger] init[i]) by {
        }
        lemma_filter_none(init, pred);
    }
}

/// A filter that passes exactly the elements from `from` up to `to` keeps that stretch.
pub proof fn lemma_filter_stretch<A>(s: Seq<A>, pred: spec_fn(A) -> bool, from: int, to: int)
    requires
        0 <= from <= to <= s.len(),
        forall|i: int| 0 <= i < s.len() ==> pred(#[trigger] s[i]) == (from <= i < to),
    ensures
        s.filter(pred) == s.subrange(from, to),
{
    let a = s.subrange(0, from);
    let b = s.subrange(from, to);
    let c = s.subrange(to, s.len() as int);
    assert(s =~= a + b + c);
    assert forall|i: int| 0 <= i < a.len() implies !pred(#[trigger] a[i]) by {
    }
    assert forall|i: int| 0 <= i < b.len() implies pred(#[trigger] b[i]) by {
    }
    assert forall|i: int| 0 <= i < c.len() implies !pred(#[trigger] c[i]) by {
    }
    lemma_filter_none(a, pred);
    lemma_filter_all(b, pred);
    lemma_filter_none(c, pred);
    Seq::filter_distributes_over_add(a + b, c, pred);
    Seq::filter_distributes_over_add(a, b, pred);
}

/// Where `p` belongs in a sorted index: after `at` entries.
pub open spec fn splits_at(s: IndexView, p: PathView, at: int) -> bool {
    &&& 0 <= at <= s.len()
    &&& forall|j: int| 0 <= j < at ==> path_lt((#[trigger] s[j]).path, p)
    &&& forall|j: int| at <= j < s.len() ==> path_le(p, (#[trigger] s[j]).path)
}

/// In a sorted index the entries before `p` are those in front of the place where `p` belongs,
/// and the entries after `p` are those behind it, less an entry for `p` itself.
pub proof fn lemma_put_at(s: IndexView, p: PathView, meta: FileMeta, at: int)
    requires
        sorted(s),
        splits_at(s, p, at),
    ensures
        s.filter(comes_before(p)) == s.subrange(0, at),
        at < s.len() && s[at].path == p ==> s.filter(comes_after(p)) == s.subrange(
            at + 1,
            s.len() as int,
        ),
        !(at < s.len() && s[at].path == p) ==> s.filter(comes_after(p)) == s.subrange(
            at,
            s.len() as int,
        ),
        at < s.len() && s[at].path == p ==> put(s, p, meta) == s.update(
            at,
            EntryView { path: p, meta },
        ),
        !(at < s.len() && s[at].path == p) ==> put(s, p, meta) == s.insert(
            at,
            EntryView { path: p, meta },
        ),
{
    let before = comes_before(p);
    let after = comes_after(p);
    assert forall|i: int| 0 <= i < s.len() implies before(#[trigger] s[i]) == (0 <= i < at) by {
        if i >= at && path_lt(s[i].path, p) {
            lemma_path_lt_asymmetric(s[i].path, p);
        }
    }
    lemma_filter_stretch(s, before, 0, at);
    let from = if at < s.len() && s[at].path == p {
        at + 1
    } else {
        at
    };
    assert forall|i: int| 0 <= i < s.len() implies after(#[trigger] s[i]) == (from <= i < s.len()) by {
        if i < at {
            if path_lt(p, s[i].path) {
                lemma_path_lt_asymmetric(s[i].path, p);
            }
        } else if i == at {
            if s[at].path == p {
                if path_lt(p, s[i].path) {
                    lemma_path_lt_asymmetric(p, s[i].path);
                }
            }
        } else if s[at].path != p {
            lemma_path_lt_transitive(p, s[at].path, s[i].path);
        }
    }
    lemma_filter_stretch(s, after, from, s.len() as int);
}

/// Recording a path keeps the index sorted.
pub proof fn lemma_put_sorted(s: IndexView, p: PathView, meta: FileMeta)
    requires
        sorted(s),
    ensures
        sorted(put(s, p, meta)),
{
    lemma_splits_at_exists(s, p);
    let k = choose|k: int| splits_at(s, p, k);
    lemma_put_at(s, p, meta, k);
    let t = put(s, p, meta);
    assert forall|i: int, j: int| 0 <= i < j < t.len() implies path_lt(
        #[trigger] t[i].path,
        #[trigger] t[j].path,
    ) by {
    }
}

/// Every path has its place in a sorted index.
pub proof fn lemma_splits_at_exists(s: IndexView, p: PathView)
    requires
        sorted(s),
    ensures
        exists|k: int| splits_at(s, p, k),
    decreases s.len(),
{
    if s.len() == 0 {
        assert(splits_at(s, p, 0));
    } else {
        let init = s.drop_last();
        assert(sorted(init)) by {
            assert forall|i: int, j: int| 0 <= i < j < init.len() implies path_lt(
                #[trigger] init[i].path,
                #[trigger] init[j].path,
            ) by {
            }
        }
        lemma_splits_at_exists(init, p);
        let k = choose|k: int| splits_at(init, p, k);
        let last = s.last();
        if path_lt(last.path, p) {
            assert forall|j: int| 0 <= j < s.len() implies path_lt((#[trigger] s[j]).path, p) by {
                if j < s.len() - 1 {
                    lemma_path_lt_transitive(s[j].path, last.path, p);
                }
            }
            assert(splits_at(s, p, s.len() as int));
        } else {
            lemma_path_lt_connected(last.path, p);
            assert forall|j: int| 0 <= j < k implies path_lt((#[trigger] s[j]).path, p) by {
                assert(s[j] == init[j]);
            }
            assert forall|j: int| k <= j < s.len() implies path_le(p, (#[trigger] s[j]).path) by {
                if j < s.len() - 1 {
                    assert(s[j] == init[j]);
                }
            }
            assert(splits_at(s, p, k));
        }
    }
}

/// One stored entry.
#[derive(Debug)]
struct Entry {
    path: EntryPath,
    meta: FileMeta,
}

impl View for Entry {
    type V = EntryView;

    closed spec fn view(&self) -> EntryView {
        EntryView { path: self.path@, meta: self.meta }
    }
}

/// The path index. Entries are added while a scan runs and only read afterwards.
#[derive(Debug)]
pub struct FilesDB {
    entries: Vec<Entry>,
}

impl View for FilesDB {
    type V = IndexView;

    closed spec fn view(&self) -> IndexView {
        Seq::new(self.entries@.len(), |i: int| self.entries@[i]@)
    }
}

impl FilesDB {
    #[verifier::type_invariant]
    closed spec fn is_sorted(&self) -> bool {
        sorted(self@)
    }

    /// An index without entries.
    pub fn new() -> (db: FilesDB)
        ensures
            db@ == Seq::<EntryView>::empty(),
    {
        let db = FilesDB { entries: Vec::new() };
        db
    }

    /// The number of entries. Entries stand in the order of their paths.
    pub fn len(&self) -> (n: usize)
        ensures
            n == self@.len(),
            sorted(self@),
    {
        proof {
            use_type_invariant(self);
        }
        self.entries.len()
    }

    /// The place where `path` belongs: the number of entries that come before it.
    fn position(&self, path: &EntryPath) -> (at: usize)
        ensures
            splits_at(self@, path@, at as int),
            sorted(self@),
    {
        proof {
            use_type_invariant(self);
        }
        let mut lo: usize = 0;
        let mut hi: usize = self.entries.len();
        while lo < hi
            invariant
                lo <= hi <= self.entries@.len(),
                self@.len() == self.entries@.len(),
                sorted(self@),
                forall|j: int| 0 <= j < lo ==> path_lt((#[trigger] self@[j]).path, path@),
                forall|j: int| hi <= j < self@.len() ==> path_le(path@, (#[trigger] self@[j]).path),
            decreases hi - lo,
        {
            let mid = lo + (hi - lo) / 2;
            let found = self.entries[mid].path.order(path);
            assert(self@[mid as int].path == self.entries@[mid as int].path@);
            if found == PathOrder::Before {
                assert forall|j: int| 0 <= j < mid + 1 implies path_lt(
                    (#[trigger] self@[j]).path,
                    path@,
                ) by {
                    if j < mid {
                        lemma_path_lt_transitive(self@[j].path, self@[mid as int].path, path@);
                    }
                }
                lo = mid + 1;
            } else {
                assert forall|j: int| mid <= j < self@.len() implies path_le(
                    path@,
                    (#[trigger] self@[j]).path,
                ) by {
                    if j > mid {
                        if found == PathOrder::After {
                            lemma_path_lt_transitive(path@, self@[mid as int].path, self@[j].path);
                        }
                    }
                }
                hi = mid;
            }
        }
        lo
    }

    /// Records `path` with `meta`, in place of what was recorded for `path` before.
    pub fn add(&mut self, path: EntryPath, meta: FileMeta)
        ensures
            final(self)@ == put(old(self)@, path@, meta),
    {
        let at = self.position(&path);
        proof {
            lemma_put_at(self@, path@, meta, at as int);
            lemma_put_sorted(self@, path@, meta);
        }
        let ghost before = self@;
        let ghost entry = EntryView { path: path@, meta };
        // The entries leave the index while they change: it is sorted at every moment.
        let mut entries: Vec<Entry> = Vec::new();
        std::mem::swap(&mut entries, &mut self.entries);
        if at < entries.len() && entries[at].path.order(&path) == PathOrder::Same {
            entries.set(at, Entry { path, meta });
            assert(Seq::new(entries@.len(), |i: int| entries@[i]@) =~= before.update(
                at as int,
                entry,
            ));
        } else {
            entries.insert(at, Entry { path, meta });
            assert(Seq::new(entries@.len(), |i: int| entries@[i]@) =~= before.insert(
                at as int,
                entry,
            ));
        }
        self.entries = entries;
    }

    /// Whether `path` is recorded.
    pub fn contains(&self, path: &EntryPath) -> (r: bool)
        ensures
            r == holds(self@, path@),
    {
        let at = self.position(path);
        let r = at < self.entries.len() && self.entries[at].path.order(path) == PathOrder::Same;
        proof {
            if r {
                assert(self@[at as int].path == path@);
            } else if holds(self@, path@) {
                let i = choose|i: int| 0 <= i < self@.len() && (#[trigger] self@[i]).path == path@;
                lemma_entry_is_at(self@, path@, at as int, i);
            }
        }
        r
    }

    /// Whether `path` is recorded as a directory.
    pub fn is_dir(&self, path: &EntryPath) -> (r: bool)
        ensures
            r == holds_dir(self@, path@),
    {
        let at = self.position(path);
        let r = at < self.entries.len() && self.entries[at].path.order(path) == PathOrder::Same
            && self.entries[at].meta.is_dir;
        proof {
            if r {
                assert(self@[at as int].path == path@ && self@[at as int].meta.is_dir);
            } else if holds_dir(self@, path@) {
                let i = choose|i: int|
                    0 <= i < self@.len() && (#[trigger] self@[i]).path == path@
                        && self@[i].meta.is_dir;
                lemma_entry_is_at(self@, path@, at as int, i);
            }
        }
        r
    }
}

/// Which entries beneath a path a query asks for.
#[derive(Debug, Clone, Copy, PartialEq, Eq, Structural)]
enum Selection {
    Subtree,
    Level,
    Directories,
}

/// The entries that a query for `root` hands out.
spec fn selects(selection: Selection, root: PathView) -> spec_fn(EntryView) -> bool {
    match selection {
        Selection::Subtree => in_subtree(root),
        Selection::Level => in_level(root),
        Selection::Directories => dir_in_subtree(root),
    }
}

/// A query hands out nothing but entries of the subtree.
proof fn lemma_selects_within(selection: Selection, root: PathView, e: EntryView)
    requires
        selects(selection, root)(e),
    ensures
        within(root, e.path),
{
    if selection == Selection::Level {
        lemma_child_is_within(root, e.path);
    }
}

/// A query finds nothing in front of the place where its path belongs.
proof fn lemma_selection_starts(s: IndexView, root: PathView, at: int, selection: Selection)
    requires
        sorted(s),
        splits_at(s, root, at),
    ensures
        s.filter(selects(selection, root)) == s.skip(at).filter(selects(selection, root)),
{
    let pred = selects(selection, root);
    let front = s.take(at);
    assert(s =~= front + s.skip(at));
    assert forall|i: int| 0 <= i < front.len() implies !pred(#[trigger] front[i]) by {
        if pred(front[i]) {
            lemma_selects_within(selection, root, front[i]);
            lemma_within_is_le(root, s[i].path);
            lemma_path_lt_asymmetric(s[i].path, root);
        }
    }
    lemma_filter_none(front, pred);
    Seq::filter_distributes_over_add(front, s.skip(at), pred);
}

/// Behind the first entry that has left the subtree a query finds nothing.
proof fn lemma_selection_ends(s: IndexView, root: PathView, pos: int, selection: Selection)
    requires
        sorted(s),
        0 <= pos <= s.len(),
        forall|j: int| pos <= j < s.len() ==> path_le(root, (#[trigger] s[j]).path),
        pos < s.len() ==> !within(root, s[pos].path),
    ensures
        s.skip(pos).filter(selects(selection, root)) == Seq::<EntryView>::empty(),
{
    let pred = selects(selection, root);
    let rest = s.skip(pos);
    assert forall|i: int| 0 <= i < rest.len() implies !pred(#[trigger] rest[i]) by {
        if pred(rest[i]) {
            lemma_selects_within(selection, root, rest[i]);
            lemma_within_is_convex(root, s[pos].path, s[pos + i].path);
        }
    }
    lemma_filter_none(rest, pred);
}

/// What a query finds from an entry on: that entry, where it is asked for, and what it finds behind it.
proof fn lemma_selection_step(s: IndexView, pos: int, pred: spec_fn(EntryView) -> bool)
    requires
        0 <= pos < s.len(),
    ensures
        s.skip(pos).filter(pred) == (if pred(s[pos]) {
            seq![s[pos]]
        } else {
            Seq::<EntryView>::empty()
        }) + s.skip(pos + 1).filter(pred),
{
    assert(s.skip(pos) =~= seq![s[pos]] + s.skip(pos + 1));
    s.skip(pos + 1).lemma_filter_prepend(s[pos], pred);
}

/// A place in the index from which a query reads on.
#[derive(Debug)]
struct Cursor<'a, 'b> {
    db: &'a FilesDB,
    pos: usize,
    root: &'b EntryPath,
    selection: Selection,
}

impl<'a, 'b> Cursor<'a, 'b> {
    #[verifier::type_invariant]
    closed spec fn well_placed(&self) -> bool {
        &&& sorted(self.db@)
        &&& self.pos <= self.db@.len()
        &&& forall|j: int|
            self.pos <= j < self.db@.len() ==> path_le(self.root@, (#[trigger] self.db@[j]).path)
    }

    /// What the query has still to hand out.
    closed spec fn remaining(&self) -> IndexView {
        self.db@.skip(self.pos as int).filter(selects(self.selection, self.root@))
    }

    /// A query for `root` that has handed out nothing yet.
    fn start(db: &'a FilesDB, root: &'b EntryPath, selection: Selection) -> (cursor: Self)
        ensures
            cursor.remaining() == db@.filter(selects(selection, root@)),
    {
        let pos = db.position(root);
        proof {
            lemma_selection_starts(db@, root@, pos as int, selection);
        }
        Cursor { db, pos, root, selection }
    }

    /// Hands out the next entry that the query asks for.
    fn next(&mut self) -> (r: Option<FileInfo<'a>>)
        ensures
            match r {
                Some(info) => {
                    &&& old(self).remaining().len() > 0
                    &&& info@ == old(self).remaining()[0]
                    &&& final(self).remaining() == old(self).remaining().drop_first()
                },
                None => old(self).remaining().len() == 0 && final(self).remaining().len() == 0,
            },
    {
        proof {
            use_type_invariant(&*self);
        }
        let db: &'a FilesDB = self.db;
        let ghost s = db@;
        let ghost pred = selects(self.selection, self.root@);
        while self.pos < db.entries.len()
            invariant
                db == self.db,
                s == db@,
                s.len() == db.entries@.len(),
                self.root == old(self).root,
                self.selection == old(self).selection,
                pred == selects(self.selection, self.root@),
                sorted(s),
                self.pos <= s.len(),
                forall|j: int| self.pos <= j < s.len() ==> path_le(self.root@, (#[trigger] s[j]).path),
                s.skip(self.pos as int).filter(pred) == old(self).remaining(),
            decreases db.entries.len() - self.pos,
        {
            let entry = &db.entries[self.pos];
            let ghost at = self.pos as int;
            if !entry.path.starts_with(self.root) {
                proof {
                    lemma_selection_ends(s, self.root@, at, self.selection);
                }
                return None;
            }
            let wanted = match self.selection {
                Selection::Subtree => true,
                Selection::Level => entry.path.is_child_of(self.root),
                Selection::Directories => entry.meta.is_dir,
            };
            proof {
                lemma_selection_step(s, at, pred);
            }
            self.pos = self.pos + 1;
            if wanted {
                let info = FileInfo {
                    path: &entry.path,
                    is_dir: entry.meta.is_dir,
                    size: entry.meta.size,
                    touched: entry.meta.touched,
                };
                return Some(info);
            }
        }
        proof {
            lemma_selection_ends(s, self.root@, self.pos as int, self.selection);
        }
        None
    }
}

/// Walks the entries of one subtree, the root of it first.
#[derive(Debug)]
pub struct DirectoryIter<'a, 'b> {
    cursor: Cursor<'a, 'b>,
}

/// Walks the entries that lie directly in one directory.
#[derive(Debug)]
pub struct LevelIter<'a, 'b> {
    cursor: Cursor<'a, 'b>,
}

/// Walks the directories of one subtree, the root of it first.
#[derive(Debug)]
pub struct AllDirsIter<'a, 'b> {
    cursor: Cursor<'a, 'b>,
}

impl<'a, 'b> DirectoryIter<'a, 'b> {
    /// The entries that `next` has still to hand out, in order.
    pub closed spec fn remaining(&self) -> IndexView {
        self.cursor.remaining()
    }

    /// The next entry of the subtree, or `None` when all were handed out.
    pub fn next(&mut self) -> (r: Option<FileInfo<'a>>)
        ensures
            match r {
                Some(info) => {
                    &&& old(self).remaining().len() > 0
                    &&& info@ == old(self).remaining()[0]
                    &&& final(self).remaining() == old(self).remaining().drop_first()
                },
                None => old(self).remaining().len() == 0 && final(self).remaining().len() == 0,
            },
    {
        self.cursor.next()
    }
}

impl<'a, 'b> LevelIter<'a, 'b> {
    /// The entries that `next` has still to hand out, in order.
    pub closed spec fn remaining(&self) -> IndexView {
        self.cursor.remaining()
    }

    /// The next entry of the directory, or `None` when all were handed out.
    pub fn next(&mut self) -> (r: Option<FileInfo<'a>>)
        ensures
            match r {
                Some(info) => {
                    &&& old(self).remaining().len() > 0
                    &&& info@ == old(self).remaining()[0]
                    &&& final(self).remaining() == old(self).remaining().drop_first()
                },
                None => old(self).remaining().len() == 0 && final(self).remaining().len() == 0,
            },
    {
        self.cursor.next()
    }
}

impl<'a, 'b> AllDirsIter<'a, 'b> {
    /// The entries that `next` has still to hand out, in order.
    pub closed spec fn remaining(&self) -> IndexView {
        self.cursor.remaining()
    }

    /// The next directory of the subtree, or `None` when all were handed out.
    pub fn next(&mut self) -> (r: Option<FileInfo<'a>>)
        ensures
            match r {
                Some(info) => {
                    &&& old(self).remaining().len() > 0
                    &&& info@ == old(self).remaining()[0]
                    &&& final(self).remaining() == old(self).remaining().drop_first()
                },
                None => old(self).remaining().len() == 0 && final(self).remaining().len() == 0,
            },
    {
        self.cursor.next()
    }
}

impl FilesDB {
    /// Walks `lookup_path` and everything beneath it.
    pub fn iter_dir<'a, 'b>(&'a self, lookup_path: &'b EntryPath) -> (it: DirectoryIter<'a, 'b>)
        ensures
            it.remaining() == subtree(self@, lookup_path@),
    {
        DirectoryIter { cursor: Cursor::start(self, lookup_path, Selection::Subtree) }
    }

    /// Walks what lies directly in `lookup_path`.
    pub fn iter_level<'a, 'b>(&'a self, lookup_path: &'b EntryPath) -> (it: LevelIter<'a, 'b>)
        ensures
            it.remaining() == level(self@, lookup_path@),
    {
        LevelIter { cursor: Cursor::start(self, lookup_path, Selection::Level) }
    }

    /// Walks the directories among `lookup_path` and everything beneath it.
    pub fn iter_directories<'a, 'b>(&'a self, lookup_path: &'b EntryPath) -> (it: AllDirsIter<
        'a,
        'b,
    >)
        ensures
            it.remaining() == directories(self@, lookup_path@),
    {
        AllDirsIter { cursor: Cursor::start(self, lookup_path, Selection::Directories) }
    }
}

/// An entry for `p` stands at the place where `p` belongs.
pub proof fn lemma_entry_is_at(s: IndexView, p: PathView, at: int, i: int)
    requires
        sorted(s),
        splits_at(s, p, at),
        0 <= i < s.len(),
        s[i].path == p,
    ensures
        i == at,
{
    if i < at {
        lemma_path_lt_asymmetric(s[i].path, p);
    } else if i > at {
        if p != s[at].path {
            lemma_path_lt_transitive(p, s[at].path, s[i].path);
        }
        lemma_path_lt_asymmetric(s[at].path, s[i].path);
    }
}

} // verus!
