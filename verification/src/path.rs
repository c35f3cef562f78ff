//! Paths as sequences of components, compared component by component.
//!
//! A path is never compared as a string: `foo` is a prefix of `foo/bar`
//! and not of `foobar`, and `foo/bar` sorts before `foo2`, because the
//! components `foo` and `foo2` are compared before anything that follows.

use vstd::prelude::*;
use vstd::std_specs::cmp::PartialEqSpecImpl;
use crate::order::{
    lemma_common_prefix_len_is, lemma_extensions_are_convex, lemma_lex_asymmetric,
    lemma_lex_connected, lemma_lex_strict_total, lemma_lex_transitive, lemma_prefix_is_le, lex_lt,
    lex_order, strict_total,
};

verus! {

/// The byte that separates components in the written form of a path.
pub const SEPARATOR: u8 = 47;

/// The byte of which the components `.` and `..` are made.
pub const DOT: u8 = 46;

/// The model of a path: its components in order. An absolute path starts
/// with the root component, which is the separator alone.
pub type PathView = Seq<Seq<u8>>;

/// The component that stands for the root of the file system.
pub open spec fn root_name() -> Seq<u8> {
    seq![SEPARATOR]
}

/// The component `.`, which names the directory it stands in.
pub open spec fn dot_name() -> Seq<u8> {
    seq![DOT]
}

pub open spec fn byte_lt() -> spec_fn(u8, u8) -> bool {
    |x: u8, y: u8| x < y
}

/// Components are ordered byte by byte.
pub open spec fn name_lt(a: Seq<u8>, b: Seq<u8>) -> bool {
    lex_lt(a, b, byte_lt())
}

pub open spec fn name_order() -> spec_fn(Seq<u8>, Seq<u8>) -> bool {
    lex_order(byte_lt())
}

/// Paths are ordered component by component.
pub open spec fn path_lt(p: PathView, q: PathView) -> bool {
    lex_lt(p, q, name_order())
}

pub open spec fn path_le(p: PathView, q: PathView) -> bool {
    p == q || path_lt(p, q)
}

/// `p` is `root` itself or lies somewhere beneath it.
pub open spec fn within(root: PathView, p: PathView) -> bool {
    root.is_prefix_of(p)
}

/// Whether `p` can be shortened by one component: it is neither empty nor the root alone.
pub open spec fn has_parent(p: PathView) -> bool {
    p.len() > 0 && p.last() != root_name()
}

/// The path of the directory that holds `p`.
pub open spec fn parent_of(p: PathView) -> Option<PathView> {
    if has_parent(p) {
        Some(p.drop_last())
    } else {
        None
    }
}

/// `p` lies directly in `dir`.
pub open spec fn child_of(dir: PathView, p: PathView) -> bool {
    parent_of(p) == Some(dir)
}

pub open spec fn is_absolute(p: PathView) -> bool {
    p.len() > 0 && p[0] == root_name()
}

/// `base` followed by `tail`; an absolute `tail` stands for itself.
pub open spec fn joined(base: PathView, tail: PathView) -> PathView {
    if is_absolute(tail) {
        tail
    } else {
        base + tail
    }
}

/// A component as `parse_path` produces it: not empty, not `.`, and free of
/// separators unless it is the root component.
pub open spec fn plain_name(name: Seq<u8>) -> bool {
    &&& name.len() > 0
    &&& name != dot_name()
    &&& !name.contains(SEPARATOR)
}

/// The form that every `EntryPath` has: plain components, with the root
/// component allowed in the first place only.
pub open spec fn normalized(p: PathView) -> bool {
    forall|i: int|
        0 <= i < p.len() ==> #[trigger] plain_name(p[i]) || (i == 0 && p[i] == root_name())
}

pub proof fn lemma_byte_lt_strict_total()
    ensures
        strict_total(byte_lt()),
{
}

pub proof fn lemma_name_order_strict_total()
    ensures
        strict_total(name_order()),
{
    lemma_byte_lt_strict_total();
    lemma_lex_strict_total(byte_lt());
}

/// The order of paths is a strict total order.
pub proof fn lemma_path_order_strict_total()
    ensures
        strict_total(lex_order(name_order())),
        forall|p: PathView, q: PathView| #[trigger] path_lt(p, q) == lex_order(name_order())(p, q),
{
    lemma_name_order_strict_total();
    lemma_lex_strict_total(name_order());
}

pub proof fn lemma_path_lt_transitive(p: PathView, q: PathView, r: PathView)
    requires
        path_lt(p, q),
        path_lt(q, r),
    ensures
        path_lt(p, r),
{
    lemma_name_order_strict_total();
    lemma_lex_transitive(p, q, r, name_order());
}

pub proof fn lemma_path_lt_asymmetric(p: PathView, q: PathView)
    requires
        path_lt(p, q),
    ensures
        !path_lt(q, p),
        p != q,
{
    lemma_name_order_strict_total();
    lemma_lex_asymmetric(p, q, name_order());
}

pub proof fn lemma_path_lt_connected(p: PathView, q: PathView)
    ensures
        p == q || path_lt(p, q) || path_lt(q, p),
{
    lemma_name_order_strict_total();
    lemma_lex_connected(p, q, name_order());
}

/// A directory sorts before everything beneath it.
pub proof fn lemma_within_is_le(root: PathView, p: PathView)
    requires
        within(root, p),
    ensures
        path_le(root, p),
{
    lemma_prefix_is_le(root, p, name_order());
}

/// Nothing foreign sorts between a directory and something beneath it.
pub proof fn lemma_within_is_convex(root: PathView, p: PathView, q: PathView)
    requires
        path_le(root, p),
        path_le(p, q),
        within(root, q),
    ensures
        within(root, p),
{
    lemma_name_order_strict_total();
    lemma_extensions_are_convex(root, p, q, name_order());
}

/// What lies directly in a directory lies within it, and is not the directory.
pub proof fn lemma_child_is_within(dir: PathView, p: PathView)
    requires
        child_of(dir, p),
    ensures
        within(dir, p),
        p != dir,
        p.len() == dir.len() + 1,
{
}

/// How two values of the order relate.
#[derive(Debug, Clone, Copy, PartialEq, Eq, Structural)]
pub enum PathOrder {
    Before,
    Same,
    After,
}

/// Compares two components byte by byte.
pub fn order_names(a: &Vec<u8>, b: &Vec<u8>) -> (r: PathOrder)
    ensures
        (r == PathOrder::Before) == name_lt(a@, b@),
        (r == PathOrder::Same) == (a@ == b@),
        (r == PathOrder::After) == name_lt(b@, a@),
{
    let mut i: usize = 0;
    while i < a.len() && i < b.len() && a[i] == b[i]
        invariant
            i <= a.len(),
            i <= b.len(),
            forall|j: int| 0 <= j < i ==> a@[j] == b@[j],
        decreases a.len() - i,
    {
        i += 1;
    }
    proof {
        lemma_common_prefix_len_is(a@, b@, i as int);
        lemma_common_prefix_len_is(b@, a@, i as int);
        lemma_byte_lt_strict_total();
        if name_lt(a@, b@) {
            lemma_lex_asymmetric(a@, b@, byte_lt());
        }
        if name_lt(b@, a@) {
            lemma_lex_asymmetric(b@, a@, byte_lt());
        }
    }
    if i == a.len() {
        if i == b.len() {
            assert(a@ =~= b@);
            PathOrder::Same
        } else {
            PathOrder::Before
        }
    } else if i == b.len() {
        PathOrder::After
    } else if a[i] < b[i] {
        PathOrder::Before
    } else {
        PathOrder::After
    }
}

/// A path of the index: a sequence of components in normal form.
#[derive(Debug)]
pub struct EntryPath {
    parts: Vec<Vec<u8>>,
}

impl View for EntryPath {
    type V = PathView;

    closed spec fn view(&self) -> PathView {
        Seq::new(self.parts@.len(), |i: int| self.parts@[i]@)
    }
}

impl EntryPath {
    #[verifier::type_invariant]
    closed spec fn is_normalized(&self) -> bool {
        normalized(self@)
    }

    /// The number of components. The components are in normal form.
    pub fn len(&self) -> (n: usize)
        ensures
            n == self@.len(),
            normalized(self@),
    {
        proof {
            use_type_invariant(self);
        }
        self.parts.len()
    }

    /// The component at `index`.
    pub fn name(&self, index: usize) -> (name: &Vec<u8>)
        requires
            index < self@.len(),
        ensures
            name@ == self@[index as int],
    {
        &self.parts[index]
    }

    /// Compares two paths component by component.
    pub fn order(&self, other: &EntryPath) -> (r: PathOrder)
        ensures
            (r == PathOrder::Before) == path_lt(self@, other@),
            (r == PathOrder::Same) == (self@ == other@),
            (r == PathOrder::After) == path_lt(other@, self@),
    {
        let mut i: usize = 0;
        let mut at: PathOrder = PathOrder::Same;
        while at == PathOrder::Same && i < self.parts.len() && i < other.parts.len()
            invariant
                i <= self@.len(),
                i <= other@.len(),
                self@.len() == self.parts@.len(),
                other@.len() == other.parts@.len(),
                forall|j: int| 0 <= j < i ==> self@[j] == other@[j],
                at != PathOrder::Same ==> i < self@.len() && i < other@.len(),
                at == PathOrder::Before ==> name_lt(self@[i as int], other@[i as int]),
                at == PathOrder::After ==> name_lt(other@[i as int], self@[i as int]),
            decreases self.parts.len() - i + (if at == PathOrder::Same { 1int } else { 0int }),
        {
            at = order_names(&self.parts[i], &other.parts[i]);
            if at == PathOrder::Same {
                i += 1;
            }
        }
        proof {
            lemma_name_order_strict_total();
            if path_lt(self@, other@) {
                lemma_lex_asymmetric(self@, other@, name_order());
            }
            if path_lt(other@, self@) {
                lemma_lex_asymmetric(other@, self@, name_order());
            }
            if at != PathOrder::Same {
                let a = self@[i as int];
                let b = other@[i as int];
                if name_lt(a, b) {
                    lemma_lex_asymmetric(a, b, byte_lt());
                } else {
                    lemma_lex_asymmetric(b, a, byte_lt());
                }
            }
            lemma_common_prefix_len_is(self@, other@, i as int);
            lemma_common_prefix_len_is(other@, self@, i as int);
        }
        if at != PathOrder::Same {
            at
        } else if i == self.parts.len() {
            if i == other.parts.len() {
                assert(self@ =~= other@);
                PathOrder::Same
            } else {
                PathOrder::Before
            }
        } else {
            PathOrder::After
        }
    }
}

/// Copies a component.
fn copy_name(name: &Vec<u8>) -> (copy: Vec<u8>)
    ensures
        copy@ == name@,
{
    let copy = name.clone();
    copy
}

impl EntryPath {
    /// The empty path, which every relative path lies within.
    pub fn new() -> (p: EntryPath)
        ensures
            p@ == Seq::<Seq<u8>>::empty(),
    {
        let p = EntryPath { parts: Vec::new() };
        p
    }

    /// The path with the components `names`.
    pub(crate) fn from_names(names: Vec<Vec<u8>>) -> (p: EntryPath)
        requires
            normalized(Seq::new(names@.len(), |i: int| names@[i]@)),
        ensures
            p@ == Seq::new(names@.len(), |i: int| names@[i]@),
    {
        EntryPath { parts: names }
    }

    /// The first `count` components of this path.
    fn prefix(&self, count: usize) -> (p: EntryPath)
        requires
            count <= self@.len(),
        ensures
            p@ == self@.take(count as int),
    {
        proof {
            use_type_invariant(self);
        }
        let mut parts: Vec<Vec<u8>> = Vec::new();
        let mut i: usize = 0;
        while i < count
            invariant
                i <= count <= self.parts@.len(),
                parts@.len() == i,
                forall|j: int| 0 <= j < i ==> parts@[j]@ == self.parts@[j]@,
            decreases count - i,
        {
            parts.push(copy_name(&self.parts[i]));
            i += 1;
        }
        let ghost view = Seq::new(parts@.len(), |j: int| parts@[j]@);
        proof {
            assert(view =~= self@.take(count as int));
            assert forall|j: int| 0 <= j < view.len() implies #[trigger] plain_name(view[j]) || (j
                == 0 && view[j] == root_name()) by {
            }
        }
        EntryPath { parts }
    }

    /// Whether this path is `base` or lies beneath it.
    pub fn starts_with(&self, base: &EntryPath) -> (r: bool)
        ensures
            r == within(base@, self@),
    {
        if base.parts.len() > self.parts.len() {
            return false;
        }
        let mut i: usize = 0;
        while i < base.parts.len()
            invariant
                i <= base.parts@.len() <= self.parts@.len(),
                base@.len() == base.parts@.len(),
                self@.len() == self.parts@.len(),
                forall|j: int| 0 <= j < i ==> self@[j] == base@[j],
            decreases base.parts.len() - i,
        {
            if order_names(&self.parts[i], &base.parts[i]) != PathOrder::Same {
                assert(self@.subrange(0, base@.len() as int)[i as int] != base@[i as int]);
                return false;
            }
            i += 1;
        }
        true
    }

    /// Whether the last components of this path are those of `tail`.
    pub fn ends_with(&self, tail: &EntryPath) -> (r: bool)
        ensures
            r == tail@.is_suffix_of(self@),
    {
        if tail.parts.len() > self.parts.len() {
            return false;
        }
        let skip: usize = self.parts.len() - tail.parts.len();
        let mut i: usize = 0;
        while i < tail.parts.len()
            invariant
                i <= tail.parts@.len() <= self.parts@.len() <= usize::MAX,
                skip == self.parts@.len() - tail.parts@.len(),
                tail@.len() == tail.parts@.len(),
                self@.len() == self.parts@.len(),
                forall|j: int| 0 <= j < i ==> self@[skip + j] == tail@[j],
            decreases tail.parts.len() - i,
        {
            if order_names(&self.parts[skip + i], &tail.parts[i]) != PathOrder::Same {
                let ghost end = self@.subrange(skip as int, self@.len() as int);
                assert(end[i as int] != tail@[i as int]);
                return false;
            }
            i += 1;
        }
        true
    }

    /// Whether the path starts at the root of the file system.
    pub fn is_absolute(&self) -> (r: bool)
        ensures
            r == is_absolute(self@),
    {
        if self.parts.len() == 0 {
            return false;
        }
        let first = &self.parts[0];
        let r = first.len() == 1 && first[0] == SEPARATOR;
        proof {
            if r {
                assert(first@ =~= root_name());
            }
        }
        r
    }

    /// Whether the path has a parent: it is neither empty nor the root alone.
    pub fn has_parent(&self) -> (r: bool)
        ensures
            r == has_parent(self@),
    {
        let n = self.parts.len();
        if n == 0 {
            return false;
        }
        let last = &self.parts[n - 1];
        let is_root = last.len() == 1 && last[0] == SEPARATOR;
        proof {
            if is_root {
                assert(last@ =~= root_name());
            }
        }
        !is_root
    }

    /// The directory that holds this path, if there is one.
    pub fn parent(&self) -> (r: Option<EntryPath>)
        ensures
            match r {
                Some(p) => parent_of(self@) == Some(p@),
                None => parent_of(self@) is None,
            },
    {
        if self.has_parent() {
            let p = self.prefix(self.parts.len() - 1);
            Some(p)
        } else {
            None
        }
    }

    /// Whether this path lies directly in `dir`.
    pub fn is_child_of(&self, dir: &EntryPath) -> (r: bool)
        ensures
            r == child_of(dir@, self@),
    {
        assert(self@.len() == self.parts@.len() && dir@.len() == dir.parts@.len());
        if !self.has_parent() || self.parts.len() - 1 != dir.parts.len() {
            return false;
        }
        let r = self.starts_with(dir);
        r
    }

    /// The last component, unless the path is empty or the root alone.
    pub fn file_name(&self) -> (r: Option<&Vec<u8>>)
        ensures
            match r {
                Some(name) => has_parent(self@) && name@ == self@.last(),
                None => !has_parent(self@),
            },
    {
        if self.has_parent() {
            Some(&self.parts[self.parts.len() - 1])
        } else {
            None
        }
    }

    /// This path followed by `tail`; an absolute `tail` replaces this path.
    pub fn join(&self, tail: &EntryPath) -> (r: EntryPath)
        ensures
            r@ == joined(self@, tail@),
    {
        if tail.is_absolute() {
            let r = tail.prefix(tail.parts.len());
            return r;
        }
        proof {
            use_type_invariant(self);
            use_type_invariant(tail);
        }
        let mut parts: Vec<Vec<u8>> = Vec::new();
        let mut i: usize = 0;
        while i < self.parts.len()
            invariant
                i <= self.parts@.len(),
                parts@.len() == i,
                forall|j: int| 0 <= j < i ==> parts@[j]@ == self.parts@[j]@,
            decreases self.parts.len() - i,
        {
            parts.push(copy_name(&self.parts[i]));
            i += 1;
        }
        let mut k: usize = 0;
        while k < tail.parts.len()
            invariant
                k <= tail.parts@.len(),
                parts@.len() == self.parts@.len() + k,
                forall|j: int| 0 <= j < self.parts@.len() ==> parts@[j]@ == self.parts@[j]@,
                forall|j: int| 0 <= j < k ==> parts@[self.parts@.len() + j]@ == tail.parts@[j]@,
            decreases tail.parts.len() - k,
        {
            parts.push(copy_name(&tail.parts[k]));
            k += 1;
        }
        let ghost view = Seq::new(parts@.len(), |j: int| parts@[j]@);
        proof {
            assert(view =~= self@ + tail@);
            assert forall|j: int| 0 <= j < view.len() implies #[trigger] plain_name(view[j]) || (j
                == 0 && view[j] == root_name()) by {
            }
        }
        EntryPath { parts }
    }
}

impl Clone for EntryPath {
    fn clone(&self) -> (copy: Self)
        ensures
            copy@ == self@,
    {
        let copy = self.prefix(self.parts.len());
        copy
    }
}

impl PartialEq for EntryPath {
    fn eq(&self, other: &EntryPath) -> (r: bool) {
        self.order(other) == PathOrder::Same
    }
}

impl Eq for EntryPath {

}

impl PartialEqSpecImpl for EntryPath {
    open spec fn obeys_eq_spec() -> bool {
        true
    }

    open spec fn eq_spec(&self, other: &EntryPath) -> bool {
        self@ == other@
    }
}

} // verus!
