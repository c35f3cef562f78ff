//! The written form of a path: components separated by `/`.

use vstd::prelude::*;
use vstd::string::StringSliceAdditionalSpecFns;
use crate::path::{
    dot_name, is_absolute, joined, normalized, plain_name, root_name, EntryPath, PathView, DOT,
    SEPARATOR,
};
use crate::text::same_bytes;

verus! {

/// The stretches of `bytes` between separators, empty ones included.
pub open spec fn split_names(bytes: Seq<u8>) -> Seq<Seq<u8>>
    decreases bytes.len(),
{
    if bytes.len() == 0 {
        seq![Seq::<u8>::empty()]
    } else {
        let before = split_names(bytes.drop_last());
        if bytes.last() == SEPARATOR {
            before.push(Seq::<u8>::empty())
        } else {
            before.drop_last().push(before.last().push(bytes.last()))
        }
    }
}

/// A stretch between separators that names something: `a//b` and `a/./b` both mean `a/b`.
pub open spec fn names_something() -> spec_fn(Seq<u8>) -> bool {
    |name: Seq<u8>| name.len() > 0 && name != dot_name()
}

/// The path that `bytes` spell: the root, where they begin with a separator,
/// and then every stretch between separators that names something.
pub open spec fn parse_path(bytes: Seq<u8>) -> PathView {
    let names = split_names(bytes).filter(names_something());
    if bytes.len() > 0 && bytes[0] == SEPARATOR {
        seq![root_name()] + names
    } else {
        names
    }
}

/// There is always a last stretch, and no stretch holds a separator.
pub proof fn lemma_split_names(bytes: Seq<u8>)
    ensures
        split_names(bytes).len() >= 1,
        forall|i: int|
            0 <= i < split_names(bytes).len() ==> !(#[trigger] split_names(bytes)[i]).contains(
                SEPARATOR,
            ),
    decreases bytes.len(),
{
    if bytes.len() > 0 {
        lemma_split_names(bytes.drop_last());
        let before = split_names(bytes.drop_last());
        let now = split_names(bytes);
        assert forall|i: int| 0 <= i < now.len() implies !(#[trigger] now[i]).contains(
            SEPARATOR,
        ) by {
            if bytes.last() != SEPARATOR && i == before.len() - 1 {
                // the last stretch has grown by a byte that is no separator
                assert(now[i] == before.last().push(bytes.last()));
            }
        }
    }
}

/// Reads a path from its written form.
pub fn parse(bytes: &[u8]) -> (path: EntryPath)
    ensures
        path@ == parse_path(bytes@),
{
    let mut done: Vec<Vec<u8>> = Vec::new();
    let mut current: Vec<u8> = Vec::new();
    let ghost lead: PathView = if bytes@.len() > 0 && bytes@[0] == SEPARATOR {
        seq![root_name()]
    } else {
        Seq::empty()
    };
    if bytes.len() > 0 && bytes[0] == SEPARATOR {
        let mut root: Vec<u8> = Vec::new();
        root.push(SEPARATOR);
        done.push(root);
    }
    let ghost keep = names_something();
    let mut i: usize = 0;
    proof {
        reveal_with_fuel(Seq::filter, 2);
    }
    while i < bytes.len()
        invariant
            i <= bytes@.len(),
            keep == names_something(),
            lead.len() <= 1,
            lead.len() == 1 ==> lead[0] == root_name(),
            split_names(bytes@.take(i as int)).len() >= 1,
            current@ == split_names(bytes@.take(i as int)).last(),
            !current@.contains(SEPARATOR),
            Seq::new(done@.len(), |k: int| done@[k]@) == lead + split_names(
                bytes@.take(i as int),
            ).drop_last().filter(keep),
            forall|k: int| lead.len() <= k < done@.len() ==> plain_name(#[trigger] done@[k]@),
        decreases bytes.len() - i,
    {
        let byte = bytes[i];
        let ghost read = bytes@.take(i as int);
        let ghost before = split_names(read);
        let ghost was = Seq::new(done@.len(), |k: int| done@[k]@);
        proof {
            assert(bytes@.take(i + 1).drop_last() =~= read);
            lemma_split_names(bytes@.take(i + 1));
        }
        if byte == SEPARATOR {
            let named = current.len() > 0 && !(current.len() == 1 && current[0] == DOT);
            proof {
                let now = split_names(bytes@.take(i + 1));
                assert(now.drop_last() =~= before);
                reveal(Seq::filter);
                if current@.len() == 1 {
                    assert(current@ =~= dot_name() <==> current@[0] == DOT);
                }
            }
            if named {
                done.push(current);
                assert(Seq::new(done@.len(), |k: int| done@[k]@) =~= was.push(before.last()));
            }
            current = Vec::new();
        } else {
            current.push(byte);
            proof {
                let now = split_names(bytes@.take(i + 1));
                assert(now.drop_last() =~= before.drop_last());
            }
        }
        i += 1;
    }
    let ghost all = split_names(bytes@);
    let ghost was = Seq::new(done@.len(), |k: int| done@[k]@);
    let named = current.len() > 0 && !(current.len() == 1 && current[0] == DOT);
    proof {
        assert(bytes@.take(i as int) =~= bytes@);
        reveal(Seq::filter);
        if current@.len() == 1 {
            assert(current@ =~= dot_name() <==> current@[0] == DOT);
        }
    }
    if named {
        done.push(current);
        assert(Seq::new(done@.len(), |k: int| done@[k]@) =~= was.push(all.last()));
    }
    proof {
        let view = Seq::new(done@.len(), |k: int| done@[k]@);
        assert forall|k: int| 0 <= k < view.len() implies #[trigger] plain_name(view[k]) || (k == 0
            && view[k] == root_name()) by {
        }
    }
    EntryPath::from_names(done)
}

/// The written form of a path: its components with separators between them. The root
/// component is its own separator.
pub open spec fn render_path(p: PathView) -> Seq<u8>
    decreases p.len(),
{
    if p.len() == 0 {
        Seq::empty()
    } else if p.len() == 1 {
        p[0]
    } else if p.len() == 2 && p[0] == root_name() {
        p[0] + p[1]
    } else {
        render_path(p.drop_last()) + seq![SEPARATOR] + p.last()
    }
}

/// The components of `p` but for the root component.
pub open spec fn names_of(p: PathView) -> PathView {
    if is_absolute(p) {
        p.skip(1)
    } else {
        p
    }
}

/// A stretch without separators that follows `bytes` grows the last stretch of `bytes`.
pub proof fn lemma_split_names_grown(bytes: Seq<u8>, name: Seq<u8>)
    requires
        !name.contains(SEPARATOR),
    ensures
        split_names(bytes).len() >= 1,
        split_names(bytes + name) == split_names(bytes).drop_last().push(
            split_names(bytes).last() + name,
        ),
    decreases name.len(),
{
    lemma_split_names(bytes);
    let split = split_names(bytes);
    if name.len() > 0 {
        let init = name.drop_last();
        let byte = name.last();
        assert(!init.contains(SEPARATOR));
        lemma_split_names_grown(bytes, init);
        assert((bytes + name).drop_last() =~= bytes + init);
        let before = split_names(bytes + init);
        assert(before.last().push(byte) =~= split.last() + name);
    }
}

/// A name that follows a separator is a stretch of its own.
pub proof fn lemma_split_names_next(bytes: Seq<u8>, name: Seq<u8>)
    requires
        !name.contains(SEPARATOR),
    ensures
        split_names(bytes + seq![SEPARATOR] + name) == split_names(bytes).push(name),
{
    let ended = bytes + seq![SEPARATOR];
    assert(ended.drop_last() =~= bytes);
    lemma_split_names_grown(ended, name);
}

/// What the written form of a path in normal form splits into, and how it begins.
proof fn lemma_render_splits(p: PathView)
    requires
        normalized(p),
    ensures
        split_names(render_path(p)).filter(names_something()) == names_of(p),
        (render_path(p).len() > 0) == (p.len() > 0),
        p.len() > 0 ==> (render_path(p)[0] == SEPARATOR) == is_absolute(p),
    decreases p.len(),
{
    let written = render_path(p);
    reveal_with_fuel(Seq::filter, 3);
    let nothing = Seq::<u8>::empty();
    assert(split_names(nothing) == seq![nothing]);
    if p.len() == 1 {
        assert(plain_name(p[0]) || p[0] == root_name());
        if p[0] == root_name() {
            // the separator alone parts two empty stretches
            assert(written.drop_last() =~= nothing);
            assert(split_names(written) == seq![nothing, nothing]);
        } else {
            lemma_split_names_grown(nothing, p[0]);
            assert(split_names(written) == seq![p[0]]);
        }
    } else if p.len() > 1 {
        let last = p.last();
        assert(plain_name(p[p.len() - 1]));
        if p.len() == 2 && p[0] == root_name() {
            lemma_split_names_next(nothing, last);
            assert(split_names(written) == seq![nothing, last]);
        } else {
            let init = p.drop_last();
            assert(normalized(init)) by {
                assert forall|i: int| 0 <= i < init.len() implies #[trigger] plain_name(init[i])
                    || (i == 0 && init[i] == root_name()) by {}
            }
            lemma_render_splits(init);
            lemma_split_names_next(render_path(init), last);
            assert(split_names(written).drop_last() =~= split_names(render_path(init)));
        }
    }
}

/// Reading what was written gives the path that was written: the written form of a path in
/// normal form spells that path.
pub proof fn lemma_parse_of_rendered(p: PathView)
    requires
        normalized(p),
    ensures
        parse_path(render_path(p)) == p,
{
    lemma_render_splits(p);
}

/// The last component of `p` is `name`.
pub open spec fn named(p: PathView, name: Seq<u8>) -> bool {
    p.len() > 0 && p.last() == name
}

/// How many components of `p` are `name`.
pub open spec fn name_count(p: PathView, name: Seq<u8>) -> nat
    decreases p.len(),
{
    if p.len() == 0 {
        0
    } else {
        name_count(p.drop_last(), name) + if p.last() == name {
            1nat
        } else {
            0nat
        }
    }
}

/// The path `tail`, in its written form, beneath `p`.
pub open spec fn beneath(p: PathView, tail: Seq<u8>) -> PathView {
    joined(p, parse_path(tail))
}

/// A path that holds `name` in two places holds it at least twice.
pub proof fn lemma_name_count_two(p: PathView, name: Seq<u8>, i: int, j: int)
    requires
        0 <= i < j < p.len(),
        p[i] == name,
        p[j] == name,
    ensures
        name_count(p, name) >= 2,
    decreases p.len(),
{
    let init = p.drop_last();
    if j == p.len() - 1 {
        lemma_name_count_one(init, name, i);
    } else {
        lemma_name_count_two(init, name, i, j);
    }
}

/// A path that holds `name` holds it at least once.
pub proof fn lemma_name_count_one(p: PathView, name: Seq<u8>, i: int)
    requires
        0 <= i < p.len(),
        p[i] == name,
    ensures
        name_count(p, name) >= 1,
    decreases p.len(),
{
    if i < p.len() - 1 {
        lemma_name_count_one(p.drop_last(), name, i);
    }
}

impl EntryPath {
    /// Whether the last component is `name`.
    pub fn is_named(&self, name: &str) -> (r: bool)
        ensures
            r == named(self@, name.spec_bytes()),
    {
        let n = self.len();
        if n == 0 {
            return false;
        }
        same_bytes(self.name(n - 1).as_slice(), name.as_bytes())
    }

    /// How many components are `name`.
    pub fn count_named(&self, name: &str) -> (count: usize)
        ensures
            count == name_count(self@, name.spec_bytes()),
    {
        let mut count: usize = 0;
        let mut i: usize = 0;
        while i < self.len()
            invariant
                i <= self@.len(),
                count <= i,
                count == name_count(self@.take(i as int), name.spec_bytes()),
            decreases self@.len() - i,
        {
            assert(self@.take(i + 1).drop_last() =~= self@.take(i as int));
            if same_bytes(self.name(i).as_slice(), name.as_bytes()) {
                count += 1;
            }
            i += 1;
        }
        assert(self@.take(i as int) =~= self@);
        count
    }

    /// The path `tail`, given in its written form, beneath this path.
    pub fn beneath(&self, tail: &str) -> (path: EntryPath)
        ensures
            path@ == beneath(self@, tail.spec_bytes()),
    {
        self.join(&parse(tail.as_bytes()))
    }

    /// The written form of the path, from which `from_bytes` reads the path again.
    pub fn to_bytes(&self) -> (written: Vec<u8>)
        ensures
            written@ == render_path(self@),
            parse_path(written@) == self@,
    {
        let mut written: Vec<u8> = Vec::new();
        let rooted = self.is_absolute();
        let mut i: usize = 0;
        while i < self.len()
            invariant
                i <= self@.len(),
                rooted == is_absolute(self@),
                written@ == render_path(self@.take(i as int)),
            decreases self@.len() - i,
        {
            let name = self.name(i);
            proof {
                let now = self@.take(i + 1);
                assert(now.drop_last() =~= self@.take(i as int));
            }
            if i > 1 || (i == 1 && !rooted) {
                written.push(SEPARATOR);
            }
            let mut k: usize = 0;
            let ghost led = written@;
            while k < name.len()
                invariant
                    k <= name@.len(),
                    written@ == led + name@.take(k as int),
                decreases name.len() - k,
            {
                written.push(name[k]);
                k += 1;
            }
            i += 1;
        }
        proof {
            assert(self@.take(i as int) =~= self@);
            lemma_parse_of_rendered(self@);
        }
        written
    }

    /// Reads a path from its written form.
    pub fn from_bytes(bytes: &[u8]) -> (path: EntryPath)
        ensures
            path@ == parse_path(bytes@),
    {
        parse(bytes)
    }

    /// Reads a path from its written form.
    pub fn from_str(text: &str) -> (path: EntryPath)
        ensures
            path@ == parse_path(text.spec_bytes()),
    {
        parse(text.as_bytes())
    }
}

} // verus!
