//! Lexicographic order on sequences, and the facts about it that make a
//! sorted sequence of paths behave like a tree.

use vstd::prelude::*;

verus! {

/// `lt` is irreflexive, transitive, and relates any two different values.
pub open spec fn strict_total<T>(lt: spec_fn(T, T) -> bool) -> bool {
    &&& forall|x: T| !#[trigger] lt(x, x)
    &&& forall|x: T, y: T| x == y || #[trigger] lt(x, y) || lt(y, x)
    &&& forall|x: T, y: T, z: T| #[trigger] lt(x, y) && #[trigger] lt(y, z) ==> lt(x, z)
}

/// The number of leading positions at which `a` and `b` hold the same element.
pub open spec fn common_prefix_len<T>(a: Seq<T>, b: Seq<T>) -> nat
    decreases a.len(),
{
    if a.len() == 0 || b.len() == 0 || a[0] != b[0] {
        0
    } else {
        1 + common_prefix_len(a.drop_first(), b.drop_first())
    }
}

/// `a` comes strictly before `b`: at the first position where they part,
/// either `a` has ended and `b` has not, or `a` holds the smaller element.
pub open spec fn lex_lt<T>(a: Seq<T>, b: Seq<T>, lt: spec_fn(T, T) -> bool) -> bool {
    let k = common_prefix_len(a, b) as int;
    k < b.len() && (k == a.len() || lt(a[k], b[k]))
}

pub open spec fn lex_le<T>(a: Seq<T>, b: Seq<T>, lt: spec_fn(T, T) -> bool) -> bool {
    a == b || lex_lt(a, b, lt)
}

/// The relation `lex_lt(_, _, lt)` as a value.
pub open spec fn lex_order<T>(lt: spec_fn(T, T) -> bool) -> spec_fn(Seq<T>, Seq<T>) -> bool {
    |a: Seq<T>, b: Seq<T>| lex_lt(a, b, lt)
}

/// What `common_prefix_len` returns: the two sequences agree before it and,
/// where both go on, differ at it.
pub proof fn lemma_common_prefix_len<T>(a: Seq<T>, b: Seq<T>)
    ensures
        common_prefix_len(a, b) <= a.len(),
        common_prefix_len(a, b) <= b.len(),
        forall|i: int| 0 <= i < common_prefix_len(a, b) ==> a[i] == b[i],
        common_prefix_len(a, b) < a.len() && common_prefix_len(a, b) < b.len() ==> a[common_prefix_len(
            a,
            b,
        ) as int] != b[common_prefix_len(a, b) as int],
    decreases a.len(),
{
    if a.len() > 0 && b.len() > 0 && a[0] == b[0] {
        let a1 = a.drop_first();
        let b1 = b.drop_first();
        lemma_common_prefix_len(a1, b1);
        assert forall|i: int| 0 <= i < common_prefix_len(a, b) implies a[i] == b[i] by {
            if i > 0 {
                assert(a1[i - 1] == a[i]);
            }
        }
    }
}

/// Any position with the properties of `lemma_common_prefix_len` is the common prefix length.
pub proof fn lemma_common_prefix_len_is<T>(a: Seq<T>, b: Seq<T>, k: int)
    requires
        0 <= k <= a.len(),
        k <= b.len(),
        forall|i: int| 0 <= i < k ==> a[i] == b[i],
        k == a.len() || k == b.len() || a[k] != b[k],
    ensures
        common_prefix_len(a, b) == k,
{
    lemma_common_prefix_len(a, b);
}

pub proof fn lemma_common_prefix_len_symmetric<T>(a: Seq<T>, b: Seq<T>)
    ensures
        common_prefix_len(a, b) == common_prefix_len(b, a),
{
    lemma_common_prefix_len(a, b);
    lemma_common_prefix_len_is(b, a, common_prefix_len(a, b) as int);
}

pub proof fn lemma_lex_irreflexive<T>(a: Seq<T>, lt: spec_fn(T, T) -> bool)
    ensures
        !lex_lt(a, a, lt),
{
    lemma_common_prefix_len_is(a, a, a.len() as int);
}

pub proof fn lemma_lex_connected<T>(a: Seq<T>, b: Seq<T>, lt: spec_fn(T, T) -> bool)
    requires
        strict_total(lt),
    ensures
        a == b || lex_lt(a, b, lt) || lex_lt(b, a, lt),
{
    lemma_common_prefix_len(a, b);
    lemma_common_prefix_len_symmetric(a, b);
}

pub proof fn lemma_lex_asymmetric<T>(a: Seq<T>, b: Seq<T>, lt: spec_fn(T, T) -> bool)
    requires
        strict_total(lt),
        lex_lt(a, b, lt),
    ensures
        !lex_lt(b, a, lt),
        a != b,
{
    lemma_common_prefix_len(a, b);
    lemma_common_prefix_len_symmetric(a, b);
    lemma_lex_irreflexive(a, lt);
}

pub proof fn lemma_lex_transitive<T>(a: Seq<T>, b: Seq<T>, c: Seq<T>, lt: spec_fn(T, T) -> bool)
    requires
        strict_total(lt),
        lex_lt(a, b, lt),
        lex_lt(b, c, lt),
    ensures
        lex_lt(a, c, lt),
{
    lemma_common_prefix_len(a, b);
    lemma_common_prefix_len(b, c);
    let k1 = common_prefix_len(a, b) as int;
    let k2 = common_prefix_len(b, c) as int;
    if k1 < k2 {
        lemma_common_prefix_len_is(a, c, k1);
    } else if k2 < k1 {
        lemma_common_prefix_len_is(a, c, k2);
    } else {
        lemma_common_prefix_len_is(a, c, k1);
    }
}

/// The lexicographic order of a strict total order is a strict total order.
pub proof fn lemma_lex_strict_total<T>(lt: spec_fn(T, T) -> bool)
    requires
        strict_total(lt),
    ensures
        strict_total(lex_order(lt)),
{
    let order = lex_order(lt);
    assert forall|x: Seq<T>| !#[trigger] order(x, x) by {
        lemma_lex_irreflexive(x, lt);
    }
    assert forall|x: Seq<T>, y: Seq<T>| x == y || #[trigger] order(x, y) || order(y, x) by {
        lemma_lex_connected(x, y, lt);
    }
    assert forall|x: Seq<T>, y: Seq<T>, z: Seq<T>| #[trigger]
        order(x, y) && #[trigger] order(y, z) implies order(x, z) by {
        lemma_lex_transitive(x, y, z, lt);
    }
}

/// A sequence comes before, or is, every sequence that it is a prefix of.
pub proof fn lemma_prefix_is_le<T>(root: Seq<T>, x: Seq<T>, lt: spec_fn(T, T) -> bool)
    requires
        root.is_prefix_of(x),
    ensures
        lex_le(root, x, lt),
{
    lemma_common_prefix_len_is(root, x, root.len() as int);
    if root.len() == x.len() {
        assert(root =~= x);
    }
}

/// Whatever lies between a sequence and one of its extensions is an extension too:
/// the extensions of `root` form an interval of the order that starts at `root`.
pub proof fn lemma_extensions_are_convex<T>(
    root: Seq<T>,
    y: Seq<T>,
    z: Seq<T>,
    lt: spec_fn(T, T) -> bool,
)
    requires
        strict_total(lt),
        lex_le(root, y, lt),
        lex_le(y, z, lt),
        root.is_prefix_of(z),
    ensures
        root.is_prefix_of(y),
{
    if root != y && y != z {
        lemma_common_prefix_len(root, y);
        let k = common_prefix_len(root, y) as int;
        if k < root.len() {
            // `root` and `y` part at `k`, where `y` holds the larger element,
            // and `z` agrees with `root` up to and including `k`: so `z` comes before `y`.
            assert forall|i: int| 0 <= i < k implies y[i] == z[i] by {}
            lemma_common_prefix_len_is(y, z, k);
        }
    }
}

} // verus!
