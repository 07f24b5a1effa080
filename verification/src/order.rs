//! Stable ordering of rows.
use vstd::prelude::*;

use crate::text::{lex_le, text_le, texts};

verus! {

/// `sorted` with `x` put in behind every leading element that may stand before it.
pub open spec fn placed<T>(sorted: Seq<T>, x: T, le: spec_fn(T, T) -> bool) -> Seq<T>
    decreases sorted.len(),
{
    if sorted.len() == 0 || le(sorted.last(), x) {
        sorted.push(x)
    } else {
        placed(sorted.drop_last(), x, le).push(sorted.last())
    }
}

/// The elements of `s` in the order `le`; elements of equal rank keep their order.
pub open spec fn stable_sort<T>(s: Seq<T>, le: spec_fn(T, T) -> bool) -> Seq<T>
    decreases s.len(),
{
    if s.len() == 0 {
        seq![]
    } else {
        placed(stable_sort(s.drop_last(), le), s.last(), le)
    }
}

/// The numbers below `n`, in order.
pub open spec fn indices(n: nat) -> Seq<int> {
    Seq::new(n, |i: int| i)
}

/// The elements of `s` at the positions `at`.
pub open spec fn picked<T>(s: Seq<T>, at: Seq<int>) -> Seq<T> {
    Seq::new(at.len(), |j: int| s[at[j]])
}

proof fn lemma_placed_map<S, T>(
    sorted: Seq<S>,
    x: S,
    f: spec_fn(S) -> T,
    les: spec_fn(S, S) -> bool,
    let_: spec_fn(T, T) -> bool,
)
    requires
        forall|i: int| 0 <= i < sorted.len() ==> les(#[trigger] sorted[i], x) == let_(f(sorted[i]), f(x)),
    ensures
        placed(sorted, x, les).map_values(f) == placed(sorted.map_values(f), f(x), let_),
    decreases sorted.len(),
{
    let m = sorted.map_values(f);
    if sorted.len() == 0 {
        assert(sorted.push(x).map_values(f) =~= m.push(f(x)));
    } else {
        assert(m.last() == f(sorted.last()));
        assert(sorted[sorted.len() - 1] == sorted.last());
        assert(les(sorted.last(), x) == let_(m.last(), f(x)));
        if les(sorted.last(), x) {
            assert(sorted.push(x).map_values(f) =~= m.push(f(x)));
        } else {
            let d = sorted.drop_last();
            assert forall|i: int| 0 <= i < d.len() implies les(#[trigger] d[i], x) == let_(
                f(d[i]),
                f(x),
            ) by {
                assert(d[i] == sorted[i]);
            }
            lemma_placed_map(d, x, f, les, let_);
            assert(d.map_values(f) =~= m.drop_last());
            assert(placed(sorted, x, les).map_values(f) =~= placed(d, x, les).map_values(f).push(
                f(sorted.last()),
            ));
        }
    }
}

proof fn lemma_placed_members<T>(sorted: Seq<T>, x: T, le: spec_fn(T, T) -> bool)
    ensures
        placed(sorted, x, le).len() == sorted.len() + 1,
        placed(sorted, x, le).to_multiset() == sorted.to_multiset().insert(x),
    decreases sorted.len(),
{
    broadcast use vstd::seq_lib::group_to_multiset_ensures;

    if sorted.len() == 0 || le(sorted.last(), x) {
    } else {
        lemma_placed_members(sorted.drop_last(), x, le);
        let p = placed(sorted.drop_last(), x, le);
        assert(p.push(sorted.last()).to_multiset() =~= p.to_multiset().insert(sorted.last()));
        assert(sorted =~= sorted.drop_last().push(sorted.last()));
        assert(sorted.to_multiset() =~= sorted.drop_last().to_multiset().insert(sorted.last()));
        assert(placed(sorted, x, le).to_multiset() =~= sorted.to_multiset().insert(x));
    }
}

/// Ordering keeps every element as often as it occurs.
pub proof fn lemma_sort_members<T>(s: Seq<T>, le: spec_fn(T, T) -> bool)
    ensures
        stable_sort(s, le).len() == s.len(),
        stable_sort(s, le).to_multiset() == s.to_multiset(),
        forall|x: T| #[trigger] stable_sort(s, le).contains(x) <==> s.contains(x),
    decreases s.len(),
{
    broadcast use vstd::seq_lib::group_to_multiset_ensures;

    if s.len() > 0 {
        lemma_sort_members(s.drop_last(), le);
        lemma_placed_members(stable_sort(s.drop_last(), le), s.last(), le);
        assert(s =~= s.drop_last().push(s.last()));
    } else {
        assert(stable_sort(s, le) =~= s);
    }
    assert forall|x: T| #[trigger] stable_sort(s, le).contains(x) <==> s.contains(x) by {
        let t = stable_sort(s, le);
        assert(t.contains(x) <==> t.to_multiset().count(x) > 0);
        assert(s.contains(x) <==> s.to_multiset().count(x) > 0);
    }
}

/// Whether every element of `s` may stand before those behind it.
pub open spec fn in_order<T>(s: Seq<T>, le: spec_fn(T, T) -> bool) -> bool {
    forall|i: int, j: int| 0 <= i < j < s.len() ==> #[trigger] le(s[i], s[j])
}

/// Whether `le` compares any two elements, and chains.
pub open spec fn total_order<T>(le: spec_fn(T, T) -> bool) -> bool {
    &&& forall|a: T, b: T| #[trigger] le(a, b) || le(b, a)
    &&& forall|a: T, b: T, c: T| #[trigger] le(a, b) && #[trigger] le(b, c) ==> le(a, c)
}

proof fn lemma_placed_in_order<T>(sorted: Seq<T>, x: T, le: spec_fn(T, T) -> bool)
    requires
        total_order(le),
        in_order(sorted, le),
    ensures
        in_order(placed(sorted, x, le), le),
        forall|i: int|
            0 <= i < placed(sorted, x, le).len() ==> (#[trigger] placed(sorted, x, le)[i] == x
                || sorted.contains(placed(sorted, x, le)[i])),
    decreases sorted.len(),
{
    let p = placed(sorted, x, le);
    if sorted.len() == 0 {
    } else if le(sorted.last(), x) {
        assert forall|i: int, j: int| 0 <= i < j < p.len() implies #[trigger] le(p[i], p[j]) by {
            if j == sorted.len() {
                if i < sorted.len() - 1 {
                    assert(le(sorted[i], sorted[sorted.len() - 1]));
                }
            }
        }
        assert forall|i: int| 0 <= i < p.len() implies (#[trigger] p[i] == x || sorted.contains(
            p[i],
        )) by {
            if i < sorted.len() {
                assert(p[i] == sorted[i]);
            }
        }
    } else {
        let d = sorted.drop_last();
        assert forall|i: int, j: int| 0 <= i < j < d.len() implies #[trigger] le(d[i], d[j]) by {
            assert(le(sorted[i], sorted[j]));
        }
        lemma_placed_in_order(d, x, le);
        let q = placed(d, x, le);
        assert(le(x, sorted.last()));
        assert forall|i: int, j: int| 0 <= i < j < p.len() implies #[trigger] le(p[i], p[j]) by {
            if j == q.len() {
                if q[i] != x {
                    let m = choose|m: int| 0 <= m < d.len() && d[m] == q[i];
                    assert(le(sorted[m], sorted[sorted.len() - 1]));
                }
            } else {
                assert(le(q[i], q[j]));
            }
        }
        assert forall|i: int| 0 <= i < p.len() implies (#[trigger] p[i] == x || sorted.contains(
            p[i],
        )) by {
            if i < q.len() {
                if q[i] != x {
                    let m = choose|m: int| 0 <= m < d.len() && d[m] == q[i];
                    assert(sorted[m] == p[i]);
                }
            } else {
                assert(sorted[sorted.len() - 1] == p[i]);
            }
        }
    }
}

/// Ordering puts the elements in order.
pub proof fn lemma_sort_in_order<T>(s: Seq<T>, le: spec_fn(T, T) -> bool)
    requires
        total_order(le),
    ensures
        in_order(stable_sort(s, le), le),
    decreases s.len(),
{
    if s.len() > 0 {
        lemma_sort_in_order(s.drop_last(), le);
        lemma_placed_in_order(stable_sort(s.drop_last(), le), s.last(), le);
    }
}

proof fn lemma_sort_within<T>(s: Seq<T>, le: spec_fn(T, T) -> bool, i: int)
    requires
        0 <= i < s.len(),
    ensures
        stable_sort(s, le).len() == s.len(),
        s.contains(stable_sort(s, le)[i]),
{
    lemma_sort_members(s, le);
    assert(stable_sort(s, le).contains(stable_sort(s, le)[i]));
}

/// Ordering the elements is ordering their images.
pub proof fn lemma_sort_map<S, T>(
    s: Seq<S>,
    f: spec_fn(S) -> T,
    les: spec_fn(S, S) -> bool,
    let_: spec_fn(T, T) -> bool,
)
    requires
        forall|i: int, j: int|
            0 <= i < s.len() && 0 <= j < s.len() ==> #[trigger] les(s[i], s[j]) == let_(
                f(s[i]),
                f(s[j]),
            ),
    ensures
        stable_sort(s, les).map_values(f) == stable_sort(s.map_values(f), let_),
    decreases s.len(),
{
    let m = s.map_values(f);
    if s.len() == 0 {
        assert(stable_sort(s, les).map_values(f) =~= stable_sort(m, let_));
    } else {
        let d = s.drop_last();
        assert forall|i: int, j: int| 0 <= i < d.len() && 0 <= j < d.len() implies #[trigger] les(
            d[i],
            d[j],
        ) == let_(f(d[i]), f(d[j])) by {
            assert(les(s[i], s[j]) == let_(f(s[i]), f(s[j])));
        }
        lemma_sort_map(d, f, les, let_);
        assert(m.drop_last() =~= d.map_values(f));
        assert(m.last() == f(s.last()));
        let t = stable_sort(d, les);
        lemma_sort_members(d, les);
        assert forall|i: int| 0 <= i < t.len() implies les(#[trigger] t[i], s.last()) == let_(
            f(t[i]),
            f(s.last()),
        ) by {
            lemma_sort_within(d, les, i);
            let k = choose|k: int| 0 <= k < d.len() && d[k] == t[i];
            assert(les(s[k], s[s.len() - 1]) == let_(f(s[k]), f(s[s.len() - 1])));
        }
        lemma_placed_map(t, s.last(), f, les, let_);
    }
}

/// The order of the rows `s` by `le` is the rows at the ordered positions.
pub proof fn lemma_sort_positions<T>(
    s: Seq<T>,
    at: spec_fn(int, int) -> bool,
    le: spec_fn(T, T) -> bool,
)
    requires
        forall|i: int, j: int|
            0 <= i < s.len() && 0 <= j < s.len() ==> #[trigger] at(i, j) == le(s[i], s[j]),
    ensures
        picked(s, stable_sort(indices(s.len()), at)) == stable_sort(s, le),
{
    let f = |i: int| s[i];
    lemma_sort_map(indices(s.len()), f, at, le);
    assert(indices(s.len()).map_values(f) =~= s);
    assert(picked(s, stable_sort(indices(s.len()), at)) =~= stable_sort(
        indices(s.len()),
        at,
    ).map_values(f));
}

/// Positions as integers.
pub open spec fn ints(v: Seq<usize>) -> Seq<int> {
    Seq::new(v.len(), |i: int| v[i] as int)
}

/// Descending order of a pair of numbers: the first decides, then the second.
pub open spec fn pair_desc(a: (i64, i64), b: (i64, i64)) -> bool {
    a.0 > b.0 || (a.0 == b.0 && a.1 >= b.1)
}

/// The positions of `keys` in descending order; equal keys keep their order.
pub fn order_desc(keys: &Vec<(i64, i64)>) -> (p: Vec<usize>)
    ensures
        ints(p@) == stable_sort(
            indices(keys@.len()),
            |i: int, j: int| pair_desc(keys@[i], keys@[j]),
        ),
        forall|i: int| 0 <= i < p@.len() ==> #[trigger] p@[i] < keys@.len(),
        p@.len() == keys@.len(),
{
    let ghost at = |i: int, j: int| pair_desc(keys@[i], keys@[j]);
    let mut p: Vec<usize> = Vec::new();
    let mut i: usize = 0;
    assert(ints(p@) =~= stable_sort(indices(0), at));
    while i < keys.len()
        invariant
            i <= keys@.len(),
            p@.len() == i,
            at == (|i: int, j: int| pair_desc(keys@[i], keys@[j])),
            ints(p@) == stable_sort(indices(i as nat), at),
            forall|j: int| 0 <= j < p@.len() ==> #[trigger] p@[j] < i,
        decreases keys.len() - i,
    {
        let ghost sorted = ints(p@);
        let mut j: usize = i;
        assert(sorted.take(j as int) =~= sorted);
        assert(sorted.skip(j as int) =~= seq![]);
        assert(placed(sorted, i as int, at) =~= placed(sorted, i as int, at) + seq![]);
        while j > 0 && !(keys[p[j - 1]].0 > keys[i].0 || (keys[p[j - 1]].0 == keys[i].0 && keys[p[j
            - 1]].1 >= keys[i].1))
            invariant
                j <= i < keys@.len(),
                p@.len() == i,
                sorted == ints(p@),
                at == (|i: int, j: int| pair_desc(keys@[i], keys@[j])),
                forall|j: int| 0 <= j < p@.len() ==> #[trigger] p@[j] < i,
                placed(sorted, i as int, at) == placed(sorted.take(j as int), i as int, at)
                    + sorted.skip(j as int),
            decreases j,
        {
            assert(sorted.take(j as int).last() == p@[j - 1]);
            assert(!at(sorted.take(j as int).last(), i as int));
            assert(sorted.take(j as int).drop_last() =~= sorted.take(j - 1));
            assert(placed(sorted.take(j as int), i as int, at) + sorted.skip(j as int)
                =~= placed(sorted.take(j - 1), i as int, at) + sorted.skip(j - 1));
            j -= 1;
        }
        proof {
            if j > 0 {
                assert(sorted.take(j as int).last() == p@[j - 1]);
                assert(at(sorted.take(j as int).last(), i as int));
            }
            assert(placed(sorted.take(j as int), i as int, at) == sorted.take(j as int).push(
                i as int,
            ));
            assert(indices((i + 1) as nat).drop_last() =~= indices(i as nat));
        }
        p.insert(j, i);
        assert(ints(p@) =~= sorted.take(j as int).push(i as int) + sorted.skip(j as int));
        i += 1;
    }
    p
}

/// Order of two lists of texts: the first pair that differs decides; a list that is
/// the beginning of the other comes first.
pub open spec fn texts_le(a: Seq<Seq<char>>, b: Seq<Seq<char>>) -> bool
    decreases a.len(),
{
    if a.len() == 0 {
        true
    } else if b.len() == 0 {
        false
    } else if a[0] == b[0] {
        texts_le(a.skip(1), b.skip(1))
    } else {
        lex_le(a[0], b[0])
    }
}

fn list_le(a: &Vec<String>, b: &Vec<String>) -> (r: bool)
    ensures
        r == texts_le(texts(a@), texts(b@)),
{
    let ghost x = texts(a@);
    let ghost y = texts(b@);
    assert(x.skip(0) =~= x);
    assert(y.skip(0) =~= y);
    let mut i: usize = 0;
    while i < a.len() && i < b.len()
        invariant
            i <= a@.len(),
            i <= b@.len(),
            x == texts(a@),
            y == texts(b@),
            texts_le(x, y) == texts_le(x.skip(i as int), y.skip(i as int)),
        decreases a.len() - i,
    {
        assert(x.skip(i as int).skip(1) =~= x.skip(i + 1));
        assert(y.skip(i as int).skip(1) =~= y.skip(i + 1));
        if !crate::text::same(a[i].as_str(), b[i].as_str()) {
            return text_le(a[i].as_str(), b[i].as_str());
        }
        i += 1;
    }
    i == a.len()
}

/// The positions of `keys` in ascending order; equal keys keep their order.
pub fn order_texts(keys: &Vec<Vec<String>>) -> (p: Vec<usize>)
    ensures
        ints(p@) == stable_sort(
            indices(keys@.len()),
            |i: int, j: int| texts_le(texts(keys@[i]@), texts(keys@[j]@)),
        ),
        forall|i: int| 0 <= i < p@.len() ==> #[trigger] p@[i] < keys@.len(),
        p@.len() == keys@.len(),
{
    let ghost at = |i: int, j: int| texts_le(texts(keys@[i]@), texts(keys@[j]@));
    let mut p: Vec<usize> = Vec::new();
    let mut i: usize = 0;
    assert(ints(p@) =~= stable_sort(indices(0), at));
    while i < keys.len()
        invariant
            i <= keys@.len(),
            p@.len() == i,
            at == (|i: int, j: int| texts_le(texts(keys@[i]@), texts(keys@[j]@))),
            ints(p@) == stable_sort(indices(i as nat), at),
            forall|j: int| 0 <= j < p@.len() ==> #[trigger] p@[j] < i,
        decreases keys.len() - i,
    {
        let ghost sorted = ints(p@);
        let mut j: usize = i;
        assert(sorted.take(j as int) =~= sorted);
        assert(sorted.skip(j as int) =~= seq![]);
        assert(placed(sorted, i as int, at) =~= placed(sorted, i as int, at) + seq![]);
        while j > 0 && !list_le(&keys[p[j - 1]], &keys[i])
            invariant
                j <= i < keys@.len(),
                p@.len() == i,
                sorted == ints(p@),
                at == (|i: int, j: int| texts_le(texts(keys@[i]@), texts(keys@[j]@))),
                forall|j: int| 0 <= j < p@.len() ==> #[trigger] p@[j] < i,
                placed(sorted, i as int, at) == placed(sorted.take(j as int), i as int, at)
                    + sorted.skip(j as int),
            decreases j,
        {
            assert(sorted.take(j as int).last() == p@[j - 1]);
            assert(!at(sorted.take(j as int).last(), i as int));
            assert(sorted.take(j as int).drop_last() =~= sorted.take(j - 1));
            assert(placed(sorted.take(j as int), i as int, at) + sorted.skip(j as int)
                =~= placed(sorted.take(j - 1), i as int, at) + sorted.skip(j - 1));
            j -= 1;
        }
        proof {
            if j > 0 {
                assert(sorted.take(j as int).last() == p@[j - 1]);
                assert(at(sorted.take(j as int).last(), i as int));
            }
            assert(placed(sorted.take(j as int), i as int, at) == sorted.take(j as int).push(
                i as int,
            ));
            assert(indices((i + 1) as nat).drop_last() =~= indices(i as nat));
        }
        p.insert(j, i);
        assert(ints(p@) =~= sorted.take(j as int).push(i as int) + sorted.skip(j as int));
        i += 1;
    }
    p
}

/// The order of texts compares any two of them, chains, and tells different ones apart.
pub proof fn lemma_lex(a: Seq<char>, b: Seq<char>, c: Seq<char>)
    ensures
        lex_le(a, b) || lex_le(b, a),
        lex_le(a, b) && lex_le(b, a) ==> a == b,
        lex_le(a, b) && lex_le(b, c) ==> lex_le(a, c),
    decreases a.len() + b.len() + c.len(),
{
    if a.len() == 0 {
        if lex_le(b, a) {
            assert(a =~= b);
        }
    } else if b.len() > 0 {
        if c.len() > 0 {
            lemma_lex(a.skip(1), b.skip(1), c.skip(1));
        } else {
            lemma_lex(a.skip(1), b.skip(1), c);
        }
        if a[0] == b[0] && a.skip(1) == b.skip(1) {
            assert(a =~= seq![a[0]] + a.skip(1));
            assert(b =~= seq![b[0]] + b.skip(1));
        }
    }
}

/// The order of lists of one text each is that of their texts.
pub proof fn lemma_single_text(a: Seq<char>, b: Seq<char>)
    ensures
        texts_le(seq![a], seq![b]) == lex_le(a, b),
{
    reveal_with_fuel(texts_le, 2);
    if a == b {
        lemma_lex(a, a, a);
    }
}

} // verus!
