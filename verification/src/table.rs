//! Operations on tables of rows: which rows a condition selects, which it removes, and
//! in what order a listing gives them.
use vstd::prelude::*;

use crate::order::{indices, ints, order_desc, order_texts, pair_desc, picked, stable_sort};
use crate::order::texts_le;
use crate::order::{lemma_lex, lemma_single_text, lemma_sort_positions};
use crate::text::{lex_le, texts};
use crate::types::models;

verus! {

/// The first `n` elements of `s`, or all of them where it holds fewer.
pub open spec fn top<T>(s: Seq<T>, n: int) -> Seq<T> {
    if s.len() <= n {
        s
    } else {
        s.take(n)
    }
}

/// The rows of `s` that meet `p`, in the descending order of `key`; rows of equal key
/// keep their order.
pub open spec fn listed<V>(
    s: Seq<V>,
    p: spec_fn(V) -> bool,
    key: spec_fn(V) -> (i64, i64),
) -> Seq<V> {
    stable_sort(s.filter(p), |a: V, b: V| pair_desc(key(a), key(b)))
}

/// The positions of the elements of `s` that meet `p`.
pub open spec fn positions<V>(s: Seq<V>, p: spec_fn(V) -> bool) -> Seq<int>
    decreases s.len(),
{
    if s.len() == 0 {
        seq![]
    } else if p(s.last()) {
        positions(s.drop_last(), p).push(s.len() - 1)
    } else {
        positions(s.drop_last(), p)
    }
}

pub proof fn lemma_positions<V>(s: Seq<V>, p: spec_fn(V) -> bool)
    ensures
        picked(s, positions(s, p)) == s.filter(p),
        forall|i: int|
            0 <= i < positions(s, p).len() ==> 0 <= #[trigger] positions(s, p)[i] < s.len() && p(
                s[positions(s, p)[i]],
            ),
    decreases s.len(),
{
    reveal(Seq::filter);
    if s.len() > 0 {
        let d = s.drop_last();
        lemma_positions(d, p);
        assert forall|i: int| 0 <= i < positions(s, p).len() implies 0 <= #[trigger] positions(
            s,
            p,
        )[i] < s.len() && p(s[positions(s, p)[i]]) by {
            if i < positions(d, p).len() {
                assert(positions(s, p)[i] == positions(d, p)[i]);
            }
        }
        assert(picked(d, positions(d, p)) =~= picked(s, positions(d, p)));
        if p(s.last()) {
            assert(picked(s, positions(s, p)) =~= picked(d, positions(d, p)).push(s.last()));
        }
    } else {
        assert(picked(s, positions(s, p)) =~= s.filter(p));
    }
}

/// A filter that drops nothing holds of everything.
pub proof fn lemma_filter_all<V>(s: Seq<V>, p: spec_fn(V) -> bool)
    requires
        s.filter(p).len() == s.len(),
    ensures
        forall|i: int| 0 <= i < s.len() ==> p(#[trigger] s[i]),
    decreases s.len(),
{
    reveal(Seq::filter);
    if s.len() > 0 {
        s.drop_last().lemma_filter_len(p);
        lemma_filter_all(s.drop_last(), p);
        assert forall|i: int| 0 <= i < s.len() implies p(#[trigger] s[i]) by {
            if i < s.len() - 1 {
                assert(s[i] == s.drop_last()[i]);
            }
        }
    }
}

/// A filter that holds of everything drops nothing.
pub proof fn lemma_filter_none_dropped<V>(s: Seq<V>, p: spec_fn(V) -> bool)
    requires
        forall|i: int| 0 <= i < s.len() ==> p(#[trigger] s[i]),
    ensures
        s.filter(p) == s,
    decreases s.len(),
{
    reveal(Seq::filter);
    if s.len() > 0 {
        assert forall|i: int| 0 <= i < s.drop_last().len() implies p(
            #[trigger] s.drop_last()[i],
        ) by {
            assert(s.drop_last()[i] == s[i]);
        }
        lemma_filter_none_dropped(s.drop_last(), p);
        assert(s =~= s.drop_last().push(s.last()));
    } else {
        assert(s.filter(p) =~= s);
    }
}

/// Two conditions that agree on every element filter alike.
pub proof fn lemma_filter_ext<V>(s: Seq<V>, p: spec_fn(V) -> bool, q: spec_fn(V) -> bool)
    requires
        forall|i: int| 0 <= i < s.len() ==> p(#[trigger] s[i]) == q(s[i]),
    ensures
        s.filter(p) == s.filter(q),
    decreases s.len(),
{
    reveal(Seq::filter);
    if s.len() > 0 {
        assert forall|i: int| 0 <= i < s.drop_last().len() implies p(#[trigger] s.drop_last()[i])
            == q(s.drop_last()[i]) by {
            assert(s.drop_last()[i] == s[i]);
        }
        lemma_filter_ext(s.drop_last(), p, q);
        assert(p(s[s.len() - 1]) == q(s[s.len() - 1]));
    }
}

/// Filtering twice is filtering by both conditions.
pub proof fn lemma_filter_filter<V>(s: Seq<V>, p: spec_fn(V) -> bool, q: spec_fn(V) -> bool)
    ensures
        s.filter(p).filter(q) == s.filter(|x: V| p(x) && q(x)),
    decreases s.len(),
{
    reveal(Seq::filter);
    if s.len() > 0 {
        lemma_filter_filter(s.drop_last(), p, q);
        let f = s.drop_last().filter(p);
        if p(s.last()) {
            assert(f.push(s.last()).drop_last() =~= f);
        }
    } else {
        assert(s.filter(p).filter(q) =~= s.filter(|x: V| p(x) && q(x)));
    }
}

/// The positions of the rows that meet a condition.
pub(crate) fn select<T: View>(
    v: &Vec<T>,
    keep: impl Fn(&T) -> bool,
    Ghost(p): Ghost<spec_fn(T::V) -> bool>,
) -> (at: Vec<usize>)
    requires
        forall|x: &T| #[trigger] call_requires(keep, (x,)),
        forall|x: &T, r: bool| #[trigger] call_ensures(keep, (x,), r) ==> r == p(x@),
    ensures
        ints(at@) == positions(models(v@), p),
        forall|i: int| 0 <= i < at@.len() ==> #[trigger] at@[i] < v@.len(),
{
    let mut at: Vec<usize> = Vec::new();
    let mut i: usize = 0;
    assert(models(v@).take(0) =~= seq![]);
    assert(ints(at@) =~= seq![]);
    while i < v.len()
        invariant
            i <= v@.len(),
            forall|x: &T| #[trigger] call_requires(keep, (x,)),
            forall|x: &T, r: bool| #[trigger] call_ensures(keep, (x,), r) ==> r == p(x@),
            ints(at@) == positions(models(v@).take(i as int), p),
            forall|j: int| 0 <= j < at@.len() ==> #[trigger] at@[j] < v@.len(),
        decreases v.len() - i,
    {
        let ghost now = models(v@).take(i + 1);
        assert(now.drop_last() =~= models(v@).take(i as int));
        let ghost before = ints(at@);
        if keep(&v[i]) {
            at.push(i);
            assert(ints(at@) =~= before.push(i as int));
        }
        i += 1;
    }
    assert(models(v@).take(i as int) =~= models(v@));
    at
}

/// The positions of the rows that a listing gives: those that meet a condition, in the
/// descending order of a key, `limit` of them at most.
pub(crate) fn list<T: View>(
    v: &Vec<T>,
    keep: impl Fn(&T) -> bool,
    key: impl Fn(&T) -> (i64, i64),
    limit: usize,
    Ghost(p): Ghost<spec_fn(T::V) -> bool>,
    Ghost(k): Ghost<spec_fn(T::V) -> (i64, i64)>,
) -> (at: Vec<usize>)
    requires
        forall|x: &T| #[trigger] call_requires(keep, (x,)),
        forall|x: &T, r: bool| #[trigger] call_ensures(keep, (x,), r) ==> r == p(x@),
        forall|x: &T| #[trigger] call_requires(key, (x,)),
        forall|x: &T, r: (i64, i64)| #[trigger] call_ensures(key, (x,), r) ==> r == k(x@),
    ensures
        forall|i: int| 0 <= i < at@.len() ==> #[trigger] at@[i] < v@.len(),
        picked(models(v@), ints(at@)) == top(listed(models(v@), p, k), limit as int),
{
    let found: Vec<usize> = select(v, keep, Ghost(p));
    let ghost s = models(v@);
    let ghost f = s.filter(p);
    proof {
        lemma_positions(s, p);
    }
    let mut keys: Vec<(i64, i64)> = Vec::new();
    let mut i: usize = 0;
    while i < found.len()
        invariant
            i <= found@.len(),
            s == models(v@),
            f == picked(s, ints(found@)),
            forall|j: int| 0 <= j < found@.len() ==> #[trigger] found@[j] < v@.len(),
            forall|x: &T| #[trigger] call_requires(key, (x,)),
            forall|x: &T, r: (i64, i64)| #[trigger] call_ensures(key, (x,), r) ==> r == k(x@),
            keys@.len() == i,
            forall|j: int| 0 <= j < i ==> #[trigger] keys@[j] == k(f[j]),
        decreases found.len() - i,
    {
        assert(f[i as int] == s[found@[i as int] as int]);
        keys.push(key(&v[found[i]]));
        i += 1;
    }
    let order: Vec<usize> = order_desc(&keys);
    proof {
        let at = |i: int, j: int| pair_desc(keys@[i], keys@[j]);
        let le = |a: T::V, b: T::V| pair_desc(k(a), k(b));
        assert forall|i: int, j: int|
            0 <= i < f.len() && 0 <= j < f.len() implies #[trigger] at(i, j) == le(f[i], f[j]) by {
            assert(keys@[i] == k(f[i]));
            assert(keys@[j] == k(f[j]));
        }
        lemma_sort_positions(f, at, le);
        assert(ints(order@) == stable_sort(indices(f.len()), at));
        assert(listed(s, p, k) == picked(f, ints(order@)));
    }
    let ghost whole = listed(s, p, k);
    let n: usize = if order.len() <= limit { order.len() } else { limit };
    let mut out: Vec<usize> = Vec::new();
    let mut j: usize = 0;
    while j < n
        invariant
            j <= n <= order@.len(),
            order@.len() == found@.len(),
            s == models(v@),
            f == picked(s, ints(found@)),
            whole == picked(f, ints(order@)),
            forall|i: int| 0 <= i < found@.len() ==> #[trigger] found@[i] < v@.len(),
            forall|i: int| 0 <= i < order@.len() ==> #[trigger] order@[i] < found@.len(),
            forall|i: int| 0 <= i < out@.len() ==> #[trigger] out@[i] < v@.len(),
            out@.len() == j,
            forall|i: int| 0 <= i < j ==> #[trigger] s[out@[i] as int] == whole[i],
        decreases n - j,
    {
        assert(order@[j as int] < found@.len());
        assert(found@[order@[j as int] as int] < v@.len());
        out.push(found[order[j]]);
        assert(whole[j as int] == f[order@[j as int] as int]);
        j += 1;
    }
    assert(picked(s, ints(out@)) =~= top(whole, limit as int));
    out
}

/// The rows of `s` in the ascending order of a list of texts; rows of equal key keep
/// their order.
pub open spec fn sorted_by<V>(s: Seq<V>, key: spec_fn(V) -> Seq<Seq<char>>) -> Seq<V> {
    stable_sort(s, |a: V, b: V| texts_le(key(a), key(b)))
}

/// The positions of the rows in the ascending order of a list of texts.
pub(crate) fn sort_by<T: View>(
    v: &Vec<T>,
    key: impl Fn(&T) -> Vec<String>,
    Ghost(k): Ghost<spec_fn(T::V) -> Seq<Seq<char>>>,
) -> (at: Vec<usize>)
    requires
        forall|x: &T| #[trigger] call_requires(key, (x,)),
        forall|x: &T, r: Vec<String>| #[trigger] call_ensures(key, (x,), r) ==> texts(r@) == k(x@),
    ensures
        forall|i: int| 0 <= i < at@.len() ==> #[trigger] at@[i] < v@.len(),
        picked(models(v@), ints(at@)) == sorted_by(models(v@), k),
{
    let ghost s = models(v@);
    let mut keys: Vec<Vec<String>> = Vec::new();
    let mut i: usize = 0;
    while i < v.len()
        invariant
            i <= v@.len(),
            s == models(v@),
            forall|x: &T| #[trigger] call_requires(key, (x,)),
            forall|x: &T, r: Vec<String>| #[trigger]
                call_ensures(key, (x,), r) ==> texts(r@) == k(x@),
            keys@.len() == i,
            forall|j: int| 0 <= j < i ==> texts(#[trigger] keys@[j]@) == k(s[j]),
        decreases v.len() - i,
    {
        keys.push(key(&v[i]));
        i += 1;
    }
    let at: Vec<usize> = order_texts(&keys);
    proof {
        let a = |i: int, j: int| texts_le(texts(keys@[i]@), texts(keys@[j]@));
        let le = |a: T::V, b: T::V| texts_le(k(a), k(b));
        assert forall|i: int, j: int|
            0 <= i < s.len() && 0 <= j < s.len() implies #[trigger] a(i, j) == le(s[i], s[j]) by {
            assert(texts(keys@[i]@) == k(s[i]));
            assert(texts(keys@[j]@) == k(s[j]));
        }
        lemma_sort_positions(s, a, le);
    }
    at
}

/// `s` with only one of each run of equal neighbours.
pub open spec fn deduped<T>(s: Seq<T>) -> Seq<T>
    decreases s.len(),
{
    if s.len() == 0 {
        seq![]
    } else if s.len() > 1 && s[s.len() - 2] == s.last() {
        deduped(s.drop_last())
    } else {
        deduped(s.drop_last()).push(s.last())
    }
}

/// Dropping repeated neighbours drops no value.
pub proof fn lemma_deduped_members<T>(s: Seq<T>)
    ensures
        forall|x: T| #[trigger] deduped(s).contains(x) <==> s.contains(x),
    decreases s.len(),
{
    if s.len() > 0 {
        let d = s.drop_last();
        lemma_deduped_members(d);
        assert forall|x: T| #[trigger] deduped(s).contains(x) <==> s.contains(x) by {
            if s.contains(x) {
                let i = choose|i: int| 0 <= i < s.len() && s[i] == x;
                if i < d.len() {
                    assert(d[i] == x);
                    assert(deduped(d).contains(x));
                    let j = choose|j: int| 0 <= j < deduped(d).len() && deduped(d)[j] == x;
                    assert(deduped(s)[j] == x);
                } else if s.len() > 1 && s[s.len() - 2] == s.last() {
                    assert(d[s.len() - 2] == x);
                    assert(deduped(d).contains(x));
                } else {
                    assert(deduped(s)[deduped(d).len() as int] == x);
                }
            }
            if deduped(s).contains(x) {
                let j = choose|j: int| 0 <= j < deduped(s).len() && deduped(s)[j] == x;
                if j < deduped(d).len() {
                    assert(deduped(d)[j] == x);
                    assert(deduped(d).contains(x));
                    assert(d.contains(x));
                    let i = choose|i: int| 0 <= i < d.len() && d[i] == x;
                    assert(s[i] == x);
                } else {
                    assert(s[s.len() - 1] == x);
                }
            }
        }
    }
}

/// The values of a list of texts, each once, in order.
pub open spec fn distinct(s: Seq<Seq<char>>) -> Seq<Seq<char>> {
    deduped(sorted_by(s, |t: Seq<char>| seq![t]))
}

/// The distinct values of a list are the values of the list.
pub proof fn lemma_distinct_members(s: Seq<Seq<char>>)
    ensures
        forall|x: Seq<char>| #[trigger] distinct(s).contains(x) <==> s.contains(x),
{
    let key = |t: Seq<char>| seq![t];
    crate::order::lemma_sort_members(
        s,
        |a: Seq<char>, b: Seq<char>| texts_le(key(a), key(b)),
    );
    lemma_deduped_members(sorted_by(s, key));
}

proof fn lemma_deduped_once(s: Seq<Seq<char>>)
    requires
        forall|i: int, j: int| 0 <= i < j < s.len() ==> lex_le(#[trigger] s[i], #[trigger] s[j]),
    ensures
        deduped(s).no_duplicates(),
        forall|i: int, j: int|
            0 <= i < j < deduped(s).len() ==> lex_le(
                #[trigger] deduped(s)[i],
                #[trigger] deduped(s)[j],
            ),
    decreases s.len(),
{
    if s.len() > 0 {
        let d = s.drop_last();
        let x = s.last();
        assert forall|i: int, j: int| 0 <= i < j < d.len() implies lex_le(
            #[trigger] d[i],
            #[trigger] d[j],
        ) by {
            assert(lex_le(s[i], s[j]));
        }
        lemma_deduped_once(d);
        lemma_deduped_members(d);
        let p = deduped(d);
        assert forall|i: int| 0 <= i < p.len() implies lex_le(#[trigger] p[i], x) by {
            assert(p.contains(p[i]));
            let m = choose|m: int| 0 <= m < d.len() && d[m] == p[i];
            assert(lex_le(s[m], s[s.len() - 1]));
        }
        if !(s.len() > 1 && s[s.len() - 2] == x) {
            assert(!p.contains(x)) by {
                if p.contains(x) {
                    assert(d.contains(x));
                    let m = choose|m: int| 0 <= m < d.len() && d[m] == x;
                    let l = d.len() - 1;
                    if m < l {
                        assert(lex_le(s[m], s[l]));
                    }
                    assert(lex_le(s[l], s[s.len() - 1]));
                    lemma_lex(s[l], x, x);
                }
            }
        }
    }
}

/// The distinct values of a list stand in order, each once.
pub proof fn lemma_distinct_once(s: Seq<Seq<char>>)
    ensures
        distinct(s).no_duplicates(),
        forall|i: int, j: int|
            0 <= i < j < distinct(s).len() ==> lex_le(
                #[trigger] distinct(s)[i],
                #[trigger] distinct(s)[j],
            ),
{
    let key = |t: Seq<char>| seq![t];
    let le = |a: Seq<char>, b: Seq<char>| texts_le(key(a), key(b));
    assert forall|a: Seq<char>, b: Seq<char>| #[trigger] le(a, b) || le(b, a) by {
        lemma_single_text(a, b);
        lemma_single_text(b, a);
        lemma_lex(a, b, a);
    }
    assert forall|a: Seq<char>, b: Seq<char>, c: Seq<char>| #[trigger]
        le(a, b) && #[trigger] le(b, c) implies le(a, c) by {
        lemma_single_text(a, b);
        lemma_single_text(b, c);
        lemma_single_text(a, c);
        lemma_lex(a, b, c);
    }
    crate::order::lemma_sort_in_order(s, le);
    let sorted = sorted_by(s, key);
    assert forall|i: int, j: int| 0 <= i < j < sorted.len() implies lex_le(
        #[trigger] sorted[i],
        #[trigger] sorted[j],
    ) by {
        assert(le(sorted[i], sorted[j]));
        lemma_single_text(sorted[i], sorted[j]);
    }
    lemma_deduped_once(sorted);
}

/// The values of a list of texts, each once, in order.
pub(crate) fn distinct_texts(all: &Vec<String>) -> (r: Vec<String>)
    ensures
        texts(r@) == distinct(texts(all@)),
{
    let key = |h: &String| -> (k: Vec<String>)
        ensures
            texts(k@) == seq![h@],
        {
            let mut k: Vec<String> = Vec::new();
            k.push(h.clone());
            assert(texts(k@) =~= seq![h@]);
            k
        };
    let at: Vec<usize> = sort_by(all, key, Ghost(|t: Seq<char>| seq![t]));
    assert(models(all@) =~= texts(all@));
    let ghost sorted = picked(models(all@), ints(at@));
    let mut out: Vec<String> = Vec::new();
    let mut m: usize = 0;
    assert(texts(out@) =~= deduped(sorted.take(0)));
    while m < at.len()
        invariant
            m <= at@.len(),
            sorted == picked(models(all@), ints(at@)),
            forall|i: int| 0 <= i < at@.len() ==> #[trigger] at@[i] < all@.len(),
            texts(out@) == deduped(sorted.take(m as int)),
        decreases at.len() - m,
    {
        assert(at@[m as int] < all@.len());
        assert(sorted.take(m + 1).drop_last() =~= sorted.take(m as int));
        let repeated: bool = if m > 0 {
            assert(at@[m - 1] < all@.len());
            crate::text::same(all[at[m - 1]].as_str(), all[at[m]].as_str())
        } else {
            false
        };
        if !repeated {
            let ghost before = texts(out@);
            out.push(all[at[m]].clone());
            assert(texts(out@) =~= before.push(sorted[m as int]));
        }
        m += 1;
    }
    assert(sorted.take(m as int) =~= sorted);
    out
}

/// Removes the rows that do not meet a condition, and says how many they were.
pub(crate) fn retain<T: View>(
    v: &mut Vec<T>,
    keep: impl Fn(&T) -> bool,
    Ghost(p): Ghost<spec_fn(T::V) -> bool>,
) -> (gone: usize)
    requires
        forall|x: &T| #[trigger] call_requires(keep, (x,)),
        forall|x: &T, r: bool| #[trigger] call_ensures(keep, (x,), r) ==> r == p(x@),
    ensures
        models(final(v)@) == models(old(v)@).filter(p),
        gone == old(v)@.len() - models(old(v)@).filter(p).len(),
{
    let ghost all = models(v@);
    let total: usize = v.len();
    let mut i: usize = 0;
    let mut seen: usize = 0;
    proof {
        reveal(Seq::filter);
    }
    assert(all.take(0).filter(p) =~= models(v@).take(0));
    assert(models(v@).skip(0) =~= all.skip(0));
    while i < v.len()
        invariant
            seen <= total == all.len(),
            i <= v@.len(),
            seen - i == total - v@.len(),
            all == models(old(v)@),
            forall|x: &T| #[trigger] call_requires(keep, (x,)),
            forall|x: &T, r: bool| #[trigger] call_ensures(keep, (x,), r) ==> r == p(x@),
            models(v@).take(i as int) == all.take(seen as int).filter(p),
            models(v@).skip(i as int) == all.skip(seen as int),
        decreases total - seen,
    {
        let ghost before = models(v@);
        proof {
            reveal(Seq::filter);
        }
        assert(all.skip(seen as int)[0] == before.skip(i as int)[0]);
        assert(all.take(seen + 1).drop_last() =~= all.take(seen as int));
        assert(before.skip(i as int).skip(1) =~= before.skip(i + 1));
        assert(all.skip(seen as int).skip(1) =~= all.skip(seen + 1));
        if keep(&v[i]) {
            assert(before.take(i + 1) =~= before.take(i as int).push(before[i as int]));
            i += 1;
        } else {
            let _x: T = v.remove(i);
            assert(models(v@) =~= before.take(i as int) + before.skip(i + 1));
            assert(models(v@).take(i as int) =~= before.take(i as int));
            assert(models(v@).skip(i as int) =~= before.skip(i + 1));
        }
        seen += 1;
    }
    assert(all.take(seen as int) =~= all);
    assert(models(v@).take(i as int) =~= models(v@));
    total - v.len()
}

/// Whether some row meets a condition.
pub(crate) fn any<T: View>(
    v: &Vec<T>,
    meets: impl Fn(&T) -> bool,
    Ghost(p): Ghost<spec_fn(T::V) -> bool>,
) -> (r: bool)
    requires
        forall|x: &T| #[trigger] call_requires(meets, (x,)),
        forall|x: &T, r: bool| #[trigger] call_ensures(meets, (x,), r) ==> r == p(x@),
    ensures
        r == some_match(models(v@), p),
{
    let mut i: usize = 0;
    while i < v.len()
        invariant
            i <= v@.len(),
            forall|x: &T| #[trigger] call_requires(meets, (x,)),
            forall|x: &T, r: bool| #[trigger] call_ensures(meets, (x,), r) ==> r == p(x@),
            forall|j: int| 0 <= j < i ==> !p(#[trigger] models(v@)[j]),
        decreases v.len() - i,
    {
        if meets(&v[i]) {
            assert(p(models(v@)[i as int]));
            return true;
        }
        assert(!p(models(v@)[i as int]));
        i += 1;
    }
    false
}

/// The first element of `s` that meets `p`.
pub open spec fn first_match<V>(s: Seq<V>, p: spec_fn(V) -> bool) -> Option<V>
    decreases s.len(),
{
    if s.len() == 0 {
        None
    } else if p(s[0]) {
        Some(s[0])
    } else {
        first_match(s.skip(1), p)
    }
}

/// Whether some element of `s` meets `p`.
pub open spec fn some_match<V>(s: Seq<V>, p: spec_fn(V) -> bool) -> bool {
    exists|i: int| 0 <= i < s.len() && p(#[trigger] s[i])
}

/// The first match is an element that meets the condition, and is there where one is.
pub proof fn lemma_first_match<V>(s: Seq<V>, p: spec_fn(V) -> bool)
    ensures
        match first_match(s, p) {
            Some(x) => p(x) && s.contains(x) && some_match(s, p),
            None => forall|i: int| 0 <= i < s.len() ==> !p(#[trigger] s[i]),
        },
    decreases s.len(),
{
    if s.len() > 0 && !p(s[0]) {
        lemma_first_match(s.skip(1), p);
        match first_match(s.skip(1), p) {
            Some(x) => {
                let i = choose|i: int| 0 <= i < s.skip(1).len() && s.skip(1)[i] == x;
                assert(s[i + 1] == x);
            },
            None => {
                assert forall|i: int| 0 <= i < s.len() implies !p(#[trigger] s[i]) by {
                    if i > 0 {
                        assert(s[i] == s.skip(1)[i - 1]);
                    }
                }
            },
        }
    } else if s.len() > 0 {
        assert(s.contains(s[0]));
    }
}

/// The position of the first row that meets a condition.
pub(crate) fn find_row<T: View>(
    v: &Vec<T>,
    meets: impl Fn(&T) -> bool,
    Ghost(p): Ghost<spec_fn(T::V) -> bool>,
) -> (r: Option<usize>)
    requires
        forall|x: &T| #[trigger] call_requires(meets, (x,)),
        forall|x: &T, r: bool| #[trigger] call_ensures(meets, (x,), r) ==> r == p(x@),
    ensures
        match r {
            Some(i) => i < v@.len() && first_match(models(v@), p) == Some(v@[i as int]@) && p(
                v@[i as int]@,
            ) && some_match(models(v@), p),
            None => first_match(models(v@), p) is None && !some_match(models(v@), p),
        },
{
    let ghost s = models(v@);
    proof {
        lemma_first_match(s, p);
    }
    let mut i: usize = 0;
    assert(s.skip(0) =~= s);
    while i < v.len()
        invariant
            i <= v@.len(),
            s == models(v@),
            forall|x: &T| #[trigger] call_requires(meets, (x,)),
            forall|x: &T, r: bool| #[trigger] call_ensures(meets, (x,), r) ==> r == p(x@),
            first_match(s, p) == first_match(s.skip(i as int), p),
        decreases v.len() - i,
    {
        assert(s.skip(i as int).skip(1) =~= s.skip(i + 1));
        if meets(&v[i]) {
            assert(p(s[i as int]));
            return Some(i);
        }
        i += 1;
    }
    None
}

/// What `f` makes of the rows at some positions.
pub(crate) fn map_at<T: View, R: View>(
    v: &Vec<T>,
    at: &Vec<usize>,
    f: impl Fn(&T) -> R,
    Ghost(g): Ghost<spec_fn(T::V) -> R::V>,
) -> (r: Vec<R>)
    requires
        forall|i: int| 0 <= i < at@.len() ==> #[trigger] at@[i] < v@.len(),
        forall|x: &T| #[trigger] call_requires(f, (x,)),
        forall|x: &T, y: R| #[trigger] call_ensures(f, (x,), y) ==> y@ == g(x@),
    ensures
        models(r@) == picked(models(v@), ints(at@)).map_values(g),
{
    let ghost all = picked(models(v@), ints(at@)).map_values(g);
    let mut r: Vec<R> = Vec::new();
    let mut i: usize = 0;
    while i < at.len()
        invariant
            i <= at@.len(),
            forall|i: int| 0 <= i < at@.len() ==> #[trigger] at@[i] < v@.len(),
            forall|x: &T| #[trigger] call_requires(f, (x,)),
            forall|x: &T, y: R| #[trigger] call_ensures(f, (x,), y) ==> y@ == g(x@),
            all == picked(models(v@), ints(at@)).map_values(g),
            models(r@) == all.take(i as int),
        decreases at.len() - i,
    {
        broadcast use crate::types::lemma_models_push;

        assert(at@[i as int] < v@.len());
        r.push(f(&v[at[i]]));
        assert(models(r@) =~= all.take(i + 1));
        i += 1;
    }
    assert(models(r@) =~= all);
    r
}

/// What `f` makes of every row.
pub(crate) fn map_rows<T: View, R: View>(
    v: &Vec<T>,
    f: impl Fn(&T) -> R,
    Ghost(g): Ghost<spec_fn(T::V) -> R::V>,
) -> (r: Vec<R>)
    requires
        forall|x: &T| #[trigger] call_requires(f, (x,)),
        forall|x: &T, y: R| #[trigger] call_ensures(f, (x,), y) ==> y@ == g(x@),
    ensures
        models(r@) == models(v@).map_values(g),
{
    let ghost all = models(v@).map_values(g);
    let mut r: Vec<R> = Vec::new();
    let mut i: usize = 0;
    while i < v.len()
        invariant
            i <= v@.len(),
            forall|x: &T| #[trigger] call_requires(f, (x,)),
            forall|x: &T, y: R| #[trigger] call_ensures(f, (x,), y) ==> y@ == g(x@),
            all == models(v@).map_values(g),
            models(r@) == all.take(i as int),
        decreases v.len() - i,
    {
        broadcast use crate::types::lemma_models_push;

        r.push(f(&v[i]));
        assert(models(r@) =~= all.take(i + 1));
        i += 1;
    }
    assert(models(r@) =~= all);
    r
}

/// How many rows meet a condition.
pub(crate) fn count_rows<T: View>(
    v: &Vec<T>,
    meets: impl Fn(&T) -> bool,
    Ghost(p): Ghost<spec_fn(T::V) -> bool>,
) -> (n: usize)
    requires
        forall|x: &T| #[trigger] call_requires(meets, (x,)),
        forall|x: &T, r: bool| #[trigger] call_ensures(meets, (x,), r) ==> r == p(x@),
    ensures
        n == models(v@).filter(p).len(),
        n <= v@.len(),
{
    let at: Vec<usize> = select(v, meets, Ghost(p));
    proof {
        lemma_positions(models(v@), p);
        models(v@).lemma_filter_len(p);
    }
    at.len()
}

/// A count as a signed number, held to the largest one there is.
pub open spec fn count_of(n: int) -> i64 {
    if n <= i64::MAX {
        n as i64
    } else {
        i64::MAX
    }
}

/// A count as a signed number, held to the largest one there is.
pub fn as_count(n: usize) -> (r: i64)
    ensures
        r == count_of(n as int),
{
    if n as u128 <= i64::MAX as u128 {
        n as i64
    } else {
        i64::MAX
    }
}

/// A key that orders the other way round.
pub open spec fn reversed_key(n: i64) -> i64 {
    (-1 - n) as i64
}

/// Two orders that agree put the elements in the same places.
pub proof fn lemma_sort_ext<V>(s: Seq<V>, p: spec_fn(V, V) -> bool, q: spec_fn(V, V) -> bool)
    requires
        forall|a: V, b: V| #[trigger] p(a, b) == q(a, b),
    ensures
        stable_sort(s, p) == stable_sort(s, q),
{
    crate::order::lemma_sort_map(s, |x: V| x, p, q);
    assert(s.map_values(|x: V| x) =~= s);
    assert(stable_sort(s, p).map_values(|x: V| x) =~= stable_sort(s, p));
}

/// A listing gives no more rows than there are.
pub proof fn lemma_listed_len<V>(s: Seq<V>, p: spec_fn(V) -> bool, key: spec_fn(V) -> (i64, i64))
    ensures
        listed(s, p, key).len() == s.filter(p).len(),
        listed(s, p, key).len() <= s.len(),
{
    crate::order::lemma_sort_members(
        s.filter(p),
        |a: V, b: V| pair_desc(key(a), key(b)),
    );
    s.lemma_filter_len(p);
}

/// Puts what `f` makes of each row in its place.
pub(crate) fn rewrite<T: View>(
    v: &mut Vec<T>,
    f: impl Fn(T) -> T,
    Ghost(g): Ghost<spec_fn(T::V) -> T::V>,
)
    requires
        forall|x: T| #[trigger] call_requires(f, (x,)),
        forall|x: T, y: T| #[trigger] call_ensures(f, (x,), y) ==> y@ == g(x@),
    ensures
        models(final(v)@) == models(old(v)@).map_values(g),
{
    let ghost all = v@;
    let mut rest: Vec<T> = Vec::new();
    std::mem::swap(v, &mut rest);
    for x in it: rest
        invariant
            it.seq() == all,
            forall|x: T| #[trigger] call_requires(f, (x,)),
            forall|x: T, y: T| #[trigger] call_ensures(f, (x,), y) ==> y@ == g(x@),
            v@.len() == it.index(),
            forall|j: int| 0 <= j < it.index() ==> #[trigger] v@[j]@ == g(all[j]@),
    {
        v.push(f(x));
    }
    assert(models(v@) =~= models(all).map_values(g));
}

} // verus!
