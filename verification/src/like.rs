//! The `LIKE` operator of SQL: `%` stands for any text, `_` for any one character, and
//! every other character for itself, ASCII capitals aside. A pattern may be of any length,
//! and a zero character ends neither it nor a text.
use vstd::prelude::*;

use crate::text::{ascii_lower_char, chars, has, lower, lower_char, stands_at};

verus! {

/// Whether the text `t` is like the pattern `p`.
pub open spec fn like(t: Seq<char>, p: Seq<char>) -> bool
    decreases p.len(), t.len(),
{
    if p.len() == 0 {
        t.len() == 0
    } else if p[0] == '%' {
        like(t, p.skip(1)) || (t.len() > 0 && like(t.skip(1), p))
    } else if t.len() == 0 {
        false
    } else {
        (p[0] == '_' || lower_char(p[0]) == lower_char(t[0])) && like(t.skip(1), p.skip(1))
    }
}

/// Whether a text is like a pattern.
pub fn is_like(text: &str, pattern: &str) -> (r: bool)
    ensures
        r == like(text@, pattern@),
{
    let t: Vec<char> = chars(text);
    let p: Vec<char> = chars(pattern);
    let n: usize = t.len();
    // The row for the empty pattern: only the empty text is like it.
    let mut row: Vec<bool> = Vec::new();
    let mut j: usize = 0;
    while j < n
        invariant
            j <= n == t@.len(),
            row@.len() == j,
            forall|m: int| 0 <= m < j ==> !#[trigger] row@[m],
        decreases n - j,
    {
        row.push(false);
        j += 1;
    }
    row.push(true);
    let mut i: usize = p.len();
    assert forall|m: int| 0 <= m <= n implies #[trigger] row@[m] == like(
        t@.skip(m),
        p@.skip(i as int),
    ) by {
        assert(p@.skip(i as int).len() == 0);
        assert(t@.skip(m).len() == n - m);
    }
    while i > 0
        invariant
            i <= p@.len(),
            n == t@.len(),
            n == t.len(),
            row@.len() == n + 1,
            forall|m: int|
                0 <= m <= n ==> #[trigger] row@[m] == like(t@.skip(m), p@.skip(i as int)),
        decreases i,
    {
        i -= 1;
        let c: char = p[i];
        let ghost rest = p@.skip(i as int);
        assert(rest[0] == c);
        assert(rest.skip(1) =~= p@.skip(i + 1));
        let mut k: usize = row.len();
        let mut next: Vec<bool> = row.clone();
        assert(next@ =~= row@);
        while k > 0
            invariant
                k <= n + 1,
                n == t@.len(),
                row@.len() == n + 1,
                next@.len() == n + 1,
                rest.len() > 0,
                rest[0] == c,
                rest.skip(1) == p@.skip(i + 1),
                forall|m: int|
                    0 <= m <= n ==> #[trigger] row@[m] == like(t@.skip(m), rest.skip(1)),
                forall|m: int| k <= m <= n ==> #[trigger] next@[m] == like(t@.skip(m), rest),
            decreases k,
        {
            k -= 1;
            let ghost tail = t@.skip(k as int);
            assert(row@[k as int] == like(tail, rest.skip(1)));
            if k < n {
                assert(tail.skip(1) =~= t@.skip(k + 1));
                assert(tail[0] == t@[k as int]);
                assert(row@[k + 1] == like(t@.skip(k + 1), rest.skip(1)));
                assert(next@[k + 1] == like(t@.skip(k + 1), rest));
            } else {
                assert(tail.len() == 0);
            }
            let b: bool = if c == '%' {
                row[k] || (k < n && next[k + 1])
            } else {
                k < n && (c == '_' || ascii_lower_char(c) == ascii_lower_char(t[k])) && row[k + 1]
            };
            next.set(k, b);
        }
        row = next;
    }
    assert(t@.skip(0) =~= t@);
    assert(p@.skip(0) =~= p@);
    row[0]
}

/// A text without wild cards stands in another, capitals aside, if and only if that is
/// like it with `%` at both ends.
pub proof fn like_is_containment(t: Seq<char>, word: Seq<char>)
    requires
        forall|i: int| 0 <= i < word.len() ==> #[trigger] word[i] != '%' && word[i] != '_',
    ensures
        like(t, seq!['%'] + word + seq!['%']) <==> has(lower(t), lower(word)),
    decreases t.len(),
{
    let p = seq!['%'] + word + seq!['%'];
    let q = word + seq!['%'];
    assert(p.skip(1) =~= q);
    lemma_prefix_like(t, word);
    if like(t, q) {
        assert(stands_at(lower(t), lower(word), 0));
    }
    if t.len() > 0 {
        like_is_containment(t.skip(1), word);
        assert(lower(t.skip(1)) =~= lower(t).skip(1));
        if has(lower(t.skip(1)), lower(word)) {
            let i = choose|i: int| stands_at(lower(t.skip(1)), lower(word), i);
            assert(lower(t).skip(1).subrange(i, i + word.len()) =~= lower(t).subrange(
                i + 1,
                i + 1 + word.len(),
            ));
            assert(stands_at(lower(t), lower(word), i + 1));
        }
        if has(lower(t), lower(word)) {
            let i = choose|i: int| stands_at(lower(t), lower(word), i);
            if i > 0 {
                assert(lower(t).skip(1).subrange(i - 1, i - 1 + word.len()) =~= lower(t).subrange(
                    i,
                    i + word.len(),
                ));
                assert(stands_at(lower(t.skip(1)), lower(word), i - 1));
            }
        }
    } else {
        if has(lower(t), lower(word)) {
            let i = choose|i: int| stands_at(lower(t), lower(word), i);
            assert(i == 0);
        }
    }
}

proof fn lemma_rest_like(t: Seq<char>)
    ensures
        like(t, seq!['%']),
    decreases t.len(),
{
    let p = seq!['%'];
    reveal_with_fuel(like, 2);
    assert(p.skip(1).len() == 0);
    if t.len() > 0 {
        lemma_rest_like(t.skip(1));
    }
}

proof fn lemma_prefix_like(t: Seq<char>, word: Seq<char>)
    requires
        forall|i: int| 0 <= i < word.len() ==> #[trigger] word[i] != '%' && word[i] != '_',
    ensures
        like(t, word + seq!['%']) <==> stands_at(lower(t), lower(word), 0),
    decreases word.len(),
{
    let q = word + seq!['%'];
    if word.len() == 0 {
        assert(q =~= seq!['%']);
        lemma_rest_like(t);
        assert(lower(t).subrange(0, 0) =~= lower(word));
    } else {
        assert(q[0] == word[0]);
        assert(q.skip(1) =~= word.skip(1) + seq!['%']);
        if t.len() == 0 {
            assert(lower(t).len() == 0);
        } else {
            assert forall|i: int| 0 <= i < word.skip(1).len() implies #[trigger] word.skip(1)[i]
                != '%' && word.skip(1)[i] != '_' by {
                assert(word.skip(1)[i] == word[i + 1]);
            }
            lemma_prefix_like(t.skip(1), word.skip(1));
            let a = lower(t);
            let b = lower(word);
            assert(lower(t.skip(1)) =~= a.skip(1));
            assert(lower(word.skip(1)) =~= b.skip(1));
            if stands_at(a, b, 0) {
                assert(a[0] == a.subrange(0, b.len() as int)[0]);
                assert(a.skip(1).subrange(0, b.len() - 1) =~= a.subrange(0, b.len() as int).skip(
                    1,
                ));
            }
            if a[0] == b[0] && stands_at(a.skip(1), b.skip(1), 0) {
                assert forall|i: int| 0 <= i < b.len() implies a.subrange(0, b.len() as int)[i]
                    == b[i] by {
                    if i > 0 {
                        assert(b.skip(1)[i - 1] == a.skip(1).subrange(0, b.len() - 1)[i - 1]);
                    }
                }
                assert(a.subrange(0, b.len() as int) =~= b);
            }
        }
    }
}

} // verus!
