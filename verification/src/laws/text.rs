//! Numbers, lines and words as texts.
use vstd::prelude::*;

use crate::text::{all_digits, begins, behind, decimal, digits, digits_value, ends, first_chars};
use crate::text::{has, is_digit, is_white, joined, lead, lemma_lead, lemma_trail, lex_le, lines};
use crate::text::{lower, parsed, pieces, stands_at, trail, trim, trim_start, until, words};

verus! {

/// A number that was written is read back, with or without a sign.
pub proof fn numbers_are_read_as_written(n: int)
    ensures
        parsed(decimal(n)) == Some(n),
        n >= 0 ==> parsed(seq!['+'] + decimal(n)) == Some(n),
        n >= 0 ==> all_digits(decimal(n)),
        n < 0 ==> decimal(n)[0] == '-',
{
    let m: nat = if n < 0 {
        (-n) as nat
    } else {
        n as nat
    };
    lemma_digits_read(m);
    let d = digits(m);
    assert((seq!['-'] + d).skip(1) =~= d);
    assert((seq!['+'] + d).skip(1) =~= d);
    assert(is_digit(d[0]));
}

proof fn lemma_digits_read(n: nat)
    ensures
        all_digits(digits(n)),
        digits_value(digits(n)) == n,
    decreases n,
{
    reveal_with_fuel(digits_value, 2);
    if n >= 10 {
        lemma_digits_read(n / 10);
        let d = digits(n);
        let h = digits(n / 10);
        assert(d.drop_last() =~= h);
        assert forall|i: int| 0 <= i < d.len() implies is_digit(#[trigger] d[i]) by {
            if i < h.len() {
                assert(d[i] == h[i]);
            }
        }
    } else {
        assert(digits(n).drop_last() =~= seq![]);
    }
}

/// A number below ten is one digit, and each digit more is ten times as much.
pub proof fn numbers_are_decimal(n: nat, c: nat)
    requires
        c < 10,
    ensures
        n > 0 ==> decimal(10 * n as int + c) == decimal(n as int) + decimal(c as int),
        decimal(0) == "0"@,
        decimal(1) == "1"@,
        decimal(2) == "2"@,
        decimal(9) == "9"@,
{
    assert((10 * n + c) / 10 == n && (10 * n + c) % 10 == c);
    assert(digits(n).push(crate::text::digit(c as int)) =~= digits(n) + digits(c));
    reveal_strlit("0");
    reveal_strlit("1");
    reveal_strlit("2");
    reveal_strlit("9");
    assert(decimal(0) =~= "0"@);
    assert(decimal(1) =~= "1"@);
    assert(decimal(2) =~= "2"@);
    assert(decimal(9) =~= "9"@);
}

/// What is trimmed off a text is white, and what stays begins and ends with what is not.
pub proof fn only_white_is_trimmed(s: Seq<char>)
    ensures
        ({
            let t = trim(s);
            let n = lead(s) as int;
            &&& n + t.len() <= s.len()
            &&& t == s.subrange(n, n + t.len())
            &&& forall|i: int| 0 <= i < n ==> is_white(#[trigger] s[i])
            &&& forall|i: int| n + t.len() <= i < s.len() ==> is_white(#[trigger] s[i])
            &&& t.len() > 0 ==> !is_white(t[0]) && !is_white(t.last())
            &&& (forall|i: int| 0 <= i < s.len() ==> is_white(#[trigger] s[i])) ==> t.len() == 0
        }),
{
    lemma_lead(s);
    let u = trim_start(s);
    lemma_trail(u);
    lemma_white_end(u);
    let t = trim(s);
    let n = lead(s) as int;
    assert(t =~= s.subrange(n, n + t.len()));
    assert forall|i: int| n + t.len() <= i < s.len() implies is_white(#[trigger] s[i]) by {
        assert(u[i - n] == s[i]);
    }
    if t.len() > 0 {
        assert(t[0] == s[n]);
        assert(t.last() == u[u.len() - 1 - trail(u)]);
    }
}

proof fn lemma_white_end(s: Seq<char>)
    ensures
        trail(s) <= s.len(),
        forall|i: int| s.len() - trail(s) <= i < s.len() ==> is_white(#[trigger] s[i]),
    decreases s.len(),
{
    if s.len() > 0 && is_white(s.last()) {
        lemma_white_end(s.drop_last());
        assert forall|i: int| s.len() - trail(s) <= i < s.len() implies is_white(
            #[trigger] s[i],
        ) by {
            if i < s.len() - 1 {
                assert(s.drop_last()[i] == s[i]);
            }
        }
    }
}

/// A line ends at its line feed, a carriage return before it taken off; the rest follows.
pub proof fn lines_end_at_line_feeds(a: Seq<char>, b: Seq<char>)
    requires
        forall|i: int| 0 <= i < a.len() ==> #[trigger] a[i] != '\n',
    ensures
        a.len() == 0 || a.last() != '\r' ==> lines(a + seq!['\n'] + b) == seq![a] + lines(b),
        lines(a + seq!['\r', '\n'] + b) == seq![a] + lines(b),
        a.len() > 0 ==> lines(a) == seq![a],
{
    lemma_until_there(a, seq!['\n'] + b, '\n');
    assert(a + seq!['\n'] + b =~= a + (seq!['\n'] + b));
    assert((a + seq!['\n'] + b).take(a.len() as int) =~= a);
    assert((a + seq!['\n'] + b).skip(a.len() as int + 1) =~= b);
    let c = a.push('\r');
    assert forall|i: int| 0 <= i < c.len() implies #[trigger] c[i] != '\n' by {
        if i < a.len() {
            assert(c[i] == a[i]);
        }
    }
    lemma_until_there(c, seq!['\n'] + b, '\n');
    assert(a + seq!['\r', '\n'] + b =~= c + (seq!['\n'] + b));
    assert((a + seq!['\r', '\n'] + b).take(c.len() as int) =~= c);
    assert((a + seq!['\r', '\n'] + b).skip(c.len() as int + 1) =~= b);
    assert(c.drop_last() =~= a);
    lemma_until_there(a, seq![], '\n');
    assert(a + seq![] =~= a);
}

/// A piece ends at the separator; the rest follows.
pub proof fn pieces_end_at_separators(a: Seq<char>, b: Seq<char>, c: char)
    requires
        forall|i: int| 0 <= i < a.len() ==> #[trigger] a[i] != c,
    ensures
        pieces(a + seq![c] + b, c) == seq![a] + pieces(b, c),
        pieces(a, c) == seq![a],
{
    lemma_until_there(a, seq![c] + b, c);
    assert(a + seq![c] + b =~= a + (seq![c] + b));
    assert((a + seq![c] + b).take(a.len() as int) =~= a);
    assert((a + seq![c] + b).skip(a.len() as int + 1) =~= b);
    lemma_until_there(a, seq![], c);
    assert(a + seq![] =~= a);
}

pub proof fn lemma_until_there(a: Seq<char>, b: Seq<char>, c: char)
    requires
        forall|i: int| 0 <= i < a.len() ==> #[trigger] a[i] != c,
        b.len() == 0 || b[0] == c,
    ensures
        until(a + b, c) == a.len(),
    decreases a.len(),
{
    if a.len() > 0 {
        assert(a[0] != c);
        assert((a + b).skip(1) =~= a.skip(1) + b);
        assert forall|i: int| 0 <= i < a.skip(1).len() implies #[trigger] a.skip(1)[i] != c by {
            assert(a[i + 1] != c);
        }
        lemma_until_there(a.skip(1), b, c);
    } else {
        assert(a + b =~= b);
    }
}

/// Texts are joined in order, with the separator between every two of them.
pub proof fn joined_texts_stand_in_order(parts: Seq<Seq<char>>, sep: Seq<char>, last: Seq<char>)
    ensures
        joined(seq![], sep) == Seq::<char>::empty(),
        joined(seq![last], sep) == last,
        parts.len() > 0 ==> joined(parts.push(last), sep) == joined(parts, sep) + sep + last,
{
    assert(parts.push(last).drop_last() =~= parts);
}

/// Lowering a text changes its capital letters and nothing else, and once is enough.
pub proof fn only_capitals_are_lowered(s: Seq<char>)
    ensures
        lower(s).len() == s.len(),
        lower(lower(s)) == lower(s),
        forall|i: int|
            0 <= i < s.len() ==> if 'A' <= s[i] && s[i] <= 'Z' {
                (#[trigger] lower(s)[i]) as int == s[i] as int + 32
            } else {
                lower(s)[i] == s[i]
            },
{
    assert(lower(lower(s)) =~= lower(s));
}

/// Words are parted by white.
pub proof fn words_are_parted_by_white(a: Seq<char>, c: char, b: Seq<char>)
    requires
        a.len() > 0,
        forall|i: int| 0 <= i < a.len() ==> !is_white(#[trigger] a[i]),
        is_white(c),
    ensures
        words(a + seq![c] + b) == seq![a] + words(b),
        words(a) == seq![a],
        words(seq![c] + b) == words(b),
        words(seq![]).len() == 0,
{
    let s = a + seq![c] + b;
    let rest = seq![c] + b;
    assert(s =~= a + rest);
    crate::laws::legacy::lemma_first_word(a, rest);
    assert(s[0] == a[0]);
    assert(!is_white(a[0]));
    assert(lead(s) == 0);
    assert(trim_start(s) =~= s);
    crate::laws::legacy::lemma_word_len(a, rest);
    assert(s.take(a.len() as int) =~= a);
    assert(s.skip(a.len() as int) =~= rest);
    assert(rest.skip(1) =~= b);
    assert(lead(rest) == 1 + lead(b));
    lemma_lead(b);
    assert(trim_start(rest) =~= trim_start(b));
    assert(words(rest) == words(b)) by {
        reveal_with_fuel(words, 2);
    }
    assert(trim_start(s).take(a.len() as int) == a);
    assert(trim_start(s).skip(a.len() as int) == rest);
    assert(words(s) == seq![a] + words(rest)) by {
        reveal_with_fuel(words, 2);
    }
    let e = Seq::<char>::empty();
    assert(a + e =~= a);
    assert(lead(a) == 0);
    assert(trim_start(a) =~= a);
    crate::laws::legacy::lemma_word_len(a, e);
    assert(a.take(a.len() as int) =~= a);
    assert(a.skip(a.len() as int) =~= e);
    assert(words(e) =~= seq![]);
    assert(seq![a] + words(e) =~= seq![a]);
}

/// Texts are ordered by their first difference, and the beginning of a text comes before it.
pub proof fn texts_are_ordered_by_difference(
    p: Seq<char>,
    c: char,
    d: char,
    x: Seq<char>,
    y: Seq<char>,
)
    requires
        c < d,
    ensures
        lex_le(p + seq![c] + x, p + seq![d] + y),
        !lex_le(p + seq![d] + y, p + seq![c] + x),
        lex_le(p, p + x),
    decreases p.len(),
{
    let a = p + seq![c] + x;
    let b = p + seq![d] + y;
    if p.len() > 0 {
        texts_are_ordered_by_difference(p.skip(1), c, d, x, y);
        assert(a.skip(1) =~= p.skip(1) + seq![c] + x);
        assert(b.skip(1) =~= p.skip(1) + seq![d] + y);
        assert((p + x).skip(1) =~= p.skip(1) + x);
        assert(a[0] == b[0] && (p + x)[0] == p[0]);
    } else {
        assert(a[0] == c && b[0] == d);
    }
}

/// The first characters of a text are all of it where it has no more.
pub proof fn first_characters_are_taken(s: Seq<char>, n: nat)
    ensures
        s.len() <= n ==> first_chars(s, n as int) == s,
        s.len() > n ==> first_chars(s, n as int) == s.take(n as int),
{
}

/// A text holds another where it stands in it, and begins or ends with it where it stands
/// there.
pub proof fn texts_hold_what_stands_in_them(a: Seq<char>, p: Seq<char>, b: Seq<char>)
    ensures
        has(a + p + b, p),
        begins(p + b, p),
        ends(a + p, p),
        behind(p + b, p) == Some(b),
{
    assert((a + p + b).subrange(a.len() as int, a.len() as int + p.len()) =~= p);
    assert(stands_at(a + p + b, p, a.len() as int));
    assert((p + b).subrange(0, p.len() as int) =~= p);
    assert((p + b).skip(p.len() as int) =~= b);
    assert((a + p).subrange(a.len() as int, a.len() as int + p.len()) =~= p);
}

} // verus!
