//! Bytes in hexadecimal notation.
use vstd::prelude::*;

use crate::json::hex_small;

verus! {

/// Some bytes in hexadecimal notation: two small digits for each.
pub open spec fn hex(bytes: Seq<u8>) -> Seq<char>
    decreases bytes.len(),
{
    if bytes.len() == 0 {
        seq![]
    } else {
        hex(bytes.drop_last()) + seq![
            hex_small(bytes.last() as int / 16),
            hex_small(bytes.last() as int % 16),
        ]
    }
}

fn hex_digit(n: u8) -> (c: char)
    requires
        n < 16,
    ensures
        c == hex_small(n as int),
{
    if n < 10 {
        (0x30u8 + n) as char
    } else {
        (0x61u8 + (n - 10)) as char
    }
}

/// Some bytes in hexadecimal notation.
pub fn hex_text(bytes: &Vec<u8>) -> (r: String)
    ensures
        r@ == hex(bytes@),
{
    let mut r: String = String::new();
    let mut i: usize = 0;
    assert(r@ =~= hex(bytes@.take(0)));
    while i < bytes.len()
        invariant
            i <= bytes@.len(),
            r@ == hex(bytes@.take(i as int)),
        decreases bytes.len() - i,
    {
        assert(bytes@.take(i + 1).drop_last() =~= bytes@.take(i as int));
        let ghost before = r@;
        r.push(hex_digit(bytes[i] / 16));
        r.push(hex_digit(bytes[i] % 16));
        assert(r@ =~= before + seq![
            hex_small(bytes@[i as int] as int / 16),
            hex_small(bytes@[i as int] as int % 16),
        ]);
        i += 1;
    }
    assert(bytes@.take(i as int) =~= bytes@);
    r
}

/// Whether a character is a small hexadecimal digit.
pub open spec fn is_hex_digit(c: char) -> bool {
    ('0' <= c && c <= '9') || ('a' <= c && c <= 'f')
}

/// The notation has two digits for each byte, and tells bytes apart.
pub proof fn hex_is_faithful(a: Seq<u8>, b: Seq<u8>)
    ensures
        hex(a).len() == 2 * a.len(),
        forall|i: int| 0 <= i < hex(a).len() ==> is_hex_digit(#[trigger] hex(a)[i]),
        hex(a) == hex(b) ==> a == b,
    decreases a.len() + b.len(),
{
    lemma_hex(a);
    lemma_hex(b);
    if hex(a) == hex(b) {
        assert(a.len() == b.len());
        if a.len() > 0 {
            let n = hex(a).len() as int;
            let x = a.last() as int;
            let y = b.last() as int;
            assert(hex(a)[n - 2] == hex_small(x / 16));
            assert(hex(b)[n - 2] == hex_small(y / 16));
            assert(hex(a)[n - 1] == hex_small(x % 16));
            assert(hex(b)[n - 1] == hex_small(y % 16));
            assert(hex(a).take(n - 2) =~= hex(a.drop_last()));
            assert(hex(b).take(n - 2) =~= hex(b.drop_last()));
            lemma_digit(x / 16, y / 16);
            lemma_digit(x % 16, y % 16);
            assert(x == y) by (nonlinear_arith)
                requires
                    x / 16 == y / 16,
                    x % 16 == y % 16,
            ;
            hex_is_faithful(a.drop_last(), b.drop_last());
            assert(a =~= a.drop_last().push(a.last()));
            assert(b =~= b.drop_last().push(b.last()));
        } else {
            assert(a =~= b);
        }
    }
}

proof fn lemma_digit(m: int, n: int)
    requires
        0 <= m < 16,
        0 <= n < 16,
        hex_small(m) == hex_small(n),
    ensures
        m == n,
{
}

proof fn lemma_hex(a: Seq<u8>)
    ensures
        hex(a).len() == 2 * a.len(),
        forall|i: int| 0 <= i < hex(a).len() ==> is_hex_digit(#[trigger] hex(a)[i]),
    decreases a.len(),
{
    if a.len() > 0 {
        lemma_hex(a.drop_last());
        let d = hex(a.drop_last());
        assert forall|i: int| 0 <= i < hex(a).len() implies is_hex_digit(#[trigger] hex(a)[i]) by {
            if i < d.len() {
                assert(hex(a)[i] == d[i]);
            }
        }
    }
}

} // verus!
