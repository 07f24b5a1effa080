//! Local embeddings: words hashed into a fixed number of buckets.
//!
//! An embedding is built of whole numbers here, one per bucket; scaling it to unit
//! length is left to the caller, which works in floating point.
use vstd::prelude::*;

use crate::text::{byte_len, bytes_in, chars, text_of, texts};
use crate::unicode::{alphanumeric, lowercase};

verus! {

/// The number of buckets of an embedding.
pub const EMBED_DIMS: usize = 384;

/// The weight beyond which a bucket does not grow: from here on a single-precision
/// number no longer tells one more from no more.
pub const WEIGHT_LIMIT: i64 = 0x100_0000;

/// The starting value of the hash.
pub const FNV_OFFSET: u64 = 0xcbf2_9ce4_8422_2325;

/// The factor of the hash.
pub const FNV_PRIME: u64 = 0x100_0000_01b3;

/// Embeds texts by signed feature hashing.
#[derive(Debug, Clone, Copy)]
pub struct HashingEmbedder {}

/// The 64-bit FNV-1a hash of some bytes.
pub open spec fn fnv(bytes: Seq<u8>) -> u64
    decreases bytes.len(),
{
    if bytes.len() == 0 {
        FNV_OFFSET
    } else {
        (((fnv(bytes.drop_last()) ^ (bytes.last() as u64)) as nat * FNV_PRIME as nat)
            % 0x1_0000_0000_0000_0000) as u64
    }
}

/// The 64-bit FNV-1a hash of some bytes.
pub fn fnv1a64(bytes: &[u8]) -> (h: u64)
    ensures
        h == fnv(bytes@),
{
    let mut h: u64 = FNV_OFFSET;
    let mut i: usize = 0;
    while i < bytes.len()
        invariant
            i <= bytes@.len(),
            h == fnv(bytes@.take(i as int)),
        decreases bytes.len() - i,
    {
        assert(bytes@.take(i + 1).drop_last() =~= bytes@.take(i as int));
        h = (h ^ (bytes[i] as u64)).wrapping_mul(FNV_PRIME);
        i += 1;
    }
    assert(bytes@.take(i as int) =~= bytes@);
    h
}

/// How many letters and numbers a text begins with.
pub open spec fn token_len(s: Seq<char>) -> nat
    decreases s.len(),
{
    if s.len() > 0 && alphanumeric(s[0]) {
        1 + token_len(s.skip(1))
    } else {
        0
    }
}

/// The tokens of a text: its longest runs of letters and numbers that take two bytes or
/// more, in lower case.
pub open spec fn tokens(s: Seq<char>) -> Seq<Seq<char>>
    decreases s.len(),
{
    if s.len() == 0 {
        seq![]
    } else if !alphanumeric(s[0]) {
        tokens(s.skip(1))
    } else {
        let n = token_len(s) as int;
        let rest = tokens(s.skip(if 0 < n <= s.len() { n } else { 1 }));
        if byte_len(s.take(n)) >= 2 {
            seq![lowercase(s.take(n))] + rest
        } else {
            rest
        }
    }
}

fn token_end(v: &Vec<char>, from: usize) -> (i: usize)
    requires
        from <= v@.len(),
    ensures
        from <= i <= v@.len(),
        i == from + token_len(v@.skip(from as int)),
{
    let mut i: usize = from;
    while i < v.len() && v[i].is_alphanumeric()
        invariant
            from <= i <= v@.len(),
            from + token_len(v@.skip(from as int)) == i + token_len(v@.skip(i as int)),
        decreases v.len() - i,
    {
        assert(v@.skip(i as int).skip(1) =~= v@.skip(i + 1));
        i += 1;
    }
    i
}

/// The tokens of a text, in order.
pub fn tokenize(text: &str) -> (r: Vec<String>)
    ensures
        texts(r@) == tokens(text@),
{
    let v: Vec<char> = chars(text);
    let mut out: Vec<String> = Vec::new();
    let mut i: usize = 0;
    assert(v@.skip(0) =~= v@);
    assert(texts(out@) + tokens(v@) =~= tokens(v@));
    while i < v.len()
        invariant
            i <= v@.len(),
            v@ == text@,
            texts(out@) + tokens(v@.skip(i as int)) == tokens(v@),
        decreases v.len() - i,
    {
        let ghost rest = v@.skip(i as int);
        if !v[i].is_alphanumeric() {
            assert(rest.skip(1) =~= v@.skip(i + 1));
            i += 1;
        } else {
            let j: usize = token_end(&v, i);
            assert(token_len(rest) == 1 + token_len(rest.skip(1)));
            let t: String = text_of(&v, i, j);
            assert(t@ =~= rest.take(j - i));
            assert(rest.skip(j - i) =~= v@.skip(j as int));
            let ghost before = texts(out@);
            if bytes_in(t.as_str()) >= 2 {
                let w: String = t.as_str().to_lowercase();
                out.push(w);
                assert(texts(out@) =~= before.push(w@));
                assert(texts(out@) + tokens(v@.skip(j as int)) =~= before + tokens(rest));
            }
            i = j;
        }
    }
    assert(v@.skip(i as int) =~= seq![]);
    assert(texts(out@) + tokens(v@.skip(i as int)) =~= texts(out@));
    out
}

/// The hash of the pair of neighbouring tokens with the hashes `p` and `h`.
pub open spec fn pair_hash(p: u64, h: u64) -> u64 {
    p ^ ((h << 13) | (h >> 51))
}

/// The features of a list of tokens, in order: the hash of each token, and behind it
/// that of the pair that it makes with the token before it.
pub open spec fn features(tokens: Seq<Seq<char>>) -> Seq<u64>
    decreases tokens.len(),
{
    if tokens.len() == 0 {
        seq![]
    } else {
        let h = token_hash(tokens.last());
        let before = features(tokens.drop_last()).push(h);
        if tokens.len() == 1 {
            before
        } else {
            before.push(pair_hash(token_hash(tokens[tokens.len() - 2]), h))
        }
    }
}

/// The hash of a token: that of its UTF-8 bytes.
pub open spec fn token_hash(token: Seq<char>) -> u64 {
    fnv(vstd::utf8::encode_utf8(token))
}

/// Buckets with one more feature counted: an even hash adds one to its bucket and an
/// odd one takes one away, up to the limit.
pub open spec fn counted(buckets: Seq<i64>, h: u64) -> Seq<i64> {
    let at = (h % 384) as int;
    let w = if h % 2 == 0 {
        buckets[at] + 1
    } else {
        buckets[at] - 1
    };
    if -WEIGHT_LIMIT <= w <= WEIGHT_LIMIT {
        buckets.update(at, w as i64)
    } else {
        buckets
    }
}

/// The buckets that a list of features fills.
pub open spec fn filled(features: Seq<u64>) -> Seq<i64>
    decreases features.len(),
{
    if features.len() == 0 {
        Seq::new(384, |i: int| 0i64)
    } else {
        counted(filled(features.drop_last()), features.last())
    }
}

/// The embedding that fills its buckets with `features`: where every bucket stays at
/// nought, the first holds one, so that no embedding is zero.
pub open spec fn embedding(features: Seq<u64>) -> Seq<i64> {
    let b = filled(features);
    if forall|i: int| 0 <= i < b.len() ==> #[trigger] b[i] == 0 {
        b.update(0, 1i64)
    } else {
        b
    }
}

pub proof fn lemma_filled(features: Seq<u64>)
    ensures
        filled(features).len() == 384,
        forall|i: int|
            0 <= i < 384 ==> -WEIGHT_LIMIT <= #[trigger] filled(features)[i] <= WEIGHT_LIMIT,
    decreases features.len(),
{
    if features.len() > 0 {
        lemma_filled(features.drop_last());
    }
}

fn accumulate(v: &mut Vec<i64>, h: u64)
    requires
        old(v)@.len() == 384,
        forall|i: int| 0 <= i < 384 ==> -WEIGHT_LIMIT <= #[trigger] old(v)@[i] <= WEIGHT_LIMIT,
    ensures
        final(v)@ == counted(old(v)@, h),
{
    let at: usize = (h % 384) as usize;
    let x: i64 = v[at];
    let w: i64 = if h % 2 == 0 { x + 1 } else { x - 1 };
    if -WEIGHT_LIMIT <= w && w <= WEIGHT_LIMIT {
        v.set(at, w);
    }
}

/// The embedding of a list of tokens.
pub fn embed_tokens(tokens: &Vec<String>) -> (v: Vec<i64>)
    ensures
        v@ == embedding(features(texts(tokens@))),
        v@.len() == EMBED_DIMS,
{
    let mut v: Vec<i64> = Vec::new();
    let mut j: usize = 0;
    while j < EMBED_DIMS
        invariant
            j <= 384,
            v@ == Seq::new(j as nat, |i: int| 0i64),
        decreases 384 - j,
    {
        v.push(0);
        assert(v@ =~= Seq::new((j + 1) as nat, |i: int| 0i64));
        j += 1;
    }
    let ghost t = texts(tokens@);
    let mut prev: u64 = 0;
    let mut i: usize = 0;
    assert(t.take(0) =~= seq![]);
    while i < tokens.len()
        invariant
            i <= tokens@.len(),
            t == texts(tokens@),
            v@ == filled(features(t.take(i as int))),
            i > 0 ==> prev == token_hash(t[i - 1]),
        decreases tokens.len() - i,
    {
        let h: u64 = fnv1a64(tokens[i].as_str().as_bytes());
        let ghost done = features(t.take(i as int));
        proof {
            lemma_filled(done);
            lemma_filled(done.push(h));
            assert(t.take(i + 1).drop_last() =~= t.take(i as int));
            assert(done.push(h).drop_last() =~= done);
        }
        accumulate(&mut v, h);
        if i > 0 {
            let b: u64 = prev ^ ((h << 13) | (h >> 51));
            assert(done.push(h).push(b).drop_last() =~= done.push(h));
            accumulate(&mut v, b);
        }
        prev = h;
        i += 1;
    }
    assert(t.take(i as int) =~= t);
    proof {
        lemma_filled(features(t));
    }
    let mut k: usize = 0;
    while k < EMBED_DIMS
        invariant
            k <= 384,
            v@.len() == 384,
            v@ == filled(features(t)),
            t == texts(tokens@),
            forall|i: int| 0 <= i < k ==> v@[i] == 0,
        decreases 384 - k,
    {
        if v[k] != 0 {
            assert(filled(features(t))[k as int] != 0);
            return v;
        }
        k += 1;
    }
    v.set(0, 1);
    v
}

impl HashingEmbedder {
    /// An embedder. It has no state.
    pub fn new() -> (r: Self)
        ensures
            r == (HashingEmbedder {  }),
    {
        HashingEmbedder {  }
    }

    /// The embedding of a text, before it is scaled to unit length.
    pub fn embed(&self, text: &str) -> (v: Vec<i64>)
        ensures
            v@ == embedding(features(tokens(text@))),
            v@.len() == EMBED_DIMS,
    {
        embed_tokens(&tokenize(text))
    }

    /// The number of buckets of an embedding.
    pub fn dims(&self) -> (n: usize)
        ensures
            n == 384,
    {
        EMBED_DIMS
    }
}

/// An embedding has one number per bucket, and is not zero.
pub proof fn embedding_is_not_zero(f: Seq<u64>)
    ensures
        embedding(f).len() == 384,
        exists|i: int| 0 <= i < 384 && #[trigger] embedding(f)[i] != 0,
{
    lemma_filled(f);
    let b = filled(f);
    if forall|i: int| 0 <= i < b.len() ==> #[trigger] b[i] == 0 {
        assert(embedding(f)[0] == 1);
    } else {
        let i = choose|i: int| 0 <= i < b.len() && #[trigger] b[i] != 0;
        assert(embedding(f)[i] != 0);
    }
}

} // verus!
