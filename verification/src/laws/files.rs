//! Pictures, texts in JSON, and vectors.
use vstd::prelude::*;

use crate::embed::{counted, embedding, features, filled, fnv, lemma_filled, pair_hash, token_hash};
use crate::embed::tokens;
use crate::hex::hex;
use crate::json::{hex_small, json_char, json_chars, quoted};
use crate::media::{file_extension, is_image_type, named_file};
use crate::store::StoreModel;
use crate::store::knowledge::with_source;
use crate::text::{byte_len, decimal};
use crate::tools::media::{image_refusal, image_status};
use crate::unicode::{alphanumeric, lowercase};

verus! {

/// Four types of pictures are taken, each with its ending.
pub proof fn four_types_of_pictures_are_taken(mime: Seq<char>)
    ensures
        is_image_type(mime) <==> mime == "image/png"@ || mime == "image/jpeg"@ || mime
            == "image/webp"@ || mime == "image/gif"@,
        file_extension("image/png"@) == "png"@,
        file_extension("image/jpeg"@) == "jpg"@,
        file_extension("image/webp"@) == "webp"@,
        file_extension("image/gif"@) == "gif"@,
        !is_image_type(mime) ==> file_extension(mime) == "bin"@,
{
    reveal_strlit("image/png");
    reveal_strlit("image/jpeg");
    reveal_strlit("image/webp");
    reveal_strlit("image/gif");
    assert("image/png"@.len() == 9 && "image/gif"@.len() == 9 && "image/png"@[6] == 'p');
    assert("image/gif"@[6] == 'g' && "image/jpeg"@.len() == 10 && "image/webp"@.len() == 10);
    assert("image/jpeg"@[6] == 'j' && "image/webp"@[6] == 'w');
}

/// A picture is named by the digits of its digest and its ending.
pub proof fn pictures_are_named_by_digest(digest: Seq<u8>, b: u8, mime: Seq<char>)
    ensures
        named_file(digest, mime) == hex(digest) + "."@ + file_extension(mime),
        hex(digest.push(b)) == hex(digest) + seq![
            hex_small(b as int / 16),
            hex_small(b as int % 16),
        ],
        hex(seq![]).len() == 0,
        forall|n: int|
            0 <= n < 10 ==> (#[trigger] hex_small(n)) as int == 48 + n,
        forall|n: int|
            10 <= n < 16 ==> (#[trigger] hex_small(n)) as int == 87 + n,
{
    assert(digest.push(b).drop_last() =~= digest);
}

/// A picture is refused for its type, then for an item that is not there, then for data
/// that cannot be read; else it is taken.
pub proof fn pictures_are_refused_for_a_reason(
    s: StoreModel,
    mime: Seq<char>,
    knowledge_id: Option<i64>,
    bytes: Seq<u8>,
    e: Seq<char>,
)
    ensures
        !is_image_type(mime) ==> image_refusal(s, mime, knowledge_id, Ok(bytes)) == Some(
            "unsupported mime_type '"@ + mime
                + "': only image types are accepted in this stage ("@
                + "image/png, image/jpeg, image/webp, image/gif"@ + ")"@,
        ),
        is_image_type(mime) && (knowledge_id matches Some(k) && with_source(s, k) is None)
            ==> image_refusal(s, mime, knowledge_id, Ok(bytes)) == Some(
            "knowledge item #"@ + decimal(knowledge_id->0 as int) + " not found"@,
        ),
        is_image_type(mime) && (knowledge_id matches Some(k) ==> with_source(s, k) is Some)
            ==> image_refusal(s, mime, knowledge_id, Ok(bytes)) is None && image_refusal(
            s,
            mime,
            knowledge_id,
            Err(e),
        ) == Some("invalid base64 data: "@ + e),
        image_status(None) == "standalone, unpromoted"@,
        forall|k: i64| #[trigger]
            image_status(Some(k)) == "attached, trust inherited from knowledge item"@,
{
}

/// A character that needs no escape in JSON.
pub open spec fn is_unescaped(c: char) -> bool {
    c != '"' && c != '\\' && c as int >= 32
}

/// A text is quoted character by character; quotes, backslashes and control characters are
/// escaped, and nothing else is.
pub proof fn texts_are_quoted_in_json(s: Seq<char>, c: char)
    ensures
        quoted(s) == seq!['"'] + json_chars(s) + seq!['"'],
        json_chars(seq![]).len() == 0,
        json_chars(s.push(c)) == json_chars(s) + json_char(c),
        is_unescaped(c) ==> json_char(c) == seq![c],
        json_char('"') == seq!['\\', '"'],
        json_char('\\') == seq!['\\', '\\'],
        json_char('\n') == seq!['\\', 'n'],
        json_char('\r') == seq!['\\', 'r'],
        json_char('\t') == seq!['\\', 't'],
        !is_unescaped(c) ==> json_char(c).len() >= 2 && json_char(c)[0] == '\\',
{
    assert(s.push(c).drop_last() =~= s);
}

/// Different characters are written differently.
pub proof fn quoted_characters_differ(a: char, b: char)
    requires
        json_char(a) == json_char(b),
    ensures
        a == b,
{
    let x = json_char(a);
    let y = json_char(b);
    assert(x.len() == y.len());
    assert(x[0] == y[0]);
    if x.len() >= 2 {
        assert(x[1] == y[1]);
    }
    if x.len() == 1 {
        assert(x[0] == a && y[0] == b);
    } else if x.len() == 2 {
        assert(a as int == b as int);
    } else {
        assert(x.len() == 6);
        assert(x[4] == y[4]);
        assert(x[5] == y[5]);
        lemma_hex_small(a as int / 16, b as int / 16);
        lemma_hex_small(a as int % 16, b as int % 16);
        assert(a as int == b as int);
    }
}

proof fn lemma_hex_small(a: int, b: int)
    requires
        0 <= a < 16,
        0 <= b < 16,
        hex_small(a) == hex_small(b),
    ensures
        a == b,
{
    assert(hex_small(a) as int == if a < 10 {
        48 + a
    } else {
        87 + a
    });
    assert(hex_small(b) as int == if b < 10 {
        48 + b
    } else {
        87 + b
    });
}

// ---- vectors --------------------------------------------------------------

/// A hash takes in byte after byte, from the offset on.
pub proof fn hashes_take_in_byte_after_byte(bytes: Seq<u8>, b: u8)
    ensures
        fnv(seq![]) == 14695981039346656037,
        fnv(bytes.push(b)) as int == ((fnv(bytes) ^ (b as u64)) as int * 1099511628211)
            % 18446744073709551616,
{
    assert(bytes.push(b).drop_last() =~= bytes);
}

/// A text has one feature for each word, and one for each two that follow each other.
pub proof fn words_and_pairs_are_features(words: Seq<Seq<char>>, w: Seq<char>)
    ensures
        features(seq![]).len() == 0,
        features(seq![w]) == seq![token_hash(w)],
        words.len() > 0 ==> features(words.push(w)) == features(words).push(token_hash(w)).push(
            pair_hash(token_hash(words.last()), token_hash(w)),
        ),
        words.len() > 0 ==> features(words).len() == 2 * words.len() - 1,
    decreases words.len(),
{
    reveal_with_fuel(features, 2);
    assert(words.push(w).drop_last() =~= words);
    assert(seq![w].drop_last() =~= seq![]);
    assert(features(seq![w]) =~= seq![token_hash(w)]);
    if words.len() > 0 {
        words_and_pairs_are_features(words.drop_last(), w);
    }
}

/// A feature counts one up or down, by its last bit, in the place that it falls in.
pub proof fn features_count_in_their_place(f: Seq<u64>, h: u64, i: int)
    requires
        0 <= i < 384,
    ensures
        filled(seq![]) == Seq::new(384, |i: int| 0i64),
        i != h % 384 ==> filled(f.push(h))[i] == filled(f)[i],
        i == h % 384 && -16777216 < filled(f)[i] < 16777216 ==> filled(f.push(h))[i] == filled(f)[i]
            + (if h % 2 == 0 {
            1int
        } else {
            -1
        }),
{
    lemma_filled(f);
    assert(f.push(h).drop_last() =~= f);
    let at = (h % 384) as int;
    assert(0 <= at < 384);
    assert(filled(f.push(h)) == counted(filled(f), h));
}

/// A text without words has a vector of one in its first place; any other is what its
/// features count, unless they cancel out.
pub proof fn empty_texts_have_a_vector(f: Seq<u64>, i: int)
    requires
        0 <= i < 384,
    ensures
        embedding(seq![])[0] == 1,
        i > 0 ==> embedding(seq![])[i] == 0,
        filled(f)[i] != 0 ==> embedding(f) == filled(f),
{
    lemma_filled(f);
    lemma_filled(seq![]);
}

/// Words are the runs of letters and digits of at least two bytes, in small letters.
pub proof fn words_are_runs_of_letters(a: Seq<char>, c: char, b: Seq<char>)
    requires
        a.len() > 0,
        forall|i: int| 0 <= i < a.len() ==> alphanumeric(#[trigger] a[i]),
        !alphanumeric(c),
    ensures
        byte_len(a) >= 2 ==> tokens(a + seq![c] + b) == seq![lowercase(a)] + tokens(b),
        byte_len(a) < 2 ==> tokens(a + seq![c] + b) == tokens(b),
        tokens(seq![c] + b) == tokens(b),
        tokens(seq![]).len() == 0,
        byte_len(a) >= 2 ==> tokens(a) == seq![lowercase(a)],
{
    let s = a + seq![c] + b;
    let rest = seq![c] + b;
    assert(s =~= a + rest);
    lemma_run(a, rest);
    assert(rest.skip(1) =~= b);
    assert(tokens(rest) == tokens(b));
    assert(alphanumeric(a[0]));
    assert(s[0] == a[0]);
    assert(s.take(a.len() as int) =~= a);
    assert(s.skip(a.len() as int) =~= rest);
    lemma_run(a, seq![]);
    assert(a + seq![] =~= a);
    assert(a.take(a.len() as int) =~= a);
    assert(a.skip(a.len() as int) =~= seq![]);
    assert(tokens(a.skip(a.len() as int)) == Seq::<Seq<char>>::empty());
    assert(seq![lowercase(a)] + Seq::<Seq<char>>::empty() =~= seq![lowercase(a)]);
}

proof fn lemma_run(a: Seq<char>, rest: Seq<char>)
    requires
        forall|i: int| 0 <= i < a.len() ==> alphanumeric(#[trigger] a[i]),
        rest.len() == 0 || !alphanumeric(rest[0]),
    ensures
        crate::embed::token_len(a + rest) == a.len(),
    decreases a.len(),
{
    if a.len() > 0 {
        assert((a + rest).skip(1) =~= a.skip(1) + rest);
        assert forall|i: int| 0 <= i < a.skip(1).len() implies alphanumeric(
            #[trigger] a.skip(1)[i],
        ) by {
            assert(a.skip(1)[i] == a[i + 1]);
        }
        lemma_run(a.skip(1), rest);
        assert(alphanumeric(a[0]));
    } else {
        assert(a + rest =~= rest);
    }
}

} // verus!
