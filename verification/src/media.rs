//! Images that are kept as evidence: which are accepted, and how their files are named.
use vstd::prelude::*;

use crate::hex::{hex, hex_text};
use crate::text::same;

verus! {

/// Whether a content type is that of an image that is accepted.
pub open spec fn is_image_type(mime: Seq<char>) -> bool {
    ||| mime == "image/png"@
    ||| mime == "image/jpeg"@
    ||| mime == "image/webp"@
    ||| mime == "image/gif"@
}

/// The content types that are accepted.
pub const ALLOWED_IMAGE_MIME_TYPES: &'static str = "image/png, image/jpeg, image/webp, image/gif";

/// Whether a content type is that of an image that is accepted. Anything else is refused,
/// whatever the bytes may be.
pub fn is_allowed_mime(mime_type: &str) -> (r: bool)
    ensures
        r == is_image_type(mime_type@),
{
    same(mime_type, "image/png") || same(mime_type, "image/jpeg") || same(mime_type, "image/webp")
        || same(mime_type, "image/gif")
}

/// The extension of the files of a content type.
pub open spec fn file_extension(mime: Seq<char>) -> Seq<char> {
    if mime == "image/png"@ {
        "png"@
    } else if mime == "image/jpeg"@ {
        "jpg"@
    } else if mime == "image/webp"@ {
        "webp"@
    } else if mime == "image/gif"@ {
        "gif"@
    } else {
        "bin"@
    }
}

/// The extension of the files of a content type.
pub fn extension_for(mime_type: &str) -> (r: &'static str)
    ensures
        r@ == file_extension(mime_type@),
{
    if same(mime_type, "image/png") {
        "png"
    } else if same(mime_type, "image/jpeg") {
        "jpg"
    } else if same(mime_type, "image/webp") {
        "webp"
    } else if same(mime_type, "image/gif") {
        "gif"
    } else {
        "bin"
    }
}

/// The SHA-256 digest of some bytes.
pub uninterp spec fn sha256_digest(bytes: Seq<u8>) -> Seq<u8>;

/// `sha2::Sha256::digest` depends on the bytes alone, and takes thirty-two bytes.
#[verifier::external_body]
fn sha256(bytes: &Vec<u8>) -> (r: Vec<u8>)
    ensures
        r@ == sha256_digest(bytes@),
        r@.len() == 32,
{
    let digest = <sha2::Sha256 as sha2::Digest>::digest(bytes);
    digest.to_vec()
}

/// The name of the file of an image, given the digest of its bytes.
pub open spec fn named_file(digest: Seq<u8>, mime: Seq<char>) -> Seq<char> {
    hex(digest) + "."@ + file_extension(mime)
}

/// The name of the file of an image, given the digest of its bytes.
pub fn file_named(digest: &Vec<u8>, mime_type: &str) -> (r: String)
    ensures
        r@ == named_file(digest@, mime_type@),
{
    let mut r: String = hex_text(digest);
    r.append(".");
    r.append(extension_for(mime_type));
    r
}

/// The name of the file of an image. It is made of the digest of the bytes, so that the
/// same image is kept once however often it comes.
pub fn media_file_name(mime_type: &str, bytes: &Vec<u8>) -> (r: String)
    ensures
        r@ == named_file(sha256_digest(bytes@), mime_type@),
{
    file_named(&sha256(bytes), mime_type)
}

/// Images of one type have the same file just where their digests are the same.
pub proof fn files_are_named_by_content(a: Seq<u8>, b: Seq<u8>, mime: Seq<char>)
    ensures
        named_file(a, mime) == named_file(b, mime) <==> a == b,
{
    crate::hex::hex_is_faithful(a, b);
    crate::hex::hex_is_faithful(b, a);
    let x = named_file(a, mime);
    let y = named_file(b, mime);
    if x == y {
        let n = x.len() - "."@.len() - file_extension(mime).len();
        assert(x.take(n) =~= hex(a));
        assert(y.take(n) =~= hex(b));
    }
}

/// What standard Base64 reads of a text: bytes, or what is wrong with it.
pub uninterp spec fn base64_decoded(text: Seq<char>) -> Result<Seq<u8>, Seq<char>>;

/// `base64::engine::general_purpose::STANDARD.decode`: reads Base64, or says in words why
/// it cannot. What comes out depends on the text alone.
#[verifier::external_body]
pub(crate) fn decode_base64(text: &str) -> (r: Result<Vec<u8>, String>)
    ensures
        match r {
            Ok(b) => base64_decoded(text@) == Ok::<Seq<u8>, Seq<char>>(b@),
            Err(e) => base64_decoded(text@) == Err::<Seq<u8>, Seq<char>>(e@),
        },
{
    base64::Engine::decode(&base64::engine::general_purpose::STANDARD, text.as_bytes())
        .map_err(|e| e.to_string())
}

/// What standard Base64 writes for some bytes.
pub uninterp spec fn base64_encoded(bytes: Seq<u8>) -> Seq<char>;

/// `base64::engine::general_purpose::STANDARD.encode`: writes Base64. What comes out
/// depends on the bytes alone.
#[verifier::external_body]
pub(crate) fn encode_base64(bytes: &Vec<u8>) -> (r: String)
    ensures
        r@ == base64_encoded(bytes@),
{
    base64::Engine::encode(&base64::engine::general_purpose::STANDARD, bytes)
}

} // verus!
