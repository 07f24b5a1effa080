//! Taking in documents: where a source lies, what its bytes say, and how the text is cut
//! into chunks.
use vstd::prelude::*;
use vstd::utf8::{decode_utf8, valid_utf8};

use crate::html::{elements, html_elements, Element};
use crate::json::{pretty, pretty_json};
use crate::lang::{detect_language, extension, extension_of, file_name, language, language_of};
use crate::lang::name_of;
use crate::text::{begins, blank, byte_len, bytes_in, char_width, chars, contains, find_char, has};
use crate::text::{is_blank, is_white, join, joined, lead, lemma_byte_len_add, lemma_byte_len_step};
use crate::text::{lemma_lead, lemma_until, lower, pieces, same, split_char, split_words};
use crate::text::{stands_at, starts_with, strip_prefix, text, text_of, texts, trim, trimmed};
use crate::text::{until, without, words};
use crate::unicode::lowercase;

verus! {

/// A document as it was fetched.
#[derive(Debug)]
pub struct Fetched {
    pub content_type: String,
    pub body: Vec<u8>,
}

// ---- where a source lies --------------------------------------------------

/// Whether a text holds a colon at its second place, as paths with a drive letter do.
pub open spec fn has_drive(s: Seq<char>) -> bool {
    s.len() > 1 && s[1] == ':'
}

/// Whether a source is a file of this machine: a `file://` address, an absolute path, or
/// a path with a drive letter.
pub open spec fn local(source: Seq<char>) -> bool {
    begins(source, "file://"@) || begins(source, "/"@) || (byte_len(source) >= 3 && has_drive(
        source,
    ))
}

/// `s` without the slashes that it begins with.
pub open spec fn without_slashes(s: Seq<char>) -> Seq<char>
    decreases s.len(),
{
    if s.len() > 0 && s[0] == '/' {
        without_slashes(s.skip(1))
    } else {
        s
    }
}

/// The path of a file of this machine.
pub open spec fn local_path(source: Seq<char>) -> Seq<char> {
    if begins(source, "file://"@) {
        let s = without_slashes(source.skip("file://"@.len() as int));
        if has_drive(s) {
            s
        } else {
            "/"@ + s
        }
    } else {
        source
    }
}

fn drive(s: &str) -> (r: bool)
    ensures
        r == has_drive(s@),
{
    let v: Vec<char> = chars(s);
    v.len() > 1 && v[1] == ':'
}

/// Whether a source is a file of this machine.
pub fn is_local(source: &str) -> (r: bool)
    ensures
        r == local(source@),
{
    starts_with(source, "file://") || starts_with(source, "/") || (bytes_in(source) >= 3 && drive(
        source,
    ))
}

fn strip_slashes(s: &str) -> (r: String)
    ensures
        r@ == without_slashes(s@),
{
    let v: Vec<char> = chars(s);
    let mut i: usize = 0;
    assert(v@.skip(0) =~= v@);
    while i < v.len() && v[i] == '/'
        invariant
            i <= v@.len(),
            v@ == s@,
            without_slashes(s@) == without_slashes(v@.skip(i as int)),
        decreases v.len() - i,
    {
        assert(v@.skip(i as int).skip(1) =~= v@.skip(i + 1));
        i += 1;
    }
    let r: String = text_of(&v, i, v.len());
    assert(r@ =~= v@.skip(i as int));
    r
}

/// The path of a file of this machine.
pub fn path_of(source: &str) -> (r: String)
    ensures
        r@ == local_path(source@),
{
    match strip_prefix(source, "file://") {
        Some(rest) => {
            let s: String = strip_slashes(rest.as_str());
            if drive(s.as_str()) {
                s
            } else {
                let mut r: String = "/".to_owned();
                r.append(s.as_str());
                r
            }
        },
        None => source.to_owned(),
    }
}

// ---- content types --------------------------------------------------------

/// The content type of an extension in small letters.
pub open spec fn type_of_extension(ext: Seq<char>) -> Seq<char> {
    if ext == "pdf"@ {
        "application/pdf"@
    } else if ext == "json"@ {
        "application/json"@
    } else if ext == "md"@ || ext == "markdown"@ {
        "text/markdown"@
    } else if ext == "txt"@ {
        "text/plain"@
    } else if ext == "html"@ || ext == "htm"@ {
        "text/html"@
    } else if ext == "xml"@ {
        "text/xml"@
    } else if ext == "csv"@ || ext == "jsonl"@ {
        "text/plain"@
    } else if ext == "docx"@ {
        "application/vnd.openxmlformats-officedocument.wordprocessingml.document"@
    } else if ext == "xlsx"@ {
        "application/vnd.openxmlformats-officedocument.spreadsheetml.sheet"@
    } else if ext == "pptx"@ {
        "application/vnd.openxmlformats-officedocument.presentationml.presentation"@
    } else {
        "application/octet-stream"@
    }
}

/// The content type of an extension in small letters.
pub fn extension_type(ext: &str) -> (r: &'static str)
    ensures
        r@ == type_of_extension(ext@),
{
    if same(ext, "pdf") {
        "application/pdf"
    } else if same(ext, "json") {
        "application/json"
    } else if same(ext, "md") || same(ext, "markdown") {
        "text/markdown"
    } else if same(ext, "txt") {
        "text/plain"
    } else if same(ext, "html") || same(ext, "htm") {
        "text/html"
    } else if same(ext, "xml") {
        "text/xml"
    } else if same(ext, "csv") || same(ext, "jsonl") {
        "text/plain"
    } else if same(ext, "docx") {
        "application/vnd.openxmlformats-officedocument.wordprocessingml.document"
    } else if same(ext, "xlsx") {
        "application/vnd.openxmlformats-officedocument.spreadsheetml.sheet"
    } else if same(ext, "pptx") {
        "application/vnd.openxmlformats-officedocument.presentationml.presentation"
    } else {
        "application/octet-stream"
    }
}

/// The content type of a file with an extension in small letters, in a language. A file in
/// a language that the code index knows is plain text, where its extension tells nothing
/// else.
pub open spec fn typed(ext: Seq<char>, language: Seq<char>) -> Seq<char> {
    let t = type_of_extension(ext);
    if t == "application/octet-stream"@ && language != "text"@ {
        "text/plain"@
    } else {
        t
    }
}

/// The content type of a file, which its extension tells.
pub open spec fn file_type(path: Seq<char>) -> Seq<char> {
    typed(lowercase(extension(file_name(path))), language(path))
}

/// The content type of a file, which its extension tells. Of an extension in ASCII its
/// letters count as small ones.
pub fn content_type_from_ext(path: &str) -> (r: &'static str)
    ensures
        r@ == file_type(path@),
        ({
            let ext = extension(file_name(path@));
            vstd::utf8::is_ascii_chars(ext) ==> r@ == typed(lower(ext), language_of(lower(ext)))
        }),
{
    let ext: String = extension_of(name_of(path).as_str());
    let t: &'static str = extension_type(ext.as_str().to_lowercase().as_str());
    if same(t, "application/octet-stream") && !same(detect_language(path), "text") {
        "text/plain"
    } else {
        t
    }
}

/// What stands before the first semicolon of a header, without the white space around
/// it.
pub open spec fn media_type(header: Seq<char>) -> Seq<char> {
    trim(header.take(until(header, ';') as int))
}

/// The content type that a header tells, without its parameters.
pub fn bare_type(header: &str) -> (r: String)
    ensures
        r@ == media_type(header@),
{
    let v: Vec<char> = chars(header);
    proof {
        lemma_until(v@, ';');
    }
    assert(v@.skip(0) =~= v@);
    let i: usize = find_char(&v, ';', 0);
    let t: String = text_of(&v, 0, i);
    assert(t@ =~= header@.take(until(header@, ';') as int));
    trimmed(t.as_str())
}

/// The content type of an answer from the web: what its header tells, in small letters,
/// and unknown bytes where it has none.
pub fn content_type_of_header(header: Option<&str>) -> (r: String)
    ensures
        r@ == lowercase(
            media_type(
                match header {
                    Some(h) => h@,
                    None => "application/octet-stream"@,
                },
            ),
        ),
{
    let t: String = bare_type(
        match header {
            Some(h) => h,
            None => "application/octet-stream",
        },
    );
    t.as_str().to_lowercase()
}

// ---- what a document says -------------------------------------------------

/// How a document is read.
#[derive(PartialEq, Eq, Structural, Clone, Copy, Debug)]
pub enum Reading {
    Html,
    Pdf,
    Json,
    Plain,
    Unsupported,
}

/// How a document of a content type is read.
pub open spec fn reading(ct: Seq<char>) -> Reading {
    if has(ct, "html"@) {
        Reading::Html
    } else if ct == "application/pdf"@ || ct == "application/x-pdf"@ {
        Reading::Pdf
    } else if has(ct, "json"@) {
        Reading::Json
    } else if begins(ct, "text/"@) || has(ct, "markdown"@) || has(ct, "xml"@) {
        Reading::Plain
    } else {
        Reading::Unsupported
    }
}

/// How a document of a content type is read.
pub fn classify(ct: &str) -> (r: Reading)
    ensures
        r == reading(ct@),
{
    if contains(ct, "html") {
        Reading::Html
    } else if same(ct, "application/pdf") || same(ct, "application/x-pdf") {
        Reading::Pdf
    } else if contains(ct, "json") {
        Reading::Json
    } else if starts_with(ct, "text/") || contains(ct, "markdown") || contains(ct, "xml") {
        Reading::Plain
    } else {
        Reading::Unsupported
    }
}

/// What `String::from_utf8_lossy` returns: the text of some bytes, with a replacement
/// character for what is no UTF-8.
pub uninterp spec fn lossy(bytes: Seq<u8>) -> Seq<char>;

/// `String::from_utf8_lossy` of the standard library depends on the bytes alone. Valid
/// UTF-8 is read as it is.
#[verifier::external_body]
pub(crate) fn lossy_text(bytes: &Vec<u8>) -> (r: String)
    ensures
        r@ == lossy(bytes@),
        valid_utf8(bytes@) ==> r@ == decode_utf8(bytes@),
{
    String::from_utf8_lossy(bytes).into_owned()
}

/// What reading the text of a PDF came to.
#[derive(Debug)]
pub enum PdfText {
    Read(String),
    Failed(String),
}

/// What is kept of the text of a PDF.
pub open spec fn pdf_text(read: PdfText) -> Seq<char> {
    match read {
        PdfText::Read(t) => if trim(t@).len() == 0 {
            "[klayer] PDF contained no extractable text (may be a scanned image)."@
        } else {
            trim(t@)
        },
        PdfText::Failed(e) => "[klayer] PDF extraction failed: "@ + e@,
    }
}

/// The selectors of a title, and of what else is read of a page.
pub open spec fn title_selector() -> Seq<char> {
    "title"@
}

/// The selector of what is read of a page.
pub open spec fn prose_selector() -> Seq<char> {
    "p, li, h1, h2, h3, h4, pre, blockquote"@
}

/// The title of a page: the text of its first title element, without the white space
/// around it.
pub open spec fn page_title(titles: Option<Seq<(Seq<char>, Option<Seq<char>>)>>) -> Seq<char> {
    match titles {
        Some(t) => if t.len() > 0 {
            trim(t[0].0)
        } else {
            seq![]
        },
        None => seq![],
    }
}

/// The lines that some elements give: their words with single spaces between them, where
/// these take three bytes at least.
pub open spec fn prose(elements: Seq<(Seq<char>, Option<Seq<char>>)>) -> Seq<Seq<char>>
    decreases elements.len(),
{
    if elements.len() == 0 {
        seq![]
    } else {
        let rest = prose(elements.drop_last());
        let t = joined(words(elements.last().0), " "@);
        if byte_len(t) >= 3 {
            rest.push(t)
        } else {
            rest
        }
    }
}

/// The text of a page.
pub open spec fn page_text(found: Option<Seq<(Seq<char>, Option<Seq<char>>)>>) -> Seq<char> {
    match found {
        Some(e) => joined(prose(e), "\n"@),
        None => seq![],
    }
}

/// Reads a page, given its title elements and those that hold its prose.
pub fn read_page(titles: &Option<Vec<Element>>, found: &Option<Vec<Element>>) -> (r: (
    String,
    String,
))
    ensures
        r.0@ == page_title(crate::html::found(*titles)),
        r.1@ == page_text(crate::html::found(*found)),
{
    let title: String = match titles {
        Some(t) => if t.len() > 0 {
            assert(crate::html::shown(t@)[0] == (t@[0].text@, crate::text::opt(t@[0].href)));
            trimmed(t[0].text.as_str())
        } else {
            String::new()
        },
        None => String::new(),
    };
    let mut parts: Vec<String> = Vec::new();
    if let Some(e) = found {
        let ghost all = crate::html::shown(e@);
        let mut i: usize = 0;
        assert(texts(parts@) =~= prose(all.take(0)));
        while i < e.len()
            invariant
                i <= e@.len(),
                all == crate::html::shown(e@),
                texts(parts@) == prose(all.take(i as int)),
            decreases e.len() - i,
        {
            broadcast use crate::text::lemma_texts_push;

            assert(all.take(i + 1).drop_last() =~= all.take(i as int));
            let t: String = join(&split_words(e[i].text.as_str()), " ");
            if bytes_in(t.as_str()) >= 3 {
                parts.push(t);
            }
            i += 1;
        }
        assert(all.take(i as int) =~= all);
        (title, join(&parts, "\n"))
    } else {
        (title, String::new())
    }
}

/// What a text of JSON is kept as: laid out by lines where it is valid, else as it is.
pub open spec fn json_text(raw: Seq<char>, laid_out: Option<Seq<char>>) -> Seq<char> {
    match laid_out {
        Some(t) => t,
        None => raw,
    }
}

/// What is said of a document that cannot be read.
pub open spec fn unsupported(ct: Seq<char>) -> Seq<char> {
    "[klayer] Unsupported content-type '"@ + ct
        + "'. Supported: HTML, PDF, JSON, plain text / Markdown."@
}

/// The title of a document.
pub open spec fn document_title(ct: Seq<char>, body: Seq<u8>) -> Seq<char> {
    match reading(ct) {
        Reading::Html => page_title(html_elements(lossy(body), title_selector())),
        _ => seq![],
    }
}

/// The text of a document; that of a PDF was read before.
pub open spec fn document_text(ct: Seq<char>, body: Seq<u8>, pdf: PdfText) -> Seq<char> {
    match reading(ct) {
        Reading::Html => page_text(html_elements(lossy(body), prose_selector())),
        Reading::Pdf => pdf_text(pdf),
        Reading::Json => json_text(lossy(body), pretty_json(lossy(body))),
        Reading::Plain => trim(lossy(body)),
        Reading::Unsupported => unsupported(ct),
    }
}

fn extract_pdf(pdf: &PdfText) -> (r: String)
    ensures
        r@ == pdf_text(*pdf),
{
    match pdf {
        PdfText::Read(t) => {
            let s: String = trimmed(t.as_str());
            if s.as_str().is_empty() {
                "[klayer] PDF contained no extractable text (may be a scanned image).".to_owned()
            } else {
                s
            }
        },
        PdfText::Failed(e) => {
            let mut s: String = "[klayer] PDF extraction failed: ".to_owned();
            s.append(e.as_str());
            s
        },
    }
}

/// The title and the text of a document. What its PDF reader made of the bytes is handed
/// in, and counts only where the document is a PDF.
pub fn extract(fetched: &Fetched, pdf: &PdfText) -> (r: (String, String))
    ensures
        r.0@ == document_title(fetched.content_type@, fetched.body@),
        r.1@ == document_text(fetched.content_type@, fetched.body@, *pdf),
        has(fetched.content_type@, "html"@) ==> r.1@ == page_text(
            html_elements(lossy(fetched.body@), "p, li, h1, h2, h3, h4, pre, blockquote"@),
        ) && r.0@ == page_title(html_elements(lossy(fetched.body@), "title"@)),
{
    let ct: &str = fetched.content_type.as_str();
    match classify(ct) {
        Reading::Html => {
            let html: String = lossy_text(&fetched.body);
            let titles: Option<Vec<Element>> = elements(html.as_str(), "title");
            let found: Option<Vec<Element>> = elements(
                html.as_str(),
                "p, li, h1, h2, h3, h4, pre, blockquote",
            );
            read_page(&titles, &found)
        },
        Reading::Pdf => (String::new(), extract_pdf(pdf)),
        Reading::Json => {
            let raw: String = lossy_text(&fetched.body);
            let text: String = match pretty(raw.as_str()) {
                Some(t) => t,
                None => raw,
            };
            (String::new(), text)
        },
        Reading::Plain => (String::new(), trimmed(lossy_text(&fetched.body).as_str())),
        Reading::Unsupported => {
            let mut s: String = "[klayer] Unsupported content-type '".to_owned();
            s.append(ct);
            s.append("'. Supported: HTML, PDF, JSON, plain text / Markdown.");
            (String::new(), s)
        },
    }
}

// ---- chunks ---------------------------------------------------------------

/// The size that chunks are cut to: the one asked for, and two hundred bytes at least.
pub open spec fn fitted(max: int) -> int {
    if max < 200 {
        200
    } else {
        max
    }
}

/// How many characters the shortest beginning of `s` has that takes `max` bytes or more.
pub open spec fn cut_len(s: Seq<char>, max: int) -> nat
    decreases s.len(),
{
    if s.len() == 0 || max <= 0 {
        0
    } else {
        1 + cut_len(s.skip(1), max - char_width(s[0]))
    }
}

proof fn lemma_cut_len(s: Seq<char>, max: int)
    ensures
        cut_len(s, max) <= s.len(),
        s.len() > 0 && max > 0 ==> cut_len(s, max) > 0,
        byte_len(s.take(cut_len(s, max) as int)) + byte_len(s.skip(cut_len(s, max) as int))
            == byte_len(s),
        max > 0 ==> byte_len(s.take(cut_len(s, max) as int)) < max + 4,
    decreases s.len(),
{
    let n = cut_len(s, max) as int;
    if s.len() > 0 && max > 0 {
        lemma_byte_len_step(s);
        lemma_cut_len(s.skip(1), max - char_width(s[0]));
    }
    assert(s.take(n) + s.skip(n) =~= s);
    lemma_byte_len_add(s.take(n), s.skip(n));
    if s.len() > 0 && max > 0 {
        lemma_byte_len_step(s.take(n));
        assert(s.take(n).skip(1) =~= s.skip(1).take(n - 1));
        if max - char_width(s[0]) <= 0 {
            assert(s.skip(1).take(0) =~= seq![]);
        }
    } else if max > 0 {
        assert(s.take(n) =~= seq![]);
    }
}

/// The whole pieces of `max` bytes or barely more that `s` begins with.
pub open spec fn full_pieces(s: Seq<char>, max: int) -> Seq<Seq<char>>
    decreases s.len(),
{
    let n = cut_len(s, max) as int;
    if max <= 0 || byte_len(s) < max || n <= 0 || n > s.len() {
        seq![]
    } else {
        seq![s.take(n)] + full_pieces(s.skip(n), max)
    }
}

/// What is left of `s` behind its whole pieces.
pub open spec fn leftover(s: Seq<char>, max: int) -> Seq<char>
    decreases s.len(),
{
    let n = cut_len(s, max) as int;
    if max <= 0 || byte_len(s) < max || n <= 0 || n > s.len() {
        s
    } else {
        leftover(s.skip(n), max)
    }
}

/// Chunks that are done, and the one that is being filled.
#[verifier::ext_equal]
pub struct Packing {
    pub done: Seq<Seq<char>>,
    pub open: Seq<char>,
}

/// A chunk with a paragraph added.
pub open spec fn appended(open: Seq<char>, p: Seq<char>) -> Seq<char> {
    if open.len() > 0 {
        open.push('\n') + p
    } else {
        p
    }
}

/// The chunks with one more paragraph: it goes to the open chunk where it fits there,
/// else to a new one, and whatever reaches the size is cut off.
pub open spec fn packed_with(k: Packing, p: Seq<char>, max: int) -> Packing {
    if p.len() == 0 {
        k
    } else {
        let full = k.open.len() > 0 && byte_len(k.open) + byte_len(p) + 1 > max;
        let whole = appended(
            if full {
                seq![]
            } else {
                k.open
            },
            p,
        );
        Packing {
            done: (if full {
                k.done.push(k.open)
            } else {
                k.done
            }) + full_pieces(whole, max),
            open: leftover(whole, max),
        }
    }
}

/// The chunks of some paragraphs, without the white space around each.
pub open spec fn packed(paras: Seq<Seq<char>>, max: int) -> Packing
    decreases paras.len(),
{
    if paras.len() == 0 {
        Packing { done: seq![], open: seq![] }
    } else {
        packed_with(packed(paras.drop_last(), max), trim(paras.last()), max)
    }
}

/// The chunks of a text: its lines, packed one after the other.
pub open spec fn chunked(text: Seq<char>, max: int) -> Seq<Seq<char>> {
    let k = packed(pieces(text, '\n'), fitted(max));
    if blank(k.open) {
        k.done
    } else {
        k.done.push(k.open)
    }
}

fn cut_off(cur: String, max: usize, out: &mut Vec<String>) -> (rest: String)
    requires
        max > 0,
    ensures
        texts(final(out)@) == texts(old(out)@) + full_pieces(cur@, max as int),
        rest@ == leftover(cur@, max as int),
{
    let ghost all = full_pieces(cur@, max as int);
    let ghost s = texts(out@);
    let mut rest: String = cur;
    assert(texts(out@) + all =~= s + all);
    while bytes_in(rest.as_str()) >= max
        invariant
            max > 0,
            texts(out@) + full_pieces(rest@, max as int) == s + all,
            leftover(rest@, max as int) == leftover(cur@, max as int),
        decreases rest@.len(),
    {
        broadcast use crate::text::lemma_texts_push;

        let v: Vec<char> = chars(rest.as_str());
        let ghost before = texts(out@);
        proof {
            lemma_cut_len(v@, max as int);
        }
        let n: usize = first_cut(&v, max);
        let head: String = text_of(&v, 0, n);
        let tail: String = text_of(&v, n, v.len());
        assert(head@ =~= v@.take(n as int));
        assert(tail@ =~= v@.skip(n as int));
        proof {
            if v@.len() == 0 {
                assert(byte_len(v@) == 0);
            }
        }
        out.push(head);
        assert(texts(out@) + full_pieces(tail@, max as int) =~= before + full_pieces(
            v@,
            max as int,
        ));
        rest = tail;
    }
    assert(texts(out@) + full_pieces(rest@, max as int) =~= texts(out@));
    rest
}

fn first_cut(v: &Vec<char>, max: usize) -> (n: usize)
    requires
        byte_len(v@) >= max,
    ensures
        n == cut_len(v@, max as int),
        n <= v@.len(),
{
    let mut left: usize = max;
    let mut i: usize = 0;
    assert(v@.skip(0) =~= v@);
    while i < v.len() && left > 0
        invariant
            i <= v@.len(),
            cut_len(v@, max as int) == i + cut_len(v@.skip(i as int), left as int),
        decreases v.len() - i,
    {
        proof {
            lemma_byte_len_step(v@.skip(i as int));
            assert(v@.skip(i as int).skip(1) =~= v@.skip(i + 1));
        }
        let w: usize = width(v[i]);
        assert(w > left ==> cut_len(v@.skip(i + 1), left - w) == cut_len(v@.skip(i + 1), 0));
        left = if w <= left { left - w } else { 0 };
        i += 1;
    }
    i
}

fn width(c: char) -> (w: usize)
    ensures
        w == char_width(c),
{
    let n: u32 = c as u32;
    if n <= 0x7f {
        1
    } else if n <= 0x7ff {
        2
    } else if n <= 0xffff {
        3
    } else {
        4
    }
}

/// Cuts a text into chunks of about `max` bytes: its lines are packed one after the
/// other, and one that is too long is cut.
pub fn chunk(text: &str, max: usize) -> (r: Vec<String>)
    ensures
        texts(r@) == chunked(text@, max as int),
{
    let max: usize = if max < 200 { 200 } else { max };
    let paras: Vec<String> = split_char(text, '\n');
    let ghost all = texts(paras@);
    let mut out: Vec<String> = Vec::new();
    let mut cur: String = String::new();
    let mut i: usize = 0;
    assert(all.take(0) =~= seq![]);
    assert(texts(out@) =~= seq![]);
    assert(cur@ =~= seq![]);
    while i < paras.len()
        invariant
            i <= paras@.len(),
            max >= 200,
            all == texts(paras@),
            (Packing { done: texts(out@), open: cur@ }) == packed(all.take(i as int), max as int),
        decreases paras.len() - i,
    {
        broadcast use crate::text::lemma_texts_push;

        assert(all.take(i + 1).drop_last() =~= all.take(i as int));
        let p: String = trimmed(paras[i].as_str());
        if !p.as_str().is_empty() {
            let ghost k = Packing { done: texts(out@), open: cur@ };
            let open: bool = !cur.as_str().is_empty();
            if open && bytes_in(cur.as_str()) as u128 + bytes_in(p.as_str()) as u128 + 1
                > max as u128 {
                out.push(cur);
                cur = p;
            } else if open {
                cur.push('\n');
                cur.append(p.as_str());
            } else {
                cur = p;
            }
            let ghost whole = cur@;
            let ghost done = texts(out@);
            cur = cut_off(cur, max, &mut out);
            assert((Packing { done: texts(out@), open: cur@ }) == packed_with(
                k,
                trim(all[i as int]),
                max as int,
            ));
        }
        i += 1;
    }
    assert(all.take(i as int) =~= all);
    if !is_blank(cur.as_str()) {
        broadcast use crate::text::lemma_texts_push;

        out.push(cur);
    }
    out
}

// ---- what holds of chunks -------------------------------------------------

/// Some texts behind each other.
pub open spec fn run_on(parts: Seq<Seq<char>>) -> Seq<char>
    decreases parts.len(),
{
    if parts.len() == 0 {
        seq![]
    } else {
        run_on(parts.drop_last()) + parts.last()
    }
}

proof fn lemma_run_on(a: Seq<Seq<char>>, b: Seq<Seq<char>>)
    ensures
        run_on(a + b) == run_on(a) + run_on(b),
    decreases b.len(),
{
    if b.len() == 0 {
        assert(a + b =~= a);
        assert(run_on(a) + run_on(b) =~= run_on(a));
    } else {
        assert((a + b).drop_last() =~= a + b.drop_last());
        lemma_run_on(a, b.drop_last());
        assert(run_on(a) + run_on(b) =~= run_on(a) + run_on(b.drop_last()) + b.last());
    }
}

proof fn lemma_pieces_of(s: Seq<char>, max: int)
    requires
        max > 0,
    ensures
        run_on(full_pieces(s, max)) + leftover(s, max) == s,
        byte_len(leftover(s, max)) < max,
        forall|i: int|
            0 <= i < full_pieces(s, max).len() ==> 0 < (#[trigger] full_pieces(s, max)[i]).len()
                && byte_len(full_pieces(s, max)[i]) < max + 4,
        leftover(s, max).len() > 0 ==> leftover(s, max).last() == s.last(),
    decreases s.len(),
{
    let n = cut_len(s, max) as int;
    lemma_cut_len(s, max);
    if byte_len(s) >= max {
        assert(s.len() > 0) by {
            if s.len() == 0 {
                assert(byte_len(s) == 0);
            }
        }
        let rest = full_pieces(s.skip(n), max);
        lemma_pieces_of(s.skip(n), max);
        lemma_run_on(seq![s.take(n)], rest);
        assert(seq![s.take(n)].drop_last() =~= seq![]);
        reveal_with_fuel(run_on, 2);
        assert(run_on(seq![s.take(n)]) =~= s.take(n));
        assert(s.take(n) + run_on(rest) + leftover(s.skip(n), max) =~= s.take(n) + (run_on(rest)
            + leftover(s.skip(n), max)));
        assert(s.take(n) + s.skip(n) =~= s);
        assert forall|i: int| 0 <= i < full_pieces(s, max).len() implies 0 < (
        #[trigger] full_pieces(s, max)[i]).len() && byte_len(full_pieces(s, max)[i]) < max + 4 by {
            if i > 0 {
                assert(full_pieces(s, max)[i] == rest[i - 1]);
            }
        }
    } else {
        assert(run_on(full_pieces(s, max)) + leftover(s, max) =~= s);
    }
}

proof fn lemma_without_add(a: Seq<char>, b: Seq<char>, c: char)
    ensures
        without(a + b, c) == without(a, c) + without(b, c),
    decreases b.len(),
{
    if b.len() == 0 {
        assert(a + b =~= a);
        assert(without(a, c) + without(b, c) =~= without(a, c));
    } else {
        assert((a + b).drop_last() =~= a + b.drop_last());
        lemma_without_add(a, b.drop_last(), c);
        if b.last() != c {
            assert(without(a, c) + without(b.drop_last(), c).push(b.last()) =~= (without(a, c)
                + without(b.drop_last(), c)).push(b.last()));
        }
    }
}

/// What some paragraphs say, without the white space around each.
pub open spec fn said(paras: Seq<Seq<char>>) -> Seq<char>
    decreases paras.len(),
{
    if paras.len() == 0 {
        seq![]
    } else {
        said(paras.drop_last()) + without(trim(paras.last()), '\n')
    }
}

proof fn lemma_trim_end(s: Seq<char>)
    ensures
        trim(s).len() > 0 ==> !is_white(trim(s).last()),
{
    crate::text::lemma_trail(crate::text::trim_start(s));
}

proof fn lemma_packed(paras: Seq<Seq<char>>, max: int)
    requires
        max > 0,
    ensures
        without(run_on(packed(paras, max).done) + packed(paras, max).open, '\n') == said(paras),
        packed(paras, max).open.len() > 0 ==> !is_white(packed(paras, max).open.last()),
        byte_len(packed(paras, max).open) < max,
        forall|i: int|
            0 <= i < packed(paras, max).done.len() ==> 0 < (#[trigger] packed(
                paras,
                max,
            ).done[i]).len() && byte_len(packed(paras, max).done[i]) < max + 4,
    decreases paras.len(),
{
    let k = packed(paras, max);
    if paras.len() == 0 {
        assert(run_on(k.done) + k.open =~= seq![]);
        assert(byte_len(k.open) == 0);
    } else {
        let before = packed(paras.drop_last(), max);
        let p = trim(paras.last());
        lemma_packed(paras.drop_last(), max);
        lemma_trim_end(paras.last());
        if p.len() == 0 {
            assert(without(p, '\n') =~= seq![]);
            assert(said(paras) =~= said(paras.drop_last()));
        } else {
            let full = before.open.len() > 0 && byte_len(before.open) + byte_len(p) + 1 > max;
            let base = if full {
                before.done.push(before.open)
            } else {
                before.done
            };
            let open = if full {
                seq![]
            } else {
                before.open
            };
            let whole = appended(open, p);
            lemma_pieces_of(whole, max);
            lemma_run_on(base, full_pieces(whole, max));
            assert(run_on(k.done) + k.open =~= run_on(base) + whole);
            if full {
                assert(base.drop_last() =~= before.done);
                assert(run_on(base) == run_on(before.done) + before.open);
            } else {
                assert(run_on(base) + open =~= run_on(before.done) + before.open);
            }
            assert(run_on(base) + open =~= run_on(before.done) + before.open);
            if open.len() > 0 {
                assert(run_on(base) + whole =~= (run_on(base) + open).push('\n') + p);
                lemma_without_add((run_on(base) + open).push('\n'), p, '\n');
                assert((run_on(base) + open).push('\n').drop_last() =~= run_on(base) + open);
            } else {
                assert(run_on(base) + whole =~= (run_on(base) + open) + p);
                lemma_without_add(run_on(base) + open, p, '\n');
            }
            assert(whole.last() == p.last());
            assert forall|i: int| 0 <= i < k.done.len() implies 0 < (#[trigger] k.done[i]).len()
                && byte_len(k.done[i]) < max + 4 by {
                if i < before.done.len() {
                    assert(k.done[i] == before.done[i]);
                } else if full && i == before.done.len() {
                    assert(k.done[i] == before.open);
                } else {
                    assert(k.done[i] == full_pieces(whole, max)[i - base.len()]);
                }
            }
        }
    }
}

/// No chunk is empty, and none takes more than three bytes beyond the size that was
/// asked for.
pub proof fn chunks_keep_to_the_size(text: Seq<char>, max: int)
    ensures
        forall|i: int|
            0 <= i < chunked(text, max).len() ==> 0 < (#[trigger] chunked(text, max)[i]).len()
                && byte_len(chunked(text, max)[i]) <= fitted(max) + 3,
{
    let k = packed(pieces(text, '\n'), fitted(max));
    lemma_packed(pieces(text, '\n'), fitted(max));
    assert forall|i: int| 0 <= i < chunked(text, max).len() implies 0 < (#[trigger] chunked(
        text,
        max,
    )[i]).len() && byte_len(chunked(text, max)[i]) <= fitted(max) + 3 by {
        if i < k.done.len() {
            assert(chunked(text, max)[i] == k.done[i]);
        } else {
            assert(k.open.len() > 0) by {
                if k.open.len() == 0 {
                    assert(lead(k.open) == 0);
                }
            }
        }
    }
}

/// Chunking loses nothing: behind each other, and line ends aside, the chunks of a text
/// say what its lines say.
pub proof fn chunking_loses_nothing(text: Seq<char>, max: int)
    ensures
        without(run_on(chunked(text, max)), '\n') == said(pieces(text, '\n')),
{
    let k = packed(pieces(text, '\n'), fitted(max));
    lemma_packed(pieces(text, '\n'), fitted(max));
    if blank(k.open) {
        lemma_lead(k.open);
        assert(k.open.len() == 0) by {
            if k.open.len() > 0 {
                assert(is_white(k.open[k.open.len() - 1]));
            }
        }
        assert(run_on(k.done) + k.open =~= run_on(k.done));
    } else {
        assert(k.done.push(k.open).drop_last() =~= k.done);
    }
}

/// Whether an extension in small letters tells a content type, or a language that the code
/// index knows.
pub open spec fn is_known(ext: Seq<char>) -> bool {
    type_of_extension(ext) != "application/octet-stream"@ || language_of(ext) != "text"@
}

proof fn lemma_languages(ext: Seq<char>)
    ensures
        ext == "yaml"@ || ext == "yml"@ || ext == "sql"@ || ext == "css"@ || ext == "rs"@ || ext
            == "py"@ || ext == "js"@ || ext == "ts"@ ==> language_of(ext) != "text"@,
{
    reveal_strlit("rust");
    reveal_strlit("python");
    reveal_strlit("javascript");
    reveal_strlit("typescript");
    reveal_strlit("tsx");
    reveal_strlit("jsx");
    reveal_strlit("go");
    reveal_strlit("java");
    reveal_strlit("cpp");
    reveal_strlit("c");
    reveal_strlit("csharp");
    reveal_strlit("ruby");
    reveal_strlit("kotlin");
    reveal_strlit("swift");
    reveal_strlit("markdown");
    reveal_strlit("toml");
    reveal_strlit("json");
    reveal_strlit("yaml");
    reveal_strlit("html");
    reveal_strlit("css");
    reveal_strlit("shell");
    reveal_strlit("sql");
    reveal_strlit("php");
    reveal_strlit("lua");
    reveal_strlit("zig");
    reveal_strlit("cobol");
    reveal_strlit("jcl");
    reveal_strlit("natural");
    reveal_strlit("rpg");
    reveal_strlit("powerscript");
    reveal_strlit("text");
    assert("text"@[0] == 't' && "text"@[1] == 'e');
    assert("rust"@[0] == 'r' && "java"@[0] == 'j' && "ruby"@[0] == 'r' && "json"@[0] == 'j');
    assert("yaml"@[0] == 'y' && "html"@[0] == 'h' && "toml"@[1] == 'o');
}

proof fn lemma_office(ct: Seq<char>)
    requires
        ct == "application/vnd.openxmlformats-officedocument.wordprocessingml.document"@ || ct
            == "application/vnd.openxmlformats-officedocument.spreadsheetml.sheet"@ || ct
            == "application/vnd.openxmlformats-officedocument.presentationml.presentation"@,
    ensures
        has(ct, "xml"@),
        ct != "application/octet-stream"@,
{
    reveal_strlit("xml");
    reveal_strlit("application/octet-stream");
    reveal_strlit("application/vnd.openxmlformats-officedocument.wordprocessingml.document");
    reveal_strlit("application/vnd.openxmlformats-officedocument.spreadsheetml.sheet");
    reveal_strlit("application/vnd.openxmlformats-officedocument.presentationml.presentation");
    assert(ct.subrange(20, 23) =~= "xml"@);
    assert(stands_at(ct, "xml"@, 20));
}

/// A file whose extension is known is read, whatever it holds: no document is put aside as
/// unsupported for its type. The extensions of office documents, of structured text and of
/// source code are among those known.
pub proof fn known_files_are_read(ext: Seq<char>)
    ensures
        is_known(ext) ==> reading(typed(ext, language_of(ext))) != Reading::Unsupported,
        ext == "docx"@ || ext == "xlsx"@ || ext == "pptx"@ || ext == "jsonl"@ || ext == "csv"@
            ==> is_known(ext),
        ext == "yaml"@ || ext == "yml"@ || ext == "sql"@ || ext == "css"@ || ext == "rs"@ || ext
            == "py"@ || ext == "js"@ || ext == "ts"@ ==> is_known(ext),
{
    lemma_languages(ext);
    reveal_strlit("application/octet-stream");
    reveal_strlit("text/");
    reveal_strlit("html");
    reveal_strlit("json");
    reveal_strlit("application/pdf");
    reveal_strlit("application/json");
    reveal_strlit("text/markdown");
    reveal_strlit("text/plain");
    reveal_strlit("text/html");
    reveal_strlit("text/xml");
    let t = type_of_extension(ext);
    let ct = typed(ext, language_of(ext));
    if t == "application/vnd.openxmlformats-officedocument.wordprocessingml.document"@ || t
        == "application/vnd.openxmlformats-officedocument.spreadsheetml.sheet"@ || t
        == "application/vnd.openxmlformats-officedocument.presentationml.presentation"@ {
        lemma_office(t);
    }
    if ct == "text/markdown"@ || ct == "text/plain"@ || ct == "text/xml"@ || ct == "text/html"@ {
        assert(ct.subrange(0, 5) =~= "text/"@);
        assert(begins(ct, "text/"@));
    }
    if ct == "application/json"@ {
        assert(ct.subrange(12, 16) =~= "json"@);
        assert(stands_at(ct, "json"@, 12));
    }
}

} // verus!
