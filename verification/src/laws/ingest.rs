//! What is read of a document, and how its text is cut.
use vstd::prelude::*;

use crate::html::html_elements;
use crate::ingest::{chunked, chunks_keep_to_the_size, document_text, document_title, full_pieces};
use crate::ingest::{leftover, local, local_path, lossy, packed, prose, without_slashes, Packing};
use crate::ingest::PdfText;
use crate::json::pretty_json;
use crate::text::{begins, blank, byte_len, has, joined, lead, lemma_byte_len_add};
use crate::text::{lemma_byte_len_step, lemma_lead, pieces, stands_at, trim, words};

verus! {

/// A page is read of its paragraphs, list items, headings of the first four levels,
/// preformatted blocks and quotes: of each, its words with single spaces between them make
/// a line, where they take three bytes at least. Its title is the text of its first title
/// element, without the white space around it.
pub proof fn pages_are_read_of_their_prose(ct: Seq<char>, body: Seq<u8>, pdf: PdfText)
    requires
        has(ct, "html"@),
    ensures
        html_elements(lossy(body), "p, li, h1, h2, h3, h4, pre, blockquote"@) matches Some(found)
            ==> document_text(ct, body, pdf) == joined(prose(found), "\n"@),
        html_elements(lossy(body), "title"@) matches Some(titles) ==> titles.len() > 0
            ==> document_title(ct, body) == trim(titles[0].0),
{
}

/// The lines of a page are those of its elements one after the other, and an element gives
/// one line, of its words, or none where they take less than three bytes.
pub proof fn each_element_gives_its_line(
    a: Seq<(Seq<char>, Option<Seq<char>>)>,
    b: Seq<(Seq<char>, Option<Seq<char>>)>,
    e: (Seq<char>, Option<Seq<char>>),
)
    ensures
        prose(a + b) == prose(a) + prose(b),
        byte_len(joined(words(e.0), " "@)) >= 3 ==> prose(seq![e]) == seq![joined(words(e.0), " "@)],
        byte_len(joined(words(e.0), " "@)) < 3 ==> prose(seq![e]).len() == 0,
    decreases b.len(),
{
    reveal_with_fuel(prose, 2);
    assert(seq![e].drop_last() =~= seq![]);
    if byte_len(joined(words(e.0), " "@)) >= 3 {
        assert(prose(seq![e]) =~= seq![joined(words(e.0), " "@)]);
    }
    if b.len() == 0 {
        assert(a + b =~= a);
        assert(prose(a) + prose(b) =~= prose(a));
    } else {
        assert((a + b).drop_last() =~= a + b.drop_last());
        each_element_gives_its_line(a, b.drop_last(), e);
        assert(prose(a + b) =~= prose(a) + prose(b));
    }
}

/// What is no page is read by its type: JSON is laid out where it is valid and kept as it
/// is where it is not, other text is kept without the white space around it, and what was
/// read of a PDF likewise. A type that is none of these is named in what is said instead.
pub proof fn documents_are_read_by_type(ct: Seq<char>, body: Seq<u8>, pdf: PdfText)
    requires
        !(has(ct, "html"@)),
    ensures
        document_title(ct, body).len() == 0,
        (ct == "application/pdf"@ || ct == "application/x-pdf"@) ==> (match pdf {
            PdfText::Read(t) => trim(t@).len() > 0 ==> document_text(ct, body, pdf) == trim(t@),
            PdfText::Failed(e) => has(document_text(ct, body, pdf), e@),
        }),
        ct != "application/pdf"@ && ct != "application/x-pdf"@ ==> {
            &&& has(ct, "json"@) ==> document_text(ct, body, pdf) == (match pretty_json(lossy(body)) {
                Some(t) => t,
                None => lossy(body),
            })
            &&& !(has(ct, "json"@)) && (begins(ct, "text/"@) || has(ct, "markdown"@) || has(ct, "xml"@))
                ==> document_text(ct, body, pdf) == trim(lossy(body))
            &&& !(has(ct, "json"@)) && !begins(ct, "text/"@) && !(has(ct, "markdown"@)) && !(has(
                ct,
                "xml"@,
            )) ==> has(document_text(ct, body, pdf), "'"@ + ct + "'"@) && begins(
                document_text(ct, body, pdf),
                "[klayer] Unsupported content-type"@,
            )
        },
{
    reveal_strlit("'");
    reveal_strlit("[klayer] Unsupported content-type");
    reveal_strlit("[klayer] Unsupported content-type '");
    reveal_strlit("'. Supported: HTML, PDF, JSON, plain text / Markdown.");
    reveal_strlit("[klayer] PDF extraction failed: ");
    let t = document_text(ct, body, pdf);
    let n = "[klayer] Unsupported content-type '"@.len() as int;
    let u = crate::ingest::unsupported(ct);
    assert(u.subrange(n - 1, n + ct.len() + 1) =~= "'"@ + ct + "'"@);
    assert(stands_at(u, "'"@ + ct + "'"@, n - 1));
    assert(u.subrange(0, n - 2) =~= "[klayer] Unsupported content-type"@);
    if let PdfText::Failed(e) = pdf {
        let m = "[klayer] PDF extraction failed: "@.len() as int;
        let f = crate::ingest::pdf_text(pdf);
        assert(f.subrange(m, m + e@.len()) =~= e@);
        assert(stands_at(f, e@, m));
    }
}

/// No chunk takes more bytes than were asked for, but for the last character, and two
/// hundred where less was asked for.
pub proof fn no_chunk_is_too_large(text: Seq<char>, max: int)
    ensures
        forall|i: int|
            0 <= i < chunked(text, max).len() ==> 0 < byte_len(#[trigger] chunked(text, max)[i]) && (
            if max <= 200 {
                byte_len(chunked(text, max)[i]) <= 203
            } else {
                byte_len(chunked(text, max)[i]) <= max + 3
            }),
{
    chunks_keep_to_the_size(text, max);
    assert forall|i: int| 0 <= i < chunked(text, max).len() implies 0 < byte_len(
        #[trigger] chunked(text, max)[i],
    ) by {
        let c = chunked(text, max)[i];
        assert(c.len() > 0);
        lemma_byte_len_step(c);
    }
}

/// The lines of a text that hold something, without the white space around each.
pub open spec fn kept_lines(lines: Seq<Seq<char>>) -> Seq<Seq<char>>
    decreases lines.len(),
{
    if lines.len() == 0 {
        seq![]
    } else if trim(lines.last()).len() == 0 {
        kept_lines(lines.drop_last())
    } else {
        kept_lines(lines.drop_last()).push(trim(lines.last()))
    }
}

proof fn lemma_joined_push(a: Seq<Seq<char>>, x: Seq<char>, sep: Seq<char>)
    ensures
        a.len() > 0 ==> joined(a.push(x), sep) == joined(a, sep) + sep + x,
        a.len() == 0 ==> joined(a.push(x), sep) == x,
{
    assert(a.push(x).drop_last() =~= a);
}

proof fn lemma_one_chunk(lines: Seq<Seq<char>>, max: int)
    requires
        max > 0,
        byte_len(joined(kept_lines(lines), "\n"@)) < max,
    ensures
        packed(lines, max) == (Packing { done: seq![], open: joined(kept_lines(lines), "\n"@) }),
        kept_lines(lines).len() > 0 ==> joined(kept_lines(lines), "\n"@).len() > 0,
    decreases lines.len(),
{
    reveal_strlit("\n");
    if lines.len() > 0 {
        let head = lines.drop_last();
        let p = trim(lines.last());
        let kept = kept_lines(head);
        let open = joined(kept, "\n"@);
        if p.len() == 0 {
            lemma_one_chunk(head, max);
        } else {
            lemma_joined_push(kept, p, "\n"@);
            let whole = joined(kept.push(p), "\n"@);
            if kept.len() > 0 {
                lemma_byte_len_add(open + "\n"@, p);
                lemma_byte_len_add(open, "\n"@);
                assert("\n"@ =~= seq!['\n']);
                lemma_byte_len_step("\n"@);
                assert("\n"@.skip(1) =~= seq![]);
                assert(byte_len(seq![]) == 0);
                assert(crate::text::char_width('\n') == 1) by {
                    reveal(vstd::utf8::encode_scalar);
                }
                lemma_one_chunk(head, max);
                assert(open.push('\n') + p =~= whole);
            } else {
                assert(byte_len(seq![]) == 0);
                assert(open =~= seq![]);
                lemma_one_chunk(head, max);
            }
            assert(full_pieces(whole, max) =~= seq![]);
            assert(leftover(whole, max) == whole);
            assert(packed(lines, max) =~= (Packing { done: seq![], open: whole }));
        }
    } else {
        assert(packed(lines, max) =~= (Packing { done: seq![], open: seq![] }));
    }
}

/// A text whose lines fit into one chunk is one chunk: its lines that hold something,
/// without the white space around each. A text without any gives none.
pub proof fn lines_that_fit_stay_together(text: Seq<char>, max: int)
    requires
        byte_len(joined(kept_lines(pieces(text, '\n')), "\n"@)) < if max < 200 {
            200
        } else {
            max
        },
    ensures
        kept_lines(pieces(text, '\n')).len() == 0 ==> chunked(text, max).len() == 0,
        kept_lines(pieces(text, '\n')).len() > 0 ==> chunked(text, max) == seq![
            joined(kept_lines(pieces(text, '\n')), "\n"@),
        ],
{
    let lines = pieces(text, '\n');
    lemma_one_chunk(lines, crate::ingest::fitted(max));
    let kept = kept_lines(lines);
    let open = joined(kept, "\n"@);
    if kept.len() > 0 {
        lemma_last_is_ink(lines);
        lemma_lead(open);
        assert(!blank(open)) by {
            if blank(open) {
                assert(crate::text::is_white(open[open.len() - 1]));
            }
        }
        assert(chunked(text, max) =~= seq![open]);
    } else {
        assert(open =~= seq![]);
        assert(lead(open) == 0);
    }
}

proof fn lemma_last_is_ink(lines: Seq<Seq<char>>)
    ensures
        kept_lines(lines).len() > 0 ==> joined(kept_lines(lines), "\n"@).len() > 0
            && !crate::text::is_white(joined(kept_lines(lines), "\n"@).last()),
    decreases lines.len(),
{
    if lines.len() > 0 {
        lemma_last_is_ink(lines.drop_last());
        let p = trim(lines.last());
        crate::text::lemma_trail(crate::text::trim_start(lines.last()));
        lemma_joined_push(kept_lines(lines.drop_last()), p, "\n"@);
    }
}

/// A file address names the path behind it, however many slashes there are: an absolute
/// one, or one with a drive letter as it is. Any other source is its own path.
pub proof fn file_addresses_name_their_path(path: Seq<char>)
    requires
        path.len() > 0,
        path[0] != '/',
    ensures
        local("file://"@ + path) && local("file:///"@ + path),
        path.len() > 1 && path[1] == ':' ==> local_path("file:///"@ + path) == path,
        !(path.len() > 1 && path[1] == ':') ==> local_path("file:///"@ + path) == "/"@ + path
            && local_path("file://"@ + path) == "/"@ + path,
        local(path) ==> begins(path, "file://"@) || path[1] == ':',
        !begins(path, "file://"@) ==> local_path(path) == path,
        local("/"@ + path) && local_path("/"@ + path) == "/"@ + path,
{
    reveal_strlit("file://");
    reveal_strlit("file:///");
    reveal_strlit("/");
    reveal_with_fuel(without_slashes, 3);
    let a = "file://"@ + path;
    let b = "file:///"@ + path;
    let c = "/"@ + path;
    assert(a.subrange(0, 7) =~= "file://"@);
    assert(b.subrange(0, 7) =~= "file://"@);
    assert(a.skip(7) =~= path);
    assert(b.skip(7) =~= seq!['/'] + path);
    assert(b.skip(7).skip(1) =~= path);
    assert(c.subrange(0, 1) =~= "/"@);
    assert(!begins(c, "file://"@)) by {
        if begins(c, "file://"@) {
            assert(c.subrange(0, 7)[0] == '/');
        }
    }
    assert(!begins(path, "/"@)) by {
        if begins(path, "/"@) {
            assert(path.subrange(0, 1)[0] == path[0]);
        }
    }
}

} // verus!
