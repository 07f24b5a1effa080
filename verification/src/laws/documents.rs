//! Types of documents, and how their texts are cut.
use vstd::prelude::*;

use crate::ingest::{appended, cut_len, full_pieces, leftover, media_type, packed, packed_with};
use crate::ingest::{page_title, pdf_text, type_of_extension, typed, Packing, PdfText};
use crate::text::{byte_len, char_width, lemma_byte_len_step, trim};

verus! {

/// A file is of the type that its ending tells.
pub proof fn endings_tell_types(ext: Seq<char>, t: Seq<char>)
    requires
        ((ext == "pdf"@) && t == "application/pdf"@)
            || ((ext == "json"@) && t == "application/json"@)
            || ((ext == "md"@ || ext == "markdown"@) && t == "text/markdown"@)
            || ((ext == "txt"@ || ext == "csv"@ || ext == "jsonl"@) && t == "text/plain"@)
            || ((ext == "html"@ || ext == "htm"@) && t == "text/html"@)
            || ((ext == "xml"@) && t == "text/xml"@)
            || ((ext == "docx"@) && t == "application/vnd.openxmlformats-officedocument.wordprocessingml.document"@)
            || ((ext == "xlsx"@) && t == "application/vnd.openxmlformats-officedocument.spreadsheetml.sheet"@)
            || ((ext == "pptx"@) && t == "application/vnd.openxmlformats-officedocument.presentationml.presentation"@),
    ensures
        type_of_extension(ext) == t,
{
    reveal_strlit("pdf");
    reveal_strlit("json");
    reveal_strlit("md");
    reveal_strlit("markdown");
    reveal_strlit("txt");
    reveal_strlit("html");
    reveal_strlit("htm");
    reveal_strlit("xml");
    reveal_strlit("csv");
    reveal_strlit("jsonl");
    reveal_strlit("docx");
    reveal_strlit("xlsx");
    reveal_strlit("pptx");
    assert("pdf"@.len() == 3 && "pdf"@[0] == 'p' && "pdf"@[1] == 'd' && "pdf"@[2] == 'f');
    assert("json"@.len() == 4 && "json"@[0] == 'j' && "json"@[1] == 's' && "json"@[2] == 'o' && "json"@[3] == 'n');
    assert("md"@.len() == 2 && "md"@[0] == 'm' && "md"@[1] == 'd');
    assert("markdown"@.len() == 8 && "markdown"@[0] == 'm' && "markdown"@[1] == 'a' && "markdown"@[2] == 'r' && "markdown"@[3] == 'k');
    assert("txt"@.len() == 3 && "txt"@[0] == 't' && "txt"@[1] == 'x' && "txt"@[2] == 't');
    assert("html"@.len() == 4 && "html"@[0] == 'h' && "html"@[1] == 't' && "html"@[2] == 'm' && "html"@[3] == 'l');
    assert("htm"@.len() == 3 && "htm"@[0] == 'h' && "htm"@[1] == 't' && "htm"@[2] == 'm');
    assert("xml"@.len() == 3 && "xml"@[0] == 'x' && "xml"@[1] == 'm' && "xml"@[2] == 'l');
    assert("csv"@.len() == 3 && "csv"@[0] == 'c' && "csv"@[1] == 's' && "csv"@[2] == 'v');
    assert("jsonl"@.len() == 5 && "jsonl"@[0] == 'j' && "jsonl"@[1] == 's' && "jsonl"@[2] == 'o' && "jsonl"@[3] == 'n');
    assert("docx"@.len() == 4 && "docx"@[0] == 'd' && "docx"@[1] == 'o' && "docx"@[2] == 'c' && "docx"@[3] == 'x');
    assert("xlsx"@.len() == 4 && "xlsx"@[0] == 'x' && "xlsx"@[1] == 'l' && "xlsx"@[2] == 's' && "xlsx"@[3] == 'x');
    assert("pptx"@.len() == 4 && "pptx"@[0] == 'p' && "pptx"@[1] == 'p' && "pptx"@[2] == 't' && "pptx"@[3] == 'x');
}

/// A file of another ending is plain text where it is of a language, and else unknown.
pub proof fn other_files_are_text_in_a_language(ext: Seq<char>, language: Seq<char>)
    requires
        ext != "pdf"@,
        ext != "json"@,
        ext != "md"@,
        ext != "markdown"@,
        ext != "txt"@,
        ext != "html"@,
        ext != "htm"@,
        ext != "xml"@,
        ext != "csv"@,
        ext != "jsonl"@,
        ext != "docx"@,
        ext != "xlsx"@,
        ext != "pptx"@,
    ensures
        language != "text"@ ==> typed(ext, language) == "text/plain"@,
        language == "text"@ ==> typed(ext, language) == "application/octet-stream"@,
{
}

/// The type of a document ends at the semicolon, without the white around it.
pub proof fn types_end_at_the_semicolon(t: Seq<char>, rest: Seq<char>)
    requires
        forall|i: int| 0 <= i < t.len() ==> #[trigger] t[i] != ';',
    ensures
        media_type(t) == trim(t),
        media_type(t + seq![';'] + rest) == trim(t),
{
    crate::laws::text::lemma_until_there(t, seq![], ';');
    assert(t + seq![] =~= t);
    assert(t.take(t.len() as int) =~= t);
    crate::laws::text::lemma_until_there(t, seq![';'] + rest, ';');
    assert(t + seq![';'] + rest =~= t + (seq![';'] + rest));
    assert((t + seq![';'] + rest).take(t.len() as int) =~= t);
}

/// A PDF that cannot be read, or that holds no text, says so.
pub proof fn unread_documents_say_so(t: String, e: String)
    ensures
        trim(t@).len() > 0 ==> pdf_text(PdfText::Read(t)) == trim(t@),
        trim(t@).len() == 0 ==> pdf_text(PdfText::Read(t))
            == "[klayer] PDF contained no extractable text (may be a scanned image)."@,
        pdf_text(PdfText::Failed(e)) == "[klayer] PDF extraction failed: "@ + e@,
{
}

/// The first title of a page is its title.
pub proof fn the_first_title_counts(titles: Seq<(Seq<char>, Option<Seq<char>>)>)
    ensures
        titles.len() > 0 ==> page_title(Some(titles)) == trim(titles[0].0),
        titles.len() == 0 ==> page_title(Some(titles)).len() == 0,
        page_title(None).len() == 0,
{
}

/// A paragraph goes into the chunk that is open where it fits in, with a line feed before
/// it; else that chunk is done, and the paragraph opens the next.
pub proof fn paragraphs_are_packed(k: Packing, p: Seq<char>, max: int)
    requires
        max > 0,
        byte_len(p) < max,
    ensures
        p.len() == 0 ==> packed_with(k, p, max) == k,
        p.len() > 0 && k.open.len() == 0 ==> packed_with(k, p, max) == (Packing {
            done: k.done,
            open: p,
        }),
        p.len() > 0 && k.open.len() > 0 && byte_len(k.open) + 1 + byte_len(p) < max ==> packed_with(
            k,
            p,
            max,
        ) == (Packing { done: k.done, open: k.open + seq!['\n'] + p }),
        p.len() > 0 && k.open.len() > 0 && byte_len(k.open) + 1 + byte_len(p) > max ==> packed_with(
            k,
            p,
            max,
        ) == (Packing { done: k.done.push(k.open), open: p }),
{
    lemma_fits(p, max);
    assert(k.done + Seq::<Seq<char>>::empty() =~= k.done);
    assert(k.done.push(k.open) + Seq::<Seq<char>>::empty() =~= k.done.push(k.open));
    let whole = k.open + seq!['\n'] + p;
    assert(appended(k.open, p) =~= if k.open.len() > 0 {
        whole
    } else {
        p
    });
    crate::text::lemma_byte_len_add(k.open + seq!['\n'], p);
    crate::text::lemma_byte_len_add(k.open, seq!['\n']);
    lemma_line_feed();
    if byte_len(k.open) + 1 + byte_len(p) < max {
        lemma_fits(whole, max);
    }
}

proof fn lemma_line_feed()
    ensures
        byte_len(seq!['\n']) == 1,
{
    let s = seq!['\n'];
    lemma_byte_len_step(s);
    assert(s.skip(1) =~= seq![]);
    assert(byte_len(Seq::<char>::empty()) == 0) by {
        reveal_with_fuel(vstd::utf8::encode_utf8, 2);
    }
    assert(char_width('\n') == 1);
}

proof fn lemma_fits(s: Seq<char>, max: int)
    requires
        byte_len(s) < max,
    ensures
        full_pieces(s, max) == Seq::<Seq<char>>::empty(),
        leftover(s, max) == s,
{
}

/// Paragraphs are packed one after the other, without the white around them.
pub proof fn paragraphs_are_packed_in_order(paras: Seq<Seq<char>>, p: Seq<char>, max: int)
    ensures
        packed(seq![], max).done.len() == 0,
        packed(seq![], max).open.len() == 0,
        packed(paras.push(p), max) == packed_with(packed(paras, max), trim(p), max),
{
    assert(paras.push(p).drop_last() =~= paras);
}

/// A paragraph that is too long is cut at the first character with which it is full.
pub proof fn long_paragraphs_are_cut_when_full(s: Seq<char>, max: int)
    requires
        max > 0,
        byte_len(s) >= max,
    ensures
        ({
            let n = cut_len(s, max) as int;
            &&& 0 < n <= s.len()
            &&& byte_len(s.take(n - 1)) < max <= byte_len(s.take(n))
            &&& full_pieces(s, max) == seq![s.take(n)] + full_pieces(s.skip(n), max)
            &&& leftover(s, max) == leftover(s.skip(n), max)
        }),
{
    lemma_cut(s, max);
}

proof fn lemma_cut(s: Seq<char>, max: int)
    requires
        max > 0,
        byte_len(s) >= max,
    ensures
        0 < cut_len(s, max) <= s.len(),
        byte_len(s.take(cut_len(s, max) - 1)) < max <= byte_len(s.take(cut_len(s, max) as int)),
    decreases s.len(),
{
    assert(byte_len(Seq::<char>::empty()) == 0) by {
        reveal_with_fuel(vstd::utf8::encode_utf8, 2);
    }
    if s.len() == 0 {
        assert(s =~= seq![]);
    } else {
        lemma_byte_len_step(s);
        let w = char_width(s[0]) as int;
        let n = cut_len(s, max) as int;
        if max - w <= 0 {
            assert(cut_len(s.skip(1), max - w) == 0);
            assert(n == 1);
            assert(s.take(0) =~= seq![]);
            let one = s.take(1);
            lemma_byte_len_step(one);
            assert(one.skip(1) =~= seq![]);
        } else {
            lemma_cut(s.skip(1), max - w);
            let a = s.take(n);
            let b = s.take(n - 1);
            lemma_byte_len_step(a);
            lemma_byte_len_step(b);
            assert(a.skip(1) =~= s.skip(1).take(n - 1));
            assert(b.skip(1) =~= s.skip(1).take(n - 2));
        }
    }
}

} // verus!
