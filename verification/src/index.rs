//! Reading the files of a repository: which are indexed, and how they are cut into
//! chunks of lines.
use vstd::prelude::*;
use vstd::utf8::{decode_utf8, valid_utf8};

use crate::symbols::{detect_symbol, first_symbol, head_lines};
use crate::text::{blank, copy_opt, decimal, is_blank, join, joined, lines, number, opt, same};
use crate::text::{split_lines, starts_with, swap_char, swapped, texts};
use crate::types::{lemma_models_push, models};

verus! {

/// How many lines a chunk of a file holds at most.
pub const CHUNK_LINES: usize = 80;

/// The size in bytes above which a file is not indexed.
pub const MAX_FILE_BYTES: u64 = 524288;

/// How many bytes of a file are looked at to tell whether it is text.
pub const SNIFFED_BYTES: usize = 8192;

/// Some consecutive lines of a file, and the symbol that they begin with.
#[derive(Debug)]
pub struct ChunkEntry {
    /// The number of the first line, counted from one.
    pub line_start: usize,
    /// The number of the last line.
    pub line_end: usize,
    pub content: String,
    pub kind: Option<String>,
    pub symbol_name: Option<String>,
}

/// What a [`ChunkEntry`] holds, as mathematical values.
#[verifier::ext_equal]
pub struct ChunkEntryModel {
    pub line_start: usize,
    pub line_end: usize,
    pub content: Seq<char>,
    pub kind: Option<Seq<char>>,
    pub symbol_name: Option<Seq<char>>,
}

impl View for ChunkEntry {
    type V = ChunkEntryModel;

    open spec fn view(&self) -> ChunkEntryModel {
        ChunkEntryModel {
            line_start: self.line_start,
            line_end: self.line_end,
            content: self.content@,
            kind: opt(self.kind),
            symbol_name: opt(self.symbol_name),
        }
    }
}

impl Clone for ChunkEntry {
    fn clone(&self) -> (r: Self)
        ensures
            r@ == self@,
    {
        ChunkEntry {
            line_start: self.line_start,
            line_end: self.line_end,
            content: self.content.clone(),
            kind: copy_opt(&self.kind),
            symbol_name: copy_opt(&self.symbol_name),
        }
    }
}

/// A copy of some chunks.
pub fn copy_chunks(v: &Vec<ChunkEntry>) -> (r: Vec<ChunkEntry>)
    ensures
        models(r@) == models(v@),
{
    let mut r: Vec<ChunkEntry> = Vec::new();
    let mut i: usize = 0;
    assert(models(r@) =~= models(v@).take(0));
    while i < v.len()
        invariant
            i <= v@.len(),
            models(r@) == models(v@).take(i as int),
        decreases v.len() - i,
    {
        broadcast use lemma_models_push;

        r.push(v[i].clone());
        assert(models(r@) =~= models(v@).take(i + 1));
        i += 1;
    }
    assert(models(v@).take(i as int) =~= models(v@));
    r
}

/// A file that is to be indexed.
#[derive(Debug)]
pub struct FileEntry {
    /// Its path below the root of the repository.
    pub rel_path: String,
    pub language: String,
    pub chunks: Vec<ChunkEntry>,
}

/// What a [`FileEntry`] holds, as mathematical values.
#[verifier::ext_equal]
pub struct FileEntryModel {
    pub rel_path: Seq<char>,
    pub language: Seq<char>,
    pub chunks: Seq<ChunkEntryModel>,
}

impl View for FileEntry {
    type V = FileEntryModel;

    open spec fn view(&self) -> FileEntryModel {
        FileEntryModel {
            rel_path: self.rel_path@,
            language: self.language@,
            chunks: models(self.chunks@),
        }
    }
}

impl Clone for FileEntry {
    fn clone(&self) -> (r: Self)
        ensures
            r@ == self@,
    {
        FileEntry {
            rel_path: self.rel_path.clone(),
            language: self.language.clone(),
            chunks: copy_chunks(&self.chunks),
        }
    }
}

// ---- walking a directory --------------------------------------------------

/// What an entry of a directory is.
#[derive(PartialEq, Eq, Structural, Clone, Copy, Debug)]
pub enum EntryKind {
    Directory,
    File,
    Other,
}

/// What is done with an entry of a directory.
#[derive(PartialEq, Eq, Structural, Clone, Copy, Debug)]
pub enum Visit {
    /// Its own entries are looked at.
    Descend,
    /// It is read as a file.
    Read,
    /// It is passed over.
    Pass,
}

/// Whether a directory holds what was built or brought in rather than written.
pub open spec fn is_skipped_dir(name: Seq<char>) -> bool {

    ||| name == ".git"@
    ||| name == "node_modules"@
    ||| name == "target"@
    ||| name == "__pycache__"@
    ||| name == ".venv"@
    ||| name == "venv"@
    ||| name == "env"@
    ||| name == "dist"@
    ||| name == "build"@
    ||| name == "vendor"@
    ||| name == ".next"@
    ||| name == ".nuxt"@
    ||| name == "coverage"@
    ||| name == ".nyc_output"@
    ||| name == "out"@
    ||| name == ".cache"@
    ||| name == ".parcel-cache"@
    ||| name == ".turbo"@
    ||| name == ".svelte-kit"@
}

/// What is done with an entry of a directory: hidden directories, and those of built or
/// foreign files, are passed over.
pub open spec fn visit(name: Seq<char>, kind: EntryKind) -> Visit {
    match kind {
        EntryKind::Directory => if (name.len() > 0 && name[0] == '.') || is_skipped_dir(name) {
            Visit::Pass
        } else {
            Visit::Descend
        },
        EntryKind::File => Visit::Read,
        EntryKind::Other => Visit::Pass,
    }
}

fn skipped_dir(name: &str) -> (r: bool)
    ensures
        r == is_skipped_dir(name@),
{
    same(name, ".git")
        || same(name, "node_modules")
        || same(name, "target")
        || same(name, "__pycache__")
        || same(name, ".venv")
        || same(name, "venv")
        || same(name, "env")
        || same(name, "dist")
        || same(name, "build")
        || same(name, "vendor")
        || same(name, ".next")
        || same(name, ".nuxt")
        || same(name, "coverage")
        || same(name, ".nyc_output")
        || same(name, "out")
        || same(name, ".cache")
        || same(name, ".parcel-cache")
        || same(name, ".turbo")
        || same(name, ".svelte-kit")
}

/// What is done with an entry of a directory.
pub fn visit_entry(name: &str, kind: EntryKind) -> (r: Visit)
    ensures
        r == visit(name@, kind),
{
    match kind {
        EntryKind::Directory => {
            proof {
                reveal_strlit(".");
                assert("."@ =~= seq!['.']);
                if name@.len() > 0 {
                    let d = name@.subrange(0, 0int + "."@.len());
                    assert(d[0] == name@[0]);
                    assert(d =~= seq![name@[0]]);
                    assert(seq!['.'][0] == '.');
                }
            }
            if starts_with(name, ".") || skipped_dir(name) {
                Visit::Pass
            } else {
                Visit::Descend
            }
        },
        EntryKind::File => Visit::Read,
        EntryKind::Other => Visit::Pass,
    }
}

// ---- chunks ---------------------------------------------------------------

/// The chunk of the lines `from` to `to` of a file.
pub open spec fn chunk_of(all: Seq<Seq<char>>, from: int, to: int, lang: Seq<char>) -> ChunkEntryModel {
    let part = all.subrange(from, to);
    let symbol = first_symbol(lang, head_lines(part));
    ChunkEntryModel {
        line_start: (from + 1) as usize,
        line_end: to as usize,
        content: joined(part, "\n"@),
        kind: match symbol {
            Some(x) => Some(x.0),
            None => None,
        },
        symbol_name: match symbol {
            Some(x) => Some(x.1),
            None => None,
        },
    }
}

/// Where the chunk that begins behind line `from` ends.
pub open spec fn chunk_end(len: int, from: int) -> int {
    if from + CHUNK_LINES <= len {
        from + CHUNK_LINES
    } else {
        len
    }
}

/// The chunks of the lines from `from` on.
pub open spec fn chunks_from(all: Seq<Seq<char>>, from: int, lang: Seq<char>) -> Seq<ChunkEntryModel>
    decreases all.len() - from,
{
    if from < 0 || from >= all.len() {
        seq![]
    } else {
        let to = chunk_end(all.len() as int, from);
        seq![chunk_of(all, from, to, lang)] + chunks_from(all, to, lang)
    }
}

/// The chunks of a file.
pub open spec fn chunks(content: Seq<char>, lang: Seq<char>) -> Seq<ChunkEntryModel> {
    chunks_from(lines(content), 0, lang)
}

fn part_of(v: &Vec<String>, from: usize, to: usize) -> (r: Vec<String>)
    requires
        from <= to <= v@.len(),
    ensures
        texts(r@) == texts(v@).subrange(from as int, to as int),
{
    let mut r: Vec<String> = Vec::new();
    let mut i: usize = from;
    assert(texts(r@) =~= texts(v@).subrange(from as int, i as int));
    while i < to
        invariant
            from <= i <= to <= v@.len(),
            texts(r@) == texts(v@).subrange(from as int, i as int),
        decreases to - i,
    {
        broadcast use crate::text::lemma_texts_push;

        r.push(v[i].clone());
        assert(texts(r@) =~= texts(v@).subrange(from as int, i + 1));
        i += 1;
    }
    r
}

/// Cuts a file into chunks of eighty lines; the last one may be shorter.
pub fn chunk_file(content: &str, lang: &str) -> (r: Vec<ChunkEntry>)
    ensures
        models(r@) == chunks(content@, lang@),
{
    let all: Vec<String> = split_lines(content);
    let ghost s = texts(all@);
    let ghost whole = chunks_from(s, 0, lang@);
    let mut r: Vec<ChunkEntry> = Vec::new();
    let mut i: usize = 0;
    assert(models(r@) + whole =~= whole);
    while i < all.len()
        invariant
            i <= all.len(),
            s == texts(all@),
            whole == models(r@) + chunks_from(s, i as int, lang@),
        decreases all.len() - i,
    {
        broadcast use lemma_models_push;

        let end: usize = if all.len() - i >= CHUNK_LINES { i + CHUNK_LINES } else { all.len() };
        let part: Vec<String> = part_of(&all, i, end);
        let symbol: (Option<String>, Option<String>) = detect_symbol(lang, part.as_slice());
        let entry: ChunkEntry = ChunkEntry {
            line_start: i + 1,
            line_end: end,
            content: join(&part, "\n"),
            kind: symbol.0,
            symbol_name: symbol.1,
        };
        assert(entry@ =~= chunk_of(s, i as int, end as int, lang@));
        let ghost before = models(r@);
        r.push(entry);
        assert(before + (seq![chunk_of(s, i as int, end as int, lang@)] + chunks_from(
            s,
            end as int,
            lang@,
        )) =~= before.push(chunk_of(s, i as int, end as int, lang@)) + chunks_from(
            s,
            end as int,
            lang@,
        ));
        i = end;
    }
    assert(models(r@) =~= whole);
    r
}

/// The chunks of a file follow each other without a gap, none is empty or longer than
/// eighty lines, and together they are all its lines.
pub proof fn chunks_cover_the_file(content: Seq<char>, lang: Seq<char>)
    requires
        lines(content).len() < usize::MAX,
    ensures
        chunks(content, lang).len() == 0 <==> lines(content).len() == 0,
        chunks(content, lang).len() > 0 ==> chunks(content, lang)[0].line_start == 1 && chunks(
            content,
            lang,
        ).last().line_end == lines(content).len(),
        forall|i: int|
            0 <= i < chunks(content, lang).len() ==> {
                let c = #[trigger] chunks(content, lang)[i];
                &&& c.line_start <= c.line_end < c.line_start + CHUNK_LINES
                &&& c.content == joined(
                    lines(content).subrange(c.line_start - 1, c.line_end as int),
                    "\n"@,
                )
            },
        forall|i: int, j: int|
            0 <= i && j == i + 1 && j < chunks(content, lang).len()
                ==> #[trigger] chunks(content, lang)[j].line_start == #[trigger] chunks(
                content,
                lang,
            )[i].line_end + 1,
{
    lemma_chunks_from(lines(content), 0, lang);
}

proof fn lemma_chunks_from(all: Seq<Seq<char>>, from: int, lang: Seq<char>)
    requires
        0 <= from <= all.len() < usize::MAX,
    ensures
        ({
            let r = chunks_from(all, from, lang);
            &&& r.len() == 0 <==> from == all.len()
            &&& r.len() > 0 ==> r[0].line_start == from + 1 && r.last().line_end == all.len()
            &&& forall|i: int|
                0 <= i < r.len() ==> {
                    let c = #[trigger] r[i];
                    &&& c.line_start <= c.line_end < c.line_start + CHUNK_LINES
                    &&& c.content == joined(all.subrange(c.line_start - 1, c.line_end as int), "\n"@)
                }
            &&& forall|i: int, j: int|
                0 <= i && j == i + 1 && j < r.len() ==> #[trigger] r[j].line_start
                    == #[trigger] r[i].line_end + 1
        }),
    decreases all.len() - from,
{
    if from < all.len() {
        let to = chunk_end(all.len() as int, from);
        let rest = chunks_from(all, to, lang);
        let r = chunks_from(all, from, lang);
        lemma_chunks_from(all, to, lang);
        assert(r[0] == chunk_of(all, from, to, lang));
        assert forall|i: int| 0 <= i < r.len() implies {
            let c = #[trigger] r[i];
            &&& c.line_start <= c.line_end < c.line_start + CHUNK_LINES
            &&& c.content == joined(all.subrange(c.line_start - 1, c.line_end as int), "\n"@)
        } by {
            if i > 0 {
                assert(r[i] == rest[i - 1]);
            }
        }
        assert forall|i: int, j: int| 0 <= i && j == i + 1 && j < r.len() implies #[trigger] r[j].line_start
            == #[trigger] r[i].line_end + 1 by {
            assert(r[j] == rest[j - 1]);
            if i > 0 {
                assert(r[i] == rest[i - 1]);
            }
        }
        if rest.len() > 0 {
            assert(r.last() == rest.last());
        }
    }
}

// ---- files ----------------------------------------------------------------

/// `String::from_utf8` of the standard library: the text that some bytes encode, or
/// `None` where they are no valid UTF-8.
#[verifier::external_body]
fn utf8_text(bytes: Vec<u8>) -> (r: Option<String>)
    ensures
        match r {
            Some(s) => valid_utf8(bytes@) && s@ == decode_utf8(bytes@),
            None => !valid_utf8(bytes@),
        },
{
    String::from_utf8(bytes).ok()
}

/// What reading a file came to.
#[verifier::ext_equal]
pub enum Outcome {
    /// It is indexed.
    Indexed(FileEntryModel),
    /// It is left out, for a reason that is told.
    Skipped(Seq<char>),
    /// It is left out without a word: there is nothing in it.
    Empty,
}

/// Whether the beginning of a file holds a zero byte.
pub open spec fn is_binary(bytes: Seq<u8>) -> bool {
    exists|i: int| 0 <= i < bytes.len() && i < SNIFFED_BYTES && #[trigger] bytes[i] == 0
}

/// What reading a file comes to. Its size and its bytes are `None` where they cannot be
/// told.
pub open spec fn outcome(
    path: Seq<char>,
    size: Option<u64>,
    bytes: Option<Seq<u8>>,
    lang: Seq<char>,
) -> Outcome {
    let rel = swapped(path, '\\', '/');
    if size matches Some(n) && n > MAX_FILE_BYTES {
        Outcome::Skipped(rel + ": exceeds "@ + decimal(MAX_FILE_BYTES as int) + " byte limit"@)
    } else {
        match bytes {
            None => Outcome::Skipped(rel + ": unreadable"@),
            Some(b) => if is_binary(b) {
                Outcome::Skipped(rel + ": binary content"@)
            } else if !valid_utf8(b) {
                Outcome::Skipped(rel + ": not valid UTF-8 text"@)
            } else if blank(decode_utf8(b)) || chunks(decode_utf8(b), lang).len() == 0 {
                Outcome::Empty
            } else {
                Outcome::Indexed(
                    FileEntryModel {
                        rel_path: rel,
                        language: lang,
                        chunks: chunks(decode_utf8(b), lang),
                    },
                )
            },
        }
    }
}

/// The files that are indexed, with one more where it is.
pub open spec fn files_with(files: Seq<FileEntryModel>, o: Outcome) -> Seq<FileEntryModel> {
    match o {
        Outcome::Indexed(f) => files.push(f),
        _ => files,
    }
}

/// The reasons for which files are left out, with one more where there is one.
pub open spec fn skips_with(skipped: Seq<Seq<char>>, o: Outcome) -> Seq<Seq<char>> {
    match o {
        Outcome::Skipped(why) => skipped.push(why),
        _ => skipped,
    }
}

/// Whether a file is too large to be read.
pub fn is_too_large(size: Option<u64>) -> (r: bool)
    ensures
        r == (size matches Some(n) && n > MAX_FILE_BYTES),
{
    match size {
        Some(n) => n > MAX_FILE_BYTES,
        None => false,
    }
}

fn holds_zero(bytes: &Vec<u8>) -> (r: bool)
    ensures
        r == is_binary(bytes@),
{
    let mut i: usize = 0;
    while i < bytes.len() && i < SNIFFED_BYTES
        invariant
            i <= bytes@.len(),
            i <= SNIFFED_BYTES,
            forall|j: int| 0 <= j < i ==> #[trigger] bytes@[j] != 0,
        decreases bytes.len() - i,
    {
        if bytes[i] == 0 {
            assert(bytes@[i as int] == 0);
            return true;
        }
        i += 1;
    }
    false
}

fn told(rel: String, why: &str) -> (r: String)
    ensures
        r@ == rel@ + why@,
{
    let mut r: String = rel;
    r.append(why);
    r
}

/// Takes up a file: adds it to the files that are indexed, or the reason for which it is
/// left out to the reasons, or neither where nothing is in it.
pub fn process_file_entry(
    path: &str,
    size: Option<u64>,
    bytes: Option<Vec<u8>>,
    lang: &str,
    out: &mut Vec<FileEntry>,
    skipped: &mut Vec<String>,
)
    ensures
        ({
            let o = outcome(
                path@,
                size,
                match bytes {
                    Some(b) => Some(b@),
                    None => None,
                },
                lang@,
            );
            &&& models(final(out)@) == files_with(models(old(out)@), o)
            &&& texts(final(skipped)@) == skips_with(texts(old(skipped)@), o)
        }),
{
    broadcast use lemma_models_push;
    broadcast use crate::text::lemma_texts_push;

    let rel: String = swap_char(path, '\\', '/');
    if is_too_large(size) {
        let mut why: String = told(rel, ": exceeds ");
        why.append(number(MAX_FILE_BYTES as i128).as_str());
        why.append(" byte limit");
        skipped.push(why);
        return ;
    }
    let bytes: Vec<u8> = match bytes {
        Some(b) => b,
        None => {
            skipped.push(told(rel, ": unreadable"));
            return ;
        },
    };
    if holds_zero(&bytes) {
        skipped.push(told(rel, ": binary content"));
        return ;
    }
    let content: String = match utf8_text(bytes) {
        Some(s) => s,
        None => {
            skipped.push(told(rel, ": not valid UTF-8 text"));
            return ;
        },
    };
    if is_blank(content.as_str()) {
        return ;
    }
    let chunks: Vec<ChunkEntry> = chunk_file(content.as_str(), lang);
    assert(models(chunks@).len() == chunks@.len());
    if chunks.len() > 0 {
        out.push(FileEntry { rel_path: rel, language: lang.to_owned(), chunks });
    }
}

/// What a chunk is searched by: its symbol, the path of its file and its lines.
pub fn search_body(rel_path: &str, chunk: &ChunkEntry) -> (r: String)
    ensures
        r@ == (match chunk@.symbol_name {
            Some(s) => s,
            None => seq![],
        }) + " "@ + rel_path@ + "\n"@ + chunk@.content,
{
    let mut r: String = match &chunk.symbol_name {
        Some(s) => s.clone(),
        None => String::new(),
    };
    r.append(" ");
    r.append(rel_path);
    r.append("\n");
    r.append(chunk.content.as_str());
    r
}

/// A file that is left out without a word holds nothing but white characters: any other
/// file is indexed, or the reason why it is not is told.
pub proof fn no_file_is_dropped_in_silence(
    path: Seq<char>,
    size: Option<u64>,
    bytes: Option<Seq<u8>>,
    lang: Seq<char>,
)
    ensures
        outcome(path, size, bytes, lang) is Empty ==> (bytes matches Some(b) && valid_utf8(b)
            && blank(decode_utf8(b))),
{
    if let Some(b) = bytes {
        let t = decode_utf8(b);
        if !blank(t) {
            assert(t.len() > 0) by {
                if t.len() == 0 {
                    assert(blank(t));
                }
            }
            assert(lines(t).len() > 0);
        }
    }
}

} // verus!
