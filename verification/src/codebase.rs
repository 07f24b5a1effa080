//! Codebase memory: the repositories that were indexed, their files and their chunks.
use vstd::prelude::*;

use crate::index::{ChunkEntry, ChunkEntryModel, FileEntry, FileEntryModel};
use crate::order::picked;
use crate::store::{fresh_id, fresh_id_is_fresh, next_id};
use crate::table::{any, as_count, count_of, count_rows, find_row, first_match, list, listed};
use crate::table::{lemma_filter_ext, lemma_filter_filter, lemma_filter_none_dropped};
use crate::table::lemma_first_match;
use crate::table::{lemma_positions, map_at, positions, retain, rewrite, some_match, top};
use crate::text::{chars, copy_opt, opt, opt_str, own, pieces, same, split_char, texts};
use crate::types::{lemma_models_push, models};

verus! {

/// A repository of the table.
#[derive(Debug)]
pub struct RepoRecord {
    pub id: i64,
    /// Where the repository lies.
    pub path: String,
    pub name: Option<String>,
    pub indexed_at: Option<i64>,
    pub file_count: i64,
    pub chunk_count: i64,
}

/// What a [`RepoRecord`] holds, as mathematical values.
#[verifier::ext_equal]
pub struct RepoRecordModel {
    pub id: i64,
    pub path: Seq<char>,
    pub name: Option<Seq<char>>,
    pub indexed_at: Option<i64>,
    pub file_count: i64,
    pub chunk_count: i64,
}

impl View for RepoRecord {
    type V = RepoRecordModel;

    open spec fn view(&self) -> RepoRecordModel {
        RepoRecordModel {
            id: self.id,
            path: self.path@,
            name: opt(self.name),
            indexed_at: self.indexed_at,
            file_count: self.file_count,
            chunk_count: self.chunk_count,
        }
    }
}

impl Clone for RepoRecord {
    fn clone(&self) -> (r: Self)
        ensures
            r@ == self@,
    {
        RepoRecord {
            id: self.id,
            path: self.path.clone(),
            name: copy_opt(&self.name),
            indexed_at: self.indexed_at,
            file_count: self.file_count,
            chunk_count: self.chunk_count,
        }
    }
}

/// A repository as it is listed.
#[derive(Debug)]
pub struct RepoInfo {
    pub id: i64,
    /// Where the repository lies.
    pub path: String,
    pub name: Option<String>,
    pub indexed_at: Option<i64>,
    pub file_count: i64,
    pub chunk_count: i64,
    /// Whether it is being indexed at the moment.
    pub indexing: bool,
}

/// What a [`RepoInfo`] holds, as mathematical values.
#[verifier::ext_equal]
pub struct RepoInfoModel {
    pub id: i64,
    pub path: Seq<char>,
    pub name: Option<Seq<char>>,
    pub indexed_at: Option<i64>,
    pub file_count: i64,
    pub chunk_count: i64,
    pub indexing: bool,
}

impl View for RepoInfo {
    type V = RepoInfoModel;

    open spec fn view(&self) -> RepoInfoModel {
        RepoInfoModel {
            id: self.id,
            path: self.path@,
            name: opt(self.name),
            indexed_at: self.indexed_at,
            file_count: self.file_count,
            chunk_count: self.chunk_count,
            indexing: self.indexing,
        }
    }
}

impl Clone for RepoInfo {
    fn clone(&self) -> (r: Self)
        ensures
            r@ == self@,
    {
        RepoInfo {
            id: self.id,
            path: self.path.clone(),
            name: copy_opt(&self.name),
            indexed_at: self.indexed_at,
            file_count: self.file_count,
            chunk_count: self.chunk_count,
            indexing: self.indexing,
        }
    }
}

/// A file of a repository.
#[derive(Debug)]
pub struct CodeFile {
    pub id: i64,
    pub repo_id: i64,
    pub rel_path: String,
    pub language: Option<String>,
}

/// What a [`CodeFile`] holds, as mathematical values.
#[verifier::ext_equal]
pub struct CodeFileModel {
    pub id: i64,
    pub repo_id: i64,
    pub rel_path: Seq<char>,
    pub language: Option<Seq<char>>,
}

impl View for CodeFile {
    type V = CodeFileModel;

    open spec fn view(&self) -> CodeFileModel {
        CodeFileModel {
            id: self.id,
            repo_id: self.repo_id,
            rel_path: self.rel_path@,
            language: opt(self.language),
        }
    }
}

impl Clone for CodeFile {
    fn clone(&self) -> (r: Self)
        ensures
            r@ == self@,
    {
        CodeFile {
            id: self.id,
            repo_id: self.repo_id,
            rel_path: self.rel_path.clone(),
            language: copy_opt(&self.language),
        }
    }
}

/// Some consecutive lines of a file.
#[derive(Debug)]
pub struct CodeChunk {
    pub id: i64,
    pub file_id: i64,
    pub line_start: i64,
    pub line_end: i64,
    pub content: String,
    pub kind: Option<String>,
    pub symbol_name: Option<String>,
}

/// What a [`CodeChunk`] holds, as mathematical values.
#[verifier::ext_equal]
pub struct CodeChunkModel {
    pub id: i64,
    pub file_id: i64,
    pub line_start: i64,
    pub line_end: i64,
    pub content: Seq<char>,
    pub kind: Option<Seq<char>>,
    pub symbol_name: Option<Seq<char>>,
}

impl View for CodeChunk {
    type V = CodeChunkModel;

    open spec fn view(&self) -> CodeChunkModel {
        CodeChunkModel {
            id: self.id,
            file_id: self.file_id,
            line_start: self.line_start,
            line_end: self.line_end,
            content: self.content@,
            kind: opt(self.kind),
            symbol_name: opt(self.symbol_name),
        }
    }
}

impl Clone for CodeChunk {
    fn clone(&self) -> (r: Self)
        ensures
            r@ == self@,
    {
        CodeChunk {
            id: self.id,
            file_id: self.file_id,
            line_start: self.line_start,
            line_end: self.line_end,
            content: self.content.clone(),
            kind: copy_opt(&self.kind),
            symbol_name: copy_opt(&self.symbol_name),
        }
    }
}

/// A chunk that a search found.
#[derive(Debug)]
pub struct CodeHit {
    pub repo_path: String,
    pub file_path: String,
    pub language: Option<String>,
    pub line_start: i64,
    pub line_end: i64,
    pub kind: Option<String>,
    pub symbol_name: Option<String>,
    pub snippet: String,
    /// Its place among what the search engine ranked, counted from zero.
    pub rank: usize,
}

/// What a [`CodeHit`] holds, as mathematical values.
#[verifier::ext_equal]
pub struct CodeHitModel {
    pub repo_path: Seq<char>,
    pub file_path: Seq<char>,
    pub language: Option<Seq<char>>,
    pub line_start: i64,
    pub line_end: i64,
    pub kind: Option<Seq<char>>,
    pub symbol_name: Option<Seq<char>>,
    pub snippet: Seq<char>,
    pub rank: usize,
}

impl View for CodeHit {
    type V = CodeHitModel;

    open spec fn view(&self) -> CodeHitModel {
        CodeHitModel {
            repo_path: self.repo_path@,
            file_path: self.file_path@,
            language: opt(self.language),
            line_start: self.line_start,
            line_end: self.line_end,
            kind: opt(self.kind),
            symbol_name: opt(self.symbol_name),
            snippet: self.snippet@,
            rank: self.rank,
        }
    }
}

impl Clone for CodeHit {
    fn clone(&self) -> (r: Self)
        ensures
            r@ == self@,
    {
        CodeHit {
            repo_path: self.repo_path.clone(),
            file_path: self.file_path.clone(),
            language: copy_opt(&self.language),
            line_start: self.line_start,
            line_end: self.line_end,
            kind: copy_opt(&self.kind),
            symbol_name: copy_opt(&self.symbol_name),
            snippet: self.snippet.clone(),
            rank: self.rank,
        }
    }
}

/// How much is indexed.
#[derive(PartialEq, Eq, Structural, Clone, Copy, Debug)]
pub struct CodeStats {
    pub repos: i64,
    pub files: i64,
    pub chunks: i64,
}

/// What indexing a repository came to.
#[derive(Debug)]
pub struct IndexStats {
    pub files: usize,
    pub chunks: usize,
    pub skipped: usize,
    pub skip_reasons: Vec<String>,
    pub warnings: Vec<String>,
}

/// Why a repository was not indexed.
#[derive(PartialEq, Eq, Structural, Clone, Copy, Debug)]
pub enum IndexError {
    /// No row numbers are left.
    Full,
    /// Two of its files have the same path.
    RepeatedPath,
}

/// The store of indexed code.
#[derive(Debug)]
pub struct CodeStore {
    pub repos: Vec<RepoRecord>,
    pub files: Vec<CodeFile>,
    pub chunks: Vec<CodeChunk>,
    /// The paths that are being indexed at the moment.
    pub running: Vec<String>,
}

/// What a [`CodeStore`] holds, as mathematical values.
#[verifier::ext_equal]
pub struct CodeStoreModel {
    pub repos: Seq<RepoRecordModel>,
    pub files: Seq<CodeFileModel>,
    pub chunks: Seq<CodeChunkModel>,
    pub running: Seq<Seq<char>>,
}

impl View for CodeStore {
    type V = CodeStoreModel;

    open spec fn view(&self) -> CodeStoreModel {
        CodeStoreModel {
            repos: models(self.repos@),
            files: models(self.files@),
            chunks: models(self.chunks@),
            running: texts(self.running@),
        }
    }
}

// ---- what is found --------------------------------------------------------

/// The repository with a number.
pub open spec fn repo_at(s: CodeStoreModel, id: i64) -> Option<RepoRecordModel> {
    first_match(s.repos, |r: RepoRecordModel| r.id == id)
}

/// The repository at a path.
pub open spec fn repo_by_path(s: CodeStoreModel, path: Seq<char>) -> Option<RepoRecordModel> {
    first_match(s.repos, |r: RepoRecordModel| r.path == path)
}

/// The repository that is called by its path or its name.
pub open spec fn repo_called(s: CodeStoreModel, repo: Seq<char>) -> Option<RepoRecordModel> {
    first_match(s.repos, |r: RepoRecordModel| r.path == repo || r.name == Some(repo))
}

/// Whether a file belongs to a repository.
pub open spec fn is_file_of(f: CodeFileModel, repo_id: i64) -> bool {
    f.repo_id == repo_id
}

/// Whether a chunk belongs to a file of a repository.
pub open spec fn is_chunk_of(files: Seq<CodeFileModel>, c: CodeChunkModel, repo_id: i64) -> bool {
    some_match(files, |f: CodeFileModel| f.id == c.file_id && is_file_of(f, repo_id))
}

/// How much of one repository is indexed; nothing where it is not known.
pub open spec fn repo_stats(s: CodeStoreModel, repo: Seq<char>) -> CodeStats {
    match repo_called(s, repo) {
        Some(r) => CodeStats {
            repos: 1,
            files: count_of(
                s.files.filter(|f: CodeFileModel| is_file_of(f, r.id)).len() as int,
            ),
            chunks: count_of(
                s.chunks.filter(|c: CodeChunkModel| is_chunk_of(s.files, c, r.id)).len() as int,
            ),
        },
        None => CodeStats { repos: 0, files: 0, chunks: 0 },
    }
}

/// A repository as it is listed.
pub open spec fn repo_info(s: CodeStoreModel, r: RepoRecordModel) -> RepoInfoModel {
    RepoInfoModel {
        id: r.id,
        path: r.path,
        name: r.name,
        indexed_at: r.indexed_at,
        file_count: r.file_count,
        chunk_count: r.chunk_count,
        indexing: s.running.contains(r.path),
    }
}

/// What repositories are listed by: those indexed last come first.
pub open spec fn repo_key(r: RepoRecordModel) -> (i64, i64) {
    match r.indexed_at {
        Some(t) => (1, t),
        None => (0, 0),
    }
}

/// The repositories, those indexed last first.
pub open spec fn repo_list(s: CodeStoreModel) -> Seq<RepoInfoModel> {
    listed(s.repos, |r: RepoRecordModel| true, |r: RepoRecordModel| repo_key(r)).map_values(
        |r: RepoRecordModel| repo_info(s, r),
    )
}

/// The store without the files of a repository and their chunks.
pub open spec fn without_files(s: CodeStoreModel, repo_id: i64) -> CodeStoreModel {
    CodeStoreModel {
        files: s.files.filter(|f: CodeFileModel| !is_file_of(f, repo_id)),
        chunks: s.chunks.filter(|c: CodeChunkModel| !is_chunk_of(s.files, c, repo_id)),
        ..s
    }
}

/// The store without a repository.
pub open spec fn without_repo(s: CodeStoreModel, repo_id: i64) -> CodeStoreModel {
    CodeStoreModel {
        repos: s.repos.filter(|r: RepoRecordModel| r.id != repo_id),
        ..without_files(s, repo_id)
    }
}

// ---- hits -----------------------------------------------------------------

/// The chunk with a number.
pub open spec fn chunk_at(s: CodeStoreModel, id: i64) -> Option<CodeChunkModel> {
    first_match(s.chunks, |c: CodeChunkModel| c.id == id)
}

/// The file with a number.
pub open spec fn file_at(s: CodeStoreModel, id: i64) -> Option<CodeFileModel> {
    first_match(s.files, |f: CodeFileModel| f.id == id)
}

/// The chunk `id`, which the search engine ranked at `rank`, as a hit: with its file and
/// its repository, and only where both are there and the repository is the one that is
/// asked for.
pub open spec fn code_hit(
    s: CodeStoreModel,
    id: i64,
    repo_path: Option<Seq<char>>,
    rank: usize,
) -> Option<CodeHitModel> {
    match chunk_at(s, id) {
        Some(c) => match file_at(s, c.file_id) {
            Some(f) => match repo_at(s, f.repo_id) {
                Some(r) => if repo_path matches Some(p) && r.path != p {
                    None
                } else {
                    Some(
                        CodeHitModel {
                            repo_path: r.path,
                            file_path: f.rel_path,
                            language: f.language,
                            line_start: c.line_start,
                            line_end: c.line_end,
                            kind: c.kind,
                            symbol_name: c.symbol_name,
                            snippet: c.content,
                            rank,
                        },
                    )
                },
                None => None,
            },
            None => None,
        },
        None => None,
    }
}

/// The hits among the first `n` chunks that the search engine ranked.
pub open spec fn code_hits(
    s: CodeStoreModel,
    ranked: Seq<i64>,
    repo_path: Option<Seq<char>>,
) -> Seq<CodeHitModel>
    decreases ranked.len(),
{
    if ranked.len() == 0 {
        seq![]
    } else {
        let rest = code_hits(s, ranked.drop_last(), repo_path);
        match code_hit(s, ranked.last(), repo_path, (ranked.len() - 1) as usize) {
            Some(h) => rest.push(h),
            None => rest,
        }
    }
}

/// What a search gives back: the hits in the order in which the search engine ranked
/// them, `limit` of them at most.
pub open spec fn found_code(
    s: CodeStoreModel,
    ranked: Seq<i64>,
    repo_path: Option<Seq<char>>,
    limit: int,
) -> Seq<CodeHitModel> {
    top(code_hits(s, ranked, repo_path), limit)
}

// ---- paths ----------------------------------------------------------------

/// The names of the directories on a path.
pub open spec fn names(path: Seq<char>) -> Seq<Seq<char>> {
    pieces(path, '/').filter(|n: Seq<char>| n.len() > 0 && n != "."@)
}

/// Whether a path lies in a directory or is it: an absolute path goes by its names.
pub open spec fn lies_in(path: Seq<char>, dir: Seq<char>) -> bool {
    &&& (path.len() > 0 && path[0] == '/') == (dir.len() > 0 && dir[0] == '/')
    &&& names(dir).len() <= names(path).len()
    &&& names(path).take(names(dir).len() as int) == names(dir)
}

/// Whether one of two paths lies in the other and they are not the same.
pub open spec fn overlaps(a: Seq<char>, b: Seq<char>) -> bool {
    lies_in(a, b) != lies_in(b, a)
}

/// The warning that two repositories overlap.
pub open spec fn overlap_warning(a: Seq<char>, b: Seq<char>) -> Seq<char> {
    "overlapping repository index detected: '"@ + a + "' and '"@ + b + "' are stored separately"@
}

/// The warnings for the repositories that a path overlaps with.
pub open spec fn warnings(path: Seq<char>, repos: Seq<RepoInfoModel>) -> Seq<Seq<char>>
    decreases repos.len(),
{
    if repos.len() == 0 {
        seq![]
    } else {
        let rest = warnings(path, repos.drop_last());
        if overlaps(path, repos.last().path) {
            rest.push(overlap_warning(path, repos.last().path))
        } else {
            rest
        }
    }
}

fn names_on(path: &str) -> (r: Vec<String>)
    ensures
        texts(r@) == names(path@),
{
    let parts: Vec<String> = split_char(path, '/');
    let ghost all = texts(parts@);
    let ghost p = |n: Seq<char>| n.len() > 0 && n != "."@;
    let mut r: Vec<String> = Vec::new();
    let mut i: usize = 0;
    proof {
        reveal(Seq::filter);
    }
    assert(texts(r@) =~= all.take(0).filter(p));
    while i < parts.len()
        invariant
            i <= parts@.len(),
            all == texts(parts@),
            p == (|n: Seq<char>| n.len() > 0 && n != "."@),
            texts(r@) == all.take(i as int).filter(p),
        decreases parts.len() - i,
    {
        broadcast use crate::text::lemma_texts_push;

        proof {
            reveal(Seq::filter);
        }
        assert(all.take(i + 1).drop_last() =~= all.take(i as int));
        if !parts[i].as_str().is_empty() && !same(parts[i].as_str(), ".") {
            r.push(parts[i].clone());
        }
        i += 1;
    }
    assert(all.take(i as int) =~= all);
    r
}

fn is_absolute(path: &str) -> (r: bool)
    ensures
        r == (path@.len() > 0 && path@[0] == '/'),
{
    let v: Vec<char> = chars(path);
    v.len() > 0 && v[0] == '/'
}

/// Whether a path lies in a directory or is it.
pub fn path_in(path: &str, dir: &str) -> (r: bool)
    ensures
        r == lies_in(path@, dir@),
{
    if is_absolute(path) != is_absolute(dir) {
        return false;
    }
    let a: Vec<String> = names_on(path);
    let b: Vec<String> = names_on(dir);
    assert(texts(a@).len() == a@.len());
    assert(texts(b@).len() == b@.len());
    if b.len() > a.len() {
        return false;
    }
    let ghost x = names(path@);
    let ghost y = names(dir@);
    let mut i: usize = 0;
    while i < b.len()
        invariant
            i <= b@.len() <= a@.len(),
            x == texts(a@),
            y == texts(b@),
            x == names(path@),
            y == names(dir@),
            forall|j: int| 0 <= j < i ==> x[j] == #[trigger] y[j],
        decreases b.len() - i,
    {
        if !same(a[i].as_str(), b[i].as_str()) {
            assert(x.take(y.len() as int)[i as int] != y[i as int]);
            return false;
        }
        assert(x[i as int] == y[i as int]);
        i += 1;
    }
    assert(x.take(y.len() as int) =~= y);
    true
}

fn warn(path: &str, repos: &Vec<RepoInfo>) -> (r: Vec<String>)
    ensures
        texts(r@) == warnings(path@, models(repos@)),
{
    let ghost all = models(repos@);
    let mut r: Vec<String> = Vec::new();
    let mut i: usize = 0;
    assert(texts(r@) =~= warnings(path@, all.take(0)));
    while i < repos.len()
        invariant
            i <= repos@.len(),
            all == models(repos@),
            texts(r@) == warnings(path@, all.take(i as int)),
        decreases repos.len() - i,
    {
        broadcast use crate::text::lemma_texts_push;

        assert(all.take(i + 1).drop_last() =~= all.take(i as int));
        let other: &str = repos[i].path.as_str();
        if path_in(path, other) != path_in(other, path) {
            let mut w: String = "overlapping repository index detected: '".to_owned();
            w.append(path);
            w.append("' and '");
            w.append(other);
            w.append("' are stored separately");
            r.push(w);
        }
        i += 1;
    }
    assert(all.take(i as int) =~= all);
    r
}

// ---- indexing -------------------------------------------------------------

/// How many chunks some files have.
pub open spec fn chunk_total(files: Seq<FileEntryModel>) -> int
    decreases files.len(),
{
    if files.len() == 0 {
        0
    } else {
        chunk_total(files.drop_last()) + files.last().chunks.len()
    }
}

/// The rows of some files of a repository, numbered from `base` on.
pub open spec fn file_rows(files: Seq<FileEntryModel>, repo_id: i64, base: int) -> Seq<CodeFileModel> {
    Seq::new(
        files.len(),
        |i: int|
            CodeFileModel {
                id: (base + i) as i64,
                repo_id,
                rel_path: files[i].rel_path,
                language: Some(files[i].language),
            },
    )
}

/// The rows of the chunks of a file, numbered from `base` on.
pub open spec fn own_chunk_rows(chunks: Seq<ChunkEntryModel>, file_id: int, base: int) -> Seq<
    CodeChunkModel,
> {
    Seq::new(
        chunks.len(),
        |i: int|
            CodeChunkModel {
                id: (base + i) as i64,
                file_id: file_id as i64,
                line_start: count_of(chunks[i].line_start as int),
                line_end: count_of(chunks[i].line_end as int),
                content: chunks[i].content,
                kind: chunks[i].kind,
                symbol_name: chunks[i].symbol_name,
            },
    )
}

/// The rows of the chunks of some files, the files and the chunks numbered on from two
/// numbers.
pub open spec fn chunk_rows(files: Seq<FileEntryModel>, file_base: int, chunk_base: int) -> Seq<
    CodeChunkModel,
>
    decreases files.len(),
{
    if files.len() == 0 {
        seq![]
    } else {
        let rest = files.drop_last();
        chunk_rows(rest, file_base, chunk_base) + own_chunk_rows(
            files.last().chunks,
            file_base + rest.len(),
            chunk_base + chunk_total(rest),
        )
    }
}

/// What indexing makes of the record of a repository that is there already.
pub open spec fn reindexed(
    r: RepoRecordModel,
    path: Seq<char>,
    name: Option<Seq<char>>,
    now: i64,
    files: int,
    chunks: int,
) -> RepoRecordModel {
    if r.path == path {
        RepoRecordModel {
            name: if name is Some {
                name
            } else {
                r.name
            },
            indexed_at: Some(now),
            file_count: count_of(files),
            chunk_count: count_of(chunks),
            ..r
        }
    } else {
        r
    }
}

/// The number that a repository has or gets.
pub open spec fn repo_number(s: CodeStoreModel, path: Seq<char>) -> int {
    match repo_by_path(s, path) {
        Some(r) => r.id as int,
        None => fresh_id(s.repos, |r: RepoRecordModel| r.id),
    }
}

/// The store with the record of a repository and without its former files.
pub open spec fn reset(
    s: CodeStoreModel,
    path: Seq<char>,
    name: Option<Seq<char>>,
    now: i64,
    files: int,
    chunks: int,
) -> CodeStoreModel {
    CodeStoreModel {
        repos: match repo_by_path(s, path) {
            Some(r) => s.repos.map_values(
                |r: RepoRecordModel| reindexed(r, path, name, now, files, chunks),
            ),
            None => s.repos.push(
                RepoRecordModel {
                    id: repo_number(s, path) as i64,
                    path,
                    name,
                    indexed_at: Some(now),
                    file_count: count_of(files),
                    chunk_count: count_of(chunks),
                },
            ),
        },
        ..without_files(s, repo_number(s, path) as i64)
    }
}

/// The number that the next file gets.
pub open spec fn next_file_id(s: CodeStoreModel) -> int {
    fresh_id(s.files, |f: CodeFileModel| f.id)
}

/// The number that the next chunk gets.
pub open spec fn next_code_chunk_id(s: CodeStoreModel) -> int {
    fresh_id(s.chunks, |c: CodeChunkModel| c.id)
}

/// The store with some files of a repository added.
pub open spec fn with_files(s: CodeStoreModel, repo_id: i64, files: Seq<FileEntryModel>) -> CodeStoreModel {
    CodeStoreModel {
        files: s.files + file_rows(files, repo_id, next_file_id(s)),
        chunks: s.chunks + chunk_rows(files, next_file_id(s), next_code_chunk_id(s)),
        ..s
    }
}

/// The store after a repository was indexed.
pub open spec fn indexed(
    s: CodeStoreModel,
    path: Seq<char>,
    name: Option<Seq<char>>,
    now: i64,
    files: Seq<FileEntryModel>,
) -> CodeStoreModel {
    with_files(
        reset(s, path, name, now, files.len() as int, chunk_total(files)),
        repo_number(s, path) as i64,
        files,
    )
}

/// Whether there are numbers for a repository, its files and its chunks.
pub open spec fn has_room(s: CodeStoreModel, path: Seq<char>, files: Seq<FileEntryModel>) -> bool {
    let cleared = without_files(s, repo_number(s, path) as i64);
    &&& repo_number(s, path) <= i64::MAX
    &&& next_file_id(cleared) + files.len() <= i64::MAX
    &&& next_code_chunk_id(cleared) + chunk_total(files) <= i64::MAX
    &&& chunk_total(files) <= usize::MAX
}

/// Whether two files have the same path.
pub open spec fn repeats(files: Seq<FileEntryModel>) -> bool {
    exists|i: int, j: int|
        0 <= i < j < files.len() && #[trigger] files[i].rel_path == #[trigger] files[j].rel_path
}

fn has_repeats(files: &Vec<FileEntry>) -> (r: bool)
    ensures
        r == repeats(models(files@)),
{
    let ghost all = models(files@);
    let mut j: usize = 0;
    while j < files.len()
        invariant
            j <= files@.len(),
            all == models(files@),
            forall|a: int, b: int|
                0 <= a < b < j ==> #[trigger] all[a].rel_path != #[trigger] all[b].rel_path,
        decreases files.len() - j,
    {
        let mut i: usize = 0;
        while i < j
            invariant
                i <= j < files@.len(),
                all == models(files@),
                forall|a: int| 0 <= a < i ==> #[trigger] all[a].rel_path != all[j as int].rel_path,
            decreases j - i,
        {
            if same(files[i].rel_path.as_str(), files[j].rel_path.as_str()) {
                assert(all[i as int].rel_path == all[j as int].rel_path);
                return true;
            }
            assert(all[i as int].rel_path != all[j as int].rel_path);
            i += 1;
        }
        j += 1;
    }
    false
}

fn count_chunks(files: &Vec<FileEntry>) -> (r: Option<usize>)
    ensures
        match r {
            Some(n) => n == chunk_total(models(files@)),
            None => chunk_total(models(files@)) > usize::MAX,
        },
{
    let ghost all = models(files@);
    let mut n: usize = 0;
    let mut i: usize = 0;
    assert(chunk_total(all.take(0)) == 0);
    while i < files.len()
        invariant
            i <= files@.len(),
            all == models(files@),
            n == chunk_total(all.take(i as int)),
        decreases files.len() - i,
    {
        assert(all.take(i + 1).drop_last() =~= all.take(i as int));
        assert(all[i as int].chunks.len() == files@[i as int].chunks@.len());
        match n.checked_add(files[i].chunks.len()) {
            Some(m) => {
                n = m;
            },
            None => {
                proof {
                    lemma_chunk_total(all, i + 1);
                }
                return None;
            },
        }
        i += 1;
    }
    assert(all.take(i as int) =~= all);
    Some(n)
}

proof fn lemma_chunk_total(files: Seq<FileEntryModel>, n: int)
    requires
        0 <= n <= files.len(),
    ensures
        0 <= chunk_total(files.take(n)) <= chunk_total(files),
    decreases files.len(),
{
    if n == files.len() {
        assert(files.take(n) =~= files);
        if n > 0 {
            lemma_chunk_total(files.drop_last(), 0);
            assert(files.drop_last().take(0) =~= seq![]);
        }
    } else {
        assert(files.drop_last().take(n) =~= files.take(n));
        lemma_chunk_total(files.drop_last(), n);
    }
}

fn row_of(c: &ChunkEntry, id: i64, file_id: i64) -> (r: CodeChunk)
    ensures
        r@ == (CodeChunkModel {
            id,
            file_id,
            line_start: count_of(c@.line_start as int),
            line_end: count_of(c@.line_end as int),
            content: c@.content,
            kind: c@.kind,
            symbol_name: c@.symbol_name,
        }),
{
    CodeChunk {
        id,
        file_id,
        line_start: as_count(c.line_start),
        line_end: as_count(c.line_end),
        content: c.content.clone(),
        kind: copy_opt(&c.kind),
        symbol_name: copy_opt(&c.symbol_name),
    }
}

fn add_rows(rows: &mut Vec<CodeChunk>, chunks: &Vec<ChunkEntry>, file_id: i64, base: i64)
    requires
        base + chunks@.len() <= i64::MAX,
    ensures
        models(final(rows)@) == models(old(rows)@) + own_chunk_rows(
            models(chunks@),
            file_id as int,
            base as int,
        ),
{
    let ghost new = own_chunk_rows(models(chunks@), file_id as int, base as int);
    let ghost s = models(rows@);
    let mut i: usize = 0;
    assert(models(rows@) =~= s + new.take(0));
    while i < chunks.len()
        invariant
            i <= chunks@.len(),
            base + chunks@.len() <= i64::MAX,
            new == own_chunk_rows(models(chunks@), file_id as int, base as int),
            models(rows@) == s + new.take(i as int),
        decreases chunks.len() - i,
    {
        broadcast use lemma_models_push;

        let row: CodeChunk = row_of(&chunks[i], (base as i128 + i as i128) as i64, file_id);
        assert(row@ == new[i as int]);
        rows.push(row);
        assert(models(rows@) =~= s + new.take(i + 1));
        i += 1;
    }
    assert(new.take(i as int) =~= new);
}

impl CodeStore {
    /// A store without a repository.
    pub fn new() -> (r: Self)
        ensures
            r@ == (CodeStoreModel { repos: seq![], files: seq![], chunks: seq![], running: seq![] }),
    {
        let r: CodeStore = CodeStore {
            repos: Vec::new(),
            files: Vec::new(),
            chunks: Vec::new(),
            running: Vec::new(),
        };
        assert(r@ =~= (CodeStoreModel {
            repos: seq![],
            files: seq![],
            chunks: seq![],
            running: seq![],
        }));
        r
    }

    /// How much is indexed.
    pub fn stats(&self) -> (r: CodeStats)
        ensures
            r == (CodeStats {
                repos: count_of(self@.repos.len() as int),
                files: count_of(self@.files.len() as int),
                chunks: count_of(self@.chunks.len() as int),
            }),
    {
        CodeStats {
            repos: as_count(self.repos.len()),
            files: as_count(self.files.len()),
            chunks: as_count(self.chunks.len()),
        }
    }

    fn owns(&self, c: &CodeChunk, repo_id: i64) -> (r: bool)
        ensures
            r == is_chunk_of(self@.files, c@, repo_id),
    {
        let id: i64 = c.file_id;
        let of = |f: &CodeFile| -> (b: bool)
            ensures
                b == (f@.id == id && is_file_of(f@, repo_id)),
            { f.id == id && f.repo_id == repo_id };
        any(
            &self.files,
            of,
            Ghost(|f: CodeFileModel| f.id == id && is_file_of(f, repo_id)),
        )
    }

    /// How much of one repository is indexed, which is called by its path or its name;
    /// nothing where it is not known.
    pub fn stats_for_repo(&self, repo: &str) -> (r: CodeStats)
        ensures
            r == repo_stats(self@, repo@),
    {
        let called = |r: &RepoRecord| -> (b: bool)
            ensures
                b == (r@.path == repo@ || r@.name == Some(repo@)),
            { same(r.path.as_str(), repo) || crate::text::is_text(&r.name, repo) };
        let at: Option<usize> = find_row(
            &self.repos,
            called,
            Ghost(|r: RepoRecordModel| r.path == repo@ || r.name == Some(repo@)),
        );
        match at {
            Some(i) => {
                let id: i64 = self.repos[i].id;
                let file = |f: &CodeFile| -> (b: bool)
                    ensures
                        b == is_file_of(f@, id),
                    { f.repo_id == id };
                let chunk = |c: &CodeChunk| -> (b: bool)
                    ensures
                        b == is_chunk_of(self@.files, c@, id),
                    { self.owns(c, id) };
                CodeStats {
                    repos: 1,
                    files: as_count(
                        count_rows(&self.files, file, Ghost(|f: CodeFileModel| is_file_of(f, id))),
                    ),
                    chunks: as_count(
                        count_rows(
                            &self.chunks,
                            chunk,
                            Ghost(|c: CodeChunkModel| is_chunk_of(self@.files, c, id)),
                        ),
                    ),
                }
            },
            None => CodeStats { repos: 0, files: 0, chunks: 0 },
        }
    }

    fn is_running(&self, path: &str) -> (r: bool)
        ensures
            r == self@.running.contains(path@),
    {
        let mut i: usize = 0;
        while i < self.running.len()
            invariant
                i <= self.running@.len(),
                forall|j: int| 0 <= j < i ==> #[trigger] self@.running[j] != path@,
            decreases self.running.len() - i,
        {
            assert(self@.running[i as int] == self.running@[i as int]@);
            if same(self.running[i].as_str(), path) {
                return true;
            }
            i += 1;
        }
        false
    }

    /// Lists the repositories, those indexed last first.
    pub fn list_repos(&self) -> (r: Vec<RepoInfo>)
        ensures
            models(r@) == repo_list(self@),
    {
        let keep = |r: &RepoRecord| -> (b: bool)
            ensures
                b,
            { true };
        let key = |r: &RepoRecord| -> (k: (i64, i64))
            ensures
                k == repo_key(r@),
            {
                match r.indexed_at {
                    Some(t) => (1, t),
                    None => (0, 0),
                }
            };
        let at: Vec<usize> = list(
            &self.repos,
            keep,
            key,
            usize::MAX,
            Ghost(|r: RepoRecordModel| true),
            Ghost(|r: RepoRecordModel| repo_key(r)),
        );
        proof {
            crate::table::lemma_listed_len(
                self@.repos,
                |r: RepoRecordModel| true,
                |r: RepoRecordModel| repo_key(r),
            );
            assert(self@.repos.len() == self.repos.len());
        }
        let info = |r: &RepoRecord| -> (q: RepoInfo)
            ensures
                q@ == repo_info(self@, r@),
            {
                RepoInfo {
                    id: r.id,
                    path: r.path.clone(),
                    name: copy_opt(&r.name),
                    indexed_at: r.indexed_at,
                    file_count: r.file_count,
                    chunk_count: r.chunk_count,
                    indexing: self.is_running(r.path.as_str()),
                }
            };
        map_at(&self.repos, &at, info, Ghost(|r: RepoRecordModel| repo_info(self@, r)))
    }

    fn drop_files(&mut self, repo_id: i64)
        ensures
            final(self)@ == without_files(old(self)@, repo_id),
    {
        let ghost s = old(self)@;
        let mut files: Vec<CodeFile> = Vec::new();
        std::mem::swap(&mut self.files, &mut files);
        let keep = |c: &CodeChunk| -> (b: bool)
            ensures
                b == !is_chunk_of(models(files@), c@, repo_id),
            {
                let id: i64 = c.file_id;
                let of = |f: &CodeFile| -> (b: bool)
                    ensures
                        b == (f@.id == id && is_file_of(f@, repo_id)),
                    { f.id == id && f.repo_id == repo_id };
                !any(
                    &files,
                    of,
                    Ghost(|f: CodeFileModel| f.id == id && is_file_of(f, repo_id)),
                )
            };
        let _n: usize = retain(
            &mut self.chunks,
            keep,
            Ghost(|c: CodeChunkModel| !is_chunk_of(models(files@), c, repo_id)),
        );
        let stays = |f: &CodeFile| -> (b: bool)
            ensures
                b == !is_file_of(f@, repo_id),
            { f.repo_id != repo_id };
        let _m: usize = retain(
            &mut files,
            stays,
            Ghost(|f: CodeFileModel| !is_file_of(f, repo_id)),
        );
        self.files = files;
        assert(self@ =~= without_files(s, repo_id));
    }

    /// Forgets the repository at a path. Says whether it was there.
    pub fn forget_repo(&mut self, path: &str) -> (r: bool)
        ensures
            r == (repo_by_path(old(self)@, path@) is Some),
            final(self)@ == (match repo_by_path(old(self)@, path@) {
                Some(q) => without_repo(old(self)@, q.id),
                None => old(self)@,
            }),
    {
        let at_path = |r: &RepoRecord| -> (b: bool)
            ensures
                b == (r@.path == path@),
            { same(r.path.as_str(), path) };
        let at: Option<usize> = find_row(
            &self.repos,
            at_path,
            Ghost(|r: RepoRecordModel| r.path == path@),
        );
        match at {
            Some(i) => {
                let id: i64 = self.repos[i].id;
                self.drop_files(id);
                let stays = |r: &RepoRecord| -> (b: bool)
                    ensures
                        b == (r@.id != id),
                    { r.id != id };
                let _n: usize = retain(
                    &mut self.repos,
                    stays,
                    Ghost(|r: RepoRecordModel| r.id != id),
                );
                assert(self@ =~= without_repo(old(self)@, id));
                true
            },
            None => false,
        }
    }

    /// Forgets all repositories, and says how many they were.
    pub fn clear_all(&mut self) -> (r: usize)
        ensures
            r == old(self)@.repos.len(),
            final(self)@ == (CodeStoreModel {
                repos: seq![],
                files: seq![],
                chunks: seq![],
                ..old(self)@
            }),
    {
        let n: usize = self.repos.len();
        self.repos = Vec::new();
        self.files = Vec::new();
        self.chunks = Vec::new();
        assert(self@ =~= (CodeStoreModel {
            repos: seq![],
            files: seq![],
            chunks: seq![],
            ..old(self)@
        }));
        n
    }

    fn hit(&self, id: i64, repo_path: Option<&str>, rank: usize) -> (r: Option<CodeHit>)
        ensures
            match r {
                Some(h) => code_hit(self@, id, opt_str(repo_path), rank) == Some(h@),
                None => code_hit(self@, id, opt_str(repo_path), rank) is None,
            },
    {
        let is_chunk = |c: &CodeChunk| -> (b: bool)
            ensures
                b == (c@.id == id),
            { c.id == id };
        let c: &CodeChunk = match find_row(
            &self.chunks,
            is_chunk,
            Ghost(|c: CodeChunkModel| c.id == id),
        ) {
            Some(i) => &self.chunks[i],
            None => {
                return None;
            },
        };
        let file_id: i64 = c.file_id;
        let is_file = |f: &CodeFile| -> (b: bool)
            ensures
                b == (f@.id == file_id),
            { f.id == file_id };
        let f: &CodeFile = match find_row(
            &self.files,
            is_file,
            Ghost(|f: CodeFileModel| f.id == file_id),
        ) {
            Some(i) => &self.files[i],
            None => {
                return None;
            },
        };
        let repo_id: i64 = f.repo_id;
        let is_repo = |r: &RepoRecord| -> (b: bool)
            ensures
                b == (r@.id == repo_id),
            { r.id == repo_id };
        let r: &RepoRecord = match find_row(
            &self.repos,
            is_repo,
            Ghost(|r: RepoRecordModel| r.id == repo_id),
        ) {
            Some(i) => &self.repos[i],
            None => {
                return None;
            },
        };
        if let Some(p) = repo_path {
            if !same(r.path.as_str(), p) {
                return None;
            }
        }
        Some(
            CodeHit {
                repo_path: r.path.clone(),
                file_path: f.rel_path.clone(),
                language: copy_opt(&f.language),
                line_start: c.line_start,
                line_end: c.line_end,
                kind: copy_opt(&c.kind),
                symbol_name: copy_opt(&c.symbol_name),
                snippet: c.content.clone(),
                rank,
            },
        )
    }

    /// What a search gives back, given the numbers of the chunks that match in the order
    /// in which the search engine ranks them: their hits, of one repository only where
    /// one is given, `limit` of them at most.
    pub fn search(&self, ranked: &Vec<i64>, repo_path: Option<&str>, limit: usize) -> (r: Vec<
        CodeHit,
    >)
        ensures
            models(r@) == found_code(self@, ranked@, opt_str(repo_path), limit as int),
    {
        let ghost path = opt_str(repo_path);
        let mut r: Vec<CodeHit> = Vec::new();
        let mut i: usize = 0;
        assert(models(r@) =~= top(code_hits(self@, ranked@.take(0), path), limit as int));
        while i < ranked.len()
            invariant
                i <= ranked@.len(),
                path == opt_str(repo_path),
                models(r@) == top(code_hits(self@, ranked@.take(i as int), path), limit as int),
            decreases ranked.len() - i,
        {
            broadcast use lemma_models_push;

            let ghost before = code_hits(self@, ranked@.take(i as int), path);
            assert(ranked@.take(i + 1).drop_last() =~= ranked@.take(i as int));
            assert(models(r@).len() == r@.len());
            if let Some(h) = self.hit(ranked[i], repo_path, i) {
                let ghost x = h@;
                if r.len() < limit {
                    assert(before.len() < limit);
                    r.push(h);
                }
                assert(models(r@) =~= top(before.push(x), limit as int));
            }
            i += 1;
        }
        assert(ranked@.take(i as int) =~= ranked@);
        r
    }

    /// Notes that a path is being indexed; `false`, and nothing changed, where it is
    /// already.
    pub fn begin_index(&mut self, path: &str) -> (r: bool)
        ensures
            r == !old(self)@.running.contains(path@),
            final(self)@ == (CodeStoreModel {
                running: if r {
                    old(self)@.running.push(path@)
                } else {
                    old(self)@.running
                },
                ..old(self)@
            }),
    {
        broadcast use crate::text::lemma_texts_push;

        if self.is_running(path) {
            return false;
        }
        self.running.push(path.to_owned());
        assert(self@ =~= (CodeStoreModel {
            running: old(self)@.running.push(path@),
            ..old(self)@
        }));
        true
    }

    /// Notes that a path is no longer being indexed.
    pub fn finish_index(&mut self, path: &str)
        ensures
            final(self)@ == (CodeStoreModel {
                running: old(self)@.running.filter(|p: Seq<char>| p != path@),
                ..old(self)@
            }),
    {
        let keep = |p: &String| -> (b: bool)
            ensures
                b == (p@ != path@),
            { !same(p.as_str(), path) };
        assert(models(self.running@) =~= texts(self.running@));
        let _n: usize = retain(&mut self.running, keep, Ghost(|p: Seq<char>| p != path@));
        assert(models(self.running@) =~= texts(self.running@));
        assert(self@ =~= (CodeStoreModel {
            running: old(self)@.running.filter(|p: Seq<char>| p != path@),
            ..old(self)@
        }));
    }

    fn put_repo(&mut self, path: &str, name: Option<&str>, now: i64, files: usize, chunks: usize) -> (r:
        Option<i64>)
        ensures
            match r {
                Some(id) => id == repo_number(old(self)@, path@) && final(self)@ == (CodeStoreModel {
                    repos: reset(
                        old(self)@,
                        path@,
                        opt_str(name),
                        now,
                        files as int,
                        chunks as int,
                    ).repos,
                    ..old(self)@
                }),
                None => repo_number(old(self)@, path@) > i64::MAX && final(self)@ == old(self)@,
            },
    {
        broadcast use lemma_models_push;

        let ghost s = old(self)@;
        let at_path = |r: &RepoRecord| -> (b: bool)
            ensures
                b == (r@.path == path@),
            { same(r.path.as_str(), path) };
        let at: Option<usize> = find_row(
            &self.repos,
            at_path,
            Ghost(|r: RepoRecordModel| r.path == path@),
        );
        if let Some(i) = at {
            let id: i64 = self.repos[i].id;
            let renew = |r: RepoRecord| -> (q: RepoRecord)
                ensures
                    q@ == reindexed(r@, path@, opt_str(name), now, files as int, chunks as int),
                {
                    let mut q: RepoRecord = r;
                    if same(q.path.as_str(), path) {
                        if name.is_some() {
                            q.name = own(name);
                        }
                        q.indexed_at = Some(now);
                        q.file_count = as_count(files);
                        q.chunk_count = as_count(chunks);
                    }
                    q
                };
            rewrite(
                &mut self.repos,
                renew,
                Ghost(
                    |r: RepoRecordModel|
                        reindexed(r, path@, opt_str(name), now, files as int, chunks as int),
                ),
            );
            assert(self@ =~= (CodeStoreModel {
                repos: reset(s, path@, opt_str(name), now, files as int, chunks as int).repos,
                ..s
            }));
            return Some(id);
        }
        let number_of = |r: &RepoRecord| -> (n: i64)
            ensures
                n == r@.id,
            { r.id };
        let id: i64 = match next_id(&self.repos, number_of, Ghost(|r: RepoRecordModel| r.id)) {
            Some(n) => n,
            None => {
                return None;
            },
        };
        self.repos.push(
            RepoRecord {
                id,
                path: path.to_owned(),
                name: own(name),
                indexed_at: Some(now),
                file_count: as_count(files),
                chunk_count: as_count(chunks),
            },
        );
        assert(self@ =~= (CodeStoreModel {
            repos: reset(s, path@, opt_str(name), now, files as int, chunks as int).repos,
            ..s
        }));
        Some(id)
    }

    /// The numbers from which files and chunks are numbered on once the former files of a
    /// repository are gone.
    fn bases(&self, repo_id: i64) -> (r: (Option<i64>, Option<i64>))
        ensures
            match r.0 {
                Some(n) => n == next_file_id(without_files(self@, repo_id)),
                None => next_file_id(without_files(self@, repo_id)) > i64::MAX,
            },
            match r.1 {
                Some(n) => n == next_code_chunk_id(without_files(self@, repo_id)),
                None => next_code_chunk_id(without_files(self@, repo_id)) > i64::MAX,
            },
    {
        let ghost left = without_files(self@, repo_id);
        let file = |f: &CodeFile| -> (b: bool)
            ensures
                b == !is_file_of(f@, repo_id),
            { f.repo_id != repo_id };
        let chunk = |c: &CodeChunk| -> (b: bool)
            ensures
                b == !is_chunk_of(self@.files, c@, repo_id),
            { !self.owns(c, repo_id) };
        let fa: Vec<usize> = crate::table::select(
            &self.files,
            file,
            Ghost(|f: CodeFileModel| !is_file_of(f, repo_id)),
        );
        let ca: Vec<usize> = crate::table::select(
            &self.chunks,
            chunk,
            Ghost(|c: CodeChunkModel| !is_chunk_of(self@.files, c, repo_id)),
        );
        proof {
            crate::table::lemma_positions(
                self@.files,
                |f: CodeFileModel| !is_file_of(f, repo_id),
            );
            crate::table::lemma_positions(
                self@.chunks,
                |c: CodeChunkModel| !is_chunk_of(self@.files, c, repo_id),
            );
        }
        let copy_file = |f: &CodeFile| -> (q: CodeFile)
            ensures
                q@ == f@,
            { f.clone() };
        let copy_chunk = |c: &CodeChunk| -> (q: CodeChunk)
            ensures
                q@ == c@,
            { c.clone() };
        let files: Vec<CodeFile> = map_at(&self.files, &fa, copy_file, Ghost(|f: CodeFileModel| f));
        let chunks: Vec<CodeChunk> = map_at(
            &self.chunks,
            &ca,
            copy_chunk,
            Ghost(|c: CodeChunkModel| c),
        );
        assert(models(files@) =~= left.files);
        assert(models(chunks@) =~= left.chunks);
        let file_id = |f: &CodeFile| -> (n: i64)
            ensures
                n == f@.id,
            { f.id };
        let chunk_id = |c: &CodeChunk| -> (n: i64)
            ensures
                n == c@.id,
            { c.id };
        (
            next_id(&files, file_id, Ghost(|f: CodeFileModel| f.id)),
            next_id(&chunks, chunk_id, Ghost(|c: CodeChunkModel| c.id)),
        )
    }

    fn put_files(&mut self, repo_id: i64, files: &Vec<FileEntry>, file_base: i64, chunk_base: i64)
        requires
            file_base + files@.len() <= i64::MAX,
            chunk_base + chunk_total(models(files@)) <= i64::MAX,
        ensures
            final(self)@ == (CodeStoreModel {
                files: old(self)@.files + file_rows(models(files@), repo_id, file_base as int),
                chunks: old(self)@.chunks + chunk_rows(
                    models(files@),
                    file_base as int,
                    chunk_base as int,
                ),
                ..old(self)@
            }),
    {
        let ghost s = old(self)@;
        let ghost all = models(files@);
        let ghost new = file_rows(all, repo_id, file_base as int);
        let mut next: i64 = chunk_base;
        let mut i: usize = 0;
        assert(s.files + new.take(0) =~= s.files);
        assert(s.chunks + chunk_rows(all.take(0), file_base as int, chunk_base as int) =~= s.chunks);
        while i < files.len()
            invariant
                i <= files@.len(),
                s == old(self)@,
                all == models(files@),
                new == file_rows(all, repo_id, file_base as int),
                file_base + files@.len() <= i64::MAX,
                chunk_base + chunk_total(all) <= i64::MAX,
                next == chunk_base + chunk_total(all.take(i as int)),
                self@ == (CodeStoreModel {
                    files: s.files + new.take(i as int),
                    chunks: s.chunks + chunk_rows(
                        all.take(i as int),
                        file_base as int,
                        chunk_base as int,
                    ),
                    ..s
                }),
            decreases files.len() - i,
        {
            broadcast use lemma_models_push;

            let ghost before = self@;
            proof {
                assert(all.take(i + 1).drop_last() =~= all.take(i as int));
                lemma_chunk_total(all, i + 1);
                assert(all[i as int].chunks.len() == files@[i as int].chunks@.len());
            }
            let id: i64 = (file_base as i128 + i as i128) as i64;
            let row: CodeFile = CodeFile {
                id,
                repo_id,
                rel_path: files[i].rel_path.clone(),
                language: Some(files[i].language.clone()),
            };
            assert(row@ =~= new[i as int]);
            self.files.push(row);
            add_rows(&mut self.chunks, &files[i].chunks, id, next);
            next = (next as i128 + files[i].chunks.len() as i128) as i64;
            assert(new.take(i + 1) =~= new.take(i as int).push(new[i as int]));
            assert(self@ =~= (CodeStoreModel {
                files: s.files + new.take(i + 1),
                chunks: s.chunks + chunk_rows(all.take(i + 1), file_base as int, chunk_base as int),
                ..s
            }));
            i += 1;
        }
        assert(new.take(i as int) =~= new);
        assert(all.take(i as int) =~= all);
    }

    /// Indexes the repository at a path, given its files: they take the place of those
    /// that were indexed before. Where two of them have the same path, the repository is
    /// left without files.
    pub fn index_repo(
        &mut self,
        path: &str,
        name: Option<&str>,
        now: i64,
        files: &Vec<FileEntry>,
        skip_reasons: Vec<String>,
    ) -> (r: Result<IndexStats, IndexError>)
        ensures
            match r {
                Ok(stats) => {
                    &&& has_room(old(self)@, path@, models(files@)) && !repeats(models(files@))
                    &&& final(self)@ == indexed(
                        old(self)@,
                        path@,
                        opt_str(name),
                        now,
                        models(files@),
                    )
                    &&& stats.files == files@.len()
                    &&& stats.chunks == chunk_total(models(files@))
                    &&& stats.skipped == skip_reasons@.len()
                    &&& texts(stats.skip_reasons@) == texts(skip_reasons@)
                    &&& texts(stats.warnings@) == warnings(path@, repo_list(old(self)@))
                },
                Err(IndexError::Full) => !has_room(old(self)@, path@, models(files@))
                    && final(self)@ == old(self)@,
                Err(IndexError::RepeatedPath) => {
                    &&& has_room(old(self)@, path@, models(files@)) && repeats(models(files@))
                    &&& final(self)@ == reset(
                        old(self)@,
                        path@,
                        opt_str(name),
                        now,
                        files@.len() as int,
                        chunk_total(models(files@)),
                    )
                },
            },
    {
        let ghost s = old(self)@;
        let ghost all = models(files@);
        let chunks: usize = match count_chunks(files) {
            Some(n) => n,
            None => {
                return Err(IndexError::Full);
            },
        };
        let listed: Vec<RepoInfo> = self.list_repos();
        let warnings: Vec<String> = warn(path, &listed);
        // The number is settled before anything changes.
        let at_path = |r: &RepoRecord| -> (b: bool)
            ensures
                b == (r@.path == path@),
            { same(r.path.as_str(), path) };
        let number_of = |r: &RepoRecord| -> (n: i64)
            ensures
                n == r@.id,
            { r.id };
        let id: i64 = match find_row(&self.repos, at_path, Ghost(|r: RepoRecordModel| r.path == path@)) {
            Some(i) => self.repos[i].id,
            None => match next_id(&self.repos, number_of, Ghost(|r: RepoRecordModel| r.id)) {
                Some(n) => n,
                None => {
                    return Err(IndexError::Full);
                },
            },
        };
        let (file_base, chunk_base): (i64, i64) = match self.bases(id) {
            (Some(a), Some(b)) => (a, b),
            _ => {
                proof {
                    lemma_chunk_total(all, 0);
                }
                return Err(IndexError::Full);
            },
        };
        if file_base as i128 + files.len() as i128 > i64::MAX as i128 || chunk_base as i128
            + chunks as i128 > i64::MAX as i128 {
            return Err(IndexError::Full);
        }
        let total: usize = files.len();
        let _id: Option<i64> = self.put_repo(path, name, now, total, chunks);
        let ghost mid = self@;
        self.drop_files(id);
        assert(self@ =~= reset(s, path@, opt_str(name), now, all.len() as int, chunk_total(all)));
        if has_repeats(files) {
            return Err(IndexError::RepeatedPath);
        }
        assert(self@.files == without_files(s, id).files);
        assert(self@.chunks == without_files(s, id).chunks);
        self.put_files(id, files, file_base, chunk_base);
        assert(self@ =~= indexed(s, path@, opt_str(name), now, all));
        Ok(
            IndexStats {
                files: total,
                chunks,
                skipped: skip_reasons.len(),
                skip_reasons,
                warnings,
            },
        )
    }
}

/// Indexing a repository again replaces what was known of it: its files are those that
/// were found, and the files of other repositories are what they were.
pub proof fn indexing_replaces_the_files(
    s: CodeStoreModel,
    path: Seq<char>,
    name: Option<Seq<char>>,
    now: i64,
    files: Seq<FileEntryModel>,
)
    ensures
        ({
            let id = repo_number(s, path) as i64;
            let t = indexed(s, path, name, now, files);
            let of = |f: CodeFileModel| is_file_of(f, id);
            let other = |f: CodeFileModel| !is_file_of(f, id);
            &&& t.files.filter(of).map_values(|f: CodeFileModel| f.rel_path) == files.map_values(
                |f: FileEntryModel| f.rel_path,
            )
            &&& t.files.filter(other) == s.files.filter(other)
        }),
{
    let id = repo_number(s, path) as i64;
    let t = indexed(s, path, name, now, files);
    let of = |f: CodeFileModel| is_file_of(f, id);
    let other = |f: CodeFileModel| !is_file_of(f, id);
    let kept = s.files.filter(other);
    let cleared = reset(s, path, name, now, files.len() as int, chunk_total(files));
    let new = file_rows(files, id, next_file_id(cleared));
    assert(t.files == kept + new);
    Seq::filter_distributes_over_add(kept, new, of);
    Seq::filter_distributes_over_add(kept, new, other);
    lemma_filter_filter(s.files, other, of);
    lemma_filter_filter(s.files, other, other);
    lemma_filter_ext(s.files, |f: CodeFileModel| other(f) && other(f), other);
    let none = |f: CodeFileModel| other(f) && of(f);
    lemma_positions(s.files, none);
    assert(kept.filter(of).len() == 0) by {
        if s.files.filter(none).len() > 0 {
            let at = positions(s.files, none);
            assert(picked(s.files, at).len() == at.len());
            assert(none(s.files[at[0]]));
        }
    }
    lemma_filter_none_dropped(new, of);
    lemma_positions(new, other);
    assert(new.filter(other).len() == 0) by {
        if new.filter(other).len() > 0 {
            let at = positions(new, other);
            assert(picked(new, at).len() == at.len());
            assert(other(new[at[0]]));
        }
    }
    assert(kept.filter(of) + new =~= new);
    assert(kept + new.filter(other) =~= kept);
    assert(new.map_values(|f: CodeFileModel| f.rel_path) =~= files.map_values(
        |f: FileEntryModel| f.rel_path,
    ));
}

/// The chunk `j` of the file `i` stands behind those of the files before it, and the
/// chunks are numbered on without a gap.
proof fn lemma_chunk_rows(files: Seq<FileEntryModel>, file_base: int, chunk_base: int)
    requires
        i64::MIN <= chunk_base,
        chunk_base + chunk_total(files) <= i64::MAX,
    ensures
        chunk_rows(files, file_base, chunk_base).len() == chunk_total(files),
        forall|m: int|
            0 <= m < chunk_total(files) ==> (#[trigger] chunk_rows(files, file_base, chunk_base)[m]).id
                == chunk_base + m,
        forall|i: int, j: int|
            0 <= i < files.len() && 0 <= j < files[i].chunks.len() ==> 0 <= chunk_total(files.take(i))
                + j < chunk_total(files) && #[trigger] chunk_row_at(files, file_base, chunk_base, i, j)
                == own_chunk_rows(
                files[i].chunks,
                file_base + i,
                chunk_base + chunk_total(files.take(i)),
            )[j],
    decreases files.len(),
{
    if files.len() > 0 {
        let rest = files.drop_last();
        let n = rest.len() as int;
        lemma_chunk_total(files, n);
        assert(files.take(n) =~= rest);
        lemma_chunk_rows(rest, file_base, chunk_base);
        let all = chunk_rows(files, file_base, chunk_base);
        let before = chunk_rows(rest, file_base, chunk_base);
        let own = own_chunk_rows(
            files.last().chunks,
            file_base + n,
            chunk_base + chunk_total(rest),
        );
        assert(all == before + own);
        assert forall|m: int| 0 <= m < chunk_total(files) implies (#[trigger] all[m]).id == chunk_base
            + m by {
            if m < before.len() {
                assert(all[m] == before[m]);
            } else {
                assert(all[m] == own[m - before.len()]);
            }
        }
        assert forall|i: int, j: int|
            0 <= i < files.len() && 0 <= j < files[i].chunks.len() implies 0 <= chunk_total(
            files.take(i),
        ) + j < chunk_total(files) && #[trigger] chunk_row_at(files, file_base, chunk_base, i, j)
            == own_chunk_rows(
            files[i].chunks,
            file_base + i,
            chunk_base + chunk_total(files.take(i)),
        )[j] by {
            if i < n {
                assert(rest.take(i) =~= files.take(i));
                assert(rest[i] == files[i]);
                assert(chunk_row_at(rest, file_base, chunk_base, i, j) == before[chunk_total(
                    rest.take(i),
                ) + j]);
                assert(all[chunk_total(files.take(i)) + j] == before[chunk_total(files.take(i)) + j]);
            } else {
                assert(all[before.len() + j] == own[j]);
            }
        }
    }
}

/// The row of the chunk `j` of the file `i`.
spec fn chunk_row_at(
    files: Seq<FileEntryModel>,
    file_base: int,
    chunk_base: int,
    i: int,
    j: int,
) -> CodeChunkModel {
    chunk_rows(files, file_base, chunk_base)[chunk_total(files.take(i)) + j]
}

proof fn lemma_new_row_found<V>(kept: Seq<V>, new: Seq<V>, id: spec_fn(V) -> i64, base: int, m: int)
    requires
        forall|i: int| 0 <= i < kept.len() ==> id(#[trigger] kept[i]) < base,
        forall|i: int| 0 <= i < new.len() ==> id(#[trigger] new[i]) == base + i,
        0 <= m < new.len(),
    ensures
        first_match(kept + new, |v: V| id(v) == base + m) == Some(new[m]),
{
    let all = kept + new;
    let is = |v: V| id(v) == base + m;
    lemma_first_match(all, is);
    assert(all[kept.len() + m] == new[m]);
    assert(is(all[kept.len() + m]));
    let x = first_match(all, is)->0;
    let at = choose|at: int| 0 <= at < all.len() && all[at] == x;
    if at < kept.len() {
        assert(all[at] == kept[at]);
    } else {
        assert(all[at] == new[at - kept.len()]);
    }
}

proof fn lemma_repo_found(
    s: CodeStoreModel,
    path: Seq<char>,
    name: Option<Seq<char>>,
    now: i64,
    files: int,
    chunks: int,
)
    requires
        repo_number(s, path) <= i64::MAX,
        forall|i: int, j: int|
            0 <= i < j < s.repos.len() ==> #[trigger] s.repos[i].id != #[trigger] s.repos[j].id,
    ensures
        repo_at(reset(s, path, name, now, files, chunks), repo_number(s, path) as i64) matches Some(r)
            && r.path == path,
{
    let t = reset(s, path, name, now, files, chunks);
    let n = repo_number(s, path) as i64;
    let at_path = |r: RepoRecordModel| r.path == path;
    let is = |r: RepoRecordModel| r.id == n;
    let id = |r: RepoRecordModel| r.id;
    lemma_first_match(s.repos, at_path);
    lemma_first_match(t.repos, is);
    match repo_by_path(s, path) {
        Some(r) => {
            let m = choose|m: int| 0 <= m < s.repos.len() && s.repos[m] == r;
            assert(t.repos[m] == reindexed(s.repos[m], path, name, now, files, chunks));
            assert(is(t.repos[m]));
            let x = first_match(t.repos, is)->0;
            let k = choose|k: int| 0 <= k < t.repos.len() && t.repos[k] == x;
            assert(t.repos[k] == reindexed(s.repos[k], path, name, now, files, chunks));
            assert(s.repos[k].id == s.repos[m].id);
            assert(k == m);
        },
        None => {
            fresh_id_is_fresh(s.repos, id);
            let last = s.repos.len() as int;
            assert(is(t.repos[last]));
            let x = first_match(t.repos, is)->0;
            let k = choose|k: int| 0 <= k < t.repos.len() && t.repos[k] == x;
            if k < last {
                assert(t.repos[k] == s.repos[k]);
                assert(id(s.repos[k]) < n);
            }
        },
    }
}

/// What was indexed can be found: each chunk of each file has a number, and a search that
/// ranks it gives its text with the repository and the file that it stands in.
pub proof fn indexed_code_is_found(
    s: CodeStoreModel,
    path: Seq<char>,
    name: Option<Seq<char>>,
    now: i64,
    files: Seq<FileEntryModel>,
    i: int,
    j: int,
    rank: usize,
)
    requires
        has_room(s, path, files),
        forall|a: int, b: int|
            0 <= a < b < s.repos.len() ==> #[trigger] s.repos[a].id != #[trigger] s.repos[b].id,
        0 <= i < files.len(),
        0 <= j < files[i].chunks.len(),
    ensures
        exists|id: i64|
            (#[trigger] code_hit(indexed(s, path, name, now, files), id, Some(path), rank)) matches Some(
                h,
            ) && h.repo_path == path && h.file_path == files[i].rel_path && h.language == Some(
                files[i].language,
            ) && h.snippet == files[i].chunks[j].content && h.symbol_name
                == files[i].chunks[j].symbol_name,
{
    let t = indexed(s, path, name, now, files);
    let n = repo_number(s, path) as i64;
    let cleared = reset(s, path, name, now, files.len() as int, chunk_total(files));
    let file_base = next_file_id(cleared);
    let chunk_base = next_code_chunk_id(cleared);
    let file_id = |f: CodeFileModel| f.id;
    let chunk_id = |c: CodeChunkModel| c.id;
    fresh_id_is_fresh(cleared.files, file_id);
    fresh_id_is_fresh(cleared.chunks, chunk_id);
    lemma_base_in_range(cleared.files, file_id);
    lemma_base_in_range(cleared.chunks, chunk_id);
    lemma_chunk_total(files, i);
    lemma_chunk_rows(files, file_base, chunk_base);
    let new_files = file_rows(files, n, file_base);
    let new_chunks = chunk_rows(files, file_base, chunk_base);
    let m = chunk_total(files.take(i)) + j;
    let c = chunk_row_at(files, file_base, chunk_base, i, j);
    lemma_new_row_found(cleared.chunks, new_chunks, chunk_id, chunk_base, m);
    lemma_new_row_found(cleared.files, new_files, file_id, file_base, i);
    lemma_repo_found(s, path, name, now, files.len() as int, chunk_total(files));
    let id = (chunk_base + m) as i64;
    assert(chunk_at(t, id) == Some(c)) by {
        lemma_first_match_ext(
            t.chunks,
            |x: CodeChunkModel| x.id == id,
            |x: CodeChunkModel| chunk_id(x) == chunk_base + m,
        );
    }
    assert(file_at(t, c.file_id) == Some(new_files[i])) by {
        lemma_first_match_ext(
            t.files,
            |x: CodeFileModel| x.id == c.file_id,
            |x: CodeFileModel| file_id(x) == file_base + i,
        );
    }
    assert(t.repos == cleared.repos);
    assert(repo_at(t, n) == repo_at(cleared, n));
    assert(code_hit(t, id, Some(path), rank) is Some);
}

proof fn lemma_base_in_range<V>(s: Seq<V>, id: spec_fn(V) -> i64)
    ensures
        i64::MIN <= fresh_id(s, id),
    decreases s.len(),
{
    if s.len() > 0 {
        lemma_base_in_range(s.drop_last(), id);
    }
}

proof fn lemma_first_match_ext<V>(s: Seq<V>, p: spec_fn(V) -> bool, q: spec_fn(V) -> bool)
    requires
        forall|v: V| #[trigger] p(v) == q(v),
    ensures
        first_match(s, p) == first_match(s, q),
    decreases s.len(),
{
    if s.len() > 0 {
        assert(p(s[0]) == q(s[0]));
        lemma_first_match_ext(s.skip(1), p, q);
    }
}

} // verus!
