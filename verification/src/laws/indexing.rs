//! Repositories, and what of them is on record.
use vstd::prelude::*;

use crate::codebase::{chunk_rows, chunk_total, file_rows, indexed, is_chunk_of, lies_in, names};
use crate::codebase::{overlap_warning, overlaps, own_chunk_rows, reindexed, repo_by_path};
use crate::codebase::{repo_called, repo_info, repo_stats, reset, warnings, without_files};
use crate::codebase::{without_repo, CodeChunkModel, CodeFileModel, CodeStoreModel, RepoInfoModel};
use crate::codebase::RepoRecordModel;
use crate::index::{files_with, skips_with, ChunkEntryModel, FileEntryModel, Outcome};
use crate::lang::{extension, file_name, last_of};
use crate::laws::text::pieces_end_at_separators;
use crate::table::{first_match, lemma_first_match, some_match};
use crate::text::pieces;

verus! {

/// A repository is found by its path, or by its path or its name.
pub proof fn repositories_are_found_by_path_or_name(s: CodeStoreModel, t: Seq<char>)
    ensures
        repo_by_path(s, t) matches Some(r) ==> r.path == t && s.repos.contains(r),
        repo_by_path(s, t) is None <==> forall|i: int|
            0 <= i < s.repos.len() ==> (#[trigger] s.repos[i]).path != t,
        repo_called(s, t) matches Some(r) ==> (r.path == t || r.name == Some(t))
            && s.repos.contains(r),
        repo_called(s, t) is None <==> forall|i: int|
            0 <= i < s.repos.len() ==> (#[trigger] s.repos[i]).path != t && s.repos[i].name != Some(
                t,
            ),
{
    let p = |r: RepoRecordModel| r.path == t;
    let q = |r: RepoRecordModel| r.path == t || r.name == Some(t);
    lemma_first_match(s.repos, p);
    lemma_first_match(s.repos, q);
    if let Some(r) = first_match(s.repos, p) {
        assert(s.repos[s.repos.index_of(r)] == r);
    }
    if let Some(r) = first_match(s.repos, q) {
        assert(s.repos[s.repos.index_of(r)] == r);
    }
    assert forall|i: int| first_match(s.repos, p) is None && 0 <= i < s.repos.len() implies (
    #[trigger] s.repos[i]).path != t by {
        assert(!p(s.repos[i]));
    }
    assert forall|i: int| first_match(s.repos, q) is None && 0 <= i < s.repos.len() implies (
    #[trigger] s.repos[i]).path != t && s.repos[i].name != Some(t) by {
        assert(!q(s.repos[i]));
    }
}

/// The size of a repository is the number of its files and of the chunks in them.
pub proof fn repositories_are_sized_by_files(s: CodeStoreModel, t: Seq<char>)
    requires
        s.files.len() <= i64::MAX,
        s.chunks.len() <= i64::MAX,
    ensures
        repo_called(s, t) is None ==> repo_stats(s, t).repos == 0 && repo_stats(s, t).files == 0
            && repo_stats(s, t).chunks == 0,
        repo_called(s, t) matches Some(r) ==> {
            &&& repo_stats(s, t).repos == 1
            &&& repo_stats(s, t).files == s.files.filter(|f: CodeFileModel| f.repo_id == r.id).len()
            &&& repo_stats(s, t).chunks == s.chunks.filter(
                |c: CodeChunkModel| is_chunk_of(s.files, c, r.id),
            ).len()
        },
{
    if let Some(r) = repo_called(s, t) {
        let p = |f: CodeFileModel| crate::codebase::is_file_of(f, r.id);
        let q = |f: CodeFileModel| f.repo_id == r.id;
        assert(p =~= q);
        s.files.lemma_filter_len(p);
        s.chunks.lemma_filter_len(|c: CodeChunkModel| is_chunk_of(s.files, c, r.id));
    }
}

/// A chunk is of a repository where its file is.
pub proof fn chunks_are_where_their_file_is(files: Seq<CodeFileModel>, c: CodeChunkModel, repo: i64)
    ensures
        is_chunk_of(files, c, repo) <==> exists|i: int|
            0 <= i < files.len() && (#[trigger] files[i]).id == c.file_id && files[i].repo_id == repo,
{
    let p = |f: CodeFileModel| f.id == c.file_id && crate::codebase::is_file_of(f, repo);
    if some_match(files, p) {
        let i = choose|i: int| 0 <= i < files.len() && p(#[trigger] files[i]);
        assert(files[i].id == c.file_id);
    }
    if exists|i: int|
        0 <= i < files.len() && (#[trigger] files[i]).id == c.file_id && files[i].repo_id == repo {
        let i = choose|i: int|
            0 <= i < files.len() && (#[trigger] files[i]).id == c.file_id && files[i].repo_id
                == repo;
        assert(p(files[i]));
    }
}

/// With a repository its files and their chunks go, and nothing else.
pub proof fn repositories_go_with_their_files(
    s: CodeStoreModel,
    id: i64,
    r: RepoRecordModel,
    f: CodeFileModel,
    c: CodeChunkModel,
)
    ensures
        without_repo(s, id).repos.contains(r) <==> s.repos.contains(r) && r.id != id,
        without_repo(s, id).files.contains(f) <==> s.files.contains(f) && f.repo_id != id,
        without_repo(s, id).chunks.contains(c) <==> s.chunks.contains(c) && !(exists|i: int|
            0 <= i < s.files.len() && (#[trigger] s.files[i]).id == c.file_id && s.files[i].repo_id
                == id),
        without_files(s, id).repos == s.repos,
        without_files(s, id).files == without_repo(s, id).files,
        without_files(s, id).chunks == without_repo(s, id).chunks,
{
    crate::laws::domains::lemma_kept(s.repos, |r: RepoRecordModel| r.id != id);
    crate::laws::domains::lemma_kept(
        s.files,
        |f: CodeFileModel| !crate::codebase::is_file_of(f, id),
    );
    crate::laws::domains::lemma_kept(
        s.chunks,
        |c: CodeChunkModel| !is_chunk_of(s.files, c, id),
    );
    chunks_are_where_their_file_is(s.files, c, id);
}

/// The files of an index are numbered on, in order, under their repository.
pub proof fn files_are_recorded_in_order(files: Seq<FileEntryModel>, repo: i64, base: int, i: int)
    requires
        0 <= i < files.len(),
        i64::MIN <= base,
        base + files.len() <= i64::MAX,
    ensures
        file_rows(files, repo, base).len() == files.len(),
        file_rows(files, repo, base)[i] == (CodeFileModel {
            id: (base + i) as i64,
            repo_id: repo,
            rel_path: files[i].rel_path,
            language: Some(files[i].language),
        }),
        file_rows(files, repo, base)[i].id == base + i,
{
}

/// The chunks of a file are numbered on, in order, under their file, with their lines and
/// their symbol.
pub proof fn chunks_are_recorded_in_order(
    chunks: Seq<ChunkEntryModel>,
    file: i64,
    base: int,
    i: int,
)
    requires
        0 <= i < chunks.len(),
        i64::MIN <= base,
        base + chunks.len() <= i64::MAX,
        chunks[i].line_start <= i64::MAX,
        chunks[i].line_end <= i64::MAX,
    ensures
        own_chunk_rows(chunks, file as int, base).len() == chunks.len(),
        ({
            let c = own_chunk_rows(chunks, file as int, base)[i];
            &&& c.id == base + i && c.file_id == file && c.line_start == chunks[i].line_start
            &&& c.line_end == chunks[i].line_end && c.content == chunks[i].content
            &&& c.kind == chunks[i].kind && c.symbol_name == chunks[i].symbol_name
        }),
{
}

/// The chunks of the files follow each other.
pub proof fn files_follow_each_other(files: Seq<FileEntryModel>, f: FileEntryModel, a: int, b: int)
    ensures
        chunk_total(seq![]) == 0,
        chunk_total(files.push(f)) == chunk_total(files) + f.chunks.len(),
        chunk_rows(seq![], a, b).len() == 0,
        chunk_rows(files.push(f), a, b) == chunk_rows(files, a, b) + own_chunk_rows(
            f.chunks,
            a + files.len(),
            b + chunk_total(files),
        ),
{
    assert(files.push(f).drop_last() =~= files);
}

/// A repository that is indexed is on record with its counts, at that time; the others stay.
pub proof fn indexing_records_the_counts(
    s: CodeStoreModel,
    path: Seq<char>,
    name: Option<Seq<char>>,
    now: i64,
    files: Seq<FileEntryModel>,
)
    requires
        files.len() <= i64::MAX,
        0 <= chunk_total(files) <= i64::MAX,
    ensures
        ({
            let t = indexed(s, path, name, now, files);
            &&& exists|i: int| 0 <= i < t.repos.len() && (#[trigger] t.repos[i]).path == path
            &&& forall|i: int|
                0 <= i < t.repos.len() && (#[trigger] t.repos[i]).path == path ==> {
                    &&& t.repos[i].indexed_at == Some(now)
                    &&& t.repos[i].file_count == files.len()
                    &&& t.repos[i].chunk_count == chunk_total(files)
                    &&& name is Some ==> t.repos[i].name == name
                }
            &&& forall|i: int|
                0 <= i < s.repos.len() && (#[trigger] s.repos[i]).path != path ==> t.repos[i]
                    == s.repos[i]
            &&& forall|i: int|
                0 <= i < s.repos.len() && (#[trigger] s.repos[i]).path == path ==> t.repos[i].id
                    == s.repos[i].id && (name is None ==> t.repos[i].name == s.repos[i].name)
        }),
{
    let t = indexed(s, path, name, now, files);
    let n = files.len() as int;
    let c = chunk_total(files);
    assert(t.repos == reset(s, path, name, now, n, c).repos);
    let p = |r: RepoRecordModel| r.path == path;
    lemma_first_match(s.repos, p);
    repositories_are_found_by_path_or_name(s, path);
    match repo_by_path(s, path) {
        Some(r) => {
            let i = s.repos.index_of(r);
            assert(s.repos[i] == r);
            assert(t.repos[i] == reindexed(r, path, name, now, n, c));
            assert(t.repos[i].path == path);
        },
        None => {
            assert(t.repos[s.repos.len() as int].path == path);
            assert forall|i: int|
                0 <= i < t.repos.len() && (#[trigger] t.repos[i]).path == path implies i
                == s.repos.len() by {
                if i < s.repos.len() {
                    assert(t.repos[i] == s.repos[i]);
                }
            }
        },
    }
}

/// A path lies in a directory where it begins with its names; a path and one within it
/// overlap, and a path does not overlap itself.
pub proof fn paths_within_each_other_overlap(dir: Seq<char>, name: Seq<char>)
    requires
        name.len() > 0,
        name != "."@,
        forall|i: int| 0 <= i < name.len() ==> #[trigger] name[i] != '/',
        dir.len() > 0,
    ensures
        lies_in(dir, dir),
        lies_in(dir + seq!['/'] + name, dir),
        !lies_in(dir, dir + seq!['/'] + name),
        overlaps(dir + seq!['/'] + name, dir),
        overlaps(dir, dir + seq!['/'] + name),
        !overlaps(dir, dir),
{
    let path = dir + seq!['/'] + name;
    lemma_names(dir, name);
    assert(names(path).take(names(dir).len() as int) =~= names(dir));
    assert(names(dir).take(names(dir).len() as int) =~= names(dir));
    assert(path[0] == dir[0]);
}

proof fn lemma_names(dir: Seq<char>, name: Seq<char>)
    requires
        name.len() > 0,
        name != "."@,
        forall|i: int| 0 <= i < name.len() ==> #[trigger] name[i] != '/',
    ensures
        names(dir + seq!['/'] + name) == names(dir).push(name),
    decreases dir.len(),
{
    let p = |n: Seq<char>| n.len() > 0 && n != "."@;
    let path = dir + seq!['/'] + name;
    crate::text::lemma_until(dir, '/');
    let i = crate::text::until(dir, '/') as int;
    let a = dir.take(i);
    if i < dir.len() {
        let b = dir.skip(i + 1);
        lemma_names(b, name);
        pieces_end_at_separators(a, b, '/');
        assert(dir =~= a + seq!['/'] + b);
        pieces_end_at_separators(a, b + seq!['/'] + name, '/');
        assert(path =~= a + seq!['/'] + (b + seq!['/'] + name));
        lemma_filter_head(a, pieces(b, '/'), p);
        lemma_filter_head(a, pieces(b + seq!['/'] + name, '/'), p);
        assert(names(path) =~= names(dir).push(name));
    } else {
        assert(a =~= dir);
        pieces_end_at_separators(dir, name, '/');
        pieces_end_at_separators(name, seq![], '/');
        assert(pieces(path, '/') =~= seq![dir] + seq![name]);
        let e = Seq::<Seq<char>>::empty();
        assert(seq![dir] =~= seq![dir] + e);
        assert(seq![name] =~= seq![name] + e);
        lemma_filter_head(dir, e, p);
        lemma_filter_head(name, e, p);
        lemma_filter_head(dir, seq![name], p);
        assert(e.filter(p) =~= e) by {
            reveal(Seq::filter);
        }
        assert(names(path) =~= names(dir).push(name));
    }
}

proof fn lemma_filter_head(x: Seq<char>, s: Seq<Seq<char>>, p: spec_fn(Seq<char>) -> bool)
    ensures
        (seq![x] + s).filter(p) == (if p(x) {
            seq![x] + s.filter(p)
        } else {
            s.filter(p)
        }),
    decreases s.len(),
{
    reveal(Seq::filter);
    if s.len() == 0 {
        assert(seq![x] + s =~= seq![x]);
        assert(seq![x].drop_last() =~= seq![]);
        assert(s.filter(p) =~= seq![]);
        assert(seq![x] + s.filter(p) =~= seq![x]);
        assert(Seq::<Seq<char>>::empty().push(x) =~= seq![x]);
        assert(Seq::<Seq<char>>::empty().filter(p) =~= seq![]);
    } else {
        lemma_filter_head(x, s.drop_last(), p);
        assert((seq![x] + s).drop_last() =~= seq![x] + s.drop_last());
        assert((seq![x] + s).last() == s.last());
        assert((seq![x] + s).filter(p) =~= (if p(x) {
            seq![x] + s.filter(p)
        } else {
            s.filter(p)
        }));
    }
}

/// Every repository that overlaps a path is warned of.
pub proof fn overlaps_are_warned_of(path: Seq<char>, repos: Seq<RepoInfoModel>, r: RepoInfoModel)
    ensures
        warnings(path, seq![]).len() == 0,
        overlaps(path, r.path) ==> warnings(path, repos.push(r)) == warnings(path, repos).push(
            "overlapping repository index detected: '"@ + path + "' and '"@ + r.path
                + "' are stored separately"@,
        ),
        !overlaps(path, r.path) ==> warnings(path, repos.push(r)) == warnings(path, repos),
        overlap_warning(path, r.path) == "overlapping repository index detected: '"@ + path
            + "' and '"@ + r.path + "' are stored separately"@,
{
    assert(repos.push(r).drop_last() =~= repos);
}

/// A repository is shown as it is on record, and whether it is being indexed.
pub proof fn repositories_are_shown_as_recorded(s: CodeStoreModel, r: RepoRecordModel)
    ensures
        ({
            let x = repo_info(s, r);
            &&& x.id == r.id && x.path == r.path && x.name == r.name
            &&& x.indexed_at == r.indexed_at && x.file_count == r.file_count
            &&& x.chunk_count == r.chunk_count && (x.indexing <==> s.running.contains(r.path))
        }),
{
}

/// A file that was read is added to the index, one that was not is named with the reason,
/// and an empty one is neither.
pub proof fn files_are_added_or_named(
    files: Seq<FileEntryModel>,
    skipped: Seq<Seq<char>>,
    f: FileEntryModel,
    why: Seq<char>,
)
    ensures
        files_with(files, Outcome::Indexed(f)) == files.push(f),
        files_with(files, Outcome::Skipped(why)) == files,
        files_with(files, Outcome::Empty) == files,
        skips_with(skipped, Outcome::Indexed(f)) == skipped,
        skips_with(skipped, Outcome::Skipped(why)) == skipped.push(why),
        skips_with(skipped, Outcome::Empty) == skipped,
{
}

/// The name of a file is what stands behind the last slash of its path, and its ending what
/// stands behind the last dot of that.
pub proof fn paths_end_in_names(dir: Seq<char>, stem: Seq<char>, ext: Seq<char>)
    requires
        stem.len() > 0,
        forall|i: int| 0 <= i < stem.len() ==> #[trigger] stem[i] != '/',
        forall|i: int| 0 <= i < ext.len() ==> #[trigger] ext[i] != '/' && ext[i] != '.',
        ext.len() > 0,
    ensures
        file_name(dir + seq!['/'] + stem + seq!['.'] + ext) == stem + seq!['.'] + ext,
        file_name(stem + seq!['.'] + ext) == stem + seq!['.'] + ext,
        extension(stem + seq!['.'] + ext) == ext,
{
    let name = stem + seq!['.'] + ext;
    let path = dir + seq!['/'] + stem + seq!['.'] + ext;
    reveal_strlit(".");
    reveal_strlit("..");
    assert("."@.len() == 1 && ".."@.len() == 2 && ".."@[1] == '.');
    assert(name[name.len() - 1] == ext[ext.len() - 1]);
    assert(name != ".."@);
    assert forall|i: int| 0 <= i < name.len() implies #[trigger] name[i] != '/' by {
        if i < stem.len() {
            assert(name[i] == stem[i]);
        } else if i > stem.len() {
            assert(name[i] == ext[i - stem.len() - 1]);
        }
    }
    assert(path =~= dir + seq!['/'] + name);
    lemma_last_of_behind(dir, name, '/');
    assert(path.skip(dir.len() as int + 1) =~= name);
    lemma_last_of_none(name, '/');
    lemma_last_of_behind(stem, ext, '.');
    assert(name.skip(stem.len() as int + 1) =~= ext);
}

proof fn lemma_last_of_behind(a: Seq<char>, b: Seq<char>, c: char)
    requires
        forall|i: int| 0 <= i < b.len() ==> #[trigger] b[i] != c,
    ensures
        last_of(a + seq![c] + b, c) == Some(a.len() as int),
    decreases b.len(),
{
    let s = a + seq![c] + b;
    if b.len() > 0 {
        assert(s.last() == b.last());
        assert(b[b.len() - 1] != c);
        assert(s.drop_last() =~= a + seq![c] + b.drop_last());
        assert forall|i: int| 0 <= i < b.drop_last().len() implies #[trigger] b.drop_last()[i]
            != c by {
            assert(b[i] != c);
        }
        lemma_last_of_behind(a, b.drop_last(), c);
    } else {
        assert(s.last() == c);
    }
}

proof fn lemma_last_of_none(b: Seq<char>, c: char)
    requires
        forall|i: int| 0 <= i < b.len() ==> #[trigger] b[i] != c,
    ensures
        last_of(b, c) is None,
    decreases b.len(),
{
    if b.len() > 0 {
        assert(b[b.len() - 1] != c);
        assert forall|i: int| 0 <= i < b.drop_last().len() implies #[trigger] b.drop_last()[i]
            != c by {
            assert(b[i] != c);
        }
        lemma_last_of_none(b.drop_last(), c);
    }
}

} // verus!
