//! How files are cut and indexed, and what a search of the code gives.
use vstd::prelude::*;
use vstd::utf8::{decode_utf8, valid_utf8};

use crate::codebase::{chunk_at, code_hit, code_hits, file_at, found_code, repo_at, repo_key};
use crate::codebase::{repo_list, CodeChunkModel, CodeFileModel, CodeHitModel, CodeStoreModel};
use crate::codebase::RepoRecordModel;
use crate::index::{chunk_end, chunks, chunks_from, is_binary, outcome, visit, EntryKind, Outcome};
use crate::index::Visit;
use crate::order::{lemma_sort_in_order, lemma_sort_members, pair_desc};
use crate::table::{lemma_filter_none_dropped, lemma_first_match, listed};
use crate::text::{blank, has, joined, lines, stands_at, swapped};

verus! {

/// A file is cut into chunks of eighty lines, the last of which may hold fewer: the chunk
/// at a place begins where that many chunks of eighty lines end.
pub proof fn chunks_hold_eighty_lines(content: Seq<char>, lang: Seq<char>, i: int)
    requires
        lines(content).len() < usize::MAX,
        0 <= i < chunks(content, lang).len(),
    ensures
        ({
            let n = lines(content).len() as int;
            let c = chunks(content, lang)[i];
            &&& c.line_start == 80 * i + 1
            &&& 80 * i < n
            &&& c.line_end == if 80 * (i + 1) <= n {
                80 * (i + 1)
            } else {
                n
            }
            &&& i == chunks(content, lang).len() - 1 <==> 80 * (i + 1) >= n
            &&& c.content == joined(lines(content).subrange(80 * i, c.line_end as int), "\n"@)
        }),
{
    lemma_chunk_from(lines(content), 0, lang, i);
}

proof fn lemma_chunk_from(all: Seq<Seq<char>>, from: int, lang: Seq<char>, i: int)
    requires
        all.len() < usize::MAX,
        0 <= from,
        0 <= i < chunks_from(all, from, lang).len(),
    ensures
        ({
            let n = all.len() as int;
            let c = chunks_from(all, from, lang)[i];
            &&& c.line_start == from + 80 * i + 1
            &&& from + 80 * i < n
            &&& c.line_end == if from + 80 * (i + 1) <= n {
                from + 80 * (i + 1)
            } else {
                n
            }
            &&& i == chunks_from(all, from, lang).len() - 1 <==> from + 80 * (i + 1) >= n
            &&& c.content == joined(all.subrange(from + 80 * i, c.line_end as int), "\n"@)
        }),
    decreases all.len() - from,
{
    let to = chunk_end(all.len() as int, from);
    let rest = chunks_from(all, to, lang);
    if i > 0 {
        assert(chunks_from(all, from, lang)[i] == rest[i - 1]);
        lemma_chunk_from(all, to, lang, i - 1);
    } else if rest.len() > 0 {
        lemma_chunk_from(all, to, lang, 0);
    }
}

/// What becomes of a file: one larger than half a mebibyte, one that cannot be read, one
/// with a zero among its first 8192 bytes and one that is no UTF-8 are skipped, with the
/// path and the reason; one with nothing but white space is left out; any other is indexed,
/// under its path with slashes.
pub proof fn files_are_skipped_for_a_reason(
    path: Seq<char>,
    size: Option<u64>,
    bytes: Option<Seq<u8>>,
    lang: Seq<char>,
)
    ensures
        ({
            let o = outcome(path, size, bytes, lang);
            let large = size matches Some(n) && n > 524288;
            let binary = bytes matches Some(b) && exists|i: int|
                0 <= i < b.len() && i < 8192 && #[trigger] b[i] == 0;
            &&& large ==> (o matches Outcome::Skipped(why) && has(why, "exceeds 524288 byte limit"@)
                && has(why, swapped(path, '\\', '/')))
            &&& !large && bytes is None ==> o == Outcome::Skipped(
                swapped(path, '\\', '/') + ": unreadable"@,
            )
            &&& !large && binary ==> o == Outcome::Skipped(
                swapped(path, '\\', '/') + ": binary content"@,
            )
            &&& !large && !binary ==> (bytes matches Some(b) ==> {
                &&& !valid_utf8(b) ==> o == Outcome::Skipped(
                    swapped(path, '\\', '/') + ": not valid UTF-8 text"@,
                )
                &&& valid_utf8(b) && blank(decode_utf8(b)) ==> o is Empty
                &&& valid_utf8(b) && !blank(decode_utf8(b)) ==> !(o is Skipped)
                &&& o matches Outcome::Indexed(f) ==> f.rel_path == swapped(path, '\\', '/')
                    && f.language == lang && f.chunks == chunks(decode_utf8(b), lang) && valid_utf8(b)
            })
        }),
{
    reveal_strlit("exceeds 524288 byte limit");
    reveal_strlit(": exceeds ");
    reveal_strlit(" byte limit");
    let rel = swapped(path, '\\', '/');
    if size matches Some(n) && n > 524288 {
        let d = crate::text::decimal(524288);
        assert(d =~= seq!['5', '2', '4', '2', '8', '8']) by {
            reveal_with_fuel(crate::text::digits, 8);
        }
        let why = rel + ": exceeds "@ + d + " byte limit"@;
        let at: int = rel.len() as int + 2;
        let p = "exceeds 524288 byte limit"@;
        assert(why.subrange(at, at + p.len()) =~= p);
        assert(stands_at(why, p, at));
        assert(why.subrange(0, rel.len() as int) =~= rel);
        assert(stands_at(why, rel, 0));
    }
    if let Some(b) = bytes {
        assert(is_binary(b) == exists|i: int| 0 <= i < b.len() && i < 8192 && #[trigger] b[i] == 0);
    }
}

/// Files are read; hidden directories, and those that hold what others made, are passed
/// over, and every other directory is descended into.
pub proof fn generated_directories_are_passed_over(name: Seq<char>)
    ensures
        visit(name, EntryKind::File) == Visit::Read,
        visit(name, EntryKind::Other) == Visit::Pass,
        name.len() > 0 && name[0] == '.' ==> visit(name, EntryKind::Directory) == Visit::Pass,
        name == "node_modules"@ || name == "target"@ || name == "__pycache__"@ || name == "venv"@
            || name == "env"@ || name == "dist"@ || name == "build"@ || name == "vendor"@ || name
            == "coverage"@ || name == "out"@ ==> visit(name, EntryKind::Directory) == Visit::Pass,
        !(name.len() > 0 && name[0] == '.') && name != "node_modules"@ && name != "target"@ && name
            != "__pycache__"@ && name != "venv"@ && name != "env"@ && name != "dist"@ && name
            != "build"@ && name != "vendor"@ && name != "coverage"@ && name != "out"@ ==> visit(
            name,
            EntryKind::Directory,
        ) == Visit::Descend,
{
    reveal_strlit(".git");
    reveal_strlit(".venv");
    reveal_strlit(".next");
    reveal_strlit(".nuxt");
    reveal_strlit(".nyc_output");
    reveal_strlit(".cache");
    reveal_strlit(".parcel-cache");
    reveal_strlit(".turbo");
    reveal_strlit(".svelte-kit");
    assert(".git"@[0] == '.' && ".venv"@[0] == '.' && ".next"@[0] == '.' && ".nuxt"@[0] == '.');
    assert(".nyc_output"@[0] == '.' && ".cache"@[0] == '.' && ".parcel-cache"@[0] == '.');
    assert(".turbo"@[0] == '.' && ".svelte-kit"@[0] == '.');
}

/// Whether a hit shows a chunk of a file of a repository.
pub open spec fn shows_code(s: CodeStoreModel, id: i64, h: CodeHitModel) -> bool {
    exists|c: CodeChunkModel, f: CodeFileModel, r: RepoRecordModel|
        {
            &&& #[trigger] s.chunks.contains(c) && #[trigger] s.files.contains(f)
                && #[trigger] s.repos.contains(r)
            &&& c.id == id && f.id == c.file_id && r.id == f.repo_id
            &&& h.repo_path == r.path && h.file_path == f.rel_path && h.language == f.language
            &&& h.line_start == c.line_start && h.line_end == c.line_end
            &&& h.kind == c.kind && h.symbol_name == c.symbol_name && h.snippet == c.content
        }
}

/// Every hit of a search shows a chunk that was ranked, and only of the repository that was
/// asked for. The hits come in the order of the ranking, and none is left out unless as
/// many are given as were asked for.
pub proof fn search_keeps_the_ranking(
    s: CodeStoreModel,
    ranked: Seq<i64>,
    repo: Option<Seq<char>>,
    limit: int,
)
    requires
        limit >= 0,
        ranked.len() <= usize::MAX,
    ensures
        ({
            let hits = found_code(s, ranked, repo, limit);
            &&& hits.len() <= limit
            &&& forall|i: int|
                0 <= i < hits.len() ==> {
                    let h = #[trigger] hits[i];
                    &&& h.rank < ranked.len()
                    &&& shows_code(s, ranked[h.rank as int], h)
                    &&& repo matches Some(p) ==> h.repo_path == p
                }
            &&& forall|i: int, j: int|
                0 <= i < j < hits.len() ==> (#[trigger] hits[i]).rank < (#[trigger] hits[j]).rank
            &&& forall|m: int|
                0 <= m < ranked.len() ==> (code_hit(s, #[trigger] ranked[m], repo, m as usize)
                    matches Some(h) ==> hits.contains(h) || hits.len() == limit)
        }),
{
    lemma_code_hits(s, ranked, repo);
    let all = code_hits(s, ranked, repo);
    let hits = found_code(s, ranked, repo, limit);
    assert forall|m: int| 0 <= m < ranked.len() implies (code_hit(
        s,
        #[trigger] ranked[m],
        repo,
        m as usize,
    ) matches Some(h) ==> hits.contains(h) || hits.len() == limit) by {
        if let Some(h) = code_hit(s, ranked[m], repo, m as usize) {
            assert(all.contains(h));
            let at = all.index_of(h);
            if at < hits.len() {
                assert(hits[at] == h);
            }
        }
    }
}

proof fn lemma_code_hits(s: CodeStoreModel, ranked: Seq<i64>, repo: Option<Seq<char>>)
    requires
        ranked.len() <= usize::MAX,
    ensures
        ({
            let all = code_hits(s, ranked, repo);
            &&& forall|i: int|
                0 <= i < all.len() ==> {
                    let h = #[trigger] all[i];
                    &&& h.rank < ranked.len()
                    &&& shows_code(s, ranked[h.rank as int], h)
                    &&& repo matches Some(p) ==> h.repo_path == p
                }
            &&& forall|i: int, j: int|
                0 <= i < j < all.len() ==> (#[trigger] all[i]).rank < (#[trigger] all[j]).rank
            &&& forall|m: int|
                0 <= m < ranked.len() ==> (code_hit(s, #[trigger] ranked[m], repo, m as usize)
                    matches Some(h) ==> all.contains(h))
        }),
    decreases ranked.len(),
{
    let all = code_hits(s, ranked, repo);
    if ranked.len() > 0 {
        let head = ranked.drop_last();
        let before = code_hits(s, head, repo);
        let n = head.len() as int;
        lemma_code_hits(s, head, repo);
        lemma_code_hit(s, ranked[n], repo, n as usize);
        assert forall|i: int| 0 <= i < all.len() implies {
            let h = #[trigger] all[i];
            &&& h.rank < ranked.len()
            &&& shows_code(s, ranked[h.rank as int], h)
            &&& repo matches Some(p) ==> h.repo_path == p
        } by {
            if i < before.len() {
                assert(all[i] == before[i]);
                assert(head[before[i].rank as int] == ranked[before[i].rank as int]);
            }
        }
        assert forall|m: int| 0 <= m < ranked.len() implies (code_hit(
            s,
            #[trigger] ranked[m],
            repo,
            m as usize,
        ) matches Some(h) ==> all.contains(h)) by {
            if let Some(h) = code_hit(s, ranked[m], repo, m as usize) {
                if m < n {
                    assert(head[m] == ranked[m]);
                    assert(before.contains(h));
                    assert(all[before.index_of(h)] == h);
                } else {
                    assert(all[all.len() - 1] == h);
                }
            }
        }
    }
}

proof fn lemma_code_hit(s: CodeStoreModel, id: i64, repo: Option<Seq<char>>, rank: usize)
    ensures
        code_hit(s, id, repo, rank) matches Some(h) ==> h.rank == rank && shows_code(s, id, h) && (
        repo matches Some(p) ==> h.repo_path == p),
{
    if let Some(h) = code_hit(s, id, repo, rank) {
        lemma_first_match(s.chunks, |c: CodeChunkModel| c.id == id);
        let c = chunk_at(s, id)->0;
        lemma_first_match(s.files, |f: CodeFileModel| f.id == c.file_id);
        let f = file_at(s, c.file_id)->0;
        lemma_first_match(s.repos, |r: RepoRecordModel| r.id == f.repo_id);
        let r = repo_at(s, f.repo_id)->0;
        assert(s.chunks.contains(c) && s.files.contains(f) && s.repos.contains(r));
    }
}

/// A chunk of the repository that is asked for, of a store whose numbers are apart, is a
/// hit.
pub proof fn ranked_code_is_hit(
    s: CodeStoreModel,
    c: CodeChunkModel,
    f: CodeFileModel,
    r: RepoRecordModel,
    repo: Option<Seq<char>>,
    rank: usize,
)
    requires
        s.chunks.contains(c) && s.files.contains(f) && s.repos.contains(r),
        f.id == c.file_id && r.id == f.repo_id,
        repo matches Some(p) ==> r.path == p,
        forall|x: CodeChunkModel| #[trigger] s.chunks.contains(x) && x.id == c.id ==> x == c,
        forall|x: CodeFileModel| #[trigger] s.files.contains(x) && x.id == f.id ==> x == f,
        forall|x: RepoRecordModel| #[trigger] s.repos.contains(x) && x.id == r.id ==> x == r,
    ensures
        code_hit(s, c.id, repo, rank) matches Some(h) && h.snippet == c.content && h.file_path
            == f.rel_path && h.repo_path == r.path && h.rank == rank,
{
    let p = |x: CodeChunkModel| x.id == c.id;
    lemma_first_match(s.chunks, p);
    assert(p(s.chunks[s.chunks.index_of(c)]));
    let q = |x: CodeFileModel| x.id == f.id;
    lemma_first_match(s.files, q);
    assert(q(s.files[s.files.index_of(f)]));
    let o = |x: RepoRecordModel| x.id == r.id;
    lemma_first_match(s.repos, o);
    assert(o(s.repos[s.repos.index_of(r)]));
}

/// The repositories are listed those indexed last first, and those never indexed at the
/// end; none is left out.
pub proof fn the_latest_repositories_come_first(s: CodeStoreModel)
    ensures
        ({
            let all = repo_list(s);
            &&& all.len() == s.repos.len()
            &&& forall|i: int, j: int|
                0 <= i < j < all.len() ==> match ((#[trigger] all[j]).indexed_at, (
                #[trigger] all[i]).indexed_at) {
                    (Some(b), Some(a)) => a >= b,
                    (Some(b), None) => false,
                    _ => true,
                }
            &&& forall|r: RepoRecordModel| #[trigger]
                s.repos.contains(r) ==> exists|i: int|
                    0 <= i < all.len() && (#[trigger] all[i]).path == r.path && all[i].id == r.id
                        && all[i].indexing == s.running.contains(r.path)
        }),
{
    let p = |r: RepoRecordModel| true;
    let key = |r: RepoRecordModel| repo_key(r);
    let le = |a: RepoRecordModel, b: RepoRecordModel| pair_desc(key(a), key(b));
    let rows = listed(s.repos, p, key);
    lemma_filter_none_dropped(s.repos, p);
    lemma_sort_members(s.repos, le);
    lemma_sort_in_order(s.repos, le);
    let all = repo_list(s);
    assert forall|i: int, j: int| 0 <= i < j < all.len() implies match ((
    #[trigger] all[j]).indexed_at, (#[trigger] all[i]).indexed_at) {
        (Some(b), Some(a)) => a >= b,
        (Some(b), None) => false,
        _ => true,
    } by {
        assert(le(rows[i], rows[j]));
    }
    assert forall|r: RepoRecordModel| #[trigger] s.repos.contains(r) implies exists|i: int|
        0 <= i < all.len() && (#[trigger] all[i]).path == r.path && all[i].id == r.id
            && all[i].indexing == s.running.contains(r.path) by {
        assert(rows.contains(r));
        let i = rows.index_of(r);
        assert(all[i].path == r.path);
    }
}

} // verus!
