//! The tools for code: starting to index, what indexing came to, and searching.
use vstd::prelude::*;

use crate::codebase::{found_code, CodeHit, CodeStore, CodeStoreModel};
use crate::store::recall::{fts_match, fts_query};
use crate::store::Store;
use crate::text::{blank, decimal, is_blank, number, opt_str};
use crate::tools::{log, note, stepped};
use crate::types::models;

verus! {

/// Starts to index a path, unless it is being indexed already. Says whether it was
/// started, and what is answered.
pub fn start_index(code: &mut CodeStore, path: &str) -> (r: (bool, String))
    ensures
        r.0 == !old(code)@.running.contains(path@),
        final(code)@ == (CodeStoreModel {
            running: if r.0 {
                old(code)@.running.push(path@)
            } else {
                old(code)@.running
            },
            ..old(code)@
        }),
        r.1@ == (if r.0 {
            "Indexing started in the background for '"@ + path@ + "'. Large trees can take several minutes; this call returns immediately so the host does not time out. Call list_repos() until `indexing` is false and file/chunk counts settle, then search_code(). Do not re-run index_codebase on this path until it finishes."@
        } else {
            "Indexing already in progress for '"@ + path@ + "'. Call list_repos() — the `indexing` flag stays true until it finishes."@
        }),
{
    if code.begin_index(path) {
        let mut t: String = "Indexing started in the background for '".to_owned();
        t.append(path);
        t.append("'. Large trees can take several minutes; this call returns immediately so the host does not time out. Call list_repos() until `indexing` is false and file/chunk counts settle, then search_code(). Do not re-run index_codebase on this path until it finishes.");
        (true, t)
    } else {
        let mut t: String = "Indexing already in progress for '".to_owned();
        t.append(path);
        t.append("'. Call list_repos() — the `indexing` flag stays true until it finishes.");
        (false, t)
    }
}

/// Notes what indexing a path came to: the number of files and chunks, or what went
/// wrong.
pub fn note_index(store: &mut Store, run_id: &str, path: &str, came_to: Result<(usize, usize), String>, now: i64)
    ensures
        final(store)@ == stepped(
            old(store)@,
            note(
                run_id@,
                "indexing"@,
                "index_codebase path="@ + path@,
                match came_to {
                    Ok(x) => "indexed repo '"@ + path@ + "': "@ + decimal(x.0 as int) + " files, "@ + decimal(x.1 as int) + " chunks"@,
                    Err(e) => "index_codebase failed for '"@ + path@ + "': "@ + e@,
                },
                if came_to is Ok {
                    "success"@
                } else {
                    "error"@
                },
                None,
            ),
            now,
        ),
{
    let mut action: String = "index_codebase path=".to_owned();
    action.append(path);
    match came_to {
        Ok(x) => {
            let mut observation: String = "indexed repo '".to_owned();
            observation.append(path);
            observation.append("': ");
            observation.append(number(x.0 as i128).as_str());
            observation.append(" files, ");
            observation.append(number(x.1 as i128).as_str());
            observation.append(" chunks");
            log(
                store,
                run_id,
                "indexing",
                action.as_str(),
                observation.as_str(),
                "success",
                None,
                now,
            );
        },
        Err(e) => {
            let mut observation: String = "index_codebase failed for '".to_owned();
            observation.append(path);
            observation.append("': ");
            observation.append(e.as_str());
            log(
                store,
                run_id,
                "indexing",
                action.as_str(),
                observation.as_str(),
                "error",
                None,
                now,
            );
        },
    }
}

/// What the search engine is asked for a query; `None` where the query is blank, which
/// finds nothing.
pub fn code_query(query: &str) -> (r: Option<String>)
    ensures
        match r {
            Some(t) => !blank(query@) && t@ == fts_query(query@),
            None => blank(query@),
        },
{
    if is_blank(query) {
        None
    } else {
        Some(fts_match(query))
    }
}

/// How many hits a search is asked for, where nothing is said.
pub open spec fn asked_code_hits(limit: Option<u32>) -> int {
    match limit {
        Some(n) => n as int,
        None => 8,
    }
}

/// Searches the index, given what the search engine ranked; the step is noted.
pub fn search_code(
    store: &mut Store,
    code: &CodeStore,
    run_id: &str,
    query: &str,
    ranked: &Vec<i64>,
    repo: Option<&str>,
    limit: Option<u32>,
    now: i64,
) -> (r: Vec<CodeHit>)
    ensures
        ({
            let hits = found_code(code@, ranked@, opt_str(repo), asked_code_hits(limit));
            &&& models(r@) == hits
            &&& final(store)@ == stepped(
                old(store)@,
                note(
                    run_id@,
                    "code_search"@,
                    "search_code query="@ + query@,
                    "returned "@ + decimal(hits.len() as int) + " code hits"@,
                    "success"@,
                    None,
                ),
                now,
            )
        }),
{
    let n: usize = match limit {
        Some(n) => n as usize,
        None => 8,
    };
    let hits: Vec<CodeHit> = code.search(ranked, repo, n);
    assert(models(hits@).len() == hits@.len());
    let mut action: String = "search_code query=".to_owned();
    action.append(query);
    let mut observation: String = "returned ".to_owned();
    observation.append(number(hits.len() as i128).as_str());
    observation.append(" code hits");
    log(
        store,
        run_id,
        "code_search",
        action.as_str(),
        observation.as_str(),
        "success",
        None,
        now,
    );
    hits
}

} // verus!
