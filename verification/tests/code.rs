use klayer::codebase::{path_in, CodeStore, IndexError};
use klayer::index::{
    chunk_file, is_too_large, process_file_entry, search_body, visit_entry, EntryKind, FileEntry,
    Visit,
};
use klayer::lang::detect_language;
use klayer::symbols::{detect_symbol, parse_symbol};
use klayer::store::Store;
use klayer::tools::codebase::{code_query, note_index, search_code, start_index};
use klayer::tools::knowledge::{clear_codebase, forget_repo};
use klayer::tools::session::{complexity, estimate_task_complexity};

const NOW: i64 = 1_700_000_000;

fn gather(files: &[(&str, &[u8])]) -> (Vec<FileEntry>, Vec<String>) {
    let mut out = Vec::new();
    let mut skipped = Vec::new();
    for (path, bytes) in files {
        let lang = detect_language(path);
        process_file_entry(
            path,
            Some(bytes.len() as u64),
            Some(bytes.to_vec()),
            lang,
            &mut out,
            &mut skipped,
        );
    }
    (out, skipped)
}

#[test]
fn unknown_extensions_fall_back_to_text_and_binary_skips_are_explained() {
    let (files, skipped) = gather(&[
        ("PROGRAM.CBLX", b"IDENTIFICATION DIVISION.\nPROGRAM-ID. HELLO."),
        ("artifact.bin", b"abc\0def"),
    ]);
    let mut store = CodeStore::new();
    let stats = store.index_repo("/repo", Some("test"), NOW, &files, skipped).unwrap();
    assert!(stats.files >= 1);
    assert!(stats
        .skip_reasons
        .iter()
        .any(|r| r.contains("artifact.bin: binary content")));
    let ranked: Vec<i64> = store
        .chunks
        .iter()
        .filter(|c| c.content.contains("IDENTIFICATION"))
        .map(|c| c.id)
        .collect();
    let hits = store.search(&ranked, None, 5);
    assert!(hits.iter().any(|h| h.file_path == "PROGRAM.CBLX"));
}

#[test]
fn stats_for_repo_scopes_to_one_repo_among_several() {
    let (a, sa) = gather(&[("one.rs", b"fn one() {}\nfn two() {}\n")]);
    let (b, sb) = gather(&[
        ("a.rs", b"fn a() {}\n"),
        ("b.rs", b"fn b() {}\n"),
        ("c.rs", b"fn c() {}\n"),
    ]);
    let mut store = CodeStore::new();
    store.index_repo("/root/repo_a", Some("repo_a"), NOW, &a, sa).unwrap();
    store.index_repo("/root/repo_b", Some("repo_b"), NOW, &b, sb).unwrap();

    let global = store.stats();
    assert_eq!(global.files, 4);

    let scoped_a = store.stats_for_repo("repo_a");
    assert_eq!(scoped_a.files, 1);
    let scoped_b = store.stats_for_repo("repo_b");
    assert_eq!(scoped_b.files, 3);
    assert_ne!(scoped_a.files, global.files);

    let unknown = store.stats_for_repo("does-not-exist");
    assert_eq!(unknown.files, 0);
    assert_eq!(unknown.repos, 0);
}

#[test]
fn indexing_again_replaces_the_files() {
    let mut store = CodeStore::new();
    let (first, s) = gather(&[("a.rs", b"fn a() {}"), ("b.rs", b"fn b() {}")]);
    store.index_repo("/r", Some("r"), NOW, &first, s).unwrap();
    let (second, s) = gather(&[("c.rs", b"fn c() {}")]);
    let stats = store.index_repo("/r", None, NOW + 1, &second, s).unwrap();
    assert_eq!((stats.files, stats.chunks), (1, 1));
    let paths: Vec<&str> = store.files.iter().map(|f| f.rel_path.as_str()).collect();
    assert_eq!(paths, vec!["c.rs"]);
    let repos = store.list_repos();
    assert_eq!(repos.len(), 1);
    assert_eq!(repos[0].name.as_deref(), Some("r"));
    let (inner, s) = gather(&[("x.rs", b"fn x() {}")]);
    let stats = store.index_repo("/r/sub", None, NOW, &inner, s).unwrap();
    assert_eq!(stats.warnings.len(), 1);
    assert!(path_in("/r/sub", "/r") && !path_in("/rs", "/r"));
    assert!(store.forget_repo("/r"));
    assert!(!store.forget_repo("/r"));
    assert_eq!(store.files.len(), 1);
    assert_eq!(store.clear_all(), 1);
    assert!(store.chunks.is_empty());
}

#[test]
fn a_path_is_indexed_once() {
    let mut store = CodeStore::new();
    let (mut files, s) = gather(&[("a.rs", b"fn a() {}")]);
    let (again, _) = gather(&[("a.rs", b"fn a() {}")]);
    files.extend(again);
    assert_eq!(
        store.index_repo("/r", None, NOW, &files, s).err(),
        Some(IndexError::RepeatedPath)
    );
    store.files.push(klayer::codebase::CodeFile {
        id: i64::MAX,
        repo_id: 9,
        rel_path: "z".into(),
        language: None,
    });
    let (files, s) = gather(&[("a.rs", b"fn a() {}")]);
    assert_eq!(store.index_repo("/r", None, NOW, &files, s).err(), Some(IndexError::Full));
}

#[test]
fn files_are_cut_into_chunks_of_lines() {
    let text: String = (1..=130).map(|i| format!("line {i}\n")).collect();
    let chunks = chunk_file(&text, "rust");
    let total: usize = chunks.iter().map(|c| c.content.lines().count()).sum();
    assert_eq!(total, 130);
    assert_eq!(chunks[0].line_start, 1);
    assert_eq!(chunks.last().unwrap().line_end, 130);
    for w in chunks.windows(2) {
        assert_eq!(w[0].line_end + 1, w[1].line_start);
    }
    assert!(chunk_file("", "rust").is_empty());
}

#[test]
fn some_entries_are_passed_over() {
    assert_eq!(visit_entry("src", EntryKind::Directory), Visit::Descend);
    assert_eq!(visit_entry("node_modules", EntryKind::Directory), Visit::Pass);
    assert_eq!(visit_entry(".git", EntryKind::Directory), Visit::Pass);
    assert_eq!(visit_entry("main.rs", EntryKind::File), Visit::Read);
    assert_eq!(visit_entry("socket", EntryKind::Other), Visit::Pass);
    assert!(is_too_large(Some(u64::MAX)));
    assert!(!is_too_large(Some(10)) && !is_too_large(None));
    let mut out = Vec::new();
    let mut skipped = Vec::new();
    process_file_entry("bad.rs", Some(2), Some(vec![0xff, 0xfe]), "rust", &mut out, &mut skipped);
    process_file_entry("gone.rs", None, None, "rust", &mut out, &mut skipped);
    process_file_entry("big.rs", Some(u64::MAX), None, "rust", &mut out, &mut skipped);
    assert!(out.is_empty());
    assert_eq!(skipped.len(), 3);
}

#[test]
fn languages_are_told_by_the_name() {
    assert_eq!(detect_language("src/main.rs"), "rust");
    assert_eq!(detect_language("a.PY"), "python");
    assert_eq!(detect_language("x.unknown"), "text");
    for path in ["a.rs/", "a.rs/.", "a.rs//", "a.rs/././/", "./a.rs", "x.py/a.rs", "LIB.RS"] {
        assert_eq!(detect_language(path), "rust", "{path}");
    }
    for path in ["a.rs/..", "a.rs/x", ".rs", ".", "..", "/", "", "./.", "Makefile", "a.rs/.rs"] {
        assert_eq!(detect_language(path), "text", "{path}");
    }
    assert_eq!(detect_language("a.Cpy"), "cobol");
}

#[test]
fn symbols_are_found_in_lines() {
    assert_eq!(
        parse_symbol("rust", "pub fn main() {"),
        Some(("fn".to_string(), "main".to_string()))
    );
    assert_eq!(
        parse_symbol("python", "class Foo(Bar):"),
        Some(("class".to_string(), "Foo".to_string()))
    );
    assert_eq!(parse_symbol("rust", "let x = 1;"), None);
    let lines = vec!["// comment".to_string(), "struct Point {".to_string()];
    assert_eq!(
        detect_symbol("rust", &lines),
        (Some("struct".to_string()), Some("Point".to_string()))
    );
    let (files, _) = gather(&[("a.rs", b"fn alpha() {}")]);
    assert!(search_body("a.rs", &files[0].chunks[0]).contains("alpha"));
}

#[test]
fn the_tools_index_and_search() {
    let mut store = Store::new();
    let mut code = CodeStore::new();
    let (started, text) = start_index(&mut code, "/r");
    assert!(started && text.starts_with("Indexing started in the background for '/r'."));
    let (started, text) = start_index(&mut code, "/r");
    assert!(!started && text.starts_with("Indexing already in progress for '/r'."));
    let (files, s) = gather(&[("a.rs", b"fn alpha() {}")]);
    code.index_repo("/r", None, NOW, &files, s).unwrap();
    assert!(code.list_repos()[0].indexing);
    code.finish_index("/r");
    assert!(!code.list_repos()[0].indexing);
    note_index(&mut store, "run", "/r", Ok((1, 1)), NOW);
    note_index(&mut store, "run", "/q", Err("gone".to_string()), NOW);
    assert_eq!(
        store.episodes[0].observation.as_deref(),
        Some("indexed repo '/r': 1 files, 1 chunks")
    );
    assert_eq!(store.episodes[1].outcome.as_deref(), Some("error"));
    assert_eq!(code_query("  "), None);
    assert_eq!(code_query("alpha beta").as_deref(), Some("\"alpha\" OR \"beta\""));
    let ranked = vec![code.chunks[0].id];
    let hits = search_code(&mut store, &code, "run", "alpha", &ranked, None, None, NOW);
    assert_eq!(hits.len(), 1);
    assert_eq!(hits[0].repo_path, "/r");
    assert!(search_code(&mut store, &code, "run", "alpha", &ranked, Some("/q"), None, NOW).is_empty());
    forget_repo(&mut store, &mut code, "run", "/r", NOW);
    clear_codebase(&mut store, &mut code, "run", NOW);
    assert!(code.repos.is_empty());
}

#[test]
fn tasks_are_estimated_by_code_or_knowledge() {
    assert_eq!((complexity(9), complexity(10), complexity(50)), ("low", "medium", "high"));
    let mut store = Store::new();
    let mut code = CodeStore::new();
    assert!(estimate_task_complexity(
        &mut store, &code, "run", None, None, "backend", "crud", None, None, NOW
    )
    .unwrap_err()
    .starts_with("harness was not supplied"));
    for i in 0..10 {
        store.remember("d", &format!("fact {i}"), NOW).unwrap();
    }
    let e = estimate_task_complexity(
        &mut store, &code, "run", None, Some("cursor/1".into()), "backend", "crud", Some("d"), None, NOW,
    )
    .unwrap();
    assert_eq!((e.complexity_tier.as_str(), e.signal, e.signal_source.as_str()), ("medium", 10, "domain"));
    assert!(e.recommendation.is_none());
    let (files, s) = gather(&[("a.rs", b"fn alpha() {}")]);
    code.index_repo("/r", Some("r"), NOW, &files, s).unwrap();
    store.configure_model("cursor", "gpt", "balanced", 5, None);
    store.add_routing_rule("cursor", "backend", "crud", "low", "gpt");
    let e = estimate_task_complexity(
        &mut store, &code, "run", Some("cursor".into()), None, "backend", "crud", Some("d"), Some("r"), NOW,
    )
    .unwrap();
    assert_eq!((e.complexity_tier.as_str(), e.signal_source.as_str()), ("low", "codebase"));
    assert_eq!(e.recommendation.unwrap().0, "gpt");
    let last = store.episodes.last().unwrap();
    assert_eq!(
        last.observation.as_deref(),
        Some("recommended model=gpt (routing rule match)")
    );
}
