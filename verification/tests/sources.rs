use klayer::html::Element;
use klayer::ingest::{
    bare_type, chunk, classify, content_type_from_ext, content_type_of_header, extract, is_local,
    path_of, read_page, Fetched, PdfText, Reading,
};
use klayer::json::Record;
use klayer::media::{extension_for, file_named, is_allowed_mime, media_file_name};
use klayer::search::{
    bing_url, brave_url, choose_engine, clean_query, parse_bing, parse_brave, parse_ddg, read_bing,
    read_brave, read_ddg, Engine, FallbackSearch, SearchBackend, SearchError,
};
use klayer::skill::{render, RouterInputs};
use klayer::store::Store;
use klayer::tools::admin::ingest;
use klayer::tools::media::{attach_media, read_image, store_image};
use klayer::tools::Usage;
use klayer::types::{SearchResult, StageRow};

const NOW: i64 = 1_700_000_000;

// ---- images ---------------------------------------------------------------

#[test]
fn rejects_non_image_mime() {
    assert!(!is_allowed_mime("video/mp4"));
    assert!(is_allowed_mime("image/webp"));
}

#[test]
fn files_are_named_by_content_hash_and_extension() {
    let bytes = b"abc".to_vec();
    let name = media_file_name("image/png", &bytes);
    assert_eq!(
        name,
        "ba7816bf8f01cfea414140de5dae2223b00361a396177a9cb410ff61f20015ad.png"
    );
    assert_eq!(media_file_name("image/png", &bytes), name);
    assert_ne!(media_file_name("image/png", &b"abd".to_vec()), name);
    assert_eq!(file_named(&vec![0x0a, 0xff], "image/jpeg"), format!("0aff.{}", extension_for("image/jpeg")));
}

#[test]
fn images_are_read_stored_and_attached() {
    let mut store = Store::new();
    let kid = store.remember("d", "fact", NOW).unwrap();
    assert!(read_image(&store, "AAAA", "text/html", None)
        .unwrap_err()
        .starts_with("unsupported mime_type 'text/html': only image types are accepted in this stage ("));
    assert_eq!(
        read_image(&store, "AAAA", "image/png", Some(99)).unwrap_err(),
        "knowledge item #99 not found"
    );
    assert!(read_image(&store, "not base64!", "image/png", None)
        .unwrap_err()
        .starts_with("invalid base64 data: "));
    let image = read_image(&store, "YWJj", "image/png", Some(kid)).unwrap();
    assert_eq!(image.bytes, b"abc");
    assert!(image.file_name.starts_with("ba7816bf") && image.file_name.ends_with(".png"));
    let t = store_image(&mut store, "r", "/m/x.png", "image/png", 3, None, None, Some("d"), NOW).unwrap();
    assert_eq!(t, "Stored media #1 (3 bytes, image/png) at /m/x.png — standalone, unpromoted.");
    assert_eq!(
        attach_media(&mut store, 1, kid).unwrap(),
        format!("Attached media #1 to knowledge #{kid} (trust inherited).")
    );
    assert_eq!(store.media[0].trust.as_deref(), Some("user"));
    assert_eq!(attach_media(&mut store, 1, 50).unwrap_err(), "knowledge item #50 not found");
    assert_eq!(attach_media(&mut store, 5, kid).unwrap_err(), "media #5 not found");
}

// ---- documents ------------------------------------------------------------

#[test]
fn sources_are_told_apart() {
    assert!(is_local("/etc/hosts") && is_local("C:\\x.pdf") && is_local("file:///x"));
    assert!(!is_local("https://x.org/a"));
    assert_eq!(path_of("/etc/hosts"), "/etc/hosts");
    assert_eq!(content_type_from_ext("a/b.HTML"), "text/html");
    assert_eq!(content_type_from_ext("a/b.pdf"), "application/pdf");
    assert_eq!(content_type_from_ext("a/b.md"), "text/markdown");
    assert_eq!(content_type_from_ext("a/b.Json"), "application/json");
    for name in ["a.yaml", "a.jsonl", "a.sql", "a.css", "a.ts", "b.RS"] {
        assert_eq!(content_type_from_ext(name), "text/plain", "{name}");
    }
    let office = "application/vnd.openxmlformats-officedocument.";
    assert_eq!(content_type_from_ext("a.docx"), format!("{office}wordprocessingml.document"));
    assert_eq!(content_type_from_ext("a.XLSX"), format!("{office}spreadsheetml.sheet"));
    assert_eq!(content_type_from_ext("a.pptx"), format!("{office}presentationml.presentation"));
    for name in ["a.yml", "a.docx", "a.xlsx", "a.pptx", "a.py", "a.js", "a.csv"] {
        assert_ne!(classify(content_type_from_ext(name)), Reading::Unsupported, "{name}");
    }
    assert_eq!(content_type_from_ext("a.pdf/"), "application/pdf");
    assert_eq!(content_type_from_ext("a"), "application/octet-stream");
    assert_eq!(classify(content_type_from_ext("a.bin")), Reading::Unsupported);
    assert_eq!(bare_type("text/html; charset=utf-8"), "text/html");
    assert_eq!(content_type_of_header(Some("Text/HTML;x")), "text/html");
    assert_eq!(content_type_of_header(None), "application/octet-stream");
    assert_eq!(classify("text/html"), Reading::Html);
    assert_eq!(classify("application/pdf"), Reading::Pdf);
    assert_eq!(classify("application/json"), Reading::Json);
    assert_eq!(classify("text/markdown"), Reading::Plain);
}

fn fetched(content_type: &str, body: &str) -> Fetched {
    Fetched { content_type: content_type.into(), body: body.as_bytes().to_vec() }
}

fn no_pdf() -> PdfText {
    PdfText::Failed("not a PDF".into())
}

#[test]
fn office_documents_and_source_code_are_read() {
    for name in ["a.docx", "a.xlsx", "a.pptx", "a.yaml", "a.sql", "a.css", "a.rs", "a.jsonl"] {
        let (_, text) = extract(&fetched(content_type_from_ext(name), "some words"), &no_pdf());
        assert!(text.contains("some words"), "{name}: {text}");
    }
    let (_, text) = extract(&fetched(content_type_from_ext("a.bin"), "some words"), &no_pdf());
    assert!(!text.contains("some words"));
}

#[test]
fn documents_are_read_by_their_type() {
    let html = "<html><head><title> A page </title></head><body><h1>Head</h1><p>One two</p>\
                <script>no()</script></body></html>";
    let (title, text) = extract(&fetched("text/html", html), &no_pdf());
    assert_eq!(title, "A page");
    assert!(text.contains("Head") && text.contains("One two"));
    assert!(!text.contains("no()"));
    let (_, text) = extract(&fetched("application/json", "{\"a\":1}"), &no_pdf());
    assert_eq!(text, "{\n  \"a\": 1\n}");
    let (_, text) = extract(&fetched("text/plain", "plain"), &no_pdf());
    assert_eq!(text, "plain");
    let (_, text) = extract(&fetched("application/pdf", ""), &PdfText::Read("of a pdf".into()));
    assert_eq!(text, "of a pdf");
    let bad = Fetched { content_type: "text/plain".into(), body: vec![b'a', 0xff, b'b'] };
    assert_eq!(extract(&bad, &no_pdf()).1, "a\u{fffd}b");
}

#[test]
fn a_page_is_read_of_its_elements() {
    let e = |t: &str| Element { text: t.into(), href: None };
    let (title, text) = read_page(&Some(vec![e(" T ")]), &Some(vec![e("one"), e(" "), e("two")]));
    assert_eq!(title, "T");
    assert_eq!(text, "one\ntwo");
    let (title, text) = read_page(&None, &None);
    assert_eq!(title, "");
    assert_eq!(text, "");
}

#[test]
fn texts_are_cut_into_chunks() {
    assert_eq!(chunk("one\n\n two \nthree", 8), vec!["one\ntwo\nthree"]);
    let (a, b) = ("a".repeat(150), "b".repeat(150));
    assert_eq!(chunk(&format!("{a}\n{b}"), 200), vec![a.clone(), b.clone()]);
    let long = "c".repeat(450);
    let parts = chunk(&long, 200);
    let sizes: Vec<usize> = parts.iter().map(|p| p.len()).collect();
    assert_eq!(sizes, vec![200, 200, 50]);
    assert_eq!(parts.concat(), long);
    assert!(chunk("  \n ", 800).is_empty());
}

#[test]
fn documents_are_ingested_untrusted() {
    let mut store = Store::new();
    let usage = Usage { model: None, tokens_used: Some(3), cost: None };
    let page = fetched("text/html", "<title>T</title><p>seal the valve</p>");
    let t = ingest(&mut store, "r", "https://x.org", "d", &page, &no_pdf(), &usage, NOW).unwrap();
    assert_eq!(
        t,
        "Ingested 1 chunks from \"T\" into domain 'd' (source #1, type=text/html, trust=untrusted)."
    );
    assert_eq!(store.sources[0].trust, "untrusted");
    assert_eq!(store.chunks[0].text.trim(), "seal the valve");
    assert_eq!(store.episodes[0].tokens_used, Some(3));
    let t = ingest(&mut store, "r", "u", "d", &fetched("text/plain", " "), &no_pdf(), &usage, NOW).unwrap();
    assert_eq!(t, "No extractable text at u");
    assert_eq!(store.episodes[1].outcome.as_deref(), Some("error"));
    assert_eq!(store.sources.len(), 1);
    store.sources[0].id = i64::MAX;
    assert!(ingest(&mut store, "r", "u", "d", &page, &no_pdf(), &usage, NOW).is_err());
}

// ---- searching the web ----------------------------------------------------

#[test]
fn engines_are_named() {
    assert_eq!(choose_engine(None), Engine::Auto);
    assert_eq!(choose_engine(Some("BING")), Engine::Bing);
    assert_eq!(choose_engine(Some("brave")), Engine::Brave);
    assert_eq!(choose_engine(Some("duckduckgo")), Engine::DuckDuckGo);
    assert_eq!(choose_engine(Some("nonsense")), Engine::Auto);
}

#[test]
fn addresses_are_encoded() {
    assert_eq!(clean_query(" \"a b\" "), "a b");
    assert_eq!(bing_url("a b&ü", 5), "https://www.bing.com/search?q=a%20b%26%C3%BC&count=5");
    assert_eq!(
        brave_url("x", 50),
        "https://api.search.brave.com/res/v1/web/search?q=x&count=20"
    );
}

#[test]
fn answers_are_read() {
    let html = "<div class=\"result\"><a class=\"result__a\" href=\"https://x.org\">Title</a>\
                <a class=\"result__snippet\">Snip</a></div>";
    let r = parse_ddg(html, 5);
    assert_eq!(r.len(), 1);
    assert_eq!((r[0].title.as_str(), r[0].snippet.as_str()), ("Title", "Snip"));
    assert!(r[0].url.contains("x.org"));
    assert!(parse_ddg(html, 0).is_empty());
    let bing = "<ul><li class=\"b_algo\"><h2><a href=\"https://y.org\">Y</a></h2>\
                <p>about y</p></li></ul>";
    let r = parse_bing(bing, 5);
    assert_eq!(r.len(), 1);
    assert_eq!((r[0].title.as_str(), r[0].url.as_str()), ("Y", "https://y.org"));
    let json = "{\"web\":{\"results\":[{\"title\":\"Z\",\"url\":\"https://z.org\",\"description\":\"d\"}]}}";
    let r = parse_brave(json).unwrap();
    assert_eq!((r[0].title.as_str(), r[0].url.as_str(), r[0].snippet.as_str()), ("Z", "https://z.org", "d"));
    assert!(matches!(parse_brave("no json"), Err(SearchError::NotJson)));
    assert!(parse_brave("{}").unwrap().is_empty());
    assert!(read_ddg(&None, &None, 5).is_empty());
    assert!(read_bing(&None, &None, 5).is_empty());
    let rows = vec![Record { first: Some("t".into()), second: Some("u".into()), third: None }];
    assert_eq!(read_brave(&rows)[0].snippet, "");
}

struct Fixed(Option<usize>);

impl SearchBackend for Fixed {
    fn search(&self, query: &str, _limit: usize) -> Result<Vec<SearchResult>, SearchError> {
        match self.0 {
            Some(n) => Ok((0..n)
                .map(|_| SearchResult {
                    title: query.into(),
                    url: String::new(),
                    snippet: String::new(),
                })
                .collect()),
            None => Err(SearchError::Unreachable("down".into())),
        }
    }
}

#[test]
fn a_search_falls_back() {
    let count = |a: Option<usize>, b: Option<usize>| {
        FallbackSearch::new(Fixed(a), Fixed(b)).search("q", 5).map(|r| r.len()).ok()
    };
    assert_eq!(count(Some(1), Some(2)), Some(1));
    assert_eq!(count(Some(0), Some(2)), Some(2));
    assert_eq!(count(None, Some(2)), Some(2));
    assert_eq!(count(None, None), None);
}

// ---- the router -----------------------------------------------------------

#[test]
fn the_router_names_domains_and_preferences() {
    let mut store = Store::new();
    store.register_domain("seals", Some("about seals"), Some("ask of seals"), None, None, None, None, None, NOW);
    let text = render(&RouterInputs {
        name: "klayer".into(),
        taxonomy: "default".into(),
        domains: store.list_domains(),
        preferences: vec!["short answers".into()],
        stages: vec![StageRow {
            taxonomy: "default".into(),
            name: "plan".into(),
            ordinal: 1,
            description: None,
        }],
    });
    for part in ["klayer", "seals", "about seals", "short answers", "plan"] {
        assert!(text.contains(part), "{part}");
    }
}
