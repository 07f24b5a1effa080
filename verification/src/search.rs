//! Web search: what a search engine is asked, and what its answer holds.
//!
//! Search results are data, never instructions.
use vstd::prelude::*;
use vstd::utf8::encode_utf8;

use crate::html::{elements, found, html_elements, html_nested, nested, shown, shown_each, Element};
use crate::json::{json_records, record_texts, records, Record};
use crate::text::{chars, decimal, number, opt, same, text_of, trim, trimmed};
use crate::types::{lemma_models_push, models, SearchResult, SearchResultModel};
use crate::unicode::lowercase;

verus! {

// ---- engines --------------------------------------------------------------

/// A search engine, or two of them of which the second steps in.
#[derive(PartialEq, Eq, Structural, Clone, Copy, Debug)]
pub enum Engine {
    DuckDuckGo,
    Bing,
    Brave,
    /// DuckDuckGo, with Bing to fall back on.
    Auto,
}

/// The engine of a name in small letters.
pub open spec fn engine_of(name: Seq<char>) -> Engine {
    if name == "duckduckgo"@ || name == "ddg"@ {
        Engine::DuckDuckGo
    } else if name == "bing"@ {
        Engine::Bing
    } else if name == "brave"@ {
        Engine::Brave
    } else {
        Engine::Auto
    }
}

/// The engine of a name in small letters.
pub fn engine_named(name: &str) -> (r: Engine)
    ensures
        r == engine_of(name@),
{
    if same(name, "duckduckgo") || same(name, "ddg") {
        Engine::DuckDuckGo
    } else if same(name, "bing") {
        Engine::Bing
    } else if same(name, "brave") {
        Engine::Brave
    } else {
        Engine::Auto
    }
}

/// The engine that a setting asks for; without one it is chosen by itself.
pub fn choose_engine(setting: Option<&str>) -> (r: Engine)
    ensures
        r == engine_of(
            lowercase(
                match setting {
                    Some(s) => s@,
                    None => "auto"@,
                },
            ),
        ),
{
    let name: &str = match setting {
        Some(s) => s,
        None => "auto",
    };
    engine_named(name.to_lowercase().as_str())
}

/// Why a search gave nothing back.
#[derive(Debug)]
pub enum SearchError {
    /// The answer is no JSON.
    NotJson,
    /// The engine could not be reached, or refused.
    Unreachable(String),
}

/// A search engine.
pub trait SearchBackend {
    /// Looks for `limit` results at most.
    fn search(&self, query: &str, limit: usize) -> Result<Vec<SearchResult>, SearchError>;
}

/// Whether what an engine gave back is good enough: it is there, and it is not empty.
pub open spec fn settles(r: Result<Vec<SearchResult>, SearchError>) -> bool {
    match r {
        Ok(v) => v@.len() > 0,
        Err(_) => false,
    }
}

/// Two search engines: the second is asked where the first fails or finds nothing.
pub struct FallbackSearch<P: SearchBackend, F: SearchBackend> {
    pub primary: P,
    pub fallback: F,
}

impl<P: SearchBackend, F: SearchBackend> FallbackSearch<P, F> {
    /// Two search engines, the first of which is asked first.
    pub fn new(primary: P, fallback: F) -> (r: Self)
        ensures
            r.primary == primary,
            r.fallback == fallback,
    {
        FallbackSearch { primary, fallback }
    }
}

impl<P: SearchBackend, F: SearchBackend> SearchBackend for FallbackSearch<P, F> {
    /// Asks the first engine, and the second one where the first fails or finds nothing.
    fn search(&self, query: &str, limit: usize) -> (r: Result<Vec<SearchResult>, SearchError>)
        ensures
            exists|p: Result<Vec<SearchResult>, SearchError>|
                #[trigger] call_ensures(P::search, (&self.primary, query, limit), p) && if settles(
                    p,
                ) {
                    r == p
                } else {
                    call_ensures(F::search, (&self.fallback, query, limit), r)
                },
    {
        let first: Result<Vec<SearchResult>, SearchError> = self.primary.search(query, limit);
        let good: bool = match &first {
            Ok(v) => v.len() > 0,
            Err(_) => false,
        };
        assert(good == settles(first));
        if good {
            first
        } else {
            self.fallback.search(query, limit)
        }
    }
}

// ---- queries --------------------------------------------------------------

/// `s` without the `c`s that it begins with.
pub open spec fn shaved_start(s: Seq<char>, c: char) -> Seq<char>
    decreases s.len(),
{
    if s.len() > 0 && s[0] == c {
        shaved_start(s.skip(1), c)
    } else {
        s
    }
}

/// `s` without the `c`s that it ends with.
pub open spec fn shaved_end(s: Seq<char>, c: char) -> Seq<char>
    decreases s.len(),
{
    if s.len() > 0 && s.last() == c {
        shaved_end(s.drop_last(), c)
    } else {
        s
    }
}

/// `s` without the `c`s around it.
pub open spec fn shaved(s: Seq<char>, c: char) -> Seq<char> {
    shaved_end(shaved_start(s, c), c)
}

/// A query as it is asked: without white space and quotation marks around it.
pub open spec fn asked(query: Seq<char>) -> Seq<char> {
    trim(shaved(shaved(trim(query), '"'), '\''))
}

fn shave(s: &str, c: char) -> (r: String)
    ensures
        r@ == shaved(s@, c),
{
    let v: Vec<char> = chars(s);
    let mut i: usize = 0;
    assert(v@.skip(0) =~= v@);
    while i < v.len() && v[i] == c
        invariant
            i <= v@.len(),
            v@ == s@,
            shaved_start(s@, c) == shaved_start(v@.skip(i as int), c),
        decreases v.len() - i,
    {
        assert(v@.skip(i as int).skip(1) =~= v@.skip(i + 1));
        i += 1;
    }
    let ghost rest = v@.skip(i as int);
    let mut j: usize = v.len();
    assert(v@.subrange(i as int, j as int) =~= rest);
    while j > i && v[j - 1] == c
        invariant
            i <= j <= v@.len(),
            shaved_end(rest, c) == shaved_end(v@.subrange(i as int, j as int), c),
        decreases j,
    {
        assert(v@.subrange(i as int, j as int).drop_last() =~= v@.subrange(i as int, j - 1));
        j -= 1;
    }
    text_of(&v, i, j)
}

/// A query as it is asked: without white space and quotation marks around it.
pub fn clean_query(query: &str) -> (r: String)
    ensures
        r@ == asked(query@),
{
    let a: String = trimmed(query);
    let b: String = shave(a.as_str(), '"');
    let c: String = shave(b.as_str(), '\'');
    trimmed(c.as_str())
}

/// The bytes that stand for themselves in an address.
pub open spec fn unreserved(b: u8) -> bool {
    ||| 0x30 <= b <= 0x39
    ||| 0x41 <= b <= 0x5a
    ||| 0x61 <= b <= 0x7a
    ||| b == 0x2d
    ||| b == 0x2e
    ||| b == 0x5f
    ||| b == 0x7e
}

/// A hexadecimal digit.
pub open spec fn hex_capital(n: int) -> char {
    if n < 10 {
        ('0' as int + n) as char
    } else {
        ('A' as int + n - 10) as char
    }
}

/// A byte as it stands in an address.
pub open spec fn escaped(b: u8) -> Seq<char> {
    if unreserved(b) {
        seq![b as char]
    } else {
        seq!['%', hex_capital(b as int / 16), hex_capital(b as int % 16)]
    }
}

/// Some bytes as they stand in an address.
pub open spec fn percent_encoded(bytes: Seq<u8>) -> Seq<char>
    decreases bytes.len(),
{
    if bytes.len() == 0 {
        seq![]
    } else {
        percent_encoded(bytes.drop_last()) + escaped(bytes.last())
    }
}

/// `urlencoding::encode`: a text as it stands in an address. Of its bytes in UTF-8,
/// letters, digits and `-`, `.`, `_`, `~` stand for themselves; any other is a percent sign
/// and two hexadecimal digits.
#[verifier::external_body]
fn url_encode(s: &str) -> (r: String)
    ensures
        r@ == percent_encoded(encode_utf8(s@)),
{
    urlencoding::encode(s).into_owned()
}

/// The address at which Bing is asked.
pub open spec fn bing_address(query: Seq<char>, limit: int) -> Seq<char> {
    "https://www.bing.com/search?q="@ + percent_encoded(encode_utf8(asked(query))) + "&count="@
        + decimal(limit)
}

/// The address at which Bing is asked.
pub fn bing_url(query: &str, limit: usize) -> (r: String)
    ensures
        r@ == bing_address(query@, limit as int),
{
    let mut r: String = "https://www.bing.com/search?q=".to_owned();
    r.append(url_encode(clean_query(query).as_str()).as_str());
    r.append("&count=");
    r.append(number(limit as i128).as_str());
    r
}

/// The address at which Brave is asked, for twenty results at most.
pub open spec fn brave_address(query: Seq<char>, limit: int) -> Seq<char> {
    "https://api.search.brave.com/res/v1/web/search?q="@ + percent_encoded(
        encode_utf8(asked(query)),
    ) + "&count="@ + decimal(
        if limit < 20 {
            limit
        } else {
            20
        },
    )
}

/// The address at which Brave is asked, for twenty results at most.
pub fn brave_url(query: &str, limit: usize) -> (r: String)
    ensures
        r@ == brave_address(query@, limit as int),
{
    let n: usize = if limit < 20 { limit } else { 20 };
    let mut r: String = "https://api.search.brave.com/res/v1/web/search?q=".to_owned();
    r.append(url_encode(clean_query(query).as_str()).as_str());
    r.append("&count=");
    r.append(number(n as i128).as_str());
    r
}

// ---- answers --------------------------------------------------------------

/// What is known of an element of a page: its text and where it links to.
pub type Seen = (Seq<char>, Option<Seq<char>>);

/// A text that may be missing.
pub open spec fn or_empty(t: Option<Seq<char>>) -> Seq<char> {
    match t {
        Some(s) => s,
        None => seq![],
    }
}

/// The results of a page of DuckDuckGo, given its links and its snippets: each link, with
/// the snippet of the same place, `limit` of them at most.
pub open spec fn ddg_results(links: Option<Seq<Seen>>, snippets: Option<Seq<Seen>>, limit: int) -> Seq<
    SearchResultModel,
> {
    match links {
        Some(l) => Seq::new(
            if l.len() <= limit {
                l.len()
            } else {
                limit as nat
            },
            |i: int|
                SearchResultModel {
                    title: trim(l[i].0),
                    url: or_empty(l[i].1),
                    snippet: match snippets {
                        Some(s) => if i < s.len() {
                            trim(s[i].0)
                        } else {
                            seq![]
                        },
                        None => seq![],
                    },
                },
        ),
        None => seq![],
    }
}

fn text_or_empty(t: &Option<String>) -> (r: String)
    ensures
        r@ == or_empty(opt(*t)),
{
    match t {
        Some(s) => s.clone(),
        None => String::new(),
    }
}

/// The results of a page of DuckDuckGo, given its links and its snippets.
pub fn read_ddg(links: &Option<Vec<Element>>, snippets: &Option<Vec<Element>>, limit: usize) -> (r:
    Vec<SearchResult>)
    ensures
        models(r@) == ddg_results(found(*links), found(*snippets), limit as int),
{
    let ghost all = ddg_results(found(*links), found(*snippets), limit as int);
    let mut r: Vec<SearchResult> = Vec::new();
    if let Some(l) = links {
        let n: usize = if l.len() <= limit { l.len() } else { limit };
        let mut i: usize = 0;
        assert(models(r@) =~= all.take(0));
        while i < n
            invariant
                i <= n <= l@.len(),
                n == all.len(),
                *links == Some(*l),
                all == ddg_results(found(*links), found(*snippets), limit as int),
                models(r@) == all.take(i as int),
            decreases n - i,
        {
            broadcast use lemma_models_push;

            let snippet: String = match snippets {
                Some(s) => if i < s.len() {
                    assert(shown(s@)[i as int].0 == s@[i as int].text@);
                    trimmed(s[i].text.as_str())
                } else {
                    String::new()
                },
                None => String::new(),
            };
            assert(shown(l@)[i as int] == (l@[i as int].text@, opt(l@[i as int].href)));
            let one: SearchResult = SearchResult {
                title: trimmed(l[i].text.as_str()),
                url: text_or_empty(&l[i].href),
                snippet,
            };
            assert(one@ =~= all[i as int]);
            r.push(one);
            assert(models(r@) =~= all.take(i + 1));
            i += 1;
        }
    }
    assert(models(r@) =~= all);
    r
}

/// The results of a page of DuckDuckGo.
pub fn parse_ddg(html: &str, limit: usize) -> (r: Vec<SearchResult>)
    ensures
        models(r@) == ddg_results(
            html_elements(html@, "a.result__a"@),
            html_elements(html@, ".result__snippet"@),
            limit as int,
        ),
{
    let links: Option<Vec<Element>> = elements(html, "a.result__a");
    let snippets: Option<Vec<Element>> = elements(html, ".result__snippet");
    read_ddg(&links, &snippets, limit)
}

/// A result of a page of Bing, given its heading and its snippet: it counts only where it
/// has a title and an address.
pub open spec fn bing_result(heading: Option<Seen>, snippet: Option<Seen>) -> Option<
    SearchResultModel,
> {
    match heading {
        Some(h) => if trim(h.0).len() == 0 || or_empty(h.1).len() == 0 {
            None
        } else {
            Some(
                SearchResultModel {
                    title: trim(h.0),
                    url: or_empty(h.1),
                    snippet: match snippet {
                        Some(s) => trim(s.0),
                        None => seq![],
                    },
                },
            )
        },
        None => None,
    }
}

/// The entry of a list at a place, and `None` behind its end.
pub open spec fn entry(s: Option<Seq<Option<Seen>>>, i: int) -> Option<Seen> {
    match s {
        Some(v) => if 0 <= i < v.len() {
            v[i]
        } else {
            None
        },
        None => None,
    }
}

/// The results among the first `n` entries of a page of Bing.
pub open spec fn bing_results(
    headings: Option<Seq<Option<Seen>>>,
    snippets: Option<Seq<Option<Seen>>>,
    n: int,
) -> Seq<SearchResultModel>
    decreases n,
{
    if n <= 0 {
        seq![]
    } else {
        let rest = bing_results(headings, snippets, n - 1);
        match bing_result(entry(headings, n - 1), entry(snippets, n - 1)) {
            Some(x) => rest.push(x),
            None => rest,
        }
    }
}

/// How many entries of a page of Bing are looked at.
pub open spec fn looked_at(headings: Option<Seq<Option<Seen>>>, limit: int) -> int {
    match headings {
        Some(h) => if h.len() <= limit {
            h.len() as int
        } else {
            limit
        },
        None => 0,
    }
}

/// Some elements that may be missing and were found, as mathematical values.
pub open spec fn found_each(v: Option<Vec<Option<Element>>>) -> Option<Seq<Option<Seen>>> {
    match v {
        Some(e) => Some(shown_each(e@)),
        None => None,
    }
}

/// The results of a page of Bing, given the heading and the snippet of each entry: of the
/// first `limit` entries, those that have a title and an address.
pub fn read_bing(
    headings: &Option<Vec<Option<Element>>>,
    snippets: &Option<Vec<Option<Element>>>,
    limit: usize,
) -> (r: Vec<SearchResult>)
    ensures
        models(r@) == bing_results(
            found_each(*headings),
            found_each(*snippets),
            looked_at(found_each(*headings), limit as int),
        ),
{
    let ghost a = found_each(*headings);
    let ghost b = found_each(*snippets);
    let mut r: Vec<SearchResult> = Vec::new();
    assert(models(r@) =~= bing_results(a, b, 0));
    if let Some(h) = headings {
        let n: usize = if h.len() <= limit { h.len() } else { limit };
        let mut i: usize = 0;
        while i < n
            invariant
                i <= n <= h@.len(),
                *headings == Some(*h),
                a == found_each(*headings),
                b == found_each(*snippets),
                models(r@) == bing_results(a, b, i as int),
            decreases n - i,
        {
            broadcast use lemma_models_push;

            assert(entry(a, i as int) == shown_each(h@)[i as int]);
            if let Some(e) = &h[i] {
                assert(entry(a, i as int) == Some((e.text@, opt(e.href))));
                let title: String = trimmed(e.text.as_str());
                let url: String = text_or_empty(&e.href);
                if !title.as_str().is_empty() && !url.as_str().is_empty() {
                    let snippet: String = match snippets {
                        Some(s) => if i < s.len() {
                            assert(entry(b, i as int) == shown_each(s@)[i as int]);
                            match &s[i] {
                                Some(q) => trimmed(q.text.as_str()),
                                None => String::new(),
                            }
                        } else {
                            String::new()
                        },
                        None => String::new(),
                    };
                    let one: SearchResult = SearchResult { title, url, snippet };
                    assert(Some(one@) == bing_result(entry(a, i as int), entry(b, i as int)));
                    r.push(one);
                }
            }
            i += 1;
        }
    }
    r
}

/// The results of a page of Bing.
pub fn parse_bing(html: &str, limit: usize) -> (r: Vec<SearchResult>)
    ensures
        ({
            let headings = html_nested(html@, "li.b_algo"@, "h2 a"@);
            models(r@) == bing_results(
                headings,
                html_nested(html@, "li.b_algo"@, ".b_caption p, .b_algoSlug"@),
                looked_at(headings, limit as int),
            )
        }),
{
    let headings: Option<Vec<Option<Element>>> = nested(html, "li.b_algo", "h2 a");
    let snippets: Option<Vec<Option<Element>>> = nested(
        html,
        "li.b_algo",
        ".b_caption p, .b_algoSlug",
    );
    read_bing(&headings, &snippets, limit)
}

/// The results of an answer of Brave: its records that have a title and an address.
pub open spec fn brave_results(rows: Seq<(Option<Seq<char>>, Option<Seq<char>>, Option<Seq<char>>)>) -> Seq<
    SearchResultModel,
>
    decreases rows.len(),
{
    if rows.len() == 0 {
        seq![]
    } else {
        let rest = brave_results(rows.drop_last());
        match (rows.last().0, rows.last().1) {
            (Some(title), Some(url)) => rest.push(
                SearchResultModel { title, url, snippet: or_empty(rows.last().2) },
            ),
            _ => rest,
        }
    }
}

/// The results of an answer of Brave, given its records.
pub fn read_brave(rows: &Vec<Record>) -> (r: Vec<SearchResult>)
    ensures
        models(r@) == brave_results(record_texts(rows@)),
{
    let ghost all = record_texts(rows@);
    let mut r: Vec<SearchResult> = Vec::new();
    let mut i: usize = 0;
    assert(models(r@) =~= brave_results(all.take(0)));
    while i < rows.len()
        invariant
            i <= rows@.len(),
            all == record_texts(rows@),
            models(r@) == brave_results(all.take(i as int)),
        decreases rows.len() - i,
    {
        broadcast use lemma_models_push;

        assert(all.take(i + 1).drop_last() =~= all.take(i as int));
        let row: &Record = &rows[i];
        assert(all[i as int] == (opt(row.first), opt(row.second), opt(row.third)));
        if let (Some(title), Some(url)) = (&row.first, &row.second) {
            let one: SearchResult = SearchResult {
                title: title.clone(),
                url: url.clone(),
                snippet: text_or_empty(&row.third),
            };
            assert(one@ =~= (SearchResultModel {
                title: title@,
                url: url@,
                snippet: or_empty(opt(row.third)),
            }));
            r.push(one);
        }
        i += 1;
    }
    assert(all.take(i as int) =~= all);
    r
}

/// The results of an answer of Brave; an error where it is no JSON.
pub fn parse_brave(json: &str) -> (r: Result<Vec<SearchResult>, SearchError>)
    ensures
        match json_records(json@, "web"@, "results"@, "title"@, "url"@, "description"@) {
            Some(rows) => r matches Ok(v) && models(v@) == brave_results(rows),
            None => r == Err::<Vec<SearchResult>, SearchError>(SearchError::NotJson),
        },
{
    match records(json, "web", "results", "title", "url", "description") {
        Some(rows) => Ok(read_brave(&rows)),
        None => Err(SearchError::NotJson),
    }
}

} // verus!
