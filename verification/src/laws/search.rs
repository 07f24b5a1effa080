//! What engines are asked, and what their answers come to.
use vstd::prelude::*;
use vstd::utf8::encode_utf8;

use crate::search::{asked, bing_address, bing_result, bing_results, brave_address, brave_results};
use crate::search::{ddg_results, engine_of, entry, escaped, looked_at, percent_encoded, shaved_end};
use crate::search::{shaved_start, Engine, Seen};
use crate::text::{decimal, is_white, lead, trail, trim, trim_start};

verus! {

/// An engine is chosen by its name; any other name leaves the choice open.
pub proof fn engines_are_chosen_by_name(name: Seq<char>)
    ensures
        engine_of("duckduckgo"@) == Engine::DuckDuckGo,
        engine_of("ddg"@) == Engine::DuckDuckGo,
        engine_of("bing"@) == Engine::Bing,
        engine_of("brave"@) == Engine::Brave,
        engine_of("auto"@) == Engine::Auto,
        name != "duckduckgo"@ && name != "ddg"@ && name != "bing"@ && name != "brave"@
            ==> engine_of(name) == Engine::Auto,
{
    reveal_strlit("duckduckgo");
    reveal_strlit("ddg");
    reveal_strlit("bing");
    reveal_strlit("brave");
    reveal_strlit("auto");
    assert("duckduckgo"@.len() == 10 && "ddg"@.len() == 3 && "bing"@.len() == 4);
    assert("brave"@.len() == 5 && "auto"@.len() == 4 && "auto"@[0] == 'a' && "bing"@[0] == 'b');
}

pub open spec fn is_bare(c: char) -> bool {
    !is_white(c) && c != '"' && c != '\''
}

/// A question is asked without the white and the quotes around it.
pub proof fn questions_are_asked_bare(q: Seq<char>)
    requires
        q.len() > 0,
        is_bare(q[0]),
        is_bare(q.last()),
    ensures
        asked(q) == q,
        asked(seq!['"'] + q + seq!['"']) == q,
        asked(seq!['\''] + q + seq!['\'']) == q,
        asked(seq![' '] + q + seq!['\n']) == q,
{
    lemma_untrimmed(q);
    lemma_unshaved(q, '"');
    lemma_unshaved(q, '\'');
    let a = seq!['"'] + q + seq!['"'];
    lemma_untrimmed(a);
    lemma_shaved_once(q, '"');
    let b = seq!['\''] + q + seq!['\''];
    lemma_untrimmed(b);
    lemma_unshaved(b, '"');
    lemma_shaved_once(q, '\'');
    let c = seq![' '] + q + seq!['\n'];
    let u = q + seq!['\n'];
    assert(c.skip(1) =~= u);
    assert(u[0] == q[0]);
    assert(lead(u) == 0);
    assert(lead(c) == 1);
    assert(trim_start(c) =~= u);
    assert(u.drop_last() =~= q);
    assert(trail(q) == 0);
    assert(trail(u) == 1);
    assert(trim(c) =~= q);
}

proof fn lemma_untrimmed(q: Seq<char>)
    requires
        q.len() > 0,
        !is_white(q[0]),
        !is_white(q.last()),
    ensures
        trim(q) == q,
{
    assert(lead(q) == 0);
    assert(trim_start(q) =~= q);
    assert(trail(q) == 0);
    assert(trim(q) =~= q);
}

proof fn lemma_unshaved(q: Seq<char>, c: char)
    requires
        q.len() > 0,
        q[0] != c,
        q.last() != c,
    ensures
        crate::search::shaved(q, c) == q,
{
}

proof fn lemma_shaved_once(q: Seq<char>, c: char)
    requires
        q.len() > 0,
        q[0] != c,
        q.last() != c,
    ensures
        crate::search::shaved(seq![c] + q + seq![c], c) == q,
{
    let a = seq![c] + q + seq![c];
    let u = q + seq![c];
    assert(a.skip(1) =~= u);
    assert(u[0] == q[0]);
    assert(shaved_start(u, c) == u);
    assert(shaved_start(a, c) == u);
    assert(u.drop_last() =~= q);
    assert(shaved_end(q, c) == q);
    assert(shaved_end(u, c) == q);
}

/// The digit that stands for a number below sixteen.
pub open spec fn is_hex_of(c: char, n: int) -> bool {
    if n < 10 {
        c as int == 48 + n
    } else {
        c as int == 55 + n
    }
}

/// In an address letters, digits and `-._~` stand for themselves; any other byte is a
/// percent sign and its two digits.
pub proof fn bytes_are_escaped_in_addresses(b: u8)
    ensures
        ({
            let c = b as char;
            let plain = ('0' <= c && c <= '9') || ('A' <= c && c <= 'Z') || ('a' <= c && c <= 'z')
                || c == '-' || c == '.' || c == '_' || c == '~';
            &&& plain ==> escaped(b) == seq![c]
            &&& !plain ==> escaped(b).len() == 3 && escaped(b)[0] == '%' && is_hex_of(
                escaped(b)[1],
                b as int / 16,
            ) && is_hex_of(escaped(b)[2], b as int % 16)
        }),
{
}

/// Bytes are escaped one by one.
pub proof fn bytes_are_escaped_one_by_one(a: Seq<u8>, b: Seq<u8>)
    ensures
        percent_encoded(a + b) == percent_encoded(a) + percent_encoded(b),
        percent_encoded(seq![]) == Seq::<char>::empty(),
        forall|x: u8| percent_encoded(#[trigger] seq![x]) == escaped(x),
    decreases b.len(),
{
    assert forall|x: u8| percent_encoded(#[trigger] seq![x]) == escaped(x) by {
        reveal_with_fuel(percent_encoded, 2);
        assert(seq![x].drop_last() =~= seq![]);
        assert(Seq::<char>::empty() + escaped(x) =~= escaped(x));
    }
    if b.len() > 0 {
        bytes_are_escaped_one_by_one(a, b.drop_last());
        assert((a + b).drop_last() =~= a + b.drop_last());
        assert(percent_encoded(a + b) =~= percent_encoded(a) + percent_encoded(b));
    } else {
        assert(a + b =~= a);
        assert(percent_encoded(a) + percent_encoded(b) =~= percent_encoded(a));
    }
}

/// An engine is asked for the question and for so many results; Brave for twenty at most.
pub proof fn engines_are_asked_for_results(q: Seq<char>, limit: nat)
    ensures
        bing_address(q, limit as int) == "https://www.bing.com/search?q="@ + percent_encoded(
            encode_utf8(asked(q)),
        ) + "&count="@ + decimal(limit as int),
        limit <= 20 ==> brave_address(q, limit as int)
            == "https://api.search.brave.com/res/v1/web/search?q="@ + percent_encoded(
            encode_utf8(asked(q)),
        ) + "&count="@ + decimal(limit as int),
        limit > 20 ==> brave_address(q, limit as int) == brave_address(q, 20),
{
}

/// The links of a page are its results, in order, so many as are asked for; each has the
/// snippet of its place.
pub proof fn links_are_results(links: Seq<Seen>, snippets: Seq<Seen>, limit: nat, i: int)
    ensures
        ({
            let r = ddg_results(Some(links), Some(snippets), limit as int);
            &&& r.len() == if links.len() < limit {
                links.len()
            } else {
                limit
            }
            &&& 0 <= i < r.len() ==> {
                &&& r[i].title == trim(links[i].0)
                &&& links[i].1 matches Some(u) ==> r[i].url == u
                &&& links[i].1 is None ==> r[i].url.len() == 0
                &&& i < snippets.len() ==> r[i].snippet == trim(snippets[i].0)
                &&& i >= snippets.len() ==> r[i].snippet.len() == 0
            }
            &&& ddg_results(None, Some(snippets), limit as int).len() == 0
        }),
{
}

/// A heading is a result where it has a title and an address.
pub proof fn headings_with_an_address_are_results(heading: Seen, snippet: Option<Seen>)
    ensures
        ({
            let r = bing_result(Some(heading), snippet);
            &&& r is Some <==> trim(heading.0).len() > 0 && (heading.1 matches Some(u) && u.len()
                > 0)
            &&& r matches Some(x) ==> {
                &&& x.title == trim(heading.0) && heading.1 == Some(x.url)
                &&& snippet matches Some(s) ==> x.snippet == trim(s.0)
                &&& snippet is None ==> x.snippet.len() == 0
            }
            &&& bing_result(None, snippet) is None
        }),
{
}

/// The headings are looked at in order, so many as are asked for.
pub proof fn headings_are_looked_at_in_order(
    headings: Seq<Option<Seen>>,
    snippets: Option<Seq<Option<Seen>>>,
    limit: nat,
    n: nat,
)
    requires
        n < headings.len(),
    ensures
        looked_at(Some(headings), limit as int) == if headings.len() < limit {
            headings.len() as int
        } else {
            limit as int
        },
        looked_at(None, limit as int) == 0,
        bing_results(Some(headings), snippets, 0).len() == 0,
        bing_results(Some(headings), snippets, n as int + 1) == bing_results(
            Some(headings),
            snippets,
            n as int,
        ) + (match bing_result(
            headings[n as int],
            match snippets {
                Some(s) => if n < s.len() {
                    s[n as int]
                } else {
                    None
                },
                None => None,
            },
        ) {
            Some(x) => seq![x],
            None => seq![],
        }),
{
    let before = bing_results(Some(headings), snippets, n as int);
    assert(entry(Some(headings), n as int) == headings[n as int]);
    assert(before + seq![] =~= before);
    if let Some(x) = bing_result(headings[n as int], entry(snippets, n as int)) {
        assert(before.push(x) =~= before + seq![x]);
    }
}

/// The records with a title and an address are the results, in order.
pub proof fn whole_records_are_results(
    rows: Seq<(Option<Seq<char>>, Option<Seq<char>>, Option<Seq<char>>)>,
    row: (Option<Seq<char>>, Option<Seq<char>>, Option<Seq<char>>),
)
    ensures
        brave_results(seq![]).len() == 0,
        ({
            let before = brave_results(rows);
            let r = brave_results(rows.push(row));
            &&& row.0 is None || row.1 is None ==> r == before
            &&& row.0 is Some && row.1 is Some ==> {
                &&& r.len() == before.len() + 1 && r.drop_last() == before
                &&& row.0 == Some(r.last().title) && row.1 == Some(r.last().url)
                &&& row.2 matches Some(s) ==> r.last().snippet == s
                &&& row.2 is None ==> r.last().snippet.len() == 0
            }
        }),
{
    assert(rows.push(row).drop_last() =~= rows);
    let before = brave_results(rows);
    let r = brave_results(rows.push(row));
    if row.0 is Some && row.1 is Some {
        assert(r.drop_last() =~= before);
    }
}

} // verus!
