//! What the library needs of HTML.
use vstd::prelude::*;

use crate::text::opt;

verus! {

/// An element of a page: its text and where it links to.
#[derive(Debug)]
pub struct Element {
    pub text: String,
    pub href: Option<String>,
}

/// Some elements, as mathematical values: the text and the link of each.
pub open spec fn shown(v: Seq<Element>) -> Seq<(Seq<char>, Option<Seq<char>>)> {
    Seq::new(v.len(), |i: int| (v[i].text@, opt(v[i].href)))
}

/// The elements that were found, as mathematical values.
pub open spec fn found(v: Option<Vec<Element>>) -> Option<Seq<(Seq<char>, Option<Seq<char>>)>> {
    match v {
        Some(e) => Some(shown(e@)),
        None => None,
    }
}

/// The elements of a page that `scraper` selects, in the order of the page, each with its
/// text and its `href`; `None` where the selector is not valid.
pub uninterp spec fn html_elements(html: Seq<char>, selector: Seq<char>) -> Option<
    Seq<(Seq<char>, Option<Seq<char>>)>,
>;

/// `scraper::Html::parse_document`, `Selector::parse`, `Html::select` and, of each
/// element, `text` and the attribute `href`. What comes out depends on the page and the
/// selector alone.
#[verifier::external_body]
pub(crate) fn elements(html: &str, selector: &str) -> (r: Option<Vec<Element>>)
    ensures
        found(r) == html_elements(html@, selector@),
{
    let chosen = scraper::Selector::parse(selector).ok()?;
    let page = scraper::Html::parse_document(html);
    let mut all: Vec<Element> = Vec::new();
    for e in page.select(&chosen) {
        all.push(Element { text: e.text().collect(), href: e.attr("href").map(str::to_owned) });
    }
    Some(all)
}

/// Some elements that may be missing, as mathematical values.
pub open spec fn shown_each(v: Seq<Option<Element>>) -> Seq<
    Option<(Seq<char>, Option<Seq<char>>)>,
> {
    Seq::new(
        v.len(),
        |i: int|
            match v[i] {
                Some(e) => Some((e.text@, opt(e.href))),
                None => None,
            },
    )
}

/// The first of the `inner` elements of a page within each of its `outer` elements, as
/// `scraper` selects them; `None` where a selector is not valid.
pub uninterp spec fn html_nested(html: Seq<char>, outer: Seq<char>, inner: Seq<char>) -> Option<
    Seq<Option<(Seq<char>, Option<Seq<char>>)>>,
>;

/// `scraper::Html::select` and, within each element, `ElementRef::select`, of which the
/// first element counts. What comes out depends on the page and the selectors alone.
#[verifier::external_body]
pub(crate) fn nested(html: &str, outer: &str, inner: &str) -> (r: Option<Vec<Option<Element>>>)
    ensures
        match r {
            Some(v) => html_nested(html@, outer@, inner@) == Some(shown_each(v@)),
            None => html_nested(html@, outer@, inner@) is None,
        },
{
    let outside = scraper::Selector::parse(outer).ok()?;
    let inside = scraper::Selector::parse(inner).ok()?;
    let page = scraper::Html::parse_document(html);
    let mut all: Vec<Option<Element>> = Vec::new();
    for o in page.select(&outside) {
        all.push(o.select(&inside).next().map(|e| Element {
            text: e.text().collect(),
            href: e.attr("href").map(str::to_owned),
        }));
    }
    Some(all)
}

} // verus!
