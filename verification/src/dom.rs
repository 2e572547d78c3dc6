//! The trusted boundary to the HTML engine.
//!
//! Structural parsing of markup and matching of compiled queries are done
//! by the `scraper` crate. What is taken on trust: compiling a structural
//! query succeeds exactly on the texts `scraper` accepts ([`query_ok`]),
//! and the product cards a page body holds under a query set — their
//! number and each card's five field values — are a function of the body
//! and the query texts alone ([`cards_of`]). Each trusted call is
//! addressed by the page, the query set and a card position, so its
//! contract is stated over plain values; everything the pipeline decides
//! about the values read out is verified downstream.

use vstd::prelude::*;

use crate::errors::ScrapingError;
use crate::extract::RawCard;
use crate::extract::CardView;
use crate::extract::cards_views;
use crate::extract::text_view;
use crate::marketplaces::QuerySet;
use crate::marketplaces::QuerySetView;
use crate::marketplaces::spec_queries_ok;

verus! {

#[verifier::external_type_specification]
#[verifier::external_body]
pub struct ExHtml(scraper::Html);

#[verifier::external_type_specification]
#[verifier::external_body]
pub struct ExSelector(scraper::Selector);

/// Whether the structural query text is syntactically valid, that is,
/// whether `scraper::Selector::parse` accepts it. Validity depends on the
/// query text alone.
pub uninterp spec fn query_ok(text: Seq<char>) -> bool;

/// Relies on scraper::Selector::parse: compiling the same query text
/// either always succeeds or always fails, depending only on the text.
#[verifier::external_body]
fn compile_query(text: &str) -> (r: Result<scraper::Selector, ScrapingError>)
    ensures
        r is Ok <==> query_ok(text@),
        r is Err ==> r->Err_0 == ScrapingError::InvalidQuery,
{
    scraper::Selector::parse(text).map_err(|_| ScrapingError::InvalidQuery)
}

/// Compiles a structural query, reporting `InvalidQuery` on syntactically
/// invalid query text. Compilation never partially succeeds: the whole
/// query text is valid or the call fails.
pub fn compile(text: &str) -> (r: Result<scraper::Selector, ScrapingError>)
    ensures
        r is Ok <==> query_ok(text@),
        r is Err ==> r->Err_0 == ScrapingError::InvalidQuery,
{
    compile_query(text)
}

/// The field values of the product cards that a page body holds under a
/// query set: for each card matched by the container query, in document
/// order, the card's first link `href`, name text, price text, rating
/// text and image `src` — each absent when its query matches nothing
/// under the card (or the attribute or text node is missing). Parsing and
/// matching are deterministic, so this depends on the body and the query
/// texts alone.
pub uninterp spec fn cards_of(body: Seq<char>, q: QuerySetView) -> Seq<CardView>;

/// A parsed document, remembering (as ghost data) the body text it was
/// parsed from. The tree is private and [`parse_page`] is the only
/// constructor, so every `Page` holds the parse of its recorded body; the
/// trusted readers below rely on that.
pub struct Page {
    inner: scraper::Html,
    pub body: Ghost<Seq<char>>,
}

/// Relies on scraper::Html::parse_document: any input string parses into
/// some document tree (malformed markup yields a tree plus recorded
/// errors, never a panic).
#[verifier::external_body]
fn parse_html(body: &str) -> (doc: scraper::Html) {
    scraper::Html::parse_document(body)
}

/// Parses a page body into a document that remembers its source text.
fn parse_page(body: &str) -> (p: Page)
    ensures
        p.body@ == body@,
{
    Page { inner: parse_html(body), body: Ghost(body@) }
}

/// Relies on scraper::Selector::parse and Html::select: how many elements
/// of the page match the container query — the number of cards that
/// [`cards_of`] names. Valid query texts are required because
/// `Selector::parse` is unwrapped.
#[verifier::external_body]
fn count_cards(page: &Page, q: &QuerySet) -> (n: usize)
    requires
        spec_queries_ok(q@),
    ensures
        n == cards_of(page.body@, q@).len(),
{
    let sel = scraper::Selector::parse(&q.container).unwrap();
    page.inner.select(&sel).count()
}

/// Relies on scraper::Selector::parse, Html::select, Iterator::nth,
/// ElementRef::select and ElementRef::attr: the `href` of the first link
/// element under the page's `i`-th card — the card's link, as
/// [`cards_of`] names it.
#[verifier::external_body]
fn card_link(page: &Page, q: &QuerySet, i: usize) -> (r: Option<String>)
    requires
        spec_queries_ok(q@),
        i < cards_of(page.body@, q@).len(),
    ensures
        text_view(r) == cards_of(page.body@, q@)[i as int].link,
{
    let sel = |t: &String| scraper::Selector::parse(t).unwrap();
    let card = page.inner.select(&sel(&q.container)).nth(i).unwrap();
    card.select(&sel(&q.link)).next().and_then(|e| e.attr("href")).map(String::from)
}

/// Relies on the same calls as [`card_link`], plus ElementRef::text: the
/// first text node under the page's `i`-th card's first name element —
/// the card's name text, as [`cards_of`] names it.
#[verifier::external_body]
fn card_name(page: &Page, q: &QuerySet, i: usize) -> (r: Option<String>)
    requires
        spec_queries_ok(q@),
        i < cards_of(page.body@, q@).len(),
    ensures
        text_view(r) == cards_of(page.body@, q@)[i as int].name,
{
    let sel = |t: &String| scraper::Selector::parse(t).unwrap();
    let card = page.inner.select(&sel(&q.container)).nth(i).unwrap();
    card.select(&sel(&q.name)).next().and_then(|e| e.text().next()).map(String::from)
}

/// As [`card_name`], for the price element: the card's price text, as
/// [`cards_of`] names it.
#[verifier::external_body]
fn card_price_text(page: &Page, q: &QuerySet, i: usize) -> (r: Option<String>)
    requires
        spec_queries_ok(q@),
        i < cards_of(page.body@, q@).len(),
    ensures
        text_view(r) == cards_of(page.body@, q@)[i as int].price_text,
{
    let sel = |t: &String| scraper::Selector::parse(t).unwrap();
    let card = page.inner.select(&sel(&q.container)).nth(i).unwrap();
    card.select(&sel(&q.price)).next().and_then(|e| e.text().next()).map(String::from)
}

/// As [`card_name`], for the rating element: the card's rating text, as
/// [`cards_of`] names it.
#[verifier::external_body]
fn card_rating_text(page: &Page, q: &QuerySet, i: usize) -> (r: Option<String>)
    requires
        spec_queries_ok(q@),
        i < cards_of(page.body@, q@).len(),
    ensures
        text_view(r) == cards_of(page.body@, q@)[i as int].rating_text,
{
    let sel = |t: &String| scraper::Selector::parse(t).unwrap();
    let card = page.inner.select(&sel(&q.container)).nth(i).unwrap();
    card.select(&sel(&q.rating)).next().and_then(|e| e.text().next()).map(String::from)
}

/// As [`card_link`], for the image element's `src`: the card's image
/// source, as [`cards_of`] names it.
#[verifier::external_body]
fn card_image_src(page: &Page, q: &QuerySet, i: usize) -> (r: Option<String>)
    requires
        spec_queries_ok(q@),
        i < cards_of(page.body@, q@).len(),
    ensures
        text_view(r) == cards_of(page.body@, q@)[i as int].image_src,
{
    let sel = |t: &String| scraper::Selector::parse(t).unwrap();
    let card = page.inner.select(&sel(&q.container)).nth(i).unwrap();
    card.select(&sel(&q.image)).next().and_then(|e| e.attr("src")).map(String::from)
}

/// Reads the field values of every product card of a page body, exactly
/// as [`cards_of`] names them.
pub(crate) fn read_all_cards(body: &str, q: &QuerySet) -> (cards: Vec<RawCard>)
    requires
        spec_queries_ok(q@),
    ensures
        cards_views(cards@) == cards_of(body@, q@),
{
    let page = parse_page(body);
    let n = count_cards(&page, q);
    let mut cards: Vec<RawCard> = Vec::new();
    let mut i: usize = 0;
    while i < n
        invariant
            spec_queries_ok(q@),
            page.body@ == body@,
            n == cards_of(body@, q@).len(),
            i <= n,
            cards@.len() == i,
            forall|j: int| 0 <= j < i ==> (#[trigger] cards@[j])@ == cards_of(body@, q@)[j],
        decreases n - i,
    {
        let rc = RawCard {
            link: card_link(&page, q, i),
            name: card_name(&page, q, i),
            price_text: card_price_text(&page, q, i),
            rating_text: card_rating_text(&page, q, i),
            image_src: card_image_src(&page, q, i),
        };
        assert(rc@ == cards_of(body@, q@)[i as int]);
        cards.push(rc);
        i = i + 1;
    }
    proof {
        assert(cards_views(cards@) =~= cards_of(body@, q@));
    }
    cards
}

} // verus!
