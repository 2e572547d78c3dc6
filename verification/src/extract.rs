//! The per-card extraction pipeline: reading field values out of product
//! cards, deciding which cards become products, which are skipped as
//! sponsored, and which failures abort the whole extraction.
//!
//! The decision logic is specified and verified over [`CardView`] values:
//! the five field texts read out of one card. Reading those texts out of a
//! live document goes through the trusted wrappers in [`crate::dom`];
//! everything after that point is proved.

use vstd::prelude::*;

use crate::dom;
use crate::dom::cards_of;
use crate::errors::ScrapingError;
use crate::marketplaces::QuerySet;
use crate::marketplaces::ScraperConfig;
use crate::marketplaces::ScraperConfigView;
use crate::marketplaces::spec_queries_ok;
use crate::models::Product;
use crate::models::ProductView;
use crate::price::price_value;
use crate::price::rating_value;
use crate::price::parse_price;
use crate::price::parse_rating;
use crate::text::has_prefix;

verus! {

/// The field values read out of one product card: the link URL, the name
/// and price and rating texts, and the image source. `None` records that
/// the element, attribute or text node was absent.
#[derive(Debug, Clone)]
pub struct RawCard {
    pub link: Option<String>,
    pub name: Option<String>,
    pub price_text: Option<String>,
    pub rating_text: Option<String>,
    pub image_src: Option<String>,
}

/// The mathematical content of a [`RawCard`].
pub struct CardView {
    pub link: Option<Seq<char>>,
    pub name: Option<Seq<char>>,
    pub price_text: Option<Seq<char>>,
    pub rating_text: Option<Seq<char>>,
    pub image_src: Option<Seq<char>>,
}

/// The view of one optional owned field text.
pub open spec fn text_view(o: Option<String>) -> Option<Seq<char>> {
    match o {
        Some(s) => Some(s@),
        None => None,
    }
}

impl View for RawCard {
    type V = CardView;

    open spec fn view(&self) -> CardView {
        CardView {
            link: text_view(self.link),
            name: text_view(self.name),
            price_text: text_view(self.price_text),
            rating_text: text_view(self.rating_text),
            image_src: text_view(self.image_src),
        }
    }
}

/// Whether a link URL belongs to a sponsored listing: it starts with one of
/// the marketplace's sponsored-domain prefixes.
pub open spec fn is_sponsored(url: Seq<char>, prefixes: Seq<Seq<char>>) -> bool {
    exists|k: int| 0 <= k < prefixes.len() && (#[trigger] prefixes[k]).is_prefix_of(url)
}

/// The rating a card's optional rating text yields: absent text, malformed
/// text and an unrepresentable value all degrade to an absent rating.
pub open spec fn spec_rating_of(t: Option<Seq<char>>) -> Option<int> {
    match t {
        None => None,
        Some(s) => match rating_value(s) {
            Some(v) => if v <= u64::MAX {
                Some(v)
            } else {
                None
            },
            None => None,
        },
    }
}

/// What one card contributes to an extraction.
pub enum CardCheck {
    /// A sponsored listing: skipped, not an error.
    Skip,
    /// A genuine listing with all required fields; the product's `id` is
    /// assigned later, from its position in the output.
    Keep(ProductView),
    /// A required field (link, name or price text) was absent or empty.
    MissingElement,
    /// Price text was present but denotes no representable value.
    BadPrice(Seq<char>),
}

/// The decision the pipeline takes for one card: the link is required, a
/// sponsored link skips the card, the name is required and must be
/// non-empty, the price text is required and must parse; rating and image
/// are optional.
pub open spec fn card_check(c: CardView, cfg: ScraperConfigView) -> CardCheck {
    match c.link {
        None => CardCheck::MissingElement,
        Some(url) => if is_sponsored(url, cfg.sponsored_prefixes) {
            CardCheck::Skip
        } else {
            match c.name {
                None => CardCheck::MissingElement,
                Some(name) => if name.len() == 0 {
                    CardCheck::MissingElement
                } else {
                    match c.price_text {
                        None => CardCheck::MissingElement,
                        Some(pt) => match price_value(pt, cfg.locale) {
                            None => CardCheck::BadPrice(pt),
                            Some(v) => if v > u64::MAX {
                                CardCheck::BadPrice(pt)
                            } else {
                                CardCheck::Keep(
                                    ProductView {
                                        id: 0,
                                        name: name,
                                        image_url: c.image_src,
                                        url: url,
                                        rating: spec_rating_of(c.rating_text),
                                        price_in_idr: v,
                                    },
                                )
                            },
                        },
                    }
                },
            }
        },
    }
}

/// A failure that aborts a whole extraction.
pub enum CardFailure {
    MissingElement,
    BadPrice(Seq<char>),
}

/// `p` with its identifier set to `id`.
pub open spec fn with_id(p: ProductView, id: int) -> ProductView {
    ProductView { id: id, ..p }
}

/// The outcome of extracting a whole card sequence: processing the cards in
/// document order, skipping sponsored ones, keeping genuine ones (each
/// product's `id` is its position in the output), and aborting on the first
/// required-field failure.
pub open spec fn extract_spec(cards: Seq<CardView>, cfg: ScraperConfigView) -> Result<
    Seq<ProductView>,
    CardFailure,
>
    decreases cards.len(),
{
    if cards.len() == 0 {
        Ok(Seq::empty())
    } else {
        match extract_spec(cards.drop_last(), cfg) {
            Err(f) => Err(f),
            Ok(ps) => match card_check(cards.last(), cfg) {
                CardCheck::Skip => Ok(ps),
                CardCheck::Keep(pv) => Ok(ps.push(with_id(pv, ps.len() as int))),
                CardCheck::MissingElement => Err(CardFailure::MissingElement),
                CardCheck::BadPrice(t) => Err(CardFailure::BadPrice(t)),
            },
        }
    }
}

/// The views of a card sequence.
pub open spec fn cards_views(s: Seq<RawCard>) -> Seq<CardView> {
    s.map_values(|c: RawCard| c@)
}

/// The views of a product sequence.
pub open spec fn products_views(s: Seq<Product>) -> Seq<ProductView> {
    s.map_values(|p: Product| p@)
}

/// What an extraction guarantees of every product it returns: the name is
/// non-empty and the listing is not sponsored.
pub open spec fn product_wf(p: ProductView, cfg: ScraperConfigView) -> bool {
    p.name.len() > 0 && !is_sponsored(p.url, cfg.sponsored_prefixes)
}

/// Whether `url` starts with any of the sponsored-domain prefixes.
fn link_is_sponsored(url: &str, prefixes: &Vec<String>) -> (r: bool)
    ensures
        r == is_sponsored(url@, prefixes.deep_view()),
{
    let n = prefixes.len();
    let mut k: usize = 0;
    while k < n
        invariant
            n == prefixes@.len(),
            k <= n,
            forall|j: int| 0 <= j < k ==> !(#[trigger] prefixes.deep_view()[j]).is_prefix_of(url@),
        decreases n - k,
    {
        if has_prefix(url, prefixes[k].as_str()) {
            assert(prefixes.deep_view()[k as int].is_prefix_of(url@));
            return true;
        }
        k = k + 1;
    }
    false
}

/// The decision and conversion for one card, exactly as [`card_check`]
/// says; `id` is the identifier a kept product receives.
pub enum CardStep {
    Skip,
    Keep(Product),
    Fail(ScrapingError),
}

/// Applies the per-card policy to the field values read out of one card.
pub fn card_to_product(card: &RawCard, cfg: &ScraperConfig, id: usize) -> (r: CardStep)
    ensures
        match card_check(card@, cfg@) {
            CardCheck::Skip => r is Skip,
            CardCheck::Keep(pv) => r matches CardStep::Keep(p) && p@ == with_id(pv, id as int),
            CardCheck::MissingElement => r matches CardStep::Fail(e) && e
                == ScrapingError::MissingElement,
            CardCheck::BadPrice(t) => r matches CardStep::Fail(e) && (e
                matches ScrapingError::TextParseError { text } && text@ == t),
        },
{
    let url = match &card.link {
        Some(u) => u.clone(),
        None => {
            return CardStep::Fail(ScrapingError::MissingElement);
        },
    };
    if link_is_sponsored(url.as_str(), &cfg.sponsored_prefixes) {
        return CardStep::Skip;
    }
    let name = match &card.name {
        Some(n) => n.clone(),
        None => {
            return CardStep::Fail(ScrapingError::MissingElement);
        },
    };
    if name.as_str().unicode_len() == 0 {
        return CardStep::Fail(ScrapingError::MissingElement);
    }
    let price = match &card.price_text {
        Some(t) => match parse_price(t.as_str(), &cfg.locale) {
            Ok(p) => p,
            Err(e) => {
                return CardStep::Fail(e);
            },
        },
        None => {
            return CardStep::Fail(ScrapingError::MissingElement);
        },
    };
    let rating = match &card.rating_text {
        Some(t) => parse_rating(t.as_str()),
        None => None,
    };
    let image_url = match &card.image_src {
        Some(s) => Some(s.clone()),
        None => None,
    };
    CardStep::Keep(Product { id, name, image_url, url, rating, price_in_idr: price })
}

/// An extraction that failed on a prefix of the cards fails the same way on
/// the whole sequence.
proof fn lemma_error_persists(cards: Seq<CardView>, cfg: ScraperConfigView, k: int)
    requires
        0 <= k <= cards.len(),
        extract_spec(cards.take(k), cfg) is Err,
    ensures
        extract_spec(cards, cfg) == extract_spec(cards.take(k), cfg),
    decreases cards.len() - k,
{
    if k < cards.len() {
        assert(cards.take(k + 1).drop_last() =~= cards.take(k));
        lemma_error_persists(cards, cfg, k + 1);
    } else {
        assert(cards.take(k) =~= cards);
    }
}

/// Extracts products from the field values of a card sequence, exactly as
/// [`extract_spec`] says: sponsored cards are skipped, each kept product's
/// `id` is its position in the output, and the first required-field
/// failure aborts the whole call.
pub fn products_from_cards(cards: &Vec<RawCard>, cfg: &ScraperConfig) -> (r: Result<
    Vec<Product>,
    ScrapingError,
>)
    ensures
        match r {
            Ok(ps) => extract_spec(cards_views(cards@), cfg@) == Ok::<_, CardFailure>(
                products_views(ps@),
            ),
            Err(e) => match extract_spec(cards_views(cards@), cfg@) {
                Err(CardFailure::MissingElement) => e == ScrapingError::MissingElement,
                Err(CardFailure::BadPrice(t)) => e matches ScrapingError::TextParseError { text }
                    && text@ == t,
                Ok(_) => false,
            },
        },
{
    let n = cards.len();
    let mut out: Vec<Product> = Vec::new();
    let mut i: usize = 0;
    proof {
        assert(cards_views(cards@.take(0)) =~= Seq::<CardView>::empty());
        assert(products_views(out@) =~= Seq::<ProductView>::empty());
    }
    while i < n
        invariant
            n == cards@.len(),
            i <= n,
            extract_spec(cards_views(cards@.take(i as int)), cfg@) == Ok::<_, CardFailure>(
                products_views(out@),
            ),
        decreases n - i,
    {
        let ghost pre = cards_views(cards@.take(i as int));
        let ghost stepped = cards_views(cards@.take(i + 1));
        proof {
            assert(stepped =~= pre.push(cards@[i as int]@));
            assert(stepped.drop_last() =~= pre);
            assert(stepped.last() == cards@[i as int]@);
        }
        let ghost old_out = out@;
        match card_to_product(&cards[i], cfg, out.len()) {
            CardStep::Skip => {},
            CardStep::Keep(p) => {
                out.push(p);
                proof {
                    assert(products_views(out@) =~= products_views(old_out).push(p@));
                }
            },
            CardStep::Fail(e) => {
                proof {
                    assert(extract_spec(stepped, cfg@) is Err);
                    assert(cards_views(cards@).take(i + 1) =~= stepped);
                    lemma_error_persists(cards_views(cards@), cfg@, i + 1);
                }
                return Err(e);
            },
        }
        i = i + 1;
    }
    proof {
        assert(cards@.take(n as int) =~= cards@);
    }
    Ok(out)
}

/// Compiles a marketplace's whole query set, failing with `InvalidQuery`
/// when any single query text is invalid.
fn compile_queries(q: &QuerySet) -> (r: Result<(), ScrapingError>)
    ensures
        r is Ok <==> spec_queries_ok(q@),
        r matches Err(e) ==> e == ScrapingError::InvalidQuery,
{
    match dom::compile(q.container.as_str()) {
        Ok(_) => (),
        Err(e) => {
            return Err(e);
        },
    };
    match dom::compile(q.name.as_str()) {
        Ok(_) => (),
        Err(e) => {
            return Err(e);
        },
    };
    match dom::compile(q.price.as_str()) {
        Ok(_) => (),
        Err(e) => {
            return Err(e);
        },
    };
    match dom::compile(q.rating.as_str()) {
        Ok(_) => (),
        Err(e) => {
            return Err(e);
        },
    };
    match dom::compile(q.image.as_str()) {
        Ok(_) => (),
        Err(e) => {
            return Err(e);
        },
    };
    match dom::compile(q.link.as_str()) {
        Ok(_) => (),
        Err(e) => {
            return Err(e);
        },
    };
    Ok(())
}

/// Every product of a successful extraction is well-formed: its `id` is its
/// position, its name is non-empty and its listing is not sponsored.
pub proof fn lemma_products_well_formed(cards: Seq<CardView>, cfg: ScraperConfigView)
    requires
        extract_spec(cards, cfg) is Ok,
    ensures
        forall|i: int|
            0 <= i < extract_spec(cards, cfg)->Ok_0.len() ==> {
                let p = #[trigger] extract_spec(cards, cfg)->Ok_0[i];
                p.id == i && product_wf(p, cfg)
            },
    decreases cards.len(),
{
    if cards.len() > 0 {
        lemma_products_well_formed(cards.drop_last(), cfg);
    }
}

/// An extraction in which no card fails a required field succeeds.
pub proof fn lemma_no_failure_ok(cards: Seq<CardView>, cfg: ScraperConfigView)
    requires
        forall|i: int|
            0 <= i < cards.len() ==> (card_check(#[trigger] cards[i], cfg) is Skip || card_check(
                cards[i],
                cfg,
            ) is Keep),
    ensures
        extract_spec(cards, cfg) is Ok,
    decreases cards.len(),
{
    if cards.len() > 0 {
        lemma_no_failure_ok(cards.drop_last(), cfg);
    }
}

/// An extraction in which every card is kept returns one product per card,
/// in document order.
pub proof fn lemma_all_keep(cards: Seq<CardView>, cfg: ScraperConfigView)
    requires
        forall|i: int| 0 <= i < cards.len() ==> card_check(#[trigger] cards[i], cfg) is Keep,
    ensures
        extract_spec(cards, cfg) is Ok,
        extract_spec(cards, cfg)->Ok_0.len() == cards.len(),
        forall|i: int|
            0 <= i < cards.len() ==> extract_spec(cards, cfg)->Ok_0[i] == with_id(
                card_check(#[trigger] cards[i], cfg)->Keep_0,
                i,
            ),
    decreases cards.len(),
{
    if cards.len() > 0 {
        let head = cards.drop_last();
        assert forall|i: int| 0 <= i < head.len() implies card_check(
            #[trigger] head[i],
            cfg,
        ) is Keep by {
            assert(head[i] == cards[i]);
        }
        lemma_all_keep(head, cfg);
        let hs = extract_spec(head, cfg)->Ok_0;
        let ps = extract_spec(cards, cfg)->Ok_0;
        assert(card_check(cards.last(), cfg) is Keep);
        assert(ps == hs.push(with_id(card_check(cards.last(), cfg)->Keep_0, hs.len() as int)));
        assert forall|i: int| 0 <= i < cards.len() implies extract_spec(cards, cfg)->Ok_0[i]
            == with_id(card_check(#[trigger] cards[i], cfg)->Keep_0, i) by {
            if i < cards.len() - 1 {
                assert(head[i] == cards[i]);
                assert(ps[i] == hs[i]);
            } else {
                assert(cards.last() == cards[i]);
            }
        }
    }
}

/// Skipping is invisible except for the skipped card: when one card of a
/// sequence is sponsored and every other card is kept, extraction returns
/// exactly one product per remaining card, preserving their relative
/// document order.
pub proof fn lemma_sponsored_card_skipped(cards: Seq<CardView>, cfg: ScraperConfigView, k: int)
    requires
        0 <= k < cards.len(),
        card_check(cards[k], cfg) is Skip,
        forall|i: int|
            0 <= i < cards.len() && i != k ==> card_check(#[trigger] cards[i], cfg) is Keep,
    ensures
        extract_spec(cards, cfg) is Ok,
        extract_spec(cards, cfg)->Ok_0.len() == cards.len() - 1,
        forall|i: int|
            0 <= i < k ==> extract_spec(cards, cfg)->Ok_0[i] == with_id(
                card_check(#[trigger] cards[i], cfg)->Keep_0,
                i,
            ),
        forall|i: int|
            k < i < cards.len() ==> extract_spec(cards, cfg)->Ok_0[i - 1] == with_id(
                card_check(#[trigger] cards[i], cfg)->Keep_0,
                i - 1,
            ),
    decreases cards.len(),
{
    let head = cards.drop_last();
    let ps = extract_spec(cards, cfg)->Ok_0;
    if k == cards.len() - 1 {
        assert forall|i: int| 0 <= i < head.len() implies card_check(
            #[trigger] head[i],
            cfg,
        ) is Keep by {
            assert(head[i] == cards[i]);
        }
        lemma_all_keep(head, cfg);
        assert(card_check(cards.last(), cfg) is Skip);
        assert(ps == extract_spec(head, cfg)->Ok_0);
        assert forall|i: int| 0 <= i < k implies extract_spec(cards, cfg)->Ok_0[i] == with_id(
            card_check(#[trigger] cards[i], cfg)->Keep_0,
            i,
        ) by {
            assert(head[i] == cards[i]);
        }
    } else {
        assert forall|i: int|
            0 <= i < head.len() && i != k implies card_check(#[trigger] head[i], cfg) is Keep by {
            assert(head[i] == cards[i]);
        }
        assert(head[k] == cards[k]);
        lemma_sponsored_card_skipped(head, cfg, k);
        let hs = extract_spec(head, cfg)->Ok_0;
        assert(card_check(cards.last(), cfg) is Keep);
        assert(ps == hs.push(with_id(card_check(cards.last(), cfg)->Keep_0, hs.len() as int)));
        assert forall|i: int| 0 <= i < k implies extract_spec(cards, cfg)->Ok_0[i] == with_id(
            card_check(#[trigger] cards[i], cfg)->Keep_0,
            i,
        ) by {
            assert(head[i] == cards[i]);
            assert(ps[i] == hs[i]);
        }
        assert forall|i: int| k < i < cards.len() implies extract_spec(cards, cfg)->Ok_0[i - 1]
            == with_id(card_check(#[trigger] cards[i], cfg)->Keep_0, i - 1) by {
            if i < cards.len() - 1 {
                assert(head[i] == cards[i]);
                assert(ps[i - 1] == hs[i - 1]);
            } else {
                assert(cards.last() == cards[i]);
                assert(ps[i - 1] == ps.last());
            }
        }
    }
}

/// A card that is not sponsored and lacks a rating still yields a product;
/// the rating alone is absent, and name, price, link and image carry the
/// card's values.
pub proof fn lemma_missing_rating_is_optional(c: CardView, cfg: ScraperConfigView)
    requires
        c.rating_text is None,
        c.link matches Some(url) && !is_sponsored(url, cfg.sponsored_prefixes),
        c.name matches Some(n) && n.len() > 0,
        c.price_text matches Some(pt) && price_value(pt, cfg.locale) matches Some(v) && v
            <= u64::MAX,
    ensures
        card_check(c, cfg) matches CardCheck::Keep(pv) && {
            &&& pv.rating is None
            &&& pv.name == c.name->Some_0
            &&& pv.url == c.link->Some_0
            &&& pv.image_url == c.image_src
            &&& Some(pv.price_in_idr) == price_value(c.price_text->Some_0, cfg.locale)
        },
{
}

/// A card that is not sponsored and lacks its name (or has an empty one)
/// aborts the whole extraction with a missing-element failure, provided no
/// earlier card already failed: no partial product list is returned.
pub proof fn lemma_missing_name_aborts(cards: Seq<CardView>, cfg: ScraperConfigView, k: int)
    requires
        0 <= k < cards.len(),
        forall|i: int|
            0 <= i < k ==> (card_check(#[trigger] cards[i], cfg) is Skip || card_check(
                cards[i],
                cfg,
            ) is Keep),
        cards[k].link matches Some(url) && !is_sponsored(url, cfg.sponsored_prefixes),
        cards[k].name is None || cards[k].name->Some_0.len() == 0,
    ensures
        extract_spec(cards, cfg) == Err::<Seq<ProductView>, CardFailure>(
            CardFailure::MissingElement,
        ),
{
    assert(card_check(cards[k], cfg) is MissingElement);
    lemma_no_failure_ok(cards.take(k), cfg);
    assert(cards.take(k + 1).drop_last() =~= cards.take(k));
    assert(cards.take(k + 1).last() == cards[k]);
    assert(extract_spec(cards.take(k + 1), cfg) == Err::<Seq<ProductView>, CardFailure>(
        CardFailure::MissingElement,
    ));
    lemma_error_persists(cards, cfg, k + 1);
}

/// Extracts the product records from the raw markup of one search-results
/// page under one marketplace profile. Compilation of the configured
/// queries fails with `InvalidQuery` exactly when some query text is
/// invalid; with valid queries the result is exactly [`extract_spec`] over
/// the page's cards ([`cards_of`]): the products in document order with
/// positional ids on success, and the first required-field failure
/// otherwise.
pub fn extract_products_with(body: &str, cfg: &ScraperConfig) -> (r: Result<
    Vec<Product>,
    ScrapingError,
>)
    ensures
        (r matches Err(e) && e == ScrapingError::InvalidQuery) <==> !spec_queries_ok(cfg@.queries),
        spec_queries_ok(cfg@.queries) ==> match r {
            Ok(ps) => extract_spec(cards_of(body@, cfg@.queries), cfg@) == Ok::<_, CardFailure>(
                products_views(ps@),
            ),
            Err(e) => match extract_spec(cards_of(body@, cfg@.queries), cfg@) {
                Err(CardFailure::MissingElement) => e == ScrapingError::MissingElement,
                Err(CardFailure::BadPrice(t)) => e matches ScrapingError::TextParseError { text }
                    && text@ == t,
                Ok(_) => false,
            },
        },
        r matches Ok(ps) ==> forall|i: int|
            0 <= i < ps@.len() ==> (#[trigger] ps@[i])@.id == i && product_wf(ps@[i]@, cfg@),
        r matches Err(e) ==> (e == ScrapingError::InvalidQuery || e
            == ScrapingError::MissingElement || e matches ScrapingError::TextParseError { .. }),
{
    match compile_queries(&cfg.queries) {
        Ok(_) => (),
        Err(e) => {
            return Err(e);
        },
    };
    let cards = dom::read_all_cards(body, &cfg.queries);
    let r = products_from_cards(&cards, cfg);
    proof {
        assert(cards_views(cards@) == cards_of(body@, cfg@.queries));
        if r is Ok {
            let ps = r->Ok_0;
            lemma_products_well_formed(cards_views(cards@), cfg@);
            assert forall|j: int| 0 <= j < ps@.len() implies (#[trigger] ps@[j])@.id == j
                && product_wf(ps@[j]@, cfg@) by {
                assert(extract_spec(cards_views(cards@), cfg@)->Ok_0[j] == ps@[j]@);
            }
        }
    }
    r
}

} // verus!
