//! Per-marketplace scraper profiles: the structural-query set, currency
//! locale, search-URL template and sponsored-domain prefixes of each
//! supported marketplace, and the shared scraper contract over them.

use vstd::prelude::*;

use crate::dom::cards_of;
use crate::dom::query_ok;
use crate::errors::ScrapingError;
use crate::extract::CardFailure;
use crate::extract::extract_products_with;
use crate::extract::extract_spec;
use crate::extract::product_wf;
use crate::extract::products_views;
use crate::models::Product;
use crate::price::LocaleProfile;
use crate::price::LocaleProfileView;
use crate::url::build_search_url;
use crate::url::percent_encoded;
use vstd::string::StringSliceAdditionalSpecFns;

verus! {

/// The structural queries one marketplace needs: the repeating product-card
/// container and the per-card field queries.
#[derive(Debug, Clone)]
pub struct QuerySet {
    pub container: String,
    pub name: String,
    pub price: String,
    pub rating: String,
    pub image: String,
    pub link: String,
}

/// The mathematical content of a [`QuerySet`].
pub struct QuerySetView {
    pub container: Seq<char>,
    pub name: Seq<char>,
    pub price: Seq<char>,
    pub rating: Seq<char>,
    pub image: Seq<char>,
    pub link: Seq<char>,
}

impl View for QuerySet {
    type V = QuerySetView;

    open spec fn view(&self) -> QuerySetView {
        QuerySetView {
            container: self.container@,
            name: self.name@,
            price: self.price@,
            rating: self.rating@,
            image: self.image@,
            link: self.link@,
        }
    }
}

/// Whether every structural query of the set compiles.
pub open spec fn spec_queries_ok(q: QuerySetView) -> bool {
    &&& query_ok(q.container)
    &&& query_ok(q.name)
    &&& query_ok(q.price)
    &&& query_ok(q.rating)
    &&& query_ok(q.image)
    &&& query_ok(q.link)
}

/// The complete static profile of one marketplace: search-URL template
/// prefix, structural queries, currency locale and sponsored-domain
/// prefixes. Scrapers are polymorphic over this profile, so each
/// marketplace is independently constructible and testable with an
/// injected configuration.
#[derive(Debug, Clone)]
pub struct ScraperConfig {
    /// The search URL up to the substitution point; the URL-escaped query
    /// text is appended to it.
    pub url_prefix: String,
    pub queries: QuerySet,
    pub locale: LocaleProfile,
    /// A link starting with any of these prefixes marks a sponsored
    /// listing, which is skipped rather than extracted.
    pub sponsored_prefixes: Vec<String>,
}

/// The mathematical content of a [`ScraperConfig`].
pub struct ScraperConfigView {
    pub url_prefix: Seq<char>,
    pub queries: QuerySetView,
    pub locale: LocaleProfileView,
    pub sponsored_prefixes: Seq<Seq<char>>,
}

impl View for ScraperConfig {
    type V = ScraperConfigView;

    open spec fn view(&self) -> ScraperConfigView {
        ScraperConfigView {
            url_prefix: self.url_prefix@,
            queries: self.queries@,
            locale: self.locale@,
            sponsored_prefixes: self.sponsored_prefixes.deep_view(),
        }
    }
}

/// Builds a scraper profile from its parts; every marketplace has one
/// sponsored-domain prefix.
fn make_config(
    url_prefix: &str,
    container: &str,
    name: &str,
    price: &str,
    rating: &str,
    image: &str,
    link: &str,
    currency_prefix: &str,
    thousands_sep: char,
    decimal_sep: char,
    sponsored: &str,
) -> (c: ScraperConfig)
    ensures
        c@ == (ScraperConfigView {
            url_prefix: url_prefix@,
            queries: QuerySetView {
                container: container@,
                name: name@,
                price: price@,
                rating: rating@,
                image: image@,
                link: link@,
            },
            locale: LocaleProfileView {
                prefix: currency_prefix@,
                thousands_sep: thousands_sep,
                decimal_sep: decimal_sep,
            },
            sponsored_prefixes: seq![sponsored@],
        }),
{
    let sponsored_prefixes: Vec<String> = vec![String::from_str(sponsored)];
    let c = ScraperConfig {
        url_prefix: String::from_str(url_prefix),
        queries: QuerySet {
            container: String::from_str(container),
            name: String::from_str(name),
            price: String::from_str(price),
            rating: String::from_str(rating),
            image: String::from_str(image),
            link: String::from_str(link),
        },
        locale: LocaleProfile {
            prefix: String::from_str(currency_prefix),
            thousands_sep,
            decimal_sep,
        },
        sponsored_prefixes,
    };
    proof {
        assert(c@.sponsored_prefixes =~= seq![sponsored@]);
    }
    c
}

/// The shared contract of every marketplace scraper: a static profile, a
/// search URL built from it, and an extraction over it. `fetch` itself is
/// the surrounding program's concern; the extraction takes the fetched
/// page body.
pub trait MarketplaceScraper: Sized {
    /// The marketplace's static profile.
    spec fn spec_config(&self) -> ScraperConfigView;

    /// Returns the marketplace's profile.
    fn config(&self) -> (c: ScraperConfig)
        ensures
            c@ == self.spec_config(),
    ;

    /// Builds the marketplace's search URL for a query: the profile's URL
    /// template prefix followed by the percent-encoded query text.
    fn search_url(&self, search_query: &str) -> (u: String)
        ensures
            u@ == self.spec_config().url_prefix + percent_encoded(search_query.spec_bytes()),
    ;

    /// Extracts the product records from the raw markup of one of this
    /// marketplace's search-results pages: with valid configured queries,
    /// exactly the per-card policy over the page's cards.
    fn extract_products(&self, body: &str) -> (r: Result<Vec<Product>, ScrapingError>)
        ensures
            (r matches Err(e) && e == ScrapingError::InvalidQuery) <==> !spec_queries_ok(
                self.spec_config().queries,
            ),
            spec_queries_ok(self.spec_config().queries) ==> match r {
                Ok(ps) => extract_spec(
                    cards_of(body@, self.spec_config().queries),
                    self.spec_config(),
                ) == Ok::<_, CardFailure>(products_views(ps@)),
                Err(e) => match extract_spec(
                    cards_of(body@, self.spec_config().queries),
                    self.spec_config(),
                ) {
                    Err(CardFailure::MissingElement) => e == ScrapingError::MissingElement,
                    Err(CardFailure::BadPrice(t)) => e matches ScrapingError::TextParseError {
                        text,
                    } && text@ == t,
                    Ok(_) => false,
                },
            },
            r matches Ok(ps) ==> forall|i: int|
                0 <= i < ps@.len() ==> (#[trigger] ps@[i])@.id == i && product_wf(
                    ps@[i]@,
                    self.spec_config(),
                ),
            r matches Err(e) ==> (e == ScrapingError::InvalidQuery || e
                == ScrapingError::MissingElement || e matches ScrapingError::TextParseError {
                ..
            }),
    ;
}

pub struct Tokopedia;

pub struct Shopee;

pub struct Blibli;

pub struct Bukalapak;

/// Tokopedia's static profile.
pub open spec fn tokopedia_config() -> ScraperConfigView {
    ScraperConfigView {
        url_prefix: "https://tokopedia.com/search?q="@,
        queries: QuerySetView {
            container: "div.pcv3__container"@,
            name: "div.prd_link-product-name"@,
            price: "div.prd_link-product-price"@,
            rating: "span.prd_rating-average-text"@,
            image: "img.css-1q90pod"@,
            link: "a.pcv3__info-content"@,
        },
        locale: LocaleProfileView { prefix: "Rp"@, thousands_sep: '.', decimal_sep: ',' },
        sponsored_prefixes: seq!["https://ta.tokopedia.com"@],
    }
}

impl MarketplaceScraper for Tokopedia {
    open spec fn spec_config(&self) -> ScraperConfigView {
        tokopedia_config()
    }

    fn config(&self) -> (c: ScraperConfig) {
        make_config(
            "https://tokopedia.com/search?q=",
            "div.pcv3__container",
            "div.prd_link-product-name",
            "div.prd_link-product-price",
            "span.prd_rating-average-text",
            "img.css-1q90pod",
            "a.pcv3__info-content",
            "Rp",
            '.',
            ',',
            "https://ta.tokopedia.com",
        )
    }

    fn search_url(&self, search_query: &str) -> (u: String) {
        let c = self.config();
        build_search_url(c.url_prefix.as_str(), search_query)
    }

    fn extract_products(&self, body: &str) -> (r: Result<Vec<Product>, ScrapingError>) {
        let c = self.config();
        extract_products_with(body, &c)
    }
}

/// Shopee's static profile.
pub open spec fn shopee_config() -> ScraperConfigView {
    ScraperConfigView {
        url_prefix: "https://shopee.com/search?keyword="@,
        queries: QuerySetView {
            container: "div.shopee-search-item-result__item"@,
            name: "div.shopee-item-name"@,
            price: "span.shopee-item-price"@,
            rating: "div.shopee-item-rating"@,
            image: "img.shopee-item-image"@,
            link: "a.shopee-item-link"@,
        },
        locale: LocaleProfileView { prefix: "Rp"@, thousands_sep: '.', decimal_sep: ',' },
        sponsored_prefixes: seq!["https://ads.shopee.com"@],
    }
}

impl MarketplaceScraper for Shopee {
    open spec fn spec_config(&self) -> ScraperConfigView {
        shopee_config()
    }

    fn config(&self) -> (c: ScraperConfig) {
        make_config(
            "https://shopee.com/search?keyword=",
            "div.shopee-search-item-result__item",
            "div.shopee-item-name",
            "span.shopee-item-price",
            "div.shopee-item-rating",
            "img.shopee-item-image",
            "a.shopee-item-link",
            "Rp",
            '.',
            ',',
            "https://ads.shopee.com",
        )
    }

    fn search_url(&self, search_query: &str) -> (u: String) {
        let c = self.config();
        build_search_url(c.url_prefix.as_str(), search_query)
    }

    fn extract_products(&self, body: &str) -> (r: Result<Vec<Product>, ScrapingError>) {
        let c = self.config();
        extract_products_with(body, &c)
    }
}

/// Blibli's static profile.
pub open spec fn blibli_config() -> ScraperConfigView {
    ScraperConfigView {
        url_prefix: "https://www.blibli.com/cari/"@,
        queries: QuerySetView {
            container: "div.product__card"@,
            name: "div.product__title"@,
            price: "div.product__price"@,
            rating: "span.product__rating"@,
            image: "img.product__img"@,
            link: "a.product__link"@,
        },
        locale: LocaleProfileView { prefix: "Rp"@, thousands_sep: '.', decimal_sep: ',' },
        sponsored_prefixes: seq!["https://ads.blibli.com"@],
    }
}

impl MarketplaceScraper for Blibli {
    open spec fn spec_config(&self) -> ScraperConfigView {
        blibli_config()
    }

    fn config(&self) -> (c: ScraperConfig) {
        make_config(
            "https://www.blibli.com/cari/",
            "div.product__card",
            "div.product__title",
            "div.product__price",
            "span.product__rating",
            "img.product__img",
            "a.product__link",
            "Rp",
            '.',
            ',',
            "https://ads.blibli.com",
        )
    }

    fn search_url(&self, search_query: &str) -> (u: String) {
        let c = self.config();
        build_search_url(c.url_prefix.as_str(), search_query)
    }

    fn extract_products(&self, body: &str) -> (r: Result<Vec<Product>, ScrapingError>) {
        let c = self.config();
        extract_products_with(body, &c)
    }
}

/// Bukalapak's static profile.
pub open spec fn bukalapak_config() -> ScraperConfigView {
    ScraperConfigView {
        url_prefix: "https://www.bukalapak.com/products?search="@,
        queries: QuerySetView {
            container: "div.bl-product-card"@,
            name: "p.bl-product-card__description-name"@,
            price: "p.bl-product-card__description-price"@,
            rating: "span.bl-product-card__description-rating"@,
            image: "img.bl-product-card__thumbnail"@,
            link: "a.bl-product-card__link"@,
        },
        locale: LocaleProfileView { prefix: "Rp"@, thousands_sep: '.', decimal_sep: ',' },
        sponsored_prefixes: seq!["https://ads.bukalapak.com"@],
    }
}

impl MarketplaceScraper for Bukalapak {
    open spec fn spec_config(&self) -> ScraperConfigView {
        bukalapak_config()
    }

    fn config(&self) -> (c: ScraperConfig) {
        make_config(
            "https://www.bukalapak.com/products?search=",
            "div.bl-product-card",
            "p.bl-product-card__description-name",
            "p.bl-product-card__description-price",
            "span.bl-product-card__description-rating",
            "img.bl-product-card__thumbnail",
            "a.bl-product-card__link",
            "Rp",
            '.',
            ',',
            "https://ads.bukalapak.com",
        )
    }

    fn search_url(&self, search_query: &str) -> (u: String) {
        let c = self.config();
        build_search_url(c.url_prefix.as_str(), search_query)
    }

    fn extract_products(&self, body: &str) -> (r: Result<Vec<Product>, ScrapingError>) {
        let c = self.config();
        extract_products_with(body, &c)
    }
}

} // verus!
