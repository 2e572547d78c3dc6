use shop_scraper::aggregate::Collected;
use shop_scraper::aggregate::SourcePage;
use shop_scraper::aggregate::SourceReport;
use shop_scraper::aggregate::collect_cheap_products;
use shop_scraper::aggregate::merge_outcomes;
use shop_scraper::errors::ScrapingError;
use shop_scraper::marketplaces::Blibli;
use shop_scraper::marketplaces::MarketplaceScraper;
use shop_scraper::marketplaces::QuerySet;
use shop_scraper::marketplaces::ScraperConfig;
use shop_scraper::marketplaces::Shopee;
use shop_scraper::marketplaces::Tokopedia;
use shop_scraper::price::LocaleProfile;
use shop_scraper::models::Price;
use shop_scraper::models::Product;

fn product(id: usize, name: &str, units: u64, url: &str) -> Product {
    Product {
        id,
        name: String::from(name),
        image_url: None,
        url: String::from(url),
        rating: None,
        price_in_idr: Price { hundredths: units * 100 },
    }
}

#[test]
fn merge_keeps_source_order_and_failures() {
    let reports = vec![
        SourceReport {
            source: String::from("tokopedia"),
            outcome: Ok(vec![
                product(0, "A", 1000, "https://tokopedia.com/a"),
                product(1, "B", 2000, "https://tokopedia.com/b"),
            ]),
        },
        SourceReport {
            source: String::from("shopee"),
            outcome: Err(ScrapingError::FetchError {
                url: String::from("https://shopee.com/search?keyword=laptop"),
            }),
        },
        SourceReport {
            source: String::from("blibli"),
            outcome: Ok(vec![product(0, "C", 3000, "https://blibli.com/c")]),
        },
    ];
    let Collected { products, failures } = merge_outcomes(reports);
    assert_eq!(products.len(), 3);
    assert_eq!(products[0].name, "A");
    assert_eq!(products[1].name, "B");
    assert_eq!(products[2].name, "C");
    assert_eq!(failures.len(), 1);
    assert_eq!(failures[0].source, "shopee");
    assert_eq!(
        failures[0].error,
        ScrapingError::FetchError { url: String::from("https://shopee.com/search?keyword=laptop") }
    );
}

fn tokopedia_card(link: &str, name: &str, price: &str) -> String {
    format!(
        "<div class=\"pcv3__container\">\
           <a class=\"pcv3__info-content\" href=\"{}\">\
             <div class=\"prd_link-product-name\">{}</div>\
             <div class=\"prd_link-product-price\">{}</div>\
           </a>\
         </div>",
        link, name, price
    )
}

#[test]
fn one_failed_fetch_does_not_suppress_other_sources() {
    // Three sources; the second one's fetch failed with a transport error.
    let toko_body = format!(
        "<html><body>{}</body></html>",
        tokopedia_card("https://tokopedia.com/a", "A", "Rp1.000"),
    );
    // Blibli's page has no product cards: a successful, empty source.
    let pages = vec![
        SourcePage {
            source: String::from("tokopedia"),
            config: Tokopedia.config(),
            fetched: Ok(toko_body),
        },
        SourcePage {
            source: String::from("shopee"),
            config: Shopee.config(),
            fetched: Err(ScrapingError::FetchError {
                url: String::from("https://shopee.com/search?keyword=laptop"),
            }),
        },
        SourcePage {
            source: String::from("blibli"),
            config: Blibli.config(),
            fetched: Ok(String::from("<html><body></body></html>")),
        },
    ];
    let Collected { products, failures } = collect_cheap_products(pages);
    assert_eq!(products.len(), 1);
    assert_eq!(products[0].name, "A");
    assert_eq!(failures.len(), 1);
    assert_eq!(failures[0].source, "shopee");
    assert!(matches!(
        failures[0].error,
        ScrapingError::FetchError { .. }
    ));
}

#[test]
fn invalid_configuration_is_recorded_as_a_failure() {
    let broken_config = ScraperConfig {
        url_prefix: String::from("https://example.test/search?q="),
        queries: QuerySet {
            container: String::from(":::"),
            name: String::from("div.name"),
            price: String::from("div.price"),
            rating: String::from("span.rating"),
            image: String::from("img.photo"),
            link: String::from("a.link"),
        },
        locale: LocaleProfile { prefix: String::from("Rp"), thousands_sep: '.', decimal_sep: ',' },
        sponsored_prefixes: vec![String::from("https://ads.example.test")],
    };
    let pages = vec![SourcePage {
        source: String::from("broken"),
        config: broken_config,
        fetched: Ok(String::from("<html><body></body></html>")),
    }];
    let Collected { products, failures } = collect_cheap_products(pages);
    assert!(products.is_empty());
    assert_eq!(failures.len(), 1);
    assert_eq!(failures[0].source, "broken");
    assert_eq!(failures[0].error, ScrapingError::InvalidQuery);
}

#[test]
fn empty_source_set_yields_empty_result() {
    let Collected { products, failures } = collect_cheap_products(Vec::new());
    assert!(products.is_empty());
    assert!(failures.is_empty());
}

#[test]
fn extraction_failure_of_one_source_is_recorded_per_source() {
    // The first source's page is missing a required name element; the
    // second source still contributes its products.
    let broken = "<html><body><div class=\"pcv3__container\">\
          <a class=\"pcv3__info-content\" href=\"https://tokopedia.com/a\">\
            <div class=\"prd_link-product-price\">Rp1.000</div>\
          </a>\
        </div></body></html>";
    let fine = format!(
        "<html><body>{}</body></html>",
        tokopedia_card("https://tokopedia.com/b", "B", "Rp2.000"),
    );
    let pages = vec![
        SourcePage {
            source: String::from("first"),
            config: Tokopedia.config(),
            fetched: Ok(String::from(broken)),
        },
        SourcePage {
            source: String::from("second"),
            config: Tokopedia.config(),
            fetched: Ok(fine),
        },
    ];
    let Collected { products, failures } = collect_cheap_products(pages);
    assert_eq!(products.len(), 1);
    assert_eq!(products[0].name, "B");
    assert_eq!(failures.len(), 1);
    assert_eq!(failures[0].source, "first");
    assert_eq!(failures[0].error, ScrapingError::MissingElement);
}
