use shop_scraper::dom::compile;
use shop_scraper::errors::ScrapingError;
use shop_scraper::extract::CardStep;
use shop_scraper::extract::RawCard;
use shop_scraper::extract::card_to_product;
use shop_scraper::extract::extract_products_with;
use shop_scraper::marketplaces::MarketplaceScraper;
use shop_scraper::marketplaces::QuerySet;
use shop_scraper::marketplaces::ScraperConfig;
use shop_scraper::marketplaces::Tokopedia;
use shop_scraper::models::Rating;
use shop_scraper::price::LocaleProfile;

fn card(link: &str, name: &str, price: &str, rating: Option<&str>, image: Option<&str>) -> String {
    let rating_html = match rating {
        Some(r) => format!("<span class=\"prd_rating-average-text\">{}</span>", r),
        None => String::new(),
    };
    let image_html = match image {
        Some(src) => format!("<img class=\"css-1q90pod\" src=\"{}\"/>", src),
        None => String::new(),
    };
    format!(
        "<div class=\"pcv3__container\">\
           <a class=\"pcv3__info-content\" href=\"{}\">\
             <div class=\"prd_link-product-name\">{}</div>\
             <div class=\"prd_link-product-price\">{}</div>\
             {}{}\
           </a>\
         </div>",
        link, name, price, rating_html, image_html
    )
}

#[test]
fn valid_query_compiles() {
    assert!(compile("div.pcv3__container").is_ok());
    assert!(compile("a[href]").is_ok());
}

#[test]
fn invalid_query_fails_with_invalid_query() {
    let r = compile(":::");
    assert!(matches!(r, Err(ScrapingError::InvalidQuery)));
    let r2 = compile("div..");
    assert!(matches!(r2, Err(ScrapingError::InvalidQuery)));
}

#[test]
fn sponsored_card_is_skipped_and_order_preserved() {
    let body = format!(
        "<html><body>{}{}{}</body></html>",
        card("https://tokopedia.com/a", "Alpha", "Rp1.000", Some("4.5"), None),
        card("https://ta.tokopedia.com/promo", "Sponsored", "Rp2.000", None, None),
        card("https://tokopedia.com/b", "Beta", "Rp3.000", Some("4.9"), None),
    );
    let products = Tokopedia.extract_products(&body).unwrap();
    assert_eq!(products.len(), 2);
    assert_eq!(products[0].name, "Alpha");
    assert_eq!(products[1].name, "Beta");
    assert_eq!(products[0].id, 0);
    assert_eq!(products[1].id, 1);
    assert_eq!(products[0].url, "https://tokopedia.com/a");
    assert_eq!(products[1].url, "https://tokopedia.com/b");
}

#[test]
fn missing_rating_yields_product_without_rating() {
    let body = format!(
        "<html><body>{}</body></html>",
        card(
            "https://tokopedia.com/a",
            "Alpha",
            "Rp1.250.000",
            None,
            Some("https://img.tokopedia.com/a.jpg")
        ),
    );
    let products = Tokopedia.extract_products(&body).unwrap();
    assert_eq!(products.len(), 1);
    assert_eq!(products[0].rating, None);
    assert_eq!(products[0].name, "Alpha");
    assert_eq!(products[0].price_in_idr.units(), 1_250_000);
    assert_eq!(
        products[0].image_url.as_deref(),
        Some("https://img.tokopedia.com/a.jpg")
    );
}

#[test]
fn missing_name_aborts_whole_extraction() {
    let body = format!(
        "<html><body>{}<div class=\"pcv3__container\">\
           <a class=\"pcv3__info-content\" href=\"https://tokopedia.com/b\">\
             <div class=\"prd_link-product-price\">Rp2.000</div>\
           </a>\
         </div></body></html>",
        card("https://tokopedia.com/a", "Alpha", "Rp1.000", None, None),
    );
    let r = Tokopedia.extract_products(&body);
    assert_eq!(r, Err(ScrapingError::MissingElement));
}

#[test]
fn missing_link_aborts_whole_extraction() {
    let body = "<html><body><div class=\"pcv3__container\">\
          <div class=\"prd_link-product-name\">Alpha</div>\
          <div class=\"prd_link-product-price\">Rp1.000</div>\
        </div></body></html>";
    let r = Tokopedia.extract_products(body);
    assert_eq!(r, Err(ScrapingError::MissingElement));
}

#[test]
fn bad_price_text_aborts_with_the_offending_text() {
    let body = format!(
        "<html><body>{}</body></html>",
        card("https://tokopedia.com/a", "Alpha", "soon", None, None),
    );
    let r = Tokopedia.extract_products(&body);
    assert_eq!(
        r,
        Err(ScrapingError::TextParseError { text: String::from("soon") })
    );
}

#[test]
fn empty_document_yields_empty_list() {
    let products = Tokopedia.extract_products("<html><body></body></html>").unwrap();
    assert_eq!(products.len(), 0);
}

#[test]
fn laptop_query_end_to_end_document() {
    // A fetched page for the query "laptop": two genuine cards and one
    // sponsored card, all with valid name and price text, two with a
    // rating, all with images.
    let url = Tokopedia.search_url("laptop");
    assert_eq!(url, "https://tokopedia.com/search?q=laptop");
    let body = format!(
        "<html><body>{}{}{}</body></html>",
        card(
            "https://tokopedia.com/laptop-a",
            "Laptop A",
            "Rp5.000.000",
            Some("4.5"),
            Some("https://img.tokopedia.com/a.jpg")
        ),
        card(
            "https://ta.tokopedia.com/click",
            "Laptop Ad",
            "Rp1.000.000",
            Some("4.9"),
            Some("https://img.tokopedia.com/ad.jpg")
        ),
        card(
            "https://tokopedia.com/laptop-b",
            "Laptop B",
            "Rp7.500.000",
            None,
            Some("https://img.tokopedia.com/b.jpg")
        ),
    );
    let products = Tokopedia.extract_products(&body).unwrap();
    assert_eq!(products.len(), 2);
    assert_eq!(products[0].name, "Laptop A");
    assert_eq!(products[0].price_in_idr.units(), 5_000_000);
    assert_eq!(products[0].rating, Some(Rating { hundredths: 450 }));
    assert_eq!(
        products[0].image_url.as_deref(),
        Some("https://img.tokopedia.com/a.jpg")
    );
    assert_eq!(products[1].name, "Laptop B");
    assert_eq!(products[1].price_in_idr.units(), 7_500_000);
    assert_eq!(products[1].rating, None);
    assert_eq!(
        products[1].image_url.as_deref(),
        Some("https://img.tokopedia.com/b.jpg")
    );
}

#[test]
fn invalid_configured_query_reports_invalid_query() {
    let cfg = ScraperConfig {
        url_prefix: String::from("https://example.com/search?q="),
        queries: QuerySet {
            container: String::from(":::"),
            name: String::from("div.name"),
            price: String::from("div.price"),
            rating: String::from("span.rating"),
            image: String::from("img.photo"),
            link: String::from("a.link"),
        },
        locale: LocaleProfile { prefix: String::from("Rp"), thousands_sep: '.', decimal_sep: ',' },
        sponsored_prefixes: vec![String::from("https://ads.example.com")],
    };
    let r = extract_products_with("<html></html>", &cfg);
    assert_eq!(r, Err(ScrapingError::InvalidQuery));
}

#[test]
fn card_policy_on_raw_values() {
    let cfg = Tokopedia.config();
    let full = RawCard {
        link: Some(String::from("https://tokopedia.com/x")),
        name: Some(String::from("Thing")),
        price_text: Some(String::from("Rp9.999")),
        rating_text: Some(String::from("bad rating")),
        image_src: None,
    };
    match card_to_product(&full, &cfg, 7) {
        CardStep::Keep(p) => {
            assert_eq!(p.id, 7);
            assert_eq!(p.name, "Thing");
            assert_eq!(p.price_in_idr.units(), 9999);
            // Malformed rating text degrades to an absent rating.
            assert_eq!(p.rating, None);
            assert_eq!(p.image_url, None);
        },
        _ => panic!("expected the card to be kept"),
    }

    let sponsored = RawCard {
        link: Some(String::from("https://ta.tokopedia.com/x")),
        name: Some(String::from("Thing")),
        price_text: Some(String::from("Rp9.999")),
        rating_text: None,
        image_src: None,
    };
    assert!(matches!(card_to_product(&sponsored, &cfg, 0), CardStep::Skip));

    let empty_name = RawCard {
        link: Some(String::from("https://tokopedia.com/x")),
        name: Some(String::new()),
        price_text: Some(String::from("Rp9.999")),
        rating_text: None,
        image_src: None,
    };
    assert!(matches!(
        card_to_product(&empty_name, &cfg, 0),
        CardStep::Fail(ScrapingError::MissingElement)
    ));

    let no_price = RawCard {
        link: Some(String::from("https://tokopedia.com/x")),
        name: Some(String::from("Thing")),
        price_text: None,
        rating_text: None,
        image_src: None,
    };
    assert!(matches!(
        card_to_product(&no_price, &cfg, 0),
        CardStep::Fail(ScrapingError::MissingElement)
    ));
}

#[test]
fn error_messages_name_the_step() {
    assert_eq!(
        ScrapingError::InvalidQuery.message(),
        "Failed to parse a dom selector"
    );
    assert_eq!(
        ScrapingError::MissingElement.message(),
        "A dom element wasn't found"
    );
    assert_eq!(
        ScrapingError::FetchError { url: String::from("https://x.test") }.message(),
        "Failed to get a response at https://x.test"
    );
    assert_eq!(
        ScrapingError::TextParseError { text: String::from("soon") }.message(),
        "Failed to parse a dom element's text node: soon"
    );
    assert_eq!(
        ScrapingError::DecodeError.message(),
        "Failed to decode the response body as text"
    );
}
