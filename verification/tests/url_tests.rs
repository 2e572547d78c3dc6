use shop_scraper::marketplaces::Blibli;
use shop_scraper::marketplaces::Bukalapak;
use shop_scraper::marketplaces::MarketplaceScraper;
use shop_scraper::marketplaces::Shopee;
use shop_scraper::marketplaces::Tokopedia;
use shop_scraper::url::build_search_url;
use shop_scraper::url::encode_query;

#[test]
fn unreserved_text_stays_as_it_is() {
    assert_eq!(encode_query("laptop"), "laptop");
    assert_eq!(encode_query("abc-XYZ_0.9~"), "abc-XYZ_0.9~");
}

#[test]
fn reserved_bytes_are_percent_encoded() {
    assert_eq!(encode_query("gaming laptop"), "gaming%20laptop");
    assert_eq!(encode_query("a&b=c"), "a%26b%3Dc");
    assert_eq!(encode_query("50%"), "50%25");
}

#[test]
fn multibyte_text_is_encoded_per_utf8_byte() {
    assert_eq!(encode_query("caf\u{e9}"), "caf%C3%A9");
}

#[test]
fn search_urls_embed_the_escaped_query() {
    assert_eq!(
        Tokopedia.search_url("gaming laptop"),
        "https://tokopedia.com/search?q=gaming%20laptop"
    );
    assert_eq!(
        Shopee.search_url("laptop"),
        "https://shopee.com/search?keyword=laptop"
    );
    assert_eq!(Blibli.search_url("laptop"), "https://www.blibli.com/cari/laptop");
    assert_eq!(
        Bukalapak.search_url("laptop"),
        "https://www.bukalapak.com/products?search=laptop"
    );
    assert_eq!(
        build_search_url("https://example.test/?q=", "a/b"),
        "https://example.test/?q=a%2Fb"
    );
}
