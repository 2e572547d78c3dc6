use shop_scraper::errors::ScrapingError;
use shop_scraper::models::Price;
use shop_scraper::models::Rating;
use shop_scraper::price::LocaleProfile;
use shop_scraper::price::parse_price;
use shop_scraper::price::parse_rating;

fn rupiah() -> LocaleProfile {
    LocaleProfile { prefix: String::from("Rp"), thousands_sep: '.', decimal_sep: ',' }
}

#[test]
fn grouped_rupiah_text_parses_exactly() {
    let p = parse_price("Rp1.250.000", &rupiah()).unwrap();
    assert_eq!(p.units(), 1_250_000);
    assert_eq!(p.hundredths, 125_000_000);
    assert_eq!(p, Price::from_units(1_250_000));
    assert_eq!(p, Price { hundredths: 125_000_000 });
}

#[test]
fn plain_digits_parse() {
    let p = parse_price("4500", &rupiah()).unwrap();
    assert_eq!(p.units(), 4500);
}

#[test]
fn decimal_separator_is_honored() {
    let p = parse_price("Rp5.000,75", &rupiah()).unwrap();
    assert_eq!(p.hundredths, 500_075);
    let q = parse_price("Rp5.000,7", &rupiah()).unwrap();
    assert_eq!(q.hundredths, 500_070);
}

#[test]
fn text_without_digits_fails() {
    let r = parse_price("Rp", &rupiah());
    assert_eq!(r, Err(ScrapingError::TextParseError { text: String::from("Rp") }));
    let r2 = parse_price("gratis", &rupiah());
    assert_eq!(r2, Err(ScrapingError::TextParseError { text: String::from("gratis") }));
    let r3 = parse_price("", &rupiah());
    assert!(matches!(r3, Err(ScrapingError::TextParseError { .. })));
}

#[test]
fn malformed_decimal_fails_rather_than_defaulting() {
    // Three fraction digits cannot be represented exactly in hundredths.
    assert!(matches!(
        parse_price("Rp1,234", &rupiah()),
        Err(ScrapingError::TextParseError { .. })
    ));
    // A decimal separator with no integer part is malformed.
    assert!(matches!(
        parse_price(",50", &rupiah()),
        Err(ScrapingError::TextParseError { .. })
    ));
    // Mixed non-digit text is malformed.
    assert!(matches!(
        parse_price("Rp12x4", &rupiah()),
        Err(ScrapingError::TextParseError { .. })
    ));
}

#[test]
fn prefix_occurrences_are_stripped_everywhere() {
    // The prefix is removed wherever it occurs, as a text replacement.
    let p = parse_price("Rp1.000Rp", &rupiah()).unwrap();
    assert_eq!(p.units(), 1000);
}

#[test]
fn huge_values_fail() {
    // 2^64 hundredths do not fit; the normalizer fails instead of wrapping.
    assert!(matches!(
        parse_price("Rp999999999999999999999999", &rupiah()),
        Err(ScrapingError::TextParseError { .. })
    ));
}

#[test]
fn ratings_parse_in_hundredths() {
    assert_eq!(parse_rating("4.5"), Some(Rating { hundredths: 450 }));
    assert_eq!(parse_rating("5"), Some(Rating { hundredths: 500 }));
    assert_eq!(parse_rating("4.75"), Some(Rating { hundredths: 475 }));
    assert_eq!(parse_rating(""), None);
    assert_eq!(parse_rating("4.555"), None);
    assert_eq!(parse_rating("great"), None);
}
