//! The normalized data model shared by all marketplace scrapers.

use vstd::prelude::*;

verus! {

/// A price in the marketplace's local currency, kept exact as a whole number
/// of hundredths of one currency unit (so `Rp1.250.000` is stored as
/// `125_000_000` hundredths).
#[derive(Clone, Copy, Debug, PartialEq, Eq, Structural)]
pub struct Price {
    /// The amount in hundredths of one currency unit.
    pub hundredths: u64,
}

impl Price {
    /// Builds a price from a whole number of currency units.
    pub fn from_units(units: u64) -> (p: Price)
        requires
            units <= u64::MAX / 100,
        ensures
            p.hundredths == units * 100,
    {
        Price { hundredths: units * 100 }
    }

    /// The whole-unit part of the price, fractional hundredths discarded.
    pub fn units(&self) -> (u: u64)
        ensures
            u == self.hundredths / 100,
    {
        self.hundredths / 100
    }
}

/// A listing rating, kept exact as a whole number of hundredths
/// (so a rating shown as `4.5` is stored as `450`).
#[derive(Clone, Copy, Debug, PartialEq, Eq, Structural)]
pub struct Rating {
    /// The rating value in hundredths.
    pub hundredths: u64,
}

/// One normalized extraction result: a product listing with its required
/// fields populated and its optional fields possibly absent.
#[derive(Debug, Clone, PartialEq)]
pub struct Product {
    /// Synthesized identifier: the product's position in the extracted
    /// list. Not unique across marketplaces; callers needing global
    /// uniqueness combine it with the source tag.
    pub id: usize,
    /// Non-empty display text.
    pub name: String,
    /// Image URL, if the card carried one.
    pub image_url: Option<String>,
    /// The listing URL; the identity key of the record.
    pub url: String,
    /// Rating, if the card carried a readable one.
    pub rating: Option<Rating>,
    /// The price parsed from the marketplace's formatted text.
    pub price_in_idr: Price,
}

/// The mathematical content of a [`Product`]: plain sequences and numbers.
pub struct ProductView {
    pub id: int,
    pub name: Seq<char>,
    pub image_url: Option<Seq<char>>,
    pub url: Seq<char>,
    /// Rating in hundredths.
    pub rating: Option<int>,
    /// Price in hundredths of one currency unit.
    pub price_in_idr: int,
}

impl View for Product {
    type V = ProductView;

    open spec fn view(&self) -> ProductView {
        ProductView {
            id: self.id as int,
            name: self.name@,
            image_url: match self.image_url {
                Some(u) => Some(u@),
                None => None,
            },
            url: self.url@,
            rating: match self.rating {
                Some(r) => Some(r.hundredths as int),
                None => None,
            },
            price_in_idr: self.price_in_idr.hundredths as int,
        }
    }
}

} // verus!
