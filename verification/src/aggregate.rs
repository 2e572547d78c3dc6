//! The scraper registry / aggregator: merging the outcomes of several
//! marketplace extractions into one best-effort product list plus a
//! per-source failure map. One source's failure never suppresses another
//! source's successes.

use vstd::prelude::*;

use crate::dom::cards_of;
use crate::errors::ScrapingError;
use crate::extract::CardFailure;
use crate::extract::extract_products_with;
use crate::extract::extract_spec;
use crate::extract::products_views;
use crate::marketplaces::ScraperConfig;
use crate::marketplaces::spec_queries_ok;
use crate::models::Product;
use crate::models::ProductView;

verus! {

/// One source's input to an aggregation: its identity key, its profile,
/// and the outcome of fetching its search page at the edge (the body, or
/// the fetch/decode failure).
pub struct SourcePage {
    /// The source's identity, the key of the failure map.
    pub source: String,
    pub config: ScraperConfig,
    pub fetched: Result<String, ScrapingError>,
}

/// One source's extraction outcome.
pub struct SourceReport {
    /// The source's identity, the key of the failure map.
    pub source: String,
    pub outcome: Result<Vec<Product>, ScrapingError>,
}

/// One entry of the per-source failure map.
#[derive(Debug, Clone, PartialEq)]
pub struct SourceFailure {
    pub source: String,
    pub error: ScrapingError,
}

/// The aggregated result: the merged product list and the per-source
/// failure map.
pub struct Collected {
    pub products: Vec<Product>,
    pub failures: Vec<SourceFailure>,
}

/// The merged product list of a report sequence: the successful sources'
/// products, in source order, each source's products in document order.
pub open spec fn merged_products(reports: Seq<SourceReport>) -> Seq<Product>
    decreases reports.len(),
{
    if reports.len() == 0 {
        Seq::empty()
    } else {
        merged_products(reports.drop_last()) + (match reports.last().outcome {
            Ok(ps) => ps@,
            Err(_) => Seq::empty(),
        })
    }
}

/// The failure map of a report sequence: one entry per failed source, in
/// source order, keyed by the source and carrying its error.
pub open spec fn merged_failures(reports: Seq<SourceReport>) -> Seq<SourceFailure>
    decreases reports.len(),
{
    if reports.len() == 0 {
        Seq::empty()
    } else {
        merged_failures(reports.drop_last()) + (match reports.last().outcome {
            Ok(_) => Seq::empty(),
            Err(e) => seq![SourceFailure { source: reports.last().source, error: e }],
        })
    }
}

/// Merges per-source outcomes: every successful source contributes its
/// products in order, every failed source contributes exactly one failure
/// entry keyed by it, and neither kind suppresses the other.
pub fn merge_outcomes(reports: Vec<SourceReport>) -> (r: Collected)
    ensures
        r.products@ == merged_products(reports@),
        r.failures@ == merged_failures(reports@),
{
    let ghost all = reports@;
    let total = reports.len();
    let mut reports = reports;
    let mut products: Vec<Product> = Vec::new();
    let mut failures: Vec<SourceFailure> = Vec::new();
    let mut i: usize = 0;
    proof {
        assert(all.take(0) =~= Seq::<SourceReport>::empty());
        assert(all.skip(0) =~= all);
    }
    while reports.len() > 0
        invariant
            total == all.len(),
            i <= all.len(),
            reports@ == all.skip(i as int),
            products@ == merged_products(all.take(i as int)),
            failures@ == merged_failures(all.take(i as int)),
        decreases reports@.len(),
    {
        let rep = reports.remove(0);
        proof {
            assert(rep == all[i as int]);
            assert(all.skip(i as int).remove(0) =~= all.skip(i + 1));
            assert(all.take(i + 1).drop_last() =~= all.take(i as int));
            assert(all.take(i + 1).last() == all[i as int]);
        }
        let ghost old_products = products@;
        let ghost old_failures = failures@;
        match rep.outcome {
            Ok(mut ps) => {
                let ghost psv = ps@;
                products.append(&mut ps);
                proof {
                    assert(products@ =~= old_products + psv);
                    assert(failures@ =~= merged_failures(all.take(i + 1)));
                }
            },
            Err(e) => {
                failures.push(SourceFailure { source: rep.source, error: e });
                proof {
                    assert(failures@ =~= old_failures + seq![
                        SourceFailure { source: all[i as int].source, error: e },
                    ]);
                    assert(products@ =~= merged_products(all.take(i + 1)));
                }
            },
        }
        i = i + 1;
    }
    proof {
        assert(all.take(i as int) =~= all);
    }
    Collected { products, failures }
}

/// Why one source contributed no products: its fetch failed (carrying the
/// edge's own error), its configured queries do not compile, or its page
/// failed the per-card policy.
pub enum PageFailureView {
    Fetch(ScrapingError),
    InvalidQuery,
    MissingElement,
    BadPrice(Seq<char>),
}

/// The outcome one source's page yields: the fetch failure as handed in,
/// or the extraction outcome over the page's cards under the source's
/// profile.
pub open spec fn spec_page_outcome(page: SourcePage) -> Result<Seq<ProductView>, PageFailureView> {
    match page.fetched {
        Err(e) => Err(PageFailureView::Fetch(e)),
        Ok(body) => if !spec_queries_ok(page.config@.queries) {
            Err(PageFailureView::InvalidQuery)
        } else {
            match extract_spec(cards_of(body@, page.config@.queries), page.config@) {
                Ok(ps) => Ok(ps),
                Err(CardFailure::MissingElement) => Err(PageFailureView::MissingElement),
                Err(CardFailure::BadPrice(t)) => Err(PageFailureView::BadPrice(t)),
            }
        },
    }
}

/// One entry of the failure map, at the specification level.
pub struct FailureEntryView {
    pub source: Seq<char>,
    pub failure: PageFailureView,
}

/// The merged product list an aggregation owes: every successful source's
/// products, in source order.
pub open spec fn collected_products(pages: Seq<SourcePage>) -> Seq<ProductView>
    decreases pages.len(),
{
    if pages.len() == 0 {
        Seq::empty()
    } else {
        collected_products(pages.drop_last()) + (match spec_page_outcome(pages.last()) {
            Ok(ps) => ps,
            Err(_) => Seq::empty(),
        })
    }
}

/// The failure map an aggregation owes: one entry per failed source, in
/// source order, keyed by the source.
pub open spec fn collected_failures(pages: Seq<SourcePage>) -> Seq<FailureEntryView>
    decreases pages.len(),
{
    if pages.len() == 0 {
        Seq::empty()
    } else {
        collected_failures(pages.drop_last()) + (match spec_page_outcome(pages.last()) {
            Ok(_) => Seq::empty(),
            Err(f) => seq![
                FailureEntryView { source: pages.last().source@, failure: f },
            ],
        })
    }
}

/// Whether a concrete failure entry says what the specification-level one
/// says.
pub open spec fn failure_matches(sf: SourceFailure, fv: FailureEntryView) -> bool {
    &&& sf.source@ == fv.source
    &&& match fv.failure {
        PageFailureView::Fetch(e) => sf.error == e,
        PageFailureView::InvalidQuery => sf.error == ScrapingError::InvalidQuery,
        PageFailureView::MissingElement => sf.error == ScrapingError::MissingElement,
        PageFailureView::BadPrice(t) => sf.error matches ScrapingError::TextParseError { text }
            && text@ == t,
    }
}

/// Whether one source's report carries exactly its page's outcome.
spec fn report_corresponds(page: SourcePage, rep: SourceReport) -> bool {
    &&& rep.source == page.source
    &&& match spec_page_outcome(page) {
        Ok(ps) => rep.outcome matches Ok(v) && products_views(v@) == ps,
        Err(PageFailureView::Fetch(e)) => rep.outcome == Err::<Vec<Product>, ScrapingError>(e),
        Err(PageFailureView::InvalidQuery) => rep.outcome == Err::<Vec<Product>, ScrapingError>(
            ScrapingError::InvalidQuery,
        ),
        Err(PageFailureView::MissingElement) => rep.outcome == Err::<Vec<Product>, ScrapingError>(
            ScrapingError::MissingElement,
        ),
        Err(PageFailureView::BadPrice(t)) => rep.outcome matches Err(e) && (e
            matches ScrapingError::TextParseError { text } && text@ == t),
    }
}

/// Merging reports that carry exactly the pages' outcomes yields exactly
/// the products and failures the pages owe.
proof fn lemma_corresponding_merge(pages: Seq<SourcePage>, reports: Seq<SourceReport>)
    requires
        pages.len() == reports.len(),
        forall|i: int| 0 <= i < pages.len() ==> report_corresponds(pages[i], #[trigger] reports[i]),
    ensures
        products_views(merged_products(reports)) == collected_products(pages),
        merged_failures(reports).len() == collected_failures(pages).len(),
        forall|i: int|
            0 <= i < merged_failures(reports).len() ==> failure_matches(
                #[trigger] merged_failures(reports)[i],
                collected_failures(pages)[i],
            ),
    decreases pages.len(),
{
    if pages.len() == 0 {
        assert(products_views(merged_products(reports)) =~= collected_products(pages));
    } else {
        let ph = pages.drop_last();
        let rh = reports.drop_last();
        assert forall|i: int| 0 <= i < ph.len() implies report_corresponds(
            ph[i],
            #[trigger] rh[i],
        ) by {
            assert(ph[i] == pages[i] && rh[i] == reports[i]);
        }
        lemma_corresponding_merge(ph, rh);
        assert(report_corresponds(pages.last(), reports.last()));
        let tailp = match reports.last().outcome {
            Ok(ps) => ps@,
            Err(_) => Seq::<Product>::empty(),
        };
        assert(products_views(merged_products(rh) + tailp) =~= products_views(
            merged_products(rh),
        ) + products_views(tailp));
        match spec_page_outcome(pages.last()) {
            Ok(ps) => {
                assert(products_views(tailp) == ps);
                assert(merged_failures(reports) =~= merged_failures(rh));
                assert(collected_failures(pages) =~= collected_failures(ph));
            },
            Err(f) => {
                assert(tailp =~= Seq::<Product>::empty());
                assert(products_views(tailp) =~= Seq::<ProductView>::empty());
                assert(collected_products(pages) =~= collected_products(ph));
                let e = reports.last().outcome->Err_0;
                assert(merged_failures(reports) =~= merged_failures(rh).push(
                    SourceFailure { source: reports.last().source, error: e },
                ));
                assert(collected_failures(pages) =~= collected_failures(ph).push(
                    FailureEntryView { source: pages.last().source@, failure: f },
                ));
                assert(failure_matches(
                    SourceFailure { source: reports.last().source, error: e },
                    FailureEntryView { source: pages.last().source@, failure: f },
                ));
                assert forall|i: int| 0 <= i < merged_failures(reports).len() implies
                    failure_matches(
                    #[trigger] merged_failures(reports)[i],
                    collected_failures(pages)[i],
                ) by {
                    if i < merged_failures(rh).len() {
                        assert(merged_failures(reports)[i] == merged_failures(rh)[i]);
                        assert(collected_failures(pages)[i] == collected_failures(ph)[i]);
                    }
                }
            },
        }
    }
}

/// Collects the cheap-product candidates of every configured source for
/// one query's fetched pages: each source is extracted independently, the
/// successes are merged in source order ([`collected_products`]) and
/// every failure — a failed fetch as much as a failed extraction —
/// becomes exactly one entry of the failure map, keyed by its source
/// ([`collected_failures`]). An empty source set yields an empty product
/// list and an empty failure map.
pub fn collect_cheap_products(pages: Vec<SourcePage>) -> (r: Collected)
    ensures
        products_views(r.products@) == collected_products(pages@),
        r.failures@.len() == collected_failures(pages@).len(),
        forall|i: int|
            0 <= i < r.failures@.len() ==> failure_matches(
                #[trigger] r.failures@[i],
                collected_failures(pages@)[i],
            ),
        pages@.len() == 0 ==> r.products@.len() == 0 && r.failures@.len() == 0,
{
    let ghost all = pages@;
    let total = pages.len();
    let mut pages = pages;
    let mut reports: Vec<SourceReport> = Vec::new();
    let mut i: usize = 0;
    while pages.len() > 0
        invariant
            total == all.len(),
            i <= all.len(),
            pages@ == all.skip(i as int),
            reports@.len() == i,
            forall|j: int| 0 <= j < i ==> report_corresponds(all[j], #[trigger] reports@[j]),
        decreases pages@.len(),
    {
        proof {
            assert(all.skip(i as int).remove(0) =~= all.skip(i + 1));
        }
        let page = pages.remove(0);
        assert(page == all[i as int]);
        let ghost spec_page = page;
        let outcome = match page.fetched {
            Ok(body) => extract_products_with(body.as_str(), &page.config),
            Err(e) => Err(e),
        };
        proof {
            assert(report_corresponds(
                spec_page,
                (SourceReport { source: spec_page.source, outcome: outcome }),
            ));
        }
        reports.push(SourceReport { source: page.source, outcome });
        i = i + 1;
    }
    proof {
        assert(all.skip(i as int).len() == 0);
        assert(i == all.len());
    }
    let r = merge_outcomes(reports);
    proof {
        lemma_corresponding_merge(all, reports@);
        if all.len() == 0 {
            assert(products_views(r.products@) =~= Seq::<ProductView>::empty());
        }
    }
    r
}

/// When exactly one source fails, the failure map has exactly one entry,
/// keyed by that source and carrying its error, and the merged product
/// list is exactly the other sources' products in source order.
pub proof fn lemma_single_failure(reports: Seq<SourceReport>, k: int)
    requires
        0 <= k < reports.len(),
        reports[k].outcome is Err,
        forall|i: int| 0 <= i < reports.len() && i != k ==> (#[trigger] reports[i]).outcome is Ok,
    ensures
        merged_failures(reports).len() == 1,
        merged_failures(reports)[0].source == reports[k].source,
        merged_failures(reports)[0].error == reports[k].outcome->Err_0,
        merged_products(reports) == merged_products(reports.remove(k)),
    decreases reports.len(),
{
    let head = reports.drop_last();
    if k == reports.len() - 1 {
        lemma_all_ok_no_failures(head);
        assert(reports.remove(k) =~= head);
    } else {
        assert forall|i: int|
            0 <= i < head.len() && i != k implies (#[trigger] head[i]).outcome is Ok by {
            assert(head[i] == reports[i]);
        }
        assert(head[k] == reports[k]);
        lemma_single_failure(head, k);
        assert(reports.last().outcome is Ok);
        assert(reports.remove(k).drop_last() =~= head.remove(k));
        assert(reports.remove(k).last() == reports.last());
    }
}

/// A report sequence without failures yields an empty failure map.
pub proof fn lemma_all_ok_no_failures(reports: Seq<SourceReport>)
    requires
        forall|i: int| 0 <= i < reports.len() ==> (#[trigger] reports[i]).outcome is Ok,
    ensures
        merged_failures(reports).len() == 0,
    decreases reports.len(),
{
    if reports.len() > 0 {
        let head = reports.drop_last();
        assert forall|i: int| 0 <= i < head.len() implies (#[trigger] head[i]).outcome is Ok by {
            assert(head[i] == reports[i]);
        }
        lemma_all_ok_no_failures(head);
        assert(merged_failures(reports) =~= merged_failures(head));
    }
}

} // verus!
