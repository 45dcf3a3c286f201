//! One search: a result per TLD (availability and prices), the counts over
//! the results, the RDAP answer's meaning, and the price a result is
//! sorted by.
use vstd::prelude::*;
use crate::config::weighted;
use crate::pricing::{
    best_preferred, get_best_preferred, get_prices, prices_for, BestEntry, BestEntryView,
    PriceEntry, PriceEntryView, PricingDb,
};
use crate::table::StrMap;
use crate::config::adjusted_price;

verus! {

/// What a search found for one domain.
pub struct DomainResult {
    pub domain: String,
    pub tld: String,
    pub available: Option<bool>,
    pub prices: Vec<PriceEntry>,
    pub price_map: StrMap<PriceEntry>,
    pub best: Option<BestEntry>,
}

/// Counts over a search's results.
pub struct SearchStats {
    pub total: usize,
    pub available: usize,
    pub taken: usize,
    pub unknown: usize,
}

impl Default for SearchStats {
    fn default() -> (s: SearchStats)
        ensures
            s.total == 0 && s.available == 0 && s.taken == 0 && s.unknown == 0,
    {
        SearchStats { total: 0, available: 0, taken: 0, unknown: 0 }
    }
}

/// The full domain searched for a name and a TLD: `name.tld`.
pub open spec fn domain_of(query: Seq<char>, tld: Seq<char>) -> Seq<char> {
    query + seq!['.'] + tld
}

/// The full domain for a name and a TLD.
pub fn domain_name(query: &str, tld: &str) -> (d: String)
    ensures
        d@ == domain_of(query@, tld@),
{
    let mut d = query.to_owned();
    crate::text::push_char(&mut d, '.');
    d.append(tld);
    assert(d@ =~= domain_of(query@, tld@));
    d
}

/// The RDAP lookup address of a domain.
pub fn rdap_url(domain: &str) -> (u: String)
    ensures
        u@ == "https://rdap.org/domain/"@ + domain@,
{
    let mut u = String::from_str("https://rdap.org/domain/");
    u.append(domain);
    u
}

/// What an RDAP HTTP status says of a domain: 404 means it is free, 200
/// and 410 that it is taken; any other status says nothing.
pub open spec fn availability_of(status: u16) -> Option<bool> {
    if status == 404 {
        Some(true)
    } else if status == 200 || status == 410 {
        Some(false)
    } else {
        None
    }
}

/// Reads an RDAP HTTP status as availability.
pub fn availability_from_status(status: u16) -> (r: Option<bool>)
    ensures
        r == availability_of(status),
{
    match status {
        404 => Some(true),
        200 => Some(false),
        410 => Some(false),
        _ => None,
    }
}

/// The entries by slug, a later entry replacing an earlier one of the
/// same slug.
pub open spec fn slug_table(prices: Seq<PriceEntryView>) -> Map<Seq<char>, PriceEntryView>
    decreases prices.len(),
{
    if prices.len() == 0 {
        Map::empty()
    } else {
        slug_table(prices.drop_last()).insert(prices.last().slug, prices.last())
    }
}

/// The deep views of a sequence of entries.
pub open spec fn entry_views(s: Seq<PriceEntry>) -> Seq<PriceEntryView> {
    s.map_values(|e: PriceEntry| e.deep_view())
}

/// The result for `query` at `tld`, given what the availability check
/// answered: the tracked prices, the same by slug, and the best offer.
pub fn build_result(query: &str, tld: &str, available: Option<bool>, db: &PricingDb) -> (r:
    DomainResult)
    ensures
        r.domain@ == domain_of(query@, tld@),
        r.tld@ == tld@,
        r.available == available,
        r.prices.deep_view() == prices_for(*db, tld@),
        r.price_map.contents() == slug_table(prices_for(*db, tld@)),
        match r.best {
            Some(b) => best_preferred(*db, tld@) == Some(b.deep_view()),
            None => best_preferred(*db, tld@) is None,
        },
{
    let domain = domain_name(query, tld);
    let src = get_prices(db, tld);
    let ghost pv = entry_views(src@);
    let mut prices: Vec<PriceEntry> = Vec::new();
    let mut price_map: StrMap<PriceEntry> = StrMap::new();
    let n = src.len();
    let mut i: usize = 0;
    while i < n
        invariant
            n == src@.len(),
            pv == entry_views(src@),
            i <= n,
            prices.deep_view() == pv.subrange(0, i as int),
            price_map.contents() == slug_table(pv.subrange(0, i as int)),
        decreases n - i,
    {
        let e = &src[i];
        prices.push(e.duplicate());
        price_map.insert(e.registrar_slug.clone(), e.duplicate());
        proof {
            let s = pv.subrange(0, i + 1);
            assert(s.drop_last() =~= pv.subrange(0, i as int));
            assert(s.last() == e.deep_view());
        }
        i = i + 1;
        assert(prices.deep_view() =~= pv.subrange(0, i as int));
    }
    assert(pv.subrange(0, n as int) =~= pv);
    let best = get_best_preferred(db, tld);
    DomainResult { domain, tld: tld.to_owned(), available, prices, price_map, best }
}

/// How many results have availability `v`.
pub open spec fn count_with(results: Seq<DomainResult>, v: Option<bool>) -> nat
    decreases results.len(),
{
    if results.len() == 0 {
        0
    } else {
        count_with(results.drop_last(), v) + if results.last().available == v {
            1nat
        } else {
            0nat
        }
    }
}

/// Every result is counted under exactly one of the three answers.
pub proof fn lemma_counts_partition(results: Seq<DomainResult>)
    ensures
        count_with(results, Some(true)) + count_with(results, Some(false)) + count_with(
            results,
            None,
        ) == results.len(),
    decreases results.len(),
{
    if results.len() > 0 {
        lemma_counts_partition(results.drop_last());
        match results.last().available {
            Some(true) => {},
            Some(false) => {},
            None => {},
        }
    }
}

/// Counts the results: all of them, and those free, taken and unknown.
pub fn compute_stats(results: &Vec<DomainResult>) -> (s: SearchStats)
    ensures
        s.total == results@.len(),
        s.available == count_with(results@, Some(true)),
        s.taken == count_with(results@, Some(false)),
        s.unknown == count_with(results@, None),
        s.available + s.taken + s.unknown == s.total,
{
    let mut s = SearchStats::default();
    let n = results.len();
    let mut i: usize = 0;
    while i < n
        invariant
            n == results@.len(),
            i <= n,
            s.total == i,
            s.available == count_with(results@.subrange(0, i as int), Some(true)),
            s.taken == count_with(results@.subrange(0, i as int), Some(false)),
            s.unknown == count_with(results@.subrange(0, i as int), None),
        decreases n - i,
    {
        proof {
            let t = results@.subrange(0, i + 1);
            assert(t.drop_last() =~= results@.subrange(0, i as int));
            lemma_counts_partition(results@.subrange(0, i as int));
        }
        s.total = s.total + 1;
        match results[i].available {
            Some(true) => s.available = s.available + 1,
            Some(false) => s.taken = s.taken + 1,
            None => s.unknown = s.unknown + 1,
        }
        i = i + 1;
    }
    assert(results@.subrange(0, n as int) =~= results@);
    proof {
        lemma_counts_partition(results@);
    }
    s
}

/// The least registration price among entries, if any has one.
pub open spec fn min_register(prices: Seq<PriceEntryView>) -> Option<nat>
    decreases prices.len(),
{
    if prices.len() == 0 {
        None
    } else {
        let rest = min_register(prices.drop_last());
        match prices.last().register {
            None => rest,
            Some(p) => match rest {
                None => Some(p as nat),
                Some(m) => Some(if p < m {
                    p as nat
                } else {
                    m
                }),
            },
        }
    }
}

/// The least registration price is one of the entries' registration
/// prices and is no greater than any of them; there is none exactly when no
/// entry has a registration price.
pub proof fn lemma_min_register_is_least(prices: Seq<PriceEntryView>)
    ensures
        min_register(prices) is None <==> forall|j: int|
            0 <= j < prices.len() ==> (#[trigger] prices[j]).register is None,
        min_register(prices) matches Some(m) ==> (exists|i: int|
            0 <= i < prices.len() && prices[i].register == Some(m as u64)) && forall|j: int|
            0 <= j < prices.len() && (#[trigger] prices[j]).register is Some ==> m
                <= prices[j].register->0,
    decreases prices.len(),
{
    if prices.len() > 0 {
        let rest = prices.drop_last();
        lemma_min_register_is_least(rest);
        let last = prices.len() - 1;
        assert forall|j: int| 0 <= j < rest.len() implies rest[j] == prices[j] by {}
        match min_register(rest) {
            Some(m0) => {
                let i0 = choose|i: int| 0 <= i < rest.len() && rest[i].register == Some(m0 as u64);
                assert(prices[i0] == rest[i0]);
            },
            None => {},
        }
        if min_register(prices) is None {
            assert forall|j: int| 0 <= j < prices.len() implies (#[trigger] prices[j]).register
                is None by {
                if j < last {
                    assert(rest[j] == prices[j]);
                }
            }
        }
        assert forall|j: int|
            0 <= j < prices.len() && (#[trigger] prices[j]).register is Some implies min_register(
            prices,
        )->0 <= prices[j].register->0 by {
            if j < last {
                assert(rest[j] == prices[j]);
            }
        }
    }
}

/// Without a priced best offer, a result sorts by its cheapest tracked
/// registration price (times 100, hundredths of a cent): the price of one
/// of its entries that no entry undercuts; with no registration price at
/// all it has no sort price.
pub proof fn lemma_fallback_sort_price_is_cheapest(
    best: Option<BestEntryView>,
    prices: Seq<PriceEntryView>,
)
    requires
        !(best is Some && best->0.price is Some),
    ensures
        sort_price(best, prices) is None <==> forall|j: int|
            0 <= j < prices.len() ==> (#[trigger] prices[j]).register is None,
        sort_price(best, prices) matches Some(x) ==> exists|i: int|
            0 <= i < prices.len() && prices[i].register is Some && x == prices[i].register->0 * 100
                && forall|j: int|
                0 <= j < prices.len() && (#[trigger] prices[j]).register is Some
                    ==> prices[i].register->0 <= prices[j].register->0,
{
    lemma_min_register_is_least(prices);
    match min_register(prices) {
        Some(m) => {
            let i = choose|i: int| 0 <= i < prices.len() && prices[i].register == Some(m as u64);
            assert(prices[i].register is Some && sort_price(best, prices)->0
                == prices[i].register->0 * 100);
        },
        None => {},
    }
}

/// With a priced best offer, a result sorts by that raw price in
/// hundredths of a cent, 5% less for a preferred registrar.
pub proof fn lemma_sort_price_of_best_offer(b: BestEntryView, prices: Seq<PriceEntryView>)
    requires
        b.price is Some,
    ensures
        crate::config::preferred(b.slug) ==> sort_price(Some(b), prices) == Some(
            (b.price->0 * 95) as nat,
        ),
        !crate::config::preferred(b.slug) ==> sort_price(Some(b), prices) == Some(
            (b.price->0 * 100) as nat,
        ),
{
}

/// The price a result is sorted by, in hundredths of a cent: the best
/// offer's price weighted by preference, or, without a priced best offer,
/// the cheapest tracked registration price.
pub open spec fn sort_price(best: Option<BestEntryView>, prices: Seq<PriceEntryView>) -> Option<
    nat,
> {
    if best is Some && best->0.price is Some {
        Some(weighted(best->0.price->0 as nat, best->0.slug))
    } else {
        match min_register(prices) {
            Some(m) => Some(m * 100),
            None => None,
        }
    }
}

/// The view of an optional best entry.
pub open spec fn best_view(b: Option<BestEntry>) -> Option<BestEntryView> {
    match b {
        Some(e) => Some(e.deep_view()),
        None => None,
    }
}

/// The preference-weighted price of a result (used for sorting), in
/// hundredths of a cent.
pub fn best_price(entry: &DomainResult) -> (r: Option<u128>)
    ensures
        match r {
            Some(p) => sort_price(best_view(entry.best), entry.prices.deep_view()) == Some(p as nat),
            None => sort_price(best_view(entry.best), entry.prices.deep_view()) is None,
        },
{
    match &entry.best {
        Some(b) => match b.price {
            Some(p) => {
                return Some(adjusted_price(p, b.slug.as_str()));
            },
            None => {},
        },
        None => {},
    }
    let ghost pv = entry.prices.deep_view();
    let n = entry.prices.len();
    let mut m: Option<u64> = None;
    let mut i: usize = 0;
    while i < n
        invariant
            n == entry.prices@.len(),
            pv == entry.prices.deep_view(),
            i <= n,
            match m {
                Some(x) => min_register(pv.subrange(0, i as int)) == Some(x as nat),
                None => min_register(pv.subrange(0, i as int)) is None,
            },
        decreases n - i,
    {
        proof {
            let t = pv.subrange(0, i + 1);
            assert(t.drop_last() =~= pv.subrange(0, i as int));
            assert(t.last() == entry.prices@[i as int].deep_view());
        }
        match entry.prices[i].register {
            Some(p) => {
                m = match m {
                    None => Some(p),
                    Some(x) => Some(if p < x {
                        p
                    } else {
                        x
                    }),
                };
            },
            None => {},
        }
        i = i + 1;
    }
    assert(pv.subrange(0, n as int) =~= pv);
    match m {
        Some(x) => Some((x as u128) * 100),
        None => None,
    }
}

/// The text shown in the status column for an availability answer.
pub fn status_symbol(available: Option<bool>) -> (s: &'static str)
    ensures
        s@ == match available {
            Some(true) => "✓ FREE"@,
            Some(false) => "✗ TAKEN"@,
            None => "? UNKNOWN"@,
        },
{
    match available {
        Some(true) => "✓ FREE",
        Some(false) => "✗ TAKEN",
        None => "? UNKNOWN",
    }
}

} // verus!
