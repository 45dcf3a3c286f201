//! Registrar prices per TLD: the published price data, the lookup tables
//! built from it, the choice of the "best" registrar with preference
//! weighting, and the texts shown for prices and their age.
//!
//! Prices are whole US cents.
use vstd::prelude::*;
use crate::config::{adjusted_price, is_preferred, weighted, CACHE_TTL_HOURS};
use crate::table::StrMap;
use vstd::utf8::is_ascii_chars;
use crate::text::{ascii_lower, lemma_lowercased_idempotent, decimal, decimal2, lowercased, push_char, push_decimal, push_decimal2, to_lowercase};

verus! {

// ── Published price matrix (per registrar) ──
/// The published per-registrar price matrix.
pub struct PriceMatrixData {
    pub rows: Vec<PriceMatrixRow>,
}

/// One TLD of the price matrix.
pub struct PriceMatrixRow {
    pub tld: String,
    pub cells: Vec<RegistrarCell>,
}

/// One registrar's prices for a TLD, in cents.
pub struct RegistrarCell {
    pub registrar_slug: String,
    pub registrar_name: String,
    pub register_usd: Option<u64>,
    pub renew_usd: Option<u64>,
    pub transfer_usd: Option<u64>,
    pub captured_at: Option<String>,
}

// ── Published price index (cheapest registrar of all) ──
/// The published index of the cheapest registrar per TLD.
pub struct PriceIndexData {
    pub rows: Vec<PriceIndexRow>,
}

/// One TLD of the price index.
pub struct PriceIndexRow {
    pub tld: String,
    pub register: Option<PriceIndexEntry>,
    pub renew: Option<PriceIndexEntry>,
}

/// The cheapest registrar for one operation, with its price in cents.
pub struct PriceIndexEntry {
    pub slug: String,
    pub name: String,
    pub usd: Option<u64>,
}

// ── Tables built from the published data ──
/// A tracked registrar's prices for one TLD, in cents.
pub struct PriceEntry {
    pub registrar_slug: String,
    pub registrar_name: String,
    pub register: Option<u64>,
    pub renew: Option<u64>,
    pub transfer: Option<u64>,
}

/// The registrar shown as the best offer for a TLD, with its price in cents.
pub struct BestEntry {
    pub slug: String,
    pub name: String,
    pub price: Option<u64>,
}

/// The mathematical value of a `PriceEntry`.
pub struct PriceEntryView {
    pub slug: Seq<char>,
    pub name: Seq<char>,
    pub register: Option<u64>,
    pub renew: Option<u64>,
    pub transfer: Option<u64>,
}

/// The mathematical value of a `BestEntry`.
pub struct BestEntryView {
    pub slug: Seq<char>,
    pub name: Seq<char>,
    pub price: Option<u64>,
}

impl DeepView for PriceEntry {
    type V = PriceEntryView;

    open spec fn deep_view(&self) -> PriceEntryView {
        PriceEntryView {
            slug: self.registrar_slug@,
            name: self.registrar_name@,
            register: self.register,
            renew: self.renew,
            transfer: self.transfer,
        }
    }
}

impl DeepView for BestEntry {
    type V = BestEntryView;

    open spec fn deep_view(&self) -> BestEntryView {
        BestEntryView { slug: self.slug@, name: self.name@, price: self.price }
    }
}

impl PriceEntry {
    /// A copy of this entry.
    pub fn duplicate(&self) -> (r: PriceEntry)
        ensures
            r.deep_view() == self.deep_view(),
    {
        PriceEntry {
            registrar_slug: self.registrar_slug.clone(),
            registrar_name: self.registrar_name.clone(),
            register: self.register,
            renew: self.renew,
            transfer: self.transfer,
        }
    }
}

impl BestEntry {
    /// A copy of this entry.
    pub fn duplicate(&self) -> (r: BestEntry)
        ensures
            r.deep_view() == self.deep_view(),
    {
        BestEntry { slug: self.slug.clone(), name: self.name.clone(), price: self.price }
    }
}

/// The price tables: the tracked registrars' prices and the best offer,
/// each by lowercased TLD, and when the data was fetched (nanoseconds
/// since the Unix epoch).
pub struct PricingDb {
    pub by_tld: StrMap<Vec<PriceEntry>>,
    pub best_by_tld: StrMap<BestEntry>,
    pub fetched_at: u128,
}

/// A cell is kept when it has a registration or a renewal price.
pub open spec fn cell_kept(c: RegistrarCell) -> bool {
    c.register_usd is Some || c.renew_usd is Some
}

/// The entry made from a cell.
pub open spec fn cell_entry(c: RegistrarCell) -> PriceEntryView {
    PriceEntryView {
        slug: c.registrar_slug@,
        name: c.registrar_name@,
        register: c.register_usd,
        renew: c.renew_usd,
        transfer: c.transfer_usd,
    }
}

/// The entries of the kept cells of a row, in order.
pub open spec fn row_entries(cells: Seq<RegistrarCell>) -> Seq<PriceEntryView>
    decreases cells.len(),
{
    if cells.len() == 0 {
        Seq::empty()
    } else if cell_kept(cells.last()) {
        row_entries(cells.drop_last()).push(cell_entry(cells.last()))
    } else {
        row_entries(cells.drop_last())
    }
}

/// The matrix table: each row's entries under its lowercased TLD, a later
/// row replacing an earlier one of the same TLD.
pub open spec fn matrix_table(rows: Seq<PriceMatrixRow>) -> Map<Seq<char>, Seq<PriceEntryView>>
    decreases rows.len(),
{
    if rows.len() == 0 {
        Map::empty()
    } else {
        matrix_table(rows.drop_last()).insert(
            lowercased(rows.last().tld@),
            row_entries(rows.last().cells@),
        )
    }
}

/// The best entry that an index row gives: its registration champion,
/// or empty names and no price where it has none.
pub open spec fn index_best(row: PriceIndexRow) -> BestEntryView {
    match row.register {
        Some(e) => BestEntryView { slug: e.slug@, name: e.name@, price: e.usd },
        None => BestEntryView { slug: Seq::empty(), name: Seq::empty(), price: None },
    }
}

/// The index table: each row's best entry under its lowercased TLD, a
/// later row replacing an earlier one of the same TLD.
pub open spec fn index_table(rows: Seq<PriceIndexRow>) -> Map<Seq<char>, BestEntryView>
    decreases rows.len(),
{
    if rows.len() == 0 {
        Map::empty()
    } else {
        index_table(rows.drop_last()).insert(lowercased(rows.last().tld@), index_best(rows.last()))
    }
}

fn row_prices(cells: &Vec<RegistrarCell>) -> (v: Vec<PriceEntry>)
    ensures
        v.deep_view() == row_entries(cells@),
{
    let mut v: Vec<PriceEntry> = Vec::new();
    let n = cells.len();
    let mut i: usize = 0;
    while i < n
        invariant
            n == cells@.len(),
            i <= n,
            v.deep_view() == row_entries(cells@.subrange(0, i as int)),
        decreases n - i,
    {
        let c = &cells[i];
        proof {
            assert(cells@.subrange(0, i + 1).drop_last() =~= cells@.subrange(0, i as int));
            assert(cells@.subrange(0, i + 1).last() == cells@[i as int]);
        }
        if c.register_usd.is_some() || c.renew_usd.is_some() {
            let e = PriceEntry {
                registrar_slug: c.registrar_slug.clone(),
                registrar_name: c.registrar_name.clone(),
                register: c.register_usd,
                renew: c.renew_usd,
                transfer: c.transfer_usd,
            };
            v.push(e);
        }
        i = i + 1;
        assert(v.deep_view() =~= row_entries(cells@.subrange(0, i as int)));
    }
    assert(cells@.subrange(0, n as int) =~= cells@);
    v
}

fn index_entry_of(row: &PriceIndexRow) -> (b: BestEntry)
    ensures
        b.deep_view() == index_best(*row),
{
    match &row.register {
        Some(e) => BestEntry { slug: e.slug.clone(), name: e.name.clone(), price: e.usd },
        None => BestEntry { slug: String::new(), name: String::new(), price: None },
    }
}

/// Builds the price tables from the published matrix and (optional) index.
#[verifier::rlimit(40)]
pub fn build_db(matrix: PriceMatrixData, index: Option<PriceIndexData>, fetched_at: u128) -> (db:
    PricingDb)
    ensures
        db.by_tld.contents() == matrix_table(matrix.rows@),
        db.best_by_tld.contents() == match index {
            Some(ix) => index_table(ix.rows@),
            None => Map::empty(),
        },
        db.fetched_at == fetched_at,
{
    let mut by_tld: StrMap<Vec<PriceEntry>> = StrMap::new();
    let n = matrix.rows.len();
    let mut i: usize = 0;
    while i < n
        invariant
            n == matrix.rows@.len(),
            i <= n,
            by_tld.contents() == matrix_table(matrix.rows@.subrange(0, i as int)),
        decreases n - i,
    {
        let row = &matrix.rows[i];
        let entries = row_prices(&row.cells);
        let key = to_lowercase(row.tld.as_str());
        by_tld.insert(key, entries);
        proof {
            let s = matrix.rows@.subrange(0, i + 1);
            assert(s.drop_last() =~= matrix.rows@.subrange(0, i as int));
            assert(s.last() == matrix.rows@[i as int]);
        }
        i = i + 1;
    }
    assert(matrix.rows@.subrange(0, n as int) =~= matrix.rows@);
    let mut best_by_tld: StrMap<BestEntry> = StrMap::new();
    match &index {
        Some(ix) => {
            let m = ix.rows.len();
            let mut j: usize = 0;
            while j < m
                invariant
                    m == ix.rows@.len(),
                    j <= m,
                    best_by_tld.contents() == index_table(ix.rows@.subrange(0, j as int)),
                decreases m - j,
            {
                let row = &ix.rows[j];
                let entry = index_entry_of(row);
                let key = to_lowercase(row.tld.as_str());
                best_by_tld.insert(key, entry);
                proof {
                    let s = ix.rows@.subrange(0, j + 1);
                    assert(s.drop_last() =~= ix.rows@.subrange(0, j as int));
                    assert(s.last() == ix.rows@[j as int]);
                }
                j = j + 1;
            }
            assert(ix.rows@.subrange(0, m as int) =~= ix.rows@);
        },
        None => {},
    }
    PricingDb { by_tld, best_by_tld, fetched_at }
}

/// The tracked registrars' entries for a TLD, looked up by its lowercased
/// form; none when the table has no such TLD.
pub open spec fn prices_for(db: PricingDb, tld: Seq<char>) -> Seq<PriceEntryView> {
    let key = lowercased(tld);
    if db.by_tld.contents().contains_key(key) {
        db.by_tld.contents()[key]
    } else {
        Seq::empty()
    }
}

/// The index's best entry for a TLD, looked up by its lowercased form.
pub open spec fn best_for(db: PricingDb, tld: Seq<char>) -> Option<BestEntryView> {
    let key = lowercased(tld);
    if db.best_by_tld.contents().contains_key(key) {
        Some(db.best_by_tld.contents()[key])
    } else {
        None
    }
}

/// The tracked registrars' prices for `tld` (case-insensitive).
pub fn get_prices<'a>(db: &'a PricingDb, tld: &str) -> (r: &'a [PriceEntry])
    ensures
        r@.map_values(|e: PriceEntry| e.deep_view()) == prices_for(*db, tld@),
{
    let key = to_lowercase(tld);
    match db.by_tld.get(key.as_str()) {
        Some(v) => {
            let s = v.as_slice();
            assert(s@.map_values(|e: PriceEntry| e.deep_view()) =~= v.deep_view());
            s
        },
        None => {
            let s: &[PriceEntry] = &[];
            assert(s@.map_values(|e: PriceEntry| e.deep_view()) =~= Seq::<PriceEntryView>::empty());
            s
        },
    }
}

/// The index's best entry for `tld` (case-insensitive).
pub fn get_best<'a>(db: &'a PricingDb, tld: &str) -> (r: Option<&'a BestEntry>)
    ensures
        match r {
            Some(b) => best_for(*db, tld@) == Some(b.deep_view()),
            None => best_for(*db, tld@) is None,
        },
{
    let key = to_lowercase(tld);
    db.best_by_tld.get(key.as_str())
}


/// A candidate for the best offer: slug, name and raw price in cents.
pub type Candidate = (Seq<char>, Seq<char>, u64);

/// The preferred tracked registrars that have a registration price, as
/// candidates, in table order.
pub open spec fn preferred_candidates(prices: Seq<PriceEntryView>) -> Seq<Candidate>
    decreases prices.len(),
{
    if prices.len() == 0 {
        Seq::empty()
    } else {
        let rest = preferred_candidates(prices.drop_last());
        let e = prices.last();
        if e.register is Some && crate::config::preferred(e.slug) {
            rest.push((e.slug, e.name, e.register->0))
        } else {
            rest
        }
    }
}

/// A candidate's price weighted by preference.
pub open spec fn candidate_weight(c: Candidate) -> nat {
    weighted(c.2 as nat, c.0)
}

/// `i` is the first position of a smallest weighted price in `cs`.
pub open spec fn is_first_min(cs: Seq<Candidate>, i: int) -> bool {
    &&& 0 <= i < cs.len()
    &&& forall|j: int| 0 <= j < cs.len() ==> candidate_weight(cs[i]) <= candidate_weight(cs[j])
    &&& forall|j: int| 0 <= j < i ==> candidate_weight(cs[j]) > candidate_weight(cs[i])
}

/// The candidates for a TLD's best offer: the index champion first, when
/// it has a price, then the preferred tracked registrars with a
/// registration price.
pub open spec fn best_candidates(db: PricingDb, tld: Seq<char>) -> Option<Seq<Candidate>> {
    match best_for(db, tld) {
        Some(b) => match b.price {
            Some(p) => Some(seq![(b.slug, b.name, p)] + preferred_candidates(prices_for(db, tld))),
            None => None,
        },
        None => None,
    }
}

/// The best offer after preference weighting: the first candidate with the
/// smallest weighted price, shown with its raw price.
pub open spec fn best_preferred(db: PricingDb, tld: Seq<char>) -> Option<BestEntryView> {
    match best_candidates(db, tld) {
        Some(cs) => {
            let i = choose|i: int| is_first_min(cs, i);
            Some(BestEntryView { slug: cs[i].0, name: cs[i].1, price: Some(cs[i].2) })
        },
        None => None,
    }
}

/// There is one first position of a minimum.
pub proof fn lemma_first_min_unique(cs: Seq<Candidate>, i: int, j: int)
    requires
        is_first_min(cs, i),
        is_first_min(cs, j),
    ensures
        i == j,
{
    if i < j {
        assert(candidate_weight(cs[i]) > candidate_weight(cs[j]));
        assert(candidate_weight(cs[i]) <= candidate_weight(cs[j]));
    } else if j < i {
        assert(candidate_weight(cs[j]) > candidate_weight(cs[i]));
        assert(candidate_weight(cs[j]) <= candidate_weight(cs[i]));
    }
}

/// A non-empty list of candidates has a first position of a minimum.
#[verifier::rlimit(40)]
pub proof fn lemma_first_min_exists(cs: Seq<Candidate>)
    requires
        cs.len() > 0,
    ensures
        exists|i: int| is_first_min(cs, i),
    decreases cs.len(),
{
    if cs.len() == 1 {
        assert(is_first_min(cs, 0));
    } else {
        let rest = cs.drop_last();
        lemma_first_min_exists(rest);
        let i = choose|i: int| is_first_min(rest, i);
        let last = cs.len() - 1;
        if candidate_weight(cs[last]) < candidate_weight(cs[i]) {
            assert forall|j: int| 0 <= j < cs.len() implies candidate_weight(cs[last])
                <= candidate_weight(cs[j]) by {
                if j < last {
                    assert(rest[j] == cs[j]);
                }
            }
            assert forall|j: int| 0 <= j < last implies candidate_weight(cs[j]) > candidate_weight(
                cs[last],
            ) by {
                assert(rest[j] == cs[j]);
            }
            assert(is_first_min(cs, last));
        } else {
            assert forall|j: int| 0 <= j < cs.len() implies candidate_weight(cs[i])
                <= candidate_weight(cs[j]) by {
                if j < last {
                    assert(rest[j] == cs[j]);
                }
            }
            assert forall|j: int| 0 <= j < i implies candidate_weight(cs[j]) > candidate_weight(
                cs[i],
            ) by {
                assert(rest[j] == cs[j]);
            }
            assert(is_first_min(cs, i));
        }
    }
}

/// Every candidate comes from a preferred tracked entry with that
/// registration price.
pub proof fn lemma_candidate_source(prices: Seq<PriceEntryView>, k: int)
    requires
        0 <= k < preferred_candidates(prices).len(),
    ensures
        exists|j: int|
            0 <= j < prices.len() && prices[j].register == Some(preferred_candidates(prices)[k].2)
                && prices[j].slug == preferred_candidates(prices)[k].0 && crate::config::preferred(
                prices[j].slug,
            ),
    decreases prices.len(),
{
    let rest = prices.drop_last();
    let pc = preferred_candidates(prices);
    if k < preferred_candidates(rest).len() {
        lemma_candidate_source(rest, k);
        let j = choose|j: int|
            0 <= j < rest.len() && rest[j].register == Some(preferred_candidates(rest)[k].2)
                && rest[j].slug == preferred_candidates(rest)[k].0 && crate::config::preferred(
                rest[j].slug,
            );
        assert(prices[j] == rest[j]);
    } else {
        let j = prices.len() - 1;
        assert(prices[j] == prices.last());
    }
}

/// Every preferred tracked entry with a registration price is a candidate.
pub proof fn lemma_entry_is_candidate(prices: Seq<PriceEntryView>, j: int)
    requires
        0 <= j < prices.len(),
        prices[j].register is Some,
        crate::config::preferred(prices[j].slug),
    ensures
        exists|k: int|
            0 <= k < preferred_candidates(prices).len() && preferred_candidates(prices)[k] == (
                prices[j].slug,
                prices[j].name,
                prices[j].register->0,
            ),
    decreases prices.len(),
{
    let rest = prices.drop_last();
    if j < prices.len() - 1 {
        assert(rest[j] == prices[j]);
        lemma_entry_is_candidate(rest, j);
        let k = choose|k: int|
            0 <= k < preferred_candidates(rest).len() && preferred_candidates(rest)[k] == (
                rest[j].slug,
                rest[j].name,
                rest[j].register->0,
            );
        assert(preferred_candidates(prices)[k] == preferred_candidates(rest)[k]);
    } else {
        let k = preferred_candidates(rest).len() as int;
        assert(preferred_candidates(prices)[k] == (
            prices[j].slug,
            prices[j].name,
            prices[j].register->0,
        ));
    }
}

/// The registrar shown as the best offer is never more than ~5% dearer
/// than the index champion: its raw price times 95 is at most the
/// champion's price times 100.
pub proof fn lemma_best_within_margin(db: PricingDb, tld: Seq<char>)
    requires
        best_preferred(db, tld) is Some,
    ensures
        best_for(db, tld) matches Some(b) && b.price matches Some(c) && best_preferred(
            db,
            tld,
        )->0.price->0 * 95 <= c * 100,
{
    let cs = best_candidates(db, tld)->0;
    lemma_first_min_exists(cs);
    let i = choose|i: int| is_first_min(cs, i);
    assert(candidate_weight(cs[i]) <= candidate_weight(cs[0]));
    if i > 0 {
        let k = i - 1;
        let pc = preferred_candidates(prices_for(db, tld));
        assert(cs[i] == pc[k]);
        lemma_candidate_source(prices_for(db, tld), k);
    }
}

/// When no preferred tracked registrar beats the index champion after
/// weighting, the champion is the best offer, with its raw price.
pub proof fn lemma_champion_kept(db: PricingDb, tld: Seq<char>)
    requires
        best_for(db, tld) matches Some(b) && b.price is Some,
        forall|j: int|
            0 <= j < prices_for(db, tld).len() && (#[trigger] prices_for(db, tld)[j]).register is Some
                && crate::config::preferred(prices_for(db, tld)[j].slug) ==> weighted(
                prices_for(db, tld)[j].register->0 as nat,
                prices_for(db, tld)[j].slug,
            ) >= weighted(best_for(db, tld)->0.price->0 as nat, best_for(db, tld)->0.slug),
    ensures
        best_preferred(db, tld) == best_for(db, tld),
{
    let b = best_for(db, tld)->0;
    let cs = best_candidates(db, tld)->0;
    let pv = prices_for(db, tld);
    let pc = preferred_candidates(pv);
    assert forall|j: int| 0 <= j < cs.len() implies candidate_weight(cs[0]) <= candidate_weight(
        #[trigger] cs[j],
    ) by {
        if j > 0 {
            assert(cs[j] == pc[j - 1]);
            lemma_candidate_source(pv, j - 1);
        }
    }
    assert(is_first_min(cs, 0));
    let i = choose|i: int| is_first_min(cs, i);
    lemma_first_min_unique(cs, i, 0);
}

/// A preferred tracked registrar whose weighted price undercuts a
/// non-preferred champion displaces it: the best offer is then a preferred
/// registrar, with a weighted price no higher.
pub proof fn lemma_preferred_displaces(db: PricingDb, tld: Seq<char>, j: int)
    requires
        best_for(db, tld) matches Some(b) && b.price is Some,
        !crate::config::preferred(best_for(db, tld)->0.slug),
        0 <= j < prices_for(db, tld).len(),
        prices_for(db, tld)[j].register is Some,
        crate::config::preferred(prices_for(db, tld)[j].slug),
        prices_for(db, tld)[j].register->0 * 95 < best_for(db, tld)->0.price->0 * 100,
    ensures
        best_preferred(db, tld) matches Some(r) && crate::config::preferred(r.slug) && weighted(
            r.price->0 as nat,
            r.slug,
        ) <= prices_for(db, tld)[j].register->0 * 95,
{
    let pv = prices_for(db, tld);
    let cs = best_candidates(db, tld)->0;
    let pc = preferred_candidates(pv);
    lemma_entry_is_candidate(pv, j);
    let k = choose|k: int|
        0 <= k < pc.len() && pc[k] == (pv[j].slug, pv[j].name, pv[j].register->0);
    assert(cs[k + 1] == pc[k]);
    lemma_first_min_exists(cs);
    let i = choose|i: int| is_first_min(cs, i);
    assert(candidate_weight(cs[i]) <= candidate_weight(cs[k + 1]));
    if i == 0 {
        assert(false);
    } else {
        assert(cs[i] == pc[i - 1]);
        lemma_candidate_source(pv, i - 1);
    }
}

/// The best offer for `tld` after the preferred-registrar weighting: when a
/// preferred tracked registrar is within ~5% of the index champion, that
/// familiar registrar is shown instead. The price shown is the raw one.
#[verifier::rlimit(40)]
pub fn get_best_preferred(db: &PricingDb, tld: &str) -> (r: Option<BestEntry>)
    ensures
        match r {
            Some(b) => best_preferred(*db, tld@) == Some(b.deep_view()),
            None => best_preferred(*db, tld@) is None,
        },
{
    let champ = match get_best(db, tld) {
        Some(b) => b,
        None => return None,
    };
    let champ_price = match champ.price {
        Some(p) => p,
        None => return None,
    };
    let prices = get_prices(db, tld);
    let ghost pv = prices@.map_values(|e: PriceEntry| e.deep_view());
    let ghost first: Candidate = (champ.slug@, champ.name@, champ_price);
    let mut best_slug: &String = &champ.slug;
    let mut best_name: &String = &champ.name;
    let mut best_price: u64 = champ_price;
    let mut best_w: u128 = adjusted_price(champ_price, champ.slug.as_str());
    let ghost mut idx: int = 0;
    let n = prices.len();
    let mut i: usize = 0;
    assert(seq![first] + preferred_candidates(pv.subrange(0, 0)) =~= seq![first]);
    while i < n
        invariant
            n == prices@.len(),
            pv == prices@.map_values(|e: PriceEntry| e.deep_view()),
            i <= n,
            is_first_min(seq![first] + preferred_candidates(pv.subrange(0, i as int)), idx),
            (seq![first] + preferred_candidates(pv.subrange(0, i as int)))[idx] == (
                best_slug@,
                best_name@,
                best_price,
            ),
            best_w == weighted(best_price as nat, best_slug@),
        decreases n - i,
    {
        let ghost cs = seq![first] + preferred_candidates(pv.subrange(0, i as int));
        let e = &prices[i];
        proof {
            let s = pv.subrange(0, i + 1);
            assert(s.drop_last() =~= pv.subrange(0, i as int));
            assert(s.last() == e.deep_view());
        }
        match e.register {
            Some(rp) => {
                if is_preferred(e.registrar_slug.as_str()) {
                    let w = adjusted_price(rp, e.registrar_slug.as_str());
                    let ghost c: Candidate = (e.registrar_slug@, e.registrar_name@, rp);
                    let ghost cs2 = seq![first] + preferred_candidates(pv.subrange(0, i + 1));
                    assert(cs2 =~= cs.push(c));
                    if w < best_w {
                        best_slug = &e.registrar_slug;
                        best_name = &e.registrar_name;
                        best_price = rp;
                        best_w = w;
                        proof {
                            idx = cs.len() as int;
                        }
                    }
                    assert(is_first_min(cs2, idx));
                } else {
                    assert(seq![first] + preferred_candidates(pv.subrange(0, i + 1)) =~= cs);
                }
            },
            None => {
                assert(seq![first] + preferred_candidates(pv.subrange(0, i + 1)) =~= cs);
            },
        }
        i = i + 1;
    }
    proof {
        assert(pv.subrange(0, n as int) =~= pv);
        let cs = seq![first] + preferred_candidates(pv);
        lemma_first_min_exists(cs);
        assert(best_candidates(*db, tld@) == Some(cs));
        let k = choose|k: int| is_first_min(cs, k);
        lemma_first_min_unique(cs, k, idx);
    }
    Some(BestEntry { slug: best_slug.clone(), name: best_name.clone(), price: Some(best_price) })
}


/// The text shown for a price in cents: `$` with dollars and two-digit
/// cents, or a dash when there is no price.
pub open spec fn price_text(price: Option<u64>) -> Seq<char> {
    match price {
        Some(c) => seq!['$'] + decimal((c / 100) as nat) + seq!['.'] + decimal2((c % 100) as nat),
        None => seq!['—'],
    }
}

/// Renders a price in cents as `$D.CC`, or a dash when there is none.
pub fn format_price(price: Option<u64>) -> (s: String)
    ensures
        s@ == price_text(price),
{
    let mut s = String::new();
    match price {
        Some(c) => {
            push_char(&mut s, '$');
            push_decimal(&mut s, (c / 100) as u128);
            push_char(&mut s, '.');
            push_decimal2(&mut s, c % 100);
        },
        None => {
            push_char(&mut s, '—');
        },
    }
    assert(s@ =~= price_text(price));
    s
}

/// How long ago the prices were fetched, for an age in seconds: hours and
/// two-digit minutes, or minutes alone under an hour.
pub open spec fn age_text(age: nat) -> Seq<char> {
    let hours = age / 3600;
    let mins = (age % 3600) / 60;
    if hours > 0 {
        decimal(hours) + seq!['h'] + decimal2(mins) + "m ago"@
    } else {
        decimal(mins) + "min ago"@
    }
}

/// Nanoseconds in a second.
pub const NANOS_PER_SEC: u128 = 1_000_000_000;

/// The age of the data at time `now`, in whole seconds, both instants in
/// nanoseconds since the epoch; data stamped after `now` counts as fresh.
pub open spec fn age_at(fetched_at: u128, now: u128) -> nat {
    if now >= fetched_at {
        ((now - fetched_at) / 1_000_000_000) as nat
    } else {
        0
    }
}

/// The age text of the tables at time `now` (nanoseconds since the epoch).
pub fn age_string_at(db: &PricingDb, now: u128) -> (s: String)
    ensures
        s@ == age_text(age_at(db.fetched_at, now)),
{
    let age = now.saturating_sub(db.fetched_at) / NANOS_PER_SEC;
    let hours = age / 3600;
    let mins = (age % 3600) / 60;
    let mut s = String::new();
    if hours > 0 {
        push_decimal(&mut s, hours);
        push_char(&mut s, 'h');
        push_decimal2(&mut s, mins as u64);
        s.append("m ago");
    } else {
        push_decimal(&mut s, mins);
        s.append("min ago");
    }
    assert(s@ =~= age_text(age_at(db.fetched_at, now)));
    s
}

/// Nanoseconds since the Unix epoch on the system clock (std's
/// `SystemTime::now`, as the `Duration` since `UNIX_EPOCH` in nanoseconds,
/// 0 for a clock set before it). Nothing is promised of the value: it is
/// the clock's.
#[verifier::external_body]
pub(crate) fn now_epoch_nanos() -> u128 {
    std::time::SystemTime::now().duration_since(std::time::UNIX_EPOCH).map(|d| d.as_nanos()).unwrap_or(0)
}

/// The age text of the tables now, as the system clock tells.
pub fn age_string(db: &PricingDb) -> (s: String)
    ensures
        exists|now: u128| s@ == age_text(age_at(db.fetched_at, now)),
{
    age_string_at(db, now_epoch_nanos())
}

/// The price data as it is cached on disk, with when it was fetched
/// (seconds since the epoch).
pub struct CacheFile {
    pub fetched_at_epoch: u64,
    pub matrix: PriceMatrixData,
    pub index: Option<PriceIndexData>,
}

/// The seconds from `fetched` to `now`, counted modulo 2^64 as unsigned
/// subtraction wraps.
pub open spec fn elapsed_wrapping(fetched: u64, now: u64) -> nat {
    if now >= fetched {
        (now - fetched) as nat
    } else {
        (now - fetched + 0x1_0000_0000_0000_0000) as nat
    }
}

/// A cache is used while its age, in whole hours, is at most the TTL.
pub open spec fn cache_fresh(fetched: u64, now: u64) -> bool {
    elapsed_wrapping(fetched, now) / 3600 <= CACHE_TTL_HOURS
}

/// Whether a cache stamped `fetched_at_epoch` can still be used at `now`.
pub fn cache_is_fresh(fetched_at_epoch: u64, now: u64) -> (r: bool)
    ensures
        r == cache_fresh(fetched_at_epoch, now),
{
    let age_hours = now.wrapping_sub(fetched_at_epoch) / 3600;
    age_hours <= CACHE_TTL_HOURS
}

/// The price tables from a cache read at `now`, unless it is older than
/// the TTL.
pub fn pricing_from_cache(cache: CacheFile, now: u64) -> (r: Option<PricingDb>)
    ensures
        r is Some <==> cache_fresh(cache.fetched_at_epoch, now),
        r matches Some(db) ==> {
            &&& db.by_tld.contents() == matrix_table(cache.matrix.rows@)
            &&& db.best_by_tld.contents() == match cache.index {
                Some(ix) => index_table(ix.rows@),
                None => Map::empty(),
            }
            &&& db.fetched_at == cache.fetched_at_epoch as u128 * 1_000_000_000
        },
{
    if !cache_is_fresh(cache.fetched_at_epoch, now) {
        return None;
    }
    Some(build_db(cache.matrix, cache.index, (cache.fetched_at_epoch as u128) * NANOS_PER_SEC))
}


/// A TLD that some matrix row has is in the matrix table.
pub proof fn lemma_matrix_row_listed(rows: Seq<PriceMatrixRow>, key: Seq<char>, i: int)
    requires
        0 <= i < rows.len(),
        lowercased(rows[i].tld@) == key,
    ensures
        matrix_table(rows).contains_key(key),
    decreases rows.len(),
{
    if i < rows.len() - 1 {
        assert(rows.drop_last()[i] == rows[i]);
        lemma_matrix_row_listed(rows.drop_last(), key, i);
    }
}

/// A TLD in the matrix table is one that some row has.
pub proof fn lemma_matrix_listed_row(rows: Seq<PriceMatrixRow>, key: Seq<char>) -> (i: int)
    requires
        matrix_table(rows).contains_key(key),
    ensures
        0 <= i < rows.len(),
        lowercased(rows[i].tld@) == key,
    decreases rows.len(),
{
    if lowercased(rows.last().tld@) == key {
        rows.len() - 1
    } else {
        let i = lemma_matrix_listed_row(rows.drop_last(), key);
        assert(rows.drop_last()[i] == rows[i]);
        i
    }
}

/// A TLD's entries in the matrix table are those of the last row whose
/// lowercased TLD it is.
pub proof fn lemma_matrix_last_row(rows: Seq<PriceMatrixRow>, key: Seq<char>, i: int)
    requires
        0 <= i < rows.len(),
        lowercased(rows[i].tld@) == key,
        forall|j: int| i < j < rows.len() ==> lowercased(#[trigger] rows[j].tld@) != key,
    ensures
        matrix_table(rows).contains_key(key),
        matrix_table(rows)[key] == row_entries(rows[i].cells@),
    decreases rows.len(),
{
    let last = rows.len() - 1;
    if i < last {
        let rest = rows.drop_last();
        assert(lowercased(rows[last].tld@) != key);
        assert(rest[i] == rows[i]);
        assert forall|j: int| i < j < rest.len() implies lowercased(#[trigger] rest[j].tld@) != key by {
            assert(rest[j] == rows[j]);
        }
        lemma_matrix_last_row(rest, key, i);
    }
}

/// An index row whose TLD is ASCII is filed under that TLD in lowercase,
/// whatever case the feed writes it in, unless a later row takes the same
/// key.
pub proof fn lemma_index_row_filed_lowercase(rows: Seq<PriceIndexRow>, i: int)
    requires
        0 <= i < rows.len(),
        is_ascii_chars(rows[i].tld@),
        forall|j: int|
            i < j < rows.len() ==> lowercased(#[trigger] rows[j].tld@) != ascii_lower(rows[i].tld@),
    ensures
        index_table(rows).contains_key(ascii_lower(rows[i].tld@)),
        index_table(rows)[ascii_lower(rows[i].tld@)] == index_best(rows[i]),
    decreases rows.len(),
{
    let last = rows.len() - 1;
    if i < last {
        let rest = rows.drop_last();
        assert(lowercased(rows[last].tld@) != ascii_lower(rows[i].tld@));
        assert(rest[i] == rows[i]);
        assert forall|j: int| i < j < rest.len() implies lowercased(#[trigger] rest[j].tld@)
            != ascii_lower(rest[i].tld@) by {
            assert(rest[j] == rows[j]);
        }
        lemma_index_row_filed_lowercase(rest, i);
    }
}

/// A matrix row whose TLD is ASCII is filed under that TLD in lowercase,
/// whatever case the feed writes it in, unless a later row takes the same
/// key.
pub proof fn lemma_matrix_row_filed_lowercase(rows: Seq<PriceMatrixRow>, i: int)
    requires
        0 <= i < rows.len(),
        is_ascii_chars(rows[i].tld@),
        forall|j: int|
            i < j < rows.len() ==> lowercased(#[trigger] rows[j].tld@) != ascii_lower(rows[i].tld@),
    ensures
        matrix_table(rows).contains_key(ascii_lower(rows[i].tld@)),
        matrix_table(rows)[ascii_lower(rows[i].tld@)] == row_entries(rows[i].cells@),
    decreases rows.len(),
{
    let last = rows.len() - 1;
    if i < last {
        let rest = rows.drop_last();
        assert(lowercased(rows[last].tld@) != ascii_lower(rows[i].tld@));
        assert(rest[i] == rows[i]);
        assert forall|j: int| i < j < rest.len() implies lowercased(#[trigger] rest[j].tld@)
            != ascii_lower(rest[i].tld@) by {
            assert(rest[j] == rows[j]);
        }
        lemma_matrix_row_filed_lowercase(rest, i);
    }
}

/// Tables built from an index: any ASCII TLD that is, up to ASCII case,
/// the TLD of an index row (the last such) finds that row's best entry.
pub proof fn lemma_best_found_any_case(
    db: PricingDb,
    rows: Seq<PriceIndexRow>,
    i: int,
    tld: Seq<char>,
)
    requires
        db.best_by_tld.contents() == index_table(rows),
        0 <= i < rows.len(),
        is_ascii_chars(rows[i].tld@),
        is_ascii_chars(tld),
        ascii_lower(tld) == ascii_lower(rows[i].tld@),
        forall|j: int|
            i < j < rows.len() ==> lowercased(#[trigger] rows[j].tld@) != ascii_lower(rows[i].tld@),
    ensures
        best_for(db, tld) == Some(index_best(rows[i])),
{
    lemma_index_row_filed_lowercase(rows, i);
}

/// Tables built from a matrix: any ASCII TLD that is, up to ASCII case, the
/// TLD of a matrix row (the last such) finds that row's priced entries.
pub proof fn lemma_prices_found_any_case(
    db: PricingDb,
    rows: Seq<PriceMatrixRow>,
    i: int,
    tld: Seq<char>,
)
    requires
        db.by_tld.contents() == matrix_table(rows),
        0 <= i < rows.len(),
        is_ascii_chars(rows[i].tld@),
        is_ascii_chars(tld),
        ascii_lower(tld) == ascii_lower(rows[i].tld@),
        forall|j: int|
            i < j < rows.len() ==> lowercased(#[trigger] rows[j].tld@) != ascii_lower(rows[i].tld@),
    ensures
        prices_for(db, tld) == row_entries(rows[i].cells@),
{
    lemma_matrix_row_filed_lowercase(rows, i);
}

/// An ASCII TLD finds the same prices and the same best offer as its
/// lowercase form: "COM" finds what "com" finds.
pub proof fn lemma_lookup_ignores_ascii_case(db: PricingDb, tld: Seq<char>)
    requires
        is_ascii_chars(tld),
    ensures
        prices_for(db, tld) == prices_for(db, ascii_lower(tld)),
        best_for(db, tld) == best_for(db, ascii_lower(tld)),
        best_preferred(db, tld) == best_preferred(db, ascii_lower(tld)),
{
    lemma_lowercased_idempotent(tld);
}

/// Every entry the matrix table lists has a registration or a renewal
/// price.
pub proof fn lemma_listed_entries_priced(rows: Seq<PriceMatrixRow>, key: Seq<char>, i: int)
    requires
        matrix_table(rows).contains_key(key),
        0 <= i < matrix_table(rows)[key].len(),
    ensures
        matrix_table(rows)[key][i].register is Some || matrix_table(rows)[key][i].renew is Some,
    decreases rows.len(),
{
    let rest = rows.drop_last();
    if key == lowercased(rows.last().tld@) {
        lemma_row_entries_priced(rows.last().cells@, i);
    } else {
        lemma_listed_entries_priced(rest, key, i);
    }
}

proof fn lemma_row_entries_priced(cells: Seq<RegistrarCell>, i: int)
    requires
        0 <= i < row_entries(cells).len(),
    ensures
        row_entries(cells)[i].register is Some || row_entries(cells)[i].renew is Some,
    decreases cells.len(),
{
    if i < row_entries(cells.drop_last()).len() {
        lemma_row_entries_priced(cells.drop_last(), i);
    }
}

/// A cache read less than 25 hours after it was written (whole hours up
/// to the 24-hour TTL) is used; one read 25 hours or more after is not.
pub proof fn lemma_cache_ttl(fetched: u64, now: u64)
    requires
        fetched <= now,
    ensures
        now - fetched < 25 * 3600 ==> cache_fresh(fetched, now),
        now - fetched >= 25 * 3600 ==> !cache_fresh(fetched, now),
{
    let d = (now - fetched) as nat;
    if d < 25 * 3600 {
        assert(d / 3600 <= 24) by (nonlinear_arith)
            requires
                d < 25 * 3600,
        ;
    } else {
        assert(d / 3600 >= 25) by (nonlinear_arith)
            requires
                d >= 25 * 3600,
        ;
    }
}

} // verus!
