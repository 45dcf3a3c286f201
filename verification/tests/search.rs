use domain_search::pricing::{
    build_db, PriceIndexData, PriceIndexEntry, PriceIndexRow, PriceMatrixData, PriceMatrixRow,
    PricingDb, RegistrarCell,
};
use domain_search::search::{
    availability_from_status, best_price, build_result, compute_stats, domain_name, rdap_url,
    status_symbol,
};

fn cell(slug: &str, register: Option<u64>, renew: Option<u64>) -> RegistrarCell {
    RegistrarCell {
        registrar_slug: slug.to_string(),
        registrar_name: slug.to_string(),
        register_usd: register,
        renew_usd: renew,
        transfer_usd: Some(1),
        captured_at: Some("2024-01-01".to_string()),
    }
}

fn db() -> PricingDb {
    let matrix = PriceMatrixData {
        rows: vec![PriceMatrixRow {
            tld: "com".to_string(),
            cells: vec![
                cell("cloudflare", Some(1050), None),
                cell("porkbun", Some(1030), None),
                cell("porkbun", Some(999), None),
                cell("godaddy", None, Some(2000)),
            ],
        }],
    };
    let index = PriceIndexData {
        rows: vec![PriceIndexRow {
            tld: "com".to_string(),
            register: Some(PriceIndexEntry { slug: "regery".to_string(), name: "Regery".to_string(), usd: Some(1000) }),
            renew: None,
        }],
    };
    build_db(matrix, Some(index), 0)
}

#[test]
fn status_symbols() {
    assert_eq!(status_symbol(Some(true)), "✓ FREE");
    assert_eq!(status_symbol(Some(false)), "✗ TAKEN");
    assert_eq!(status_symbol(None), "? UNKNOWN");
}

#[test]
fn rdap_statuses() {
    assert_eq!(availability_from_status(404), Some(true));
    assert_eq!(availability_from_status(200), Some(false));
    assert_eq!(availability_from_status(410), Some(false));
    assert_eq!(availability_from_status(500), None);
    assert_eq!(availability_from_status(429), None);
    assert_eq!(rdap_url("coffeeshop.com"), "https://rdap.org/domain/coffeeshop.com");
}

#[test]
fn domain_names() {
    assert_eq!(domain_name("coffeeshop", "io"), "coffeeshop.io");
    assert_eq!(domain_name("", "io"), ".io");
}

#[test]
fn result_for_a_tld() {
    let db = db();
    let r = build_result("coffeeshop", "COM", Some(true), &db);
    assert_eq!(r.domain, "coffeeshop.COM");
    assert_eq!(r.tld, "COM");
    assert_eq!(r.available, Some(true));
    assert_eq!(r.prices.len(), 4);
    // the later porkbun entry wins the per-slug lookup
    assert_eq!(r.price_map.get("porkbun").unwrap().register, Some(999));
    assert_eq!(r.price_map.len(), 3);
    assert!(r.price_map.get("namecheap").is_none());
    let best = r.best.as_ref().unwrap();
    assert_eq!(best.slug, "porkbun");
    assert_eq!(best.price, Some(999));
    // weighted: 999 * 95
    assert_eq!(best_price(&r), Some(94_905));
}

#[test]
fn result_without_prices() {
    let db = db();
    let r = build_result("x", "dev", None, &db);
    assert!(r.prices.is_empty());
    assert!(r.best.is_none());
    assert_eq!(best_price(&r), None);
}

#[test]
fn sort_price_falls_back_to_cheapest_registration() {
    let matrix = PriceMatrixData {
        rows: vec![PriceMatrixRow {
            tld: "ai".to_string(),
            cells: vec![cell("godaddy", None, Some(100)), cell("dynadot", Some(7000), None), cell("namecheap", Some(6900), None)],
        }],
    };
    let db = build_db(matrix, None, 0);
    let r = build_result("x", "ai", Some(false), &db);
    assert!(r.best.is_none());
    assert_eq!(best_price(&r), Some(690_000));
}

#[test]
fn stats_count_every_result_once() {
    let db = db();
    let results = vec![
        build_result("a", "com", Some(true), &db),
        build_result("a", "io", Some(false), &db),
        build_result("a", "dev", None, &db),
        build_result("a", "app", Some(true), &db),
    ];
    let s = compute_stats(&results);
    assert_eq!(s.total, 4);
    assert_eq!(s.available, 2);
    assert_eq!(s.taken, 1);
    assert_eq!(s.unknown, 1);
    let empty = compute_stats(&Vec::new());
    assert_eq!((empty.total, empty.available, empty.taken, empty.unknown), (0, 0, 0, 0));
}
