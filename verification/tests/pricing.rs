use domain_search::pricing::{
    age_string, age_string_at, build_db, cache_is_fresh, format_price, get_best, get_best_preferred,
    get_prices, pricing_from_cache, CacheFile, PriceIndexData, PriceIndexEntry, PriceIndexRow,
    PriceMatrixData, PriceMatrixRow, PricingDb, RegistrarCell,
};

fn cell(slug: &str, register: Option<u64>, renew: Option<u64>) -> RegistrarCell {
    RegistrarCell {
        registrar_slug: slug.to_string(),
        registrar_name: slug.to_uppercase(),
        register_usd: register,
        renew_usd: renew,
        transfer_usd: None,
        captured_at: None,
    }
}

fn index_row(tld: &str, slug: &str, usd: Option<u64>) -> PriceIndexRow {
    PriceIndexRow {
        tld: tld.to_string(),
        register: Some(PriceIndexEntry { slug: slug.to_string(), name: format!("{} Inc", slug), usd }),
        renew: None,
    }
}

fn sample_db() -> PricingDb {
    let matrix = PriceMatrixData {
        rows: vec![
            PriceMatrixRow {
                tld: "COM".to_string(),
                cells: vec![
                    cell("cloudflare", Some(1050), Some(1050)),
                    cell("porkbun", Some(1030), None),
                    cell("namecheap", None, None),
                    cell("godaddy", None, Some(2299)),
                ],
            },
            PriceMatrixRow { tld: "io".to_string(), cells: vec![cell("porkbun", Some(3750), None)] },
        ],
    };
    let index = PriceIndexData {
        rows: vec![
            index_row("com", "regery", Some(1000)),
            index_row("io", "ovhcloud", Some(3582)),
            index_row("dev", "mchost", None),
        ],
    };
    build_db(matrix, Some(index), 1_000)
}

#[test]
fn cells_without_prices_are_dropped_and_tld_is_case_insensitive() {
    let db = sample_db();
    let com = get_prices(&db, "com");
    let slugs: Vec<&str> = com.iter().map(|e| e.registrar_slug.as_str()).collect();
    assert_eq!(slugs, vec!["cloudflare", "porkbun", "godaddy"]);
    assert_eq!(get_prices(&db, "CoM").len(), 3);
    assert_eq!(com[2].register, None);
    assert_eq!(com[2].renew, Some(2299));
    assert_eq!(com[1].registrar_name, "PORKBUN");
    assert!(get_prices(&db, "net").is_empty());
}

#[test]
fn later_matrix_row_replaces_earlier() {
    let matrix = PriceMatrixData {
        rows: vec![
            PriceMatrixRow { tld: "app".to_string(), cells: vec![cell("dynadot", Some(1200), None)] },
            PriceMatrixRow { tld: "APP".to_string(), cells: vec![cell("spaceship", Some(1100), None)] },
        ],
    };
    let db = build_db(matrix, None, 0);
    let app = get_prices(&db, "app");
    assert_eq!(app.len(), 1);
    assert_eq!(app[0].registrar_slug, "spaceship");
    assert_eq!(db.by_tld.len(), 1);
    assert!(get_best(&db, "app").is_none());
    assert!(get_best_preferred(&db, "app").is_none());
}

#[test]
fn index_entries_and_missing_champion() {
    let db = sample_db();
    let best = get_best(&db, "IO").unwrap();
    assert_eq!(best.slug, "ovhcloud");
    assert_eq!(best.price, Some(3582));
    // a champion without a price gives no best offer
    assert!(get_best(&db, "dev").is_some());
    assert!(get_best_preferred(&db, "dev").is_none());
    let row = PriceIndexRow { tld: "xyz".to_string(), register: None, renew: None };
    let db2 = build_db(PriceMatrixData { rows: vec![] }, Some(PriceIndexData { rows: vec![row] }), 0);
    let b = get_best(&db2, "xyz").unwrap();
    assert_eq!(b.slug, "");
    assert_eq!(b.name, "");
    assert_eq!(b.price, None);
}

#[test]
fn preferred_registrar_within_margin_is_shown() {
    // regery (not preferred) at $10.00; porkbun (preferred) at $10.30:
    // 10.30 * 0.95 = 9.785 < 10.00, so porkbun is shown at its raw price
    let db = sample_db();
    let best = get_best_preferred(&db, "com").unwrap();
    assert_eq!(best.slug, "porkbun");
    assert_eq!(best.name, "PORKBUN");
    assert_eq!(best.price, Some(1030));
}

#[test]
fn champion_kept_when_preferred_too_dear() {
    // ovhcloud is itself preferred at $35.82; porkbun at $37.50 weighs more
    let db = sample_db();
    let best = get_best_preferred(&db, "io").unwrap();
    assert_eq!(best.slug, "ovhcloud");
    assert_eq!(best.name, "ovhcloud Inc");
    assert_eq!(best.price, Some(3582));
}

#[test]
fn first_of_equal_weighted_prices_wins() {
    let matrix = PriceMatrixData {
        rows: vec![PriceMatrixRow {
            tld: "me".to_string(),
            cells: vec![cell("gandi", Some(1000), None), cell("namesilo", Some(1000), None)],
        }],
    };
    // the champion weighs 1000 * 95 as well (preferred), and comes first
    let index = PriceIndexData { rows: vec![index_row("me", "ionos", Some(1000))] };
    let db = build_db(matrix, Some(index), 0);
    assert_eq!(get_best_preferred(&db, "me").unwrap().slug, "ionos");
    // without an equal champion, the first of the two tied registrars wins
    let matrix = PriceMatrixData {
        rows: vec![PriceMatrixRow {
            tld: "me".to_string(),
            cells: vec![cell("gandi", Some(1000), None), cell("namesilo", Some(1000), None)],
        }],
    };
    let index = PriceIndexData { rows: vec![index_row("me", "regery", Some(1000))] };
    let db = build_db(matrix, Some(index), 0);
    assert_eq!(get_best_preferred(&db, "me").unwrap().slug, "gandi");
}

#[test]
fn non_preferred_tracked_registrar_never_replaces_champion() {
    let matrix = PriceMatrixData {
        rows: vec![PriceMatrixRow { tld: "gg".to_string(), cells: vec![cell("regery", Some(1), None)] }],
    };
    let index = PriceIndexData { rows: vec![index_row("gg", "mchost", Some(5000))] };
    let db = build_db(matrix, Some(index), 0);
    assert_eq!(get_best_preferred(&db, "gg").unwrap().slug, "mchost");
}

#[test]
fn price_formatting() {
    assert_eq!(format_price(Some(1030)), "$10.30");
    assert_eq!(format_price(Some(5)), "$0.05");
    assert_eq!(format_price(Some(0)), "$0.00");
    assert_eq!(format_price(Some(123456)), "$1234.56");
    assert_eq!(format_price(None), "—");
}

#[test]
fn age_strings() {
    const S: u128 = 1_000_000_000;
    let db = build_db(PriceMatrixData { rows: vec![] }, None, 10_000 * S);
    assert_eq!(age_string_at(&db, 10_000 * S), "0min ago");
    assert_eq!(age_string_at(&db, (10_000 + 59) * S), "0min ago");
    assert_eq!(age_string_at(&db, (10_000 + 25 * 60) * S), "25min ago");
    assert_eq!(age_string_at(&db, (10_000 + 3600 + 5 * 60) * S), "1h05m ago");
    assert_eq!(age_string_at(&db, (10_000 + 26 * 3600 + 42 * 60) * S), "26h42m ago");
    // data stamped in the future counts as fresh
    assert_eq!(age_string_at(&db, 5 * S), "0min ago");
    // sub-second stamps count: fetched at 10.9 s, read at 70.5 s is 59.6 s old
    let db2 = build_db(PriceMatrixData { rows: vec![] }, None, 10 * S + 900_000_000);
    assert_eq!(age_string_at(&db2, 70 * S + 500_000_000), "0min ago");
    assert_eq!(age_string_at(&db2, 70 * S + 900_000_000), "1min ago");
    assert!(age_string(&db).ends_with("ago"));
}

#[test]
fn cache_ttl() {
    assert!(cache_is_fresh(0, 0));
    assert!(cache_is_fresh(1000, 1000 + 24 * 3600));
    assert!(cache_is_fresh(1000, 1000 + 25 * 3600 - 1));
    assert!(!cache_is_fresh(1000, 1000 + 25 * 3600));
    // a stamp after `now` wraps around and counts as stale
    assert!(!cache_is_fresh(2000, 1000));
    let cache = CacheFile {
        fetched_at_epoch: 50,
        matrix: PriceMatrixData {
            rows: vec![PriceMatrixRow { tld: "to".to_string(), cells: vec![cell("sav", Some(900), None)] }],
        },
        index: None,
    };
    let db = pricing_from_cache(cache, 100).unwrap();
    assert_eq!(db.fetched_at, 50 * 1_000_000_000);
    assert_eq!(get_prices(&db, "to").len(), 1);
    let stale = CacheFile { fetched_at_epoch: 0, matrix: PriceMatrixData { rows: vec![] }, index: None };
    assert!(pricing_from_cache(stale, 30 * 3600).is_none());
}
