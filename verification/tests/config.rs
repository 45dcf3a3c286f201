use domain_search::config::{
    adjusted_price, is_preferred, preferred_registrars, registrar_at, registrar_search_url,
    registrar_urls, registrars, tlds, REGISTRAR_COUNT,
};

#[test]
fn test_registrar_search_url_prefills_domain() {
    let url = registrar_search_url("porkbun", "example.com")
        .expect("porkbun should have a URL template");
    assert_eq!(url, "https://porkbun.com/checkout/search?q=example.com",
        "porkbun URL should contain the domain");

    let url = registrar_search_url("cloudflare", "example.com")
        .expect("cloudflare should have a URL template");
    assert_eq!(url, "https://domains.cloudflare.com/?domain=example.com",
        "cloudflare URL should contain the domain");

    let url = registrar_search_url("namecom", "example.com")
        .expect("namecom should have a URL template");
    assert_eq!(url, "https://www.name.com/domain/search/example.com",
        "name.com URL should contain the domain in the path");

    let url = registrar_search_url("godaddy", "example.com")
        .expect("godaddy should have a URL template");
    assert_eq!(url, "https://www.godaddy.com/domainsearch/find?domainToCheck=example.com",
        "godaddy URL should contain the domain");
}

#[test]
fn test_registrar_search_url_missing_slug() {
    assert!(registrar_search_url("nonexistent-slug", "x.com").is_none(),
        "unknown slug should return None");
}

#[test]
fn test_all_tracked_registrars_have_urls() {
    for reg in registrars() {
        let url = registrar_search_url(reg.slug, "test.com");
        assert!(url.is_some(),
            "tracked registrar {} is missing a URL template", reg.slug);
    }
}

#[test]
fn test_preferred_slugs_table() {
    // Every preferred slug should also have a URL template
    for slug in preferred_registrars() {
        if registrar_search_url(slug, "x.com").is_none() {
            println!("WARN: preferred registrar '{}' has no URL template", slug);
        }
    }
}

#[test]
fn test_adjusted_price() {
    // prices are cents; the weighted price is in hundredths of a cent
    let raw: u64 = 1000; // $10.00
    let preferred = adjusted_price(raw, "porkbun") as f64 / 10_000.0;
    assert!((preferred - 9.50).abs() < 0.001, "preferred 10.00 should become 9.50");

    let unpreferred = adjusted_price(raw, "regery") as f64 / 10_000.0;
    assert!((unpreferred - 10.00).abs() < 0.001, "non-preferred 10.00 should stay 10.00");
}

#[test]
fn test_is_preferred() {
    assert!(is_preferred("porkbun"), "porkbun should be preferred");
    assert!(is_preferred("cloudflare"), "cloudflare should be preferred");
    assert!(!is_preferred("regery"), "regery should not be preferred");
    assert!(!is_preferred("mchost"), "mchost should not be preferred");
}

#[test]
fn every_preferred_registrar_has_a_template() {
    for slug in preferred_registrars() {
        assert!(registrar_search_url(slug, "x.com").is_some(), "{} has no template", slug);
    }
}

#[test]
fn template_without_placeholder_is_kept() {
    assert_eq!(
        registrar_search_url("spaceship", "example.com").unwrap(),
        "https://www.spaceship.com/domain-search/"
    );
    assert_eq!(
        registrar_search_url("inwx", "anything.io").unwrap(),
        "https://www.inwx.com/en/domain/search"
    );
}

#[test]
fn placeholder_filled_with_unusual_domains() {
    assert_eq!(
        registrar_search_url("nicenic", "café.com").unwrap(),
        "https://nic.names/domain/café.com"
    );
    assert_eq!(registrar_search_url("ovh", "").unwrap(), "https://www.ovh.com/us/domains/domain_search/?search=");
    // a domain that itself looks like the placeholder is not replaced again
    assert_eq!(
        registrar_search_url("namecom", "{domain}").unwrap(),
        "https://www.name.com/domain/search/{domain}"
    );
    // slugs are matched exactly
    assert!(registrar_search_url("Porkbun", "x.com").is_none());
    assert!(registrar_search_url("", "x.com").is_none());
}

#[test]
fn adjusted_price_exact_units() {
    assert_eq!(adjusted_price(1030, "porkbun"), 97_850);
    assert_eq!(adjusted_price(1030, "regery"), 103_000);
    assert_eq!(adjusted_price(0, "gname"), 0);
    assert_eq!(adjusted_price(u64::MAX, "sav"), u64::MAX as u128 * 95);
}

#[test]
fn preferred_list_is_exact() {
    let prefs = preferred_registrars();
    assert_eq!(prefs.len(), 25);
    for slug in &prefs {
        assert!(is_preferred(slug));
    }
    assert!(!is_preferred(""));
    assert!(!is_preferred("ovhcloudx"));
    assert!(!is_preferred("PORKBUN"));
}

#[test]
fn tables_have_their_sizes_and_order() {
    let t = tlds();
    assert_eq!(t.len(), 20);
    assert_eq!(t[0], "com");
    assert_eq!(t[19], "to");
    let regs = registrars();
    assert_eq!(regs.len(), REGISTRAR_COUNT);
    assert_eq!(regs[0].slug, "cloudflare");
    assert_eq!(regs[3].label, "GoDaddy");
    assert_eq!(registrar_at(5).slug, "spaceship");
    assert_eq!(registrar_at(5).label, "Spaceship");
    assert_eq!(registrar_urls().len(), 45);
}
