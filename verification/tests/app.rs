use std::sync::Arc;

use domain_search::app::{is_quit_key, reads_selected_row, App, Key, KeyAction, KeyPress, Modifiers};
use domain_search::pricing::{
    build_db, PriceIndexData, PriceIndexEntry, PriceIndexRow, PriceMatrixData, PriceMatrixRow,
    PricingDb, RegistrarCell,
};
use domain_search::search::{build_result, compute_stats, DomainResult};
use domain_search::sorting::{cycle_sort, sort_results_by, SortBy};

fn cell(slug: &str, register: Option<u64>) -> RegistrarCell {
    RegistrarCell {
        registrar_slug: slug.to_string(),
        registrar_name: slug.to_string(),
        register_usd: register,
        renew_usd: None,
        transfer_usd: None,
        captured_at: None,
    }
}

fn db() -> PricingDb {
    let matrix = PriceMatrixData {
        rows: vec![
            PriceMatrixRow { tld: "com".to_string(), cells: vec![cell("dynadot", Some(1200)), cell("godaddy", Some(1100))] },
            PriceMatrixRow { tld: "io".to_string(), cells: vec![cell("porkbun", Some(3000))] },
            PriceMatrixRow { tld: "dev".to_string(), cells: vec![cell("regery", Some(500))] },
        ],
    };
    let index = PriceIndexData {
        rows: vec![PriceIndexRow {
            tld: "io".to_string(),
            register: Some(PriceIndexEntry { slug: "ovhcloud".to_string(), name: "OVHcloud".to_string(), usd: Some(2800) }),
            renew: None,
        }],
    };
    build_db(matrix, Some(index), 0)
}

fn key(code: Key) -> KeyPress {
    KeyPress { code, modifiers: Modifiers::Plain }
}

fn results(db: &PricingDb) -> Vec<DomainResult> {
    vec![
        build_result("shop", "com", Some(false), db),
        build_result("shop", "io", Some(true), db),
        build_result("shop", "dev", None, db),
        build_result("shop", "net", Some(true), db),
    ]
}

fn searched_app() -> App {
    let db = db();
    let rs = results(&db);
    let stats = compute_stats(&rs);
    let mut app = App::new(Some(Arc::new(db)));
    app.finish_search(rs, stats);
    app
}

fn domains(app: &App) -> Vec<String> {
    app.results.iter().map(|r| r.domain.clone()).collect()
}

#[test]
fn typing_and_backspace() {
    let mut app = App::new(None);
    app.handle_key(key(Key::Char('a')));
    app.handle_key(KeyPress { code: Key::Char('B'), modifiers: Modifiers::Shift });
    app.handle_key(KeyPress { code: Key::Char('x'), modifiers: Modifiers::Control });
    assert_eq!(app.input, "aB");
    app.handle_key(key(Key::Backspace));
    assert_eq!(app.input, "a");
    app.handle_key(key(Key::Backspace));
    app.handle_key(key(Key::Backspace));
    assert_eq!(app.input, "");
    // '+' without Shift is typed
    app.handle_key(key(Key::Char('+')));
    assert_eq!(app.input, "+");
}

#[test]
fn enter_starts_a_search_only_with_input() {
    let mut app = App::new(None);
    app.handle_key(key(Key::Enter));
    assert!(!app.loading);
    app.handle_key(key(Key::Char('x')));
    app.error = Some("old".to_string());
    app.handle_key(key(Key::Enter));
    assert!(app.loading && app.has_searched && app.error.is_none());
    // while searching, keys are ignored
    app.handle_key(key(Key::Char('y')));
    assert_eq!(app.input, "x");
}

#[test]
fn begin_search_trims_and_lowercases() {
    let mut app = App::new(Some(Arc::new(db())));
    app.input = "  CoffeeShop \t".to_string();
    app.loading = true;
    assert_eq!(app.begin_search(), Some("coffeeshop".to_string()));
    assert!(app.loading);
    let mut blank = App::new(Some(Arc::new(db())));
    blank.input = "   ".to_string();
    blank.loading = true;
    assert_eq!(blank.begin_search(), None);
    assert!(!blank.loading);
    assert!(blank.error.is_none());
    // every kind of Unicode white space is trimmed
    let mut spaced = App::new(Some(Arc::new(db())));
    spaced.input = "\u{3000}\u{a0}Caf\u{c9}\u{2009}\n".to_string();
    assert_eq!(spaced.begin_search(), Some("caf\u{e9}".to_string()));
    let mut blank2 = App::new(Some(Arc::new(db())));
    blank2.input = "\u{2028}\u{85}\u{1680} ".to_string();
    blank2.loading = true;
    assert_eq!(blank2.begin_search(), None);
    assert!(!blank2.loading);
    // inner white space stays
    let mut inner = App::new(Some(Arc::new(db())));
    inner.input = " a b ".to_string();
    assert_eq!(inner.begin_search(), Some("a b".to_string()));
    let mut no_db = App::new(None);
    no_db.input = "x".to_string();
    no_db.loading = true;
    assert_eq!(no_db.begin_search(), None);
    assert_eq!(no_db.error.as_deref(), Some("No pricing data available"));
    assert!(!no_db.loading);
}

#[test]
fn finish_search_sorts_by_availability_then_domain() {
    let app = searched_app();
    assert_eq!(domains(&app), vec!["shop.io", "shop.net", "shop.com", "shop.dev"]);
    assert_eq!(app.selected_row, 0);
    assert!(!app.loading);
    assert_eq!(app.stats.total, 4);
}

#[test]
fn tab_cycles_orders() {
    let mut app = searched_app();
    app.handle_key(key(Key::Tab));
    assert_eq!(app.sort_by, SortBy::Price);
    // dev: 500*100; com: 1100*100 (no best, cheapest godaddy); io: ovhcloud 2800*95; net: no price
    assert_eq!(domains(&app), vec!["shop.net", "shop.dev", "shop.com", "shop.io"]);
    assert_eq!(app.notification.as_ref().unwrap().0, " Sorted by best price ");
    assert_eq!(app.notification.as_ref().unwrap().1, 12);
    app.handle_key(key(Key::Tab));
    assert_eq!(app.sort_by, SortBy::Domain);
    assert_eq!(domains(&app), vec!["shop.com", "shop.dev", "shop.io", "shop.net"]);
    app.handle_key(key(Key::Tab));
    assert_eq!(app.sort_by, SortBy::Status);
    assert_eq!(domains(&app), vec!["shop.io", "shop.net", "shop.com", "shop.dev"]);
    assert_eq!(cycle_sort(cycle_sort(cycle_sort(SortBy::Price))), SortBy::Price);
}

#[test]
fn sorting_is_stable() {
    let db = db();
    let mut rs = vec![
        build_result("b", "net", Some(true), &db),
        build_result("a", "org", Some(true), &db),
        build_result("c", "xyz", Some(true), &db),
    ];
    // all have no price and the same availability: the order is kept
    sort_results_by(SortBy::Price, &mut rs);
    let d: Vec<&str> = rs.iter().map(|r| r.domain.as_str()).collect();
    assert_eq!(d, vec!["b.net", "a.org", "c.xyz"]);
    sort_results_by(SortBy::Domain, &mut rs);
    let d: Vec<&str> = rs.iter().map(|r| r.domain.as_str()).collect();
    assert_eq!(d, vec!["a.org", "b.net", "c.xyz"]);
}

#[test]
fn navigation_stays_within_results() {
    let mut app = searched_app();
    app.handle_key(key(Key::Up));
    assert_eq!(app.selected_row, 0);
    for _ in 0..10 {
        app.handle_key(key(Key::Down));
    }
    assert_eq!(app.selected_row, 3);
    app.scroll_offset = 3;
    app.handle_key(key(Key::Up));
    assert_eq!(app.selected_row, 2);
    assert_eq!(app.scroll_offset, 2);
}

#[test]
fn column_selection_wraps_to_none() {
    let mut app = searched_app();
    app.handle_key(key(Key::Right));
    assert_eq!(app.selected_column, Some(0));
    assert_eq!(app.notification.as_ref().unwrap().0, " Column: Cloudflare ");
    app.handle_key(key(Key::Left));
    assert_eq!(app.selected_column, None);
    assert_eq!(app.notification.as_ref().unwrap().0, " Column: none ");
    app.handle_key(key(Key::Left));
    assert_eq!(app.selected_column, Some(5));
    assert_eq!(app.notification.as_ref().unwrap().0, " Column: Spaceship ");
    app.handle_key(key(Key::Right));
    assert_eq!(app.selected_column, None);
    // typing deselects the column
    app.handle_key(key(Key::Right));
    app.handle_key(key(Key::Char('z')));
    assert_eq!(app.selected_column, None);
}

#[test]
fn enter_on_a_column_opens_that_registrar() {
    let mut app = searched_app();
    app.handle_key(key(Key::Right));
    app.handle_key(key(Key::Right));
    match app.handle_key(key(Key::Enter)) {
        KeyAction::OpenUrl(u) => assert_eq!(u, "https://porkbun.com/checkout/search?q=shop.io"),
        KeyAction::Nothing => panic!("expected a URL"),
    }
    assert_eq!(app.notification.as_ref().unwrap().0, " Opening porkbun for shop.io ");
    assert!(!app.loading);
}

#[test]
fn plus_opens_the_cheapest() {
    let mut app = searched_app();
    let shift_plus = KeyPress { code: Key::Char('+'), modifiers: Modifiers::Shift };
    // first row is shop.io, whose best offer is ovhcloud
    match app.handle_key(shift_plus) {
        KeyAction::OpenUrl(u) => assert_eq!(u, "https://www.ovhcloud.com/en/domains/domain-name-checker/"),
        KeyAction::Nothing => panic!("expected a URL"),
    }
    // second row: shop.net has no prices at all
    app.handle_key(key(Key::Down));
    assert!(matches!(app.handle_key(shift_plus), KeyAction::Nothing));
    assert_eq!(app.notification.as_ref().unwrap().0, " No price data to open a registrar ");
    // third row: shop.com, no best offer: cheapest tracked is godaddy
    app.handle_key(key(Key::Down));
    let shift_eq = KeyPress { code: Key::Char('='), modifiers: Modifiers::Shift };
    match app.handle_key(shift_eq) {
        KeyAction::OpenUrl(u) => assert_eq!(u, "https://www.godaddy.com/domainsearch/find?domainToCheck=shop.com"),
        KeyAction::Nothing => panic!("expected a URL"),
    }
    // fourth row: shop.dev, cheapest is regery
    app.handle_key(key(Key::Down));
    match app.handle_key(shift_plus) {
        KeyAction::OpenUrl(u) => assert_eq!(u, "https://regery.com/en/domains/search?q=shop.dev"),
        KeyAction::Nothing => panic!("expected a URL"),
    }
}

#[test]
fn unknown_registrar_gets_a_notice() {
    let matrix = PriceMatrixData { rows: vec![PriceMatrixRow { tld: "com".to_string(), cells: vec![cell("nowhere", Some(1))] }] };
    let db = build_db(matrix, None, 0);
    let rs = vec![build_result("q", "com", Some(true), &db)];
    let stats = compute_stats(&rs);
    let mut app = App::new(Some(Arc::new(db)));
    app.finish_search(rs, stats);
    let a = app.handle_key(KeyPress { code: Key::Char('+'), modifiers: Modifiers::Shift });
    assert!(matches!(a, KeyAction::Nothing));
    assert_eq!(app.notification.as_ref().unwrap().0, " No URL for registrar nowhere ");
}

#[test]
fn esc_clears_everything() {
    let mut app = searched_app();
    app.input = "shop".to_string();
    app.handle_key(key(Key::Down));
    app.handle_key(key(Key::Right));
    app.error = Some("No pricing data available".to_string());
    app.scroll_offset = 2;
    app.handle_key(key(Key::Esc));
    assert!(app.error.is_none());
    assert_eq!(app.scroll_offset, 0);
    assert_eq!((app.stats.total, app.stats.available, app.stats.taken, app.stats.unknown), (0, 0, 0, 0));
    assert!(app.input.is_empty());
    assert!(app.results.is_empty());
    assert!(!app.has_searched);
    assert_eq!(app.selected_row, 0);
    assert_eq!(app.selected_column, None);
    assert!(app.notification.is_none());
    // with no results, navigation keys do nothing
    app.handle_key(key(Key::Down));
    app.handle_key(key(Key::Right));
    app.handle_key(key(Key::Tab));
    assert_eq!(app.selected_row, 0);
    assert_eq!(app.selected_column, None);
    assert_eq!(app.sort_by, SortBy::Status);
}

#[test]
fn notifications_expire() {
    let mut app = searched_app();
    app.handle_key(key(Key::Right));
    for _ in 0..11 {
        app.tick_notification();
        assert!(app.notification.is_some());
    }
    app.tick_notification();
    assert!(app.notification.is_none());
    app.tick_notification();
    assert!(app.notification.is_none());
    app.notification = Some(("x".to_string(), 0));
    app.tick_notification();
    assert!(app.notification.is_none());
}

#[test]
fn status_lines() {
    let mut app = App::new(None);
    assert_eq!(app.status_text_at(0), "Type a domain name and press Enter");
    app.has_searched = true;
    assert_eq!(app.status_text_at(0), "No results");
    app.loading = true;
    assert_eq!(app.status_text_at(0), "Searching...");
    let mut app = searched_app();
    assert_eq!(app.status_text_at((3600 * 2 + 60 * 7) * 1_000_000_000), "2/4 available · 1 taken · availability · prices 2h07m ago");
    app.handle_key(key(Key::Right));
    assert_eq!(app.status_text_at(60 * 1_000_000_000), "2/4 available · 1 taken · availability · prices 1min ago · [Cloudflare] selected");
    assert!(app.status_text().starts_with("2/4 available"));
}

#[test]
fn quit_keys() {
    assert!(is_quit_key(KeyPress { code: Key::Char('c'), modifiers: Modifiers::Control }));
    assert!(is_quit_key(key(Key::Char('q'))));
    assert!(is_quit_key(KeyPress { code: Key::Char('q'), modifiers: Modifiers::Control }));
    assert!(!is_quit_key(key(Key::Char('c'))));
    assert!(!is_quit_key(KeyPress { code: Key::Char('q'), modifiers: Modifiers::Shift }));
    assert!(!is_quit_key(key(Key::Esc)));
}

#[test]
fn enter_on_an_unknown_column_does_nothing() {
    let mut app = searched_app();
    app.selected_column = Some(9);
    assert!(matches!(app.handle_key(key(Key::Enter)), KeyAction::Nothing));
    assert!(app.notification.is_none());
    assert!(!app.loading);
    app.handle_key(key(Key::Left));
    assert_eq!(app.selected_column, None);
    app.selected_column = Some(6);
    app.handle_key(key(Key::Left));
    assert_eq!(app.selected_column, Some(5));
    assert_eq!(app.notification.as_ref().unwrap().0, " Column: Spaceship ");
}

#[test]
fn keys_that_read_the_row() {
    let shift = |c| KeyPress { code: Key::Char(c), modifiers: Modifiers::Shift };
    assert!(reads_selected_row(shift('+')));
    assert!(reads_selected_row(shift('=')));
    assert!(reads_selected_row(key(Key::Enter)));
    assert!(!reads_selected_row(key(Key::Char('+'))));
    assert!(!reads_selected_row(key(Key::Down)));
    // other keys work on a row out of range: Down brings it back
    let mut app = searched_app();
    app.selected_row = 10;
    app.handle_key(key(Key::Down));
    assert_eq!(app.selected_row, 3);
}
