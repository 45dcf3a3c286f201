use std::sync::Arc;

use domain_search::app::App;
use domain_search::pricing::{
    build_db, PriceIndexData, PriceIndexEntry, PriceIndexRow, PriceMatrixData, PriceMatrixRow,
    RegistrarCell,
};
use domain_search::search::{build_result, compute_stats};
use domain_search::sorting::SortBy;
use domain_search::ui::{
    best_cell_text, cursor_column, input_line, popup_area, registrar_cell_text, results_pane, results_title,
    visible_registrar_count, ResultsPane,
};

#[test]
fn registrar_columns_fit_the_width() {
    assert_eq!(visible_registrar_count(0), 1);
    assert_eq!(visible_registrar_count(37), 1);
    assert_eq!(visible_registrar_count(38), 2);
    assert_eq!(visible_registrar_count(37 + 27), 3);
    assert_eq!(visible_registrar_count(37 + 54), 6);
    assert_eq!(visible_registrar_count(500), 6);
    assert_eq!(visible_registrar_count(u16::MAX), 6);
}

#[test]
fn panes() {
    let mut app = App::new(None);
    assert!(matches!(results_pane(&app), ResultsPane::Help));
    app.input = "a".to_string();
    assert!(matches!(results_pane(&app), ResultsPane::Table));
    app.loading = true;
    assert!(matches!(results_pane(&app), ResultsPane::Searching));
    app.loading = false;
    app.has_searched = true;
    assert!(matches!(results_pane(&app), ResultsPane::NoResults));
    let db = build_db(PriceMatrixData { rows: vec![] }, None, 0);
    let rs = vec![build_result("a", "com", None, &db)];
    let stats = compute_stats(&rs);
    app.finish_search(rs, stats);
    app.error = Some("boom".to_string());
    match results_pane(&app) {
        ResultsPane::Error(e) => assert_eq!(e, "boom"),
        _ => panic!("expected the error pane"),
    }
}

#[test]
fn cells_and_lines() {
    let cells = vec![
        RegistrarCell { registrar_slug: "porkbun".to_string(), registrar_name: "Porkbun".to_string(), register_usd: None, renew_usd: Some(1250), transfer_usd: None, captured_at: None },
        RegistrarCell { registrar_slug: "dynadot".to_string(), registrar_name: "Dynadot".to_string(), register_usd: Some(999), renew_usd: Some(1500), transfer_usd: None, captured_at: None },
    ];
    let db = build_db(PriceMatrixData { rows: vec![PriceMatrixRow { tld: "com".to_string(), cells }] }, None, 0);
    let r = build_result("x", "com", Some(true), &db);
    assert_eq!(registrar_cell_text(&r, "porkbun"), "$12.50");
    assert_eq!(registrar_cell_text(&r, "dynadot"), "$9.99");
    assert_eq!(registrar_cell_text(&r, "godaddy"), "—");
    assert_eq!(best_cell_text(&r), "—");
    let mut app = App::new(Some(Arc::new(db)));
    assert_eq!(input_line(&app), "> coffeeshop");
    app.input = "shop".to_string();
    assert_eq!(input_line(&app), "> shop");
    app.input.clear();
    app.loading = true;
    assert_eq!(input_line(&app), "> ");
    app.loading = false;
    let rs = vec![r];
    let stats = compute_stats(&rs);
    app.finish_search(rs, stats);
    app.sort_by = SortBy::Domain;
    assert_eq!(results_title(&app), " Results (1/1) — sorted by domain name ");
}

#[test]
fn popup_geometry() {
    assert_eq!(popup_area(0, 0, 80, 20, 10), (33, 15, 14, 3));
    assert_eq!(popup_area(5, 2, 10, 3, 30), (5, 2, 34, 3));
}

#[test]
fn best_cell_shows_raw_price_and_name() {
    let index = PriceIndexData {
        rows: vec![PriceIndexRow {
            tld: "io".to_string(),
            register: Some(PriceIndexEntry { slug: "ovhcloud".to_string(), name: "OVHcloud".to_string(), usd: Some(3582) }),
            renew: None,
        }],
    };
    let db = build_db(PriceMatrixData { rows: vec![] }, Some(index), 0);
    let r = build_result("coffeeshop", "io", Some(false), &db);
    assert_eq!(best_cell_text(&r), "$35.82 OVHcloud");
}

#[test]
fn sort_labels() {
    assert_eq!(SortBy::Domain.label(), "domain name");
    assert_eq!(SortBy::Price.label(), "best price");
    assert_eq!(SortBy::Status.label(), "availability");
}

#[test]
fn cursor_follows_the_input() {
    let mut app = App::new(None);
    assert_eq!(cursor_column(&app, 1, 80), 3);
    app.input = "shop".to_string();
    assert_eq!(cursor_column(&app, 1, 80), 7);
    // counted in bytes, as the screen does
    app.input = "é".to_string();
    assert_eq!(cursor_column(&app, 1, 80), 5);
    // kept left of the right edge
    app.input = "a".repeat(100);
    assert_eq!(cursor_column(&app, 1, 80), 79);
    assert_eq!(cursor_column(&app, 1, 0), 0);
}
