//! What the screen shows, decided apart from the drawing: which pane the
//! results area holds, the texts of the cells and lines, how many
//! registrar columns fit, and where a notification pops up.
use vstd::prelude::*;
use vstd::utf8::encode_utf8;
use crate::app::{App, AppView};
use crate::config::REGISTRAR_COUNT;
use crate::pricing::{format_price, price_text, BestEntryView};
use crate::search::{best_view, DomainResult};
use crate::sorting::sort_label;
use crate::text::{decimal, push_char, push_decimal};

verus! {

/// The widths, in cells, of the fixed columns and the padding around them.
pub const MIN_DOMAIN_COL: i32 = 14;
pub const STATUS_COL: i32 = 8;
pub const BEST_COL: i32 = 9;
pub const TABLE_PADDING: i32 = 6;
pub const REGISTRAR_COL: i32 = 9;

/// How many registrar columns a terminal `width` cells wide shows: one
/// when not even the fixed columns fit, otherwise as many as fit, but at
/// least two and at most all of them.
pub open spec fn visible_count(width: int) -> int {
    let available = width - 37;
    if available <= 0 {
        1
    } else {
        let count = available / 9;
        if count > REGISTRAR_COUNT {
            REGISTRAR_COUNT as int
        } else if count < 2 {
            2
        } else {
            count
        }
    }
}

/// The number of registrar columns shown on a terminal `term_width` wide.
pub fn visible_registrar_count(term_width: u16) -> (n: usize)
    ensures
        n == visible_count(term_width as int),
        1 <= n <= REGISTRAR_COUNT,
{
    let available = term_width as i32 - MIN_DOMAIN_COL - STATUS_COL - BEST_COL - TABLE_PADDING;
    if available <= 0 {
        return 1;
    }
    let count = (available / REGISTRAR_COL) as usize;
    if count > REGISTRAR_COUNT {
        REGISTRAR_COUNT
    } else if count < 2 {
        2
    } else {
        count
    }
}

/// What the results area shows.
pub enum ResultsPane {
    /// The help text, before anything was typed or searched.
    Help,
    /// The search in progress.
    Searching,
    /// A search that found nothing.
    NoResults,
    /// The last error.
    Error(String),
    /// The table of results.
    Table,
}

/// Which pane the results area holds.
pub fn results_pane(app: &App) -> (p: ResultsPane)
    ensures
        app@.input.len() == 0 && app@.results.len() == 0 && !app@.has_searched ==> p is Help,
        !(app@.input.len() == 0 && app@.results.len() == 0 && !app@.has_searched) ==> {
            if app@.loading {
                p is Searching
            } else if app@.results.len() == 0 && app@.has_searched {
                p is NoResults
            } else if app@.error is Some {
                p matches ResultsPane::Error(e) && Some(e@) == app@.error
            } else {
                p is Table
            }
        },
{
    if app.input.as_str().is_empty() && app.results.len() == 0 && !app.has_searched {
        return ResultsPane::Help;
    }
    if app.loading {
        return ResultsPane::Searching;
    }
    if app.results.len() == 0 && app.has_searched {
        return ResultsPane::NoResults;
    }
    match &app.error {
        Some(e) => ResultsPane::Error(e.clone()),
        None => ResultsPane::Table,
    }
}

/// The text of the "Best" cell: the raw price and the registrar's name,
/// or a dash.
pub open spec fn best_cell(best: Option<BestEntryView>) -> Seq<char> {
    match best {
        Some(b) => match b.price {
            Some(p) => price_text(Some(p)) + seq![' '] + b.name,
            None => seq!['—'],
        },
        None => seq!['—'],
    }
}

/// The text of a result's "Best" cell.
pub fn best_cell_text(r: &DomainResult) -> (s: String)
    ensures
        s@ == best_cell(best_view(r.best)),
{
    match &r.best {
        Some(b) => match b.price {
            Some(p) => {
                let mut s = format_price(Some(p));
                push_char(&mut s, ' ');
                s.append(b.name.as_str());
                assert(s@ =~= best_cell(best_view(r.best)));
                s
            },
            None => {
                let mut s = String::new();
                push_char(&mut s, '—');
                assert(s@ =~= seq!['—']);
                s
            },
        },
        None => {
            let mut s = String::new();
            push_char(&mut s, '—');
            assert(s@ =~= seq!['—']);
            s
        },
    }
}

/// The text of a result's cell for registrar `slug`: its registration
/// price, or its renewal price when it has none, or a dash.
pub fn registrar_cell_text(r: &DomainResult, slug: &str) -> (s: String)
    ensures
        s@ == if r.price_map.contents().contains_key(slug@) {
            let e = r.price_map.contents()[slug@];
            price_text(if e.register is Some { e.register } else { e.renew })
        } else {
            seq!['—']
        },
{
    match r.price_map.get(slug) {
        Some(p) => {
            let price = match p.register {
                Some(x) => Some(x),
                None => p.renew,
            };
            format_price(price)
        },
        None => {
            let mut s = String::new();
            push_char(&mut s, '—');
            assert(s@ =~= seq!['—']);
            s
        },
    }
}

/// The input line: the prompt, then the input, or an example name while
/// the input is empty and no search runs.
pub open spec fn input_text(v: AppView) -> Seq<char> {
    if v.input.len() == 0 && !v.loading {
        "> "@ + "coffeeshop"@
    } else {
        "> "@ + v.input
    }
}

/// The text of the input line.
pub fn input_line(app: &App) -> (s: String)
    ensures
        s@ == input_text(app@),
{
    let mut s = String::from_str("> ");
    if app.input.as_str().is_empty() && !app.loading {
        s.append("coffeeshop");
    } else {
        s.append(app.input.as_str());
    }
    s
}

/// The title of the results table: the counts and the order.
pub open spec fn table_title(v: AppView) -> Seq<char> {
    " Results ("@ + decimal(v.stats.available as nat) + seq!['/'] + decimal(v.stats.total as nat)
        + ") — sorted by "@ + sort_label(v.sort_by) + seq![' ']
}

/// The title of the results table.
pub fn results_title(app: &App) -> (s: String)
    ensures
        s@ == table_title(app@),
{
    let mut s = String::from_str(" Results (");
    push_decimal(&mut s, app.stats.available as u128);
    push_char(&mut s, '/');
    push_decimal(&mut s, app.stats.total as u128);
    s.append(") — sorted by ");
    s.append(app.sort_by.label());
    push_char(&mut s, ' ');
    assert(s@ =~= table_title(app@));
    s
}

/// The column of the input cursor: after the prompt and the input (counted
/// in bytes, as the screen does), but left of the area's right edge
/// `right`. Columns are 16-bit screen cells and wrap as such.
pub fn cursor_column(app: &App, inner_x: u16, right: u16) -> (x: u16)
    ensures
        ({
            let pos = (inner_x + (encode_utf8(app.input@).len() as usize) as int % 0x10000 + 2) % 0x10000;
            let edge = if right >= 1 {
                right - 1
            } else {
                0
            };
            x == if pos < edge {
                pos
            } else {
                edge
            }
        }),
{
    let n = app.input.as_str().len();
    let len16 = (n % 0x10000) as u16;
    let x = inner_x.wrapping_add(len16).wrapping_add(2);
    let edge = right.saturating_sub(1);
    if x < edge {
        x
    } else {
        edge
    }
}

/// Where a notification of `msg_len` bytes pops up in an area: centred,
/// four cells wider than the message, three rows high, two rows above the
/// bottom. Sizes are 16-bit screen cells and wrap as such.
pub fn popup_area(x: u16, y: u16, width: u16, height: u16, msg_len: usize) -> (r: (
    u16,
    u16,
    u16,
    u16,
))
    ensures
        r.2 == (msg_len % 0x10000 + 4) % 0x10000,
        r.3 == 3,
        r.0 == (x + (if width >= r.2 {
            width - r.2
        } else {
            0
        }) / 2) % 0x10000,
        r.1 == (y + (if height >= 5 {
            height - 5
        } else {
            0
        })) % 0x10000,
{
    let len16 = (msg_len % 0x10000) as u16;
    let w = len16.wrapping_add(4);
    let h: u16 = 3;
    let px = x.wrapping_add(width.saturating_sub(w) / 2);
    let py = y.wrapping_add(height.saturating_sub(h + 2));
    (px, py, w, h)
}

} // verus!
