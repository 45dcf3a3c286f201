//! The state of the search screen and how each key press changes it.
//! Opening a browser and running a search are left to the caller: a key
//! press answers with the address to open, and a search is begun and
//! finished by two calls around the lookups.
use std::sync::Arc;
use vstd::prelude::*;
use crate::config::{registrar_at, registrar_search_url, registrar_table, search_url, REGISTRAR_COUNT};
use crate::pricing::{age_string_at, age_text, age_at, now_epoch_nanos, PriceEntryView, PricingDb};
use crate::search::{best_view, count_with, DomainResult, SearchStats};
use crate::sorting::{cycle_sort, next_sort, sort_label, sort_results_by, stably_sorted, SortBy};
use crate::text::{
    decimal, lemma_blank_trims_to_nothing, lowercased, pop_char, push_char, push_decimal,
    to_lowercase, trim, trimmed, white_space, ascii_lower,
};

verus! {

/// A key, as the screen reads it.
#[derive(Clone, Copy, Debug)]
pub enum Key {
    Char(char),
    Backspace,
    Enter,
    Left,
    Right,
    Up,
    Down,
    Tab,
    Esc,
    Other,
}

/// The modifiers held with a key: none, Shift alone, Control alone, or
/// any other combination.
#[derive(Clone, Copy, Debug)]
pub enum Modifiers {
    Plain,
    Shift,
    Control,
    Other,
}

/// A key press.
#[derive(Clone, Copy, Debug)]
pub struct KeyPress {
    pub code: Key,
    pub modifiers: Modifiers,
}

/// What the caller is asked to do after a key press.
pub enum KeyAction {
    Nothing,
    /// Open this address in the browser.
    OpenUrl(String),
}

/// How many frames a notification stays on screen.
pub const NOTIFICATION_FRAMES: u8 = 12;

/// The search screen.
pub struct App {
    pub input: String,
    pub results: Vec<DomainResult>,
    pub stats: SearchStats,
    pub pricing_db: Option<Arc<PricingDb>>,
    pub loading: bool,
    pub has_searched: bool,
    pub error: Option<String>,
    pub selected_row: usize,
    pub selected_column: Option<usize>,
    pub sort_by: SortBy,
    pub scroll_offset: usize,
    pub notification: Option<(String, u8)>,
}

/// The mathematical value of the screen's state.
#[verifier::ext_equal]
pub struct AppView {
    pub input: Seq<char>,
    pub results: Seq<DomainResult>,
    pub stats: SearchStats,
    pub pricing_db: Option<Arc<PricingDb>>,
    pub loading: bool,
    pub has_searched: bool,
    pub error: Option<Seq<char>>,
    pub selected_row: usize,
    pub selected_column: Option<usize>,
    pub sort_by: SortBy,
    pub scroll_offset: usize,
    pub notification: Option<(Seq<char>, u8)>,
}

impl View for App {
    type V = AppView;

    open spec fn view(&self) -> AppView {
        AppView {
            input: self.input@,
            results: self.results@,
            stats: self.stats,
            pricing_db: self.pricing_db,
            loading: self.loading,
            has_searched: self.has_searched,
            error: match self.error {
                Some(e) => Some(e@),
                None => None,
            },
            selected_row: self.selected_row,
            selected_column: self.selected_column,
            sort_by: self.sort_by,
            scroll_offset: self.scroll_offset,
            notification: match self.notification {
                Some((m, f)) => Some((m@, f)),
                None => None,
            },
        }
    }
}

/// The screen's invariant: a selected row lies within the results (the
/// row is read when a registrar is opened for it).
pub open spec fn app_wf(v: AppView) -> bool {
    v.results.len() == 0 || v.selected_row < v.results.len()
}

/// The state with a notification shown for the usual number of frames.
pub open spec fn with_note(v: AppView, msg: Seq<char>) -> AppView {
    AppView { notification: Some((msg, 12)), ..v }
}

/// The column selection after a move left (`dir` < 0) or right: from no
/// selection to the first or last column, and past either end back to no
/// selection.
pub open spec fn moved_column(col: Option<usize>, dir: int) -> Option<usize> {
    match col {
        None => if dir > 0 {
            Some(0usize)
        } else {
            Some((REGISTRAR_COUNT - 1) as usize)
        },
        Some(i) => {
            let next = i + dir;
            if next < 0 || next >= REGISTRAR_COUNT {
                None
            } else {
                Some(next as usize)
            }
        },
    }
}

/// The notification naming the selected column.
pub open spec fn column_note(col: Option<usize>) -> Seq<char> {
    match col {
        Some(i) => if i < REGISTRAR_COUNT {
            " Column: "@ + registrar_table()[i as int].1 + seq![' ']
        } else {
            " Column: none "@
        },
        None => " Column: none "@,
    }
}

/// The position of the first cheapest registration price among entries.
pub open spec fn first_cheapest(prices: Seq<PriceEntryView>) -> Option<int>
    decreases prices.len(),
{
    if prices.len() == 0 {
        None
    } else {
        let rest = first_cheapest(prices.drop_last());
        let i = prices.len() - 1;
        match prices[i].register {
            None => rest,
            Some(p) => match rest {
                None => Some(i),
                Some(j) => if p < prices[j].register->0 {
                    Some(i)
                } else {
                    rest
                },
            },
        }
    }
}

/// The first cheapest entry is an entry with a registration price that no
/// entry undercuts and that every earlier priced entry exceeds; there is
/// none exactly when no entry has a registration price.
pub proof fn lemma_first_cheapest_is_first_minimum(prices: Seq<PriceEntryView>)
    ensures
        first_cheapest(prices) is None <==> forall|j: int|
            0 <= j < prices.len() ==> (#[trigger] prices[j]).register is None,
        first_cheapest(prices) matches Some(i) ==> {
            &&& 0 <= i < prices.len()
            &&& prices[i].register is Some
            &&& forall|j: int|
                0 <= j < prices.len() && (#[trigger] prices[j]).register is Some
                    ==> prices[i].register->0 <= prices[j].register->0
            &&& forall|j: int|
                0 <= j < i && (#[trigger] prices[j]).register is Some ==> prices[j].register->0
                    > prices[i].register->0
        },
    decreases prices.len(),
{
    if prices.len() > 0 {
        let rest = prices.drop_last();
        lemma_first_cheapest_is_first_minimum(rest);
        let last = prices.len() - 1;
        assert forall|j: int| 0 <= j < rest.len() implies rest[j] == prices[j] by {}
        if first_cheapest(prices) is None {
            assert forall|j: int| 0 <= j < prices.len() implies (#[trigger] prices[j]).register
                is None by {
                if j < last {
                    assert(rest[j] == prices[j]);
                }
            }
        }
        match first_cheapest(prices) {
            Some(i) => {
                assert forall|j: int|
                    0 <= j < prices.len() && (#[trigger] prices[j]).register is Some implies prices[i].register->0
                    <= prices[j].register->0 by {
                    if j < last {
                        assert(rest[j] == prices[j]);
                    }
                }
                assert forall|j: int|
                    0 <= j < i && (#[trigger] prices[j]).register is Some implies prices[j].register->0
                    > prices[i].register->0 by {
                    assert(rest[j] == prices[j]);
                }
            },
            None => {},
        }
    }
}

/// Without a best offer, `+` opens the first of the tracked registrars with
/// the cheapest registration price; with no registration price at all it
/// opens nothing.
pub proof fn lemma_plus_opens_cheapest(r: DomainResult)
    requires
        r.best is None,
    ensures
        cheapest_slug(r) is None <==> forall|j: int|
            0 <= j < r.prices.deep_view().len() ==> (#[trigger] r.prices.deep_view()[j]).register
                is None,
        cheapest_slug(r) matches Some(s) ==> exists|i: int|
            #![trigger r.prices.deep_view()[i]]
            0 <= i < r.prices.deep_view().len() && r.prices.deep_view()[i].slug == s
                && r.prices.deep_view()[i].register is Some && (forall|j: int|
                0 <= j < r.prices.deep_view().len() && (#[trigger] r.prices.deep_view()[j]).register
                    is Some ==> r.prices.deep_view()[i].register->0
                    <= r.prices.deep_view()[j].register->0) && (forall|j: int|
                0 <= j < i && (#[trigger] r.prices.deep_view()[j]).register is Some
                    ==> r.prices.deep_view()[j].register->0 > r.prices.deep_view()[i].register->0),
{
    lemma_first_cheapest_is_first_minimum(r.prices.deep_view());
}

/// With a best offer, `+` opens the best offer's registrar.
pub proof fn lemma_plus_opens_best_offer(r: DomainResult)
    requires
        r.best is Some,
    ensures
        cheapest_slug(r) == Some(r.best->0.slug@),
{
}

/// The registrar that `+` opens for a result: the best offer's, or else
/// the tracked registrar with the first cheapest registration price.
pub open spec fn cheapest_slug(r: DomainResult) -> Option<Seq<char>> {
    match best_view(r.best) {
        Some(b) => Some(b.slug),
        None => match first_cheapest(r.prices.deep_view()) {
            Some(i) => Some(r.prices.deep_view()[i].slug),
            None => None,
        },
    }
}

/// Opening the registrar `slug` for `domain`: the notification it shows,
/// and the address to open when the registrar has a URL template.
pub open spec fn open_effect(pre: AppView, slug: Seq<char>, domain: Seq<char>, post: AppView, act: KeyAction) -> bool {
    match search_url(slug, domain) {
        Some(u) => {
            &&& post == with_note(pre, " Opening "@ + slug + " for "@ + domain + seq![' '])
            &&& act matches KeyAction::OpenUrl(s) && s@ == u
        },
        None => {
            &&& post == with_note(pre, " No URL for registrar "@ + slug + seq![' '])
            &&& act is Nothing
        },
    }
}

/// `+`: opens the cheapest registrar of the selected result.
pub open spec fn cheapest_effect(pre: AppView, post: AppView, act: KeyAction) -> bool {
    if pre.results.len() == 0 {
        post == pre && act is Nothing
    } else {
        let r = pre.results[pre.selected_row as int];
        match cheapest_slug(r) {
            Some(s) => open_effect(pre, s, r.domain@, post, act),
            None => post == with_note(pre, " No price data to open a registrar "@) && act is Nothing,
        }
    }
}

/// The row a move keeps visible: the scroll offset comes up to the row.
pub open spec fn clamped_scroll(row: usize, offset: usize) -> usize {
    if row < offset {
        row
    } else {
        offset
    }
}

/// What a key press does to a screen that is not searching.
pub open spec fn key_effect(pre: AppView, key: KeyPress, post: AppView, act: KeyAction) -> bool {
    let n = pre.results.len();
    match key.code {
        Key::Char(c) => if (c == '+' || c == '=') && key.modifiers is Shift {
            cheapest_effect(pre, post, act)
        } else if key.modifiers is Plain || key.modifiers is Shift {
            post == (AppView { selected_column: None, input: pre.input.push(c), ..pre })
                && act is Nothing
        } else {
            post == pre && act is Nothing
        },
        Key::Backspace => {
            &&& post == (AppView {
                input: if pre.input.len() > 0 {
                    pre.input.drop_last()
                } else {
                    pre.input
                },
                ..pre
            })
            &&& act is Nothing
        },
        Key::Enter => if pre.selected_column is Some && n > 0 {
            let col = pre.selected_column->0;
            if col < REGISTRAR_COUNT {
                open_effect(
                    pre,
                    registrar_table()[col as int].0,
                    pre.results[pre.selected_row as int].domain@,
                    post,
                    act,
                )
            } else {
                post == pre && act is Nothing
            }
        } else if pre.input.len() > 0 {
            post == (AppView { loading: true, has_searched: true, error: None, ..pre })
                && act is Nothing
        } else {
            post == pre && act is Nothing
        },
        Key::Left => {
            &&& if n > 0 {
                let col = moved_column(pre.selected_column, -1);
                post == with_note(AppView { selected_column: col, ..pre }, column_note(col))
            } else {
                post == pre
            }
            &&& act is Nothing
        },
        Key::Right => {
            &&& if n > 0 {
                let col = moved_column(pre.selected_column, 1);
                post == with_note(AppView { selected_column: col, ..pre }, column_note(col))
            } else {
                post == pre
            }
            &&& act is Nothing
        },
        Key::Up => {
            &&& if n > 0 {
                let row = if pre.selected_row > 0 {
                    (pre.selected_row - 1) as usize
                } else {
                    0usize
                };
                post == (AppView {
                    selected_row: row,
                    scroll_offset: clamped_scroll(row, pre.scroll_offset),
                    ..pre
                })
            } else {
                post == pre
            }
            &&& act is Nothing
        },
        Key::Down => {
            &&& if n > 0 {
                let row = if pre.selected_row + 1 < n {
                    (pre.selected_row + 1) as usize
                } else {
                    (n - 1) as usize
                };
                post == (AppView {
                    selected_row: row,
                    scroll_offset: clamped_scroll(row, pre.scroll_offset),
                    ..pre
                })
            } else {
                post == pre
            }
            &&& act is Nothing
        },
        Key::Tab => {
            &&& if n > 0 {
                let mode = next_sort(pre.sort_by);
                &&& stably_sorted(mode, post.results, pre.results)
                &&& post == with_note(
                    AppView { results: post.results, sort_by: mode, ..pre },
                    " Sorted by "@ + sort_label(mode) + seq![' '],
                )
            } else {
                post == pre
            }
            &&& act is Nothing
        },
        Key::Esc => {
            &&& post == (AppView {
                selected_column: None,
                input: Seq::empty(),
                results: Seq::empty(),
                stats: SearchStats { total: 0, available: 0, taken: 0, unknown: 0 },
                error: None,
                has_searched: false,
                selected_row: 0,
                scroll_offset: 0,
                notification: None,
                ..pre
            })
            &&& act is Nothing
        },
        Key::Other => post == pre && act is Nothing,
    }
}

/// A notification after one frame: its frames count down, and it goes
/// away when they run out.
pub open spec fn ticked(n: Option<(Seq<char>, u8)>) -> Option<(Seq<char>, u8)> {
    match n {
        Some((m, f)) => if f <= 1 {
            None
        } else {
            Some((m, (f - 1) as u8))
        },
        None => None,
    }
}

/// A notification after `k` frames.
pub open spec fn ticked_times(n: Option<(Seq<char>, u8)>, k: nat) -> Option<(Seq<char>, u8)>
    decreases k,
{
    if k == 0 {
        n
    } else {
        ticked(ticked_times(n, (k - 1) as nat))
    }
}

/// A notification shown for `f` frames stays, unchanged but for its count,
/// for `f - 1` frames, and is gone after `f`.
pub proof fn lemma_notification_lifetime(m: Seq<char>, f: u8, k: nat)
    requires
        f >= 1,
    ensures
        k < f ==> ticked_times(Some((m, f)), k) == Some((m, (f - k) as u8)),
        k >= f ==> ticked_times(Some((m, f)), k) is None,
    decreases k,
{
    if k > 0 {
        lemma_notification_lifetime(m, f, (k - 1) as nat);
    }
}

/// Typing a character and then Backspace gives back the input as it was,
/// with no column selected.
pub proof fn lemma_backspace_undoes_typing(
    v0: AppView,
    c: char,
    m: Modifiers,
    v1: AppView,
    a1: KeyAction,
    bm: Modifiers,
    v2: AppView,
    a2: KeyAction,
)
    requires
        m is Plain || (m is Shift && c != '+' && c != '='),
        key_effect(v0, KeyPress { code: Key::Char(c), modifiers: m }, v1, a1),
        key_effect(v1, KeyPress { code: Key::Backspace, modifiers: bm }, v2, a2),
    ensures
        v2 == (AppView { selected_column: None, ..v0 }),
{
    assert(v1.input == v0.input.push(c));
    assert(v0.input.push(c).drop_last() =~= v0.input);
}

/// The keys that may read the selected row: `+` (or `=`) with Shift, which
/// opens the cheapest registrar, and Enter, which may open the selected
/// column's registrar.
pub open spec fn reads_row(key: KeyPress) -> bool {
    match key.code {
        Key::Char(c) => (c == '+' || c == '=') && key.modifiers is Shift,
        Key::Enter => true,
        _ => false,
    }
}

/// Whether a key press may read the selected row.
pub fn reads_selected_row(key: KeyPress) -> (r: bool)
    ensures
        r == reads_row(key),
{
    match key.code {
        Key::Char(c) => (c == '+' || c == '=') && match key.modifiers {
            Modifiers::Shift => true,
            _ => false,
        },
        Key::Enter => true,
        _ => false,
    }
}

/// Whether a key press ends the program: Ctrl+C, or `q` alone or with Ctrl.
pub open spec fn quits(key: KeyPress) -> bool {
    match key.code {
        Key::Char(c) => (c == 'c' && key.modifiers is Control) || (c == 'q' && (
        key.modifiers is Plain || key.modifiers is Control)),
        _ => false,
    }
}

/// Whether a key press ends the program.
pub fn is_quit_key(key: KeyPress) -> (r: bool)
    ensures
        r == quits(key),
{
    match key.code {
        Key::Char(c) => match key.modifiers {
            Modifiers::Control => c == 'c' || c == 'q',
            Modifiers::Plain => c == 'q',
            _ => false,
        },
        _ => false,
    }
}

/// The status line: what the screen is doing, or the counts, the order,
/// the age of the prices at `now` and the selected column.
pub open spec fn status_line(v: AppView, now: u128) -> Seq<char> {
    if v.loading {
        "Searching..."@
    } else if v.results.len() == 0 {
        if v.has_searched {
            "No results"@
        } else {
            "Type a domain name and press Enter"@
        }
    } else {
        let age = match v.pricing_db {
            Some(db) => age_text(age_at(db.fetched_at, now)),
            None => Seq::empty(),
        };
        let col = match v.selected_column {
            Some(i) => if i < REGISTRAR_COUNT {
                " · ["@ + registrar_table()[i as int].1 + "] selected"@
            } else {
                Seq::empty()
            },
            None => Seq::empty(),
        };
        decimal(v.stats.available as nat) + seq!['/'] + decimal(v.stats.total as nat)
            + " available · "@ + decimal(v.stats.taken as nat) + " taken · "@ + sort_label(
            v.sort_by,
        ) + " · prices "@ + age + col
    }
}

/// Once a search has results, the status line begins with the number of
/// free results over the total, followed by the number of taken ones; with
/// counts as a search makes them, these are the results answered free, all
/// results, and the results answered taken.
pub proof fn lemma_status_line_counts(v: AppView, now: u128)
    requires
        !v.loading,
        v.results.len() > 0,
    ensures
        exists|rest: Seq<char>|
            status_line(v, now) == decimal(v.stats.available as nat) + seq!['/'] + decimal(
                v.stats.total as nat,
            ) + " available · "@ + decimal(v.stats.taken as nat) + " taken · "@ + rest,
        v.stats.available == count_with(v.results, Some(true)) && v.stats.total == v.results.len()
            && v.stats.taken == count_with(v.results, Some(false)) ==> exists|rest: Seq<char>|
            status_line(v, now) == decimal(count_with(v.results, Some(true))) + seq!['/']
                + decimal(v.results.len()) + " available · "@ + decimal(
                count_with(v.results, Some(false)),
            ) + " taken · "@ + rest,
{
    let age = match v.pricing_db {
        Some(db) => age_text(age_at(db.fetched_at, now)),
        None => Seq::empty(),
    };
    let col = match v.selected_column {
        Some(i) => if i < REGISTRAR_COUNT {
            " · ["@ + registrar_table()[i as int].1 + "] selected"@
        } else {
            Seq::empty()
        },
        None => Seq::empty(),
    };
    let rest = sort_label(v.sort_by) + " · prices "@ + age + col;
    let head = decimal(v.stats.available as nat) + seq!['/'] + decimal(v.stats.total as nat)
        + " available · "@ + decimal(v.stats.taken as nat) + " taken · "@;
    assert(status_line(v, now) =~= head + rest);
}

impl App {
    /// A fresh screen over the given price tables.
    pub fn new(pricing_db: Option<Arc<PricingDb>>) -> (app: App)
        ensures
            app@.input.len() == 0,
            app@.results.len() == 0,
            app.stats.total == 0 && app.stats.available == 0 && app.stats.taken == 0
                && app.stats.unknown == 0,
            app.pricing_db == pricing_db,
            !app.loading,
            !app.has_searched,
            app.error is None,
            app.selected_row == 0,
            app.selected_column is None,
            app.sort_by == SortBy::Status,
            app.scroll_offset == 0,
            app.notification is None,
            app_wf(app@),
    {
        App {
            input: String::new(),
            results: Vec::new(),
            stats: SearchStats::default(),
            pricing_db,
            loading: false,
            has_searched: false,
            error: None,
            selected_row: 0,
            selected_column: None,
            sort_by: SortBy::Status,
            scroll_offset: 0,
            notification: None,
        }
    }

    fn notify(&mut self, msg: String)
        ensures
            final(self)@ == with_note(old(self)@, msg@),
    {
        self.notification = Some((msg, NOTIFICATION_FRAMES));
        assert(self@ =~= with_note(old(self)@, msg@));
    }

    fn open_registrar_url(&mut self, slug: &str, domain: &str) -> (act: KeyAction)
        ensures
            open_effect(old(self)@, slug@, domain@, final(self)@, act),
    {
        match registrar_search_url(slug, domain) {
            Some(url) => {
                let mut msg = String::from_str(" Opening ");
                msg.append(slug);
                msg.append(" for ");
                msg.append(domain);
                push_char(&mut msg, ' ');
                assert(msg@ =~= " Opening "@ + slug@ + " for "@ + domain@ + seq![' ']);
                self.notify(msg);
                KeyAction::OpenUrl(url)
            },
            None => {
                let mut msg = String::from_str(" No URL for registrar ");
                msg.append(slug);
                push_char(&mut msg, ' ');
                assert(msg@ =~= " No URL for registrar "@ + slug@ + seq![' ']);
                self.notify(msg);
                KeyAction::Nothing
            },
        }
    }

    #[verifier::rlimit(40)]
    fn cheapest_slug_of(entry: &DomainResult) -> (r: Option<String>)
        ensures
            match r {
                Some(s) => cheapest_slug(*entry) == Some(s@),
                None => cheapest_slug(*entry) is None,
            },
    {
        match &entry.best {
            Some(b) => {
                return Some(b.slug.clone());
            },
            None => {},
        }
        let ghost pv = entry.prices.deep_view();
        let n = entry.prices.len();
        let mut found: Option<usize> = None;
        let mut i: usize = 0;
        while i < n
            invariant
                n == entry.prices@.len(),
                pv == entry.prices.deep_view(),
                i <= n,
                match found {
                    Some(j) => first_cheapest(pv.subrange(0, i as int)) == Some(j as int) && j < i
                        && entry.prices@[j as int].register is Some,
                    None => first_cheapest(pv.subrange(0, i as int)) is None,
                },
            decreases n - i,
        {
            proof {
                let t = pv.subrange(0, i + 1);
                assert(t.drop_last() =~= pv.subrange(0, i as int));
                assert(t[i as int] == entry.prices@[i as int].deep_view());
                match found {
                    Some(j) => {
                        assert(t[j as int] == entry.prices@[j as int].deep_view());
                    },
                    None => {},
                }
            }
            match entry.prices[i].register {
                Some(p) => {
                    match found {
                        None => {
                            found = Some(i);
                        },
                        Some(j) => {
                            match entry.prices[j].register {
                                Some(q) => {
                                    if p < q {
                                        found = Some(i);
                                    }
                                },
                                None => {},
                            }
                        },
                    }
                },
                None => {},
            }
            i = i + 1;
        }
        assert(pv.subrange(0, n as int) =~= pv);
        match found {
            Some(j) => Some(entry.prices[j].registrar_slug.clone()),
            None => None,
        }
    }

    fn open_cheapest(&mut self) -> (act: KeyAction)
        requires
            app_wf(old(self)@),
        ensures
            cheapest_effect(old(self)@, final(self)@, act),
    {
        if self.results.len() == 0 {
            return KeyAction::Nothing;
        }
        let slug = App::cheapest_slug_of(&self.results[self.selected_row]);
        let domain = self.results[self.selected_row].domain.clone();
        match slug {
            Some(s) => self.open_registrar_url(s.as_str(), domain.as_str()),
            None => {
                self.notify(String::from_str(" No price data to open a registrar "));
                KeyAction::Nothing
            },
        }
    }

    fn open_selected_column(&mut self) -> (act: KeyAction)
        requires
            app_wf(old(self)@),
            old(self)@.results.len() > 0,
            old(self)@.selected_column is Some,
        ensures
            old(self)@.selected_column->0 < REGISTRAR_COUNT ==> open_effect(
                old(self)@,
                registrar_table()[old(self)@.selected_column->0 as int].0,
                old(self)@.results[old(self)@.selected_row as int].domain@,
                final(self)@,
                act,
            ),
            old(self)@.selected_column->0 >= REGISTRAR_COUNT ==> final(self)@ == old(self)@
                && act is Nothing,
    {
        let col = match self.selected_column {
            Some(c) => {
                if c < REGISTRAR_COUNT {
                    c
                } else {
                    return KeyAction::Nothing;
                }
            },
            None => return KeyAction::Nothing,
        };
        let reg = registrar_at(col);
        let domain = self.results[self.selected_row].domain.clone();
        self.open_registrar_url(reg.slug, domain.as_str())
    }

    fn move_column(&mut self, dir: i8)
        requires
            dir == 1 || dir == -1,
        ensures
            final(self)@ == (AppView {
                selected_column: moved_column(old(self)@.selected_column, dir as int),
                ..old(self)@
            }),
    {
        let n = REGISTRAR_COUNT;
        match self.selected_column {
            None => {
                self.selected_column = if dir > 0 {
                    Some(0)
                } else {
                    Some(n - 1)
                };
            },
            Some(i) => {
                if dir < 0 && i == 0 {
                    self.selected_column = None;
                } else if dir > 0 && i >= n - 1 {
                    self.selected_column = None;
                } else if dir > 0 {
                    self.selected_column = Some(i + 1);
                } else if i - 1 >= n {
                    self.selected_column = None;
                } else {
                    self.selected_column = Some(i - 1);
                }
            },
        }
        assert(self@ =~= AppView {
            selected_column: moved_column(old(self)@.selected_column, dir as int),
            ..old(self)@
        });
    }

    fn column_notification(&self) -> (s: String)
        ensures
            s@ == column_note(self.selected_column),
    {
        match self.selected_column {
            Some(i) => {
                if i < REGISTRAR_COUNT {
                    let reg = registrar_at(i);
                    let mut s = String::from_str(" Column: ");
                    s.append(reg.label);
                    push_char(&mut s, ' ');
                    return s;
                }
            },
            None => {},
        }
        String::from_str(" Column: none ")
    }

    fn clamp_scroll(&mut self)
        ensures
            final(self)@ == (AppView {
                scroll_offset: clamped_scroll(old(self).selected_row, old(self).scroll_offset),
                ..old(self)@
            }),
    {
        if self.selected_row < self.scroll_offset {
            self.scroll_offset = self.selected_row;
        }
        assert(self@ =~= AppView {
            scroll_offset: clamped_scroll(old(self).selected_row, old(self).scroll_offset),
            ..old(self)@
        });
    }

    /// Reorders the results by the current order.
    pub fn sort_results(&mut self)
        ensures
            stably_sorted(old(self).sort_by, final(self)@.results, old(self)@.results),
            final(self)@ == (AppView { results: final(self)@.results, ..old(self)@ }),
    {
        let mode = self.sort_by;
        sort_results_by(mode, &mut self.results);
        assert(self@ =~= AppView { results: self@.results, ..old(self)@ });
    }

    /// Handles a key press. While a search runs, keys are ignored.
    #[verifier::rlimit(40)]
    pub fn handle_key(&mut self, key: KeyPress) -> (act: KeyAction)
        requires
            reads_row(key) ==> app_wf(old(self)@),
        ensures
            app_wf(old(self)@) ==> app_wf(final(self)@),
            old(self).loading ==> final(self)@ == old(self)@ && act is Nothing,
            !old(self).loading ==> key_effect(old(self)@, key, final(self)@, act),
    {
        if self.loading {
            return KeyAction::Nothing;
        }
        let ghost pre = self@;
        match key.code {
            Key::Char(c) => {
                let shift = match key.modifiers {
                    Modifiers::Shift => true,
                    _ => false,
                };
                let plain = match key.modifiers {
                    Modifiers::Plain => true,
                    _ => false,
                };
                if (c == '+' || c == '=') && shift {
                    return self.open_cheapest();
                } else if plain || shift {
                    self.selected_column = None;
                    push_char(&mut self.input, c);
                    assert(self@ =~= AppView { selected_column: None, input: pre.input.push(c), ..pre });
                } else {
                    assert(self@ =~= pre);
                }
                KeyAction::Nothing
            },
            Key::Backspace => {
                pop_char(&mut self.input);
                assert(self@ =~= AppView {
                    input: if pre.input.len() > 0 {
                        pre.input.drop_last()
                    } else {
                        pre.input
                    },
                    ..pre
                });
                KeyAction::Nothing
            },
            Key::Enter => {
                if self.selected_column.is_some() && self.results.len() > 0 {
                    return self.open_selected_column();
                } else if !self.input.as_str().is_empty() {
                    self.loading = true;
                    self.has_searched = true;
                    self.error = None;
                    assert(self@ =~= AppView { loading: true, has_searched: true, error: None, ..pre });
                }
                KeyAction::Nothing
            },
            Key::Left => {
                if self.results.len() > 0 {
                    self.move_column(-1);
                    let msg = self.column_notification();
                    self.notify(msg);
                }
                KeyAction::Nothing
            },
            Key::Right => {
                if self.results.len() > 0 {
                    self.move_column(1);
                    let msg = self.column_notification();
                    self.notify(msg);
                }
                KeyAction::Nothing
            },
            Key::Up => {
                if self.results.len() > 0 {
                    self.selected_row = self.selected_row.saturating_sub(1);
                    self.clamp_scroll();
                }
                KeyAction::Nothing
            },
            Key::Down => {
                if self.results.len() > 0 {
                    let last = self.results.len() - 1;
                    self.selected_row = if self.selected_row < last {
                        self.selected_row + 1
                    } else {
                        last
                    };
                    self.clamp_scroll();
                }
                KeyAction::Nothing
            },
            Key::Tab => {
                if self.results.len() > 0 {
                    self.sort_by = cycle_sort(self.sort_by);
                    self.sort_results();
                    let mut msg = String::from_str(" Sorted by ");
                    msg.append(self.sort_by.label());
                    push_char(&mut msg, ' ');
                    assert(msg@ =~= " Sorted by "@ + sort_label(next_sort(pre.sort_by)) + seq![' ']);
                    self.notify(msg);
                    assert(self@ =~= with_note(
                        AppView { results: self@.results, sort_by: next_sort(pre.sort_by), ..pre },
                        " Sorted by "@ + sort_label(next_sort(pre.sort_by)) + seq![' '],
                    ));
                }
                KeyAction::Nothing
            },
            Key::Esc => {
                self.selected_column = None;
                self.input = String::new();
                self.results.clear();
                self.stats = SearchStats::default();
                self.error = None;
                self.has_searched = false;
                self.selected_row = 0;
                self.scroll_offset = 0;
                self.notification = None;
                assert(self@ =~= AppView {
                    selected_column: None,
                    input: Seq::empty(),
                    results: Seq::empty(),
                    stats: SearchStats { total: 0, available: 0, taken: 0, unknown: 0 },
                    error: None,
                    has_searched: false,
                    selected_row: 0,
                    scroll_offset: 0,
                    notification: None,
                    ..pre
                });
                KeyAction::Nothing
            },
            Key::Other => KeyAction::Nothing,
        }
    }

    /// Counts down the frames of the notification, which goes away when
    /// they run out.
    pub fn tick_notification(&mut self)
        ensures
            final(self)@ == (AppView { notification: ticked(old(self)@.notification), ..old(self)@ }),
    {
        let ghost pre = self@;
        let cur = self.notification.take();
        match cur {
            Some((m, f)) => {
                let left = f.saturating_sub(1);
                if left == 0 {
                    self.notification = None;
                } else {
                    self.notification = Some((m, left));
                }
            },
            None => {},
        }
        assert(self@ =~= AppView { notification: ticked(pre.notification), ..pre });
    }

    /// Begins the search that Enter asked for: the query is the input
    /// trimmed and lowercased. Without a query, or without price tables,
    /// the search ends at once (the latter with an error); otherwise the
    /// query comes back for the caller to look up.
    pub fn begin_search(&mut self) -> (q: Option<String>)
        ensures
            ({
                let query = lowercased(trimmed(old(self)@.input));
                if query.len() == 0 {
                    q is None && final(self)@ == (AppView { loading: false, ..old(self)@ })
                } else if old(self).pricing_db is None {
                    &&& q is None
                    &&& final(self)@ == (AppView {
                        error: Some("No pricing data available"@),
                        loading: false,
                        ..old(self)@
                    })
                } else {
                    q matches Some(s) && s@ == query && final(self)@ == old(self)@
                }
            }),
            (forall|i: int|
                0 <= i < old(self)@.input.len() ==> white_space(#[trigger] old(self)@.input[i]))
                ==> q is None && !final(self).loading,
    {
        let ghost pre = self@;
        proof {
            if forall|i: int| 0 <= i < pre.input.len() ==> white_space(#[trigger] pre.input[i]) {
                lemma_blank_trims_to_nothing(pre.input);
                assert(ascii_lower(trimmed(pre.input)) =~= Seq::<char>::empty());
            }
        }
        let trimmed_input = trim(self.input.as_str());
        let query = to_lowercase(trimmed_input.as_str());
        if query.as_str().is_empty() {
            self.loading = false;
            assert(self@ =~= AppView { loading: false, ..pre });
            return None;
        }
        if self.pricing_db.is_none() {
            self.error = Some(String::from_str("No pricing data available"));
            self.loading = false;
            assert(self@ =~= AppView {
                error: Some("No pricing data available"@),
                loading: false,
                ..pre
            });
            return None;
        }
        Some(query)
    }

    /// Finishes a search with its results and counts: the first row is
    /// selected, no column, and the results are put in the current order.
    pub fn finish_search(&mut self, results: Vec<DomainResult>, stats: SearchStats)
        ensures
            stably_sorted(old(self).sort_by, final(self)@.results, results@),
            final(self)@ == (AppView {
                results: final(self)@.results,
                stats,
                selected_row: 0,
                selected_column: None,
                scroll_offset: 0,
                loading: false,
                ..old(self)@
            }),
            app_wf(final(self)@),
    {
        let ghost pre = self@;
        self.results = results;
        self.stats = stats;
        self.selected_row = 0;
        self.selected_column = None;
        self.scroll_offset = 0;
        self.sort_results();
        self.loading = false;
        assert(self@ =~= AppView {
            results: self@.results,
            stats,
            selected_row: 0,
            selected_column: None,
            scroll_offset: 0,
            loading: false,
            ..pre
        });
    }

    /// The status line at time `now` (nanoseconds since the epoch).
    pub fn status_text_at(&self, now: u128) -> (s: String)
        ensures
            s@ == status_line(self@, now),
    {
        if self.loading {
            return String::from_str("Searching...");
        }
        if self.results.len() == 0 {
            if self.has_searched {
                return String::from_str("No results");
            }
            return String::from_str("Type a domain name and press Enter");
        }
        let age = match &self.pricing_db {
            Some(db) => age_string_at(db, now),
            None => String::new(),
        };
        let mut col = String::new();
        match self.selected_column {
            Some(i) => {
                if i < REGISTRAR_COUNT {
                    let reg = registrar_at(i);
                    col.append(" · [");
                    col.append(reg.label);
                    col.append("] selected");
                }
            },
            None => {},
        }
        let mut s = String::new();
        push_decimal(&mut s, self.stats.available as u128);
        push_char(&mut s, '/');
        push_decimal(&mut s, self.stats.total as u128);
        s.append(" available · ");
        push_decimal(&mut s, self.stats.taken as u128);
        s.append(" taken · ");
        s.append(self.sort_by.label());
        s.append(" · prices ");
        s.append(age.as_str());
        s.append(col.as_str());
        assert(s@ =~= status_line(self@, now));
        s
    }

    /// The status line now, as the system clock tells.
    pub fn status_text(&self) -> (s: String)
        ensures
            exists|now: u128| s@ == status_line(self@, now),
    {
        self.status_text_at(now_epoch_nanos())
    }
}

} // verus!
