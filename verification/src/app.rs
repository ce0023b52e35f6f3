//! The screen-transition state machine: three screens (season list, race
//! list, weekend detail), driven by six key inputs. A cursor move over the
//! seasons triggers at most one fetch request for the newly current season;
//! entering or re-tabbing the detail screen rebuilds the displayed ranking
//! from the active session's standings, so it is never stale.

use vstd::prelude::*;

use crate::cache::CacheView;
use crate::cache::SeasonCache;
use crate::data::Session;
use crate::data::Standing;
use crate::data::Weekend;
use crate::data::clone_standings;
use crate::data::session_labels;
use crate::list::CyclicSelectionList;
use crate::list::ListView;
use crate::tabs::TabIndex;
use crate::tabs::TabsView;

verus! {

/// Which screen is shown and receives the navigation keys.
#[derive(PartialEq, Eq, Structural, Clone, Copy, Debug)]
pub enum SelectedScreen {
    SeasonList,
    RaceList,
    WeekendDetail,
}

/// The fixed input alphabet: quit, four directional moves, and confirm.
/// Every other key is ignored before it reaches the state machine.
#[derive(PartialEq, Eq, Structural, Clone, Copy, Debug)]
pub enum KeyInput {
    Quit,
    Up,
    Down,
    Left,
    Right,
    Confirm,
}

/// What the render loop must do after a key was handled: stop the process,
/// and/or dispatch one fetch request to the background worker.
pub struct Outcome {
    pub quit: bool,
    pub request: Option<i32>,
}

/// Mathematical model of the whole application state.
#[verifier::ext_equal]
pub struct AppView {
    pub screen: SelectedScreen,
    pub current_season: i32,
    pub seasons: ListView<i32>,
    pub ranking: ListView<Standing>,
    pub cache: CacheView,
    pub detail_tabs: TabsView,
}

/// The session-type labels of a weekend, in session order.
pub open spec fn labels_of(w: Weekend) -> Seq<String> {
    w.sessions@.map_values(|s: Session| s.session_type)
}

/// The standings shown for tab `index` of weekend `w`: those of session
/// `index`, or none when the weekend has no such session.
pub open spec fn shown_standings(w: Weekend, index: int) -> Seq<Standing> {
    if 0 <= index < w.sessions@.len() {
        w.sessions@[index].standings@
    } else {
        Seq::empty()
    }
}

impl AppView {
    /// Whether the current season is cached with a valid weekend selection:
    /// the precondition for showing or entering the detail screen.
    pub open spec fn weekend_resolved(self) -> bool {
        &&& self.cache.cached.dom().contains(self.current_season)
        &&& (self.cache.cached[self.current_season].selected matches Some(i) && 0 <= i
            < self.cache.cached[self.current_season].items.len())
    }

    /// The weekend the detail screen shows (meaningful when resolved).
    pub open spec fn selected_weekend(self) -> Weekend {
        let wl = self.cache.cached[self.current_season];
        wl.items[wl.selected->0]
    }

    /// On the detail screen: the weekend is resolved, the tabs are exactly
    /// its session labels, and the ranking is exactly the standings of the
    /// session under the tab cursor — never a stale copy.
    pub open spec fn detail_wf(self) -> bool {
        &&& self.weekend_resolved()
        &&& self.detail_tabs.labels == labels_of(self.selected_weekend())
        &&& self.ranking.items == shown_standings(
            self.selected_weekend(),
            self.detail_tabs.index,
        )
    }

    /// Well-formedness of the whole state.
    pub open spec fn wf(self) -> bool {
        &&& self.seasons.wf()
        &&& self.ranking.wf()
        &&& self.detail_tabs.wf()
        &&& self.cache.wf()
        &&& (self.screen != SelectedScreen::SeasonList ==> self.cache.cached.dom().contains(
            self.current_season,
        ))
        &&& (self.screen == SelectedScreen::WeekendDetail ==> self.detail_wf())
    }
}

/// Quit: one level back from the detail screen, otherwise stop the process.
pub open spec fn quit_step(pre: AppView) -> (AppView, bool, Option<i32>) {
    if pre.screen == SelectedScreen::WeekendDetail {
        ((AppView { screen: SelectedScreen::RaceList, ..pre }), false, None)
    } else {
        (pre, true, None)
    }
}

/// Make the season under the cursor current and decide whether its weekends
/// must be fetched: a request goes out only when the season is neither
/// cached nor already in flight.
pub open spec fn load_spec(pre: AppView) -> (AppView, Option<i32>) {
    if pre.seasons.items.len() == 0 {
        (pre, None)
    } else {
        let sel = match pre.seasons.selected {
            Some(i) => i,
            None => 0int,
        };
        let year = pre.seasons.items[sel];
        (
            (AppView { current_season: year, cache: pre.cache.request_spec(year), ..pre }),
            if pre.cache.needs_request(year) {
                Some(year)
            } else {
                None
            },
        )
    }
}

/// A cursor move over the season list, followed by the load decision.
pub open spec fn season_move(pre: AppView, forward: bool) -> (AppView, bool, Option<i32>) {
    let seasons = if forward {
        pre.seasons.next_spec()
    } else {
        pre.seasons.previous_spec()
    };
    let moved = AppView { seasons, ..pre };
    let loaded = load_spec(moved);
    (loaded.0, false, loaded.1)
}

/// A cursor move over the current season's weekend list.
pub open spec fn race_move(pre: AppView, forward: bool) -> AppView {
    if pre.cache.cached.dom().contains(pre.current_season) {
        let wl = pre.cache.cached[pre.current_season];
        let wl2 = if forward {
            wl.next_spec()
        } else {
            wl.previous_spec()
        };
        AppView { cache: pre.cache.with_list(pre.current_season, wl2), ..pre }
    } else {
        pre
    }
}

/// A cursor move over the displayed ranking.
pub open spec fn ranking_move(pre: AppView, forward: bool) -> AppView {
    AppView {
        ranking: if forward {
            pre.ranking.next_spec()
        } else {
            pre.ranking.previous_spec()
        },
        ..pre
    }
}

/// Enter the race list, when the current season's weekends are cached, and
/// select the first weekend (no selection when the season has none).
pub open spec fn enter_race_list(pre: AppView) -> AppView {
    if pre.cache.cached.dom().contains(pre.current_season) {
        let wl = pre.cache.cached[pre.current_season];
        AppView {
            screen: SelectedScreen::RaceList,
            cache: pre.cache.with_list(
                pre.current_season,
                ListView::fresh_selected(wl.items),
            ),
            ..pre
        }
    } else {
        pre
    }
}

/// Enter the detail screen for the selected weekend: the tab set becomes
/// its session labels with the cursor reset to 0, and the ranking is
/// rebuilt from the first session's standings.
pub open spec fn enter_detail(pre: AppView) -> AppView {
    if pre.weekend_resolved() {
        let w = pre.selected_weekend();
        AppView {
            screen: SelectedScreen::WeekendDetail,
            detail_tabs: TabsView { labels: labels_of(w), index: 0int },
            ranking: ListView::fresh_selected(shown_standings(w, 0)),
            ..pre
        }
    } else {
        pre
    }
}

/// Move the tab cursor and rebuild the ranking from the newly active
/// session's standings, with the first row selected when there is one.
pub open spec fn tab_change(pre: AppView, forward: bool) -> AppView {
    if pre.weekend_resolved() {
        let tabs = if forward {
            pre.detail_tabs.next_spec()
        } else {
            pre.detail_tabs.previous_spec()
        };
        let w = pre.selected_weekend();
        AppView {
            detail_tabs: tabs,
            ranking: ListView::fresh_selected(shown_standings(w, tabs.index)),
            ..pre
        }
    } else {
        pre
    }
}

/// The full transition relation of the state machine: the state after one
/// key, whether the process stops, and the fetch request to dispatch.
pub open spec fn step(pre: AppView, key: KeyInput) -> (AppView, bool, Option<i32>) {
    match key {
        KeyInput::Quit => quit_step(pre),
        KeyInput::Down => match pre.screen {
            SelectedScreen::SeasonList => season_move(pre, true),
            SelectedScreen::RaceList => (race_move(pre, true), false, None),
            SelectedScreen::WeekendDetail => (ranking_move(pre, true), false, None),
        },
        KeyInput::Up => match pre.screen {
            SelectedScreen::SeasonList => season_move(pre, false),
            SelectedScreen::RaceList => (race_move(pre, false), false, None),
            SelectedScreen::WeekendDetail => (ranking_move(pre, false), false, None),
        },
        KeyInput::Left => match pre.screen {
            SelectedScreen::SeasonList => (pre, false, None),
            SelectedScreen::RaceList => (
                (AppView { screen: SelectedScreen::SeasonList, ..pre }),
                false,
                None,
            ),
            SelectedScreen::WeekendDetail => (tab_change(pre, false), false, None),
        },
        KeyInput::Right => match pre.screen {
            SelectedScreen::SeasonList => (enter_race_list(pre), false, None),
            SelectedScreen::RaceList => (pre, false, None),
            SelectedScreen::WeekendDetail => (tab_change(pre, true), false, None),
        },
        KeyInput::Confirm => match pre.screen {
            SelectedScreen::SeasonList => (enter_race_list(pre), false, None),
            SelectedScreen::RaceList => (enter_detail(pre), false, None),
            SelectedScreen::WeekendDetail => (pre, false, None),
        },
    }
}

/// Law: after any tab change on the detail screen, the displayed ranking's
/// contents are exactly the standings of the newly active session, and its
/// selected index is 0 whenever there is a row to select.
pub proof fn lemma_tab_change_fresh_ranking(pre: AppView, key: KeyInput)
    requires
        pre.wf(),
        pre.screen == SelectedScreen::WeekendDetail,
        key == KeyInput::Left || key == KeyInput::Right,
    ensures
        ({
            let post = step(pre, key).0;
            &&& post.ranking.items == shown_standings(
                pre.selected_weekend(),
                post.detail_tabs.index,
            )
            &&& post.ranking.selected == (if post.ranking.items.len() == 0 {
                None::<int>
            } else {
                Some(0int)
            })
        }),
{
}

/// The whole application state: the current screen, the season under
/// navigation, the cursors, and the season cache.
pub struct App {
    pub screen: SelectedScreen,
    pub current_season: i32,
    pub seasons: CyclicSelectionList<i32>,
    pub ranking: CyclicSelectionList<Standing>,
    pub cache: SeasonCache,
    pub detail_tabs: TabIndex,
}

impl View for App {
    type V = AppView;

    open spec fn view(&self) -> AppView {
        AppView {
            screen: self.screen,
            current_season: self.current_season,
            seasons: self.seasons@,
            ranking: self.ranking@,
            cache: self.cache@,
            detail_tabs: self.detail_tabs@,
        }
    }
}

/// The initial state over the given selectable seasons: season-list screen,
/// selection unset, nothing displayed yet, and one fetch request for the
/// first (most recent) season when there is one.
pub open spec fn init_spec(seasons: Seq<i32>) -> (AppView, Option<i32>) {
    let base = AppView {
        screen: SelectedScreen::SeasonList,
        current_season: 0,
        seasons: ListView::fresh(seasons),
        ranking: ListView::fresh(Seq::empty()),
        cache: CacheView { cached: Map::empty(), pending: Set::empty() },
        detail_tabs: TabsView { labels: Seq::empty(), index: 0int },
    };
    if seasons.len() == 0 {
        (base, None)
    } else {
        let year = seasons[0];
        (
            (AppView { current_season: year, cache: base.cache.request_spec(year), ..base }),
            Some(year),
        )
    }
}

impl App {
    /// Representation and model invariant, established by [`App::new`] and
    /// preserved by every operation.
    pub open spec fn inv(self) -> bool {
        &&& self.cache.inv()
        &&& self@.wf()
    }

    /// Build the initial state from the catalog of selectable seasons, and
    /// return the fetch request owed for the first one (none when the
    /// catalog is empty, which higher layers show as "no seasons").
    pub fn new(seasons: Vec<i32>) -> (r: (App, Option<i32>))
        ensures
            r.0.inv(),
            (r.0@, r.1) == init_spec(seasons@),
    {
        let mut cache = SeasonCache::new();
        let mut request: Option<i32> = None;
        let mut current: i32 = 0;
        if seasons.len() > 0 {
            current = seasons[0];
            let dispatch = cache.request(current);
            if dispatch {
                request = Some(current);
            }
            proof {
                assert(dispatch);
            }
        }
        let app = App {
            screen: SelectedScreen::SeasonList,
            current_season: current,
            seasons: CyclicSelectionList::with_items(seasons),
            ranking: CyclicSelectionList::new(),
            cache,
            detail_tabs: TabIndex::new(Vec::new()),
        };
        proof {
            app.cache.lemma_inv_view_wf();
            assert(app@ =~= init_spec(app.seasons@.items).0);
            assert(request == init_spec(app.seasons@.items).1);
        }
        (app, request)
    }
}

/// Make the season under the cursor current, and return the fetch request
/// to dispatch, if its weekends are neither cached nor already in flight.
pub fn load_weekends_for_season(app: &mut App) -> (request: Option<i32>)
    requires
        old(app).inv(),
        old(app)@.screen == SelectedScreen::SeasonList,
    ensures
        final(app).inv(),
        (final(app)@, request) == load_spec(old(app)@),
{
    if app.seasons.len() == 0 {
        return None;
    }
    let sel: usize = match app.seasons.selected {
        Some(i) => i,
        None => 0,
    };
    proof {
        assert(sel < app.seasons.items@.len());
    }
    app.current_season = app.seasons.items[sel];
    let dispatch = app.cache.request(app.current_season);
    proof {
        app.cache.lemma_inv_view_wf();
        assert(app@ =~= load_spec(old(app)@).0);
    }
    if dispatch {
        Some(app.current_season)
    } else {
        None
    }
}

/// Apply one key to the state: the screen-dependent transition of the
/// state machine. Returns whether the process stops and the fetch request
/// the caller must forward to the background worker.
pub fn handle(app: &mut App, key: KeyInput) -> (r: Outcome)
    requires
        old(app).inv(),
    ensures
        final(app).inv(),
        (final(app)@, r.quit, r.request) == step(old(app)@, key),
{
    match key {
        KeyInput::Quit => {
            if app.screen == SelectedScreen::WeekendDetail {
                app.screen = SelectedScreen::RaceList;
                proof {
                    assert(app@ =~= quit_step(old(app)@).0);
                }
                Outcome { quit: false, request: None }
            } else {
                Outcome { quit: true, request: None }
            }
        },
        KeyInput::Down | KeyInput::Up => {
            let forward = matches!(key, KeyInput::Down);
            match app.screen {
                SelectedScreen::SeasonList => {
                    if forward {
                        app.seasons.next();
                    } else {
                        app.seasons.previous();
                    }
                    let request = load_weekends_for_season(app);
                    proof {
                        assert(app@ =~= season_move(old(app)@, forward).0);
                    }
                    Outcome { quit: false, request }
                },
                SelectedScreen::RaceList => {
                    if forward {
                        app.cache.next_weekend(app.current_season);
                    } else {
                        app.cache.previous_weekend(app.current_season);
                    }
                    proof {
                        app.cache.lemma_inv_view_wf();
                        assert(app@ =~= race_move(old(app)@, forward));
                    }
                    Outcome { quit: false, request: None }
                },
                SelectedScreen::WeekendDetail => {
                    if forward {
                        app.ranking.next();
                    } else {
                        app.ranking.previous();
                    }
                    proof {
                        assert(app@ =~= ranking_move(old(app)@, forward));
                    }
                    Outcome { quit: false, request: None }
                },
            }
        },
        KeyInput::Left | KeyInput::Right | KeyInput::Confirm => {
            let forward = matches!(key, KeyInput::Right);
            match app.screen {
                SelectedScreen::SeasonList => {
                    if !matches!(key, KeyInput::Left) {
                        do_enter_race_list(app);
                    }
                    Outcome { quit: false, request: None }
                },
                SelectedScreen::RaceList => {
                    if matches!(key, KeyInput::Left) {
                        app.screen = SelectedScreen::SeasonList;
                    } else if matches!(key, KeyInput::Confirm) {
                        do_enter_detail(app);
                    }
                    Outcome { quit: false, request: None }
                },
                SelectedScreen::WeekendDetail => {
                    if !matches!(key, KeyInput::Confirm) {
                        do_tab_change(app, forward);
                    }
                    Outcome { quit: false, request: None }
                },
            }
        },
    }
}

/// Enter the race list from the season list, when the current season's
/// weekends are cached.
fn do_enter_race_list(app: &mut App)
    requires
        old(app).inv(),
        old(app)@.screen == SelectedScreen::SeasonList,
    ensures
        final(app).inv(),
        final(app)@ == enter_race_list(old(app)@),
{
    if app.cache.is_cached(app.current_season) {
        app.screen = SelectedScreen::RaceList;
        app.cache.select_first_weekend(app.current_season);
        proof {
            app.cache.lemma_inv_view_wf();
            assert(app@ =~= enter_race_list(old(app)@));
        }
    }
}

/// Enter the detail screen from the race list, when a weekend selection is
/// resolved: initialize the tabs from its session labels and rebuild the
/// ranking from the first session's standings.
fn do_enter_detail(app: &mut App)
    requires
        old(app).inv(),
        old(app)@.screen == SelectedScreen::RaceList,
    ensures
        final(app).inv(),
        final(app)@ == enter_detail(old(app)@),
{
    let wl = app.cache.weekend_list(app.current_season);
    match wl.selected_item() {
        Some(w) => {
            let labels = session_labels(w);
            let standings: Vec<Standing> = if w.sessions.len() > 0 {
                clone_standings(&w.sessions[0].standings)
            } else {
                Vec::new()
            };
            proof {
                assert(standings@ == shown_standings(old(app)@.selected_weekend(), 0));
            }
            app.screen = SelectedScreen::WeekendDetail;
            app.detail_tabs = TabIndex::new(labels);
            app.ranking = CyclicSelectionList::with_items_selected(standings);
            proof {
                assert(app@ =~= enter_detail(old(app)@));
            }
        },
        None => {
        },
    }
}

/// Move the tab cursor on the detail screen and rebuild the ranking from
/// the newly active session's standings.
fn do_tab_change(app: &mut App, forward: bool)
    requires
        old(app).inv(),
        old(app)@.screen == SelectedScreen::WeekendDetail,
    ensures
        final(app).inv(),
        final(app)@ == tab_change(old(app)@, forward),
{
    if forward {
        app.detail_tabs.next();
    } else {
        app.detail_tabs.previous();
    }
    let wl = app.cache.weekend_list(app.current_season);
    match wl.selected_item() {
        Some(w) => {
            let t = app.detail_tabs.index;
            let standings: Vec<Standing> = if t < w.sessions.len() {
                clone_standings(&w.sessions[t].standings)
            } else {
                Vec::new()
            };
            proof {
                assert(standings@ == shown_standings(
                    old(app)@.selected_weekend(),
                    app.detail_tabs@.index,
                ));
            }
            app.ranking = CyclicSelectionList::with_items_selected(standings);
            proof {
                assert(app@ =~= tab_change(old(app)@, forward));
            }
        },
        None => {
            proof {
                assert(false);
            }
        },
    }
}

/// The background worker's result handling: a failed fetch is swallowed
/// and surfaced as an empty weekend list, never as an error.
pub fn weekends_or_empty(fetched: Option<Vec<Weekend>>) -> (r: Vec<Weekend>)
    ensures
        match fetched {
            Some(w) => r == w,
            None => r@.len() == 0,
        },
{
    match fetched {
        Some(w) => w,
        None => Vec::new(),
    }
}

} // verus!
