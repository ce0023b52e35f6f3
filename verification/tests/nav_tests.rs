use race_dash::App;
use race_dash::Circuit;
use race_dash::CyclicSelectionList;
use race_dash::Driver;
use race_dash::KeyInput;
use race_dash::SeasonCache;
use race_dash::SelectedScreen;
use race_dash::Session;
use race_dash::Standing;
use race_dash::TabIndex;
use race_dash::Weekend;
use race_dash::handle;
use race_dash::weekends_or_empty;

fn standing(pos: i32, name: &str, time: &str) -> Standing {
    Standing {
        position: pos,
        driver: Driver { screen_name: name.to_string() },
        lap_time: time.to_string(),
    }
}

fn session(kind: &str, standings: Vec<Standing>) -> Session {
    Session { session_type: kind.to_string(), standings }
}

fn circuit(name: &str) -> Circuit {
    Circuit {
        name: name.to_string(),
        country: "Country".to_string(),
        locality: "Locality".to_string(),
        latitude: "1.0".to_string(),
        longitude: "2.0".to_string(),
    }
}

fn weekend(name: &str, sessions: Vec<Session>) -> Weekend {
    Weekend { name: name.to_string(), circuit: circuit("Circuit"), sessions }
}

fn three_weekends_2022() -> Vec<Weekend> {
    vec![
        weekend(
            "First Grand Prix",
            vec![
                session("Practice", vec![standing(1, "AAA", "1:30.000")]),
                session("Race", vec![standing(1, "BBB", "1:29.000")]),
            ],
        ),
        weekend(
            "Second Grand Prix",
            vec![
                session(
                    "Practice",
                    vec![standing(1, "VER", "1:28.997"), standing(2, "HAM", "1:29.385")],
                ),
                session("Qualifying", vec![standing(1, "HAM", "1:27.000")]),
                session("Race", vec![standing(1, "PER", "1:31.000")]),
            ],
        ),
        weekend("Third Grand Prix", vec![session("Race", vec![standing(1, "LEC", "1:33.111")])]),
    ]
}

// A non-empty list of length N: `next` called N times from an unset
// selection passes index 0 exactly once, on the first call.
#[test]
fn cyclic_next_full_cycle_visits_zero_once() {
    let n = 5;
    let items: Vec<i32> = (0..n).collect();
    let mut list = CyclicSelectionList::with_items(items);
    assert_eq!(list.selected, None);
    let mut zero_hits = 0;
    for k in 0..n {
        list.next();
        assert_eq!(list.selected, Some(k as usize));
        if list.selected == Some(0) {
            zero_hits += 1;
        }
    }
    assert_eq!(zero_hits, 1);
    // one more wraps back to 0
    list.next();
    assert_eq!(list.selected, Some(0));
}

// `next` followed immediately by `previous` restores the selected index.
#[test]
fn cyclic_next_then_previous_restores() {
    let items: Vec<i32> = vec![10, 20, 30, 40];
    let mut list = CyclicSelectionList::with_items(items);
    for start in 0..4 {
        list.select(Some(start));
        list.next();
        list.previous();
        assert_eq!(list.selected, Some(start));
    }
}

// An empty list: `next`/`previous` leave the selection `None`, no panic.
#[test]
fn cyclic_empty_list_is_inert() {
    let mut list: CyclicSelectionList<i32> = CyclicSelectionList::new();
    list.next();
    assert_eq!(list.selected, None);
    list.previous();
    assert_eq!(list.selected, None);
    assert!(list.selected_item().is_none());
}

#[test]
fn cyclic_selected_item_returns_element() {
    let mut list = CyclicSelectionList::with_items(vec![7, 8, 9]);
    assert!(list.selected_item().is_none());
    list.next();
    assert_eq!(list.selected_item(), Some(&7));
    list.previous();
    assert_eq!(list.selected_item(), Some(&9));
}

// TabIndex: cursor stays in [0, N); next from N-1 gives 0; previous from 0
// gives N-1.
#[test]
fn tab_index_wraps_both_ways() {
    let labels: Vec<String> =
        vec!["Practice".to_string(), "Qualifying".to_string(), "Race".to_string()];
    let mut tabs = TabIndex::new(labels);
    assert_eq!(tabs.index, 0);
    tabs.previous();
    assert_eq!(tabs.index, 2);
    tabs.next();
    assert_eq!(tabs.index, 0);
    for _ in 0..7 {
        tabs.next();
        assert!(tabs.index < 3);
    }
    assert_eq!(tabs.index, 1);
}

// TabIndex with zero labels is a defined empty state, not a crash.
#[test]
fn tab_index_empty_is_inert() {
    let mut tabs = TabIndex::new(Vec::new());
    assert_eq!(tabs.index, 0);
    tabs.next();
    assert_eq!(tabs.index, 0);
    tabs.previous();
    assert_eq!(tabs.index, 0);
    assert_eq!(tabs.len(), 0);
}

// A season requested twice before its response arrives: at most one
// dispatched request, and after the response exactly one cache entry.
#[test]
fn duplicate_request_is_coalesced() {
    let mut cache = SeasonCache::new();
    let first = cache.request(2022);
    assert!(first);
    let second = cache.request(2022);
    assert!(!second);
    assert!(cache.is_pending(2022));
    assert!(!cache.is_cached(2022));
    cache.insert_result(2022, three_weekends_2022());
    assert!(cache.is_cached(2022));
    assert!(!cache.is_pending(2022));
    // a late duplicate response does not overwrite the entry
    cache.insert_result(2022, Vec::new());
    assert_eq!(cache.weekend_list(2022).len(), 3);
    // and the season is still never re-requested
    assert!(!cache.request(2022));
}

// Scenario: seasons = [2023, 2022, 2021]; two moves down from the initial
// unset selection select 2022, and a fetch for 2022 goes out exactly once.
#[test]
fn two_moves_down_select_2022_and_fetch_once() {
    let (mut app, initial) = App::new(vec![2023, 2022, 2021]);
    assert_eq!(initial, Some(2023));
    assert_eq!(app.seasons.selected, None);
    let r1 = handle(&mut app, KeyInput::Down);
    assert!(!r1.quit);
    assert_eq!(r1.request, None); // 2023 is already in flight
    assert_eq!(app.seasons.selected, Some(0));
    let r2 = handle(&mut app, KeyInput::Down);
    assert_eq!(app.seasons.selected, Some(1));
    assert_eq!(app.current_season, 2022);
    assert_eq!(r2.request, Some(2022));
    // moving back up and down again must not re-request 2022
    let r3 = handle(&mut app, KeyInput::Up);
    assert_eq!(r3.request, None);
    let r4 = handle(&mut app, KeyInput::Down);
    assert_eq!(r4.request, None);
}

// Scenario: the cache already holds 2022 with 3 weekends; confirm on
// weekend index 1 (sessions Practice/Qualifying/Race) enters the detail
// screen with 3 labels, tab cursor 0, and the Practice standings shown.
#[test]
fn confirm_on_weekend_enters_detail_with_practice_standings() {
    let (mut app, _initial) = App::new(vec![2023, 2022, 2021]);
    let _ = handle(&mut app, KeyInput::Down);
    let _ = handle(&mut app, KeyInput::Down); // current season: 2022
    app.cache.insert_result(2022, three_weekends_2022());
    let _ = handle(&mut app, KeyInput::Right); // enter the race list
    assert_eq!(app.screen, SelectedScreen::RaceList);
    let _ = handle(&mut app, KeyInput::Down); // weekend index 0 -> 1
    let _ = handle(&mut app, KeyInput::Confirm);
    assert_eq!(app.screen, SelectedScreen::WeekendDetail);
    assert_eq!(app.detail_tabs.len(), 3);
    assert_eq!(app.detail_tabs.index, 0);
    assert_eq!(app.detail_tabs.labels[0], "Practice");
    assert_eq!(app.ranking.selected, Some(0));
    assert_eq!(app.ranking.items.len(), 2);
    assert_eq!(app.ranking.items[0].driver.screen_name, "VER");
    assert_eq!(app.ranking.items[0].position, 1);
    assert_eq!(app.ranking.items[0].lap_time, "1:28.997");
    assert_eq!(app.ranking.items[1].driver.screen_name, "HAM");
}

// After any tab change in the detail screen, the ranking is selected at 0
// and its contents equal exactly the newly active session's standings.
#[test]
fn tab_change_rebuilds_ranking_fresh() {
    let (mut app, _initial) = App::new(vec![2022]);
    app.cache.insert_result(2022, three_weekends_2022());
    let _ = handle(&mut app, KeyInput::Down); // select season 2022
    let _ = handle(&mut app, KeyInput::Confirm); // enter the race list
    let _ = handle(&mut app, KeyInput::Down); // weekend index 0 -> 1
    let _ = handle(&mut app, KeyInput::Confirm); // enter the detail screen
    // move the ranking selection away from 0, then change tabs
    let _ = handle(&mut app, KeyInput::Down);
    assert_eq!(app.ranking.selected, Some(1));
    let _ = handle(&mut app, KeyInput::Right); // tab: Qualifying
    assert_eq!(app.detail_tabs.index, 1);
    assert_eq!(app.ranking.selected, Some(0));
    assert_eq!(app.ranking.items.len(), 1);
    assert_eq!(app.ranking.items[0].driver.screen_name, "HAM");
    let _ = handle(&mut app, KeyInput::Left); // back to Practice
    assert_eq!(app.detail_tabs.index, 0);
    assert_eq!(app.ranking.selected, Some(0));
    assert_eq!(app.ranking.items.len(), 2);
    assert_eq!(app.ranking.items[0].driver.screen_name, "VER");
    let _ = handle(&mut app, KeyInput::Left); // wraps to Race
    assert_eq!(app.detail_tabs.index, 2);
    assert_eq!(app.ranking.items.len(), 1);
    assert_eq!(app.ranking.items[0].driver.screen_name, "PER");
}

// Scenario: a fetch for year 1901 fails at the provider; the worker stores
// an empty weekend list and the race list stays in a loading/empty state.
#[test]
fn failed_fetch_yields_empty_entry_and_no_crash() {
    let (mut app, initial) = App::new(vec![1901]);
    assert_eq!(initial, Some(1901));
    // the provider failed: the worker swallows the error
    let weekends = weekends_or_empty(None);
    assert_eq!(weekends.len(), 0);
    app.cache.insert_result(1901, weekends);
    assert!(app.cache.is_cached(1901));
    assert_eq!(app.cache.weekend_list(1901).len(), 0);
    // navigating into the empty season must not panic
    let _ = handle(&mut app, KeyInput::Down);
    let _ = handle(&mut app, KeyInput::Confirm); // race list with no weekends
    assert_eq!(app.screen, SelectedScreen::RaceList);
    assert_eq!(app.cache.weekend_list(1901).selected, None);
    let _ = handle(&mut app, KeyInput::Down);
    let _ = handle(&mut app, KeyInput::Confirm); // no resolved weekend: stays
    assert_eq!(app.screen, SelectedScreen::RaceList);
}

#[test]
fn weekends_or_empty_keeps_successful_result() {
    let fetched = weekends_or_empty(Some(three_weekends_2022()));
    assert_eq!(fetched.len(), 3);
    assert_eq!(fetched[1].name, "Second Grand Prix");
}

// Quit stops the process from the two list screens, but steps back from
// the detail screen first.
#[test]
fn quit_backs_out_of_detail_before_quitting() {
    let (mut app, _initial) = App::new(vec![2022]);
    app.cache.insert_result(2022, three_weekends_2022());
    let _ = handle(&mut app, KeyInput::Down);
    let _ = handle(&mut app, KeyInput::Confirm);
    let _ = handle(&mut app, KeyInput::Confirm);
    assert_eq!(app.screen, SelectedScreen::WeekendDetail);
    let r1 = handle(&mut app, KeyInput::Quit);
    assert!(!r1.quit);
    assert_eq!(app.screen, SelectedScreen::RaceList);
    let r2 = handle(&mut app, KeyInput::Quit);
    assert!(r2.quit);
}

// Left returns from the race list to the season list; entering again
// re-selects the first weekend.
#[test]
fn left_returns_to_season_list() {
    let (mut app, _initial) = App::new(vec![2022]);
    app.cache.insert_result(2022, three_weekends_2022());
    let _ = handle(&mut app, KeyInput::Down);
    let _ = handle(&mut app, KeyInput::Right);
    assert_eq!(app.screen, SelectedScreen::RaceList);
    let _ = handle(&mut app, KeyInput::Down); // weekend cursor to 1
    assert_eq!(app.cache.weekend_list(2022).selected, Some(1));
    let _ = handle(&mut app, KeyInput::Left);
    assert_eq!(app.screen, SelectedScreen::SeasonList);
    let _ = handle(&mut app, KeyInput::Right);
    assert_eq!(app.screen, SelectedScreen::RaceList);
    assert_eq!(app.cache.weekend_list(2022).selected, Some(0));
}

// Entering the race list is gated on the season being cached.
#[test]
fn confirm_without_cached_season_is_ignored() {
    let (mut app, _initial) = App::new(vec![2023]);
    let _ = handle(&mut app, KeyInput::Down);
    let r = handle(&mut app, KeyInput::Confirm);
    assert!(!r.quit);
    assert_eq!(app.screen, SelectedScreen::SeasonList);
}

// An empty season catalog: no request, no panic, navigation is inert.
#[test]
fn empty_season_catalog_is_inert() {
    let (mut app, initial) = App::new(Vec::new());
    assert_eq!(initial, None);
    let r1 = handle(&mut app, KeyInput::Down);
    assert_eq!(r1.request, None);
    assert_eq!(app.seasons.selected, None);
    let r2 = handle(&mut app, KeyInput::Up);
    assert_eq!(r2.request, None);
    assert_eq!(app.screen, SelectedScreen::SeasonList);
    let r3 = handle(&mut app, KeyInput::Quit);
    assert!(r3.quit);
}

// The weekend cursor in the race list wraps over the season's weekends.
#[test]
fn race_list_cursor_wraps() {
    let (mut app, _initial) = App::new(vec![2022]);
    app.cache.insert_result(2022, three_weekends_2022());
    let _ = handle(&mut app, KeyInput::Down);
    let _ = handle(&mut app, KeyInput::Confirm);
    assert_eq!(app.cache.weekend_list(2022).selected, Some(0));
    let _ = handle(&mut app, KeyInput::Up);
    assert_eq!(app.cache.weekend_list(2022).selected, Some(2));
    let _ = handle(&mut app, KeyInput::Down);
    assert_eq!(app.cache.weekend_list(2022).selected, Some(0));
}
