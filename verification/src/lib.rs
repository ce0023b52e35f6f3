//! Core logic of a keyboard-driven dashboard for browsing race data:
//! cyclic selection lists, a tab cursor, an on-demand season cache with
//! request de-duplication, and the screen-transition state machine.

pub mod app;
pub mod cache;
pub mod data;
pub mod list;
pub mod tabs;

pub use app::App;
pub use app::AppView;
pub use app::KeyInput;
pub use app::Outcome;
pub use app::SelectedScreen;
pub use app::handle;
pub use app::load_weekends_for_season;
pub use app::weekends_or_empty;
pub use cache::CacheView;
pub use cache::SeasonCache;

pub use data::Circuit;
pub use data::Driver;
pub use data::Session;
pub use data::Standing;
pub use data::Weekend;
pub use list::CyclicSelectionList;
pub use list::ListView;
pub use tabs::TabIndex;
pub use tabs::TabsView;
