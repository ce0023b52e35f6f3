//! The race data carried through the navigation core: seasons are integer
//! years; a weekend owns a circuit and its sessions; a session owns its
//! ranked standings. All of it is immutable once fetched; coordinates and
//! lap times are held as display text, ready for the render surface.

use vstd::prelude::*;

verus! {

/// A driver, identified here by the short name shown on screen.
pub struct Driver {
    pub screen_name: String,
}

impl Clone for Driver {
    fn clone(&self) -> (r: Self)
        ensures
            r == *self,
    {
        Driver { screen_name: self.screen_name.clone() }
    }
}

/// One ranked result of a session.
pub struct Standing {
    pub position: i32,
    pub driver: Driver,
    pub lap_time: String,
}

impl Clone for Standing {
    fn clone(&self) -> (r: Self)
        ensures
            r == *self,
    {
        Standing {
            position: self.position,
            driver: self.driver.clone(),
            lap_time: self.lap_time.clone(),
        }
    }
}

/// One session of a race weekend: a type label and its standings in order.
pub struct Session {
    pub session_type: String,
    pub standings: Vec<Standing>,
}

/// Where a weekend is raced.
pub struct Circuit {
    pub name: String,
    pub country: String,
    pub locality: String,
    pub latitude: String,
    pub longitude: String,
}

/// One race weekend of a season: display name, circuit, and its sessions
/// in order.
pub struct Weekend {
    pub name: String,
    pub circuit: Circuit,
    pub sessions: Vec<Session>,
}

/// A fresh copy of a session's standings, element for element.
pub fn clone_standings(standings: &Vec<Standing>) -> (r: Vec<Standing>)
    ensures
        r@ == standings@,
{
    let mut r: Vec<Standing> = Vec::new();
    let mut i: usize = 0;
    while i < standings.len()
        invariant
            i <= standings@.len(),
            r@ == standings@.take(i as int),
        decreases standings@.len() - i,
    {
        r.push(standings[i].clone());
        i = i + 1;
        proof {
            assert(r@ =~= standings@.take(i as int));
        }
    }
    proof {
        assert(standings@.take(standings@.len() as int) =~= standings@);
    }
    r
}

/// The session-type labels of a weekend, in session order.
pub fn session_labels(weekend: &Weekend) -> (r: Vec<String>)
    ensures
        r@ == weekend.sessions@.map_values(|s: Session| s.session_type),
{
    let ghost labels = weekend.sessions@.map_values(|s: Session| s.session_type);
    let mut r: Vec<String> = Vec::new();
    let mut i: usize = 0;
    while i < weekend.sessions.len()
        invariant
            i <= weekend.sessions@.len(),
            labels == weekend.sessions@.map_values(|s: Session| s.session_type),
            r@ == labels.take(i as int),
        decreases weekend.sessions@.len() - i,
    {
        r.push(weekend.sessions[i].session_type.clone());
        i = i + 1;
        proof {
            assert(r@ =~= labels.take(i as int));
        }
    }
    proof {
        assert(labels.take(labels.len() as int) =~= labels);
    }
    r
}

} // verus!
