//! The on-demand season cache: a mapping from season year to that season's
//! weekend list, filled lazily by a background worker, together with the
//! set of seasons whose fetch is in flight. A season already cached or in
//! flight is never re-requested, and the first completed fetch for a season
//! wins: an entry is never overwritten.

use vstd::prelude::*;

use crate::data::Weekend;
use crate::list::CyclicSelectionList;
use crate::list::ListView;

verus! {

/// Mathematical model of a [`SeasonCache`]: the cached season mapping and
/// the set of in-flight season requests.
#[verifier::ext_equal]
pub struct CacheView {
    pub cached: Map<i32, ListView<Weekend>>,
    pub pending: Set<i32>,
}

impl CacheView {
    /// Well-formedness: every cached weekend list is well-formed, and no
    /// cached season is still marked in flight.
    pub open spec fn wf(self) -> bool {
        &&& (forall|y: i32| #[trigger] self.cached.dom().contains(y) ==> self.cached[y].wf())
        &&& (forall|y: i32|
            !(#[trigger] self.cached.dom().contains(y) && self.pending.contains(y)))
    }

    /// A season must be fetched only when it is neither cached nor already
    /// in flight.
    pub open spec fn needs_request(self, year: i32) -> bool {
        !self.cached.dom().contains(year) && !self.pending.contains(year)
    }

    /// The cache after deciding whether to dispatch a fetch for `year`:
    /// the season joins the in-flight set exactly when it was needed.
    pub open spec fn request_spec(self, year: i32) -> CacheView {
        if self.needs_request(year) {
            CacheView { cached: self.cached, pending: self.pending.insert(year) }
        } else {
            self
        }
    }

    /// The cache after a completed fetch for `year` arrives: the season
    /// leaves the in-flight set, and its weekend list is stored unselected
    /// unless an entry is already present (the first writer wins).
    pub open spec fn insert_spec(self, year: i32, weekends: Seq<Weekend>) -> CacheView {
        CacheView {
            cached: if self.cached.dom().contains(year) {
                self.cached
            } else {
                self.cached.insert(year, ListView::fresh(weekends))
            },
            pending: self.pending.remove(year),
        }
    }

    /// The cache with the weekend list of an already-cached season replaced.
    pub open spec fn with_list(self, year: i32, l: ListView<Weekend>) -> CacheView {
        CacheView { cached: self.cached.insert(year, l), pending: self.pending }
    }
}

/// Law: a season requested a second time before its response arrives is
/// never dispatched again, and the cache is left exactly as the first
/// request left it.
pub proof fn lemma_duplicate_request_coalesced(c: CacheView, year: i32)
    ensures
        !c.request_spec(year).needs_request(year),
        c.request_spec(year).request_spec(year) == c.request_spec(year),
{
}

/// Law: the first completed fetch for a season fixes its entry; a second
/// result for the same season never overwrites it.
pub proof fn lemma_first_writer_wins(c: CacheView, year: i32, w1: Seq<Weekend>, w2: Seq<Weekend>)
    requires
        !c.cached.dom().contains(year),
    ensures
        c.insert_spec(year, w1).cached[year] == ListView::fresh(w1),
        c.insert_spec(year, w1).insert_spec(year, w2).cached == c.insert_spec(year, w1).cached,
{
}

/// Whether some entry of `s` carries the key `year`.
pub open spec fn entries_contain(s: Seq<(i32, CyclicSelectionList<Weekend>)>, year: i32) -> bool {
    exists|i: int| 0 <= i < s.len() && s[i].0 == year
}

/// The index of the entry of `s` carrying the key `year` (meaningful only
/// when the keys of `s` are distinct and one of them is `year`).
pub open spec fn entry_index(s: Seq<(i32, CyclicSelectionList<Weekend>)>, year: i32) -> int {
    choose|i: int| 0 <= i < s.len() && s[i].0 == year
}

/// A mapping from season year to that season's weekend list, plus the set
/// of seasons whose fetch was dispatched but has not yet arrived.
pub struct SeasonCache {
    entries: Vec<(i32, CyclicSelectionList<Weekend>)>,
    pending: Vec<i32>,
}

impl View for SeasonCache {
    type V = CacheView;

    closed spec fn view(&self) -> CacheView {
        CacheView {
            cached: Map::new(
                |y: i32| entries_contain(self.entries@, y),
                |y: i32| self.entries@[entry_index(self.entries@, y)].1@,
            ),
            pending: Set::new(|y: i32| self.pending@.contains(y)),
        }
    }
}

impl SeasonCache {
    /// Representation invariant: entry keys are distinct, every stored list
    /// is well-formed, in-flight years are distinct, and no in-flight year
    /// is cached.
    pub closed spec fn inv(self) -> bool {
        &&& (forall|i: int, j: int|
            0 <= i < self.entries@.len() && 0 <= j < self.entries@.len()
                && self.entries@[i].0 == self.entries@[j].0 ==> i == j)
        &&& (forall|i: int| 0 <= i < self.entries@.len() ==> (#[trigger] self.entries@[i]).1@.wf())
        &&& (forall|i: int, j: int|
            0 <= i < self.pending@.len() && 0 <= j < self.pending@.len()
                && self.pending@[i] == self.pending@[j] ==> i == j)
        &&& (forall|i: int|
            0 <= i < self.pending@.len() ==> !entries_contain(
                self.entries@,
                #[trigger] self.pending@[i],
            ))
    }

    /// The representation invariant makes the model well-formed.
    pub proof fn lemma_inv_view_wf(self)
        requires
            self.inv(),
        ensures
            self@.wf(),
    {
        assert forall|y: i32| #[trigger] self@.cached.dom().contains(y) implies self@.cached[y].wf() by {
            let i = entry_index(self.entries@, y);
            assert(0 <= i < self.entries@.len() && self.entries@[i].0 == y);
            assert(self.entries@[i].1@.wf());
        }
        assert forall|y: i32| !(#[trigger] self@.cached.dom().contains(y)
            && self@.pending.contains(y)) by {
            if self@.pending.contains(y) {
                let k = choose|k: int| 0 <= k < self.pending@.len() && self.pending@[k] == y;
                assert(!entries_contain(self.entries@, self.pending@[k]));
            }
        }
    }

    /// An empty cache: nothing fetched, nothing in flight.
    pub fn new() -> (c: Self)
        ensures
            c.inv(),
            c@ == (CacheView { cached: Map::<i32, ListView<Weekend>>::empty(), pending: Set::<
                i32,
            >::empty() }),
    {
        let c = SeasonCache { entries: Vec::new(), pending: Vec::new() };
        proof {
            assert(c@.cached =~= Map::<i32, ListView<Weekend>>::empty());
            assert(c@.pending =~= Set::<i32>::empty());
            assert(c@ =~= CacheView {
                cached: Map::<i32, ListView<Weekend>>::empty(),
                pending: Set::<i32>::empty(),
            });
        }
        c
    }

    /// The position of `year` among the entries, if cached.
    fn position_of(&self, year: i32) -> (r: Option<usize>)
        ensures
            match r {
                Some(i) => i < self.entries@.len() && self.entries@[i as int].0 == year,
                None => !entries_contain(self.entries@, year),
            },
    {
        let mut i: usize = 0;
        while i < self.entries.len()
            invariant
                i <= self.entries@.len(),
                forall|j: int| 0 <= j < i ==> self.entries@[j].0 != year,
            decreases self.entries@.len() - i,
        {
            if self.entries[i].0 == year {
                return Some(i);
            }
            i = i + 1;
        }
        None
    }

    /// The position of `year` in the in-flight list, if present.
    fn pending_position(&self, year: i32) -> (r: Option<usize>)
        ensures
            match r {
                Some(i) => i < self.pending@.len() && self.pending@[i as int] == year,
                None => !self.pending@.contains(year),
            },
    {
        let mut i: usize = 0;
        while i < self.pending.len()
            invariant
                i <= self.pending@.len(),
                forall|j: int| 0 <= j < i ==> self.pending@[j] != year,
            decreases self.pending@.len() - i,
        {
            if self.pending[i] == year {
                return Some(i);
            }
            i = i + 1;
        }
        proof {
            if self.pending@.contains(year) {
                let m = choose|m: int|
                    0 <= m < self.pending@.len() && self.pending@[m] == year;
                assert(false);
            }
        }
        None
    }

    /// Whether the weekends of `year` are already cached.
    pub fn is_cached(&self, year: i32) -> (r: bool)
        ensures
            r == self@.cached.dom().contains(year),
    {
        let r = self.position_of(year);
        proof {
            if r is Some {
                assert(entries_contain(self.entries@, year));
            }
            assert(self@.cached.dom().contains(year) == entries_contain(self.entries@, year));
        }
        r.is_some()
    }

    /// Whether a fetch for `year` is in flight.
    pub fn is_pending(&self, year: i32) -> (r: bool)
        ensures
            r == self@.pending.contains(year),
    {
        let mut i: usize = 0;
        while i < self.pending.len()
            invariant
                i <= self.pending@.len(),
                forall|j: int| 0 <= j < i ==> self.pending@[j] != year,
            decreases self.pending@.len() - i,
        {
            if self.pending[i] == year {
                assert(self.pending@.contains(year));
                return true;
            }
            i = i + 1;
        }
        assert(!self.pending@.contains(year));
        false
    }

    /// Decide whether a fetch for `year` must be dispatched: true exactly
    /// when the season is neither cached nor in flight, in which case it is
    /// marked in flight and the caller must send the one request.
    pub fn request(&mut self, year: i32) -> (dispatch: bool)
        requires
            old(self).inv(),
        ensures
            final(self).inv(),
            dispatch == old(self)@.needs_request(year),
            final(self)@ == old(self)@.request_spec(year),
    {
        if self.is_cached(year) || self.is_pending(year) {
            proof {
                assert(self@ =~= old(self)@.request_spec(year));
            }
            return false;
        }
        self.pending.push(year);
        proof {
            let oldp = old(self).pending@;
            assert forall|i: int, j: int|
                0 <= i < self.pending@.len() && 0 <= j < self.pending@.len()
                    && self.pending@[i] == self.pending@[j] implies i == j by {
                if i < oldp.len() && j < oldp.len() {
                } else if i < oldp.len() && j == oldp.len() {
                    assert(oldp.contains(oldp[i]));
                } else if j < oldp.len() && i == oldp.len() {
                    assert(oldp.contains(oldp[j]));
                }
            }
            assert forall|y: i32|
                self.pending@.contains(y) == (oldp.contains(y) || y == year) by {
                if self.pending@.contains(y) {
                    let m = choose|m: int|
                        0 <= m < self.pending@.len() && self.pending@[m] == y;
                    if m < oldp.len() {
                        assert(oldp[m] == y);
                        assert(oldp.contains(y));
                    }
                }
                if oldp.contains(y) {
                    let m = choose|m: int| 0 <= m < oldp.len() && oldp[m] == y;
                    assert(self.pending@[m] == y);
                }
                if y == year {
                    assert(self.pending@[oldp.len() as int] == y);
                }
            }
            assert(self@.pending =~= old(self)@.pending.insert(year));
            assert(self@.cached =~= old(self)@.cached);
            assert(self@ =~= old(self)@.request_spec(year));
        }
        true
    }

    /// Merge a completed fetch into the cache: `year` leaves the in-flight
    /// set, and its weekend list is stored (unselected) unless an entry is
    /// already present, which is then kept as it is.
    pub fn insert_result(&mut self, year: i32, weekends: Vec<Weekend>)
        requires
            old(self).inv(),
        ensures
            final(self).inv(),
            final(self)@ == old(self)@.insert_spec(year, weekends@),
    {
        let ghost pre = *old(self);
        // Drop `year` from the in-flight set.
        let pos = self.pending_position(year);
        if let Some(k0) = pos {
            self.pending.remove(k0);
        }
        proof {
            let newp = self.pending@;
            let oldp = pre.pending@;
            match pos {
                Some(k0) => {
                    let k = k0 as int;
                    assert(newp == oldp.remove(k));
                    assert(forall|m: int| 0 <= m < k ==> #[trigger] newp[m] == oldp[m]);
                    assert(forall|m: int|
                        k <= m < newp.len() ==> #[trigger] newp[m] == oldp[m + 1]);
                    assert forall|y: i32|
                        newp.contains(y) == (oldp.contains(y) && y != year) by {
                        if newp.contains(y) {
                            let m = choose|m: int| 0 <= m < newp.len() && newp[m] == y;
                            if m < k {
                                assert(oldp[m] == y);
                                assert(oldp.contains(y));
                                if y == year {
                                    assert(oldp[m] == oldp[k] && m != k);
                                }
                            } else {
                                assert(oldp[m + 1] == y);
                                assert(oldp.contains(y));
                                if y == year {
                                    assert(oldp[m + 1] == oldp[k] && m + 1 != k);
                                }
                            }
                        }
                        if oldp.contains(y) && y != year {
                            let m = choose|m: int| 0 <= m < oldp.len() && oldp[m] == y;
                            if m < k {
                                assert(newp[m] == y);
                            } else {
                                assert(m != k);
                                assert(newp[m - 1] == oldp[m]);
                            }
                            assert(newp.contains(y));
                        }
                    }
                    // distinctness of the remaining in-flight years
                    assert forall|a: int, b: int|
                        0 <= a < newp.len() && 0 <= b < newp.len() && newp[a]
                            == newp[b] implies a == b by {
                        let a0: int = if a < k {
                            a
                        } else {
                            a + 1
                        };
                        let b0: int = if b < k {
                            b
                        } else {
                            b + 1
                        };
                        assert(oldp[a0] == newp[a] && oldp[b0] == newp[b]);
                    }
                    assert forall|j: int|
                        0 <= j < newp.len() implies !entries_contain(
                        self.entries@,
                        #[trigger] newp[j],
                    ) by {
                        let j0: int = if j < k {
                            j
                        } else {
                            j + 1
                        };
                        assert(oldp[j0] == newp[j]);
                    }
                },
                None => {
                    assert(newp == oldp);
                    assert forall|y: i32|
                        newp.contains(y) == (oldp.contains(y) && y != year) by {
                        if oldp.contains(y) {
                            assert(y != year);
                        }
                    }
                },
            }
            assert(Set::new(|y: i32| newp.contains(y)) =~= Set::new(
                |y: i32| oldp.contains(y),
            ).remove(year));
        }
        // Store the weekends, unless the first writer already did.
        let already = self.position_of(year);
        match already {
            Some(_) => {
                proof {
                    assert(entries_contain(self.entries@, year));
                    assert(self@.cached =~= old(self)@.cached);
                    assert(self@ =~= old(self)@.insert_spec(year, weekends@));
                }
            },
            None => {
                let ghost mid = *self;
                self.entries.push((year, CyclicSelectionList::with_items(weekends)));
                proof {
                    let olde = mid.entries@;
                    let newe = self.entries@;
                    assert(newe == olde.push((year, newe[olde.len() as int].1)));
                    assert forall|a: int, b: int|
                        0 <= a < newe.len() && 0 <= b < newe.len() && newe[a].0
                            == newe[b].0 implies a == b by {
                        if a < olde.len() && b < olde.len() {
                        } else if a < olde.len() && b == olde.len() {
                            assert(entries_contain(olde, newe[a].0));
                        } else if b < olde.len() && a == olde.len() {
                            assert(entries_contain(olde, newe[b].0));
                        }
                    }
                    assert forall|y: i32| #[trigger]
                        entries_contain(newe, y) == (entries_contain(olde, y) || y
                            == year) by {
                        if entries_contain(newe, y) {
                            let m = choose|m: int| 0 <= m < newe.len() && newe[m].0 == y;
                            if m < olde.len() {
                                assert(entries_contain(olde, y));
                            }
                        }
                        if entries_contain(olde, y) {
                            let m = choose|m: int| 0 <= m < olde.len() && olde[m].0 == y;
                            assert(newe[m].0 == y);
                        }
                        if y == year {
                            assert(newe[olde.len() as int].0 == y);
                        }
                    }
                    assert forall|y: i32| #[trigger]
                        entries_contain(olde, y) implies newe[entry_index(newe, y)].1
                        == olde[entry_index(olde, y)].1 by {
                        let m = entry_index(olde, y);
                        assert(0 <= m < olde.len() && olde[m].0 == y);
                        assert(newe[m].0 == y);
                        assert(entries_contain(newe, y));
                        let m2 = entry_index(newe, y);
                        assert(0 <= m2 < newe.len() && newe[m2].0 == y);
                        assert(m2 == m);
                    }
                    assert(entry_index(newe, year) == olde.len() as int);
                    assert(self@.cached =~= old(self)@.cached.insert(
                        year,
                        ListView::fresh(weekends@),
                    ));
                    assert(self@.pending =~= mid@.pending);
                    assert forall|j: int|
                        0 <= j < self.pending@.len() implies !entries_contain(
                        newe,
                        #[trigger] self.pending@[j],
                    ) by {
                        assert(!entries_contain(olde, self.pending@[j]));
                        assert(self.pending@[j] != year);
                    }
                    assert(self@ =~= old(self)@.insert_spec(year, weekends@));
                }
            },
        }
    }

    /// The weekend list of a cached season.
    pub fn weekend_list(&self, year: i32) -> (r: &CyclicSelectionList<Weekend>)
        requires
            self.inv(),
            self@.cached.dom().contains(year),
        ensures
            r@ == self@.cached[year],
            r@.wf(),
    {
        let pos = self.position_of(year);
        proof {
            assert(entries_contain(self.entries@, year));
        }
        match pos {
            Some(i) => {
                let r = &self.entries[i].1;
                proof {
                    assert(entry_index(self.entries@, year) == i as int);
                }
                r
            },
            None => {
                proof {
                    assert(false);
                }
                unreached()
            },
        }
    }

    /// Advance the weekend selection of a cached season one step forward.
    pub fn next_weekend(&mut self, year: i32)
        requires
            old(self).inv(),
            old(self)@.cached.dom().contains(year),
        ensures
            final(self).inv(),
            final(self)@ == old(self)@.with_list(year, old(self)@.cached[year].next_spec()),
    {
        let pos = self.position_of(year);
        proof {
            assert(entries_contain(self.entries@, year));
        }
        match pos {
            Some(i) => {
                let e = &mut self.entries[i].1;
                e.next();
                proof {
                    self.lemma_replaced_entry(*old(self), year, i as int);
                }
            },
            None => {
                proof {
                    assert(false);
                }
            },
        }
    }

    /// Move the weekend selection of a cached season one step back.
    pub fn previous_weekend(&mut self, year: i32)
        requires
            old(self).inv(),
            old(self)@.cached.dom().contains(year),
        ensures
            final(self).inv(),
            final(self)@ == old(self)@.with_list(year, old(self)@.cached[year].previous_spec()),
    {
        let pos = self.position_of(year);
        proof {
            assert(entries_contain(self.entries@, year));
        }
        match pos {
            Some(i) => {
                let e = &mut self.entries[i].1;
                e.previous();
                proof {
                    self.lemma_replaced_entry(*old(self), year, i as int);
                }
            },
            None => {
                proof {
                    assert(false);
                }
            },
        }
    }

    /// Select the first weekend of a cached season, or clear the selection
    /// when the season has no weekends.
    pub fn select_first_weekend(&mut self, year: i32)
        requires
            old(self).inv(),
            old(self)@.cached.dom().contains(year),
        ensures
            final(self).inv(),
            final(self)@ == old(self)@.with_list(
                year,
                ListView::fresh_selected(old(self)@.cached[year].items),
            ),
    {
        let pos = self.position_of(year);
        proof {
            assert(entries_contain(self.entries@, year));
        }
        match pos {
            Some(i) => {
                let e = &mut self.entries[i].1;
                if e.items.len() == 0 {
                    e.select(None);
                } else {
                    e.select(Some(0));
                }
                proof {
                    self.lemma_replaced_entry(*old(self), year, i as int);
                }
            },
            None => {
                proof {
                    assert(false);
                }
            },
        }
    }

    /// After replacing (in place) the well-formed list of the entry at `i`,
    /// whose key is `year`, the cache models the map update at `year`.
    proof fn lemma_replaced_entry(self, pre: SeasonCache, year: i32, i: int)
        requires
            pre.inv(),
            0 <= i < pre.entries@.len(),
            pre.entries@[i].0 == year,
            self.entries@ == pre.entries@.update(i, (year, self.entries@[i].1)),
            self.entries@[i].1@.wf(),
            self.pending@ == pre.pending@,
        ensures
            self.inv(),
            self@ == pre@.with_list(year, self.entries@[i].1@),
    {
        let olde = pre.entries@;
        let newe = self.entries@;
        assert(newe.len() == olde.len());
        assert(forall|m: int| 0 <= m < newe.len() && m != i ==> newe[m] == olde[m]);
        assert(newe[i].0 == year);
        assert forall|y: i32| #[trigger]
            entries_contain(newe, y) == entries_contain(olde, y) by {
            if entries_contain(newe, y) {
                let m = choose|m: int| 0 <= m < newe.len() && newe[m].0 == y;
                assert(olde[m].0 == y);
            }
            if entries_contain(olde, y) {
                let m = choose|m: int| 0 <= m < olde.len() && olde[m].0 == y;
                assert(newe[m].0 == y);
            }
        }
        assert forall|y: i32| #[trigger]
            entries_contain(olde, y) && y != year implies newe[entry_index(newe, y)].1
            == olde[entry_index(olde, y)].1 by {
            let m = entry_index(olde, y);
            assert(0 <= m < olde.len() && olde[m].0 == y);
            assert(m != i);
            assert(newe[m].0 == y);
            assert(entries_contain(newe, y));
            let m2 = entry_index(newe, y);
            assert(0 <= m2 < newe.len() && newe[m2].0 == y);
            assert(olde[m2].0 == y);
            assert(m2 == m);
        }
        assert(entry_index(newe, year) == i) by {
            assert(entries_contain(newe, year));
            let m = entry_index(newe, year);
            assert(0 <= m < newe.len() && newe[m].0 == year);
            assert(olde[m].0 == year);
        }
        assert(self@.cached =~= pre@.cached.insert(year, newe[i].1@));
        assert(self@.pending =~= pre@.pending);
        assert(self@ =~= pre@.with_list(year, newe[i].1@));
    }
}

} // verus!
