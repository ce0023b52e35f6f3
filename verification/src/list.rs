//! An ordered collection with a single optional selected index and
//! wraparound `next` / `previous` movement.

use vstd::prelude::*;

verus! {

/// Mathematical model of a [`CyclicSelectionList`]: the item sequence and
/// the optional selected index.
#[verifier::ext_equal]
pub struct ListView<T> {
    pub items: Seq<T>,
    pub selected: Option<int>,
}

impl<T> ListView<T> {
    /// Well-formedness: a selected index is in bounds, and an empty list
    /// has no selection.
    pub open spec fn wf(self) -> bool {
        &&& (self.selected matches Some(i) ==> 0 <= i < self.items.len())
        &&& (self.items.len() == 0 ==> self.selected is None)
    }

    /// The selection after one `next`: an empty list is unchanged; an unset
    /// selection enters the cycle at 0; the last index wraps to 0.
    pub open spec fn next_spec(self) -> ListView<T> {
        if self.items.len() == 0 {
            self
        } else {
            let j = match self.selected {
                None => 0int,
                Some(i) => if i + 1 == self.items.len() {
                    0int
                } else {
                    i + 1
                },
            };
            ListView { items: self.items, selected: Some(j) }
        }
    }

    /// The selection after one `previous`: an empty list is unchanged; an
    /// unset selection enters the cycle at 0; index 0 wraps to the end.
    pub open spec fn previous_spec(self) -> ListView<T> {
        if self.items.len() == 0 {
            self
        } else {
            let j = match self.selected {
                None => 0int,
                Some(i) => if i == 0 {
                    self.items.len() - 1
                } else {
                    i - 1
                },
            };
            ListView { items: self.items, selected: Some(j) }
        }
    }

    /// An unselected list over the given items.
    pub open spec fn fresh(items: Seq<T>) -> ListView<T> {
        ListView { items, selected: None }
    }

    /// A list over the given items with index 0 selected when possible:
    /// how a dependent list is rebuilt after a screen or tab change.
    pub open spec fn fresh_selected(items: Seq<T>) -> ListView<T> {
        ListView {
            items,
            selected: if items.len() == 0 {
                None
            } else {
                Some(0int)
            },
        }
    }
}

/// `next` iterated `k` times on the model.
pub open spec fn iterate_next<T>(l: ListView<T>, k: nat) -> ListView<T>
    decreases k,
{
    if k == 0 {
        l
    } else {
        iterate_next(l, (k - 1) as nat).next_spec()
    }
}

/// Law: on a non-empty list with the selection unset, the k-th of the first
/// `len` calls of `next` selects index `k - 1`; in particular the selection
/// sits at index 0 exactly once over those calls, after the first.
pub proof fn lemma_next_full_cycle<T>(l: ListView<T>, k: int)
    requires
        l.wf(),
        l.items.len() > 0,
        l.selected is None,
        1 <= k <= l.items.len(),
    ensures
        iterate_next(l, k as nat).selected == Some(k - 1),
        iterate_next(l, k as nat).items == l.items,
        (iterate_next(l, k as nat).selected == Some(0int)) <==> k == 1,
    decreases k,
{
    if k == 1 {
        assert(iterate_next(l, 1nat) == iterate_next(l, 0nat).next_spec());
    } else {
        lemma_next_full_cycle(l, k - 1);
        assert(iterate_next(l, k as nat) == iterate_next(l, (k - 1) as nat).next_spec());
    }
}

/// Law: on a list with a set selection, `next` followed by `previous`
/// restores the prior selected index (and the items are untouched).
pub proof fn lemma_next_then_previous_restores<T>(l: ListView<T>)
    requires
        l.wf(),
        l.selected is Some,
    ensures
        l.next_spec().previous_spec() == l,
{
}

/// An ordered collection of `T` plus an optional selected index, moved with
/// wraparound: `next` on the last index returns to 0, `previous` on index 0
/// wraps to the end.
pub struct CyclicSelectionList<T> {
    pub items: Vec<T>,
    pub selected: Option<usize>,
}

impl<T> View for CyclicSelectionList<T> {
    type V = ListView<T>;

    open spec fn view(&self) -> ListView<T> {
        ListView {
            items: self.items@,
            selected: match self.selected {
                None => None,
                Some(i) => Some(i as int),
            },
        }
    }
}

impl<T> CyclicSelectionList<T> {
    /// An empty list with the selection unset.
    pub fn new() -> (l: Self)
        ensures
            l@ == (ListView::<T> { items: Seq::empty(), selected: None }),
            l@.wf(),
    {
        let l = CyclicSelectionList { items: Vec::new(), selected: None };
        proof {
            assert(l@ =~= ListView::<T> { items: Seq::empty(), selected: None });
        }
        l
    }

    /// A list over the given items with the selection unset.
    pub fn with_items(items: Vec<T>) -> (l: Self)
        ensures
            l@ == ListView::fresh(items@),
            l@.wf(),
    {
        CyclicSelectionList { items, selected: None }
    }

    /// A list over the given items with index 0 selected when there is one.
    pub fn with_items_selected(items: Vec<T>) -> (l: Self)
        ensures
            l@ == ListView::fresh_selected(items@),
            l@.wf(),
    {
        let selected: Option<usize> = if items.len() == 0 {
            None
        } else {
            Some(0)
        };
        CyclicSelectionList { items, selected }
    }

    /// Advance the selection one step forward, wrapping past the end;
    /// a no-op on an empty list.
    pub fn next(&mut self)
        requires
            old(self)@.wf(),
        ensures
            final(self)@ == old(self)@.next_spec(),
            final(self)@.wf(),
    {
        let len = self.items.len();
        if len == 0 {
            return ;
        }
        let j: usize = match self.selected {
            None => 0,
            Some(i) => if i + 1 == len {
                0
            } else {
                i + 1
            },
        };
        self.selected = Some(j);
    }

    /// Move the selection one step back, wrapping before index 0;
    /// a no-op on an empty list.
    pub fn previous(&mut self)
        requires
            old(self)@.wf(),
        ensures
            final(self)@ == old(self)@.previous_spec(),
            final(self)@.wf(),
    {
        let len = self.items.len();
        if len == 0 {
            return ;
        }
        let j: usize = match self.selected {
            None => 0,
            Some(i) => if i == 0 {
                len - 1
            } else {
                i - 1
            },
        };
        self.selected = Some(j);
    }

    /// Set the selection directly. Callers are responsible for bounds: a
    /// set index must be valid, and an empty list only accepts `None`.
    pub fn select(&mut self, index: Option<usize>)
        requires
            index matches Some(i) ==> i < old(self).items.len(),
        ensures
            final(self).items == old(self).items,
            final(self)@.items == old(self)@.items,
            final(self).selected == index,
            final(self)@.wf(),
    {
        self.selected = index;
    }

    /// The element at the selected index, or `None` when unset.
    pub fn selected_item(&self) -> (r: Option<&T>)
        requires
            self@.wf(),
        ensures
            match self.selected {
                None => r is None,
                Some(i) => r matches Some(t) && *t == self.items@[i as int],
            },
    {
        match self.selected {
            None => None,
            Some(i) => Some(&self.items[i]),
        }
    }

    /// The number of items.
    pub fn len(&self) -> (n: usize)
        ensures
            n == self.items@.len(),
    {
        self.items.len()
    }
}

} // verus!
