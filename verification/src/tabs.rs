//! A bounded cyclic integer cursor over a dynamically-sized set of labels.

use vstd::prelude::*;

verus! {

/// Mathematical model of a [`TabIndex`]: the label sequence and the cursor.
#[verifier::ext_equal]
pub struct TabsView {
    pub labels: Seq<String>,
    pub index: int,
}

impl TabsView {
    /// Well-formedness: the cursor is in `[0, len)`, or 0 when there are no
    /// labels (the defined empty state).
    pub open spec fn wf(self) -> bool {
        if self.labels.len() == 0 {
            self.index == 0
        } else {
            0 <= self.index < self.labels.len()
        }
    }

    /// The cursor after one `next`: the last index wraps to 0; the empty
    /// state is unchanged.
    pub open spec fn next_spec(self) -> TabsView {
        if self.labels.len() == 0 {
            self
        } else {
            TabsView {
                labels: self.labels,
                index: if self.index + 1 == self.labels.len() {
                    0int
                } else {
                    self.index + 1
                },
            }
        }
    }

    /// The cursor after one `previous`: index 0 wraps to the end; the empty
    /// state is unchanged.
    pub open spec fn previous_spec(self) -> TabsView {
        if self.labels.len() == 0 {
            self
        } else {
            TabsView {
                labels: self.labels,
                index: if self.index == 0 {
                    self.labels.len() - 1
                } else {
                    self.index - 1
                },
            }
        }
    }
}

/// An ordered sequence of labels with a cursor in `[0, len)` (0 when empty),
/// moved with the same wraparound rule as the selection lists.
pub struct TabIndex {
    pub labels: Vec<String>,
    pub index: usize,
}

impl View for TabIndex {
    type V = TabsView;

    open spec fn view(&self) -> TabsView {
        TabsView { labels: self.labels@, index: self.index as int }
    }
}

impl TabIndex {
    /// A tab cursor over the given labels, starting at 0.
    pub fn new(labels: Vec<String>) -> (t: Self)
        ensures
            t@ == (TabsView { labels: labels@, index: 0int }),
            t@.wf(),
    {
        TabIndex { labels, index: 0 }
    }

    /// Advance the cursor, wrapping from the last label to 0; a no-op when
    /// there are no labels.
    pub fn next(&mut self)
        requires
            old(self)@.wf(),
        ensures
            final(self)@ == old(self)@.next_spec(),
            final(self)@.wf(),
    {
        let len = self.labels.len();
        if len == 0 {
            return ;
        }
        self.index = if self.index + 1 == len {
            0
        } else {
            self.index + 1
        };
    }

    /// Move the cursor back, wrapping from 0 to the last label; a no-op when
    /// there are no labels.
    pub fn previous(&mut self)
        requires
            old(self)@.wf(),
        ensures
            final(self)@ == old(self)@.previous_spec(),
            final(self)@.wf(),
    {
        let len = self.labels.len();
        if len == 0 {
            return ;
        }
        self.index = if self.index == 0 {
            len - 1
        } else {
            self.index - 1
        };
    }

    /// The number of labels.
    pub fn len(&self) -> (n: usize)
        ensures
            n == self.labels@.len(),
    {
        self.labels.len()
    }
}

} // verus!
