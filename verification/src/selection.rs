//! Selection state of tab bars and lists: which entry is current, and how the
//! selection moves.

use vstd::prelude::*;

verus! {

/// A row of tabs and the position of the current one.
pub struct TabsState<'a> {
    pub titles: Vec<&'a str>,
    pub index: usize,
}

impl<'a> TabsState<'a> {
    /// Tabs with the titles `titles`, the first of them current.
    pub fn new(titles: Vec<&'a str>) -> (tabs: TabsState<'a>)
        ensures
            tabs.titles == titles,
            tabs.index == 0,
    {
        TabsState { titles, index: 0 }
    }

    /// Moves to the next tab; after the last comes the first.
    pub fn next(&mut self)
        requires
            old(self).titles@.len() > 0,
            old(self).index < usize::MAX,
        ensures
            final(self).titles == old(self).titles,
            final(self).index == (old(self).index + 1) % (old(self).titles@.len() as int),
    {
        self.index = (self.index + 1) % self.titles.len();
    }

    /// Moves to the previous tab; before the first comes the last.
    pub fn previous(&mut self)
        requires
            old(self).titles@.len() > 0,
        ensures
            final(self).titles == old(self).titles,
            final(self).index == if old(self).index > 0 {
                old(self).index - 1
            } else {
                old(self).titles@.len() - 1
            },
    {
        if self.index > 0 {
            self.index -= 1;
        } else {
            self.index = self.titles.len() - 1;
        }
    }
}

/// The entry that is selected after the one at `selected` of `len` entries:
/// the following entry, the first one after the last, and the first one when
/// nothing was selected.
pub open spec fn selection_after(selected: Option<usize>, len: nat) -> usize {
    match selected {
        Some(i) => if len == 0 || i >= len - 1 {
            0
        } else {
            (i + 1) as usize
        },
        None => 0,
    }
}

/// The entry that is selected before the one at `selected` of `len` entries:
/// the preceding entry, the last one before the first, and the first one
/// when nothing was selected or there is no entry.
pub open spec fn selection_before(selected: Option<usize>, len: nat) -> usize {
    match selected {
        Some(i) => if len == 0 {
            0
        } else if i == 0 {
            (len - 1) as usize
        } else {
            (i - 1) as usize
        },
        None => 0,
    }
}

/// A list of items and the position of the selected one, if any.
pub struct StatefulList<T> {
    pub selected: Option<usize>,
    pub items: Vec<T>,
}

impl<T> StatefulList<T> {
    /// A list of `items` with nothing selected.
    pub fn with_items(items: Vec<T>) -> (list: StatefulList<T>)
        ensures
            list.items == items,
            list.selected is None,
    {
        StatefulList { selected: None, items }
    }

    /// Selects the next item, going round from the last to the first.
    pub fn next(&mut self)
        ensures
            final(self).items == old(self).items,
            final(self).selected == Some(
                selection_after(old(self).selected, old(self).items@.len()),
            ),
    {
        let i = match self.selected {
            Some(i) => {
                if self.items.len() == 0 {
                    0
                } else if i >= self.items.len() - 1 {
                    0
                } else {
                    i + 1
                }
            },
            None => 0,
        };
        self.selected = Some(i);
    }

    /// Selects the previous item, going round from the first to the last.
    pub fn previous(&mut self)
        ensures
            final(self).items == old(self).items,
            final(self).selected == Some(
                selection_before(old(self).selected, old(self).items@.len()),
            ),
    {
        let i = match self.selected {
            Some(i) => {
                if self.items.len() == 0 {
                    0
                } else if i == 0 {
                    self.items.len() - 1
                } else {
                    i - 1
                }
            },
            None => 0,
        };
        self.selected = Some(i);
    }
}

/// Going round a non-empty list keeps the selection inside the list, and
/// stepping forward and then back returns to a selected item of the list.
pub proof fn lemma_selection_stays_inside(selected: Option<usize>, len: nat)
    requires
        0 < len <= usize::MAX,
    ensures
        selection_after(selected, len) < len,
        selected matches Some(i) ==> (i < len ==> {
            &&& selection_before(selected, len) < len
            &&& selection_before(Some(selection_after(selected, len)), len) == i
            &&& selection_after(Some(selection_before(selected, len)), len) == i
        }),
{
}

} // verus!
