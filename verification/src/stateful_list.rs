//! A list with a cursor that is either off or on one of its items.

use vstd::prelude::*;

verus! {

/// What `next` does to a cursor over `len` items: it steps on, wraps from
/// the last item to the first, starts at the first item when it was off,
/// and stays off when there is nothing to stand on.
pub open spec fn cursor_after_next(cursor: Option<nat>, len: nat) -> Option<nat> {
    if len == 0 {
        None
    } else {
        match cursor {
            Some(at) => if at + 1 >= len {
                Some(0)
            } else {
                Some(at + 1)
            },
            None => Some(0),
        }
    }
}

/// What `previous` does to a cursor over `len` items: it steps back, wraps
/// from the first item to the last, starts at the first item when it was
/// off, and stays off when there is nothing to stand on.
pub open spec fn cursor_after_previous(cursor: Option<nat>, len: nat) -> Option<nat> {
    if len == 0 {
        None
    } else {
        match cursor {
            Some(at) => if at == 0 {
                Some((len - 1) as nat)
            } else {
                Some((at - 1) as nat)
            },
            None => Some(0),
        }
    }
}

/// Items and a cursor. The cursor never points past the items.
pub struct StatefulList<T> {
    selected: Option<usize>,
    items: Vec<T>,
}

impl<T> StatefulList<T> {
    #[verifier::type_invariant]
    spec fn cursor_in_range(&self) -> bool {
        self.selected matches Some(at) ==> at < self.items.len()
    }

    /// The items, in order.
    pub closed spec fn spec_items(&self) -> Seq<T> {
        self.items@
    }

    /// The place of the cursor, if it is on an item.
    pub closed spec fn spec_selected(&self) -> Option<nat> {
        match self.selected {
            Some(at) => Some(at as nat),
            None => None,
        }
    }

    /// A list of `items` with the cursor off.
    pub fn with_items(items: Vec<T>) -> (list: Self)
        ensures
            list.spec_items() == items@,
            list.spec_selected().is_none(),
    {
        StatefulList { selected: None, items }
    }

    /// The items, in order.
    pub fn items(&self) -> (items: &Vec<T>)
        ensures
            items@ == self.spec_items(),
    {
        &self.items
    }

    /// The place of the cursor, if it is on an item.
    pub fn selected(&self) -> (cursor: Option<usize>)
        ensures
            match cursor {
                Some(at) => self.spec_selected() == Some(at as nat) && at < self.spec_items().len(),
                None => self.spec_selected().is_none(),
            },
    {
        proof {
            use_type_invariant(self);
        }
        self.selected
    }

    /// The item under the cursor, if the cursor is on one.
    pub fn selected_item(&self) -> (item: Option<&T>)
        ensures
            match item {
                Some(found) => self.spec_selected() matches Some(at) && at
                    < self.spec_items().len() && *found == self.spec_items()[at as int],
                None => self.spec_selected().is_none(),
            },
    {
        proof {
            use_type_invariant(self);
        }
        match self.selected {
            Some(at) => Some(&self.items[at]),
            None => None,
        }
    }

    /// Moves the cursor to the next item.
    pub fn next(&mut self)
        ensures
            final(self).spec_items() == old(self).spec_items(),
            final(self).spec_selected() == cursor_after_next(
                old(self).spec_selected(),
                old(self).spec_items().len(),
            ),
    {
        proof {
            use_type_invariant(&*self);
        }
        if self.items.len() == 0 {
            self.selected = None;
        } else {
            let at = match self.selected {
                Some(at) => if at >= self.items.len() - 1 {
                    0
                } else {
                    at + 1
                },
                None => 0,
            };
            self.selected = Some(at);
        }
    }

    /// Moves the cursor to the item before.
    pub fn previous(&mut self)
        ensures
            final(self).spec_items() == old(self).spec_items(),
            final(self).spec_selected() == cursor_after_previous(
                old(self).spec_selected(),
                old(self).spec_items().len(),
            ),
    {
        proof {
            use_type_invariant(&*self);
        }
        if self.items.len() == 0 {
            self.selected = None;
        } else {
            let at = match self.selected {
                Some(at) => if at == 0 {
                    self.items.len() - 1
                } else {
                    at - 1
                },
                None => 0,
            };
            self.selected = Some(at);
        }
    }

    /// Takes the cursor off the items.
    pub fn unselect(&mut self)
        ensures
            final(self).spec_items() == old(self).spec_items(),
            final(self).spec_selected().is_none(),
    {
        self.selected = None;
    }
}

} // verus!
