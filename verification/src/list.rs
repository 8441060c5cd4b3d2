//! The highlighted row of a list and how arrow keys move it.

use vstd::prelude::*;

verus! {

/// Which row of a list is highlighted, if any.
#[derive(PartialEq, Eq, Structural, Clone, Copy, Debug)]
pub struct ListCursor {
    pub selected: Option<usize>,
}

/// The absolute value of a step.
pub open spec fn step_size(delta: i32) -> nat {
    if delta >= 0 {
        delta as nat
    } else {
        (-delta) as nat
    }
}

/// The row highlighted after moving `delta` rows in a list of `len` rows:
/// from the highlighted row (the first when none is), downwards no further
/// than the last row, upwards no further than the first.
pub open spec fn moved_selection(selected: Option<usize>, len: usize, delta: i32) -> Option<usize> {
    if len == 0 {
        selected
    } else {
        let current = match selected {
            Some(i) => i as int,
            None => 0,
        };
        if delta > 0 {
            let up = current + step_size(delta);
            Some(if up < len - 1 { up as usize } else { (len - 1) as usize })
        } else {
            let down = current - step_size(delta);
            Some(if down > 0 { down as usize } else { 0usize })
        }
    }
}

impl ListCursor {
    pub fn new() -> (c: ListCursor)
        ensures
            c.selected is None,
    {
        ListCursor { selected: None }
    }

    pub fn select(&mut self, index: Option<usize>)
        ensures
            final(self).selected == index,
    {
        self.selected = index;
    }

    pub fn selected(&self) -> (r: Option<usize>)
        ensures
            r == self.selected,
    {
        self.selected
    }
}

/// Moves the highlight of a list of `len` rows by `delta` rows.
pub fn move_list_selection(state: &mut ListCursor, len: usize, delta: i32)
    ensures
        final(state).selected == moved_selection(old(state).selected, len, delta),
{
    if len == 0 {
        return;
    }
    let current: usize = match state.selected {
        Some(i) => i,
        None => 0,
    };
    let abs: u32 = if delta >= 0 {
        delta as u32
    } else {
        (-(delta as i64)) as u32
    };
    let next: usize = if delta > 0 {
        let up: usize = current.saturating_add(abs as usize);
        if up < len - 1 {
            up
        } else {
            len - 1
        }
    } else {
        current.saturating_sub(abs as usize)
    };
    state.selected = Some(next);
}

/// Moving the highlight never leaves it past the last row when it moves
/// down, and a highlight within the list stays within it.
pub proof fn lemma_moved_selection_in_bounds(selected: Option<usize>, len: usize, delta: i32)
    requires
        len > 0,
        selected matches Some(i) ==> i < len,
    ensures
        moved_selection(selected, len, delta) matches Some(j) && j < len,
{
}

} // verus!
