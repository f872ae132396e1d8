//! Vertical scroll indicator: maps the selected row, the total row
//! count and the viewport height to the scroll offset that keeps the
//! selection on screen. Recomputed every frame; painting the thumb is
//! the renderer's business.

use vstd::prelude::*;

verus! {

/// The next scroll offset: zero while everything fits, otherwise the
/// previous offset nudged just far enough that `selection` is visible
/// in a window of `height` rows.
pub fn scroll_offset(top: usize, selection: usize, total: usize, height: usize) -> (new_top:
    usize)
    ensures
        height == 0 || total <= height ==> new_top == 0,
        height > 0 && total > height && selection < top ==> new_top == selection,
        height > 0 && total > height && selection >= top + height ==> new_top == selection + 1
            - height,
        height > 0 && total > height && top <= selection < top + height ==> new_top == top,
{
    if height == 0 || total <= height {
        0
    } else if selection < top {
        selection
    } else if selection - top >= height {
        selection - (height - 1)
    } else {
        top
    }
}

} // verus!
