//! The scroll controller: a viewport offset that follows a selection cursor.

use vstd::prelude::*;

verus! {

/// The viewport offset that keeps `selection` visible in a window of `height`
/// rows whose offset was `current_top`, over content of `selection_max` rows.
pub open spec fn scroll_top(current_top: int, height: int, selection: int, selection_max: int) -> int {
    if height == 0 || selection_max <= height {
        0
    } else if current_top + height <= selection {
        selection - height + 1
    } else if current_top > selection {
        selection
    } else {
        current_top
    }
}

/// The largest offset that still shows a full window: the rows that do not fit.
pub open spec fn max_scroll_top(selection_max: int, height: int) -> int {
    if height > 0 && selection_max > height {
        selection_max - height
    } else {
        0
    }
}

/// Computes the new viewport offset. Total over all inputs: the sum
/// `current_top + height_in_lines` is compared without being formed.
pub fn calc_scroll_top(
    current_top: usize,
    height_in_lines: usize,
    selection: usize,
    selection_max: usize,
) -> (top: usize)
    ensures
        top == scroll_top(current_top as int, height_in_lines as int, selection as int, selection_max as int),
{
    if height_in_lines == 0 {
        return 0;
    }
    if selection_max <= height_in_lines {
        return 0;
    }
    if height_in_lines <= selection && current_top <= selection - height_in_lines {
        selection - height_in_lines + 1
    } else if current_top > selection {
        selection
    } else {
        current_top
    }
}

/// Viewport offset of a scrollable list, with the largest offset it may take
/// and the two flags that decide how its scrollbar is drawn.
pub struct VerticalScroll {
    top: usize,
    max_top: usize,
    inside: bool,
    border: bool,
}

impl VerticalScroll {
    /// The stored offset.
    pub closed spec fn top(&self) -> int {
        self.top as int
    }

    /// The stored largest offset.
    pub closed spec fn max_top(&self) -> int {
        self.max_top as int
    }

    /// Whether the scrollbar leaves a gap for a border.
    pub closed spec fn has_border(&self) -> bool {
        self.border
    }

    /// Whether the thumb is drawn inside the track.
    pub closed spec fn is_inside(&self) -> bool {
        self.inside
    }

    pub fn new(border: bool, inside: bool) -> (s: Self)
        ensures
            s.top() == 0,
            s.max_top() == 0,
            s.has_border() == border,
            s.is_inside() == inside,
    {
        Self { top: 0, max_top: 0, border, inside }
    }

    pub fn get_top(&self) -> (top: usize)
        ensures
            top == self.top(),
    {
        self.top
    }

    pub fn get_max_top(&self) -> (max_top: usize)
        ensures
            max_top == self.max_top(),
    {
        self.max_top
    }

    pub fn border(&self) -> (b: bool)
        ensures
            b == self.has_border(),
    {
        self.border
    }

    pub fn inside(&self) -> (b: bool)
        ensures
            b == self.is_inside(),
    {
        self.inside
    }

    /// Returns to the first row, as when the list shows other data.
    pub fn reset(&mut self)
        ensures
            final(self).top() == 0,
            final(self).max_top() == old(self).max_top(),
            final(self).has_border() == old(self).has_border(),
            final(self).is_inside() == old(self).is_inside(),
    {
        self.top = 0;
    }

    /// Follows the selection: stores and returns the new offset, and stores the
    /// largest offset for this content and window.
    pub fn update(&mut self, selection: usize, selection_max: usize, visual_height: usize) -> (new_top: usize)
        ensures
            new_top == scroll_top(
                old(self).top(),
                visual_height as int,
                selection as int,
                selection_max as int,
            ),
            final(self).top() == new_top,
            final(self).max_top() == max_scroll_top(selection_max as int, visual_height as int),
            final(self).has_border() == old(self).has_border(),
            final(self).is_inside() == old(self).is_inside(),
    {
        let new_top = calc_scroll_top(self.top, visual_height, selection, selection_max);
        self.top = new_top;
        if visual_height == 0 {
            self.max_top = 0;
        } else {
            self.max_top = selection_max.saturating_sub(visual_height);
        }
        new_top
    }
}

/// Content that fits in a window of at least one row never scrolls, wherever
/// the selection and the earlier offset are.
pub proof fn lemma_fitting_content_stays_at_top(current_top: int, height: int, selection: int, selection_max: int)
    requires
        height > 0,
        selection_max <= height,
    ensures
        scroll_top(current_top, height, selection, selection_max) == 0,
{
}

/// A window without rows never scrolls.
pub proof fn lemma_empty_window_stays_at_top(current_top: int, selection: int, selection_max: int)
    ensures
        scroll_top(current_top, 0, selection, selection_max) == 0,
{
}

/// When the selection lies at or below the row after the window, the window
/// moves down just far enough to show it on its last row; a selection on the
/// window's last row leaves the window where it is.
pub proof fn lemma_follows_forward(current_top: int, height: int, selection: int, selection_max: int)
    requires
        0 <= current_top,
        0 < height < selection_max,
    ensures
        current_top + height <= selection ==> {
            &&& scroll_top(current_top, height, selection, selection_max) == selection - height + 1
            &&& scroll_top(current_top, height, selection, selection_max) + height - 1 == selection
        },
        current_top + height - 1 == selection ==> scroll_top(
            current_top,
            height,
            selection,
            selection_max,
        ) == current_top,
{
}

/// When the selection lies above the window, it becomes the window's first row.
pub proof fn lemma_jumps_backward(current_top: int, height: int, selection: int, selection_max: int)
    requires
        0 <= selection < current_top,
        0 < height < selection_max,
    ensures
        scroll_top(current_top, height, selection, selection_max) == selection,
{
}

/// A second update with the same arguments leaves the offset of the first.
pub proof fn lemma_update_is_idempotent(current_top: int, height: int, selection: int, selection_max: int)
    requires
        0 <= height,
    ensures
        scroll_top(
            scroll_top(current_top, height, selection, selection_max),
            height,
            selection,
            selection_max,
        ) == scroll_top(current_top, height, selection, selection_max),
{
}

/// After an update the selection lies inside the window, when the content
/// does not fit and the window has rows.
pub proof fn lemma_selection_visible_after_update(current_top: int, height: int, selection: int, selection_max: int)
    requires
        0 <= current_top,
        0 <= selection,
        0 < height < selection_max,
    ensures
        scroll_top(current_top, height, selection, selection_max) <= selection < scroll_top(
            current_top,
            height,
            selection,
            selection_max,
        ) + height,
{
}

} // verus!
