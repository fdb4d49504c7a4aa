//! A list of items of different heights: which of them fit into a viewport
//! so that the selected one stays in view.

use crate::geometry::Rect;
use crate::text::{display_width, text_width};
use vstd::prelude::*;

verus! {

/// Rows taken by the items from `from` up to, not including, `to`.
pub open spec fn span(heights: Seq<usize>, from: int, to: int) -> int
    decreases to - from,
{
    if to <= from {
        0
    } else {
        span(heights, from, to - 1) + heights[to - 1]
    }
}

/// A run of items takes the rows of its two parts.
pub proof fn lemma_span_split(heights: Seq<usize>, from: int, mid: int, to: int)
    requires
        from <= mid <= to,
    ensures
        span(heights, from, to) == span(heights, from, mid) + span(heights, mid, to),
    decreases to - mid,
{
    if mid < to {
        lemma_span_split(heights, from, mid, to - 1);
    }
}

/// A run of items takes at least the rows of any run inside it.
pub proof fn lemma_span_mono(heights: Seq<usize>, outer_from: int, from: int, to: int, outer_to: int)
    requires
        outer_from <= from <= to <= outer_to,
    ensures
        0 <= span(heights, from, to) <= span(heights, outer_from, outer_to),
    decreases outer_to - outer_from,
{
    lemma_span_nonnegative(heights, outer_from, from);
    lemma_span_nonnegative(heights, from, to);
    lemma_span_nonnegative(heights, to, outer_to);
    lemma_span_split(heights, outer_from, from, outer_to);
    lemma_span_split(heights, from, to, outer_to);
}

/// One item takes its own rows.
pub proof fn lemma_span_one(heights: Seq<usize>, index: int)
    ensures
        span(heights, index, index + 1) == heights[index],
{
    assert(span(heights, index, index) == 0);
}

proof fn lemma_span_nonnegative(heights: Seq<usize>, from: int, to: int)
    ensures
        0 <= span(heights, from, to),
    decreases to - from,
{
    if from < to {
        lemma_span_nonnegative(heights, from, to - 1);
    }
}

/// Where the longest run of items that starts at `from`, reaches `at` and
/// fits into `max` rows ends.
pub open spec fn run_end(heights: Seq<usize>, from: int, at: int, max: int) -> int
    decreases heights.len() - at,
{
    if at < heights.len() && span(heights, from, at + 1) <= max {
        run_end(heights, from, at + 1, max)
    } else {
        at
    }
}

/// Where the longest run of items that ends at `end`, starts no earlier
/// than `at` and fits into `max` rows starts.
pub open spec fn run_start(heights: Seq<usize>, at: int, end: int, max: int) -> int
    decreases end - at,
{
    if at < end && span(heights, at, end) > max {
        run_start(heights, at + 1, end, max)
    } else {
        at
    }
}

/// Where the longest run of items that starts at `from`, ends no later
/// than `at` and fits into `max` rows ends.
pub open spec fn back_end(heights: Seq<usize>, from: int, at: int, max: int) -> int
    decreases at - from,
{
    if from < at && span(heights, from, at) > max {
        back_end(heights, from, at - 1, max)
    } else {
        at
    }
}

/// `run_end` is the one end at which the run fits and cannot grow.
pub proof fn lemma_run_end(heights: Seq<usize>, from: int, at: int, max: int, end: int)
    requires
        0 <= from <= at <= end <= heights.len(),
        span(heights, from, end) <= max,
        end < heights.len() ==> span(heights, from, end + 1) > max,
    ensures
        run_end(heights, from, at, max) == end,
    decreases end - at,
{
    if at < end {
        lemma_run_end(heights, from, at + 1, max, end);
    }
}

/// `run_start` is the one start at which the run fits and cannot grow.
pub proof fn lemma_run_start(heights: Seq<usize>, at: int, end: int, max: int, start: int)
    requires
        0 <= at <= start <= end <= heights.len(),
        0 <= max,
        span(heights, start, end) <= max,
        forall|f: int| at <= f < start ==> span(heights, f, end) > max,
    ensures
        run_start(heights, at, end, max) == start,
    decreases start - at,
{
    if at < start {
        lemma_run_start(heights, at + 1, end, max, start);
    }
}

/// `back_end` is the one end at which the run fits and cannot grow.
pub proof fn lemma_back_end(heights: Seq<usize>, from: int, at: int, max: int, end: int)
    requires
        0 <= from <= end <= at <= heights.len(),
        0 <= max,
        span(heights, from, end) <= max,
        forall|l: int| end < l <= at ==> span(heights, from, l) > max,
    ensures
        back_end(heights, from, at, max) == end,
    decreases at - end,
{
    if end < at {
        lemma_back_end(heights, from, at - 1, max, end);
    }
}

/// Rows taken by the item at `selected` with `padding` items on each side,
/// as far as the list reaches.
pub open spec fn around(heights: Seq<usize>, selected: int, padding: int) -> int {
    span(
        heights,
        if selected - padding < 0 {
            0
        } else {
            selected - padding
        },
        if selected + padding < heights.len() - 1 {
            selected + padding + 1
        } else {
            heights.len() as int
        },
    )
}

/// The number of items, at most `padding`, kept in view on each side of
/// the selected one: the largest for which they all fit into `max` rows,
/// or none.
pub open spec fn effective_padding(heights: Seq<usize>, selected: int, max: int, padding: int) -> int
    decreases padding,
{
    if padding > 0 && around(heights, selected, padding) > max {
        effective_padding(heights, selected, max, padding - 1)
    } else {
        padding
    }
}

/// The item that has to be in view for the selected one to be in view with
/// its padding, when the items from `first` up to `last` are in view now.
pub open spec fn padded_target(
    heights: Seq<usize>,
    selected: int,
    max: int,
    padding: int,
    first: int,
    last: int,
) -> int {
    let keep = effective_padding(heights, selected, max, padding);
    let end = heights.len() - 1;
    let below = if selected + keep < end {
        selected + keep
    } else {
        end
    };
    let above = if selected - keep < 0 {
        0
    } else {
        selected - keep
    };
    if below >= last {
        below
    } else if above < first {
        above
    } else {
        selected
    }
}

/// The items in view, from the first up to, not including, the last: as
/// many as fit from `offset` on, moved as little as needed to bring
/// `target` into view.
pub open spec fn window(heights: Seq<usize>, offset: int, target: int, max: int) -> (int, int) {
    let end = run_end(heights, offset, offset, max);
    if target >= end {
        let start = run_start(heights, offset, target + 1, max);
        if start > target {
            (target, back_end(heights, target, target + 1, max))
        } else {
            (start, target + 1)
        }
    } else if target < offset {
        (target, back_end(heights, target, end, max))
    } else {
        (offset, end)
    }
}

/// The place where the list starts to show items: `offset`, kept inside
/// the list.
pub open spec fn clamped_offset(heights: Seq<usize>, offset: int) -> int {
    if offset < heights.len() - 1 {
        offset
    } else {
        heights.len() - 1
    }
}

/// The item that has to be in view: the selected one with its padding, or
/// without a selection the item at the offset.
pub open spec fn target_of(
    heights: Seq<usize>,
    selected: Option<usize>,
    offset: int,
    max: int,
    padding: int,
) -> int {
    let start = clamped_offset(heights, offset);
    match selected {
        Some(index) => padded_target(
            heights,
            clamped_offset(heights, index as int),
            max,
            padding,
            start,
            run_end(heights, start, start, max),
        ),
        None => start,
    }
}

/// The run that `run_end` ends fits and cannot grow.
pub proof fn lemma_run_end_fits(heights: Seq<usize>, from: int, at: int, max: int)
    requires
        0 <= from <= at <= heights.len(),
        span(heights, from, at) <= max,
    ensures
        at <= run_end(heights, from, at, max) <= heights.len(),
        span(heights, from, run_end(heights, from, at, max)) <= max,
        run_end(heights, from, at, max) < heights.len() ==> span(
            heights,
            from,
            run_end(heights, from, at, max) + 1,
        ) > max,
    decreases heights.len() - at,
{
    if at < heights.len() && span(heights, from, at + 1) <= max {
        lemma_run_end_fits(heights, from, at + 1, max);
    }
}

/// The run that `run_start` starts fits and cannot grow.
pub proof fn lemma_run_start_fits(heights: Seq<usize>, at: int, end: int, max: int)
    requires
        0 <= at <= end <= heights.len(),
        0 <= max,
    ensures
        at <= run_start(heights, at, end, max) <= end,
        span(heights, run_start(heights, at, end, max), end) <= max,
        forall|f: int|
            at <= f < run_start(heights, at, end, max) ==> span(heights, f, end) > max,
    decreases end - at,
{
    if at < end && span(heights, at, end) > max {
        lemma_run_start_fits(heights, at + 1, end, max);
    }
}

/// The run that `back_end` ends fits and cannot grow.
pub proof fn lemma_back_end_fits(heights: Seq<usize>, from: int, at: int, max: int)
    requires
        0 <= from <= at <= heights.len(),
        0 <= max,
    ensures
        from <= back_end(heights, from, at, max) <= at,
        span(heights, from, back_end(heights, from, at, max)) <= max,
        forall|l: int|
            back_end(heights, from, at, max) < l <= at ==> span(heights, from, l) > max,
    decreases at - from,
{
    if from < at && span(heights, from, at) > max {
        lemma_back_end_fits(heights, from, at - 1, max);
    }
}

/// The padding kept is no more than asked for, and what is kept fits.
pub proof fn lemma_effective_padding(heights: Seq<usize>, selected: int, max: int, padding: int)
    requires
        0 <= padding,
    ensures
        0 <= effective_padding(heights, selected, max, padding) <= padding,
        effective_padding(heights, selected, max, padding) > 0 ==> around(
            heights,
            selected,
            effective_padding(heights, selected, max, padding),
        ) <= max,
    decreases padding,
{
    if padding > 0 && around(heights, selected, padding) > max {
        lemma_effective_padding(heights, selected, max, padding - 1);
    }
}

/// A viewport with room for the selected item shows all of it: the items
/// in view include the selected one, and together they fit.
pub proof fn lemma_window_shows_selected(
    heights: Seq<usize>,
    index: usize,
    offset: int,
    max: int,
    padding: int,
)
    requires
        heights.len() > 0,
        0 <= offset,
        0 <= padding,
        heights[clamped_offset(heights, index as int)] <= max,
    ensures
        ({
            let selected = clamped_offset(heights, index as int);
            let shown = window(
                heights,
                clamped_offset(heights, offset),
                target_of(heights, Some(index), offset, max, padding),
                max,
            );
            &&& 0 <= shown.0 <= selected < shown.1 <= heights.len()
            &&& span(heights, shown.0, shown.1) <= max
        }),
{
    let selected = clamped_offset(heights, index as int);
    let start = clamped_offset(heights, offset);
    let end = run_end(heights, start, start, max);
    let keep = effective_padding(heights, selected, max, padding);
    let last = heights.len() - 1;
    let below = if selected + keep < last {
        selected + keep
    } else {
        last
    };
    let above = if selected - keep < 0 {
        0
    } else {
        selected - keep
    };
    let target = target_of(heights, Some(index), offset, max, padding);
    lemma_run_end_fits(heights, start, start, max);
    lemma_effective_padding(heights, selected, max, padding);
    assert(span(heights, above, below + 1) <= max) by {
        if keep == 0 {
            lemma_span_one(heights, selected);
        }
    }
    if below >= end {
        if above < start {
            lemma_span_mono(heights, above, start, below + 1, below + 1);
            lemma_span_mono(heights, start, start, end + 1, below + 1);
        }
        lemma_run_start_fits(heights, start, target + 1, max);
    } else if above < start {
        lemma_back_end_fits(heights, above, end, max);
    }
}

/// How the items of a list follow each other on screen.
#[derive(Debug, Clone, Copy, PartialEq, Eq, Structural)]
pub enum ListDirection {
    TopToBottom,
    BottomToTop,
}

/// When room is kept in front of the items for the mark of the selected
/// one.
#[derive(Debug, Clone, Copy, PartialEq, Eq, Structural)]
pub enum HighlightSpacing {
    Always,
    WhenSelected,
    Never,
}

/// A list of items, each as high as it needs to be.
#[derive(Debug)]
pub struct WidgetList {
    /// Rows that each item takes at the width of the list.
    pub heights: Vec<usize>,
    /// Items kept in view on each side of the selected one, where they fit.
    pub scroll_padding: usize,
    pub direction: ListDirection,
    /// The mark put in front of the selected item.
    pub highlight_symbol: Option<String>,
    pub highlight_spacing: HighlightSpacing,
}

/// What a list has selected and where it starts to show its items.
#[derive(Debug, Clone, Copy, PartialEq, Eq, Structural)]
pub struct WidgetListState {
    pub selected: Option<usize>,
    /// The first item shown.
    pub offset: usize,
}

impl WidgetListState {
    /// Selects the item at `index`, or nothing; selecting nothing also
    /// scrolls back to the start.
    pub fn select(&mut self, index: Option<usize>)
        ensures
            final(self).selected == index,
            final(self).offset == if index is None {
                0
            } else {
                old(self).offset
            },
    {
        self.selected = index;
        if index.is_none() {
            self.offset = 0;
        }
    }
}

/// Where one item of a list goes on screen.
#[derive(Debug, Clone, Copy, PartialEq, Eq, Structural)]
pub struct Row {
    /// Which item this is.
    pub index: usize,
    /// The rows and columns given to the item and its mark.
    pub row_area: Rect,
    /// The part of them given to the item itself.
    pub item_area: Rect,
    pub is_selected: bool,
}

/// The rows of the list's area at which the item `index` starts, when the
/// items from `first` on are shown.
pub open spec fn row_top(
    heights: Seq<usize>,
    first: int,
    index: int,
    area: Rect,
    direction: ListDirection,
) -> int {
    match direction {
        ListDirection::TopToBottom => area.y + span(heights, first, index),
        ListDirection::BottomToTop => area.y + area.height - span(heights, first, index + 1),
    }
}

/// Where the item `index` goes on screen, when the items from `first` on are
/// shown and `shift` columns are kept for the mark.
pub open spec fn row_at(
    heights: Seq<usize>,
    first: int,
    index: int,
    area: Rect,
    direction: ListDirection,
    shift: int,
    selected: Option<usize>,
) -> Row {
    let row_area = Rect {
        x: area.x,
        y: row_top(heights, first, index, area, direction) as u16,
        width: area.width,
        height: heights[index] as u16,
    };
    Row {
        index: index as usize,
        row_area: row_area,
        item_area: Rect {
            x: (area.x + shift) as u16,
            y: row_area.y,
            width: (area.width - shift) as u16,
            height: row_area.height,
        },
        is_selected: selected == Some(index as usize),
    }
}

/// The selection that fits a list of `len` items: none in an empty list,
/// else no further than the last item.
pub open spec fn clamped_selection(selected: Option<usize>, len: nat) -> Option<usize> {
    match selected {
        Some(index) => if len == 0 {
            None
        } else if index >= len {
            Some((len - 1) as usize)
        } else {
            Some(index)
        },
        None => None,
    }
}

/// The columns kept in front of the items for the mark: as wide as the
/// mark, no wider than the list, and none where no room is to be kept.
pub open spec fn mark_shift(
    spacing: HighlightSpacing,
    selected: Option<usize>,
    symbol_width: int,
    width: int,
) -> int {
    let keep = match spacing {
        HighlightSpacing::Always => true,
        HighlightSpacing::WhenSelected => selected is Some,
        HighlightSpacing::Never => false,
    };
    if !keep {
        0
    } else if symbol_width < width {
        symbol_width
    } else {
        width
    }
}

impl WidgetList {
    /// Whether the item at `selected` with `padding` items on each side
    /// fits into `max_height` rows.
    #[verifier::loop_isolation(false)]
    pub fn around_fits(&self, selected: usize, padding: usize, max_height: usize) -> (res: bool)
        requires
            selected < self.heights@.len(),
        ensures
            res == (around(self.heights@, selected as int, padding as int) <= max_height),
    {
        let from = selected.saturating_sub(padding);
        let last_valid = self.heights.len() - 1;
        let reach = selected.saturating_add(padding);
        let to = if reach < last_valid {
            reach + 1
        } else {
            self.heights.len()
        };
        let mut total: usize = 0;
        let mut index = from;
        while index < to
            invariant
                from <= index <= to <= self.heights@.len(),
                total == span(self.heights@, from as int, index as int),
                total <= max_height,
            decreases to - index,
        {
            let height = self.heights[index];
            if height > max_height - total {
                proof {
                    lemma_span_mono(self.heights@, from as int, from as int, index + 1, to as int);
                }
                return false;
            }
            total += height;
            index += 1;
        }
        true
    }

    /// The item that has to be in view for the selected one to be in view
    /// with as much of its padding as fits; `None` without a selection. A
    /// selection beyond the end counts as the last item.
    pub fn apply_scroll_padding_to_selected_index(
        &self,
        selected: Option<usize>,
        max_height: usize,
        first_visible_index: usize,
        last_visible_index: usize,
    ) -> (res: Option<usize>)
        requires
            self.heights@.len() > 0,
        ensures
            selected is None ==> res is None,
            selected matches Some(index) ==> res matches Some(target) && target
                == padded_target(
                self.heights@,
                clamped_offset(self.heights@, index as int),
                max_height as int,
                self.scroll_padding as int,
                first_visible_index as int,
                last_visible_index as int,
            ) && target < self.heights@.len(),
    {
        let last_valid_index = self.heights.len() - 1;
        let selected = match selected {
            Some(index) => if index < last_valid_index {
                index
            } else {
                last_valid_index
            },
            None => {
                return None;
            },
        };
        let mut scroll_padding = self.scroll_padding;
        while scroll_padding > 0 && !self.around_fits(selected, scroll_padding, max_height)
            invariant
                selected < self.heights@.len(),
                scroll_padding <= self.scroll_padding,
                effective_padding(
                    self.heights@,
                    selected as int,
                    max_height as int,
                    self.scroll_padding as int,
                ) == effective_padding(
                    self.heights@,
                    selected as int,
                    max_height as int,
                    scroll_padding as int,
                ),
            decreases scroll_padding,
        {
            scroll_padding -= 1;
        }
        let reach = selected.saturating_add(scroll_padding);
        let below = if reach < last_valid_index {
            reach
        } else {
            last_valid_index
        };
        let above = selected.saturating_sub(scroll_padding);
        let target = if below >= last_visible_index {
            below
        } else if above < first_visible_index {
            above
        } else {
            selected
        };
        Some(target)
    }

    /// The items to show, from the first up to, not including, the last:
    /// as many as fit into `max_height` rows from `offset` on, moved as
    /// little as needed to bring the selected item into view with its
    /// padding. An offset or a selection beyond the end counts as the last
    /// item.
    #[verifier::loop_isolation(false)]
    pub fn get_items_bounds(&self, selected: Option<usize>, offset: usize, max_height: usize) -> (bounds: (usize, usize))
        requires
            self.heights@.len() > 0,
        ensures
            (bounds.0 as int, bounds.1 as int) == window(
                self.heights@,
                clamped_offset(self.heights@, offset as int),
                target_of(
                    self.heights@,
                    selected,
                    offset as int,
                    max_height as int,
                    self.scroll_padding as int,
                ),
                max_height as int,
            ),
            bounds.0 <= bounds.1 <= self.heights@.len(),
            span(self.heights@, bounds.0 as int, bounds.1 as int) <= max_height,
            selected matches Some(index) ==> (self.heights@[clamped_offset(
                self.heights@,
                index as int,
            )] <= max_height ==> bounds.0 <= clamped_offset(self.heights@, index as int)
                < bounds.1),
    {

        let ghost heights = self.heights@;
        let ghost max = max_height as int;
        let ghost asked = offset;
        let count = self.heights.len();
        let offset = if offset < count - 1 {
            offset
        } else {
            count - 1
        };
        let mut first_visible_index = offset;
        let mut last_visible_index = offset;
        let mut height_from_offset: u128 = 0;
        while last_visible_index < count && height_from_offset
            + self.heights[last_visible_index] as u128 <= max_height as u128
            invariant
                heights == self.heights@,
                count == heights.len(),
                offset <= last_visible_index <= count,
                height_from_offset == span(heights, offset as int, last_visible_index as int),
                height_from_offset <= max_height,
            decreases count - last_visible_index,
        {
            height_from_offset += self.heights[last_visible_index] as u128;
            last_visible_index += 1;
        }
        proof {
            lemma_run_end(heights, offset as int, offset as int, max, last_visible_index as int);
        }
        let ghost end = last_visible_index as int;
        let index_to_display = match self.apply_scroll_padding_to_selected_index(
            selected,
            max_height,
            first_visible_index,
            last_visible_index,
        ) {
            Some(index) => index,
            None => offset,
        };
        let ghost target = index_to_display as int;
        if index_to_display >= last_visible_index {
            while index_to_display >= last_visible_index
                invariant
                    heights == self.heights@,
                    count == heights.len(),
                    index_to_display < count,
                    offset <= first_visible_index <= last_visible_index <= index_to_display + 1,
                    end <= last_visible_index,
                    height_from_offset == span(
                        heights,
                        first_visible_index as int,
                        last_visible_index as int,
                    ),
                    height_from_offset <= max_height,
                    forall|f: int|
                        offset <= f < first_visible_index ==> span(heights, f, last_visible_index as int)
                            > max,
                decreases index_to_display + 1 - last_visible_index,
            {
                height_from_offset += self.heights[last_visible_index] as u128;
                last_visible_index += 1;
                proof {
                    assert forall|f: int| offset <= f < first_visible_index implies span(
                        heights,
                        f,
                        last_visible_index as int,
                    ) > max by {
                        lemma_span_mono(heights, f, f, last_visible_index - 1, last_visible_index as int);
                    }
                }
                while height_from_offset > max_height as u128
                    invariant
                        heights == self.heights@,
                        count == heights.len(),
                        offset <= first_visible_index <= last_visible_index <= count,
                        height_from_offset == span(
                            heights,
                            first_visible_index as int,
                            last_visible_index as int,
                        ),
                        forall|f: int|
                            offset <= f < first_visible_index ==> span(
                                heights,
                                f,
                                last_visible_index as int,
                            ) > max,
                    decreases last_visible_index - first_visible_index,
                {
                    proof {
                        lemma_span_split(
                            heights,
                            first_visible_index as int,
                            first_visible_index + 1,
                            last_visible_index as int,
                        );
                        lemma_span_one(heights, first_visible_index as int);
                        lemma_span_nonnegative(
                            heights,
                            first_visible_index + 1,
                            last_visible_index as int,
                        );
                    }
                    height_from_offset -= self.heights[first_visible_index] as u128;
                    first_visible_index += 1;
                }
            }
            proof {
                lemma_run_start(
                    heights,
                    offset as int,
                    target + 1,
                    max,
                    first_visible_index as int,
                );
            }
        }
        let ghost cap = last_visible_index as int;
        if index_to_display < first_visible_index {
            while index_to_display < first_visible_index
                invariant
                    heights == self.heights@,
                    count == heights.len(),
                    index_to_display <= first_visible_index <= last_visible_index <= cap <= count,
                    height_from_offset == span(
                        heights,
                        first_visible_index as int,
                        last_visible_index as int,
                    ),
                    height_from_offset <= max_height,
                    forall|l: int|
                        last_visible_index < l <= cap ==> span(heights, first_visible_index as int, l)
                            > max,
                decreases first_visible_index - index_to_display,
            {
                first_visible_index -= 1;
                height_from_offset += self.heights[first_visible_index] as u128;
                proof {
                    lemma_span_split(
                        heights,
                        first_visible_index as int,
                        first_visible_index + 1,
                        last_visible_index as int,
                    );
                    lemma_span_one(heights, first_visible_index as int);
                    assert forall|l: int| last_visible_index < l <= cap implies span(
                        heights,
                        first_visible_index as int,
                        l,
                    ) > max by {
                        lemma_span_mono(heights, first_visible_index as int, first_visible_index + 1, l, l);
                    }
                }
                while height_from_offset > max_height as u128
                    invariant
                        heights == self.heights@,
                        count == heights.len(),
                        first_visible_index <= last_visible_index <= cap <= count,
                        height_from_offset == span(
                            heights,
                            first_visible_index as int,
                            last_visible_index as int,
                        ),
                        forall|l: int|
                            last_visible_index < l <= cap ==> span(
                                heights,
                                first_visible_index as int,
                                l,
                            ) > max,
                    decreases last_visible_index - first_visible_index,
                {
                    proof {
                        lemma_span_nonnegative(
                            heights,
                            first_visible_index as int,
                            last_visible_index - 1,
                        );
                    }
                    last_visible_index -= 1;
                    height_from_offset -= self.heights[last_visible_index] as u128;
                }
            }
            proof {
                lemma_back_end(heights, target, cap, max, last_visible_index as int);
            }
        }
        proof {
            if let Some(index) = selected {
                if self.heights@[clamped_offset(self.heights@, index as int)] <= max_height {
                    lemma_window_shows_selected(
                        self.heights@,
                        index,
                        asked as int,
                        max_height as int,
                        self.scroll_padding as int,
                    );
                }
            }
        }
        (first_visible_index, last_visible_index)
    }

    /// The columns that the mark of the selected item takes.
    pub open spec fn symbol_columns(&self) -> nat {
        match self.highlight_symbol {
            Some(symbol) => display_width(symbol@),
            None => 0,
        }
    }

    /// Lays the list out in `list_area`: fits the selection to the list,
    /// picks the items to show, remembers the first of them as the new
    /// offset, and gives each its place. An area without cells shows
    /// nothing and changes nothing; a list without items clears the
    /// selection.
    pub fn layout(&self, state: &mut WidgetListState, list_area: Rect) -> (rows: Vec<Row>)
        requires
            list_area.wf(),
        ensures
            self.laid_out(*old(state), list_area, self.symbol_columns() as int, *final(state), rows@),
    {
        let symbol_width = match &self.highlight_symbol {
            Some(symbol) => text_width(symbol.as_str()),
            None => 0,
        };
        self.layout_rows(state, list_area, symbol_width)
    }

    /// What `layout` makes of a state: the state after it and the rows,
    /// given the columns that the mark takes.
    pub open spec fn laid_out(
        &self,
        before: WidgetListState,
        list_area: Rect,
        symbol_width: int,
        after: WidgetListState,
        rows: Seq<Row>,
    ) -> bool {
        if list_area.width == 0 || list_area.height == 0 {
            after == before && rows.len() == 0
        } else if self.heights@.len() == 0 {
            after.selected is None && after.offset == 0 && rows.len() == 0
        } else {
            let selected = clamped_selection(before.selected, self.heights@.len());
            let shown = window(
                self.heights@,
                clamped_offset(self.heights@, before.offset as int),
                target_of(
                    self.heights@,
                    selected,
                    before.offset as int,
                    list_area.height as int,
                    self.scroll_padding as int,
                ),
                list_area.height as int,
            );
            let shift = mark_shift(
                self.highlight_spacing,
                selected,
                symbol_width,
                list_area.width as int,
            );
            &&& after.selected == selected
            &&& after.offset == shown.0
            &&& rows.len() == shown.1 - shown.0
            &&& forall|k: int|
                0 <= k < rows.len() ==> #[trigger] rows[k] == row_at(
                    self.heights@,
                    shown.0,
                    shown.0 + k,
                    list_area,
                    self.direction,
                    shift,
                    selected,
                )
            &&& forall|k: int|
                0 <= k < rows.len() ==> list_area.y <= (#[trigger] rows[k]).row_area.y
                    && rows[k].row_area.y + rows[k].row_area.height <= list_area.y
                    + list_area.height && rows[k].row_area.height == self.heights@[shown.0 + k]
        }
    }

    /// Lays the list out as `layout` does, with the columns that the mark
    /// takes given.
    #[verifier::loop_isolation(false)]
    pub fn layout_rows(&self, state: &mut WidgetListState, list_area: Rect, symbol_width: usize) -> (rows: Vec<Row>)
        requires
            list_area.wf(),
        ensures
            self.laid_out(*old(state), list_area, symbol_width as int, *final(state), rows@),
    {
        let mut rows: Vec<Row> = Vec::new();
        if list_area.is_empty() {
            return rows;
        }
        let count = self.heights.len();
        if count == 0 {
            state.select(None);
            return rows;
        }
        match state.selected {
            Some(index) => {
                if index >= count {
                    state.select(Some(count - 1));
                }
            },
            None => {},
        }
        let ghost heights = self.heights@;
        let ghost selected = state.selected;
        let list_height = list_area.height as usize;
        let (first, last) = self.get_items_bounds(state.selected, state.offset, list_height);
        proof {
            assert(target_of(
                heights,
                selected,
                old(state).offset as int,
                list_area.height as int,
                self.scroll_padding as int,
            ) == target_of(
                heights,
                old(state).selected,
                old(state).offset as int,
                list_area.height as int,
                self.scroll_padding as int,
            )) by {}
        }
        state.offset = first;
        let keep = match self.highlight_spacing {
            HighlightSpacing::Always => true,
            HighlightSpacing::WhenSelected => state.selected.is_some(),
            HighlightSpacing::Never => false,
        };
        let shift: u16 = if !keep {
            0
        } else if symbol_width < list_area.width as usize {
            symbol_width as u16
        } else {
            list_area.width
        };
        let mut current_height: u16 = 0;
        let mut index = first;
        while index < last
            invariant
                first <= index <= last <= count,
                current_height == span(heights, first as int, index as int),
                rows@.len() == index - first,
                forall|k: int|
                    0 <= k < rows@.len() ==> #[trigger] rows@[k] == row_at(
                        heights,
                        first as int,
                        first + k,
                        list_area,
                        self.direction,
                        shift as int,
                        selected,
                    ),
                forall|k: int|
                    0 <= k < rows@.len() ==> list_area.y <= (#[trigger] rows@[k]).row_area.y
                        && rows@[k].row_area.y + rows@[k].row_area.height <= list_area.y
                        + list_area.height && rows@[k].row_area.height == heights[first + k],
            decreases last - index,
        {
            proof {
                lemma_span_split(heights, first as int, index as int, last as int);
                lemma_span_split(heights, index as int, index + 1, last as int);
                lemma_span_one(heights, index as int);
                lemma_span_mono(heights, index as int, index + 1, last as int, last as int);
            }
            let height = self.heights[index] as u16;
            let y = match self.direction {
                ListDirection::BottomToTop => {
                    current_height += height;
                    list_area.bottom() - current_height
                },
                ListDirection::TopToBottom => {
                    let y = list_area.top() + current_height;
                    current_height += height;
                    y
                },
            };
            let row_area = Rect { x: list_area.left(), y, width: list_area.width, height };
            let item_area = Rect {
                x: row_area.x + shift,
                y,
                width: row_area.width - shift,
                height,
            };
            let is_selected = match state.selected {
                Some(chosen) => chosen == index,
                None => false,
            };
            rows.push(Row { index, row_area, item_area, is_selected });
            index += 1;
        }
        rows
    }
}

} // verus!
