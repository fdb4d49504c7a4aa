//! The list of a chat's messages: what is selected and how far it is
//! scrolled.

use crate::backend::MessageId;
use crate::geometry::Rect;
use crate::list::{lemma_span_mono, lemma_span_one, lemma_span_split, span};
use vstd::prelude::*;

verus! {

/// Empty rows between two messages.
pub const MESSAGE_GAP: usize = 1;

/// Rows kept in view above and below the selected message, where they fit.
pub const SCROLL_ROWS: usize = 4;

/// Rows between the bottom of the newest message and the bottom of the
/// message `index`: the messages below it, each with the gap above it.
pub open spec fn rows_below(heights: Seq<usize>, index: int) -> int {
    span(heights, 0, index) + MESSAGE_GAP * index
}

/// Rows that scrolling may have to count: all messages with their gaps and
/// the rows kept around a selection.
pub open spec fn content_rows(heights: Seq<usize>) -> int {
    rows_below(heights, heights.len() as int) + SCROLL_ROWS
}

/// Rows kept in view above and below a selected message of the given
/// height: `SCROLL_ROWS`, or as many as the viewport leaves free.
pub open spec fn kept_rows(viewport: int, height: int) -> int {
    if height + SCROLL_ROWS <= viewport {
        SCROLL_ROWS as int
    } else if height <= viewport {
        viewport - height
    } else {
        0
    }
}

/// The scroll position that brings a message into view, the position
/// having been `offset`: the message is `height` rows high and `below`
/// rows lie below it. The position moves only as far as needed to show the
/// message with the rows kept around it.
pub open spec fn offset_showing(offset: int, below: int, height: int, viewport: int) -> int {
    let keep = kept_rows(viewport, height);
    if below < offset + keep {
        if below < keep {
            0
        } else {
            below - keep
        }
    } else if below + height + keep > offset + viewport {
        below + height + keep - viewport
    } else {
        offset
    }
}

/// A viewport at least as high as a message shows all of the message once
/// it has been scrolled into view.
pub proof fn lemma_offset_shows_message(offset: int, below: int, height: int, viewport: int)
    requires
        0 <= offset,
        0 <= below,
        0 <= height <= viewport,
    ensures
        0 <= offset_showing(offset, below, height, viewport) <= below,
        below + height <= offset_showing(offset, below, height, viewport) + viewport,
{
}

/// Scrolling a message into view places all of it on screen, wherever the
/// area is at least as high as the message.
pub proof fn lemma_scrolled_message_placed_in_full(
    heights: Seq<usize>,
    offset: int,
    index: int,
    area: Rect,
    selected: Option<usize>,
)
    requires
        area.wf(),
        0 <= index < heights.len(),
        0 <= offset,
        1 <= heights[index] <= area.height,
    ensures
        ({
            let scrolled = offset_showing(
                offset,
                rows_below(heights, index),
                heights[index] as int,
                area.height as int,
            );
            let placed = placement_of(heights, scrolled, area, selected, index);
            &&& is_visible(heights, scrolled, area.height as int, index)
            &&& placed.rows == heights[index]
            &&& placed.skipped == 0
            &&& area.y <= placed.y
            &&& placed.y + placed.rows <= area.y + area.height
        }),
{
    lemma_span_mono(heights, 0, 0, index, index);
    lemma_offset_shows_message(
        offset,
        rows_below(heights, index),
        heights[index] as int,
        area.height as int,
    );
}

/// A selection fitted to a list that holds something points into the
/// list: at the place selected, or at the last place if that lay beyond.
/// Fitting it once more changes nothing.
pub proof fn lemma_clamped_selection(selected: usize, len: nat)
    requires
        len > 0,
    ensures
        MessageListState::clamped(Some(selected), len) == Some(
            if selected < len {
                selected
            } else {
                (len - 1) as usize
            },
        ),
        MessageListState::clamped(Some(selected), len)->0 < len,
        MessageListState::clamped(MessageListState::clamped(Some(selected), len), len)
            == MessageListState::clamped(Some(selected), len),
{
}

/// Where one message goes on screen.
#[derive(Debug, Clone, Copy, PartialEq, Eq, Structural)]
pub struct Placement {
    /// Position of the message, counted from the newest.
    pub index: usize,
    /// The first row of the screen that shows the message.
    pub y: u16,
    /// How many rows of the screen show the message.
    pub rows: u16,
    /// How many rows of the message are cut off above the area.
    pub skipped: usize,
    /// How many rows the message has in all.
    pub height: usize,
    pub is_selected: bool,
}

impl Placement {
    /// Whether part of the message is cut off.
    pub fn is_clipped(&self) -> (res: bool)
        ensures
            res == (self.rows < self.height),
    {
        (self.rows as usize) < self.height
    }

    /// Whether the given row of the message, counted from its top, is on
    /// screen.
    pub fn shows_row(&self, row: usize) -> (res: bool)
        ensures
            res == (self.skipped <= row < self.skipped + self.rows),
    {
        self.skipped <= row && row - self.skipped < self.rows as usize
    }
}

/// Whether any row of the message `index` is inside the area when the list
/// is scrolled to `offset`.
pub open spec fn is_visible(heights: Seq<usize>, offset: int, viewport: int, index: int) -> bool {
    let low = rows_below(heights, index);
    let high = low + heights[index];
    low < offset + viewport && offset < high && low < high
}

/// Where the message `index` goes on screen when the list is scrolled to
/// `offset`: the rows of it that lie inside the area.
pub open spec fn placement_of(
    heights: Seq<usize>,
    offset: int,
    area: Rect,
    selected: Option<usize>,
    index: int,
) -> Placement {
    let low = rows_below(heights, index);
    let high = low + heights[index];
    let shown_low = if low < offset {
        offset
    } else {
        low
    };
    let shown_high = if high > offset + area.height {
        offset + area.height
    } else {
        high
    };
    Placement {
        index: index as usize,
        y: (area.y + area.height - (shown_high - offset)) as u16,
        rows: (shown_high - shown_low) as u16,
        skipped: (high - shown_high) as usize,
        height: heights[index],
        is_selected: selected == Some(index as usize),
    }
}

/// Messages never overlap on screen: of two messages in view the older
/// one ends at least a gap above the newer one.
pub proof fn lemma_placements_are_apart(
    heights: Seq<usize>,
    offset: int,
    area: Rect,
    selected: Option<usize>,
    newer: int,
    older: int,
)
    requires
        area.wf(),
        0 <= offset,
        0 <= newer < older < heights.len(),
        is_visible(heights, offset, area.height as int, newer),
        is_visible(heights, offset, area.height as int, older),
    ensures
        placement_of(heights, offset, area, selected, older).y + placement_of(
            heights,
            offset,
            area,
            selected,
            older,
        ).rows + MESSAGE_GAP <= placement_of(heights, offset, area, selected, newer).y,
{
    lemma_span_split(heights, 0, newer, older);
    lemma_span_split(heights, newer, newer + 1, older);
    lemma_span_one(heights, newer);
    lemma_span_mono(heights, newer + 1, newer + 1, older, older);
}

/// Whether `plan` places exactly the messages of which a row is inside the
/// area, from the newest on, each where it belongs.
pub open spec fn is_plan(
    heights: Seq<usize>,
    offset: int,
    area: Rect,
    selected: Option<usize>,
    plan: Seq<Placement>,
) -> bool {
    &&& forall|k: int|
        0 <= k < plan.len() ==> (#[trigger] plan[k]).index < heights.len() && is_visible(
            heights,
            offset,
            area.height as int,
            plan[k].index as int,
        ) && plan[k] == placement_of(heights, offset, area, selected, plan[k].index as int)
    &&& forall|k: int, l: int|
        0 <= k < l < plan.len() ==> (#[trigger] plan[k]).index < (#[trigger] plan[l]).index
    &&& forall|i: int|
        0 <= i < heights.len() && #[trigger] is_visible(heights, offset, area.height as int, i)
            ==> exists|k: int| 0 <= k < plan.len() && (#[trigger] plan[k]).index == i
}

/// Whether the rows of the messages, with gaps and the rows kept around a
/// selection, can be counted in a `usize`.
pub fn rows_fit(heights: &Vec<usize>) -> (res: bool)
    ensures
        res == (content_rows(heights@) <= usize::MAX),
{
    let mut total: usize = SCROLL_ROWS;
    let mut index: usize = 0;
    while index < heights.len()
        invariant
            index <= heights@.len(),
            total == rows_below(heights@, index as int) + SCROLL_ROWS,
        decreases heights@.len() - index,
    {
        let height = heights[index];
        proof {
            lemma_span_mono(heights@, 0, 0, index + 1, heights@.len() as int);
        }
        if height > usize::MAX - total || height + total > usize::MAX - MESSAGE_GAP {
            return false;
        }
        total = total + height + MESSAGE_GAP;
        index += 1;
    }
    true
}

/// Selection and scroll position of the message list.
#[derive(Debug, PartialEq, Eq, Hash)]
pub struct MessageListState {
    /// Position of the selected message, counted from the newest.
    pub selected: Option<usize>,
    /// Rows by which the newest message is pushed below the bottom edge.
    pub offset: usize,
    /// Identifier of the selected message, as of the last layout.
    pub selected_message: Option<MessageId>,
    /// Whether the next layout has to bring the selection into view.
    pub update_selected: bool,
}

impl Clone for MessageListState {
    fn clone(&self) -> (res: Self)
        ensures
            res == *self,
    {
        MessageListState {
            selected: self.selected,
            offset: self.offset,
            selected_message: match &self.selected_message {
                Some(id) => Some(id.clone()),
                None => None,
            },
            update_selected: self.update_selected,
        }
    }
}

impl Default for MessageListState {
    fn default() -> (res: Self)
        ensures
            res.selected is None,
            res.offset == 0,
            res.selected_message is None,
            !res.update_selected,
    {
        MessageListState { selected: None, offset: 0, selected_message: None, update_selected: false }
    }
}

impl MessageListState {
    /// Identifier of the selected message, as of the last layout.
    pub fn get_selected_message(&self) -> (res: Option<MessageId>)
        ensures
            res == self.selected_message,
    {
        match &self.selected_message {
            Some(id) => Some(id.clone()),
            None => None,
        }
    }

    /// Forgets selection and scroll position.
    pub fn reset(&mut self)
        ensures
            final(self).selected is None,
            final(self).offset == 0,
            final(self).selected_message is None,
            !final(self).update_selected,
    {
        self.selected = None;
        self.offset = 0;
        self.selected_message = None;
        self.update_selected = false;
    }

    /// Selects the message at `index`, or nothing. Selecting nothing scrolls
    /// back to the newest message; selecting a message asks the next layout
    /// to bring it into view.
    pub fn select(&mut self, index: Option<usize>)
        ensures
            final(self).selected == index,
            final(self).selected_message == old(self).selected_message,
            index is None ==> final(self).offset == 0 && final(self).update_selected == old(
                self,
            ).update_selected,
            index is Some ==> final(self).offset == old(self).offset && final(self).update_selected,
    {
        self.selected = index;
        if index.is_none() {
            self.offset = 0;
        } else {
            self.update_selected = true;
        }
    }

    /// The position one step towards older messages; from no selection, the
    /// newest message.
    pub open spec fn next_of(selected: Option<usize>) -> usize {
        match selected {
            Some(i) => if i < usize::MAX {
                (i + 1) as usize
            } else {
                usize::MAX
            },
            None => 0,
        }
    }

    /// The position one step towards newer messages; from no selection, the
    /// far end, which the layout clamps to the oldest message.
    pub open spec fn previous_of(selected: Option<usize>) -> usize {
        match selected {
            Some(i) => if i > 0 {
                (i - 1) as usize
            } else {
                0
            },
            None => usize::MAX,
        }
    }

    /// Moves the selection one message towards the older ones.
    pub fn select_next(&mut self)
        ensures
            final(self).selected == Some(Self::next_of(old(self).selected)),
            final(self).selected_message == old(self).selected_message,
            final(self).offset == old(self).offset,
            final(self).update_selected,
    {
        let next = match self.selected {
            Some(i) => i.saturating_add(1),
            None => 0,
        };
        self.select(Some(next));
    }

    /// Moves the selection one message towards the newer ones.
    pub fn select_previous(&mut self)
        ensures
            final(self).selected == Some(Self::previous_of(old(self).selected)),
            final(self).selected_message == old(self).selected_message,
            final(self).offset == old(self).offset,
            final(self).update_selected,
    {
        let previous = match self.selected {
            Some(i) => i.saturating_sub(1),
            None => usize::MAX,
        };
        self.select(Some(previous));
    }

    /// Selects the newest message.
    pub fn select_first(&mut self)
        ensures
            final(self).selected == Some(0usize),
            final(self).selected_message == old(self).selected_message,
            final(self).offset == old(self).offset,
            final(self).update_selected,
    {
        self.select(Some(0));
    }

    /// Selects the far end of the list, which the layout clamps to the
    /// oldest message.
    pub fn select_last(&mut self)
        ensures
            final(self).selected == Some(usize::MAX),
            final(self).selected_message == old(self).selected_message,
            final(self).offset == old(self).offset,
            final(self).update_selected,
    {
        self.select(Some(usize::MAX));
    }

    /// The position `amount` steps further from `selected`, no further than
    /// the far end; no selection counts as the newest message.
    pub open spec fn down_by(selected: Option<usize>, amount: u16) -> usize {
        let from: int = match selected {
            Some(i) => i as int,
            None => 0,
        };
        if from + amount <= usize::MAX {
            (from + amount) as usize
        } else {
            usize::MAX
        }
    }

    /// The position `amount` steps back from `selected`, no further than the
    /// newest message; no selection counts as the newest message.
    pub open spec fn up_by(selected: Option<usize>, amount: u16) -> usize {
        let from: int = match selected {
            Some(i) => i as int,
            None => 0,
        };
        if from - amount >= 0 {
            (from - amount) as usize
        } else {
            0
        }
    }

    /// Moves the selection `amount` messages towards the older ones.
    pub fn scroll_down_by(&mut self, amount: u16)
        ensures
            final(self).selected == Some(Self::down_by(old(self).selected, amount)),
            final(self).selected_message == old(self).selected_message,
            final(self).offset == old(self).offset,
            final(self).update_selected,
    {
        let selected = match self.selected {
            Some(i) => i,
            None => 0,
        };
        self.select(Some(selected.saturating_add(amount as usize)));
    }

    /// Moves the selection `amount` messages towards the newer ones.
    pub fn scroll_up_by(&mut self, amount: u16)
        ensures
            final(self).selected == Some(Self::up_by(old(self).selected, amount)),
            final(self).selected_message == old(self).selected_message,
            final(self).offset == old(self).offset,
            final(self).update_selected,
    {
        let selected = match self.selected {
            Some(i) => i,
            None => 0,
        };
        self.select(Some(selected.saturating_sub(amount as usize)));
    }

    /// The selection that fits a list of `len` messages: none in an empty
    /// list, else no further than the last message.
    pub open spec fn clamped(selected: Option<usize>, len: nat) -> Option<usize> {
        match selected {
            Some(i) => if len == 0 {
                None
            } else if i >= len {
                Some((len - 1) as usize)
            } else {
                Some(i)
            },
            None => None,
        }
    }

    /// Fits the selection to a list of `len` messages. An empty list clears
    /// the selection and scrolls back to the start; a selection beyond the
    /// end moves to the last message.
    pub fn clamp(&mut self, len: usize)
        ensures
            final(self).selected == Self::clamped(old(self).selected, len as nat),
            final(self).offset == if len == 0 {
                0
            } else {
                old(self).offset
            },
            final(self).selected_message == old(self).selected_message,
            final(self).update_selected == old(self).update_selected,
    {
        if len == 0 {
            self.selected = None;
            self.offset = 0;
        } else {
            match self.selected {
                Some(i) => {
                    if i >= len {
                        self.selected = Some(len - 1);
                    }
                },
                None => {},
            }
        }
    }

    /// Scrolls the selected message into view if a selection was made since
    /// the last layout, and notes that this has been done. The message is
    /// shown in full wherever the viewport is high enough for it.
    pub fn scroll_into_view(&mut self, heights: &Vec<usize>, viewport: u16)
        requires
            content_rows(heights@) <= usize::MAX,
            old(self).selected matches Some(index) ==> index < heights@.len(),
        ensures
            final(self).selected == old(self).selected,
            final(self).selected_message == old(self).selected_message,
            final(self).update_selected == (old(self).update_selected && old(self).selected is None),
            final(self).offset == match old(self).selected {
                Some(index) if old(self).update_selected => offset_showing(
                    old(self).offset as int,
                    rows_below(heights@, index as int),
                    heights@[index as int] as int,
                    viewport as int,
                ),
                _ => old(self).offset as int,
            },
    {
        match self.selected {
            Some(selected) => {
                if self.update_selected {
                    self.update_selected = false;
                    let below = rows_below_of(heights, selected);
                    let height = heights[selected];
                    proof {
                        lemma_span_split(heights@, 0, selected as int, heights@.len() as int);
                        lemma_span_split(heights@, selected as int, selected + 1, heights@.len() as int);
                        lemma_span_one(heights@, selected as int);
                        lemma_span_mono(heights@, selected + 1, selected + 1, heights@.len() as int, heights@.len() as int);
                    }
                    let room = viewport as usize;
                    let keep = if height <= room {
                        if room - height >= SCROLL_ROWS {
                            SCROLL_ROWS
                        } else {
                            room - height
                        }
                    } else {
                        0
                    };
                    let low = self.offset > usize::MAX - keep || below < self.offset + keep;
                    if low {
                        self.offset = below.saturating_sub(keep);
                    } else {
                        let top = below + height + keep;
                        let high = self.offset <= usize::MAX - room && top > self.offset + room;
                        if high {
                            self.offset = top - room;
                        }
                    }
                }
            },
            None => {},
        }
    }

    /// Lays the message list out in `area`: fits the selection to the
    /// list, scrolls a new selection into view, and places every message
    /// of which a row is inside the area. `heights` holds the rows of each
    /// message, the newest first. A list without messages clears the
    /// selection and shows nothing.
    pub fn layout(&mut self, heights: &Vec<usize>, area: Rect) -> (plan: Vec<Placement>)
        requires
            area.wf(),
            content_rows(heights@) <= usize::MAX,
        ensures
            final(self).selected == Self::clamped(old(self).selected, heights@.len()),
            final(self).selected_message == old(self).selected_message,
            heights@.len() == 0 ==> final(self).offset == 0 && plan@.len() == 0
                && final(self).update_selected == old(self).update_selected,
            heights@.len() > 0 ==> final(self).offset == (match final(self).selected {
                Some(index) if old(self).update_selected => offset_showing(
                    old(self).offset as int,
                    rows_below(heights@, index as int),
                    heights@[index as int] as int,
                    area.height as int,
                ),
                _ => old(self).offset as int,
            }) && final(self).update_selected == (old(self).update_selected && old(
                self,
            ).selected is None),
            is_plan(heights@, final(self).offset as int, area, final(self).selected, plan@),
    {
        self.clamp(heights.len());
        if heights.len() == 0 {
            return Vec::new();
        }
        self.scroll_into_view(heights, area.height);
        place_messages(heights, self.offset, self.selected, area)
    }
}

/// Rows between the bottom of the newest message and the bottom of the
/// message `index`.
pub fn rows_below_of(heights: &Vec<usize>, index: usize) -> (below: usize)
    requires
        index <= heights@.len(),
        content_rows(heights@) <= usize::MAX,
    ensures
        below == rows_below(heights@, index as int),
{
    let mut below: usize = 0;
    let mut i: usize = 0;
    while i < index
        invariant
            i <= index <= heights@.len(),
            content_rows(heights@) <= usize::MAX,
            below == rows_below(heights@, i as int),
        decreases index - i,
    {
        proof {
            lemma_span_mono(heights@, 0, 0, i + 1, heights@.len() as int);
        }
        below = below + heights[i] + MESSAGE_GAP;
        i += 1;
    }
    below
}

/// Places every message of which a row is inside the area when the list is
/// scrolled to `offset`.
pub fn place_messages(heights: &Vec<usize>, offset: usize, selected: Option<usize>, area: Rect) -> (plan: Vec<Placement>)
    requires
        area.wf(),
        content_rows(heights@) <= usize::MAX,
    ensures
        is_plan(heights@, offset as int, area, selected, plan@),
{
    let mut plan: Vec<Placement> = Vec::new();
    let room = area.height as usize;
    let mut below: usize = 0;
    let mut index: usize = 0;
    while index < heights.len() && (offset > usize::MAX - room || below < offset + room)
        invariant
            index <= heights@.len(),
            area.wf(),
            room == area.height,
            content_rows(heights@) <= usize::MAX,
            below == rows_below(heights@, index as int),
            forall|k: int|
                0 <= k < plan@.len() ==> (#[trigger] plan@[k]).index < index && is_visible(
                    heights@,
                    offset as int,
                    area.height as int,
                    plan@[k].index as int,
                ) && plan@[k] == placement_of(
                    heights@,
                    offset as int,
                    area,
                    selected,
                    plan@[k].index as int,
                ),
            forall|k: int, l: int|
                0 <= k < l < plan@.len() ==> (#[trigger] plan@[k]).index < (
                #[trigger] plan@[l]).index,
            forall|i: int|
                0 <= i < index && #[trigger] is_visible(
                    heights@,
                    offset as int,
                    area.height as int,
                    i,
                ) ==> exists|k: int| 0 <= k < plan@.len() && (#[trigger] plan@[k]).index == i,
        decreases heights@.len() - index,
    {
        let height = heights[index];
        proof {
            lemma_span_mono(heights@, 0, 0, index + 1, heights@.len() as int);
        }
        let high = below + height;
        let ghost before = plan@;
        if offset < high && below < high {
            let shown_low = if below < offset {
                offset
            } else {
                below
            };
            let shown_high = if offset <= usize::MAX - room && high > offset + room {
                offset + room
            } else {
                high
            };
            let is_selected = match selected {
                Some(chosen) => chosen == index,
                None => false,
            };
            let placement = Placement {
                index,
                y: area.bottom() - ((shown_high - offset) as u16),
                rows: (shown_high - shown_low) as u16,
                skipped: high - shown_high,
                height,
                is_selected,
            };
            plan.push(placement);
            proof {
                assert(plan@[plan@.len() - 1].index == index);
            }
        }
        proof {
            assert forall|i: int|
                0 <= i < index + 1 && #[trigger] is_visible(
                    heights@,
                    offset as int,
                    area.height as int,
                    i,
                ) implies exists|k: int| 0 <= k < plan@.len() && (#[trigger] plan@[k]).index
                == i by {
                if i < index {
                    let k = choose|k: int| 0 <= k < before.len() && (#[trigger] before[k]).index == i;
                    assert(plan@[k].index == i);
                }
            }
        }
        below = high + MESSAGE_GAP;
        index += 1;
    }
    proof {
        assert forall|i: int|
            0 <= i < heights@.len() && #[trigger] is_visible(
                heights@,
                offset as int,
                area.height as int,
                i,
            ) implies exists|k: int| 0 <= k < plan@.len() && (#[trigger] plan@[k]).index == i by {
            if i >= index {
                lemma_span_mono(heights@, 0, 0, index as int, i);
            }
        }
    }
    plan
}

} // verus!
