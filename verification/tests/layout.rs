use wstui::geometry::Rect;
use wstui::list::{HighlightSpacing, ListDirection, WidgetList, WidgetListState};
use wstui::message_list::{place_messages, rows_below_of, rows_fit, MessageListState, Placement};

fn list(heights: Vec<usize>, scroll_padding: usize) -> WidgetList {
    WidgetList {
        heights,
        scroll_padding,
        direction: ListDirection::TopToBottom,
        highlight_symbol: None,
        highlight_spacing: HighlightSpacing::Never,
    }
}

fn fresh_state() -> MessageListState {
    MessageListState::default()
}

#[test]
fn bounds_fill_the_viewport_from_the_offset() {
    let items = list(vec![2, 3, 1, 4, 2], 0);
    assert_eq!(items.get_items_bounds(None, 0, 6), (0, 3));
    assert_eq!(items.get_items_bounds(None, 1, 6), (1, 3));
    assert_eq!(items.get_items_bounds(None, 3, 6), (3, 5));
    assert_eq!(items.get_items_bounds(None, 99, 6), (4, 5));
    assert_eq!(items.get_items_bounds(None, 0, 100), (0, 5));
}

#[test]
fn bounds_move_down_to_show_the_selection() {
    let items = list(vec![2, 3, 1, 4, 2], 0);
    assert_eq!(items.get_items_bounds(Some(3), 0, 6), (2, 4));
    assert_eq!(items.get_items_bounds(Some(4), 0, 6), (3, 5));
    assert_eq!(items.get_items_bounds(Some(99), 0, 6), (3, 5));
}

#[test]
fn bounds_move_up_to_show_the_selection() {
    let items = list(vec![2, 3, 1, 4, 2], 0);
    assert_eq!(items.get_items_bounds(Some(0), 3, 6), (0, 3));
    assert_eq!(items.get_items_bounds(Some(1), 4, 6), (1, 3));
}

#[test]
fn bounds_of_an_item_higher_than_the_viewport_are_empty() {
    let items = list(vec![10], 0);
    assert_eq!(items.get_items_bounds(None, 0, 5), (0, 0));
    let items = list(vec![1, 10, 1], 0);
    assert_eq!(items.get_items_bounds(Some(1), 0, 5), (1, 1));
}

#[test]
fn scroll_padding_keeps_neighbours_in_view() {
    let items = list(vec![1, 1, 1, 1, 1, 1, 1, 1], 1);
    assert_eq!(items.get_items_bounds(Some(3), 0, 4), (1, 5));
    assert_eq!(items.get_items_bounds(Some(2), 0, 4), (0, 4));
    assert_eq!(items.get_items_bounds(Some(3), 5, 4), (2, 6));
    assert_eq!(items.apply_scroll_padding_to_selected_index(Some(3), 4, 0, 4), Some(4));
    assert_eq!(items.apply_scroll_padding_to_selected_index(Some(2), 4, 0, 4), Some(2));
    assert_eq!(items.apply_scroll_padding_to_selected_index(Some(5), 4, 5, 8), Some(4));
    assert_eq!(items.apply_scroll_padding_to_selected_index(None, 4, 0, 4), None);
}

#[test]
fn scroll_padding_shrinks_before_the_selection_is_hidden() {
    let items = list(vec![3, 3, 3, 3, 3], 2);
    assert!(!items.around_fits(2, 2, 9));
    assert!(items.around_fits(2, 1, 9));
    assert_eq!(items.apply_scroll_padding_to_selected_index(Some(2), 9, 0, 3), Some(3));
    assert_eq!(items.get_items_bounds(Some(2), 0, 9), (1, 4));
    assert_eq!(items.get_items_bounds(Some(2), 0, 3), (2, 3));
    assert_eq!(items.get_items_bounds(Some(4), 0, 4), (4, 5));
}

#[test]
fn window_always_holds_a_selection_that_fits() {
    let heights = vec![2usize, 5, 1, 3, 4, 1, 2];
    for padding in 0..4usize {
        let items = list(heights.clone(), padding);
        for max in 0..12usize {
            for offset in 0..9usize {
                for selected in 0..9usize {
                    let (first, last) = items.get_items_bounds(Some(selected), offset, max);
                    let index = selected.min(heights.len() - 1);
                    let total: usize = heights[first..last].iter().sum();
                    assert!(first <= last && last <= heights.len());
                    assert!(total <= max);
                    if heights[index] <= max {
                        assert!(first <= index && index < last);
                    }
                }
            }
        }
    }
}

#[test]
fn selection_beyond_the_list_is_clamped_by_the_layout() {
    let items = list(vec![1, 1, 1], 0);
    let mut state = WidgetListState { selected: Some(5), offset: 0 };
    let rows = items.layout(&mut state, Rect::new(0, 0, 10, 10));
    assert_eq!(state.selected, Some(2));
    assert_eq!(rows.len(), 3);
    assert!(rows[2].is_selected);
    assert!(!rows[0].is_selected);
}

#[test]
fn selection_beyond_the_messages_is_clamped_by_the_layout() {
    let mut state = fresh_state();
    state.select(Some(5));
    let plan = state.layout(&vec![1, 1, 1], Rect::new(0, 0, 10, 10));
    assert_eq!(state.selected, Some(2));
    assert_eq!(plan.len(), 3);
    assert!(plan[2].is_selected);
    let mut state = fresh_state();
    state.select_last();
    state.clamp(3);
    assert_eq!(state.selected, Some(2));
}

#[test]
fn empty_list_clears_selection_and_offset() {
    let items = list(Vec::new(), 0);
    let mut state = WidgetListState { selected: Some(1), offset: 4 };
    let rows = items.layout(&mut state, Rect::new(0, 0, 10, 10));
    assert!(rows.is_empty());
    assert_eq!(state.selected, None);
    assert_eq!(state.offset, 0);
    let mut messages = fresh_state();
    messages.select(Some(3));
    messages.offset = 7;
    let plan = messages.layout(&Vec::new(), Rect::new(0, 0, 10, 10));
    assert!(plan.is_empty());
    assert_eq!(messages.selected, None);
    assert_eq!(messages.offset, 0);
}

#[test]
fn empty_area_lays_nothing_out() {
    let items = list(vec![1, 1], 0);
    let mut state = WidgetListState { selected: Some(9), offset: 1 };
    let rows = items.layout(&mut state, Rect::new(0, 0, 0, 5));
    assert!(rows.is_empty());
    assert_eq!(state.selected, Some(9));
    assert_eq!(state.offset, 1);
}

#[test]
fn rows_stack_from_the_top() {
    let items = list(vec![2, 3, 1], 0);
    let mut state = WidgetListState { selected: None, offset: 0 };
    let rows = items.layout(&mut state, Rect::new(4, 10, 20, 5));
    assert_eq!(rows.len(), 2);
    assert_eq!(rows[0].row_area, Rect { x: 4, y: 10, width: 20, height: 2 });
    assert_eq!(rows[1].row_area, Rect { x: 4, y: 12, width: 20, height: 3 });
    assert_eq!(rows[0].item_area, rows[0].row_area);
    assert_eq!(rows[0].index, 0);
    assert_eq!(rows[1].index, 1);
    assert_eq!(state.offset, 0);
}

#[test]
fn rows_stack_from_the_bottom() {
    let mut items = list(vec![2, 3, 1], 0);
    items.direction = ListDirection::BottomToTop;
    let mut state = WidgetListState { selected: Some(2), offset: 0 };
    let rows = items.layout(&mut state, Rect::new(0, 10, 20, 5));
    assert_eq!(state.offset, 1);
    assert_eq!(rows.len(), 2);
    assert_eq!(rows[0].row_area, Rect { x: 0, y: 12, width: 20, height: 3 });
    assert_eq!(rows[1].row_area, Rect { x: 0, y: 11, width: 20, height: 1 });
    assert!(rows[1].is_selected);
}

#[test]
fn highlight_symbol_shifts_items_by_its_width() {
    let mut items = list(vec![1, 1], 0);
    items.highlight_symbol = Some("=> ".to_string());
    items.highlight_spacing = HighlightSpacing::Always;
    let mut state = WidgetListState { selected: None, offset: 0 };
    let rows = items.layout(&mut state, Rect::new(2, 0, 20, 5));
    assert_eq!(rows[0].item_area, Rect { x: 5, y: 0, width: 17, height: 1 });
    items.highlight_symbol = Some("日本".to_string());
    let rows = items.layout(&mut state, Rect::new(2, 0, 20, 5));
    assert_eq!(rows[0].item_area, Rect { x: 6, y: 0, width: 16, height: 1 });
    items.highlight_spacing = HighlightSpacing::WhenSelected;
    let rows = items.layout(&mut state, Rect::new(2, 0, 20, 5));
    assert_eq!(rows[0].item_area.x, 2);
    state.select(Some(1));
    let rows = items.layout(&mut state, Rect::new(2, 0, 20, 5));
    assert_eq!(rows[0].item_area.x, 6);
    let rows = items.layout_rows(&mut state, Rect::new(2, 0, 20, 5), 50);
    assert_eq!(rows[0].item_area, Rect { x: 22, y: 0, width: 0, height: 1 });
}

#[test]
fn rect_is_cut_to_the_terminal() {
    let rect = Rect::new(65000, 10, 1000, 20);
    assert_eq!(rect, Rect { x: 65000, y: 10, width: 535, height: 20 });
    assert_eq!(rect.bottom(), 30);
    assert_eq!(rect.left(), 65000);
    assert_eq!(rect.top(), 10);
    assert!(!rect.is_empty());
    assert!(Rect::new(0, 0, 0, 4).is_empty());
}

#[test]
fn messages_are_placed_from_the_bottom_with_gaps() {
    let area = Rect::new(0, 10, 30, 10);
    let plan = place_messages(&vec![2, 3, 4, 5], 0, Some(1), area);
    assert_eq!(plan.len(), 3);
    assert_eq!(
        plan[0],
        Placement { index: 0, y: 18, rows: 2, skipped: 0, height: 2, is_selected: false }
    );
    assert_eq!(
        plan[1],
        Placement { index: 1, y: 14, rows: 3, skipped: 0, height: 3, is_selected: true }
    );
    assert_eq!(
        plan[2],
        Placement { index: 2, y: 10, rows: 3, skipped: 1, height: 4, is_selected: false }
    );
    assert!(plan[2].is_clipped());
    assert!(!plan[1].is_clipped());
    assert!(!plan[2].shows_row(0));
    assert!(plan[2].shows_row(1));
    assert!(plan[2].shows_row(3));
    assert!(!plan[2].shows_row(4));
}

#[test]
fn scrolled_messages_are_cut_at_the_bottom() {
    let area = Rect::new(0, 0, 30, 4);
    let plan = place_messages(&vec![3, 3, 3], 1, None, area);
    assert_eq!(plan.len(), 2);
    assert_eq!(
        plan[0],
        Placement { index: 0, y: 2, rows: 2, skipped: 0, height: 3, is_selected: false }
    );
    assert_eq!(
        plan[1],
        Placement { index: 1, y: 0, rows: 1, skipped: 2, height: 3, is_selected: false }
    );
    let far = place_messages(&vec![3, 3, 3], 100, None, area);
    assert!(far.is_empty());
}

#[test]
fn rows_below_count_heights_and_gaps() {
    let heights = vec![2, 3, 4];
    assert_eq!(rows_below_of(&heights, 0), 0);
    assert_eq!(rows_below_of(&heights, 1), 3);
    assert_eq!(rows_below_of(&heights, 2), 7);
    assert_eq!(rows_below_of(&heights, 3), 12);
    assert!(rows_fit(&heights));
    assert!(!rows_fit(&vec![usize::MAX, 1]));
    assert!(!rows_fit(&vec![usize::MAX - 4]));
    assert!(rows_fit(&vec![usize::MAX - 5]));
}

#[test]
fn new_selection_is_scrolled_into_view_with_rows_to_spare() {
    let heights = vec![3, 3, 3, 3, 3, 3];
    let area = Rect::new(0, 0, 30, 10);
    let mut state = fresh_state();
    state.select(Some(4));
    let plan = state.layout(&heights, area);
    assert_eq!(state.offset, 13);
    assert!(!state.update_selected);
    let chosen: Vec<&Placement> = plan.iter().filter(|placed| placed.is_selected).collect();
    assert_eq!(chosen.len(), 1);
    assert_eq!(chosen[0].index, 4);
    assert_eq!(chosen[0].rows, 3);
    assert_eq!(chosen[0].skipped, 0);
    assert_eq!(chosen[0].y, 4);
    state.select(Some(0));
    state.layout(&heights, area);
    assert_eq!(state.offset, 0);
    state.select(Some(2));
    state.offset = 8;
    state.layout(&heights, area);
    assert_eq!(state.offset, 4);
}

#[test]
fn old_selection_does_not_scroll() {
    let heights = vec![3, 3, 3, 3, 3, 3];
    let area = Rect::new(0, 0, 30, 10);
    let mut state = fresh_state();
    state.select(Some(4));
    state.layout(&heights, area);
    state.scroll_down_by(0);
    state.update_selected = false;
    state.offset = 0;
    state.layout(&heights, area);
    assert_eq!(state.offset, 0);
}

#[test]
fn selected_message_is_shown_in_full_whenever_it_fits() {
    let heights = vec![2usize, 5, 1, 3, 4, 1, 2];
    for height in 1..12u16 {
        for offset in 0..30usize {
            for selected in 0..heights.len() {
                let area = Rect::new(0, 3, 20, height);
                let mut state = fresh_state();
                state.offset = offset;
                state.select(Some(selected));
                let plan = state.layout(&heights, area);
                if heights[selected] <= height as usize {
                    let placed: Vec<&Placement> =
                        plan.iter().filter(|placed| placed.index == selected).collect();
                    assert_eq!(placed.len(), 1);
                    assert_eq!(placed[0].rows as usize, heights[selected]);
                    assert_eq!(placed[0].skipped, 0);
                    assert!(placed[0].y >= 3);
                    assert!(placed[0].y + placed[0].rows <= 3 + height);
                }
                for placed in plan.iter() {
                    assert!(placed.rows >= 1);
                    assert!(placed.y >= 3 && placed.y + placed.rows <= 3 + height);
                }
            }
        }
    }
}

#[test]
fn selection_steps_saturate() {
    let mut state = fresh_state();
    state.select_next();
    assert_eq!(state.selected, Some(0));
    state.select_next();
    assert_eq!(state.selected, Some(1));
    state.select_previous();
    state.select_previous();
    assert_eq!(state.selected, Some(0));
    state.select(Some(usize::MAX));
    state.select_next();
    assert_eq!(state.selected, Some(usize::MAX));
    state.select(None);
    assert_eq!(state.offset, 0);
    state.select_previous();
    assert_eq!(state.selected, Some(usize::MAX));
    state.select_first();
    assert_eq!(state.selected, Some(0));
    state.scroll_down_by(3);
    assert_eq!(state.selected, Some(3));
    state.scroll_up_by(5);
    assert_eq!(state.selected, Some(0));
    state.select_last();
    state.scroll_down_by(7);
    assert_eq!(state.selected, Some(usize::MAX));
    state.selected_message = Some("m".to_string());
    assert_eq!(state.get_selected_message(), Some("m".to_string()));
    state.reset();
    assert_eq!(state.selected, None);
    assert_eq!(state.get_selected_message(), None);
    assert!(!state.update_selected);
    assert_eq!(state.offset, 0);
}

fn padded_by_stepping(
    heights: &[usize],
    scroll_padding: usize,
    selected: Option<usize>,
    max_height: usize,
    first_visible: usize,
    last_visible: usize,
) -> Option<usize> {
    let last_valid = heights.len().saturating_sub(1);
    let selected = selected?.min(last_valid);
    let mut padding = scroll_padding;
    while padding > 0 {
        let mut around = 0;
        for index in selected.saturating_sub(padding)..=selected.saturating_add(padding).min(last_valid)
        {
            around += heights[index];
        }
        if around <= max_height {
            break;
        }
        padding -= 1;
    }
    Some(
        if (selected + padding).min(last_valid) >= last_visible {
            selected + padding
        } else if selected.saturating_sub(padding) < first_visible {
            selected.saturating_sub(padding)
        } else {
            selected
        }
        .min(last_valid),
    )
}

fn bounds_by_stepping(
    heights: &[usize],
    scroll_padding: usize,
    selected: Option<usize>,
    offset: usize,
    max_height: usize,
) -> (usize, usize) {
    let offset = offset.min(heights.len().saturating_sub(1));
    let mut first = offset;
    let mut last = offset;
    let mut height = 0usize;
    for item in heights.iter().skip(offset) {
        if height + item > max_height {
            break;
        }
        height += item;
        last += 1;
    }
    let shown =
        padded_by_stepping(heights, scroll_padding, selected, max_height, first, last).unwrap_or(offset);
    while shown >= last {
        height = height.saturating_add(heights[last]);
        last += 1;
        while height > max_height {
            height = height.saturating_sub(heights[first]);
            first += 1;
        }
    }
    while shown < first {
        first -= 1;
        height = height.saturating_add(heights[first]);
        while height > max_height {
            last -= 1;
            height = height.saturating_sub(heights[last]);
        }
    }
    (first, last)
}

fn all_heights(len: usize, top: usize) -> Vec<Vec<usize>> {
    let mut lists: Vec<Vec<usize>> = vec![Vec::new()];
    for _ in 0..len {
        let mut longer = Vec::new();
        for list in &lists {
            for height in 0..=top {
                let mut next = list.clone();
                next.push(height);
                longer.push(next);
            }
        }
        lists = longer;
    }
    lists
}

#[test]
fn bounds_agree_with_stepping_through_the_items() {
    for len in 1..=4usize {
        for heights in all_heights(len, 3) {
            for padding in 0..=2usize {
                let items = list(heights.clone(), padding);
                for max in 0..=7usize {
                    for offset in 0..=len {
                        for choice in 0..=len + 1 {
                            let selected = if choice == 0 { None } else { Some(choice - 1) };
                            assert_eq!(
                                items.get_items_bounds(selected, offset, max),
                                bounds_by_stepping(&heights, padding, selected, offset, max),
                                "heights {:?} padding {} selected {:?} offset {} max {}",
                                heights,
                                padding,
                                selected,
                                offset,
                                max
                            );
                        }
                    }
                }
            }
        }
    }
}

#[test]
fn padded_target_agrees_with_stepping_through_the_items() {
    for heights in all_heights(4, 3) {
        for padding in 0..=3usize {
            let items = list(heights.clone(), padding);
            for max in 0..=7usize {
                for first in 0..=4usize {
                    for last in first..=4usize {
                        for choice in 0..=5usize {
                            let selected = if choice == 0 { None } else { Some(choice - 1) };
                            assert_eq!(
                                items.apply_scroll_padding_to_selected_index(selected, max, first, last),
                                padded_by_stepping(&heights, padding, selected, max, first, last)
                            );
                        }
                    }
                }
            }
        }
    }
}
