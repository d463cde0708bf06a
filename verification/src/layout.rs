//! The layout of the widgets: the navigation graph that moves the focus,
//! and the geometry that a click is tested against.

use vstd::prelude::*;
use crate::input::WidgetDirection;
use crate::widget::ScrollState;

verus! {

/// The rows at the top of a process widget that hold its border and its
/// header, above the first row of the list.
pub const TABLE_HEADER_HEIGHT: u16 = 2;

/// Where one widget lies on the screen, and which widgets lie next to it.
/// The rectangle holds the columns from `top_left_x` up to, not including,
/// `bottom_right_x`, and the rows likewise.
#[derive(Clone, Copy, Debug, PartialEq, Eq, Structural)]
pub struct WidgetLayout {
    pub widget_id: u64,
    pub left_neighbour: Option<u64>,
    pub right_neighbour: Option<u64>,
    pub up_neighbour: Option<u64>,
    pub down_neighbour: Option<u64>,
    pub top_left_x: u16,
    pub top_left_y: u16,
    pub bottom_right_x: u16,
    pub bottom_right_y: u16,
}

/// The widget next to `layout` in a direction, if there is one.
pub open spec fn neighbour(layout: WidgetLayout, direction: WidgetDirection) -> Option<u64> {
    match direction {
        WidgetDirection::Left => layout.left_neighbour,
        WidgetDirection::Right => layout.right_neighbour,
        WidgetDirection::Up => layout.up_neighbour,
        WidgetDirection::Down => layout.down_neighbour,
    }
}

/// The point lies in the widget's rectangle.
pub open spec fn contains_point(layout: WidgetLayout, x: u16, y: u16) -> bool {
    &&& layout.top_left_x <= x < layout.bottom_right_x
    &&& layout.top_left_y <= y < layout.bottom_right_y
}

/// The layout of the first widget with this id.
pub open spec fn layout_of(layouts: Seq<WidgetLayout>, widget_id: u64) -> Option<WidgetLayout>
    decreases layouts.len(),
{
    if layouts.len() == 0 {
        None
    } else if layouts[0].widget_id == widget_id {
        Some(layouts[0])
    } else {
        layout_of(layouts.skip(1), widget_id)
    }
}

/// The layout of the first widget whose rectangle holds the point.
pub open spec fn layout_at(layouts: Seq<WidgetLayout>, x: u16, y: u16) -> Option<WidgetLayout>
    decreases layouts.len(),
{
    if layouts.len() == 0 {
        None
    } else if contains_point(layouts[0], x, y) {
        Some(layouts[0])
    } else {
        layout_at(layouts.skip(1), x, y)
    }
}

/// The widget that has the focus after a move in a direction: the
/// neighbour of the current widget, or the current widget where it has no
/// layout or no neighbour there.
pub open spec fn focus_after_move(
    layouts: Seq<WidgetLayout>,
    current: u64,
    direction: WidgetDirection,
) -> u64 {
    match layout_of(layouts, current) {
        Some(layout) => match neighbour(layout, direction) {
            Some(next) => next,
            None => current,
        },
        None => current,
    }
}

/// The row of the list that a click at row `y` of the screen points at, in
/// a widget whose list is drawn from row `first_shown` on: none for a click
/// on the border or the header.
pub open spec fn clicked_row(layout: WidgetLayout, first_shown: usize, y: u16) -> Option<usize> {
    if y >= layout.top_left_y + TABLE_HEADER_HEIGHT && first_shown + (y - layout.top_left_y
        - TABLE_HEADER_HEIGHT) <= usize::MAX {
        Some((first_shown + (y - layout.top_left_y - TABLE_HEADER_HEIGHT)) as usize)
    } else {
        None
    }
}

/// Finds the layout of the first widget with this id.
pub fn find_layout(layouts: &Vec<WidgetLayout>, widget_id: u64) -> (found: Option<WidgetLayout>)
    ensures
        found == layout_of(layouts@, widget_id),
{
    let mut i: usize = 0;
    proof {
        assert(layouts@.skip(0) =~= layouts@);
    }
    while i < layouts.len()
        invariant
            i <= layouts.len(),
            layout_of(layouts@, widget_id) == layout_of(layouts@.skip(i as int), widget_id),
        decreases layouts.len() - i,
    {
        proof {
            assert(layouts@.skip(i as int).skip(1) =~= layouts@.skip(i as int + 1));
        }
        if layouts[i].widget_id == widget_id {
            return Some(layouts[i]);
        }
        i = i + 1;
    }
    None
}

/// Finds the layout of the first widget whose rectangle holds the point.
pub fn find_layout_at(layouts: &Vec<WidgetLayout>, x: u16, y: u16) -> (found: Option<WidgetLayout>)
    ensures
        found == layout_at(layouts@, x, y),
{
    let mut i: usize = 0;
    proof {
        assert(layouts@.skip(0) =~= layouts@);
    }
    while i < layouts.len()
        invariant
            i <= layouts.len(),
            layout_at(layouts@, x, y) == layout_at(layouts@.skip(i as int), x, y),
        decreases layouts.len() - i,
    {
        proof {
            assert(layouts@.skip(i as int).skip(1) =~= layouts@.skip(i as int + 1));
        }
        let l = layouts[i];
        if l.top_left_x <= x && x < l.bottom_right_x && l.top_left_y <= y && y < l.bottom_right_y {
            return Some(l);
        }
        i = i + 1;
    }
    None
}

/// The widget that gets the focus by a move from `current` in a direction.
pub fn move_focus(layouts: &Vec<WidgetLayout>, current: u64, direction: WidgetDirection) -> (next:
    u64)
    ensures
        next == focus_after_move(layouts@, current, direction),
{
    match find_layout(layouts, current) {
        Some(layout) => {
            let towards = match direction {
                WidgetDirection::Left => layout.left_neighbour,
                WidgetDirection::Right => layout.right_neighbour,
                WidgetDirection::Up => layout.up_neighbour,
                WidgetDirection::Down => layout.down_neighbour,
            };
            match towards {
                Some(next) => next,
                None => current,
            }
        },
        None => current,
    }
}

/// The row of the list that a click at row `y` of the screen points at.
pub fn row_of_click(layout: WidgetLayout, scroll: ScrollState, y: u16) -> (row: Option<usize>)
    ensures
        row == clicked_row(layout, scroll.previous_scroll_position, y),
{
    if y < layout.top_left_y || y - layout.top_left_y < TABLE_HEADER_HEIGHT {
        None
    } else {
        let offset: usize = (y - layout.top_left_y - TABLE_HEADER_HEIGHT) as usize;
        scroll.previous_scroll_position.checked_add(offset)
    }
}

} // verus!
