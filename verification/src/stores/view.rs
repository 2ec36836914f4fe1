//! View state of the terminal consumer: which page is shown, where the
//! cursor stands, and how far the list is scrolled.

use vstd::prelude::*;
use crate::constants::{PAGE_SIZE, POST_ROW_SIZE};

verus! {

/// The three standing sort orders under which post ids are listed.
#[derive(Clone, Copy)]
pub enum StoryListType {
    New,
    Best,
    Top,
}

/// Which page the consumer is looking at.
#[derive(Clone, Copy)]
pub enum Page {
    PostList { offset: u32, cursor_index: u32, sort: StoryListType },
    PostDetails { post: u32, cursor_index: u32 },
}

/// Scroll position and current page of the consumer.
pub struct ViewState {
    pub page: Page,
    pub scroll_offset: u16,
}

/// What the person at the terminal asked for.
pub enum UserAction {
    Up,
    Down,
    Enter,
    Rerender,
    Quit,
}

/// Direction of one scroll step.
#[derive(Clone, Copy)]
pub enum ScrollDirection {
    Up,
    Down,
}

/// The view opens on the post list for the Top order, unscrolled.
pub fn init_view_state() -> (v: ViewState)
    ensures
        v == (ViewState {
            page: Page::PostList { offset: 0, cursor_index: 0, sort: StoryListType::Top },
            scroll_offset: 0,
        }),
{
    ViewState {
        page: Page::PostList { offset: 0, cursor_index: 0, sort: StoryListType::Top },
        scroll_offset: 0,
    }
}

/// How many whole posts fit above the command row on a screen of `rows` rows.
pub open spec fn spec_visible_posts(rows: u16) -> int {
    (rows - 1) / (POST_ROW_SIZE as int)
}

/// The cursor after one step: clamped at 0 going up and at the last
/// index of a page going down.
pub open spec fn spec_cursor_after(cursor: u32, direction: ScrollDirection) -> int {
    match direction {
        ScrollDirection::Up => if cursor == 0 { 0int } else { cursor - 1 },
        ScrollDirection::Down => if cursor == PAGE_SIZE - 1 { cursor as int } else { cursor + 1 },
    }
}

/// The scroll offset after one step: it follows the cursor when the
/// cursor would leave the visible window, else stays.
pub open spec fn spec_offset_after(
    offset: u16,
    new_cursor: int,
    rows: u16,
    direction: ScrollDirection,
) -> int {
    match direction {
        ScrollDirection::Up => if offset > new_cursor { offset - 1 } else { offset as int },
        ScrollDirection::Down => if new_cursor > offset + spec_visible_posts(rows) {
            offset + 1
        } else {
            offset as int
        },
    }
}

/// What a scroll step may assume of the state and the screen: at least
/// one row, a cursor inside the page, and a window sum that fits in u16.
pub open spec fn scroll_preconditions(v: ViewState, rows: u16) -> bool {
    match v.page {
        Page::PostList { cursor_index, .. } => {
            &&& rows >= 1
            &&& cursor_index < PAGE_SIZE
            &&& v.scroll_offset + spec_visible_posts(rows) <= u16::MAX
        },
        Page::PostDetails { .. } => true,
    }
}

/// The whole view state after one scroll step; a detail page ignores it.
pub open spec fn spec_scrolled(v: ViewState, rows: u16, direction: ScrollDirection) -> ViewState {
    match v.page {
        Page::PostList { offset, cursor_index, sort } => {
            let new_cursor = spec_cursor_after(cursor_index, direction);
            ViewState {
                page: Page::PostList { offset, cursor_index: new_cursor as u32, sort },
                scroll_offset: spec_offset_after(v.scroll_offset, new_cursor, rows, direction)
                    as u16,
            }
        },
        Page::PostDetails { .. } => v,
    }
}

impl ViewState {
    /// Move the cursor one step and drag the scroll offset along when the
    /// cursor would fall outside the rows that fit on the screen.
    pub fn scroll(&mut self, rows: u16, direction: ScrollDirection)
        requires
            scroll_preconditions(*old(self), rows),
        ensures
            *final(self) == spec_scrolled(*old(self), rows, direction),
    {
        match self.page {
            Page::PostList { offset, cursor_index, sort } => {
                let number_of_posts: u16 = (rows - 1) / (POST_ROW_SIZE as u16);
                let new_cursor: u32 = match direction {
                    ScrollDirection::Up => {
                        if cursor_index == 0 {
                            0
                        } else {
                            cursor_index - 1
                        }
                    },
                    ScrollDirection::Down => {
                        if cursor_index == (PAGE_SIZE - 1) as u32 {
                            cursor_index
                        } else {
                            cursor_index + 1
                        }
                    },
                };
                let new_offset: u16 = match direction {
                    ScrollDirection::Up => {
                        if self.scroll_offset as u32 > new_cursor {
                            self.scroll_offset - 1
                        } else {
                            self.scroll_offset
                        }
                    },
                    ScrollDirection::Down => {
                        if new_cursor > (self.scroll_offset + number_of_posts) as u32 {
                            self.scroll_offset + 1
                        } else {
                            self.scroll_offset
                        }
                    },
                };
                self.page = Page::PostList { offset, cursor_index: new_cursor, sort };
                self.scroll_offset = new_offset;
            },
            Page::PostDetails { .. } => {},
        }
    }
}

} // verus!
