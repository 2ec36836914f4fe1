use hn_tui::routes::{get_item_route, get_route, u32_decimal, Route};
use hn_tui::stores::view::{init_view_state, Page, ScrollDirection, StoryListType};

fn post_list_fields(page: &Page) -> (u32, u32) {
    match page {
        Page::PostList { offset, cursor_index, .. } => (*offset, *cursor_index),
        Page::PostDetails { .. } => panic!("expected the post list page"),
    }
}

#[test]
fn view_starts_on_the_top_list() {
    let v = init_view_state();
    let (offset, cursor) = post_list_fields(&v.page);
    assert_eq!(offset, 0);
    assert_eq!(cursor, 0);
    assert!(matches!(v.page, Page::PostList { sort: StoryListType::Top, .. }));
    assert_eq!(v.scroll_offset, 0);
}

#[test]
fn scroll_up_clamps_at_the_top() {
    let mut v = init_view_state();
    v.scroll(30, ScrollDirection::Up);
    let (_, cursor) = post_list_fields(&v.page);
    assert_eq!(cursor, 0);
    assert_eq!(v.scroll_offset, 0);
}

#[test]
fn scroll_down_moves_cursor_then_drags_the_offset() {
    let mut v = init_view_state();
    // 7 rows show (7 - 1) / 3 = 2 posts
    let rows: u16 = 7;
    v.scroll(rows, ScrollDirection::Down);
    let (_, cursor) = post_list_fields(&v.page);
    assert_eq!(cursor, 1);
    assert_eq!(v.scroll_offset, 0);
    v.scroll(rows, ScrollDirection::Down);
    v.scroll(rows, ScrollDirection::Down);
    let (_, cursor) = post_list_fields(&v.page);
    // the cursor left the two visible rows, so the offset followed
    assert_eq!(cursor, 3);
    assert_eq!(v.scroll_offset, 1);
    v.scroll(rows, ScrollDirection::Up);
    let (_, cursor) = post_list_fields(&v.page);
    assert_eq!(cursor, 2);
    assert_eq!(v.scroll_offset, 1);
}

#[test]
fn scroll_down_stops_at_the_page_end() {
    let mut v = init_view_state();
    let rows: u16 = 100;
    for _ in 0..30 {
        v.scroll(rows, ScrollDirection::Down);
    }
    let (_, cursor) = post_list_fields(&v.page);
    // the page holds twenty posts, so the cursor stops at index 19
    assert_eq!(cursor, 19);
}

#[test]
fn routes_spell_the_endpoints() {
    assert_eq!(
        get_route(Route::Top),
        "https://hacker-news.firebaseio.com/v0/topstories.json"
    );
    assert_eq!(
        get_route(Route::New),
        "https://hacker-news.firebaseio.com/v0/newstories.json"
    );
    assert_eq!(
        get_route(Route::Best),
        "https://hacker-news.firebaseio.com/v0/beststories.json"
    );
    assert_eq!(
        get_item_route(&8863),
        "https://hacker-news.firebaseio.com/v0/item/8863.json"
    );
}

#[test]
fn decimal_rendering() {
    assert_eq!(u32_decimal(0), "0");
    assert_eq!(u32_decimal(7), "7");
    assert_eq!(u32_decimal(4060), "4060");
    assert_eq!(u32_decimal(u32::MAX), "4294967295");
}
