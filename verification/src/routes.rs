//! The upstream endpoints: one list route per category, and the item
//! route parameterized by id, built as plain strings.

use vstd::prelude::*;
use vstd::string::StringExecFns;
use crate::stores::view::StoryListType;

verus! {

/// The endpoints the client reads.
#[derive(Clone, Copy)]
pub enum Route {
    New,
    Top,
    Best,
    Item,
}

/// The upstream service every route is rooted at.
pub fn base_url() -> (r: String)
    ensures
        r@ == "https://hacker-news.firebaseio.com/v0"@,
{
    "https://hacker-news.firebaseio.com/v0".to_owned()
}

/// The path of one route under the base.
pub open spec fn spec_route_path(route: Route) -> Seq<char> {
    match route {
        Route::New => "/newstories.json"@,
        Route::Top => "/topstories.json"@,
        Route::Best => "/beststories.json"@,
        Route::Item => "/item"@,
    }
}

/// The full URL of one route.
pub fn get_route(route: Route) -> (r: String)
    ensures
        r@ == "https://hacker-news.firebaseio.com/v0"@ + spec_route_path(route),
{
    let path: &str = match route {
        Route::New => "/newstories.json",
        Route::Top => "/topstories.json",
        Route::Best => "/beststories.json",
        Route::Item => "/item",
    };
    base_url().concat(path)
}

/// The list route of a category.
pub fn category_route(story_type: &StoryListType) -> (r: String)
    ensures
        r@ == "https://hacker-news.firebaseio.com/v0"@ + spec_route_path(
            spec_category_route(*story_type),
        ),
{
    match story_type {
        StoryListType::Top => get_route(Route::Top),
        StoryListType::Best => get_route(Route::Best),
        StoryListType::New => get_route(Route::New),
    }
}

/// Which route lists a category.
pub open spec fn spec_category_route(story_type: StoryListType) -> Route {
    match story_type {
        StoryListType::Top => Route::Top,
        StoryListType::Best => Route::Best,
        StoryListType::New => Route::New,
    }
}

/// One decimal digit as text.
pub open spec fn spec_digit(d: int) -> Seq<char> {
    if d == 0 {
        "0"@
    } else if d == 1 {
        "1"@
    } else if d == 2 {
        "2"@
    } else if d == 3 {
        "3"@
    } else if d == 4 {
        "4"@
    } else if d == 5 {
        "5"@
    } else if d == 6 {
        "6"@
    } else if d == 7 {
        "7"@
    } else if d == 8 {
        "8"@
    } else {
        "9"@
    }
}

/// A nonnegative number written in decimal, most significant digit
/// first, no leading zeroes but for the number zero itself.
pub open spec fn spec_decimal(n: int) -> Seq<char>
    decreases n,
{
    if n < 10 {
        spec_digit(n)
    } else {
        spec_decimal(n / 10) + spec_digit(n % 10)
    }
}

/// One digit as a string slice.
fn digit_str(d: u32) -> (r: &'static str)
    requires
        d < 10,
    ensures
        r@ == spec_digit(d as int),
{
    match d {
        0 => "0",
        1 => "1",
        2 => "2",
        3 => "3",
        4 => "4",
        5 => "5",
        6 => "6",
        7 => "7",
        8 => "8",
        _ => "9",
    }
}

/// Render a number in decimal.
pub fn u32_decimal(n: u32) -> (r: String)
    ensures
        r@ == spec_decimal(n as int),
    decreases n,
{
    let d = n % 10;
    let ds = digit_str(d);
    if n < 10 {
        ds.to_owned()
    } else {
        let pre = u32_decimal(n / 10);
        pre.concat(ds)
    }
}

/// The URL of one item record.
pub fn get_item_route(id: &u32) -> (r: String)
    ensures
        r@ == "https://hacker-news.firebaseio.com/v0"@ + "/item"@ + "/"@ + spec_decimal(
            *id as int,
        ) + ".json"@,
{
    let base = get_route(Route::Item);
    let with_id = base.concat("/").concat(u32_decimal(*id).as_str());
    with_id.concat(".json")
}

} // verus!
