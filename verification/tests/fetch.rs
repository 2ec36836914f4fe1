use hn_tui::dispatch::Dispatcher;
use hn_tui::item::{posts_of_items, HnStory, Item};
use hn_tui::stores::data::{init_store, paginate};
use hn_tui::stores::view::StoryListType;

fn story_item(id: u32) -> Item {
    Item::Story(HnStory {
        by: format!("author-{}", id),
        descendants: 0,
        id,
        kids: vec![],
        text: None,
        score: 1,
        time: 10,
        title: format!("title-{}", id),
        url: None,
    })
}

#[test]
fn no_more_than_window_fetches_in_flight() {
    let ids: Vec<u32> = (1..=12).collect();
    let mut d: Dispatcher<u32> = Dispatcher::new(ids, 3);
    let mut in_flight: Vec<u32> = Vec::new();
    let mut max_seen: usize = 0;
    let mut step: u32 = 0;
    while !d.is_done() {
        while d.can_launch() {
            let id = d.launch();
            in_flight.push(id);
            assert!(d.in_flight() <= 3);
            max_seen = max_seen.max(d.in_flight());
        }
        // settle one fetch, by turns the oldest or the newest in flight,
        // so completion order differs from request order
        let id = if step % 2 == 0 { in_flight.remove(0) } else { in_flight.pop().unwrap() };
        // fetches of ids divisible by 3 fail
        let outcome = if id % 3 == 0 { None } else { Some(id) };
        d.settle(id, outcome);
        step += 1;
    }
    assert_eq!(max_seen, 3);
    let mut results = d.into_results();
    results.sort();
    let expected: Vec<u32> = (1..=12).filter(|id| id % 3 != 0).collect();
    assert_eq!(results, expected);
}

#[test]
fn fetch_posts_tolerates_one_failure() {
    let mut d: Dispatcher<Item> = Dispatcher::with_default_window(vec![1, 2, 3]);
    let mut launched: Vec<u32> = Vec::new();
    while d.can_launch() {
        launched.push(d.launch());
    }
    assert_eq!(launched, vec![1, 2, 3]);
    for id in launched {
        if id == 2 {
            // id 2's fetch fails: no error is raised, the id is dropped
            d.settle(id, None);
        } else {
            d.settle(id, Some(story_item(id)));
        }
    }
    assert!(d.is_done());
    // the dropped id is surfaced, so a consumer may show a degraded load
    assert_eq!(d.dropped_ids(), &[2]);
    let posts = posts_of_items(d.into_results());
    let ids: Vec<u32> = posts.iter().map(|p| p.id).collect();
    assert_eq!(ids, vec![1, 3]);
}

#[test]
fn end_to_end_page_load() {
    let mut store = init_store();

    // category Top lists thirty ids
    let top_ids: Vec<u32> = (10..40).collect();
    store.hydrate_post_ids(&StoryListType::Top, top_ids);
    assert_eq!(store.get_post_ids(&StoryListType::Top).len(), 30);

    // the client takes the page skip=5, limit=20
    let page = paginate(store.get_post_ids(&StoryListType::Top), 5, 20);
    assert_eq!(page, (15..35).collect::<Vec<u32>>());

    // nothing is cached yet, so every page id is missing
    let missing = store.get_missing_post_ids(&page);
    assert_eq!(missing, page);

    // the dispatcher fetches exactly those twenty ids
    let mut d: Dispatcher<Item> = Dispatcher::with_default_window(missing);
    while !d.is_done() {
        while d.can_launch() {
            let id = d.launch();
            assert!(d.in_flight() <= 5);
            d.settle(id, Some(story_item(id)));
        }
    }
    let posts = posts_of_items(d.into_results());
    assert_eq!(posts.len(), 20);
    store.hydrate_posts(posts);

    // the store holds exactly the twenty fetched posts and the full list
    for id in 10..40u32 {
        if (15..35).contains(&id) {
            let post = store.get_post(&id).unwrap();
            assert_eq!(post.id, id);
            assert_eq!(post.by, format!("author-{}", id));
        } else {
            assert!(store.get_post(&id).is_none());
        }
    }
    assert_eq!(store.get_post_ids(&StoryListType::Top).len(), 30);

    // a repeat view of the same page has nothing left to fetch
    assert!(store.get_missing_post_ids(&page).is_empty());
}
