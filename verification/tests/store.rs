use hn_tui::stores::data::{init_store, Comment, DataStore, Post};
use hn_tui::stores::view::StoryListType;

fn make_post(id: u32) -> Post {
    Post {
        id,
        by: format!("author-{}", id),
        children: vec![id + 100, id + 101],
        title: format!("title-{}", id),
        time: 1000 + id,
        url: Some(format!("https://example.test/{}", id)),
        text: Some(format!("text-{}", id)),
        descendants: 2,
    }
}

fn make_comment(id: u32) -> Comment {
    Comment {
        id,
        by: format!("author-{}", id),
        children: vec![],
        parent: 7,
        text: format!("text-{}", id),
        time: 1000 + id,
    }
}

#[test]
fn data_store_posts() {
    let mut data_store = DataStore::init();
    let n_posts: u32 = 5;
    let mock_posts: Vec<Post> = (0..n_posts).map(make_post).collect();

    for enum_variant in [StoryListType::Best, StoryListType::Top, StoryListType::New].iter() {
        assert_eq!(data_store.has_post_ids(enum_variant), false);
        assert_eq!(data_store.get_post_ids(enum_variant).len(), 0);
    }

    // hydrate store
    let post_ids_to_hydrate: Vec<u32> = mock_posts.iter().map(|post| post.id).collect();
    data_store.hydrate_post_ids(&StoryListType::Best, post_ids_to_hydrate);
    data_store.hydrate_posts(mock_posts);

    assert_eq!(data_store.has_post_ids(&StoryListType::Best), true);
    assert_eq!(data_store.get_post_ids(&StoryListType::Best).len() as u32, n_posts);

    let post_ids: Vec<u32> = data_store.get_post_ids(&StoryListType::Best).to_vec();
    for post_id in post_ids {
        // Should have a valid post stored
        data_store.get_post(&post_id).unwrap();
    }
}

#[test]
fn data_store_comments() {
    let mut data_store = DataStore::init();
    let comment_ids: Vec<u32> = (0..5).collect();
    let mock_comments: Vec<Comment> = comment_ids.iter().cloned().map(make_comment).collect();
    data_store.hydrate_comments(mock_comments);

    for comment_id in comment_ids {
        // Should have a valid comment stored
        data_store.get_comment(&comment_id).unwrap();
    }
}

#[test]
fn missing_post_and_comments() {
    let mut data_store = DataStore::init();
    let post_ids: Vec<u32> = (0..5).collect();
    let comment_ids: Vec<u32> = (6..10).collect();
    let mock_posts: Vec<Post> = post_ids.iter().cloned().map(make_post).collect();
    let mock_comments: Vec<Comment> = comment_ids.iter().cloned().map(make_comment).collect();
    data_store.hydrate_posts(mock_posts);
    data_store.hydrate_comments(mock_comments);

    let missing_post_ids = data_store.get_missing_post_ids(&(0..6).collect::<Vec<u32>>());
    let missing_comment_ids = data_store.get_missing_comment_ids(&(6..11).collect::<Vec<u32>>());
    println!("{:?}", missing_post_ids);
    assert_eq!(missing_post_ids.len(), 1);
    assert_eq!(missing_comment_ids.len(), 1);
    assert_eq!(missing_post_ids[0], 5);
    assert_eq!(missing_comment_ids[0], 10);
}

#[test]
fn hydrating_twice_leaves_the_same_state() {
    let mut once = init_store();
    let mut twice = init_store();
    let batch: Vec<Post> = (0..4).map(make_post).collect();
    let batch_again: Vec<Post> = (0..4).map(make_post).collect();
    let batch_third: Vec<Post> = (0..4).map(make_post).collect();

    once.hydrate_posts(batch);
    twice.hydrate_posts(batch_again);
    twice.hydrate_posts(batch_third);

    for id in 0..4u32 {
        let a = once.get_post(&id).unwrap();
        let b = twice.get_post(&id).unwrap();
        assert_eq!(a.id, b.id);
        assert_eq!(a.by, b.by);
        assert_eq!(a.children, b.children);
        assert_eq!(a.title, b.title);
        assert_eq!(a.time, b.time);
        assert_eq!(a.url, b.url);
        assert_eq!(a.text, b.text);
        assert_eq!(a.descendants, b.descendants);
    }
    assert!(once.get_missing_post_ids(&[0, 1, 2, 3]).is_empty());
    assert!(twice.get_missing_post_ids(&[0, 1, 2, 3]).is_empty());

    let mut comments_once = init_store();
    comments_once.hydrate_comments(vec![make_comment(9)]);
    comments_once.hydrate_comments(vec![make_comment(9)]);
    let c = comments_once.get_comment(&9).unwrap();
    assert_eq!(c.text, "text-9");
    assert!(comments_once.get_missing_comment_ids(&[9]).is_empty());
}

#[test]
fn category_list_hydration_replaces_wholesale() {
    let mut store = init_store();
    store.hydrate_post_ids(&StoryListType::Top, vec![1, 2, 3]);
    assert_eq!(store.get_post_ids(&StoryListType::Top), &[1, 2, 3]);
    store.hydrate_post_ids(&StoryListType::Top, vec![4, 5]);
    assert_eq!(store.get_post_ids(&StoryListType::Top), &[4, 5]);
    // the other categories are untouched
    assert_eq!(store.get_post_ids(&StoryListType::Best).len(), 0);
    assert_eq!(store.get_post_ids(&StoryListType::New).len(), 0);
}

#[test]
fn hydrating_an_empty_list_still_marks_the_category() {
    let mut store = init_store();
    assert!(!store.has_post_ids(&StoryListType::New));
    store.hydrate_post_ids(&StoryListType::New, vec![]);
    assert!(store.has_post_ids(&StoryListType::New));
    assert_eq!(store.get_post_ids(&StoryListType::New).len(), 0);
    assert!(!store.has_post_ids(&StoryListType::Top));
}

#[test]
fn missing_ids_keep_candidate_order() {
    let mut store = init_store();
    store.hydrate_posts(vec![make_post(2), make_post(5)]);
    let missing = store.get_missing_post_ids(&[9, 2, 8, 5, 1]);
    assert_eq!(missing, vec![9, 8, 1]);
}

fn comment_with_children(id: u32, children: Vec<u32>) -> Comment {
    Comment {
        id,
        by: format!("author-{}", id),
        children,
        parent: 1,
        text: format!("text-{}", id),
        time: 0,
    }
}

#[test]
fn flatten_is_pre_order() {
    let mut store = init_store();
    store.hydrate_posts(vec![Post {
        id: 1,
        by: "op".to_string(),
        children: vec![2, 3],
        title: "t".to_string(),
        time: 0,
        url: None,
        text: None,
        descendants: 6,
    }]);
    store.hydrate_comments(vec![
        comment_with_children(2, vec![4, 5]),
        comment_with_children(3, vec![6, 7]),
    ]);
    // 4, 5, 6 and 7 are not cached: they flatten to bare leaves
    assert_eq!(store.flatten_comments(1), vec![2, 4, 5, 3, 6, 7]);
}

#[test]
fn flatten_of_uncached_post_is_empty() {
    let store = init_store();
    assert_eq!(store.flatten_comments(77), Vec::<u32>::new());
}

#[test]
fn flatten_restarts_from_the_current_cache() {
    let mut store = init_store();
    store.hydrate_posts(vec![Post {
        id: 1,
        by: "op".to_string(),
        children: vec![2],
        title: "t".to_string(),
        time: 0,
        url: None,
        text: None,
        descendants: 1,
    }]);
    assert_eq!(store.flatten_comments(1), vec![2]);
    // caching the child's subtree deepens the next walk
    store.hydrate_comments(vec![comment_with_children(2, vec![8, 9])]);
    assert_eq!(store.flatten_comments(1), vec![2, 8, 9]);
}
