use hn_tui::item::{
    comments_of_items, decode_id_list_bytes, decode_item_bytes, posts_of_items, DecodeError,
    HnComment, HnJob, HnStory, Item,
};

#[test]
fn decode_story_record() {
    let raw = br#"{"by":"alice","descendants":7,"id":42,"kids":[3,1,2],"score":55,"time":123456,"title":"A story","type":"story","url":"https://example.test/x"}"#;
    match decode_item_bytes(raw) {
        Ok(Item::Story(st)) => {
            assert_eq!(st.by, "alice");
            assert_eq!(st.descendants, 7);
            assert_eq!(st.id, 42);
            assert_eq!(st.kids, vec![3, 1, 2]);
            assert_eq!(st.text, None);
            assert_eq!(st.score, 55);
            assert_eq!(st.time, 123456);
            assert_eq!(st.title, "A story");
            assert_eq!(st.url, Some("https://example.test/x".to_string()));
        }
        other => panic!("expected a story, got {:?}", other.is_ok()),
    }
}

#[test]
fn decode_story_without_kids_gets_empty_children() {
    let raw = br#"{"by":"bob","descendants":0,"id":7,"score":1,"time":5,"title":"Ask","text":"question?","type":"story"}"#;
    match decode_item_bytes(raw) {
        Ok(Item::Story(st)) => {
            assert_eq!(st.kids, Vec::<u32>::new());
            assert_eq!(st.text, Some("question?".to_string()));
            assert_eq!(st.url, None);
        }
        other => panic!("expected a story, got {:?}", other.is_ok()),
    }
}

#[test]
fn decode_comment_record() {
    let raw = br#"{"by":"carol","id":9,"kids":[11],"parent":42,"text":"hi","time":99,"type":"comment"}"#;
    match decode_item_bytes(raw) {
        Ok(Item::Comment(c)) => {
            assert_eq!(c.by, "carol");
            assert_eq!(c.id, 9);
            assert_eq!(c.kids, vec![11]);
            assert_eq!(c.parent, 42);
            assert_eq!(c.text, "hi");
            assert_eq!(c.time, 99);
        }
        other => panic!("expected a comment, got {:?}", other.is_ok()),
    }
}

#[test]
fn decode_job_and_poll_records() {
    let raw_job = br#"{"by":"hr","id":3,"score":2,"text":"apply","time":1,"title":"Job","type":"job","url":"https://example.test/j"}"#;
    match decode_item_bytes(raw_job) {
        Ok(Item::Job(j)) => {
            assert_eq!(j.by, "hr");
            assert_eq!(j.url, "https://example.test/j");
        }
        other => panic!("expected a job, got {:?}", other.is_ok()),
    }
    // polls decode successfully whatever else they carry
    assert!(matches!(
        decode_item_bytes(br#"{"type":"poll","whatever":[1,2]}"#),
        Ok(Item::Poll)
    ));
    assert!(matches!(
        decode_item_bytes(br#"{"type":"pollopt"}"#),
        Ok(Item::Pollopt)
    ));
}

#[test]
fn decode_failures_name_their_reason() {
    assert_eq!(decode_item_bytes(b"{\"type\":").unwrap_err(), DecodeError::Syntax);
    assert_eq!(decode_item_bytes(b"[1,2]").unwrap_err(), DecodeError::NotObject);
    assert_eq!(decode_item_bytes(b"{}").unwrap_err(), DecodeError::NoTag);
    assert_eq!(decode_item_bytes(br#"{"type":7}"#).unwrap_err(), DecodeError::NoTag);
    assert_eq!(
        decode_item_bytes(br#"{"type":"blog"}"#).unwrap_err(),
        DecodeError::UnknownTag
    );
    // a story missing its title
    assert_eq!(
        decode_item_bytes(br#"{"by":"a","descendants":0,"id":1,"score":1,"time":1,"type":"story"}"#)
            .unwrap_err(),
        DecodeError::BadSchema
    );
    // a story whose id does not fit in 32 bits
    assert_eq!(
        decode_item_bytes(
            br#"{"by":"a","descendants":0,"id":5000000000,"score":1,"time":1,"title":"t","type":"story"}"#
        )
        .unwrap_err(),
        DecodeError::BadSchema
    );
    // kids with a negative entry
    assert_eq!(
        decode_item_bytes(
            br#"{"by":"a","id":1,"kids":[3,-1],"parent":2,"text":"x","time":1,"type":"comment"}"#
        )
        .unwrap_err(),
        DecodeError::BadSchema
    );
}

#[test]
fn decode_id_list() {
    assert_eq!(decode_id_list_bytes(b"[3,1,2]").unwrap(), vec![3, 1, 2]);
    assert_eq!(decode_id_list_bytes(b"[]").unwrap(), Vec::<u32>::new());
    assert_eq!(decode_id_list_bytes(b"nope").unwrap_err(), DecodeError::Syntax);
    assert_eq!(decode_id_list_bytes(b"{}").unwrap_err(), DecodeError::NotObject);
    assert_eq!(decode_id_list_bytes(b"[1,true]").unwrap_err(), DecodeError::BadSchema);
    assert_eq!(
        decode_id_list_bytes(b"[1,5000000000]").unwrap_err(),
        DecodeError::BadSchema
    );
}

fn story_item(id: u32) -> Item {
    Item::Story(HnStory {
        by: format!("author-{}", id),
        descendants: 1,
        id,
        kids: vec![id + 1],
        text: None,
        score: 10,
        time: 100,
        title: format!("title-{}", id),
        url: None,
    })
}

fn comment_item(id: u32) -> Item {
    Item::Comment(HnComment {
        by: format!("author-{}", id),
        id,
        kids: vec![],
        parent: 1,
        text: "body".to_string(),
        time: 100,
    })
}

fn job_item(id: u32) -> Item {
    Item::Job(HnJob {
        by: "hr".to_string(),
        id,
        score: 1,
        text: "apply".to_string(),
        time: 1,
        title: "Job".to_string(),
        url: "https://example.test/j".to_string(),
    })
}

#[test]
fn projections_keep_only_their_kind() {
    let items = vec![story_item(1), job_item(2), comment_item(3), Item::Poll, story_item(4)];
    let posts = posts_of_items(items);
    let ids: Vec<u32> = posts.iter().map(|p| p.id).collect();
    assert_eq!(ids, vec![1, 4]);
    assert_eq!(posts[0].by, "author-1");
    assert_eq!(posts[0].children, vec![2]);

    let items = vec![story_item(1), comment_item(3), Item::Pollopt, comment_item(5)];
    let comments = comments_of_items(items);
    let ids: Vec<u32> = comments.iter().map(|c| c.id).collect();
    assert_eq!(ids, vec![3, 5]);
    assert_eq!(comments[0].parent, 1);
}
