//! The process-lifetime cache: per-category ordered id lists and the
//! id-keyed maps of posts and comments, with idempotent hydration and
//! the missing-id computation that keeps repeat views from re-fetching.

use vstd::prelude::*;
use std::collections::HashMap;
use crate::stores::view::StoryListType;

verus! {

broadcast use vstd::std_specs::hash::group_hash_axioms;

/// A story projected for display: its comment children are ids that
/// may or may not be cached yet.
pub struct Post {
    pub id: u32,
    pub by: String,
    pub children: Vec<u32>,
    pub title: String,
    pub time: u32,
    pub url: Option<String>,
    pub text: Option<String>,
    pub descendants: u32,
}

/// A comment projected for display; `parent` is a back-reference, and
/// `children` are ids resolved against the store at read time.
pub struct Comment {
    pub id: u32,
    pub by: String,
    pub children: Vec<u32>,
    pub parent: u32,
    pub text: String,
    pub time: u32,
}

/// The map of posts after upserting each entry of `s` in order, keyed
/// by its own id; a later entry with the same id wins.
pub open spec fn hydrated_posts(m: Map<u32, Post>, s: Seq<Post>) -> Map<u32, Post>
    decreases s.len(),
{
    if s.len() == 0 {
        m
    } else {
        hydrated_posts(m, s.drop_last()).insert(s.last().id, s.last())
    }
}

/// The map of comments after upserting each entry of `s` in order.
pub open spec fn hydrated_comments(m: Map<u32, Comment>, s: Seq<Comment>) -> Map<u32, Comment>
    decreases s.len(),
{
    if s.len() == 0 {
        m
    } else {
        hydrated_comments(m, s.drop_last()).insert(s.last().id, s.last())
    }
}

/// Whether some entry of `s` carries the id.
pub open spec fn seq_has_post_id(s: Seq<Post>, id: u32) -> bool
    decreases s.len(),
{
    if s.len() == 0 {
        false
    } else {
        s.last().id == id || seq_has_post_id(s.drop_last(), id)
    }
}

/// The last entry of `s` carrying the id; meaningless when there is none.
pub open spec fn last_post_with_id(s: Seq<Post>, id: u32) -> Post
    decreases s.len(),
{
    if s.len() == 0 {
        arbitrary()
    } else if s.last().id == id {
        s.last()
    } else {
        last_post_with_id(s.drop_last(), id)
    }
}

/// Whether some entry of `s` carries the id.
pub open spec fn seq_has_comment_id(s: Seq<Comment>, id: u32) -> bool
    decreases s.len(),
{
    if s.len() == 0 {
        false
    } else {
        s.last().id == id || seq_has_comment_id(s.drop_last(), id)
    }
}

/// The last entry of `s` carrying the id; meaningless when there is none.
pub open spec fn last_comment_with_id(s: Seq<Comment>, id: u32) -> Comment
    decreases s.len(),
{
    if s.len() == 0 {
        arbitrary()
    } else if s.last().id == id {
        s.last()
    } else {
        last_comment_with_id(s.drop_last(), id)
    }
}

/// The subsequence of `ids` not present in `dom`, in original order.
pub open spec fn missing_ids_from(dom: Set<u32>, ids: Seq<u32>) -> Seq<u32>
    decreases ids.len(),
{
    if ids.len() == 0 {
        Seq::empty()
    } else {
        missing_ids_from(dom, ids.drop_last()) + if dom.contains(ids.last()) {
            Seq::empty()
        } else {
            seq![ids.last()]
        }
    }
}

/// What one hydration does at a single key: the key is present afterwards
/// exactly when it was present before or some entry carries it, and it
/// then holds the last such entry, else its old value.
pub proof fn lemma_hydrated_posts_pointwise(m: Map<u32, Post>, s: Seq<Post>, id: u32)
    ensures
        hydrated_posts(m, s).contains_key(id) <==> (m.contains_key(id) || seq_has_post_id(s, id)),
        hydrated_posts(m, s).contains_key(id) ==> hydrated_posts(m, s)[id] == (
        if seq_has_post_id(s, id) {
            last_post_with_id(s, id)
        } else {
            m[id]
        }),
        seq_has_post_id(s, id) ==> last_post_with_id(s, id).id == id,
    decreases s.len(),
{
    if s.len() > 0 {
        lemma_hydrated_posts_pointwise(m, s.drop_last(), id);
    }
}

/// The comment-map analogue of `lemma_hydrated_posts_pointwise`.
pub proof fn lemma_hydrated_comments_pointwise(m: Map<u32, Comment>, s: Seq<Comment>, id: u32)
    ensures
        hydrated_comments(m, s).contains_key(id) <==> (m.contains_key(id) || seq_has_comment_id(
            s,
            id,
        )),
        hydrated_comments(m, s).contains_key(id) ==> hydrated_comments(m, s)[id] == (
        if seq_has_comment_id(s, id) {
            last_comment_with_id(s, id)
        } else {
            m[id]
        }),
        seq_has_comment_id(s, id) ==> last_comment_with_id(s, id).id == id,
    decreases s.len(),
{
    if s.len() > 0 {
        lemma_hydrated_comments_pointwise(m, s.drop_last(), id);
    }
}

/// Law: post hydration is idempotent — upserting the same entries twice
/// leaves the map exactly as upserting them once.
pub proof fn lemma_hydrate_posts_idempotent(m: Map<u32, Post>, s: Seq<Post>)
    ensures
        hydrated_posts(hydrated_posts(m, s), s) == hydrated_posts(m, s),
{
    let h1 = hydrated_posts(m, s);
    let h2 = hydrated_posts(h1, s);
    assert forall|id: u32|
        #![trigger h2.contains_key(id)]
        #![trigger h2[id]]
        (h2.contains_key(id) <==> h1.contains_key(id)) && (h1.contains_key(id) ==> h2[id]
            == h1[id]) by {
        lemma_hydrated_posts_pointwise(m, s, id);
        lemma_hydrated_posts_pointwise(h1, s, id);
    }
    assert(h2 =~= h1);
}

/// Law: comment hydration is idempotent, as `lemma_hydrate_posts_idempotent`.
pub proof fn lemma_hydrate_comments_idempotent(m: Map<u32, Comment>, s: Seq<Comment>)
    ensures
        hydrated_comments(hydrated_comments(m, s), s) == hydrated_comments(m, s),
{
    let h1 = hydrated_comments(m, s);
    let h2 = hydrated_comments(h1, s);
    assert forall|id: u32|
        #![trigger h2.contains_key(id)]
        #![trigger h2[id]]
        (h2.contains_key(id) <==> h1.contains_key(id)) && (h1.contains_key(id) ==> h2[id]
            == h1[id]) by {
        lemma_hydrated_comments_pointwise(m, s, id);
        lemma_hydrated_comments_pointwise(h1, s, id);
    }
    assert(h2 =~= h1);
}

/// Whether no two entries share an id; upstream ids are globally unique.
pub open spec fn distinct_post_ids(s: Seq<Post>) -> bool {
    forall|i: int, j: int|
        #![trigger s[i], s[j]]
        0 <= i < s.len() && 0 <= j < s.len() && i != j ==> s[i].id != s[j].id
}

/// Whether no two entries share an id.
pub open spec fn distinct_comment_ids(s: Seq<Comment>) -> bool {
    forall|i: int, j: int|
        #![trigger s[i], s[j]]
        0 <= i < s.len() && 0 <= j < s.len() && i != j ==> s[i].id != s[j].id
}

/// Some position of `s` carries the id; here is one.
proof fn index_of_post_id(s: Seq<Post>, id: u32) -> (j: int)
    requires
        seq_has_post_id(s, id),
    ensures
        0 <= j < s.len(),
        s[j].id == id,
    decreases s.len(),
{
    if s.last().id == id {
        s.len() - 1
    } else {
        index_of_post_id(s.drop_last(), id)
    }
}

/// Some position of `s` carries the id; here is one.
proof fn index_of_comment_id(s: Seq<Comment>, id: u32) -> (j: int)
    requires
        seq_has_comment_id(s, id),
    ensures
        0 <= j < s.len(),
        s[j].id == id,
    decreases s.len(),
{
    if s.last().id == id {
        s.len() - 1
    } else {
        index_of_comment_id(s.drop_last(), id)
    }
}

/// With no shared ids, the entry at any position carrying the id is
/// the one the hydration keeps.
proof fn lemma_post_with_id_unique(s: Seq<Post>, id: u32, j: int)
    requires
        distinct_post_ids(s),
        0 <= j < s.len(),
        s[j].id == id,
    ensures
        seq_has_post_id(s, id),
        last_post_with_id(s, id) == s[j],
    decreases s.len(),
{
    if s.last().id == id {
        assert(j == s.len() - 1);
    } else {
        lemma_post_with_id_unique(s.drop_last(), id, j);
    }
}

/// With no shared ids, the entry at any position carrying the id is
/// the one the hydration keeps.
proof fn lemma_comment_with_id_unique(s: Seq<Comment>, id: u32, j: int)
    requires
        distinct_comment_ids(s),
        0 <= j < s.len(),
        s[j].id == id,
    ensures
        seq_has_comment_id(s, id),
        last_comment_with_id(s, id) == s[j],
    decreases s.len(),
{
    if s.last().id == id {
        assert(j == s.len() - 1);
    } else {
        lemma_comment_with_id_unique(s.drop_last(), id, j);
    }
}

/// Law: with ids unique within the batch, the order of the entries has
/// no effect on the hydrated map: any rearrangement hydrates alike.
pub proof fn lemma_hydrate_posts_order_irrelevant(m: Map<u32, Post>, s1: Seq<Post>, s2: Seq<Post>)
    requires
        s1.to_multiset() == s2.to_multiset(),
        distinct_post_ids(s1),
        distinct_post_ids(s2),
    ensures
        hydrated_posts(m, s1) == hydrated_posts(m, s2),
{
    broadcast use vstd::seq_lib::group_to_multiset_ensures;

    let h1 = hydrated_posts(m, s1);
    let h2 = hydrated_posts(m, s2);
    assert forall|id: u32|
        #![trigger h1.contains_key(id)]
        #![trigger h1[id]]
        (h1.contains_key(id) <==> h2.contains_key(id)) && (h1.contains_key(id) ==> h1[id]
            == h2[id]) by {
        lemma_hydrated_posts_pointwise(m, s1, id);
        lemma_hydrated_posts_pointwise(m, s2, id);
        if seq_has_post_id(s1, id) {
            let j = index_of_post_id(s1, id);
            let x = s1[j];
            assert(s1.to_multiset().count(x) > 0);
            assert(s2.contains(x));
            let k = choose|k: int| 0 <= k < s2.len() && s2[k] == x;
            lemma_post_with_id_unique(s1, id, j);
            lemma_post_with_id_unique(s2, id, k);
        }
        if seq_has_post_id(s2, id) {
            let j = index_of_post_id(s2, id);
            let x = s2[j];
            assert(s2.to_multiset().count(x) > 0);
            assert(s1.contains(x));
            let k = choose|k: int| 0 <= k < s1.len() && s1[k] == x;
            lemma_post_with_id_unique(s2, id, j);
            lemma_post_with_id_unique(s1, id, k);
        }
    }
    assert(h1 =~= h2);
}

/// Law: the comment analogue of `lemma_hydrate_posts_order_irrelevant`.
pub proof fn lemma_hydrate_comments_order_irrelevant(
    m: Map<u32, Comment>,
    s1: Seq<Comment>,
    s2: Seq<Comment>,
)
    requires
        s1.to_multiset() == s2.to_multiset(),
        distinct_comment_ids(s1),
        distinct_comment_ids(s2),
    ensures
        hydrated_comments(m, s1) == hydrated_comments(m, s2),
{
    broadcast use vstd::seq_lib::group_to_multiset_ensures;

    let h1 = hydrated_comments(m, s1);
    let h2 = hydrated_comments(m, s2);
    assert forall|id: u32|
        #![trigger h1.contains_key(id)]
        #![trigger h1[id]]
        (h1.contains_key(id) <==> h2.contains_key(id)) && (h1.contains_key(id) ==> h1[id]
            == h2[id]) by {
        lemma_hydrated_comments_pointwise(m, s1, id);
        lemma_hydrated_comments_pointwise(m, s2, id);
        if seq_has_comment_id(s1, id) {
            let j = index_of_comment_id(s1, id);
            let x = s1[j];
            assert(s1.to_multiset().count(x) > 0);
            assert(s2.contains(x));
            let k = choose|k: int| 0 <= k < s2.len() && s2[k] == x;
            lemma_comment_with_id_unique(s1, id, j);
            lemma_comment_with_id_unique(s2, id, k);
        }
        if seq_has_comment_id(s2, id) {
            let j = index_of_comment_id(s2, id);
            let x = s2[j];
            assert(s2.to_multiset().count(x) > 0);
            assert(s1.contains(x));
            let k = choose|k: int| 0 <= k < s1.len() && s1[k] == x;
            lemma_comment_with_id_unique(s2, id, j);
            lemma_comment_with_id_unique(s1, id, k);
        }
    }
    assert(h1 =~= h2);
}

/// Law: after hydrating posts that cover every candidate id that was
/// missing, a repeat missing-id computation over the same candidates
/// comes back empty.
pub proof fn lemma_missing_post_ids_after_hydration(
    m: Map<u32, Post>,
    candidates: Seq<u32>,
    s: Seq<Post>,
)
    requires
        forall|i: int|
            0 <= i < candidates.len() && !m.contains_key(#[trigger] candidates[i])
                ==> seq_has_post_id(s, candidates[i]),
    ensures
        missing_ids_from(hydrated_posts(m, s).dom(), candidates) == Seq::<u32>::empty(),
    decreases candidates.len(),
{
    let d = hydrated_posts(m, s).dom();
    if candidates.len() == 0 {
        assert(missing_ids_from(d, candidates) =~= Seq::<u32>::empty());
    } else {
        let t = candidates.drop_last();
        assert(forall|i: int| 0 <= i < t.len() ==> t[i] == candidates[i]);
        lemma_missing_post_ids_after_hydration(m, t, s);
        let x = candidates.last();
        assert(x == candidates[candidates.len() - 1]);
        lemma_hydrated_posts_pointwise(m, s, x);
        assert(d.contains(x));
        assert(missing_ids_from(d, candidates) =~= Seq::<u32>::empty());
    }
}

/// Law: the comment analogue of `lemma_missing_post_ids_after_hydration`.
pub proof fn lemma_missing_comment_ids_after_hydration(
    m: Map<u32, Comment>,
    candidates: Seq<u32>,
    s: Seq<Comment>,
)
    requires
        forall|i: int|
            0 <= i < candidates.len() && !m.contains_key(#[trigger] candidates[i])
                ==> seq_has_comment_id(s, candidates[i]),
    ensures
        missing_ids_from(hydrated_comments(m, s).dom(), candidates) == Seq::<u32>::empty(),
    decreases candidates.len(),
{
    let d = hydrated_comments(m, s).dom();
    if candidates.len() == 0 {
        assert(missing_ids_from(d, candidates) =~= Seq::<u32>::empty());
    } else {
        let t = candidates.drop_last();
        assert(forall|i: int| 0 <= i < t.len() ==> t[i] == candidates[i]);
        lemma_missing_comment_ids_after_hydration(m, t, s);
        let x = candidates.last();
        assert(x == candidates[candidates.len() - 1]);
        lemma_hydrated_comments_pointwise(m, s, x);
        assert(d.contains(x));
        assert(missing_ids_from(d, candidates) =~= Seq::<u32>::empty());
    }
}

/// The store: three category id lists, each with a flag saying whether
/// it was ever hydrated, and the two entity caches.
pub struct DataStore {
    top_post_ids: Vec<u32>,
    best_post_ids: Vec<u32>,
    new_post_ids: Vec<u32>,
    top_fetched: bool,
    best_fetched: bool,
    new_fetched: bool,
    posts: HashMap<u32, Post>,
    comments: HashMap<u32, Comment>,
}

impl DataStore {
    /// The cached id list of one category.
    pub closed spec fn spec_post_ids(self, story_type: StoryListType) -> Seq<u32> {
        match story_type {
            StoryListType::Top => self.top_post_ids@,
            StoryListType::Best => self.best_post_ids@,
            StoryListType::New => self.new_post_ids@,
        }
    }

    /// Whether the category's id list has been hydrated at least once.
    pub closed spec fn spec_has_post_ids(self, story_type: StoryListType) -> bool {
        match story_type {
            StoryListType::Top => self.top_fetched,
            StoryListType::Best => self.best_fetched,
            StoryListType::New => self.new_fetched,
        }
    }

    /// The cached post map.
    pub closed spec fn spec_posts(self) -> Map<u32, Post> {
        self.posts@
    }

    /// The cached comment map.
    pub closed spec fn spec_comments(self) -> Map<u32, Comment> {
        self.comments@
    }

    /// Every key of either cache equals the id of the entity it holds.
    pub open spec fn wf(self) -> bool {
        &&& forall|id: u32|
            self.spec_posts().contains_key(id) ==> (#[trigger] self.spec_posts()[id]).id == id
        &&& forall|id: u32|
            self.spec_comments().contains_key(id) ==> (#[trigger] self.spec_comments()[id]).id
                == id
    }

    /// A store starts with nothing cached.
    pub fn init() -> (store: DataStore)
        ensures
            store.spec_posts() == Map::<u32, Post>::empty(),
            store.spec_comments() == Map::<u32, Comment>::empty(),
            forall|t: StoryListType| #[trigger] store.spec_post_ids(t) == Seq::<u32>::empty(),
            forall|t: StoryListType| !(#[trigger] store.spec_has_post_ids(t)),
            store.wf(),
    {
        let store = DataStore {
            top_post_ids: Vec::new(),
            best_post_ids: Vec::new(),
            new_post_ids: Vec::new(),
            top_fetched: false,
            best_fetched: false,
            new_fetched: false,
            posts: HashMap::new(),
            comments: HashMap::new(),
        };
        proof {
            assert(store.top_post_ids@ =~= Seq::<u32>::empty());
            assert(store.best_post_ids@ =~= Seq::<u32>::empty());
            assert(store.new_post_ids@ =~= Seq::<u32>::empty());
        }
        store
    }

    /// Whether the category's id list has been hydrated at least once.
    pub fn has_post_ids(&self, story_type: &StoryListType) -> (r: bool)
        ensures
            r == self.spec_has_post_ids(*story_type),
    {
        match story_type {
            StoryListType::Top => self.top_fetched,
            StoryListType::Best => self.best_fetched,
            StoryListType::New => self.new_fetched,
        }
    }

    /// The cached id list of one category; empty if never hydrated.
    pub fn get_post_ids(&self, story_type: &StoryListType) -> (r: &[u32])
        ensures
            r@ == self.spec_post_ids(*story_type),
    {
        match story_type {
            StoryListType::Top => self.top_post_ids.as_slice(),
            StoryListType::Best => self.best_post_ids.as_slice(),
            StoryListType::New => self.new_post_ids.as_slice(),
        }
    }

    /// Replace one category's id list wholesale; the other categories
    /// and both entity caches are untouched.
    pub fn hydrate_post_ids(&mut self, story_type: &StoryListType, post_ids: Vec<u32>)
        ensures
            final(self).spec_post_ids(*story_type) == post_ids@,
            final(self).spec_has_post_ids(*story_type),
            forall|t: StoryListType|
                t != *story_type ==> #[trigger] final(self).spec_post_ids(t) == old(
                    self,
                ).spec_post_ids(t),
            forall|t: StoryListType|
                t != *story_type ==> #[trigger] final(self).spec_has_post_ids(t) == old(
                    self,
                ).spec_has_post_ids(t),
            final(self).spec_posts() == old(self).spec_posts(),
            final(self).spec_comments() == old(self).spec_comments(),
            old(self).wf() ==> final(self).wf(),
    {
        match story_type {
            StoryListType::Top => {
                self.top_post_ids = post_ids;
                self.top_fetched = true;
            },
            StoryListType::Best => {
                self.best_post_ids = post_ids;
                self.best_fetched = true;
            },
            StoryListType::New => {
                self.new_post_ids = post_ids;
                self.new_fetched = true;
            },
        }
    }

    /// Pure lookup of a cached post.
    pub fn get_post(&self, post_id: &u32) -> (r: Option<&Post>)
        ensures
            match r {
                Some(p) => self.spec_posts().contains_key(*post_id) && *p
                    == self.spec_posts()[*post_id],
                None => !self.spec_posts().contains_key(*post_id),
            },
    {
        self.posts.get(post_id)
    }

    /// Upsert each post by its id; order only matters between entries
    /// that share an id, where the later one wins.
    #[verifier::spinoff_prover]
    pub fn hydrate_posts(&mut self, posts: Vec<Post>)
        ensures
            final(self).spec_posts() == hydrated_posts(old(self).spec_posts(), posts@),
            final(self).spec_comments() == old(self).spec_comments(),
            forall|t: StoryListType| #[trigger]
                final(self).spec_post_ids(t) == old(self).spec_post_ids(t),
            forall|t: StoryListType| #[trigger]
                final(self).spec_has_post_ids(t) == old(self).spec_has_post_ids(t),
            old(self).wf() ==> final(self).wf(),
    {
        let ghost all = posts@;
        let ghost m0 = self.posts@;
        let mut posts = posts;
        let ghost done: int = 0;
        while posts.len() > 0
            invariant
                0 <= done <= all.len(),
                posts@ == all.skip(done),
                self.posts@ == hydrated_posts(m0, all.take(done)),
                self.comments == old(self).comments,
                self.top_post_ids == old(self).top_post_ids,
                self.best_post_ids == old(self).best_post_ids,
                self.new_post_ids == old(self).new_post_ids,
                self.top_fetched == old(self).top_fetched,
                self.best_fetched == old(self).best_fetched,
                self.new_fetched == old(self).new_fetched,
                m0 == old(self).posts@,
            decreases posts.len(),
        {
            let post = posts.remove(0);
            assert(post == all[done]);
            self.posts.insert(post.id, post);
            proof {
                assert(all.take(done + 1).drop_last() =~= all.take(done));
                assert(all.take(done + 1).last() == all[done]);
                done = done + 1;
                assert(posts@ =~= all.skip(done));
            }
        }
        proof {
            assert(all.take(done) =~= all);
            if old(self).wf() {
                assert forall|id: u32| self.spec_posts().contains_key(id) implies (
                #[trigger] self.spec_posts()[id]).id == id by {
                    lemma_hydrated_posts_pointwise(m0, all, id);
                    assert(self.spec_posts() == hydrated_posts(m0, all));
                    if !seq_has_post_id(all, id) {
                        assert(old(self).spec_posts().contains_key(id));
                        assert((old(self).spec_posts()[id]).id == id);
                        assert(self.spec_posts()[id] == m0[id]);
                    }
                }
            }
        }
    }

    /// Pure lookup of a cached comment.
    pub fn get_comment(&self, comment_id: &u32) -> (r: Option<&Comment>)
        ensures
            match r {
                Some(c) => self.spec_comments().contains_key(*comment_id) && *c
                    == self.spec_comments()[*comment_id],
                None => !self.spec_comments().contains_key(*comment_id),
            },
    {
        self.comments.get(comment_id)
    }

    /// Upsert each comment by its id, as `hydrate_posts` does for posts.
    #[verifier::spinoff_prover]
    pub fn hydrate_comments(&mut self, comments: Vec<Comment>)
        ensures
            final(self).spec_comments() == hydrated_comments(
                old(self).spec_comments(),
                comments@,
            ),
            final(self).spec_posts() == old(self).spec_posts(),
            forall|t: StoryListType| #[trigger]
                final(self).spec_post_ids(t) == old(self).spec_post_ids(t),
            forall|t: StoryListType| #[trigger]
                final(self).spec_has_post_ids(t) == old(self).spec_has_post_ids(t),
            old(self).wf() ==> final(self).wf(),
    {
        let ghost all = comments@;
        let ghost m0 = self.comments@;
        let mut comments = comments;
        let ghost done: int = 0;
        while comments.len() > 0
            invariant
                0 <= done <= all.len(),
                comments@ == all.skip(done),
                self.comments@ == hydrated_comments(m0, all.take(done)),
                self.posts == old(self).posts,
                self.top_post_ids == old(self).top_post_ids,
                self.best_post_ids == old(self).best_post_ids,
                self.new_post_ids == old(self).new_post_ids,
                self.top_fetched == old(self).top_fetched,
                self.best_fetched == old(self).best_fetched,
                self.new_fetched == old(self).new_fetched,
                m0 == old(self).comments@,
            decreases comments.len(),
        {
            let comment = comments.remove(0);
            assert(comment == all[done]);
            self.comments.insert(comment.id, comment);
            proof {
                assert(all.take(done + 1).drop_last() =~= all.take(done));
                assert(all.take(done + 1).last() == all[done]);
                done = done + 1;
                assert(comments@ =~= all.skip(done));
            }
        }
        proof {
            assert(all.take(done) =~= all);
            if old(self).wf() {
                assert forall|id: u32| self.spec_comments().contains_key(id) implies (
                #[trigger] self.spec_comments()[id]).id == id by {
                    lemma_hydrated_comments_pointwise(m0, all, id);
                    assert(self.spec_comments() == hydrated_comments(m0, all));
                    if !seq_has_comment_id(all, id) {
                        assert(old(self).spec_comments().contains_key(id));
                        assert((old(self).spec_comments()[id]).id == id);
                        assert(self.spec_comments()[id] == m0[id]);
                    }
                }
            }
        }
    }

    /// The candidate ids whose posts are not yet cached, in input order.
    pub fn get_missing_post_ids(&self, post_ids: &[u32]) -> (r: Vec<u32>)
        ensures
            r@ == missing_ids_from(self.spec_posts().dom(), post_ids@),
    {
        let mut out: Vec<u32> = Vec::new();
        let mut i: usize = 0;
        while i < post_ids.len()
            invariant
                0 <= i <= post_ids@.len(),
                out@ == missing_ids_from(self.posts@.dom(), post_ids@.take(i as int)),
            decreases post_ids@.len() - i,
        {
            let id = post_ids[i];
            if !self.posts.contains_key(&id) {
                out.push(id);
            }
            proof {
                assert(post_ids@.take(i + 1).drop_last() =~= post_ids@.take(i as int));
                assert(post_ids@.take(i + 1).last() == post_ids@[i as int]);
            }
            i = i + 1;
        }
        proof {
            assert(post_ids@.take(post_ids@.len() as int) =~= post_ids@);
        }
        out
    }

    /// The candidate ids whose comments are not yet cached, in input order.
    pub fn get_missing_comment_ids(&self, comment_ids: &[u32]) -> (r: Vec<u32>)
        ensures
            r@ == missing_ids_from(self.spec_comments().dom(), comment_ids@),
    {
        let mut out: Vec<u32> = Vec::new();
        let mut i: usize = 0;
        while i < comment_ids.len()
            invariant
                0 <= i <= comment_ids@.len(),
                out@ == missing_ids_from(self.comments@.dom(), comment_ids@.take(i as int)),
            decreases comment_ids@.len() - i,
        {
            let id = comment_ids[i];
            if !self.comments.contains_key(&id) {
                out.push(id);
            }
            proof {
                assert(comment_ids@.take(i + 1).drop_last() =~= comment_ids@.take(i as int));
                assert(comment_ids@.take(i + 1).last() == comment_ids@[i as int]);
            }
            i = i + 1;
        }
        proof {
            assert(comment_ids@.take(comment_ids@.len() as int) =~= comment_ids@);
        }
        out
    }
}


/// Children of each cached comment, keyed by comment id.
pub open spec fn comment_children(m: Map<u32, Comment>) -> Map<u32, Seq<u32>> {
    Map::new(|id: u32| m.contains_key(id), |id: u32| m[id].children@)
}

/// Pre-order flattening of a cached comment forest: each root id is
/// emitted, and where that id is cached and not already on the current
/// path its children are expanded right behind it, before the next
/// sibling. An id already on the path is treated as a childless leaf,
/// which on tree-shaped data never happens.
pub open spec fn flatten_from(cm: Map<u32, Seq<u32>>, vis: Set<u32>, roots: Seq<u32>) -> Seq<u32>
    decreases cm.dom().difference(vis).len(), roots.len(),
        when cm.dom().finite()
        via flatten_from_decreases
{
    if roots.len() == 0 {
        Seq::empty()
    } else {
        let id = roots.first();
        let head = if cm.contains_key(id) && !vis.contains(id) {
            seq![id] + flatten_from(cm, vis.insert(id), cm[id])
        } else {
            seq![id]
        };
        head + flatten_from(cm, vis, roots.drop_first())
    }
}

#[via_fn]
proof fn flatten_from_decreases(cm: Map<u32, Seq<u32>>, vis: Set<u32>, roots: Seq<u32>) {
    if roots.len() > 0 {
        let id = roots.first();
        if cm.contains_key(id) && !vis.contains(id) {
            assert(cm.dom().contains(id));
            cm.dom().lemma_set_insert_diff_decreases(vis, id);
        }
    }
}

/// Flattening a single id unfolds to the id followed by its expanded
/// children when it is cached and off the path, else to the id alone.
pub proof fn lemma_flatten_from_singleton(cm: Map<u32, Seq<u32>>, vis: Set<u32>, id: u32)
    requires
        cm.dom().finite(),
    ensures
        flatten_from(cm, vis, seq![id]) == (if cm.contains_key(id) && !vis.contains(id) {
            seq![id] + flatten_from(cm, vis.insert(id), cm[id])
        } else {
            seq![id]
        }),
{
    let s = seq![id];
    assert(s.first() == id);
    assert(s.drop_first() =~= Seq::<u32>::empty());
    assert(flatten_from(cm, vis, s.drop_first()) =~= Seq::<u32>::empty());
    if cm.contains_key(id) && !vis.contains(id) {
        assert((seq![id] + flatten_from(cm, vis.insert(id), cm[id])) + Seq::<u32>::empty() =~= seq![
            id,
        ] + flatten_from(cm, vis.insert(id), cm[id]));
    } else {
        assert(seq![id] + Seq::<u32>::empty() =~= seq![id]);
    }
}

/// Flattening distributes over concatenation of root lists.
pub proof fn lemma_flatten_from_concat(
    cm: Map<u32, Seq<u32>>,
    vis: Set<u32>,
    a: Seq<u32>,
    b: Seq<u32>,
)
    requires
        cm.dom().finite(),
    ensures
        flatten_from(cm, vis, a + b) == flatten_from(cm, vis, a) + flatten_from(cm, vis, b),
    decreases a.len(),
{
    if a.len() == 0 {
        assert(a + b =~= b);
        assert(flatten_from(cm, vis, a) =~= Seq::<u32>::empty());
        assert(flatten_from(cm, vis, a) + flatten_from(cm, vis, b) =~= flatten_from(cm, vis, b));
    } else {
        let ab = a + b;
        assert(ab.len() > 0);
        assert(ab.first() == a.first());
        assert(ab.drop_first() =~= a.drop_first() + b);
        lemma_flatten_from_concat(cm, vis, a.drop_first(), b);
        let id = a.first();
        let head = if cm.contains_key(id) && !vis.contains(id) {
            seq![id] + flatten_from(cm, vis.insert(id), cm[id])
        } else {
            seq![id]
        };
        assert(head + (flatten_from(cm, vis, a.drop_first()) + flatten_from(cm, vis, b)) =~= (head
            + flatten_from(cm, vis, a.drop_first())) + flatten_from(cm, vis, b));
    }
}

/// Pushing onto a sequence inserts into the set of its elements.
proof fn lemma_push_to_set(s: Seq<u32>, x: u32)
    ensures
        (s.push(x)).to_set() == s.to_set().insert(x),
{
    assert forall|y: u32| #[trigger]
        (s.push(x)).to_set().contains(y) implies s.to_set().insert(x).contains(y) by {
        let i = choose|i: int| 0 <= i < s.push(x).len() && s.push(x)[i] == y;
        if i < s.len() {
            assert(s[i] == y);
        }
    }
    assert forall|y: u32| #[trigger]
        s.to_set().insert(x).contains(y) implies (s.push(x)).to_set().contains(y) by {
        if s.contains(y) {
            let i = choose|i: int| 0 <= i < s.len() && s[i] == y;
            assert(s.push(x)[i] == y);
        } else {
            assert(s.push(x)[s.len() as int] == x);
        }
    }
    assert((s.push(x)).to_set() =~= s.to_set().insert(x));
}

/// Whether the vector holds the id.
fn ids_contain(v: &Vec<u32>, id: u32) -> (r: bool)
    ensures
        r == v@.contains(id),
{
    let mut i: usize = 0;
    while i < v.len()
        invariant
            0 <= i <= v@.len(),
            forall|j: int| 0 <= j < i ==> v@[j] != id,
        decreases v@.len() - i,
    {
        if v[i] == id {
            return true;
        }
        i = i + 1;
    }
    false
}

impl DataStore {
    /// The pre-order flattening of the cached comment forest under the
    /// post's children; an uncached post flattens to nothing.
    pub open spec fn spec_flattened_comments(self, post_id: u32) -> Seq<u32> {
        if self.spec_posts().contains_key(post_id) {
            flatten_from(
                comment_children(self.spec_comments()),
                Set::empty(),
                self.spec_posts()[post_id].children@,
            )
        } else {
            Seq::empty()
        }
    }

    /// Walk the cached comment tree under a post depth-first, emitting
    /// each comment id before its descendants, siblings in stored order;
    /// children not yet cached appear as bare ids. A fresh walk of the
    /// current cache state, no stored cursor.
    pub fn flatten_comments(&self, post_id: u32) -> (r: Vec<u32>)
        ensures
            r@ == self.spec_flattened_comments(post_id),
    {
        let ghost cm = comment_children(self.spec_comments());
        proof {
            assert(self.comments@.dom().finite());
            assert(cm.dom() =~= self.comments@.dom());
        }
        let mut out: Vec<u32> = Vec::new();
        let mut path: Vec<u32> = Vec::new();
        proof {
            assert(path@.to_set() =~= Set::<u32>::empty());
        }
        match self.posts.get(&post_id) {
            None => {},
            Some(post) => {
                let n = post.children.len();
                let mut j: usize = 0;
                while j < n
                    invariant
                        0 <= j <= n,
                        n == post.children@.len(),
                        self.spec_posts().contains_key(post_id),
                        post == self.spec_posts()[post_id],
                        cm == comment_children(self.spec_comments()),
                        cm.dom().finite(),
                        path@ == Seq::<u32>::empty(),
                        out@ == flatten_from(cm, Set::empty(), post.children@.take(j as int)),
                    decreases n - j,
                {
                    let child = post.children[j];
                    proof {
                        assert(path@.to_set() =~= Set::<u32>::empty());
                    }
                    self.flatten_node(child, &mut path, &mut out, Ghost(Set::empty()));
                    proof {
                        assert(post.children@.take(j + 1) =~= post.children@.take(j as int)
                            + seq![child]);
                        lemma_flatten_from_concat(
                            cm,
                            Set::empty(),
                            post.children@.take(j as int),
                            seq![child],
                        );
                    }
                    j = j + 1;
                }
                proof {
                    assert(post.children@.take(n as int) =~= post.children@);
                }
            },
        }
        out
    }

    /// Emit `id`, and when it names a cached comment that is not already
    /// on the walk's path, expand its children behind it.
    fn flatten_node(&self, id: u32, path: &mut Vec<u32>, out: &mut Vec<u32>, Ghost(vis): Ghost<
        Set<u32>,
    >)
        requires
            vis == old(path)@.to_set(),
        ensures
            final(path)@ == old(path)@,
            final(out)@ == old(out)@ + flatten_from(
                comment_children(self.spec_comments()),
                vis,
                seq![id],
            ),
        decreases comment_children(self.spec_comments()).dom().difference(vis).len(),
    {
        let ghost cm = comment_children(self.spec_comments());
        let ghost path0 = path@;
        let ghost out0 = out@;
        proof {
            assert(self.comments@.dom().finite());
            assert(cm.dom() =~= self.comments@.dom());
        }
        out.push(id);
        let comment = match self.comments.get(&id) {
            Some(c) => c,
            None => {
                proof {
                    lemma_flatten_from_singleton(cm, vis, id);
                    assert(out@ =~= out0 + seq![id]);
                }
                return ;
            },
        };
        if ids_contain(path, id) {
            proof {
                lemma_flatten_from_singleton(cm, vis, id);
                assert(vis.contains(id));
                assert(out@ =~= out0 + seq![id]);
            }
            return ;
        }
        proof {
            assert(cm.contains_key(id));
            assert(cm[id] == comment.children@);
            assert(!vis.contains(id));
        }
        path.push(id);
        let ghost vis2 = vis.insert(id);
        proof {
            lemma_push_to_set(path0, id);
        }
        let n = comment.children.len();
        let mut j: usize = 0;
        while j < n
            invariant
                0 <= j <= n,
                n == comment.children@.len(),
                cm == comment_children(self.spec_comments()),
                cm.dom().finite(),
                cm.contains_key(id),
                cm[id] == comment.children@,
                !vis.contains(id),
                vis2 == vis.insert(id),
                path@ == path0.push(id),
                path@.to_set() == vis2,
                out@ == out0 + seq![id] + flatten_from(cm, vis2, comment.children@.take(j as int)),
            decreases n - j,
        {
            let child = comment.children[j];
            proof {
                cm.dom().lemma_set_insert_diff_decreases(vis, id);
            }
            self.flatten_node(child, path, out, Ghost(vis2));
            proof {
                assert(comment.children@.take(j + 1) =~= comment.children@.take(j as int)
                    + seq![child]);
                lemma_flatten_from_concat(cm, vis2, comment.children@.take(j as int), seq![child]);
                assert((out0 + seq![id] + flatten_from(cm, vis2, comment.children@.take(j as int)))
                    + flatten_from(cm, vis2, seq![child]) =~= out0 + seq![id] + (flatten_from(
                    cm,
                    vis2,
                    comment.children@.take(j as int),
                ) + flatten_from(cm, vis2, seq![child])));
            }
            j = j + 1;
        }
        path.pop();
        proof {
            assert(path0.push(id).drop_last() =~= path0);
            assert(comment.children@.take(n as int) =~= comment.children@);
            lemma_flatten_from_singleton(cm, vis, id);
            assert(out@ =~= out0 + (seq![id] + flatten_from(cm, vis2, comment.children@)));
        }
    }
}

/// One page worth of ids out of a category list: the `limit` ids
/// starting at `offset`.
pub fn paginate(ids: &[u32], offset: usize, limit: usize) -> (r: Vec<u32>)
    requires
        offset + limit <= ids@.len(),
    ensures
        r@ == ids@.subrange(offset as int, offset + limit),
{
    let n: usize = ids.len();
    let mut out: Vec<u32> = Vec::new();
    let mut i: usize = 0;
    while i < limit
        invariant
            0 <= i <= limit,
            n == ids@.len(),
            offset + limit <= n,
            out@ == ids@.subrange(offset as int, offset + i),
        decreases limit - i,
    {
        out.push(ids[offset + i]);
        proof {
            assert(ids@.subrange(offset as int, offset + i + 1) =~= ids@.subrange(
                offset as int,
                offset + i,
            ).push(ids@[offset + i]));
        }
        i = i + 1;
    }
    out
}

/// A fresh, empty store.
pub fn init_store() -> (store: DataStore)
    ensures
        store.spec_posts() == Map::<u32, Post>::empty(),
        store.spec_comments() == Map::<u32, Comment>::empty(),
        forall|t: StoryListType| #[trigger] store.spec_post_ids(t) == Seq::<u32>::empty(),
        forall|t: StoryListType| !(#[trigger] store.spec_has_post_ids(t)),
        store.wf(),
{
    DataStore::init()
}

} // verus!
