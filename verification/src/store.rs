//! The relational store the executors run against, modeled as plain
//! tables of rows. Mutating executors receive it by `&mut` and their
//! contracts relate the new tables to the old ones; the well-formedness
//! predicate carries the schema's uniqueness and referential rules.

use vstd::prelude::*;

verus! {

/// The palette a topic's color is drawn from at first creation.
#[derive(Clone, Copy, PartialEq, Eq, Structural, Debug)]
pub enum Color {
    Green,
    Blue,
    Red,
    Yellow,
    Purple,
}

impl Color {
    /// The store-level name of the color.
    pub fn name(&self) -> (r: String)
        ensures
            r@ == self.name_spec(),
    {
        match self {
            Color::Green => "green".to_owned(),
            Color::Blue => "blue".to_owned(),
            Color::Red => "red".to_owned(),
            Color::Yellow => "yellow".to_owned(),
            Color::Purple => "purple".to_owned(),
        }
    }

    pub open spec fn name_spec(self) -> Seq<char> {
        match self {
            Color::Green => "green"@,
            Color::Blue => "blue"@,
            Color::Red => "red"@,
            Color::Yellow => "yellow"@,
            Color::Purple => "purple"@,
        }
    }
}

pub struct UserRow {
    pub id: i32,
    pub username: String,
    pub password_hash: String,
    pub created_at: i64,
}

pub struct PostRow {
    pub id: i32,
    pub title: String,
    pub body: String,
    pub user_id: i32,
    pub created_at: i64,
}

pub struct TopicRow {
    pub id: i32,
    pub name: String,
    pub color: Color,
    pub created_at: i64,
}

impl Clone for TopicRow {
    fn clone(&self) -> (r: Self)
        ensures
            r == *self,
    {
        TopicRow {
            id: self.id,
            name: self.name.clone(),
            color: self.color,
            created_at: self.created_at,
        }
    }
}

#[derive(Clone, Copy, PartialEq, Eq, Structural, Debug)]
pub struct PostTopicRow {
    pub post_id: i32,
    pub topic_id: i32,
}

pub struct CommentRow {
    pub id: i32,
    pub post_id: i32,
    pub user_id: i32,
    /// The parent comment, absent for a root comment.
    pub comment_id: Option<i32>,
    pub body: String,
    pub created_at: i64,
}

#[derive(Clone, Copy, PartialEq, Eq, Structural, Debug)]
pub struct SavedPostRow {
    pub user_id: i32,
    pub post_id: i32,
}

pub struct Store {
    pub users: Vec<UserRow>,
    pub posts: Vec<PostRow>,
    pub topics: Vec<TopicRow>,
    pub posts_topics: Vec<PostTopicRow>,
    pub comments: Vec<CommentRow>,
    pub saved_posts: Vec<SavedPostRow>,
    pub next_user_id: i32,
    pub next_post_id: i32,
    pub next_topic_id: i32,
    pub next_comment_id: i32,
}

impl Store {
    pub open spec fn users_wf(self) -> bool {
        &&& forall|i: int, j: int|
            #![trigger self.users@[i].id, self.users@[j].id]
            0 <= i < j < self.users@.len() ==> self.users@[i].id != self.users@[j].id
        &&& forall|i: int, j: int|
            #![trigger self.users@[i].username, self.users@[j].username]
            0 <= i < j < self.users@.len() ==> self.users@[i].username@
                != self.users@[j].username@
        &&& forall|i: int|
            0 <= i < self.users@.len() ==> 1 <= #[trigger] self.users@[i].id
                < self.next_user_id
    }

    pub open spec fn posts_wf(self) -> bool {
        &&& forall|i: int, j: int|
            #![trigger self.posts@[i].id, self.posts@[j].id]
            0 <= i < j < self.posts@.len() ==> self.posts@[i].id != self.posts@[j].id
        &&& forall|i: int|
            0 <= i < self.posts@.len() ==> 1 <= #[trigger] self.posts@[i].id
                < self.next_post_id
    }

    pub open spec fn topics_wf(self) -> bool {
        &&& forall|i: int, j: int|
            #![trigger self.topics@[i].id, self.topics@[j].id]
            0 <= i < j < self.topics@.len() ==> self.topics@[i].id != self.topics@[j].id
        &&& forall|i: int, j: int|
            #![trigger self.topics@[i].name, self.topics@[j].name]
            0 <= i < j < self.topics@.len() ==> self.topics@[i].name@ != self.topics@[j].name@
        &&& forall|i: int|
            0 <= i < self.topics@.len() ==> 1 <= #[trigger] self.topics@[i].id
                < self.next_topic_id
    }

    pub open spec fn posts_topics_wf(self) -> bool {
        forall|i: int, j: int|
            #![trigger self.posts_topics@[i], self.posts_topics@[j]]
            0 <= i < j < self.posts_topics@.len() ==> self.posts_topics@[i]
                != self.posts_topics@[j]
    }

    /// Every comment id is unique, and a comment's parent, when present,
    /// is an earlier comment under the same post.
    pub open spec fn comments_wf(self) -> bool {
        &&& forall|i: int, j: int|
            #![trigger self.comments@[i].id, self.comments@[j].id]
            0 <= i < j < self.comments@.len() ==> self.comments@[i].id != self.comments@[j].id
        &&& forall|i: int|
            0 <= i < self.comments@.len() ==> 1 <= #[trigger] self.comments@[i].id
                < self.next_comment_id
        &&& forall|i: int|
            0 <= i < self.comments@.len() ==> comment_parent_ok(
                self.comments@,
                #[trigger] self.comments@[i],
            )
    }

    pub open spec fn saved_posts_wf(self) -> bool {
        forall|i: int, j: int|
            #![trigger self.saved_posts@[i], self.saved_posts@[j]]
            0 <= i < j < self.saved_posts@.len() ==> self.saved_posts@[i]
                != self.saved_posts@[j]
    }

    pub open spec fn wf(self) -> bool {
        &&& 1 <= self.next_user_id
        &&& 1 <= self.next_post_id
        &&& 1 <= self.next_topic_id
        &&& 1 <= self.next_comment_id
        &&& self.users_wf()
        &&& self.posts_wf()
        &&& self.topics_wf()
        &&& self.posts_topics_wf()
        &&& self.comments_wf()
        &&& self.saved_posts_wf()
    }

    /// An empty store, the state before any command has run.
    pub fn new() -> (r: Store)
        ensures
            r.wf(),
            r.users@.len() == 0,
            r.posts@.len() == 0,
            r.topics@.len() == 0,
            r.posts_topics@.len() == 0,
            r.comments@.len() == 0,
            r.saved_posts@.len() == 0,
            r.next_user_id == 1,
            r.next_post_id == 1,
            r.next_topic_id == 1,
            r.next_comment_id == 1,
    {
        Store {
            users: Vec::new(),
            posts: Vec::new(),
            topics: Vec::new(),
            posts_topics: Vec::new(),
            comments: Vec::new(),
            saved_posts: Vec::new(),
            next_user_id: 1,
            next_post_id: 1,
            next_topic_id: 1,
            next_comment_id: 1,
        }
    }
}

/// The parent of `c`, when present, names a comment of the same post with
/// a smaller id.
pub open spec fn comment_parent_ok(comments: Seq<CommentRow>, c: CommentRow) -> bool {
    match c.comment_id {
        None => true,
        Some(p) => exists|j: int|
            0 <= j < comments.len() && (#[trigger] comments[j]).id == p && comments[j].post_id
                == c.post_id && p < c.id,
    }
}

// ---------- spec-level queries ----------

pub open spec fn username_taken(users: Seq<UserRow>, name: Seq<char>) -> bool {
    exists|i: int| 0 <= i < users.len() && (#[trigger] users[i]).username@ == name
}

pub open spec fn has_topic_name(topics: Seq<TopicRow>, name: Seq<char>) -> bool {
    exists|i: int| 0 <= i < topics.len() && (#[trigger] topics[i]).name@ == name
}

pub open spec fn user_index_of(users: Seq<UserRow>, id: i32) -> bool {
    exists|i: int| 0 <= i < users.len() && (#[trigger] users[i]).id == id
}

pub open spec fn has_save(saves: Seq<SavedPostRow>, user_id: i32, post_id: i32) -> bool {
    exists|i: int|
        0 <= i < saves.len() && (#[trigger] saves[i]) == (SavedPostRow { user_id, post_id })
}

/// What the idempotent save leaves in the table.
pub open spec fn spec_save(saves: Seq<SavedPostRow>, user_id: i32, post_id: i32) -> Seq<
    SavedPostRow,
> {
    if has_save(saves, user_id, post_id) {
        saves
    } else {
        saves.push(SavedPostRow { user_id, post_id })
    }
}

/// What the unconditional delete leaves in the table.
pub open spec fn spec_unsave(saves: Seq<SavedPostRow>, user_id: i32, post_id: i32) -> Seq<
    SavedPostRow,
> {
    saves.filter(|r: SavedPostRow| r != (SavedPostRow { user_id, post_id }))
}

// ---------- the laws of saving ----------

/// Saving is idempotent: the insert-or-ignore, applied twice with the
/// same pair, leaves exactly what one application leaves.
pub proof fn lemma_save_idempotent(saves: Seq<SavedPostRow>, user_id: i32, post_id: i32)
    ensures
        spec_save(spec_save(saves, user_id, post_id), user_id, post_id) == spec_save(
            saves,
            user_id,
            post_id,
        ),
{
    let pair = SavedPostRow { user_id, post_id };
    if !has_save(saves, user_id, post_id) {
        let s1 = saves.push(pair);
        assert(s1[saves.len() as int] == pair);
        assert(has_save(s1, user_id, post_id));
    }
}

/// How many rows of the table carry the pair.
pub open spec fn save_pair_count(saves: Seq<SavedPostRow>, user_id: i32, post_id: i32) -> int {
    saves.filter(|r: SavedPostRow| r == (SavedPostRow { user_id, post_id })).len() as int
}

proof fn lemma_pair_count_zero(saves: Seq<SavedPostRow>, user_id: i32, post_id: i32)
    requires
        !has_save(saves, user_id, post_id),
    ensures
        save_pair_count(saves, user_id, post_id) == 0,
    decreases saves.len(),
{
    reveal(Seq::filter);
    if saves.len() > 0 {
        let t = saves.drop_last();
        assert(forall|i: int| 0 <= i < t.len() ==> t[i] == saves[i]);
        assert(!has_save(t, user_id, post_id));
        lemma_pair_count_zero(t, user_id, post_id);
        assert(saves[saves.len() - 1] != (SavedPostRow { user_id, post_id }));
    }
}

proof fn lemma_pair_count_one(saves: Seq<SavedPostRow>, user_id: i32, post_id: i32)
    requires
        forall|i: int, j: int|
            #![trigger saves[i], saves[j]]
            0 <= i < j < saves.len() ==> saves[i] != saves[j],
        has_save(saves, user_id, post_id),
    ensures
        save_pair_count(saves, user_id, post_id) == 1,
    decreases saves.len(),
{
    reveal(Seq::filter);
    let pair = SavedPostRow { user_id, post_id };
    let t = saves.drop_last();
    assert(forall|i: int| 0 <= i < t.len() ==> t[i] == saves[i]);
    if saves.last() == pair {
        assert(forall|i: int| 0 <= i < t.len() ==> t[i] != pair);
        assert(!has_save(t, user_id, post_id));
        lemma_pair_count_zero(t, user_id, post_id);
    } else {
        let w = choose|w: int| 0 <= w < saves.len() && saves[w] == pair;
        assert(t[w] == pair);
        assert(has_save(t, user_id, post_id));
        lemma_pair_count_one(t, user_id, post_id);
    }
}

/// After a save, exactly one row of a duplicate-free table carries the
/// pair.
pub proof fn lemma_saved_exactly_once(saves: Seq<SavedPostRow>, user_id: i32, post_id: i32)
    requires
        forall|i: int, j: int|
            #![trigger saves[i], saves[j]]
            0 <= i < j < saves.len() ==> saves[i] != saves[j],
    ensures
        save_pair_count(spec_save(saves, user_id, post_id), user_id, post_id) == 1,
{
    let pair = SavedPostRow { user_id, post_id };
    if has_save(saves, user_id, post_id) {
        lemma_pair_count_one(saves, user_id, post_id);
    } else {
        let s1 = saves.push(pair);
        assert(forall|i: int| 0 <= i < saves.len() ==> s1[i] == saves[i]);
        assert(forall|i: int| 0 <= i < saves.len() ==> s1[i] != pair);
        assert forall|i: int, j: int|
            #![trigger s1[i], s1[j]]
            0 <= i < j < s1.len() implies s1[i] != s1[j] by {
            if j == s1.len() - 1 {
                assert(s1[i] != pair);
            }
        }
        assert(s1[saves.len() as int] == pair);
        assert(has_save(s1, user_id, post_id));
        lemma_pair_count_one(s1, user_id, post_id);
    }
}

/// Unsaving a pair that was never saved is a no-op.
pub proof fn lemma_unsave_absent_noop(saves: Seq<SavedPostRow>, user_id: i32, post_id: i32)
    requires
        !has_save(saves, user_id, post_id),
    ensures
        spec_unsave(saves, user_id, post_id) == saves,
{
    let pair = SavedPostRow { user_id, post_id };
    assert(forall|i: int|
        0 <= i < saves.len() ==> (|r: SavedPostRow| r != pair)(#[trigger] saves[i]));
    crate::lemmas::lemma_filter_all(saves, |r: SavedPostRow| r != pair);
}

// ---------- executable queries ----------

impl Store {
    pub fn find_user_by_name(&self, name: &String) -> (r: Option<usize>)
        ensures
            match r {
                Some(i) => i < self.users@.len() && self.users@[i as int].username@ == name@,
                None => !username_taken(self.users@, name@),
            },
    {
        let n: usize = self.users.len();
        let mut i: usize = 0;
        while i < n
            invariant
                i <= n,
                n == self.users@.len(),
                forall|j: int| 0 <= j < i ==> (#[trigger] self.users@[j]).username@ != name@,
            decreases n - i,
        {
            if self.users[i].username == *name {
                return Some(i);
            }
            i = i + 1;
        }
        None
    }

    pub fn find_user_by_id(&self, id: i32) -> (r: Option<usize>)
        ensures
            match r {
                Some(i) => i < self.users@.len() && self.users@[i as int].id == id,
                None => !user_index_of(self.users@, id),
            },
    {
        let n: usize = self.users.len();
        let mut i: usize = 0;
        while i < n
            invariant
                i <= n,
                n == self.users@.len(),
                forall|j: int| 0 <= j < i ==> (#[trigger] self.users@[j]).id != id,
            decreases n - i,
        {
            if self.users[i].id == id {
                return Some(i);
            }
            i = i + 1;
        }
        None
    }

    pub fn find_topic_by_name(&self, name: &String) -> (r: Option<usize>)
        ensures
            match r {
                Some(i) => i < self.topics@.len() && self.topics@[i as int].name@ == name@,
                None => !has_topic_name(self.topics@, name@),
            },
    {
        let n: usize = self.topics.len();
        let mut i: usize = 0;
        while i < n
            invariant
                i <= n,
                n == self.topics@.len(),
                forall|j: int| 0 <= j < i ==> (#[trigger] self.topics@[j]).name@ != name@,
            decreases n - i,
        {
            if self.topics[i].name == *name {
                return Some(i);
            }
            i = i + 1;
        }
        None
    }

    pub fn has_saved(&self, user_id: i32, post_id: i32) -> (r: bool)
        ensures
            r == has_save(self.saved_posts@, user_id, post_id),
    {
        let n: usize = self.saved_posts.len();
        let mut i: usize = 0;
        while i < n
            invariant
                i <= n,
                n == self.saved_posts@.len(),
                forall|j: int|
                    0 <= j < i ==> (#[trigger] self.saved_posts@[j]) != (SavedPostRow {
                        user_id,
                        post_id,
                    }),
            decreases n - i,
        {
            let s = self.saved_posts[i];
            if s.user_id == user_id && s.post_id == post_id {
                assert(s == (SavedPostRow { user_id, post_id }));
                return true;
            }
            i = i + 1;
        }
        false
    }
}

} // verus!
