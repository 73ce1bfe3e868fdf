//! Posts: creation with topic upsert and linkage, the list and single
//! fetches with their joins, sorting and paging, and the idempotent save
//! and unconditional unsave.

use vstd::prelude::*;
use vstd::multiset::Multiset;
use vstd::relations::sorted_by;
use vstd::string::StrSliceExecFns;

use rand::Rng;

use crate::auth::UserAuthDetails;
use crate::handler_utils::{NoDBClient, NotValidated, NoUserDetails, Validated, WithDBClient,
    WithUserDetails};
use crate::lemmas::lemma_filter_take_step;
use crate::store::{has_save, has_topic_name, spec_save, spec_unsave, user_index_of, Color,
    CommentRow, PostRow, PostTopicRow, SavedPostRow, Store, TopicRow};
use crate::text::{after_colon, chars_to_string, normalize_topic, normalize_topic_string,
    split_colon_pair, str_chars, trim_chars, trim_spec, upto_colon};
use crate::{ApiError, ErrorKind, Sort};

verus! {

/// The author fields a post row carries.
#[derive(Debug)]
pub struct PostAuthor {
    pub id: i32,
    pub name: String,
}

/// One assembled post of a fetch: the row, its author, its topics as
/// (name, color) pairs, and the aggregate counts.
#[derive(Debug)]
pub struct FetchPostsResponse {
    pub id: i32,
    pub title: String,
    pub body: String,
    pub topics: Vec<(String, String)>,
    pub author: PostAuthor,
    pub saved: bool,
    pub created_at: i64,
    pub comments: i64,
    pub saves: i64,
}

/// The columns of one fetched post row, each already decoded or not.
pub struct PostRowRaw {
    pub id: Option<i32>,
    pub title: Option<String>,
    pub body: Option<String>,
    /// Aggregated `name:color` strings, one per topic.
    pub topics: Option<Vec<String>>,
    pub author_id: Option<i32>,
    pub author_name: Option<String>,
    pub comments: Option<i64>,
    pub saves: Option<i64>,
    /// Absent in the anonymous queries; defaults to false.
    pub saved: Option<bool>,
    pub created_at: Option<i64>,
}

impl FetchPostsResponse {
    /// Maps one raw row to a response; the `saved` column alone may be
    /// missing, any other missing column fails the whole mapping.
    pub fn from_row(row: &PostRowRaw) -> (res: Result<FetchPostsResponse, ApiError>)
        ensures
            res is Ok <==> (row.id is Some && row.title is Some && row.body is Some && row.topics
                is Some && row.author_id is Some && row.comments is Some && row.saves is Some
                && row.author_name is Some && row.created_at is Some),
            match res {
                Ok(out) => {
                    &&& row.id matches Some(id) && out.id == id
                    &&& row.title matches Some(t) && out.title@ == t@
                    &&& row.body matches Some(b) && out.body@ == b@
                    &&& row.author_id matches Some(a) && out.author.id == a
                    &&& row.author_name matches Some(n) && out.author.name@ == n@
                    &&& row.comments matches Some(c) && out.comments == c
                    &&& row.saves matches Some(sv) && out.saves == sv
                    &&& row.created_at matches Some(ts) && out.created_at == ts
                    &&& out.saved == (row.saved matches Some(true))
                    &&& row.topics matches Some(ts) && out.topics@.len() == ts@.len() && (forall|
                        k: int,
                    |
                        0 <= k < ts@.len() ==> (#[trigger] out.topics@[k]).0@ == upto_colon(
                            ts@[k]@,
                        ) && out.topics@[k].1@ == upto_colon(after_colon(ts@[k]@)))
                },
                Err(e) => {
                    &&& e.kind == ErrorKind::ServerFault
                    &&& e.message@ == "Error converting postgres types"@
                },
            },
    {
        match (
            &row.id,
            &row.title,
            &row.body,
            &row.topics,
            &row.author_id,
            &row.comments,
            &row.saves,
            &row.author_name,
            &row.created_at,
        ) {
            (
                Some(id),
                Some(title),
                Some(body),
                Some(topics),
                Some(author_id),
                Some(comments),
                Some(saves),
                Some(author_name),
                Some(created_at),
            ) => {
                let m: usize = topics.len();
                let mut pairs: Vec<(String, String)> = Vec::new();
                let mut k: usize = 0;
                while k < m
                    invariant
                        k <= m,
                        m == topics@.len(),
                        pairs@.len() == k,
                        forall|j: int|
                            0 <= j < k ==> (#[trigger] pairs@[j]).0@ == upto_colon(topics@[j]@)
                                && pairs@[j].1@ == upto_colon(after_colon(topics@[j]@)),
                    decreases m - k,
                {
                    let pair = split_colon_pair(&topics[k]);
                    pairs.push(pair);
                    k = k + 1;
                }
                let saved = match &row.saved {
                    Some(s) => *s,
                    None => false,
                };
                Ok(
                    FetchPostsResponse {
                        id: *id,
                        title: title.clone(),
                        body: body.clone(),
                        topics: pairs,
                        author: PostAuthor { id: *author_id, name: author_name.clone() },
                        saved,
                        created_at: *created_at,
                        comments: *comments,
                        saves: *saves,
                    },
                )
            },
            _ => Err(ApiError::msg(ErrorKind::ServerFault, "Error converting postgres types")),
        }
    }
}

// ---------- what one assembled post owes to the store ----------

pub open spec fn topic_id_exists(topics: Seq<TopicRow>, id: i32) -> bool {
    exists|j: int| 0 <= j < topics.len() && (#[trigger] topics[j]).id == id
}

pub open spec fn comment_count(comments: Seq<CommentRow>, post_id: i32) -> int {
    comments.filter(|c: CommentRow| c.post_id == post_id).len() as int
}

pub open spec fn post_save_count(saves: Seq<SavedPostRow>, post_id: i32) -> int {
    saves.filter(|sv: SavedPostRow| sv.post_id == post_id).len() as int
}

/// The links that tie the post to an existing topic, in table order.
pub open spec fn post_links(
    pt: Seq<PostTopicRow>,
    topics: Seq<TopicRow>,
    post_id: i32,
) -> Seq<PostTopicRow> {
    pt.filter(|l: PostTopicRow| l.post_id == post_id && topic_id_exists(topics, l.topic_id))
}

/// A post reaches a fetch result only with an existing author and at
/// least one topic link, as the fetch's inner joins demand.
pub open spec fn post_visible(s: Store, p: PostRow) -> bool {
    &&& user_index_of(s.users@, p.user_id)
    &&& post_links(s.posts_topics@, s.topics@, p.id).len() > 0
}

pub open spec fn topic_pair_matches(
    pair: (String, String),
    l: PostTopicRow,
    topics: Seq<TopicRow>,
) -> bool {
    exists|j: int|
        0 <= j < topics.len() && (#[trigger] topics[j]).id == l.topic_id && pair.0@
            == topics[j].name@ && pair.1@ == topics[j].color.name_spec()
}

pub open spec fn resp_matches_post(
    resp: FetchPostsResponse,
    p: PostRow,
    s: Store,
    viewer: Option<i32>,
    count_saves: bool,
) -> bool {
    &&& resp.id == p.id
    &&& resp.title@ == p.title@
    &&& resp.body@ == p.body@
    &&& resp.created_at == p.created_at
    &&& resp.author.id == p.user_id
    &&& exists|j: int|
        0 <= j < s.users@.len() && (#[trigger] s.users@[j]).id == p.user_id && resp.author.name@
            == s.users@[j].username@
    &&& resp.comments as int == comment_count(s.comments@, p.id)
    &&& resp.saves as int == if count_saves {
        post_save_count(s.saved_posts@, p.id)
    } else {
        0
    }
    &&& resp.saved == (viewer matches Some(v) && has_save(s.saved_posts@, v, p.id))
    &&& resp.topics@.len() == post_links(s.posts_topics@, s.topics@, p.id).len()
    &&& forall|t: int|
        0 <= t < resp.topics@.len() ==> topic_pair_matches(
            #[trigger] resp.topics@[t],
            post_links(s.posts_topics@, s.topics@, p.id)[t],
            s.topics@,
        )
}

/// Which posts one of the fetches lists, before visibility.
#[derive(Clone, Copy, PartialEq, Eq, Structural, Debug)]
pub enum PostSelector {
    /// Every post.
    All,
    /// Posts written by the given account.
    ByAuthor(i32),
    /// Posts the given account has saved.
    SavedBy(i32),
}

pub open spec fn selector_matches(sel: PostSelector, s: Store, p: PostRow) -> bool {
    match sel {
        PostSelector::All => true,
        PostSelector::ByAuthor(u) => p.user_id == u,
        PostSelector::SavedBy(u) => has_save(s.saved_posts@, u, p.id),
    }
}

/// The posts a fetch returns, in table order, before sorting.
pub open spec fn listed_posts(s: Store, sel: PostSelector) -> Seq<PostRow> {
    s.posts@.filter(|p: PostRow| selector_matches(sel, s, p) && post_visible(s, p))
}

pub open spec fn responses_match(
    rs: Seq<FetchPostsResponse>,
    s: Store,
    sel: PostSelector,
    viewer: Option<i32>,
    count_saves: bool,
) -> bool {
    &&& rs.len() == listed_posts(s, sel).len()
    &&& forall|k: int|
        0 <= k < rs.len() ==> resp_matches_post(
            #[trigger] rs[k],
            listed_posts(s, sel)[k],
            s,
            viewer,
            count_saves,
        )
}

// ---------- assembly from the store ----------

fn find_topic_index_by_id(topics: &Vec<TopicRow>, id: i32) -> (r: Option<usize>)
    ensures
        match r {
            Some(j) => j < topics@.len() && topics@[j as int].id == id,
            None => !topic_id_exists(topics@, id),
        },
{
    let n: usize = topics.len();
    let mut i: usize = 0;
    while i < n
        invariant
            i <= n,
            n == topics@.len(),
            forall|j: int| 0 <= j < i ==> (#[trigger] topics@[j]).id != id,
        decreases n - i,
    {
        if topics[i].id == id {
            return Some(i);
        }
        i = i + 1;
    }
    None
}

fn count_comments_for(store: &Store, post_id: i32) -> (r: usize)
    ensures
        r as int == comment_count(store.comments@, post_id),
        r <= store.comments@.len(),
{
    let ghost pred = |c: CommentRow| c.post_id == post_id;
    let n: usize = store.comments.len();
    let mut count: usize = 0;
    let mut k: usize = 0;
    while k < n
        invariant
            k <= n,
            n == store.comments@.len(),
            pred == (|c: CommentRow| c.post_id == post_id),
            count as int == store.comments@.take(k as int).filter(pred).len(),
            count <= k,
        decreases n - k,
    {
        proof {
            lemma_filter_take_step(store.comments@, pred, k as int);
        }
        if store.comments[k].post_id == post_id {
            count = count + 1;
        }
        k = k + 1;
    }
    proof {
        assert(store.comments@.take(n as int) =~= store.comments@);
    }
    count
}

fn count_saves_for(store: &Store, post_id: i32) -> (r: usize)
    ensures
        r as int == post_save_count(store.saved_posts@, post_id),
        r <= store.saved_posts@.len(),
{
    let ghost pred = |sv: SavedPostRow| sv.post_id == post_id;
    let n: usize = store.saved_posts.len();
    let mut count: usize = 0;
    let mut k: usize = 0;
    while k < n
        invariant
            k <= n,
            n == store.saved_posts@.len(),
            pred == (|sv: SavedPostRow| sv.post_id == post_id),
            count as int == store.saved_posts@.take(k as int).filter(pred).len(),
            count <= k,
        decreases n - k,
    {
        proof {
            lemma_filter_take_step(store.saved_posts@, pred, k as int);
        }
        if store.saved_posts[k].post_id == post_id {
            count = count + 1;
        }
        k = k + 1;
    }
    proof {
        assert(store.saved_posts@.take(n as int) =~= store.saved_posts@);
    }
    count
}

fn build_topic_pairs(store: &Store, post_id: i32) -> (r: Vec<(String, String)>)
    ensures
        r@.len() == post_links(store.posts_topics@, store.topics@, post_id).len(),
        forall|t: int|
            0 <= t < r@.len() ==> topic_pair_matches(
                #[trigger] r@[t],
                post_links(store.posts_topics@, store.topics@, post_id)[t],
                store.topics@,
            ),
{
    let ghost pred = |l: PostTopicRow| l.post_id == post_id && topic_id_exists(
        store.topics@,
        l.topic_id,
    );
    let n: usize = store.posts_topics.len();
    let mut pairs: Vec<(String, String)> = Vec::new();
    let mut k: usize = 0;
    while k < n
        invariant
            k <= n,
            n == store.posts_topics@.len(),
            pred == (|l: PostTopicRow| l.post_id == post_id && topic_id_exists(
                store.topics@,
                l.topic_id,
            )),
            pairs@.len() == store.posts_topics@.take(k as int).filter(pred).len(),
            forall|t: int|
                0 <= t < pairs@.len() ==> topic_pair_matches(
                    #[trigger] pairs@[t],
                    store.posts_topics@.take(k as int).filter(pred)[t],
                    store.topics@,
                ),
        decreases n - k,
    {
        proof {
            lemma_filter_take_step(store.posts_topics@, pred, k as int);
        }
        let l = store.posts_topics[k];
        if l.post_id == post_id {
            match find_topic_index_by_id(&store.topics, l.topic_id) {
                Some(j) => {
                    let topic = &store.topics[j];
                    pairs.push((topic.name.clone(), topic.color.name()));
                },
                None => {
                },
            }
        }
        k = k + 1;
    }
    proof {
        assert(store.posts_topics@.take(n as int) =~= store.posts_topics@);
    }
    pairs
}

/// Assembles one post against the store's tables; yields nothing when
/// the author is gone or no topic link remains, as the joins would.
fn assemble_post(store: &Store, p: &PostRow, viewer: Option<i32>, count_saves: bool) -> (r: Option<
    FetchPostsResponse,
>)
    requires
        store.comments@.len() <= 0x7fff_ffff_ffff_ffff,
        store.saved_posts@.len() <= 0x7fff_ffff_ffff_ffff,
    ensures
        match r {
            Some(resp) => post_visible(*store, *p) && resp_matches_post(
                resp,
                *p,
                *store,
                viewer,
                count_saves,
            ),
            None => !post_visible(*store, *p),
        },
{
    let author_idx = match store.find_user_by_id(p.user_id) {
        Some(j) => j,
        None => {
            return None;
        },
    };
    let pairs = build_topic_pairs(store, p.id);
    if pairs.len() == 0 {
        return None;
    }
    let comments = count_comments_for(store, p.id);
    let saves: usize = if count_saves {
        count_saves_for(store, p.id)
    } else {
        0
    };
    let saved = match viewer {
        Some(v) => store.has_saved(v, p.id),
        None => false,
    };
    Some(
        FetchPostsResponse {
            id: p.id,
            title: p.title.clone(),
            body: p.body.clone(),
            topics: pairs,
            author: PostAuthor { id: p.user_id, name: store.users[author_idx].username.clone() },
            saved,
            created_at: p.created_at,
            comments: comments as i64,
            saves: saves as i64,
        },
    )
}

/// Assembles every post the selector lists, in table order.
pub(crate) fn collect_posts(store: &Store, sel: PostSelector, viewer: Option<i32>, count_saves: bool) -> (r:
    Vec<FetchPostsResponse>)
    requires
        store.comments@.len() <= 0x7fff_ffff_ffff_ffff,
        store.saved_posts@.len() <= 0x7fff_ffff_ffff_ffff,
    ensures
        responses_match(r@, *store, sel, viewer, count_saves),
{
    let ghost pred = |p: PostRow| selector_matches(sel, *store, p) && post_visible(*store, p);
    let n: usize = store.posts.len();
    let mut out: Vec<FetchPostsResponse> = Vec::new();
    let mut k: usize = 0;
    while k < n
        invariant
            k <= n,
            n == store.posts@.len(),
            store.comments@.len() <= 0x7fff_ffff_ffff_ffff,
            store.saved_posts@.len() <= 0x7fff_ffff_ffff_ffff,
            pred == (|p: PostRow| selector_matches(sel, *store, p) && post_visible(*store, p)),
            out@.len() == store.posts@.take(k as int).filter(pred).len(),
            forall|i: int|
                0 <= i < out@.len() ==> resp_matches_post(
                    #[trigger] out@[i],
                    store.posts@.take(k as int).filter(pred)[i],
                    *store,
                    viewer,
                    count_saves,
                ),
        decreases n - k,
    {
        proof {
            lemma_filter_take_step(store.posts@, pred, k as int);
        }
        let p = &store.posts[k];
        let selected = match sel {
            PostSelector::All => true,
            PostSelector::ByAuthor(u) => p.user_id == u,
            PostSelector::SavedBy(u) => store.has_saved(u, p.id),
        };
        if selected {
            match assemble_post(store, p, viewer, count_saves) {
                Some(resp) => {
                    out.push(resp);
                },
                None => {
                },
            }
        }
        k = k + 1;
    }
    proof {
        assert(store.posts@.take(n as int) =~= store.posts@);
        assert(listed_posts(*store, sel) == store.posts@.filter(pred));
    }
    out
}

// ---------- ordering of a post list ----------

pub open spec fn post_score(r: FetchPostsResponse) -> int {
    r.comments + 2 * r.saves
}

/// The requested ordering of the post list; the score orderings keep the
/// newest first among equals, and ids break the remaining ties.
pub open spec fn post_le(mode: Option<Sort>, a: FetchPostsResponse, b: FetchPostsResponse) -> bool {
    match mode {
        Some(Sort::Oldest) => a.created_at < b.created_at || (a.created_at == b.created_at && a.id
            <= b.id),
        Some(Sort::Highest) => post_score(b) < post_score(a) || (post_score(a) == post_score(b) && (
        b.created_at < a.created_at || (a.created_at == b.created_at && a.id <= b.id))),
        Some(Sort::Lowest) => post_score(a) < post_score(b) || (post_score(a) == post_score(b) && (
        b.created_at < a.created_at || (a.created_at == b.created_at && a.id <= b.id))),
        _ => b.created_at < a.created_at || (a.created_at == b.created_at && a.id <= b.id),
    }
}

pub proof fn lemma_post_le_total(mode: Option<Sort>)
    ensures
        forall|a: FetchPostsResponse, b: FetchPostsResponse|
            #[trigger] post_le(mode, a, b) || #[trigger] post_le(mode, b, a),
        forall|a: FetchPostsResponse, b: FetchPostsResponse, c: FetchPostsResponse|
            #![trigger post_le(mode, a, b), post_le(mode, b, c)]
            post_le(mode, a, b) && post_le(mode, b, c) ==> post_le(mode, a, c),
{
}

fn post_le_exec(mode: &Option<Sort>, a: &FetchPostsResponse, b: &FetchPostsResponse) -> (r: bool)
    ensures
        r == post_le(*mode, *a, *b),
{
    let sa: i128 = (a.comments as i128) + 2 * (a.saves as i128);
    let sb: i128 = (b.comments as i128) + 2 * (b.saves as i128);
    match mode {
        Some(Sort::Oldest) => a.created_at < b.created_at || (a.created_at == b.created_at && a.id
            <= b.id),
        Some(Sort::Highest) => sb < sa || (sa == sb && (b.created_at < a.created_at || (
        a.created_at == b.created_at && a.id <= b.id))),
        Some(Sort::Lowest) => sa < sb || (sa == sb && (b.created_at < a.created_at || (
        a.created_at == b.created_at && a.id <= b.id))),
        _ => b.created_at < a.created_at || (a.created_at == b.created_at && a.id <= b.id),
    }
}

/// Insertion sort of a post list by the mode's comparator.
pub(crate) fn sort_posts(v: &mut Vec<FetchPostsResponse>, mode: &Option<Sort>)
    ensures
        sorted_by(final(v)@, |a, b| post_le(*mode, a, b)),
        final(v)@.to_multiset() == old(v)@.to_multiset(),
        final(v)@.len() == old(v)@.len(),
        forall|i: int| 0 <= i < final(v)@.len() ==> old(v)@.contains(#[trigger] final(v)@[i]),
{
    broadcast use vstd::seq_lib::group_to_multiset_ensures;

    let ghost orig = v@;
    let ghost le = |a: FetchPostsResponse, b: FetchPostsResponse| post_le(*mode, a, b);
    proof {
        lemma_post_le_total(*mode);
    }
    let mut out: Vec<FetchPostsResponse> = Vec::new();
    while v.len() > 0
        invariant
            out@.to_multiset().add(v@.to_multiset()) =~= orig.to_multiset(),
            out@.len() + v@.len() == orig.len(),
            sorted_by(out@, le),
            le == (|a: FetchPostsResponse, b: FetchPostsResponse| post_le(*mode, a, b)),
            forall|a: FetchPostsResponse, b: FetchPostsResponse|
                #[trigger] le(a, b) || #[trigger] le(b, a),
            forall|a: FetchPostsResponse, b: FetchPostsResponse, c: FetchPostsResponse|
                #![trigger le(a, b), le(b, c)]
                le(a, b) && le(b, c) ==> le(a, c),
        decreases v@.len(),
    {
        let ghost v_before = v@;
        let x = v.remove(0);
        let mut pos: usize = 0;
        while pos < out.len() && post_le_exec(mode, &out[pos], &x)
            invariant
                pos <= out@.len(),
                forall|p: int| 0 <= p < pos ==> le(#[trigger] out@[p], x),
                le == (|a: FetchPostsResponse, b: FetchPostsResponse| post_le(*mode, a, b)),
            decreases out@.len() - pos,
        {
            pos = pos + 1;
        }
        let ghost out_before = out@;
        out.insert(pos, x);
        proof {
            broadcast use vstd::multiset::group_multiset_axioms;

            assert(sorted_by(out@, le)) by {
                assert forall|p: int, q: int| 0 <= p < q < out@.len() implies le(
                    out@[p],
                    out@[q],
                ) by {
                    if q == pos as int {
                        assert(out@[p] == out_before[p]);
                    } else if p == pos as int {
                        assert(!le(out_before[pos as int], x));
                        assert(le(x, out_before[pos as int]));
                        assert(out@[q] == out_before[q - 1]);
                        if q - 1 > pos as int {
                            assert(le(out_before[pos as int], out_before[q - 1]));
                        }
                    } else if p < pos as int && q > pos as int {
                        assert(out@[p] == out_before[p] && out@[q] == out_before[q - 1]);
                        assert(le(out_before[p], out_before[q - 1]) || p == q - 1);
                        if p == q - 1 {
                            assert(le(out_before[p], x) && le(x, out_before[p]));
                        }
                    } else if q < pos as int {
                        assert(out@[p] == out_before[p] && out@[q] == out_before[q]);
                    } else {
                        assert(out@[p] == out_before[p - 1] && out@[q] == out_before[q - 1]);
                    }
                }
            }
            vstd::seq_lib::to_multiset_insert(out_before, pos as int, x);
            vstd::seq_lib::to_multiset_remove(v_before, 0);
            v_before.to_multiset_ensures();
            assert(x == v_before[0]);
            assert(v_before.contains(x));
            assert(v_before.to_multiset().count(x) > 0);
            assert(out@.to_multiset() =~= out_before.to_multiset().insert(x));
            assert(v@.to_multiset() =~= v_before.to_multiset().remove(x));
            assert(out@.to_multiset().add(v@.to_multiset()) =~= orig.to_multiset());
        }
    }
    proof {
        assert(v@.to_multiset().len() == 0);
        assert(v@.to_multiset() =~= Multiset::<FetchPostsResponse>::empty());
        assert(out@.to_multiset().add(v@.to_multiset()) =~= out@.to_multiset());
    }
    *v = out;
    proof {
        assert(final(v)@.to_multiset() == orig.to_multiset());
        assert forall|i: int| 0 <= i < final(v)@.len() implies orig.contains(
            #[trigger] final(v)@[i],
        ) by {
            final(v)@.to_multiset_ensures();
            orig.to_multiset_ensures();
            assert(final(v)@.contains(final(v)@[i]));
            assert(final(v)@.to_multiset().count(final(v)@[i]) > 0);
        }
    }
}


// ---------- post creation ----------

/// The post-creation request as it moves through the pipeline.
pub struct CreatePostDetails<D, U, V> {
    pub title: String,
    pub topics: Vec<String>,
    pub body: String,
    pub db_client: D,
    pub user_details: U,
    pub validated: V,
}

/// Every topic name, once normalized, stays within fifty characters.
pub open spec fn topics_all_short(ts: Seq<String>) -> bool {
    forall|i: int| 0 <= i < ts.len() ==> normalize_topic((#[trigger] ts[i])@).len() <= 50
}

/// The normalized topic names, with the empty results dropped.
pub open spec fn kept_topics(ts: Seq<String>) -> Seq<Seq<char>> {
    ts.map_values(|s: String| normalize_topic(s@)).filter(|t: Seq<char>| t.len() > 0)
}

/// Some entry of the list reads as the given name.
pub open spec fn name_in_list(names: Seq<String>, nm: Seq<char>) -> bool {
    exists|t: int| 0 <= t < names.len() && (#[trigger] names[t])@ == nm
}

impl<U, V> CreatePostDetails<NoDBClient, U, V> {
    /// Attaches the store capability; the store value itself is handed to
    /// the executor.
    pub fn add_db_client(self) -> (r: CreatePostDetails<WithDBClient, U, V>)
        ensures
            r.title == self.title,
            r.topics == self.topics,
            r.body == self.body,
            r.user_details == self.user_details,
            r.validated == self.validated,
    {
        CreatePostDetails {
            title: self.title,
            topics: self.topics,
            body: self.body,
            db_client: WithDBClient,
            user_details: self.user_details,
            validated: self.validated,
        }
    }
}

impl<D, V> CreatePostDetails<D, NoUserDetails, V> {
    /// Binds the authenticated caller to the request.
    pub fn add_user_details<'a>(self, user_details: &'a UserAuthDetails) -> (r: CreatePostDetails<
        D,
        WithUserDetails<'a>,
        V,
    >)
        ensures
            r.title == self.title,
            r.topics == self.topics,
            r.body == self.body,
            r.db_client == self.db_client,
            r.user_details.0 == user_details,
            r.validated == self.validated,
    {
        CreatePostDetails {
            title: self.title,
            topics: self.topics,
            body: self.body,
            db_client: self.db_client,
            user_details: WithUserDetails(user_details),
            validated: self.validated,
        }
    }
}

impl<'a> CreatePostDetails<WithDBClient, WithUserDetails<'a>, NotValidated> {
    /// Trims the title and body, bounds their lengths, normalizes every
    /// topic name and drops the empty results; the first failing check
    /// decides the error.
    pub fn validate(self) -> (r: Result<
        CreatePostDetails<WithDBClient, WithUserDetails<'a>, Validated>,
        ApiError,
    >)
        ensures
            ({
                let t = trim_spec(self.title@);
                let b = trim_spec(self.body@);
                if t.len() == 0 {
                    r matches Err(e) && e.kind == ErrorKind::BadInput && (e.name matches Some(n)
                        && n@ == "title"@) && e.message@ == "Post title has no content"@
                } else if b.len() == 0 {
                    r matches Err(e) && e.kind == ErrorKind::BadInput && (e.name matches Some(n)
                        && n@ == "body"@) && e.message@ == "Post body has no content"@
                } else if t.len() > 100 {
                    r matches Err(e) && e.kind == ErrorKind::BadInput && (e.name matches Some(n)
                        && n@ == "title"@) && e.message@
                        == "Post title should not have more 100 characters"@
                } else if b.len() > 1000 {
                    r matches Err(e) && e.kind == ErrorKind::BadInput && (e.name matches Some(n)
                        && n@ == "body"@) && e.message@
                        == "Post body should not have more 1000 characters"@
                } else if !topics_all_short(self.topics@) {
                    r matches Err(e) && e.kind == ErrorKind::BadInput && e.name is None
                        && e.message@ == "Topic names should not be more than 50 characters"@
                } else if kept_topics(self.topics@).len() == 0 {
                    r matches Err(e) && e.kind == ErrorKind::BadInput && (e.name matches Some(n)
                        && n@ == "topics"@) && e.message@ == "Please add topics"@
                } else {
                    r matches Ok(v) && v.title@ == t && v.body@ == b && v.topics@.len()
                        == kept_topics(self.topics@).len() && (forall|k: int|
                        0 <= k < v.topics@.len() ==> (#[trigger] v.topics@[k])@ == kept_topics(
                            self.topics@,
                        )[k]) && v.user_details == self.user_details
                }
            }),
    {
        let title = chars_to_string(&trim_chars(&str_chars(self.title.as_str())));
        let body = chars_to_string(&trim_chars(&str_chars(self.body.as_str())));
        if title.as_str().unicode_len() == 0 {
            return Err(ApiError::field(ErrorKind::BadInput, "title", "Post title has no content"));
        }
        if body.as_str().unicode_len() == 0 {
            return Err(ApiError::field(ErrorKind::BadInput, "body", "Post body has no content"));
        }
        if title.as_str().unicode_len() > 100 {
            return Err(
                ApiError::field(
                    ErrorKind::BadInput,
                    "title",
                    "Post title should not have more 100 characters",
                ),
            );
        }
        if body.as_str().unicode_len() > 1000 {
            return Err(
                ApiError::field(
                    ErrorKind::BadInput,
                    "body",
                    "Post body should not have more 1000 characters",
                ),
            );
        }
        let ghost mapped = self.topics@.map_values(|s: String| normalize_topic(s@));
        let ghost keepp = |t: Seq<char>| t.len() > 0;
        let m: usize = self.topics.len();
        let mut kept: Vec<String> = Vec::new();
        let mut all_short = true;
        let mut k: usize = 0;
        while k < m
            invariant
                k <= m,
                m == self.topics@.len(),
                mapped == self.topics@.map_values(|s: String| normalize_topic(s@)),
                keepp == (|t: Seq<char>| t.len() > 0),
                all_short == (forall|i: int| 0 <= i < k ==> (#[trigger] mapped[i]).len() <= 50),
                kept@.map_values(|s: String| s@) == mapped.take(k as int).filter(keepp),
            decreases m - k,
        {
            let ns = normalize_topic_string(&self.topics[k]);
            let len: usize = ns.as_str().unicode_len();
            proof {
                assert(mapped[k as int] == normalize_topic(self.topics@[k as int]@));
                lemma_filter_take_step(mapped, keepp, k as int);
            }
            let ghost kept_before = kept@.map_values(|s: String| s@);
            if len > 50 {
                all_short = false;
            }
            if len > 0 {
                kept.push(ns);
                proof {
                    assert(kept@.map_values(|s: String| s@) =~= kept_before.push(ns@));
                }
            }
            k = k + 1;
        }
        proof {
            assert(mapped.take(m as int) =~= mapped);
            assert forall|i: int| 0 <= i < m implies (#[trigger] mapped[i]) == normalize_topic(
                self.topics@[i]@,
            ) by {}
            if all_short {
                assert forall|i: int| 0 <= i < m implies normalize_topic(
                    (#[trigger] self.topics@[i])@,
                ).len() <= 50 by {
                    assert(mapped[i].len() <= 50);
                }
                assert(topics_all_short(self.topics@));
            } else {
                let w = choose|w: int| 0 <= w < m && !((#[trigger] mapped[w]).len() <= 50);
                assert(normalize_topic(self.topics@[w]@).len() > 50);
                assert(!topics_all_short(self.topics@));
            }
            assert(kept@.map_values(|s: String| s@) == kept_topics(self.topics@));
            assert(kept@.map_values(|s: String| s@).len() == kept@.len());
        }
        if !all_short {
            return Err(
                ApiError::msg(
                    ErrorKind::BadInput,
                    "Topic names should not be more than 50 characters",
                ),
            );
        }
        if kept.len() == 0 {
            return Err(ApiError::field(ErrorKind::BadInput, "topics", "Please add topics"));
        }
        proof {
            assert(forall|j: int|
                0 <= j < kept@.len() ==> (#[trigger] kept@[j])@ == kept@.map_values(
                    |s: String| s@,
                )[j]);
        }
        Ok(
            CreatePostDetails {
                title,
                topics: kept,
                body,
                db_client: self.db_client,
                user_details: self.user_details,
                validated: Validated,
            },
        )
    }
}

/// Relies on `rand::Rng::gen_range`: the drawn value lies in the asked
/// range; which one comes back depends on the thread's generator.
#[verifier::external_body]
fn random_color_index() -> (r: u32)
    ensures
        r < 5,
{
    rand::thread_rng().gen_range(0..5)
}

/// The fixed map from a drawn index to the palette: a bijection on the
/// five indices.
pub open spec fn color_of_index(i: int) -> Color {
    if i == 0 {
        Color::Green
    } else if i == 1 {
        Color::Blue
    } else if i == 2 {
        Color::Yellow
    } else if i == 3 {
        Color::Purple
    } else {
        Color::Red
    }
}

impl<D, U, V> CreatePostDetails<D, U, V> {
    /// Draws the color a newly created topic row gets: some palette
    /// entry, by the fixed index map.
    fn get_random_color(&self) -> (c: Color)
        ensures
            exists|i: int| 0 <= i < 5 && c == color_of_index(i),
    {
        let i = random_color_index();
        let c = match i {
            0 => Color::Green,
            1 => Color::Blue,
            2 => Color::Yellow,
            3 => Color::Purple,
            _ => Color::Red,
        };
        proof {
            if i == 0 {
                assert(c == color_of_index(0));
            } else if i == 1 {
                assert(c == color_of_index(1));
            } else if i == 2 {
                assert(c == color_of_index(2));
            } else if i == 3 {
                assert(c == color_of_index(3));
            } else {
                assert(c == color_of_index(4));
            }
        }
        c
    }
}

/// Some link row ties the post to a topic row carrying the name.
pub open spec fn linked_to_name(
    pt: Seq<PostTopicRow>,
    topics: Seq<TopicRow>,
    pid: i32,
    nm: Seq<char>,
) -> bool {
    exists|j: int, j2: int|
        #![trigger pt[j], topics[j2]]
        {
            &&& 0 <= j < pt.len()
            &&& 0 <= j2 < topics.len()
            &&& pt[j].post_id == pid
            &&& topics[j2].id == pt[j].topic_id
            &&& topics[j2].name@ == nm
        }
}

fn link_exists(links: &Vec<PostTopicRow>, l: PostTopicRow) -> (r: bool)
    ensures
        r == links@.contains(l),
{
    let n: usize = links.len();
    let mut i: usize = 0;
    while i < n
        invariant
            i <= n,
            n == links@.len(),
            forall|j: int| 0 <= j < i ==> (#[trigger] links@[j]) != l,
        decreases n - i,
    {
        if links[i].post_id == l.post_id && links[i].topic_id == l.topic_id {
            proof {
                assert(links@[i as int] == l);
            }
            return true;
        }
        i = i + 1;
    }
    false
}

impl<'a> CreatePostDetails<WithDBClient, WithUserDetails<'a>, Validated> {
    /// Inserts the post row, upserts each topic row (a name conflict
    /// keeps the existing row, color included), and links the post to
    /// every named topic once.
    pub fn create_post(&self, store: &mut Store, now: i64) -> (r: Result<i32, ApiError>)
        requires
            old(store).wf(),
            self.topics@.len() >= 1,
            old(store).next_post_id < i32::MAX,
            old(store).next_topic_id + self.topics@.len() <= i32::MAX,
        ensures
            final(store).wf(),
            r matches Ok(id) && id == old(store).next_post_id,
            final(store).posts@.len() == old(store).posts@.len() + 1,
            final(store).posts@.take(old(store).posts@.len() as int) == old(store).posts@,
            final(store).posts@.last().id == old(store).next_post_id,
            final(store).posts@.last().title@ == self.title@,
            final(store).posts@.last().body@ == self.body@,
            final(store).posts@.last().user_id == self.user_details.0.id,
            final(store).posts@.last().created_at == now,
            final(store).next_post_id == old(store).next_post_id + 1,
            final(store).topics@.len() >= old(store).topics@.len(),
            final(store).topics@.take(old(store).topics@.len() as int) == old(store).topics@,
            forall|j: int|
                #![trigger final(store).topics@[j]]
                old(store).topics@.len() <= j < final(store).topics@.len() ==> {
                    &&& final(store).topics@[j].created_at == now
                    &&& final(store).topics@[j].id == old(store).next_topic_id + (j - old(store).topics@.len())
                    &&& name_in_list(self.topics@, final(store).topics@[j].name@)
                    &&& !has_topic_name(old(store).topics@, final(store).topics@[j].name@)
                },
            final(store).next_topic_id == old(store).next_topic_id + (final(store).topics@.len()
                - old(store).topics@.len()),
            forall|t: int|
                0 <= t < self.topics@.len() ==> has_topic_name(
                    final(store).topics@,
                    (#[trigger] self.topics@[t])@,
                ),
            final(store).posts_topics@.take(old(store).posts_topics@.len() as int) == old(store).posts_topics@,
            forall|j: int|
                #![trigger final(store).posts_topics@[j]]
                old(store).posts_topics@.len() <= j < final(store).posts_topics@.len() ==> {
                    &&& final(store).posts_topics@[j].post_id == old(store).next_post_id
                    &&& exists|j2: int|
                        0 <= j2 < final(store).topics@.len() && (#[trigger] final(store).topics@[j2]).id
                            == final(store).posts_topics@[j].topic_id && name_in_list(
                            self.topics@,
                            final(store).topics@[j2].name@,
                        )
                },
            forall|t: int|
                #![trigger self.topics@[t]]
                0 <= t < self.topics@.len() ==> linked_to_name(
                    final(store).posts_topics@,
                    final(store).topics@,
                    old(store).next_post_id,
                    self.topics@[t]@,
                ),
            final(store).users == old(store).users,
            final(store).comments == old(store).comments,
            final(store).saved_posts == old(store).saved_posts,
            final(store).next_user_id == old(store).next_user_id,
            final(store).next_comment_id == old(store).next_comment_id,
    {
        let post_id = store.next_post_id;
        let row = PostRow {
            id: post_id,
            title: self.title.clone(),
            body: self.body.clone(),
            user_id: self.user_details.0.id,
            created_at: now,
        };
        store.posts.push(row);
        store.next_post_id = post_id + 1;
        proof {
            assert(store.posts@.take(old(store).posts@.len() as int) =~= old(store).posts@);
        }
        let m: usize = self.topics.len();
        let mut k: usize = 0;
        while k < m
            invariant
                k <= m,
                m == self.topics@.len(),
                old(store).wf(),
                old(store).next_topic_id + m <= i32::MAX,
                store.users == old(store).users,
                store.comments == old(store).comments,
                store.saved_posts == old(store).saved_posts,
                store.posts_topics == old(store).posts_topics,
                store.next_user_id == old(store).next_user_id,
                store.next_comment_id == old(store).next_comment_id,
                store.posts@.len() == old(store).posts@.len() + 1,
                store.posts@.take(old(store).posts@.len() as int) == old(store).posts@,
                store.posts@.last().id == old(store).next_post_id,
                store.posts@.last().title@ == self.title@,
                store.posts@.last().body@ == self.body@,
                store.posts@.last().user_id == self.user_details.0.id,
                store.posts@.last().created_at == now,
                store.next_post_id == old(store).next_post_id + 1,
                store.topics@.len() >= old(store).topics@.len(),
                store.topics@.take(old(store).topics@.len() as int) == old(store).topics@,
                forall|j: int|
                    #![trigger store.topics@[j]]
                    old(store).topics@.len() <= j < store.topics@.len() ==> {
                        &&& store.topics@[j].created_at == now
                        &&& store.topics@[j].id == old(store).next_topic_id + (j - old(store).topics@.len())
                        &&& name_in_list(self.topics@, store.topics@[j].name@)
                        &&& !has_topic_name(old(store).topics@, store.topics@[j].name@)
                    },
                store.next_topic_id == old(store).next_topic_id + (store.topics@.len() - old(store).topics@.len()),
                store.topics@.len() - old(store).topics@.len() <= k,
                forall|t: int|
                    0 <= t < k ==> has_topic_name(store.topics@, (#[trigger] self.topics@[t])@),
                store.topics_wf(),
            decreases m - k,
        {
            let name = &self.topics[k];
            match store.find_topic_by_name(name) {
                Some(_) => {
                },
                None => {
                    let color = self.get_random_color();
                    let tid = store.next_topic_id;
                    let ghost topics_before = store.topics@;
                    store.topics.push(
                        TopicRow { id: tid, name: name.clone(), color, created_at: now },
                    );
                    store.next_topic_id = tid + 1;
                    proof {
                        assert(forall|j: int|
                            0 <= j < topics_before.len() ==> (#[trigger] store.topics@[j])
                                == topics_before[j]);
                        assert(store.topics@.take(old(store).topics@.len() as int) =~= old(
                            store,
                        ).topics@);
                        let last = store.topics@.len() - 1;
                        assert((#[trigger] store.topics@[last]).name@ == self.topics@[k as int]@);
                        assert(name_in_list(self.topics@, store.topics@[last].name@));
                        assert(!has_topic_name(topics_before, self.topics@[k as int]@));
                        assert forall|j: int|
                            0 <= j < old(store).topics@.len() implies !((#[trigger] old(
                            store,
                        ).topics@[j]).name@ == self.topics@[k as int]@) by {
                            assert(old(store).topics@[j] == topics_before[j]);
                        }
                        assert(!has_topic_name(old(store).topics@, self.topics@[k as int]@));
                        assert forall|t: int| 0 <= t < k implies has_topic_name(
                            store.topics@,
                            (#[trigger] self.topics@[t])@,
                        ) by {
                            let w = choose|w: int|
                                0 <= w < topics_before.len() && (#[trigger] topics_before[w]).name@
                                    == self.topics@[t]@;
                            assert(store.topics@[w].name@ == self.topics@[t]@);
                        }
                    }
                },
            }
            proof {
                assert(has_topic_name(store.topics@, self.topics@[k as int]@));
            }
            k = k + 1;
        }
        let ghost topics2 = store.topics@;
        let ghost mut wit: Seq<int> = Seq::empty();
        let ghost mut twit: Seq<int> = Seq::empty();
        let mut k2: usize = 0;
        while k2 < m
            invariant
                k2 <= m,
                m == self.topics@.len(),
                post_id == old(store).next_post_id,
                old(store).wf(),
                store.users == old(store).users,
                store.comments == old(store).comments,
                store.saved_posts == old(store).saved_posts,
                store.next_user_id == old(store).next_user_id,
                store.next_comment_id == old(store).next_comment_id,
                store.posts@.len() == old(store).posts@.len() + 1,
                store.posts@.take(old(store).posts@.len() as int) == old(store).posts@,
                store.posts@.last().id == old(store).next_post_id,
                store.posts@.last().title@ == self.title@,
                store.posts@.last().body@ == self.body@,
                store.posts@.last().user_id == self.user_details.0.id,
                store.posts@.last().created_at == now,
                store.next_post_id == old(store).next_post_id + 1,
                store.topics@ == topics2,
                store.next_topic_id == old(store).next_topic_id + (store.topics@.len() - old(store).topics@.len()),
                store.topics@.len() >= old(store).topics@.len(),
                store.topics@.take(old(store).topics@.len() as int) == old(store).topics@,
                forall|j: int|
                    #![trigger store.topics@[j]]
                    old(store).topics@.len() <= j < store.topics@.len() ==> {
                        &&& store.topics@[j].created_at == now
                        &&& store.topics@[j].id == old(store).next_topic_id + (j - old(store).topics@.len())
                        &&& name_in_list(self.topics@, store.topics@[j].name@)
                        &&& !has_topic_name(old(store).topics@, store.topics@[j].name@)
                    },
                forall|t: int|
                    0 <= t < m ==> has_topic_name(store.topics@, (#[trigger] self.topics@[t])@),
                store.topics_wf(),
                store.posts_topics@.len() >= old(store).posts_topics@.len(),
                store.posts_topics@.take(old(store).posts_topics@.len() as int) == old(store).posts_topics@,
                forall|j: int|
                    #![trigger store.posts_topics@[j]]
                    old(store).posts_topics@.len() <= j < store.posts_topics@.len() ==> {
                        &&& store.posts_topics@[j].post_id == old(store).next_post_id
                        &&& exists|j2: int|
                            0 <= j2 < store.topics@.len() && (#[trigger] store.topics@[j2]).id
                                == store.posts_topics@[j].topic_id && name_in_list(
                                self.topics@,
                                store.topics@[j2].name@,
                            )
                    },
                wit.len() == k2,
                twit.len() == k2,
                forall|t: int|
                    #![trigger wit[t]]
                    0 <= t < k2 ==> {
                        &&& 0 <= wit[t] < store.posts_topics@.len()
                        &&& 0 <= twit[t] < store.topics@.len()
                        &&& store.posts_topics@[wit[t]].post_id == old(store).next_post_id
                        &&& store.topics@[twit[t]].id == store.posts_topics@[wit[t]].topic_id
                        &&& store.topics@[twit[t]].name@ == self.topics@[t]@
                    },
                store.posts_topics_wf(),
            decreases m - k2,
        {
            let name = &self.topics[k2];
            match store.find_topic_by_name(name) {
                Some(j) => {
                    let tid = store.topics[j].id;
                    let link = PostTopicRow { post_id, topic_id: tid };
                    let ghost pt_before = store.posts_topics@;
                    let already = link_exists(&store.posts_topics, link);
                    if !already {
                        store.posts_topics.push(link);
                        proof {
                            assert(forall|a: int|
                                0 <= a < pt_before.len() ==> (#[trigger] store.posts_topics@[a])
                                    == pt_before[a]);
                            assert(store.posts_topics@.take(
                                old(store).posts_topics@.len() as int,
                            ) =~= old(store).posts_topics@);
                            assert forall|a: int, b: int|
                                #![trigger store.posts_topics@[a], store.posts_topics@[b]]
                                0 <= a < b < store.posts_topics@.len() implies store.posts_topics@[a]
                                != store.posts_topics@[b] by {
                                if b == store.posts_topics@.len() - 1 {
                                    assert(!pt_before.contains(link));
                                    assert(store.posts_topics@[a] == pt_before[a]);
                                }
                            }
                        }
                    }
                    proof {
                        let cur = store.posts_topics@;
                        assert(forall|a: int|
                            0 <= a < pt_before.len() ==> (#[trigger] cur[a]) == pt_before[a]);
                        assert((#[trigger] store.topics@[j as int]).id == tid
                            && store.topics@[j as int].name@ == self.topics@[k2 as int]@);
                        assert(name_in_list(self.topics@, store.topics@[j as int].name@));
                        // where this iteration's link now stands
                        let widx: int = if already {
                            choose|w: int| 0 <= w < pt_before.len() && pt_before[w] == link
                        } else {
                            cur.len() - 1
                        };
                        assert(0 <= widx < cur.len() && (#[trigger] cur[widx]) == link);
                        // the characterization of the rows beyond the old table
                        assert forall|jj: int|
                            #![trigger cur[jj]]
                            old(store).posts_topics@.len() <= jj < cur.len() implies (cur[jj].post_id
                            == old(store).next_post_id && (exists|j2: int|
                            0 <= j2 < store.topics@.len() && (#[trigger] store.topics@[j2]).id
                                == cur[jj].topic_id && name_in_list(
                                self.topics@,
                                store.topics@[j2].name@,
                            ))) by {
                            if jj < pt_before.len() {
                                assert(cur[jj] == pt_before[jj]);
                                assert(pt_before[jj].post_id == old(store).next_post_id);
                                let w2 = choose|w2: int|
                                    0 <= w2 < store.topics@.len() && (#[trigger] store.topics@[w2]).id
                                        == pt_before[jj].topic_id && name_in_list(
                                        self.topics@,
                                        store.topics@[w2].name@,
                                    );
                                assert(store.topics@[w2].id == cur[jj].topic_id);
                            } else {
                                assert(cur[jj] == link);
                                assert(store.topics@[j as int].id == cur[jj].topic_id);
                            }
                        }
                        // record where this name's link and topic stand
                        wit = wit.push(widx);
                        twit = twit.push(j as int);
                        assert forall|t: int| #![trigger wit[t]] 0 <= t < k2 + 1 implies {
                            &&& 0 <= wit[t] < cur.len()
                            &&& 0 <= twit[t] < store.topics@.len()
                            &&& cur[wit[t]].post_id == old(store).next_post_id
                            &&& store.topics@[twit[t]].id == cur[wit[t]].topic_id
                            &&& store.topics@[twit[t]].name@ == self.topics@[t]@
                        } by {
                            if t < k2 {
                                assert(cur[wit[t]] == pt_before[wit[t]]);
                            } else {
                                assert(cur[wit[t]] == link);
                            }
                        }
                    }
                },
                None => {
                    proof {
                        assert(has_topic_name(store.topics@, self.topics@[k2 as int]@));
                        assert(false);
                    }
                },
            }
            k2 = k2 + 1;
        }
        proof {
            assert forall|t: int| #![trigger self.topics@[t]] 0 <= t < self.topics@.len() implies
                linked_to_name(
                store.posts_topics@,
                store.topics@,
                old(store).next_post_id,
                self.topics@[t]@,
            ) by {
                assert(0 <= wit[t] < store.posts_topics@.len());
                assert(0 <= twit[t] < store.topics@.len());
                assert(store.posts_topics@[wit[t]].post_id == old(store).next_post_id);
                assert(store.topics@[twit[t]].id == store.posts_topics@[wit[t]].topic_id);
                assert(store.topics@[twit[t]].name@ == self.topics@[t]@);
            }
        }
        proof {
            assert(forall|i: int|
                0 <= i < old(store).posts@.len() ==> (#[trigger] store.posts@[i]) == old(
                    store,
                ).posts@.take(old(store).posts@.len() as int)[i]);
            assert(forall|i: int|
                0 <= i < old(store).posts@.len() ==> (#[trigger] store.posts@[i]) == old(
                    store,
                ).posts@[i]);
            assert forall|i: int, j: int|
                #![trigger store.posts@[i].id, store.posts@[j].id]
                0 <= i < j < store.posts@.len() implies store.posts@[i].id != store.posts@[j].id by {
                if j == store.posts@.len() - 1 {
                    assert(store.posts@[i] == old(store).posts@[i]);
                    assert(old(store).posts@[i].id < old(store).next_post_id);
                } else {
                    assert(store.posts@[i] == old(store).posts@[i]);
                    assert(store.posts@[j] == old(store).posts@[j]);
                    assert(old(store).posts@[i].id != old(store).posts@[j].id);
                }
            }
            assert forall|i: int|
                0 <= i < store.posts@.len() implies 1 <= (#[trigger] store.posts@[i]).id
                < store.next_post_id by {
                if i < store.posts@.len() - 1 {
                    assert(store.posts@[i] == old(store).posts@[i]);
                }
            }
            assert forall|i: int|
                0 <= i < store.comments@.len() implies crate::store::comment_parent_ok(
                store.comments@,
                #[trigger] store.comments@[i],
            ) by {
                assert(store.comments@ == old(store).comments@);
            }
        }
        Ok(post_id)
    }
}


// ---------- fetching post lists ----------

/// The post-list request as it moves through the pipeline. The topics
/// filter is accepted but, as in the fetch itself, not applied.
pub struct FetchPosts<D, U, V> {
    pub sort: Option<Sort>,
    pub limit: Option<i64>,
    pub page: Option<i64>,
    pub topics: Option<Vec<String>>,
    pub db_client: D,
    pub user_details: U,
    pub validated: V,
}

/// The page size asked for, twenty when unspecified.
pub open spec fn eff_limit(limit: Option<i64>) -> int {
    match limit {
        Some(l) => l as int,
        None => 20,
    }
}

/// The page asked for, the first when unspecified.
pub open spec fn eff_page(page: Option<i64>) -> int {
    match page {
        Some(p) => p as int,
        None => 1,
    }
}

/// How many rows the page skips.
pub open spec fn page_offset(page: Option<i64>, limit: Option<i64>) -> int {
    (eff_page(page) - 1) * eff_limit(limit)
}

/// The window of the sorted list that the page covers.
pub open spec fn page_window(s: Seq<FetchPostsResponse>, offset: int, lim: int) -> Seq<
    FetchPostsResponse,
>
    recommends
        0 <= offset,
        0 <= lim,
{
    let lo = if offset > s.len() {
        s.len() as int
    } else {
        offset
    };
    let hi = if offset + lim > s.len() {
        s.len() as int
    } else {
        offset + lim
    };
    s.subrange(lo, hi)
}

/// What a post-list fetch returns: the window of some ordering, by the
/// mode, of exactly the assembled rows the selector lists.
pub open spec fn fetch_posts_result_ok(
    r: Seq<FetchPostsResponse>,
    s: Store,
    sel: PostSelector,
    viewer: Option<i32>,
    count_saves: bool,
    mode: Option<Sort>,
    offset: int,
    lim: int,
) -> bool {
    exists|full: Seq<FetchPostsResponse>, sorted: Seq<FetchPostsResponse>|
        #![trigger full.to_multiset(), sorted.to_multiset()]
        {
            &&& responses_match(full, s, sel, viewer, count_saves)
            &&& sorted.to_multiset() == full.to_multiset()
            &&& sorted_by(sorted, |a: FetchPostsResponse, b: FetchPostsResponse| post_le(mode, a, b))
            &&& r == page_window(sorted, offset, lim)
        }
}

proof fn lemma_page_product_bounds(a: int, b: int)
    requires
        -0x8000_0000_0000_0001 <= a <= 0x7fff_ffff_ffff_ffff,
        0 <= b <= 0x7fff_ffff_ffff_ffff,
    ensures
        a * b <= 0x4000_0000_0000_0000_0000_0000_0000_0000,
        a * b >= -0x4000_0000_0000_0000_0000_0000_0000_0000,
{
    assert(a * b <= 0x4000_0000_0000_0000_0000_0000_0000_0000 && a * b
        >= -0x4000_0000_0000_0000_0000_0000_0000_0000) by (nonlinear_arith)
        requires
            -0x8000_0000_0000_0001 <= a <= 0x7fff_ffff_ffff_ffff,
            0 <= b <= 0x7fff_ffff_ffff_ffff,
    ;
}

/// Sorts, then cuts the asked page out of the assembled list.
fn fetch_posts_window(
    store: &Store,
    sel: PostSelector,
    viewer: Option<i32>,
    count_saves: bool,
    mode: Option<Sort>,
    limit: Option<i64>,
    page: Option<i64>,
) -> (r: Result<Vec<FetchPostsResponse>, ApiError>)
    requires
        store.comments@.len() <= 0x7fff_ffff_ffff_ffff,
        store.saved_posts@.len() <= 0x7fff_ffff_ffff_ffff,
    ensures
        eff_limit(limit) < 0 ==> (r matches Err(e) && e.kind == ErrorKind::ServerFault && e.name
            is None && e.message@ == "LIMIT must not be negative"@),
        eff_limit(limit) >= 0 && page_offset(page, limit) < 0 ==> (r matches Err(e) && e.kind
            == ErrorKind::ServerFault && e.name is None && e.message@
            == "OFFSET must not be negative"@),
        eff_limit(limit) >= 0 && page_offset(page, limit) >= 0 ==> (r matches Ok(list)
            && fetch_posts_result_ok(
            list@,
            *store,
            sel,
            viewer,
            count_saves,
            mode,
            page_offset(page, limit),
            eff_limit(limit),
        )),
{
    let lim: i64 = match limit {
        Some(l) => l,
        None => 20,
    };
    let pg: i64 = match page {
        Some(p) => p,
        None => 1,
    };
    if lim < 0 {
        return Err(ApiError::msg(ErrorKind::ServerFault, "LIMIT must not be negative"));
    }
    proof {
        lemma_page_product_bounds(pg as int - 1, lim as int);
    }
    let off: i128 = (pg as i128 - 1) * (lim as i128);
    if off < 0 {
        return Err(ApiError::msg(ErrorKind::ServerFault, "OFFSET must not be negative"));
    }
    let mut list = collect_posts(store, sel, viewer, count_saves);
    let ghost full = list@;
    sort_posts(&mut list, &mode);
    let ghost sorted = list@;
    let n: usize = list.len();
    let lo: usize = if off >= n as i128 {
        n
    } else {
        off as usize
    };
    let hi_w: i128 = off + (lim as i128);
    let hi: usize = if hi_w >= n as i128 {
        n
    } else {
        hi_w as usize
    };
    proof {
        assert(off as int == page_offset(page, limit));
        assert(lo as int == if page_offset(page, limit) > sorted.len() {
            sorted.len() as int
        } else {
            page_offset(page, limit)
        });
        assert(hi as int == if page_offset(page, limit) + eff_limit(limit) > sorted.len() {
            sorted.len() as int
        } else {
            page_offset(page, limit) + eff_limit(limit)
        });
    }
    let mut out: Vec<FetchPostsResponse> = Vec::new();
    let mut taken: usize = 0;
    while taken < hi - lo
        invariant
            lo <= hi <= n,
            taken <= hi - lo,
            sorted.len() == n,
            out@ == sorted.subrange(lo as int, lo + taken),
            list@ == sorted.subrange(0, lo as int) + sorted.subrange(lo + taken, n as int),
        decreases hi - lo - taken,
    {
        proof {
            assert(list@.len() == lo + (n - lo - taken));
            assert(list@[lo as int] == sorted.subrange(lo + taken, n as int)[0]);
            assert(list@[lo as int] == sorted[lo + taken]);
        }
        let x = list.remove(lo);
        out.push(x);
        proof {
            assert(out@ =~= sorted.subrange(lo as int, lo + taken + 1));
            assert(list@ =~= sorted.subrange(0, lo as int) + sorted.subrange(
                lo + taken + 1,
                n as int,
            ));
        }
        taken = taken + 1;
    }
    proof {
        assert(out@ =~= page_window(sorted, page_offset(page, limit), eff_limit(limit)));
        assert(fetch_posts_result_ok(
            out@,
            *store,
            sel,
            viewer,
            count_saves,
            mode,
            page_offset(page, limit),
            eff_limit(limit),
        )) by {
            assert(responses_match(full, *store, sel, viewer, count_saves));
            assert(sorted.to_multiset() == full.to_multiset());
            assert(sorted_by(
                sorted,
                |a: FetchPostsResponse, b: FetchPostsResponse| post_le(mode, a, b),
            ));
        }
    }
    Ok(out)
}

impl<U, V> FetchPosts<NoDBClient, U, V> {
    /// Attaches the store capability; the store value itself is handed to
    /// the fetch.
    pub fn add_db_client(self) -> (r: FetchPosts<WithDBClient, U, V>)
        ensures
            r.sort == self.sort,
            r.limit == self.limit,
            r.page == self.page,
            r.topics == self.topics,
            r.user_details == self.user_details,
            r.validated == self.validated,
    {
        FetchPosts {
            sort: self.sort,
            limit: self.limit,
            page: self.page,
            topics: self.topics,
            db_client: WithDBClient,
            user_details: self.user_details,
            validated: self.validated,
        }
    }
}

impl<D, V> FetchPosts<D, NoUserDetails, V> {
    /// Binds the authenticated caller to the query.
    pub fn add_user_details<'a>(self, user_details: &'a UserAuthDetails) -> (r: FetchPosts<
        D,
        WithUserDetails<'a>,
        V,
    >)
        ensures
            r.sort == self.sort,
            r.limit == self.limit,
            r.page == self.page,
            r.topics == self.topics,
            r.db_client == self.db_client,
            r.user_details.0 == user_details,
            r.validated == self.validated,
    {
        FetchPosts {
            sort: self.sort,
            limit: self.limit,
            page: self.page,
            topics: self.topics,
            db_client: self.db_client,
            user_details: WithUserDetails(user_details),
            validated: self.validated,
        }
    }
}

impl<D, U> FetchPosts<D, U, NotValidated> {
    /// A page of more than fifty posts is refused.
    pub fn validate(self) -> (r: Result<FetchPosts<D, U, Validated>, ApiError>)
        ensures
            (self.limit matches Some(l) && l > 50) ==> (r matches Err(e) && e.kind
                == ErrorKind::BadInput && e.name is None && e.message@
                == "Cannot retrieve more than 50 posts"@),
            !(self.limit matches Some(l) && l > 50) ==> (r matches Ok(q) && q.sort == self.sort
                && q.limit == self.limit && q.page == self.page && q.topics == self.topics
                && q.db_client == self.db_client && q.user_details == self.user_details),
    {
        match self.limit {
            Some(l) if l > 50 => Err(
                ApiError::msg(ErrorKind::BadInput, "Cannot retrieve more than 50 posts"),
            ),
            _ => Ok(
                FetchPosts {
                    sort: self.sort,
                    limit: self.limit,
                    page: self.page,
                    topics: self.topics,
                    db_client: self.db_client,
                    user_details: self.user_details,
                    validated: Validated,
                },
            ),
        }
    }
}

impl FetchPosts<WithDBClient, NoUserDetails, Validated> {
    /// The anonymous list fetch: no saved flags, saves counted.
    pub fn fetch_posts(&self, store: &Store) -> (r: Result<Vec<FetchPostsResponse>, ApiError>)
        requires
            store.comments@.len() <= 0x7fff_ffff_ffff_ffff,
            store.saved_posts@.len() <= 0x7fff_ffff_ffff_ffff,
        ensures
            eff_limit(self.limit) >= 0 && page_offset(self.page, self.limit) >= 0 ==> (r matches Ok(
                list,
            ) && fetch_posts_result_ok(
                list@,
                *store,
                PostSelector::All,
                None,
                true,
                self.sort,
                page_offset(self.page, self.limit),
                eff_limit(self.limit),
            )),
            eff_limit(self.limit) < 0 || page_offset(self.page, self.limit) < 0 ==> (r matches Err(
                e,
            ) && e.kind == ErrorKind::ServerFault),
    {
        fetch_posts_window(store, PostSelector::All, None, true, self.sort, self.limit, self.page)
    }
}

impl<'a> FetchPosts<WithDBClient, WithUserDetails<'a>, Validated> {
    /// The signed-in list fetch: saved flags relative to the caller.
    pub fn fetch_posts(&self, store: &Store) -> (r: Result<Vec<FetchPostsResponse>, ApiError>)
        requires
            store.comments@.len() <= 0x7fff_ffff_ffff_ffff,
            store.saved_posts@.len() <= 0x7fff_ffff_ffff_ffff,
        ensures
            eff_limit(self.limit) >= 0 && page_offset(self.page, self.limit) >= 0 ==> (r matches Ok(
                list,
            ) && fetch_posts_result_ok(
                list@,
                *store,
                PostSelector::All,
                Some(self.user_details.0.id),
                true,
                self.sort,
                page_offset(self.page, self.limit),
                eff_limit(self.limit),
            )),
            eff_limit(self.limit) < 0 || page_offset(self.page, self.limit) < 0 ==> (r matches Err(
                e,
            ) && e.kind == ErrorKind::ServerFault),
    {
        fetch_posts_window(
            store,
            PostSelector::All,
            Some(self.user_details.0.id),
            true,
            self.sort,
            self.limit,
            self.page,
        )
    }
}

// ---------- fetching one post ----------

/// The single-post fetch: the target id and the caller, when signed in.
pub struct FetchPost {
    pub user_id: Option<i32>,
    pub id: i32,
}

impl FetchPost {
    /// The viewer id the saved flag is computed against: the store's
    /// never-assigned zero when nobody is signed in.
    pub open spec fn viewer_spec(self) -> i32 {
        match self.user_id {
            Some(v) => v,
            None => 0,
        }
    }

    /// Fetches the one post, assembled against the store; a missing or
    /// join-invisible post reads as not found.
    pub fn exec(&self, store: &Store) -> (r: Result<FetchPostsResponse, ApiError>)
        requires
            store.comments@.len() <= 0x7fff_ffff_ffff_ffff,
            store.saved_posts@.len() <= 0x7fff_ffff_ffff_ffff,
        ensures
            match r {
                Ok(resp) => exists|i: int|
                    0 <= i < store.posts@.len() && (#[trigger] store.posts@[i]).id == self.id
                        && post_visible(*store, store.posts@[i]) && resp_matches_post(
                        resp,
                        store.posts@[i],
                        *store,
                        Some(self.viewer_spec()),
                        true,
                    ),
                Err(e) => {
                    &&& e.kind == ErrorKind::NotFound
                    &&& e.message@ == "No post found with such id"@
                    &&& forall|i: int|
                        0 <= i < store.posts@.len() && (#[trigger] store.posts@[i]).id == self.id
                            ==> !post_visible(*store, store.posts@[i])
                },
            },
    {
        let viewer: i32 = match self.user_id {
            Some(v) => v,
            None => 0,
        };
        let n: usize = store.posts.len();
        let mut k: usize = 0;
        while k < n
            invariant
                k <= n,
                n == store.posts@.len(),
                viewer == self.viewer_spec(),
                store.comments@.len() <= 0x7fff_ffff_ffff_ffff,
                store.saved_posts@.len() <= 0x7fff_ffff_ffff_ffff,
                forall|i: int|
                    0 <= i < k && (#[trigger] store.posts@[i]).id == self.id ==> !post_visible(
                        *store,
                        store.posts@[i],
                    ),
            decreases n - k,
        {
            let p = &store.posts[k];
            if p.id == self.id {
                match assemble_post(store, p, Some(viewer), true) {
                    Some(resp) => {
                        return Ok(resp);
                    },
                    None => {
                    },
                }
            }
            k = k + 1;
        }
        Err(ApiError::msg(ErrorKind::NotFound, "No post found with such id"))
    }
}

// ---------- saving and unsaving ----------

/// The save command: the caller and the post to bookmark.
pub struct SavePost {
    pub user_details: UserAuthDetails,
    pub id: i32,
}

impl SavePost {
    /// The idempotent save: inserting an already-present pair changes
    /// nothing.
    pub fn exec(&self, store: &mut Store) -> (r: Result<(), ApiError>)
        requires
            old(store).wf(),
        ensures
            final(store).wf(),
            r is Ok,
            final(store).saved_posts@ == spec_save(
                old(store).saved_posts@,
                self.user_details.id,
                self.id,
            ),
            final(store).users == old(store).users,
            final(store).posts == old(store).posts,
            final(store).topics == old(store).topics,
            final(store).posts_topics == old(store).posts_topics,
            final(store).comments == old(store).comments,
            final(store).next_user_id == old(store).next_user_id,
            final(store).next_post_id == old(store).next_post_id,
            final(store).next_topic_id == old(store).next_topic_id,
            final(store).next_comment_id == old(store).next_comment_id,
    {
        if !store.has_saved(self.user_details.id, self.id) {
            let ghost before = store.saved_posts@;
            store.saved_posts.push(
                SavedPostRow { user_id: self.user_details.id, post_id: self.id },
            );
            proof {
                let pair = SavedPostRow { user_id: self.user_details.id, post_id: self.id };
                assert forall|i: int, j: int|
                    #![trigger store.saved_posts@[i], store.saved_posts@[j]]
                    0 <= i < j < store.saved_posts@.len() implies store.saved_posts@[i]
                    != store.saved_posts@[j] by {
                    if j == store.saved_posts@.len() - 1 {
                        assert(store.saved_posts@[i] == before[i]);
                        assert(!has_save(before, self.user_details.id, self.id));
                    }
                }
            }
        }
        Ok(())
    }

    /// The unconditional delete: afterwards no row carries the pair, and
    /// deleting a pair that was never saved is a no-op.
    pub fn exec_reverse(&self, store: &mut Store) -> (r: Result<(), ApiError>)
        requires
            old(store).wf(),
        ensures
            final(store).wf(),
            r is Ok,
            final(store).saved_posts@ == spec_unsave(
                old(store).saved_posts@,
                self.user_details.id,
                self.id,
            ),
            final(store).users == old(store).users,
            final(store).posts == old(store).posts,
            final(store).topics == old(store).topics,
            final(store).posts_topics == old(store).posts_topics,
            final(store).comments == old(store).comments,
            final(store).next_user_id == old(store).next_user_id,
            final(store).next_post_id == old(store).next_post_id,
            final(store).next_topic_id == old(store).next_topic_id,
            final(store).next_comment_id == old(store).next_comment_id,
    {
        let ghost pair = SavedPostRow { user_id: self.user_details.id, post_id: self.id };
        let ghost keep = |rr: SavedPostRow| rr != pair;
        let n: usize = store.saved_posts.len();
        let mut out: Vec<SavedPostRow> = Vec::new();
        let mut k: usize = 0;
        while k < n
            invariant
                k <= n,
                n == store.saved_posts@.len(),
                old(store).wf(),
                store.saved_posts == old(store).saved_posts,
                pair == (SavedPostRow { user_id: self.user_details.id, post_id: self.id }),
                keep == (|rr: SavedPostRow| rr != pair),
                out@ == store.saved_posts@.take(k as int).filter(keep),
                forall|i: int|
                    0 <= i < out@.len() ==> exists|j: int|
                        0 <= j < k && (#[trigger] out@[i]) == store.saved_posts@[j],
                forall|i: int, j: int|
                    #![trigger out@[i], out@[j]]
                    0 <= i < j < out@.len() ==> out@[i] != out@[j],
            decreases n - k,
        {
            proof {
                lemma_filter_take_step(store.saved_posts@, keep, k as int);
            }
            let ghost out_before = out@;
            let row = store.saved_posts[k];
            if !(row.user_id == self.user_details.id && row.post_id == self.id) {
                out.push(row);
                proof {
                    assert((#[trigger] out@[out@.len() - 1]) == store.saved_posts@[k as int]);
                    assert forall|i: int| 0 <= i < out_before.len() implies (
                    #[trigger] out_before[i]) != store.saved_posts@[k as int] by {
                        let w = choose|w: int|
                            0 <= w < k && out_before[i] == store.saved_posts@[w];
                        assert(store.saved_posts@[w] != store.saved_posts@[k as int]);
                    }
                    assert(forall|i: int|
                        0 <= i < out_before.len() ==> (#[trigger] out@[i]) == out_before[i]);
                }
            } else {
                proof {
                    assert(row == pair);
                }
            }
            k = k + 1;
        }
        proof {
            assert(store.saved_posts@.take(n as int) =~= store.saved_posts@);
        }
        store.saved_posts = out;
        Ok(())
    }
}

} // verus!
