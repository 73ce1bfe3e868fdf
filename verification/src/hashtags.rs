//! Trending-topic discovery: topics created in the trailing two-day
//! window, scored by how many post links they carry, highest first,
//! capped at seven.

use vstd::prelude::*;
use vstd::multiset::Multiset;
use vstd::relations::sorted_by;

use crate::handler_utils::{NoDBClient, WithDBClient};
use crate::lemmas::lemma_filter_take_step;
use crate::store::{PostTopicRow, Store, TopicRow};
use crate::{ApiError, ErrorKind};

verus! {

/// The window a topic's creation must fall in: the trailing 48 hours.
pub const TRENDING_WINDOW_SECONDS: i64 = 172800;

/// One trending entry as the response carries it.
pub struct TrendingHashtagsResponse {
    pub name: String,
    pub color: String,
}

/// The columns of one fetched trending row, each already decoded or not.
pub struct TrendingRowRaw {
    pub name: Option<String>,
    pub color: Option<String>,
}

impl TrendingHashtagsResponse {
    /// Maps one raw row to a trending entry; the first missing column
    /// decides the error.
    pub fn value(row: &TrendingRowRaw) -> (res: Result<TrendingHashtagsResponse, ApiError>)
        ensures
            res is Ok <==> (row.name is Some && row.color is Some),
            match res {
                Ok(out) => (row.name matches Some(n) && out.name@ == n@) && (row.color matches Some(
                    c,
                ) && out.color@ == c@),
                Err(e) => {
                    &&& e.kind == ErrorKind::ServerFault
                    &&& if row.name is None {
                        e.message@ == "Error converting hashtag name postgres to rust type"@
                    } else {
                        e.message@ == "Error converting color postgres to rust type"@
                    }
                },
            },
    {
        let name = match &row.name {
            Some(n) => n.clone(),
            None => {
                return Err(
                    ApiError::msg(
                        ErrorKind::ServerFault,
                        "Error converting hashtag name postgres to rust type",
                    ),
                );
            },
        };
        match &row.color {
            Some(c) => Ok(TrendingHashtagsResponse { name, color: c.clone() }),
            None => Err(
                ApiError::msg(
                    ErrorKind::ServerFault,
                    "Error converting color postgres to rust type",
                ),
            ),
        }
    }
}

// ---------- what trending discovery owes to the store ----------

/// How many post links carry the topic.
pub open spec fn link_count(pt: Seq<PostTopicRow>, topic_id: i32) -> int {
    pt.filter(|l: PostTopicRow| l.topic_id == topic_id).len() as int
}

pub open spec fn topic_in_window(t: TopicRow, now: int) -> bool {
    now - t.created_at < TRENDING_WINDOW_SECONDS
}

/// The topics trending discovery ranks: created in the window and linked
/// to at least one post.
pub open spec fn trending_topics(s: Store, now: int) -> Seq<TopicRow> {
    s.topics@.filter(
        |t: TopicRow| topic_in_window(t, now) && link_count(s.posts_topics@, t.id) > 0,
    )
}

/// Higher-scored topics first; ids break ties.
pub open spec fn trend_le(pt: Seq<PostTopicRow>, a: TopicRow, b: TopicRow) -> bool {
    link_count(pt, b.id) < link_count(pt, a.id) || (link_count(pt, a.id) == link_count(pt, b.id)
        && a.id <= b.id)
}

/// What the trending fetch returns: the first seven of an ordering, by
/// score, of exactly the topics the window admits.
pub open spec fn trending_result_ok(
    r: Seq<TrendingHashtagsResponse>,
    s: Store,
    now: int,
) -> bool {
    exists|sorted: Seq<TopicRow>|
        #![trigger sorted.to_multiset()]
        {
            &&& sorted.to_multiset() == trending_topics(s, now).to_multiset()
            &&& sorted_by(sorted, |a: TopicRow, b: TopicRow| trend_le(s.posts_topics@, a, b))
            &&& r.len() == if sorted.len() > 7 {
                7int
            } else {
                sorted.len() as int
            }
            &&& forall|k: int|
                0 <= k < r.len() ==> (#[trigger] r[k]).name@ == sorted[k].name@ && r[k].color@
                    == sorted[k].color.name_spec()
        }
}

fn count_links(pt: &Vec<PostTopicRow>, topic_id: i32) -> (r: usize)
    ensures
        r as int == link_count(pt@, topic_id),
{
    let ghost pred = |l: PostTopicRow| l.topic_id == topic_id;
    let n: usize = pt.len();
    let mut count: usize = 0;
    let mut k: usize = 0;
    while k < n
        invariant
            k <= n,
            n == pt@.len(),
            pred == (|l: PostTopicRow| l.topic_id == topic_id),
            count as int == pt@.take(k as int).filter(pred).len(),
            count <= k,
        decreases n - k,
    {
        proof {
            lemma_filter_take_step(pt@, pred, k as int);
        }
        if pt[k].topic_id == topic_id {
            count = count + 1;
        }
        k = k + 1;
    }
    proof {
        assert(pt@.take(n as int) =~= pt@);
    }
    count
}

fn trend_le_exec(pt: &Vec<PostTopicRow>, a: &TopicRow, b: &TopicRow) -> (r: bool)
    ensures
        r == trend_le(pt@, *a, *b),
{
    let ca = count_links(pt, a.id);
    let cb = count_links(pt, b.id);
    cb < ca || (ca == cb && a.id <= b.id)
}

proof fn lemma_trend_le_total(pt: Seq<PostTopicRow>)
    ensures
        forall|a: TopicRow, b: TopicRow|
            #[trigger] trend_le(pt, a, b) || #[trigger] trend_le(pt, b, a),
        forall|a: TopicRow, b: TopicRow, c: TopicRow|
            #![trigger trend_le(pt, a, b), trend_le(pt, b, c)]
            trend_le(pt, a, b) && trend_le(pt, b, c) ==> trend_le(pt, a, c),
{
}

/// Insertion sort of the candidate topics by score.
fn sort_trending(v: &mut Vec<TopicRow>, pt: &Vec<PostTopicRow>)
    ensures
        sorted_by(final(v)@, |a: TopicRow, b: TopicRow| trend_le(pt@, a, b)),
        final(v)@.to_multiset() == old(v)@.to_multiset(),
        final(v)@.len() == old(v)@.len(),
{
    broadcast use vstd::seq_lib::group_to_multiset_ensures;

    let ghost orig = v@;
    let ghost le = |a: TopicRow, b: TopicRow| trend_le(pt@, a, b);
    proof {
        lemma_trend_le_total(pt@);
    }
    let mut out: Vec<TopicRow> = Vec::new();
    while v.len() > 0
        invariant
            out@.to_multiset().add(v@.to_multiset()) =~= orig.to_multiset(),
            out@.len() + v@.len() == orig.len(),
            sorted_by(out@, le),
            le == (|a: TopicRow, b: TopicRow| trend_le(pt@, a, b)),
            forall|a: TopicRow, b: TopicRow| #[trigger] le(a, b) || #[trigger] le(b, a),
            forall|a: TopicRow, b: TopicRow, c: TopicRow|
                #![trigger le(a, b), le(b, c)]
                le(a, b) && le(b, c) ==> le(a, c),
        decreases v@.len(),
    {
        let ghost v_before = v@;
        let x = v.remove(0);
        let mut pos: usize = 0;
        while pos < out.len() && trend_le_exec(pt, &out[pos], &x)
            invariant
                pos <= out@.len(),
                forall|p: int| 0 <= p < pos ==> le(#[trigger] out@[p], x),
                le == (|a: TopicRow, b: TopicRow| trend_le(pt@, a, b)),
            decreases out@.len() - pos,
        {
            pos = pos + 1;
        }
        let ghost out_before = out@;
        out.insert(pos, x);
        proof {
            broadcast use vstd::multiset::group_multiset_axioms;

            assert(sorted_by(out@, le)) by {
                assert forall|p: int, q: int| 0 <= p < q < out@.len() implies le(
                    out@[p],
                    out@[q],
                ) by {
                    if q == pos as int {
                        assert(out@[p] == out_before[p]);
                    } else if p == pos as int {
                        assert(!le(out_before[pos as int], x));
                        assert(le(x, out_before[pos as int]));
                        assert(out@[q] == out_before[q - 1]);
                        if q - 1 > pos as int {
                            assert(le(out_before[pos as int], out_before[q - 1]));
                        }
                    } else if p < pos as int && q > pos as int {
                        assert(out@[p] == out_before[p] && out@[q] == out_before[q - 1]);
                        assert(le(out_before[p], out_before[q - 1]) || p == q - 1);
                        if p == q - 1 {
                            assert(le(out_before[p], x) && le(x, out_before[p]));
                        }
                    } else if q < pos as int {
                        assert(out@[p] == out_before[p] && out@[q] == out_before[q]);
                    } else {
                        assert(out@[p] == out_before[p - 1] && out@[q] == out_before[q - 1]);
                    }
                }
            }
            vstd::seq_lib::to_multiset_insert(out_before, pos as int, x);
            vstd::seq_lib::to_multiset_remove(v_before, 0);
            v_before.to_multiset_ensures();
            assert(x == v_before[0]);
            assert(v_before.contains(x));
            assert(v_before.to_multiset().count(x) > 0);
            assert(out@.to_multiset() =~= out_before.to_multiset().insert(x));
            assert(v@.to_multiset() =~= v_before.to_multiset().remove(x));
            assert(out@.to_multiset().add(v@.to_multiset()) =~= orig.to_multiset());
        }
    }
    proof {
        assert(v@.to_multiset().len() == 0);
        assert(v@.to_multiset() =~= Multiset::<TopicRow>::empty());
        assert(out@.to_multiset().add(v@.to_multiset()) =~= out@.to_multiset());
    }
    *v = out;
}

// ---------- the request ----------

/// The trending-topics request.
pub struct FetchTrendingHashtags<D> {
    pub db_client: D,
}

impl FetchTrendingHashtags<NoDBClient> {
    /// Attaches the store capability; the store value itself is handed to
    /// the fetch.
    pub fn add_db_client(self) -> (r: FetchTrendingHashtags<WithDBClient>) {
        FetchTrendingHashtags { db_client: WithDBClient }
    }
}

impl FetchTrendingHashtags<WithDBClient> {
    /// Ranks the topics of the trailing window by link count and returns
    /// the top seven as (name, color) entries.
    pub fn fetch(&self, store: &Store, now: i64) -> (r: Result<
        Vec<TrendingHashtagsResponse>,
        ApiError,
    >)
        ensures
            r matches Ok(list) && trending_result_ok(list@, *store, now as int),
    {
        let ghost pred = |t: TopicRow| topic_in_window(t, now as int) && link_count(
            store.posts_topics@,
            t.id,
        ) > 0;
        let n: usize = store.topics.len();
        let mut cand: Vec<TopicRow> = Vec::new();
        let mut k: usize = 0;
        while k < n
            invariant
                k <= n,
                n == store.topics@.len(),
                pred == (|t: TopicRow| topic_in_window(t, now as int) && link_count(
                    store.posts_topics@,
                    t.id,
                ) > 0),
                cand@ == store.topics@.take(k as int).filter(pred),
            decreases n - k,
        {
            proof {
                lemma_filter_take_step(store.topics@, pred, k as int);
            }
            let t = &store.topics[k];
            let in_window = (now as i128) - (t.created_at as i128) < TRENDING_WINDOW_SECONDS
                as i128;
            if in_window {
                let links = count_links(&store.posts_topics, t.id);
                if links > 0 {
                    cand.push(t.clone());
                }
            }
            k = k + 1;
        }
        proof {
            assert(store.topics@.take(n as int) =~= store.topics@);
        }
        let ghost full = cand@;
        sort_trending(&mut cand, &store.posts_topics);
        let ghost sorted = cand@;
        let mut out: Vec<TrendingHashtagsResponse> = Vec::new();
        let mut i: usize = 0;
        while i < cand.len() && i < 7
            invariant
                i <= cand@.len(),
                i <= 7,
                cand@ == sorted,
                out@.len() == i,
                forall|j: int|
                    0 <= j < i ==> (#[trigger] out@[j]).name@ == sorted[j].name@ && out@[j].color@
                        == sorted[j].color.name_spec(),
            decreases cand@.len() - i,
        {
            let t = &cand[i];
            out.push(TrendingHashtagsResponse { name: t.name.clone(), color: t.color.name() });
            i = i + 1;
        }
        proof {
            assert(trending_result_ok(out@, *store, now as int)) by {
                assert(sorted.to_multiset() == trending_topics(*store, now as int).to_multiset());
                assert(sorted_by(
                    sorted,
                    |a: TopicRow, b: TopicRow| trend_le(store.posts_topics@, a, b),
                ));
            }
        }
        Ok(out)
    }
}

} // verus!
