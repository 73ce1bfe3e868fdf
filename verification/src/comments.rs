//! Comments: creation under a post, and the reconstruction of the nested
//! reply tree from the flat rows the store hands back. Reconstruction
//! selects, for a given parent, every row naming it, builds each child's
//! subtree below it, and orders every sibling list by the requested mode.

use vstd::prelude::*;
use vstd::multiset::Multiset;
use vstd::relations::sorted_by;

use crate::auth::UserAuthDetails;
use crate::handler_utils::{NoDBClient, NotValidated, NoUserDetails, Validated, WithDBClient,
    WithUserDetails};
use crate::lemmas::{lemma_filter_take_step, lemma_map_values_multiset};
use vstd::seq_lib::lemma_multiset_commutative;
use crate::store::{CommentRow, Store, UserRow, user_index_of};
use crate::text::{trim_chars, str_chars, chars_to_string, trim_spec};
use crate::{ApiError, ErrorKind, Sort};

verus! {

/// The author fields a comment row carries.
#[derive(Debug)]
pub struct CommentAuthor {
    pub id: i32,
    pub name: String,
}

impl Clone for CommentAuthor {
    fn clone(&self) -> (r: Self)
        ensures
            r == *self,
    {
        CommentAuthor { id: self.id, name: self.name.clone() }
    }
}

/// One flat row of the comment result set: the comment, its author, and
/// its precomputed descendant count.
#[derive(Debug)]
pub struct FetchCommentsResponse {
    pub id: i32,
    pub body: String,
    /// The parent comment, absent for a root comment.
    pub comment_id: Option<i32>,
    pub author: CommentAuthor,
    pub created_at: i64,
    /// How many comments sit anywhere below this one.
    pub replies: i64,
}

/// A node of the reconstructed tree: the row's fields plus the nested
/// replies, which are empty (never absent) at a leaf.
#[derive(Debug)]
pub struct FetchCommentsResponseParsed {
    pub id: i32,
    pub body: String,
    pub author: CommentAuthor,
    pub created_at: i64,
    pub reply_count: i64,
    pub replies: Vec<FetchCommentsResponseParsed>,
}

// ---------- the raw row, as columns ----------

/// The columns of one fetched comment row, each already decoded or not;
/// assembly fails as a whole when any required column is missing.
pub struct CommentRowRaw {
    pub id: Option<i32>,
    pub body: Option<String>,
    pub comment_id: Option<Option<i32>>,
    pub author_id: Option<i32>,
    pub author_name: Option<String>,
    pub replies: Option<i64>,
    pub created_at: Option<i64>,
}

impl FetchCommentsResponse {
    /// Maps one raw row to a response row; any missing column fails the
    /// whole mapping with a single conversion error.
    pub fn from_row(r: &CommentRowRaw) -> (res: Result<FetchCommentsResponse, ApiError>)
        ensures
            match res {
                Ok(out) => {
                    &&& r.id matches Some(id) && out.id == id
                    &&& r.body matches Some(b) && out.body@ == b@
                    &&& r.comment_id matches Some(c) && out.comment_id == c
                    &&& r.author_id matches Some(a) && out.author.id == a
                    &&& r.author_name matches Some(n) && out.author.name@ == n@
                    &&& r.replies matches Some(rep) && out.replies == rep
                    &&& r.created_at matches Some(t) && out.created_at == t
                },
                Err(e) => {
                    &&& (r.id is None || r.body is None || r.comment_id is None || r.author_id
                        is None || r.author_name is None || r.replies is None || r.created_at
                        is None)
                    &&& e.kind == ErrorKind::ServerFault
                    &&& e.message@ == "Error converting postgres to rust type"@
                },
            },
            res is Ok <==> (r.id is Some && r.body is Some && r.comment_id is Some && r.author_id
                is Some && r.author_name is Some && r.replies is Some && r.created_at is Some),
    {
        match (
            &r.id,
            &r.body,
            &r.comment_id,
            &r.author_id,
            &r.author_name,
            &r.replies,
            &r.created_at,
        ) {
            (
                Some(id),
                Some(body),
                Some(comment_id),
                Some(author_id),
                Some(author_name),
                Some(replies),
                Some(created_at),
            ) => Ok(
                FetchCommentsResponse {
                    id: *id,
                    body: body.clone(),
                    comment_id: *comment_id,
                    author: CommentAuthor { id: *author_id, name: author_name.clone() },
                    created_at: *created_at,
                    replies: *replies,
                },
            ),
            _ => Err(ApiError::msg(ErrorKind::ServerFault, "Error converting postgres to rust type")),
        }
    }
}

// ---------- tree predicates ----------

/// A row's parent pointer, when present, names a smaller id than the
/// row's own: what the store's id assignment guarantees, and what grounds
/// the reconstruction's recursion.
pub open spec fn row_parent_lt(r: FetchCommentsResponse) -> bool {
    match r.comment_id {
        Some(p) => p < r.id,
        None => true,
    }
}

pub open spec fn rows_grounded(rows: Seq<FetchCommentsResponse>) -> bool {
    forall|i: int| 0 <= i < rows.len() ==> row_parent_lt(#[trigger] rows[i])
}

/// How many rows of the flat input name this parent: the sibling count
/// the reconstruction owes at that position of the tree.
pub open spec fn count_children(rows: Seq<FetchCommentsResponse>, pid: Option<i32>) -> int {
    rows.filter(|r: FetchCommentsResponse| r.comment_id == pid).len() as int
}

/// The ids of a node list, in order.
pub open spec fn node_ids(nodes: Seq<FetchCommentsResponseParsed>) -> Seq<i32> {
    nodes.map_values(|n: FetchCommentsResponseParsed| n.id)
}

/// The ids of the rows naming this parent, in input order.
pub open spec fn child_ids(rows: Seq<FetchCommentsResponse>, pid: Option<i32>) -> Seq<i32> {
    rows.filter(|r: FetchCommentsResponse| r.comment_id == pid).map_values(
        |r: FetchCommentsResponse| r.id,
    )
}

/// The node carries exactly the fields of a row with the given parent.
pub open spec fn node_matches_row(
    n: FetchCommentsResponseParsed,
    r: FetchCommentsResponse,
    pid: Option<i32>,
) -> bool {
    &&& r.comment_id == pid
    &&& n.id == r.id
    &&& n.body@ == r.body@
    &&& n.author.id == r.author.id
    &&& n.author.name@ == r.author.name@
    &&& n.created_at == r.created_at
    &&& n.reply_count == r.replies
}

/// The node was built from an input row with the given parent, its reply
/// list is as long as the rows naming it, and the same holds below.
pub open spec fn node_ok(
    n: FetchCommentsResponseParsed,
    rows: Seq<FetchCommentsResponse>,
    pid: Option<i32>,
) -> bool
    decreases n,
{
    &&& exists|i: int| 0 <= i < rows.len() && node_matches_row(n, #[trigger] rows[i], pid)
    &&& n.replies@.len() == count_children(rows, Some(n.id))
    &&& node_ids(n.replies@).to_multiset() == child_ids(rows, Some(n.id)).to_multiset()
    &&& forall|j: int|
        0 <= j < n.replies@.len() ==> node_ok(#[trigger] n.replies@[j], rows, Some(n.id))
}

/// The reconstructed forest below a parent: one node per row naming that
/// parent (the node ids carry exactly the multiset of those rows' ids, at
/// this and, through `node_ok`, every deeper level), each node correct
/// for it.
pub open spec fn forest_ok(
    nodes: Seq<FetchCommentsResponseParsed>,
    rows: Seq<FetchCommentsResponse>,
    pid: Option<i32>,
) -> bool {
    &&& nodes.len() == count_children(rows, pid)
    &&& node_ids(nodes).to_multiset() == child_ids(rows, pid).to_multiset()
    &&& forall|i: int| 0 <= i < nodes.len() ==> node_ok(#[trigger] nodes[i], rows, pid)
}

// ---------- sibling ordering ----------

/// The requested ordering of a sibling list; ties fall back to ascending
/// id so that the output is deterministic.
pub open spec fn comment_le(
    mode: Option<Sort>,
    a: FetchCommentsResponseParsed,
    b: FetchCommentsResponseParsed,
) -> bool {
    match mode {
        Some(Sort::Oldest) => a.created_at < b.created_at || (a.created_at == b.created_at && a.id
            <= b.id),
        Some(Sort::Highest) => b.reply_count < a.reply_count || (a.reply_count == b.reply_count
            && a.id <= b.id),
        Some(Sort::Lowest) => a.reply_count < b.reply_count || (a.reply_count == b.reply_count
            && a.id <= b.id),
        _ => b.created_at < a.created_at || (a.created_at == b.created_at && a.id <= b.id),
    }
}

/// Every sibling list inside the node is ordered by the mode.
pub open spec fn node_sorted(n: FetchCommentsResponseParsed, mode: Option<Sort>) -> bool
    decreases n,
{
    &&& sorted_by(n.replies@, |a, b| comment_le(mode, a, b))
    &&& forall|j: int| 0 <= j < n.replies@.len() ==> node_sorted(#[trigger] n.replies@[j], mode)
}

/// Every sibling list of the forest, at every level, is ordered by the
/// mode.
pub open spec fn forest_sorted(nodes: Seq<FetchCommentsResponseParsed>, mode: Option<Sort>) -> bool {
    &&& sorted_by(nodes, |a, b| comment_le(mode, a, b))
    &&& forall|i: int| 0 <= i < nodes.len() ==> node_sorted(#[trigger] nodes[i], mode)
}

pub proof fn lemma_comment_le_total(mode: Option<Sort>)
    ensures
        forall|a: FetchCommentsResponseParsed, b: FetchCommentsResponseParsed|
            #[trigger] comment_le(mode, a, b) || #[trigger] comment_le(mode, b, a),
        forall|a: FetchCommentsResponseParsed, b: FetchCommentsResponseParsed, c:
            FetchCommentsResponseParsed|
            #![trigger comment_le(mode, a, b), comment_le(mode, b, c)]
            comment_le(mode, a, b) && comment_le(mode, b, c) ==> comment_le(mode, a, c),
{
}

fn comment_le_exec(
    mode: &Option<Sort>,
    a: &FetchCommentsResponseParsed,
    b: &FetchCommentsResponseParsed,
) -> (r: bool)
    ensures
        r == comment_le(*mode, *a, *b),
{
    match mode {
        Some(Sort::Oldest) => a.created_at < b.created_at || (a.created_at == b.created_at && a.id
            <= b.id),
        Some(Sort::Highest) => b.reply_count < a.reply_count || (a.reply_count == b.reply_count
            && a.id <= b.id),
        Some(Sort::Lowest) => a.reply_count < b.reply_count || (a.reply_count == b.reply_count
            && a.id <= b.id),
        _ => b.created_at < a.created_at || (a.created_at == b.created_at && a.id <= b.id),
    }
}

/// Insertion sort of one sibling list by the mode's comparator.
fn sort_nodes(v: &mut Vec<FetchCommentsResponseParsed>, mode: &Option<Sort>)
    ensures
        sorted_by(final(v)@, |a, b| comment_le(*mode, a, b)),
        final(v)@.to_multiset() == old(v)@.to_multiset(),
        final(v)@.len() == old(v)@.len(),
        forall|i: int| 0 <= i < final(v)@.len() ==> old(v)@.contains(#[trigger] final(v)@[i]),
    decreases old(v)@.len(),
{
    broadcast use vstd::seq_lib::group_to_multiset_ensures;

    let ghost orig = v@;
    let ghost le = |a: FetchCommentsResponseParsed, b: FetchCommentsResponseParsed|
        comment_le(*mode, a, b);
    proof {
        lemma_comment_le_total(*mode);
    }
    let mut out: Vec<FetchCommentsResponseParsed> = Vec::new();
    while v.len() > 0
        invariant
            out@.to_multiset().add(v@.to_multiset()) =~= orig.to_multiset(),
            out@.len() + v@.len() == orig.len(),
            sorted_by(out@, le),
            le == (|a: FetchCommentsResponseParsed, b: FetchCommentsResponseParsed|
                comment_le(*mode, a, b)),
            forall|a: FetchCommentsResponseParsed, b: FetchCommentsResponseParsed|
                #[trigger] le(a, b) || #[trigger] le(b, a),
            forall|a: FetchCommentsResponseParsed, b: FetchCommentsResponseParsed, c:
                FetchCommentsResponseParsed|
                #![trigger le(a, b), le(b, c)]
                le(a, b) && le(b, c) ==> le(a, c),
        decreases v@.len(),
    {
        let ghost v_before = v@;
        let x = v.remove(0);
        let mut pos: usize = 0;
        while pos < out.len() && comment_le_exec(mode, &out[pos], &x)
            invariant
                pos <= out@.len(),
                forall|p: int| 0 <= p < pos ==> le(#[trigger] out@[p], x),
                le == (|a: FetchCommentsResponseParsed, b: FetchCommentsResponseParsed|
                    comment_le(*mode, a, b)),
            decreases out@.len() - pos,
        {
            pos = pos + 1;
        }
        let ghost out_before = out@;
        out.insert(pos, x);
        proof {
            assert(sorted_by(out@, le)) by {
                assert forall|p: int, q: int| 0 <= p < q < out@.len() implies le(
                    out@[p],
                    out@[q],
                ) by {
                    if q == pos as int {
                        assert(out@[p] == out_before[p]);
                    } else if p == pos as int {
                        // x goes before everything the scan stopped at
                        assert(!le(out_before[pos as int], x));
                        assert(le(x, out_before[pos as int]));
                        assert(out@[q] == out_before[q - 1]);
                        if q - 1 > pos as int {
                            assert(le(out_before[pos as int], out_before[q - 1]));
                        }
                    } else if p < pos as int && q > pos as int {
                        assert(out@[p] == out_before[p] && out@[q] == out_before[q - 1]);
                        assert(le(out_before[p], out_before[q - 1]) || p == q - 1);
                        if p == q - 1 {
                            assert(le(out_before[p], x) && le(x, out_before[p]));
                        }
                    } else if q < pos as int {
                        assert(out@[p] == out_before[p] && out@[q] == out_before[q]);
                    } else {
                        assert(out@[p] == out_before[p - 1] && out@[q] == out_before[q - 1]);
                    }
                }
            }
            broadcast use vstd::multiset::group_multiset_axioms;

            vstd::seq_lib::to_multiset_insert(out_before, pos as int, x);
            vstd::seq_lib::to_multiset_remove(v_before, 0);
            v_before.to_multiset_ensures();
            assert(x == v_before[0]);
            assert(v_before.contains(x));
            assert(v_before.to_multiset().count(x) > 0);
            assert(out@.to_multiset() =~= out_before.to_multiset().insert(x));
            assert(v@.to_multiset() =~= v_before.to_multiset().remove(x));
            assert(out@.to_multiset().add(v@.to_multiset()) =~= orig.to_multiset());
        }
    }
    proof {
        assert(v@.to_multiset().len() == 0);
        assert(v@.to_multiset() =~= Multiset::<FetchCommentsResponseParsed>::empty());
        assert(out@.to_multiset().add(v@.to_multiset()) =~= out@.to_multiset());
    }
    *v = out;
    proof {
        assert(final(v)@.to_multiset() == orig.to_multiset());
        assert forall|i: int| 0 <= i < final(v)@.len() implies orig.contains(
            #[trigger] final(v)@[i],
        ) by {
            final(v)@.to_multiset_ensures();
            orig.to_multiset_ensures();
            assert(final(v)@.contains(final(v)@[i]));
            assert(final(v)@.to_multiset().count(final(v)@[i]) > 0);
        }
    }
}

// ---------- reconstruction ----------

/// The recursion measure of reconstruction: the root level sits above
/// every parent id, and a child's id sits above its parent's.
pub open spec fn parent_measure(pid: Option<i32>) -> int {
    match pid {
        None => 4294967296int,
        Some(p) => 2147483647int - p,
    }
}

impl FetchCommentsResponse {
    /// Builds the reply forest below one parent: one node per input row
    /// naming that parent, each with its subtree below it, and the level
    /// sorted by the requested mode.
    pub fn add_reply(
        vec: &mut Vec<FetchCommentsResponseParsed>,
        data: &Vec<FetchCommentsResponse>,
        comment_id: Option<i32>,
        sort: &Option<Sort>,
    )
        requires
            rows_grounded(data@),
        ensures
            sorted_by(final(vec)@, |a, b| comment_le(*sort, a, b)),
            final(vec)@.len() == old(vec)@.len() + count_children(data@, comment_id),
            exists|built: Seq<FetchCommentsResponseParsed>|
                #![trigger built.to_multiset()]
                {
                    &&& forest_ok(built, data@, comment_id)
                    &&& (forall|i: int|
                        0 <= i < built.len() ==> node_sorted(#[trigger] built[i], *sort))
                    &&& final(vec)@.to_multiset() == old(vec)@.to_multiset().add(
                        built.to_multiset(),
                    )
                },
            old(vec)@.len() == 0 ==> forest_ok(final(vec)@, data@, comment_id) && forest_sorted(
                final(vec)@,
                *sort,
            ),
        decreases parent_measure(comment_id),
    {
        let ghost pred = |r: FetchCommentsResponse| r.comment_id == comment_id;
        let ghost base = vec@;
        let n: usize = data.len();
        let mut k: usize = 0;
        while k < n
            invariant
                k <= n,
                n == data@.len(),
                rows_grounded(data@),
                pred == (|r: FetchCommentsResponse| r.comment_id == comment_id),
                base == old(vec)@,
                vec@.len() == base.len() + data@.take(k as int).filter(pred).len(),
                vec@.take(base.len() as int) == base,
                forall|i: int|
                    base.len() <= i < vec@.len() ==> node_ok(#[trigger] vec@[i], data@, comment_id),
                forall|i: int|
                    base.len() <= i < vec@.len() ==> node_sorted(#[trigger] vec@[i], *sort),
                node_ids(vec@.skip(base.len() as int)) == child_ids(
                    data@.take(k as int),
                    comment_id,
                ),
            decreases n - k,
        {
            let row = &data[k];
            let is_child = match (row.comment_id, comment_id) {
                (Some(a), Some(b)) => a == b,
                (None, None) => true,
                _ => false,
            };
            proof {
                assert(is_child == pred(data@[k as int]));
                lemma_filter_take_step(data@, pred, k as int);
            }
            if is_child {
                proof {
                    assert(row_parent_lt(data@[k as int]));
                }
                let mut children: Vec<FetchCommentsResponseParsed> = Vec::new();
                Self::add_reply(&mut children, data, Some(row.id), sort);
                let node = FetchCommentsResponseParsed {
                    id: row.id,
                    body: row.body.clone(),
                    author: row.author.clone(),
                    created_at: row.created_at,
                    reply_count: row.replies,
                    replies: children,
                };
                proof {
                    assert(node_matches_row(node, data@[k as int], comment_id));
                    assert(node_ok(node, data@, comment_id));
                }
                let ghost pre_push = vec@;
                vec.push(node);
                proof {
                    assert(vec@.take(base.len() as int) =~= base);
                    assert(node_ids(vec@.skip(base.len() as int)) =~= node_ids(
                        pre_push.skip(base.len() as int),
                    ).push(node.id));
                    assert(child_ids(data@.take(k + 1 as int), comment_id) =~= child_ids(
                        data@.take(k as int),
                        comment_id,
                    ).push(data@[k as int].id));
                }
            } else {
                proof {
                    assert(child_ids(data@.take(k + 1 as int), comment_id) =~= child_ids(
                        data@.take(k as int),
                        comment_id,
                    ));
                }
            }
            k = k + 1;
        }
        proof {
            assert(data@.take(n as int) =~= data@);
        }
        let ghost built = vec@.skip(base.len() as int);
        proof {
            assert(built.len() == count_children(data@, comment_id));
            assert(node_ids(built) == child_ids(data@, comment_id));
            assert forall|i: int| 0 <= i < built.len() implies node_ok(
                #[trigger] built[i],
                data@,
                comment_id,
            ) && node_sorted(built[i], *sort) by {
                assert(built[i] == vec@[base.len() + i]);
            }
            assert(forest_ok(built, data@, comment_id));
        }
        let ghost before_sort = vec@;
        sort_nodes(vec, sort);
        proof {
            assert(before_sort =~= base + built);
            lemma_multiset_commutative(base, built);
            assert(vec@.to_multiset() == old(vec)@.to_multiset().add(built.to_multiset()));
            if base.len() == 0 {
                assert(built =~= before_sort);
                assert forall|i: int| 0 <= i < vec@.len() implies node_ok(
                    #[trigger] vec@[i],
                    data@,
                    comment_id,
                ) && node_sorted(vec@[i], *sort) by {
                    assert(before_sort.contains(vec@[i]));
                    let j = choose|j: int|
                        0 <= j < before_sort.len() && before_sort[j] == vec@[i];
                    assert(node_ok(before_sort[j], data@, comment_id));
                }
                lemma_map_values_multiset(
                    vec@,
                    before_sort,
                    |nd: FetchCommentsResponseParsed| nd.id,
                );
                assert(node_ids(vec@).to_multiset() == node_ids(before_sort).to_multiset());
                assert(node_ids(before_sort).to_multiset() == child_ids(
                    data@,
                    comment_id,
                ).to_multiset());
                assert(forest_ok(vec@, data@, comment_id));
            }
        }
    }

    /// Reconstructs the whole forest from the flat rows: the roots are
    /// the rows without a parent.
    pub fn parse(data: &Vec<FetchCommentsResponse>, sort: &Option<Sort>) -> (r: Vec<
        FetchCommentsResponseParsed,
    >)
        requires
            rows_grounded(data@),
        ensures
            forest_ok(r@, data@, None),
            forest_sorted(r@, *sort),
    {
        let mut vec: Vec<FetchCommentsResponseParsed> = Vec::new();
        Self::add_reply(&mut vec, data, None, sort);
        vec
    }
}

// ---------- descendant counts over the store ----------

/// A stored comment's parent pointer, when present, names a smaller id.
pub open spec fn comment_parent_lt(c: CommentRow) -> bool {
    match c.comment_id {
        Some(p) => p < c.id,
        None => true,
    }
}

pub open spec fn comments_grounded(comments: Seq<CommentRow>) -> bool {
    forall|i: int| 0 <= i < comments.len() ==> comment_parent_lt(#[trigger] comments[i])
}

pub open spec fn comment_ids_unique(comments: Seq<CommentRow>) -> bool {
    forall|i: int, j: int|
        #![trigger comments[i].id, comments[j].id]
        0 <= i < j < comments.len() ==> comments[i].id != comments[j].id
}

pub open spec fn comment_id_exists(comments: Seq<CommentRow>, id: i32) -> bool {
    exists|j: int| 0 <= j < comments.len() && (#[trigger] comments[j]).id == id
}

/// Whether `anc` sits on the proper ancestor chain of `c`: `c`'s parent,
/// its parent's parent, and so on, following ids downward.
pub open spec fn is_ancestor(comments: Seq<CommentRow>, anc: i32, c: CommentRow) -> bool
    decreases c.id + 2147483648int,
        when comments_grounded(comments) && comment_parent_lt(c)
{
    match c.comment_id {
        None => false,
        Some(p) => p == anc || {
            if comment_id_exists(comments, p) {
                let j = choose|j: int|
                    0 <= j < comments.len() && (#[trigger] comments[j]).id == p;
                is_ancestor(comments, anc, comments[j])
            } else {
                false
            }
        },
    }
}

/// How many stored comments sit anywhere below the comment with this id:
/// what the store's one recursive query precomputes per row.
pub open spec fn descendant_count(comments: Seq<CommentRow>, id: i32) -> int {
    comments.filter(|d: CommentRow| is_ancestor(comments, id, d)).len() as int
}

fn find_comment_index(comments: &Vec<CommentRow>, id: i32) -> (r: Option<usize>)
    ensures
        match r {
            Some(j) => j < comments@.len() && comments@[j as int].id == id,
            None => !comment_id_exists(comments@, id),
        },
{
    let n: usize = comments.len();
    let mut i: usize = 0;
    while i < n
        invariant
            i <= n,
            n == comments@.len(),
            forall|j: int| 0 <= j < i ==> (#[trigger] comments@[j]).id != id,
        decreases n - i,
    {
        if comments[i].id == id {
            return Some(i);
        }
        i = i + 1;
    }
    None
}

fn is_ancestor_exec(comments: &Vec<CommentRow>, anc: i32, c: &CommentRow) -> (r: bool)
    requires
        comments_grounded(comments@),
        comment_ids_unique(comments@),
        comment_parent_lt(*c),
    ensures
        r == is_ancestor(comments@, anc, *c),
    decreases c.id + 2147483648int,
{
    match c.comment_id {
        None => false,
        Some(p) => {
            if p == anc {
                true
            } else {
                match find_comment_index(comments, p) {
                    None => false,
                    Some(j) => {
                        proof {
                            let jj = choose|jj: int|
                                0 <= jj < comments@.len() && (#[trigger] comments@[jj]).id == p;
                            assert(comments@[jj].id == comments@[j as int].id);
                            assert(jj == j as int);
                        }
                        is_ancestor_exec(comments, anc, &comments[j])
                    },
                }
            }
        },
    }
}

fn count_descendants(comments: &Vec<CommentRow>, id: i32) -> (r: usize)
    requires
        comments_grounded(comments@),
        comment_ids_unique(comments@),
    ensures
        r as int == descendant_count(comments@, id),
        r <= comments@.len(),
{
    let ghost pred = |d: CommentRow| is_ancestor(comments@, id, d);
    let n: usize = comments.len();
    let mut count: usize = 0;
    let mut k: usize = 0;
    while k < n
        invariant
            k <= n,
            n == comments@.len(),
            comments_grounded(comments@),
            comment_ids_unique(comments@),
            pred == (|d: CommentRow| is_ancestor(comments@, id, d)),
            count as int == comments@.take(k as int).filter(pred).len(),
            count <= k,
        decreases n - k,
    {
        proof {
            lemma_filter_take_step(comments@, pred, k as int);
        }
        if is_ancestor_exec(comments, id, &comments[k]) {
            count = count + 1;
        }
        k = k + 1;
    }
    proof {
        assert(comments@.take(n as int) =~= comments@);
    }
    count
}

// ---------- the flat rows a post's fetch yields ----------

/// One response row per stored comment of the post whose author still
/// exists, in table order, carrying the author's name and the comment's
/// descendant count.
pub open spec fn rows_from_store(
    data: Seq<FetchCommentsResponse>,
    comments: Seq<CommentRow>,
    users: Seq<UserRow>,
    post_id: i32,
) -> bool {
    let vis = comments.filter(
        |c: CommentRow| c.post_id == post_id && user_index_of(users, c.user_id),
    );
    &&& data.len() == vis.len()
    &&& forall|k: int|
        0 <= k < data.len() ==> resp_matches_comment(#[trigger] data[k], vis[k], comments, users)
}

pub open spec fn resp_matches_comment(
    resp: FetchCommentsResponse,
    c: CommentRow,
    comments: Seq<CommentRow>,
    users: Seq<UserRow>,
) -> bool {
    &&& resp.id == c.id
    &&& resp.body@ == c.body@
    &&& resp.comment_id == c.comment_id
    &&& resp.created_at == c.created_at
    &&& resp.replies as int == descendant_count(comments, c.id)
    &&& resp.author.id == c.user_id
    &&& exists|j: int|
        0 <= j < users.len() && (#[trigger] users[j]).id == c.user_id && resp.author.name@
            == users[j].username@
}

/// Collects the flat comment rows of one post from the store: the model
/// of the single recursive query plus its author join.
pub fn comment_rows(store: &Store, post_id: i32) -> (r: Vec<FetchCommentsResponse>)
    requires
        store.wf(),
        store.comments@.len() <= 0x7fff_ffff_ffff_ffff,
    ensures
        rows_from_store(r@, store.comments@, store.users@, post_id),
        rows_grounded(r@),
{
    proof {
        assert(comments_grounded(store.comments@));
    }
    let ghost pred = |c: CommentRow| c.post_id == post_id && user_index_of(
        store.users@,
        c.user_id,
    );
    let n: usize = store.comments.len();
    let mut data: Vec<FetchCommentsResponse> = Vec::new();
    let mut k: usize = 0;
    while k < n
        invariant
            k <= n,
            n == store.comments@.len(),
            store.wf(),
            store.comments@.len() <= 0x7fff_ffff_ffff_ffff,
            comments_grounded(store.comments@),
            pred == (|c: CommentRow| c.post_id == post_id && user_index_of(
                store.users@,
                c.user_id,
            )),
            data@.len() == store.comments@.take(k as int).filter(pred).len(),
            forall|i: int|
                0 <= i < data@.len() ==> resp_matches_comment(
                    #[trigger] data@[i],
                    store.comments@.take(k as int).filter(pred)[i],
                    store.comments@,
                    store.users@,
                ),
            forall|i: int| 0 <= i < data@.len() ==> row_parent_lt(#[trigger] data@[i]),
        decreases n - k,
    {
        proof {
            lemma_filter_take_step(store.comments@, pred, k as int);
        }
        let c = &store.comments[k];
        if c.post_id == post_id {
            match store.find_user_by_id(c.user_id) {
                Some(u) => {
                    let count = count_descendants(&store.comments, c.id);
                    let resp = FetchCommentsResponse {
                        id: c.id,
                        body: c.body.clone(),
                        comment_id: c.comment_id,
                        author: CommentAuthor {
                            id: c.user_id,
                            name: store.users[u].username.clone(),
                        },
                        created_at: c.created_at,
                        replies: count as i64,
                    };
                    proof {
                        assert(resp_matches_comment(
                            resp,
                            store.comments@[k as int],
                            store.comments@,
                            store.users@,
                        ));
                        assert(comment_parent_lt(store.comments@[k as int]));
                    }
                    data.push(resp);
                },
                None => {
                },
            }
        }
        k = k + 1;
    }
    proof {
        assert(store.comments@.take(n as int) =~= store.comments@);
    }
    data
}

// ---------- comment creation ----------

/// The comment-creation request as it moves through the pipeline.
pub struct CreateComment<D, U, V> {
    pub post_id: i32,
    pub body: String,
    /// The parent comment the reply is for, absent for a root comment.
    pub comment_id: Option<i32>,
    pub db_client: D,
    pub user_details: U,
    pub validated: V,
}

/// The parent named by the request, when present, is a stored comment of
/// the same post.
pub open spec fn parent_in_post(comments: Seq<CommentRow>, post_id: i32, cid: Option<i32>) -> bool {
    match cid {
        None => true,
        Some(c) => exists|j: int|
            0 <= j < comments.len() && (#[trigger] comments[j]).id == c && comments[j].post_id
                == post_id,
    }
}

impl<V> CreateComment<NoDBClient, NoUserDetails, V> {
    /// Binds the target post, the store capability and the caller to the
    /// payload.
    pub fn add_details<'a>(self, post_id: i32, user_details: &'a UserAuthDetails) -> (r:
        CreateComment<WithDBClient, WithUserDetails<'a>, V>)
        ensures
            r.post_id == post_id,
            r.body == self.body,
            r.comment_id == self.comment_id,
            r.user_details.0 == user_details,
            r.validated == self.validated,
    {
        CreateComment {
            post_id,
            body: self.body,
            comment_id: self.comment_id,
            db_client: WithDBClient,
            user_details: WithUserDetails(user_details),
            validated: self.validated,
        }
    }
}

impl<U> CreateComment<WithDBClient, U, NotValidated> {
    /// Trims the body, bounds its length, and checks that the named
    /// parent comment exists under the same post.
    pub fn validate(self, store: &Store) -> (r: Result<
        CreateComment<WithDBClient, U, Validated>,
        ApiError,
    >)
        ensures
            trim_spec(self.body@).len() > 500 ==> (r matches Err(e) && e.kind
                == ErrorKind::BadInput && (e.name matches Some(n) && n@ == "body"@) && e.message@
                == "Comment should be less than 500 characters"@),
            trim_spec(self.body@).len() <= 500 && !parent_in_post(
                store.comments@,
                self.post_id,
                self.comment_id,
            ) ==> (r matches Err(e) && e.kind == ErrorKind::BadInput && e.name is None
                && e.message@ == "Comment does not exists in post"@),
            trim_spec(self.body@).len() <= 500 && parent_in_post(
                store.comments@,
                self.post_id,
                self.comment_id,
            ) ==> (r matches Ok(c) && c.post_id == self.post_id && c.body@ == trim_spec(self.body@)
                && c.comment_id == self.comment_id && c.user_details == self.user_details),
    {
        let trimmed = chars_to_string(&trim_chars(&str_chars(self.body.as_str())));
        if trimmed.as_str().unicode_len() > 500 {
            return Err(
                ApiError::field(
                    ErrorKind::BadInput,
                    "body",
                    "Comment should be less than 500 characters",
                ),
            );
        }
        if !self.is_comment_under_post(store) {
            return Err(ApiError::msg(ErrorKind::BadInput, "Comment does not exists in post"));
        }
        Ok(
            CreateComment {
                post_id: self.post_id,
                body: trimmed,
                comment_id: self.comment_id,
                db_client: self.db_client,
                user_details: self.user_details,
                validated: Validated,
            },
        )
    }

    fn is_comment_under_post(&self, store: &Store) -> (r: bool)
        ensures
            r == parent_in_post(store.comments@, self.post_id, self.comment_id),
    {
        match self.comment_id {
            None => true,
            Some(cid) => {
                proof {
                    assert(self.comment_id == Some(cid));
                }
                let n: usize = store.comments.len();
                let mut i: usize = 0;
                while i < n
                    invariant
                        i <= n,
                        n == store.comments@.len(),
                        self.comment_id == Some(cid),
                        forall|j: int|
                            0 <= j < i ==> !((#[trigger] store.comments@[j]).id == cid
                                && store.comments@[j].post_id == self.post_id),
                    decreases n - i,
                {
                    let c = &store.comments[i];
                    if c.id == cid && c.post_id == self.post_id {
                        proof {
                            assert((#[trigger] store.comments@[i as int]).id == cid
                                && store.comments@[i as int].post_id == self.post_id);
                        }
                        return true;
                    }
                    i = i + 1;
                }
                false
            },
        }
    }
}

impl<'a> CreateComment<WithDBClient, WithUserDetails<'a>, Validated> {
    /// Inserts the validated comment and returns its assigned id. The
    /// parent check that validation performed against this same store is
    /// the precondition the insert trusts.
    pub fn exec(&self, store: &mut Store, now: i64) -> (r: Result<i32, ApiError>)
        requires
            old(store).wf(),
            old(store).next_comment_id < i32::MAX,
            parent_in_post(old(store).comments@, self.post_id, self.comment_id),
        ensures
            final(store).wf(),
            r matches Ok(id) && id == old(store).next_comment_id,
            final(store).comments@.len() == old(store).comments@.len() + 1,
            final(store).comments@.take(old(store).comments@.len() as int) == old(
                store,
            ).comments@,
            final(store).comments@.last().id == old(store).next_comment_id,
            final(store).comments@.last().post_id == self.post_id,
            final(store).comments@.last().user_id == self.user_details.0.id,
            final(store).comments@.last().comment_id == self.comment_id,
            final(store).comments@.last().body@ == self.body@,
            final(store).comments@.last().created_at == now,
            final(store).next_comment_id == old(store).next_comment_id + 1,
            final(store).users == old(store).users,
            final(store).posts == old(store).posts,
            final(store).topics == old(store).topics,
            final(store).posts_topics == old(store).posts_topics,
            final(store).saved_posts == old(store).saved_posts,
            final(store).next_user_id == old(store).next_user_id,
            final(store).next_post_id == old(store).next_post_id,
            final(store).next_topic_id == old(store).next_topic_id,
    {
        let id = store.next_comment_id;
        let row = CommentRow {
            id,
            post_id: self.post_id,
            user_id: self.user_details.0.id,
            comment_id: self.comment_id,
            body: self.body.clone(),
            created_at: now,
        };
        store.comments.push(row);
        store.next_comment_id = id + 1;
        proof {
            assert(final(store).comments@.take(old(store).comments@.len() as int) =~= old(
                store,
            ).comments@);
            assert forall|i: int| 0 <= i < final(store).comments@.len() implies
                crate::store::comment_parent_ok(
                final(store).comments@,
                #[trigger] final(store).comments@[i],
            ) by {
                if i < old(store).comments@.len() {
                    assert(crate::store::comment_parent_ok(
                        old(store).comments@,
                        old(store).comments@[i],
                    ));
                    match old(store).comments@[i].comment_id {
                        Some(p) => {
                            let j = choose|j: int|
                                0 <= j < old(store).comments@.len() && (#[trigger] old(
                                    store,
                                ).comments@[j]).id == p && old(store).comments@[j].post_id == old(
                                    store,
                                ).comments@[i].post_id && p < old(store).comments@[i].id;
                            assert(final(store).comments@[j] == old(store).comments@[j]);
                        },
                        None => {},
                    }
                } else {
                    match self.comment_id {
                        Some(p) => {
                            let j = choose|j: int|
                                0 <= j < old(store).comments@.len() && (#[trigger] old(
                                    store,
                                ).comments@[j]).id == p && old(store).comments@[j].post_id
                                    == self.post_id;
                            assert(final(store).comments@[j] == old(store).comments@[j]);
                        },
                        None => {},
                    }
                }
            }
        }
        Ok(id)
    }
}

// ---------- fetching a post's comments ----------

/// The comment-fetch request as it moves through the pipeline.
pub struct FetchComments<D, V> {
    pub sort: Option<Sort>,
    pub page: Option<i64>,
    pub post_id: i32,
    pub db_client: D,
    pub validated: V,
}

impl FetchComments<NoDBClient, NotValidated> {
    /// Binds the target post and the store capability to the query.
    pub fn add_details(self, post_id: i32) -> (r: FetchComments<WithDBClient, NotValidated>)
        ensures
            r.sort == self.sort,
            r.page == self.page,
            r.post_id == post_id,
    {
        FetchComments {
            sort: self.sort,
            page: self.page,
            post_id,
            db_client: WithDBClient,
            validated: NotValidated,
        }
    }
}

impl FetchComments<WithDBClient, NotValidated> {
    /// A post id must have been bound; the store never assigns id zero.
    pub fn validate(self) -> (r: Result<FetchComments<WithDBClient, Validated>, ApiError>)
        ensures
            self.post_id == 0 ==> (r matches Err(e) && e.kind == ErrorKind::BadInput && e.name
                is None && e.message@ == "Post id not added"@),
            self.post_id != 0 ==> (r matches Ok(q) && q.sort == self.sort && q.page == self.page
                && q.post_id == self.post_id),
    {
        if self.post_id == 0 {
            return Err(ApiError::msg(ErrorKind::BadInput, "Post id not added"));
        }
        Ok(
            FetchComments {
                sort: self.sort,
                page: self.page,
                post_id: self.post_id,
                db_client: self.db_client,
                validated: Validated,
            },
        )
    }
}

impl FetchComments<WithDBClient, Validated> {
    /// Fetches the post's flat comment rows from the store and
    /// reconstructs the nested reply tree, sorted by the requested mode
    /// at every level.
    pub fn fetch_comments(&self, store: &Store) -> (r: Vec<FetchCommentsResponseParsed>)
        requires
            store.wf(),
            store.comments@.len() <= 0x7fff_ffff_ffff_ffff,
        ensures
            exists|data: Seq<FetchCommentsResponse>|
                {
                    &&& #[trigger] rows_from_store(
                        data,
                        store.comments@,
                        store.users@,
                        self.post_id,
                    )
                    &&& forest_ok(r@, data, None)
                    &&& forest_sorted(r@, self.sort)
                },
    {
        let rows = comment_rows(store, self.post_id);
        FetchCommentsResponse::parse(&rows, &self.sort)
    }
}

} // verus!
