use forum_api::auth::{CreateAccountDetails, UserAuthDetails};
use forum_api::comments::{CommentAuthor, CommentRowRaw, CreateComment, FetchComments,
    FetchCommentsResponse, FetchCommentsResponseParsed};
use forum_api::handler_utils::{NoDBClient, NotValidated, NoUserDetails};
use forum_api::posts::CreatePostDetails;
use forum_api::store::{CommentRow, Store};
use forum_api::{ErrorKind, Sort};

const NOW: i64 = 1_700_000_000;

fn row(id: i32, parent: Option<i32>, created_at: i64, replies: i64) -> FetchCommentsResponse {
    FetchCommentsResponse {
        id,
        body: format!("comment {}", id),
        comment_id: parent,
        author: CommentAuthor { id: 1, name: "alice".to_owned() },
        created_at,
        replies,
    }
}

fn collect_ids(nodes: &[FetchCommentsResponseParsed]) -> Vec<i32> {
    nodes.iter().map(|n| n.id).collect()
}

fn count_children(rows: &[FetchCommentsResponse], id: i32) -> usize {
    rows.iter().filter(|r| r.comment_id == Some(id)).count()
}

fn check_reply_counts(nodes: &[FetchCommentsResponseParsed], rows: &[FetchCommentsResponse]) {
    for n in nodes {
        assert_eq!(n.replies.len(), count_children(rows, n.id), "node {}", n.id);
        check_reply_counts(&n.replies, rows);
    }
}

// two roots (1, 2); 1 has children 3 and 4; 4 has child 5
fn sample_rows() -> Vec<FetchCommentsResponse> {
    vec![
        row(1, None, 100, 3),
        row(2, None, 200, 0),
        row(3, Some(1), 300, 0),
        row(4, Some(1), 250, 1),
        row(5, Some(4), 400, 0),
    ]
}

#[test]
fn tree_reply_lists_match_flat_counts() {
    let rows = sample_rows();
    let tree = FetchCommentsResponse::parse(&rows, &None);
    assert_eq!(tree.len(), 2);
    check_reply_counts(&tree, &rows);
}

#[test]
fn tree_nodes_carry_row_fields() {
    let rows = sample_rows();
    let tree = FetchCommentsResponse::parse(&rows, &Some(Sort::Oldest));
    let first = &tree[0];
    assert_eq!(first.id, 1);
    assert_eq!(first.body, "comment 1");
    assert_eq!(first.author.id, 1);
    assert_eq!(first.author.name, "alice");
    assert_eq!(first.created_at, 100);
    assert_eq!(first.reply_count, 3);
    assert_eq!(collect_ids(&first.replies), vec![4, 3]);
    assert_eq!(collect_ids(&first.replies[0].replies), vec![5]);
}

#[test]
fn all_four_sorts_order_every_level() {
    let rows = sample_rows();

    let latest = FetchCommentsResponse::parse(&rows, &Some(Sort::Latest));
    assert_eq!(collect_ids(&latest), vec![2, 1]);
    assert_eq!(collect_ids(&latest[1].replies), vec![3, 4]);

    let default = FetchCommentsResponse::parse(&rows, &None);
    assert_eq!(collect_ids(&default), vec![2, 1]);

    let oldest = FetchCommentsResponse::parse(&rows, &Some(Sort::Oldest));
    assert_eq!(collect_ids(&oldest), vec![1, 2]);
    assert_eq!(collect_ids(&oldest[0].replies), vec![4, 3]);

    let highest = FetchCommentsResponse::parse(&rows, &Some(Sort::Highest));
    assert_eq!(collect_ids(&highest), vec![1, 2]);
    // child 4 carries one descendant, child 3 none
    assert_eq!(collect_ids(&highest[0].replies), vec![4, 3]);

    let lowest = FetchCommentsResponse::parse(&rows, &Some(Sort::Lowest));
    assert_eq!(collect_ids(&lowest), vec![2, 1]);
    assert_eq!(collect_ids(&lowest[1].replies), vec![3, 4]);
}

#[test]
fn ties_break_by_id_and_stay_under_their_parent() {
    let rows = vec![
        row(1, None, 100, 2),
        row(2, None, 100, 0),
        row(3, Some(1), 100, 0),
        row(4, Some(1), 100, 0),
    ];
    let tree = FetchCommentsResponse::parse(&rows, &Some(Sort::Latest));
    assert_eq!(collect_ids(&tree), vec![1, 2]);
    assert_eq!(collect_ids(&tree[0].replies), vec![3, 4]);
    assert!(tree[1].replies.is_empty());
}

#[test]
fn empty_input_gives_empty_forest() {
    let rows: Vec<FetchCommentsResponse> = Vec::new();
    let tree = FetchCommentsResponse::parse(&rows, &None);
    assert!(tree.is_empty());
}

fn seeded_store() -> (Store, UserAuthDetails, UserAuthDetails) {
    let mut store = Store::new();
    let alice = CreateAccountDetails {
        username: Some("alice".to_owned()),
        password: Some("secret123".to_owned()),
        confirm_password: Some("secret123".to_owned()),
    }.add_db_client().insert_to_db(&mut store, NOW).unwrap();
    let bob = CreateAccountDetails {
        username: Some("bob".to_owned()),
        password: Some("secret123".to_owned()),
        confirm_password: Some("secret123".to_owned()),
    }.add_db_client().insert_to_db(&mut store, NOW).unwrap();
    // posts get ids 1..=7 so that the scenario's ids exist
    for k in 0..7 {
        CreatePostDetails {
            title: format!("post {}", k),
            topics: vec!["Rust".to_owned()],
            body: "body".to_owned(),
            db_client: NoDBClient,
            user_details: NoUserDetails,
            validated: NotValidated,
        }.add_db_client()
            .add_user_details(&alice)
            .validate()
            .unwrap()
            .create_post(&mut store, NOW + k)
            .unwrap();
    }
    (store, alice, bob)
}

fn comment(body: &str, parent: Option<i32>) -> CreateComment<NoDBClient, NoUserDetails, NotValidated> {
    CreateComment {
        post_id: 0,
        body: body.to_owned(),
        comment_id: parent,
        db_client: NoDBClient,
        user_details: NoUserDetails,
        validated: NotValidated,
    }
}

#[test]
fn comment_under_wrong_post_is_rejected() {
    let (mut store, alice, bob) = seeded_store();
    // a comment that belongs to post 7
    let c7 = comment("on seven", None)
        .add_details(7, &alice)
        .validate(&store)
        .unwrap()
        .exec(&mut store, NOW)
        .unwrap();
    // pointing a post-5 comment at it must fail
    let err = comment("under five?", Some(c7))
        .add_details(5, &bob)
        .validate(&store)
        .err()
        .expect("cross-post parent is refused");
    assert_eq!(err.message, "Comment does not exists in post");
    assert_eq!(err.name, None);
}

#[test]
fn comment_body_is_trimmed_and_bounded() {
    let (mut store, alice, _) = seeded_store();
    let id = comment("  hello there  ", None)
        .add_details(1, &alice)
        .validate(&store)
        .unwrap()
        .exec(&mut store, NOW)
        .unwrap();
    let stored: &CommentRow = store.comments.iter().find(|c| c.id == id).unwrap();
    assert_eq!(stored.body, "hello there");

    let long = "x".repeat(501);
    let err = comment(&long, None).add_details(1, &alice).validate(&store).err().unwrap();
    assert_eq!(err.name.as_deref(), Some("body"));
    assert_eq!(err.message, "Comment should be less than 500 characters");
}

#[test]
fn fetch_comments_builds_tree_from_store() {
    let (mut store, alice, bob) = seeded_store();
    let root = comment("root", None).add_details(3, &alice).validate(&store).unwrap()
        .exec(&mut store, NOW + 10).unwrap();
    let child = comment("child", Some(root)).add_details(3, &bob).validate(&store).unwrap()
        .exec(&mut store, NOW + 20).unwrap();
    comment("grandchild", Some(child)).add_details(3, &alice).validate(&store).unwrap()
        .exec(&mut store, NOW + 30).unwrap();
    comment("other post", None).add_details(4, &bob).validate(&store).unwrap()
        .exec(&mut store, NOW + 40).unwrap();

    let q = FetchComments {
        sort: Some(Sort::Latest),
        page: None,
        post_id: 0,
        db_client: NoDBClient,
        validated: NotValidated,
    };
    let tree = q.add_details(3).validate().unwrap().fetch_comments(&store);
    assert_eq!(tree.len(), 1);
    assert_eq!(tree[0].body, "root");
    assert_eq!(tree[0].reply_count, 2);
    assert_eq!(tree[0].author.name, "alice");
    assert_eq!(tree[0].replies.len(), 1);
    assert_eq!(tree[0].replies[0].body, "child");
    assert_eq!(tree[0].replies[0].reply_count, 1);
    assert_eq!(tree[0].replies[0].replies.len(), 1);
    assert_eq!(tree[0].replies[0].replies[0].body, "grandchild");
    assert_eq!(tree[0].replies[0].replies[0].reply_count, 0);
}

#[test]
fn fetch_comments_requires_post_id() {
    let q = FetchComments {
        sort: None,
        page: None,
        post_id: 0,
        db_client: NoDBClient,
        validated: NotValidated,
    };
    let err = q.add_details(0).validate().err().unwrap();
    assert_eq!(err.message, "Post id not added");
    assert_eq!(err.kind, ErrorKind::BadInput);
}

#[test]
fn comment_row_assembly_fails_fast() {
    let full = CommentRowRaw {
        id: Some(5),
        body: Some("b".to_owned()),
        comment_id: Some(None),
        author_id: Some(2),
        author_name: Some("n".to_owned()),
        replies: Some(0),
        created_at: Some(NOW),
    };
    let ok = FetchCommentsResponse::from_row(&full).unwrap();
    assert_eq!(ok.id, 5);
    assert_eq!(ok.comment_id, None);
    assert_eq!(ok.author.id, 2);

    let missing = CommentRowRaw { replies: None, ..full };
    let err = FetchCommentsResponse::from_row(&missing).unwrap_err();
    assert_eq!(err.kind, ErrorKind::ServerFault);
    assert_eq!(err.message, "Error converting postgres to rust type");
}
