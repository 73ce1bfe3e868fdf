use forum_api::auth::{CreateAccountDetails, UserAuthDetails};
use forum_api::handler_utils::{NoDBClient, NotValidated, NoUserDetails};
use forum_api::posts::{CreatePostDetails, FetchPost, FetchPosts, FetchPostsResponse, PostRowRaw,
    SavePost};
use forum_api::store::Store;
use forum_api::{ErrorKind, Sort};

const NOW: i64 = 1_700_000_000;

fn new_user(store: &mut Store, name: &str) -> UserAuthDetails {
    CreateAccountDetails {
        username: Some(name.to_owned()),
        password: Some("secret123".to_owned()),
        confirm_password: Some("secret123".to_owned()),
    }.add_db_client().insert_to_db(store, NOW).unwrap()
}

fn post_payload(title: &str, topics: &[&str], body: &str) -> CreatePostDetails<
    NoDBClient,
    NoUserDetails,
    NotValidated,
> {
    CreatePostDetails {
        title: title.to_owned(),
        topics: topics.iter().map(|s| s.to_string()).collect(),
        body: body.to_owned(),
        db_client: NoDBClient,
        user_details: NoUserDetails,
        validated: NotValidated,
    }
}

fn create_post(store: &mut Store, user: &UserAuthDetails, title: &str, topics: &[&str], at: i64) -> i32 {
    post_payload(title, topics, "some body")
        .add_db_client()
        .add_user_details(user)
        .validate()
        .unwrap()
        .create_post(store, at)
        .unwrap()
}

#[test]
fn post_validation_error_order() {
    let mut store = Store::new();
    let u = new_user(&mut store, "alice");
    let v = |t: &str, topics: &[&str], b: &str| {
        post_payload(t, topics, b).add_db_client().add_user_details(&u).validate().map(|_| ()).err().unwrap()
    };
    assert_eq!(v("  ", &["Rust"], "b").message, "Post title has no content");
    assert_eq!(v("t", &["Rust"], " ").message, "Post body has no content");
    let long_title = "t".repeat(101);
    assert_eq!(
        v(&long_title, &["Rust"], "b").message,
        "Post title should not have more 100 characters"
    );
    let long_body = "b".repeat(1001);
    assert_eq!(
        v("t", &["Rust"], &long_body).message,
        "Post body should not have more 1000 characters"
    );
    let long_topic = "a".repeat(51);
    let e = v("t", &[&long_topic], "b");
    assert_eq!(e.message, "Topic names should not be more than 50 characters");
    assert_eq!(e.name, None);
    let e = v("t", &["!!!"], "b");
    assert_eq!(e.name.as_deref(), Some("topics"));
    assert_eq!(e.message, "Please add topics");
    let e = v("t", &[], "b");
    assert_eq!(e.message, "Please add topics");
}

#[test]
fn post_validation_normalizes_topics() {
    let mut store = Store::new();
    let u = new_user(&mut store, "alice");
    let validated = post_payload(" My Title ", &["  c++ programming!! ", "123", "rust"], " b ")
        .add_db_client()
        .add_user_details(&u)
        .validate()
        .unwrap();
    assert_eq!(validated.title, "My Title");
    assert_eq!(validated.body, "b");
    assert_eq!(validated.topics, vec!["C programming".to_owned(), "Rust".to_owned()]);
}

#[test]
fn create_post_upserts_topics_and_links() {
    let mut store = Store::new();
    let u = new_user(&mut store, "alice");
    let p1 = create_post(&mut store, &u, "first", &["rust", "verification"], NOW);
    assert_eq!(p1, 1);
    assert_eq!(store.posts.len(), 1);
    assert_eq!(store.topics.len(), 2);
    assert_eq!(store.posts_topics.len(), 2);
    let rust_color = store.topics.iter().find(|t| t.name == "Rust").unwrap().color;

    // conflicting name keeps the existing row, color included
    let p2 = create_post(&mut store, &u, "second", &["rust", "testing"], NOW + 1);
    assert_eq!(p2, 2);
    assert_eq!(store.topics.len(), 3);
    assert_eq!(store.posts_topics.len(), 4);
    let rust_rows: Vec<_> = store.topics.iter().filter(|t| t.name == "Rust").collect();
    assert_eq!(rust_rows.len(), 1);
    assert_eq!(rust_rows[0].color, rust_color);

    // duplicate names inside one request link once
    let p3 = create_post(&mut store, &u, "third", &["rust", "RUST!"], NOW + 2);
    let links: Vec<_> = store.posts_topics.iter().filter(|l| l.post_id == p3).collect();
    assert_eq!(links.len(), 1);
}

#[test]
fn fetch_posts_assembles_counts_topics_and_saved() {
    let mut store = Store::new();
    let alice = new_user(&mut store, "alice");
    let bob = new_user(&mut store, "bob");
    let p1 = create_post(&mut store, &alice, "hello", &["rust"], NOW);
    SavePost { user_details: bob.clone(), id: p1 }.exec(&mut store).unwrap();

    // anonymous: saved missing from the query, read back as false
    let q = FetchPosts {
        sort: None,
        limit: None,
        page: None,
        topics: None,
        db_client: NoDBClient,
        user_details: NoUserDetails,
        validated: NotValidated,
    };
    let list = q.add_db_client().validate().unwrap().fetch_posts(&store).unwrap();
    assert_eq!(list.len(), 1);
    let r = &list[0];
    assert_eq!(r.id, p1);
    assert_eq!(r.title, "hello");
    assert_eq!(r.author.id, alice.id);
    assert_eq!(r.author.name, "alice");
    assert_eq!(r.topics.len(), 1);
    assert_eq!(r.topics[0].0, "Rust");
    assert!(["green", "blue", "red", "yellow", "purple"].contains(&r.topics[0].1.as_str()));
    assert_eq!(r.comments, 0);
    assert_eq!(r.saves, 1);
    assert!(!r.saved);

    // signed in as bob: the saved flag is bob's
    let q = FetchPosts {
        sort: None,
        limit: None,
        page: None,
        topics: None,
        db_client: NoDBClient,
        user_details: NoUserDetails,
        validated: NotValidated,
    };
    let list = q.add_db_client().add_user_details(&bob).validate().unwrap().fetch_posts(
        &store,
    ).unwrap();
    assert!(list[0].saved);
}

#[test]
fn fetch_posts_sorts_and_pages() {
    let mut store = Store::new();
    let alice = new_user(&mut store, "alice");
    let bob = new_user(&mut store, "bob");
    let p1 = create_post(&mut store, &alice, "one", &["rust"], 100);
    let p2 = create_post(&mut store, &alice, "two", &["rust"], 300);
    let p3 = create_post(&mut store, &alice, "three", &["rust"], 200);
    // p3 scores highest: one save counts double
    SavePost { user_details: bob.clone(), id: p3 }.exec(&mut store).unwrap();

    let fetch = |sort: Option<Sort>, limit: Option<i64>, page: Option<i64>| {
        FetchPosts {
            sort,
            limit,
            page,
            topics: None,
            db_client: NoDBClient,
            user_details: NoUserDetails,
            validated: NotValidated,
        }.add_db_client().validate().unwrap().fetch_posts(&store)
    };
    let ids = |v: &Vec<FetchPostsResponse>| v.iter().map(|r| r.id).collect::<Vec<_>>();

    assert_eq!(ids(&fetch(None, None, None).unwrap()), vec![p2, p3, p1]);
    assert_eq!(ids(&fetch(Some(Sort::Latest), None, None).unwrap()), vec![p2, p3, p1]);
    assert_eq!(ids(&fetch(Some(Sort::Oldest), None, None).unwrap()), vec![p1, p3, p2]);
    assert_eq!(ids(&fetch(Some(Sort::Highest), None, None).unwrap()), vec![p3, p2, p1]);
    assert_eq!(ids(&fetch(Some(Sort::Lowest), None, None).unwrap()), vec![p2, p1, p3]);

    assert_eq!(ids(&fetch(Some(Sort::Latest), Some(2), None).unwrap()), vec![p2, p3]);
    assert_eq!(ids(&fetch(Some(Sort::Latest), Some(2), Some(2)).unwrap()), vec![p1]);
    assert_eq!(ids(&fetch(Some(Sort::Latest), Some(2), Some(3)).unwrap()), Vec::<i32>::new());

    let err = fetch(None, Some(-1), None).unwrap_err();
    assert_eq!(err.message, "LIMIT must not be negative");
    let err = fetch(None, Some(5), Some(0)).unwrap_err();
    assert_eq!(err.message, "OFFSET must not be negative");
}

#[test]
fn fetch_posts_limit_is_capped() {
    let q = FetchPosts {
        sort: None,
        limit: Some(51),
        page: None,
        topics: None,
        db_client: NoDBClient,
        user_details: NoUserDetails,
        validated: NotValidated,
    };
    let err = q.add_db_client().validate().err().unwrap();
    assert_eq!(err.message, "Cannot retrieve more than 50 posts");
    assert_eq!(err.kind, ErrorKind::BadInput);
}

#[test]
fn fetch_single_post_and_not_found() {
    let mut store = Store::new();
    let alice = new_user(&mut store, "alice");
    let p1 = create_post(&mut store, &alice, "solo", &["rust"], NOW);
    SavePost { user_details: alice.clone(), id: p1 }.exec(&mut store).unwrap();

    let r = FetchPost { user_id: Some(alice.id), id: p1 }.exec(&store).unwrap();
    assert_eq!(r.title, "solo");
    assert!(r.saved);
    let r = FetchPost { user_id: None, id: p1 }.exec(&store).unwrap();
    assert!(!r.saved);

    let e = FetchPost { user_id: None, id: 999 }.exec(&store).unwrap_err();
    assert_eq!(e.kind, ErrorKind::NotFound);
    assert_eq!(e.message, "No post found with such id");
}

#[test]
fn saving_twice_leaves_one_row_and_unsaving_missing_is_noop() {
    let mut store = Store::new();
    let alice = new_user(&mut store, "alice");
    let p1 = create_post(&mut store, &alice, "solo", &["rust"], NOW);

    let cmd = SavePost { user_details: alice.clone(), id: p1 };
    cmd.exec(&mut store).unwrap();
    cmd.exec(&mut store).unwrap();
    let rows: Vec<_> = store.saved_posts.iter()
        .filter(|s| s.user_id == alice.id && s.post_id == p1)
        .collect();
    assert_eq!(rows.len(), 1);
    assert_eq!(store.saved_posts.len(), 1);

    // unsaving a pair that was never saved changes nothing
    let other = SavePost { user_details: alice.clone(), id: 999 };
    other.exec_reverse(&mut store).unwrap();
    assert_eq!(store.saved_posts.len(), 1);

    // unsaving the saved pair removes it
    cmd.exec_reverse(&mut store).unwrap();
    assert!(store.saved_posts.is_empty());
}

#[test]
fn unsave_removes_only_the_matching_pair() {
    let mut store = Store::new();
    let alice = new_user(&mut store, "alice");
    let bob = new_user(&mut store, "bob");
    let p1 = create_post(&mut store, &alice, "one", &["rust"], NOW);
    let p2 = create_post(&mut store, &alice, "two", &["rust"], NOW);
    SavePost { user_details: alice.clone(), id: p1 }.exec(&mut store).unwrap();
    SavePost { user_details: alice.clone(), id: p2 }.exec(&mut store).unwrap();
    SavePost { user_details: bob.clone(), id: p1 }.exec(&mut store).unwrap();

    SavePost { user_details: alice.clone(), id: p1 }.exec_reverse(&mut store).unwrap();
    assert_eq!(store.saved_posts.len(), 2);
    assert!(store.saved_posts.iter().any(|s| s.user_id == alice.id && s.post_id == p2));
    assert!(store.saved_posts.iter().any(|s| s.user_id == bob.id && s.post_id == p1));
}

#[test]
fn post_row_assembly_fails_fast_and_splits_topics() {
    let full = PostRowRaw {
        id: Some(3),
        title: Some("t".to_owned()),
        body: Some("b".to_owned()),
        topics: Some(vec!["Rust:green".to_owned(), "C:red".to_owned()]),
        author_id: Some(1),
        author_name: Some("alice".to_owned()),
        comments: Some(4),
        saves: Some(2),
        saved: None,
        created_at: Some(NOW),
    };
    let ok = FetchPostsResponse::from_row(&full).unwrap();
    assert_eq!(ok.id, 3);
    assert_eq!(ok.topics, vec![
        ("Rust".to_owned(), "green".to_owned()),
        ("C".to_owned(), "red".to_owned()),
    ]);
    assert!(!ok.saved);
    assert_eq!(ok.comments, 4);

    let with_saved = PostRowRaw { saved: Some(true), ..full };
    assert!(FetchPostsResponse::from_row(&with_saved).unwrap().saved);

    let missing = PostRowRaw { title: None, ..with_saved };
    let err = FetchPostsResponse::from_row(&missing).unwrap_err();
    assert_eq!(err.kind, ErrorKind::ServerFault);
    assert_eq!(err.message, "Error converting postgres types");
}
