use forum_api::auth::{CreateAccountDetails, UserAuthDetails};
use forum_api::handler_utils::{NoDBClient, NotValidated, NoUserDetails};
use forum_api::hashtags::{FetchTrendingHashtags, TrendingHashtagsResponse, TrendingRowRaw};
use forum_api::posts::{CreatePostDetails, SavePost};
use forum_api::store::Store;
use forum_api::users::{FetchPostsCreatedByUser, FetchPostsSavedByUser, FetchUserDetails,
    UserDetails, UserRowRaw};
use forum_api::ErrorKind;

const NOW: i64 = 1_700_000_000;
const DAY: i64 = 86400;

fn new_user(store: &mut Store, name: &str) -> UserAuthDetails {
    CreateAccountDetails {
        username: Some(name.to_owned()),
        password: Some("secret123".to_owned()),
        confirm_password: Some("secret123".to_owned()),
    }.add_db_client().insert_to_db(store, NOW).unwrap()
}

fn create_post(store: &mut Store, user: &UserAuthDetails, title: &str, topics: &[&str], at: i64) -> i32 {
    CreatePostDetails {
        title: title.to_owned(),
        topics: topics.iter().map(|s| s.to_string()).collect(),
        body: "some body".to_owned(),
        db_client: NoDBClient,
        user_details: NoUserDetails,
        validated: NotValidated,
    }.add_db_client()
        .add_user_details(user)
        .validate()
        .unwrap()
        .create_post(store, at)
        .unwrap()
}

#[test]
fn fetch_user_details_found_and_missing() {
    let mut store = Store::new();
    let alice = new_user(&mut store, "alice");
    let d = FetchUserDetails { user_id: alice.id, db_client: NoDBClient }
        .add_db_client()
        .fetch(&store)
        .unwrap();
    assert_eq!(d.id, alice.id);
    assert_eq!(d.username, "alice");

    let e = FetchUserDetails { user_id: 42, db_client: NoDBClient }
        .add_db_client()
        .fetch(&store)
        .err()
        .unwrap();
    assert_eq!(e.kind, ErrorKind::NotFound);
    assert_eq!(e.message, "No user found with id 42");
}

#[test]
fn user_row_assembly_fails_fast() {
    let ok = UserDetails::from_row(&UserRowRaw { id: Some(1), username: Some("a".to_owned()) })
        .unwrap();
    assert_eq!(ok.id, 1);
    assert_eq!(ok.username, "a");
    let err = UserDetails::from_row(&UserRowRaw { id: Some(1), username: None }).err().unwrap();
    assert_eq!(err.message, "Error converting postgres types");
}

#[test]
fn listing_posts_created_by_one_account() {
    let mut store = Store::new();
    let alice = new_user(&mut store, "alice");
    let bob = new_user(&mut store, "bob");
    let a1 = create_post(&mut store, &alice, "a1", &["rust"], 100);
    let a2 = create_post(&mut store, &alice, "a2", &["rust"], 200);
    create_post(&mut store, &bob, "b1", &["rust"], 300);

    let list = FetchPostsCreatedByUser {
        user_id: alice.id,
        db_client: NoDBClient,
        user_details: NoUserDetails,
    }.add_db_client().fetch_posts(&store).unwrap();
    let ids: Vec<i32> = list.iter().map(|r| r.id).collect();
    assert_eq!(ids, vec![a2, a1]);
    assert!(list.iter().all(|r| r.author.name == "alice"));
    assert!(list.iter().all(|r| !r.saved));
}

#[test]
fn listing_posts_saved_by_one_account_counts_no_saves() {
    let mut store = Store::new();
    let alice = new_user(&mut store, "alice");
    let bob = new_user(&mut store, "bob");
    let a1 = create_post(&mut store, &alice, "a1", &["rust"], 100);
    let a2 = create_post(&mut store, &alice, "a2", &["rust"], 200);
    create_post(&mut store, &alice, "a3", &["rust"], 300);
    SavePost { user_details: bob.clone(), id: a1 }.exec(&mut store).unwrap();
    SavePost { user_details: bob.clone(), id: a2 }.exec(&mut store).unwrap();

    let list = FetchPostsSavedByUser {
        user_id: bob.id,
        db_client: NoDBClient,
        user_details: NoUserDetails,
    }.add_db_client().fetch_posts(&store).unwrap();
    let ids: Vec<i32> = list.iter().map(|r| r.id).collect();
    assert_eq!(ids, vec![a2, a1]);
    // the listing reports no aggregate save counts
    assert!(list.iter().all(|r| r.saves == 0));

    let list = FetchPostsSavedByUser {
        user_id: bob.id,
        db_client: NoDBClient,
        user_details: NoUserDetails,
    }.add_db_client().add_user_details(&bob).fetch_posts(&store).unwrap();
    assert!(list.iter().all(|r| r.saved));
}

#[test]
fn trending_ranks_by_links_within_window_capped_at_seven() {
    let mut store = Store::new();
    let alice = new_user(&mut store, "alice");
    // nine topics, created now; the k-th gets k + 1 links
    let names = ["alpha", "bravo", "carol", "delta", "echoes", "foxtrot", "golfer", "hotel",
        "india"];
    for (k, name) in names.iter().enumerate() {
        for _ in 0..(k + 1) {
            create_post(&mut store, &alice, "t", &[name], NOW);
        }
    }
    // a heavily linked topic created long ago falls outside the window
    for _ in 0..20 {
        create_post(&mut store, &alice, "t", &["ancient"], NOW);
    }
    store.topics.iter_mut().find(|t| t.name == "Ancient").unwrap().created_at = NOW - 3 * DAY;

    let list = FetchTrendingHashtags { db_client: NoDBClient }
        .add_db_client()
        .fetch(&store, NOW + DAY)
        .unwrap();
    assert_eq!(list.len(), 7);
    let got: Vec<&str> = list.iter().map(|r| r.name.as_str()).collect();
    assert_eq!(got, vec!["India", "Hotel", "Golfer", "Foxtrot", "Echoes", "Delta", "Carol"]);
    assert!(["green", "blue", "red", "yellow", "purple"].contains(&list[0].color.as_str()));
}

#[test]
fn trending_row_assembly_reports_first_missing_column() {
    let ok = TrendingHashtagsResponse::value(&TrendingRowRaw {
        name: Some("Rust".to_owned()),
        color: Some("green".to_owned()),
    }).unwrap();
    assert_eq!(ok.name, "Rust");
    assert_eq!(ok.color, "green");

    let e = TrendingHashtagsResponse::value(&TrendingRowRaw { name: None, color: None })
        .err()
        .unwrap();
    assert_eq!(e.message, "Error converting hashtag name postgres to rust type");
    let e = TrendingHashtagsResponse::value(&TrendingRowRaw {
        name: Some("Rust".to_owned()),
        color: None,
    }).err().unwrap();
    assert_eq!(e.message, "Error converting color postgres to rust type");
}
