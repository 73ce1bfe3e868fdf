//! Account lookups and the per-account post listings: the posts an
//! account wrote, and the posts it saved.

use vstd::prelude::*;
use vstd::relations::sorted_by;

use crate::auth::UserAuthDetails;
use crate::handler_utils::{NoDBClient, NoUserDetails, WithDBClient, WithUserDetails};
use crate::posts::{collect_posts, post_le, responses_match, sort_posts, FetchPostsResponse,
    PostSelector};
use crate::store::{user_index_of, Store};
use crate::text::{dec_i32, i32_to_string};
use crate::{ApiError, ErrorKind};

verus! {

/// The public fields of an account.
pub struct UserDetails {
    pub id: i32,
    pub username: String,
}

/// The columns of one fetched account row, each already decoded or not.
pub struct UserRowRaw {
    pub id: Option<i32>,
    pub username: Option<String>,
}

impl UserDetails {
    /// Maps one raw row to the account's details; any missing column
    /// fails the whole mapping.
    pub fn from_row(row: &UserRowRaw) -> (res: Result<UserDetails, ApiError>)
        ensures
            res is Ok <==> (row.id is Some && row.username is Some),
            match res {
                Ok(out) => (row.id matches Some(id) && out.id == id) && (row.username matches Some(
                    n,
                ) && out.username@ == n@),
                Err(e) => e.kind == ErrorKind::ServerFault && e.message@
                    == "Error converting postgres types"@,
            },
    {
        match (&row.id, &row.username) {
            (Some(id), Some(username)) => Ok(
                UserDetails { id: *id, username: username.clone() },
            ),
            _ => Err(ApiError::msg(ErrorKind::ServerFault, "Error converting postgres types")),
        }
    }
}

/// The account-details request.
pub struct FetchUserDetails<D> {
    pub user_id: i32,
    pub db_client: D,
}

impl FetchUserDetails<NoDBClient> {
    /// Attaches the store capability; the store value itself is handed to
    /// the fetch.
    pub fn add_db_client(self) -> (r: FetchUserDetails<WithDBClient>)
        ensures
            r.user_id == self.user_id,
    {
        FetchUserDetails { user_id: self.user_id, db_client: WithDBClient }
    }
}

impl FetchUserDetails<WithDBClient> {
    /// Looks the account up by id.
    pub fn fetch(&self, store: &Store) -> (r: Result<UserDetails, ApiError>)
        ensures
            match r {
                Ok(d) => exists|i: int|
                    0 <= i < store.users@.len() && (#[trigger] store.users@[i]).id == self.user_id
                        && d.id == self.user_id && d.username@ == store.users@[i].username@,
                Err(e) => {
                    &&& !user_index_of(store.users@, self.user_id)
                    &&& e.kind == ErrorKind::NotFound
                    &&& e.name is None
                    &&& e.message@ == "No user found with id "@ + dec_i32(self.user_id as int)
                },
            },
    {
        match store.find_user_by_id(self.user_id) {
            Some(i) => {
                let u = &store.users[i];
                Ok(UserDetails { id: self.user_id, username: u.username.clone() })
            },
            None => {
                let mut message = "No user found with id ".to_owned();
                message.append(i32_to_string(self.user_id).as_str());
                Err(ApiError { kind: ErrorKind::NotFound, name: None, message })
            },
        }
    }
}

// ---------- the per-account post listings ----------

/// What the per-account listings return: an ordering, newest first, of
/// exactly the assembled rows the selector lists.
pub open spec fn listing_result_ok(
    r: Seq<FetchPostsResponse>,
    s: Store,
    sel: PostSelector,
    viewer: Option<i32>,
    count_saves: bool,
) -> bool {
    exists|full: Seq<FetchPostsResponse>|
        #![trigger full.to_multiset()]
        {
            &&& responses_match(full, s, sel, viewer, count_saves)
            &&& r.to_multiset() == full.to_multiset()
            &&& sorted_by(r, |a: FetchPostsResponse, b: FetchPostsResponse| post_le(None, a, b))
        }
}

/// The posts an account wrote, as the listing fetches them.
pub struct FetchPostsCreatedByUser<D, U> {
    pub user_id: i32,
    pub db_client: D,
    pub user_details: U,
}

impl<U> FetchPostsCreatedByUser<NoDBClient, U> {
    /// Attaches the store capability; the store value itself is handed to
    /// the fetch.
    pub fn add_db_client(self) -> (r: FetchPostsCreatedByUser<WithDBClient, U>)
        ensures
            r.user_id == self.user_id,
            r.user_details == self.user_details,
    {
        FetchPostsCreatedByUser {
            user_id: self.user_id,
            db_client: WithDBClient,
            user_details: self.user_details,
        }
    }
}

impl<D> FetchPostsCreatedByUser<D, NoUserDetails> {
    /// Binds the authenticated caller to the query.
    pub fn add_user_details<'a>(self, user_details: &'a UserAuthDetails) -> (r:
        FetchPostsCreatedByUser<D, WithUserDetails<'a>>)
        ensures
            r.user_id == self.user_id,
            r.db_client == self.db_client,
            r.user_details.0 == user_details,
    {
        FetchPostsCreatedByUser {
            user_id: self.user_id,
            db_client: self.db_client,
            user_details: WithUserDetails(user_details),
        }
    }
}

impl FetchPostsCreatedByUser<WithDBClient, NoUserDetails> {
    /// The anonymous listing: no saved flags.
    pub fn fetch_posts(&self, store: &Store) -> (r: Result<Vec<FetchPostsResponse>, ApiError>)
        requires
            store.comments@.len() <= 0x7fff_ffff_ffff_ffff,
            store.saved_posts@.len() <= 0x7fff_ffff_ffff_ffff,
        ensures
            r matches Ok(list) && listing_result_ok(
                list@,
                *store,
                PostSelector::ByAuthor(self.user_id),
                None,
                true,
            ),
    {
        Ok(fetch_posts_listing(store, PostSelector::ByAuthor(self.user_id), None, true))
    }
}

impl<'a> FetchPostsCreatedByUser<WithDBClient, WithUserDetails<'a>> {
    /// The signed-in listing: saved flags relative to the caller.
    pub fn fetch_posts(&self, store: &Store) -> (r: Result<Vec<FetchPostsResponse>, ApiError>)
        requires
            store.comments@.len() <= 0x7fff_ffff_ffff_ffff,
            store.saved_posts@.len() <= 0x7fff_ffff_ffff_ffff,
        ensures
            r matches Ok(list) && listing_result_ok(
                list@,
                *store,
                PostSelector::ByAuthor(self.user_id),
                Some(self.user_details.0.id),
                true,
            ),
    {
        Ok(
            fetch_posts_listing(
                store,
                PostSelector::ByAuthor(self.user_id),
                Some(self.user_details.0.id),
                true,
            ),
        )
    }
}

/// The posts an account saved, as the listing fetches them; their own
/// save counts are not aggregated and read as zero.
pub struct FetchPostsSavedByUser<D, U> {
    pub user_id: i32,
    pub db_client: D,
    pub user_details: U,
}

impl<U> FetchPostsSavedByUser<NoDBClient, U> {
    /// Attaches the store capability; the store value itself is handed to
    /// the fetch.
    pub fn add_db_client(self) -> (r: FetchPostsSavedByUser<WithDBClient, U>)
        ensures
            r.user_id == self.user_id,
            r.user_details == self.user_details,
    {
        FetchPostsSavedByUser {
            user_id: self.user_id,
            db_client: WithDBClient,
            user_details: self.user_details,
        }
    }
}

impl<D> FetchPostsSavedByUser<D, NoUserDetails> {
    /// Binds the authenticated caller to the query.
    pub fn add_user_details<'a>(self, user_details: &'a UserAuthDetails) -> (r:
        FetchPostsSavedByUser<D, WithUserDetails<'a>>)
        ensures
            r.user_id == self.user_id,
            r.db_client == self.db_client,
            r.user_details.0 == user_details,
    {
        FetchPostsSavedByUser {
            user_id: self.user_id,
            db_client: self.db_client,
            user_details: WithUserDetails(user_details),
        }
    }
}

impl FetchPostsSavedByUser<WithDBClient, NoUserDetails> {
    /// The anonymous listing: no saved flags.
    pub fn fetch_posts(&self, store: &Store) -> (r: Result<Vec<FetchPostsResponse>, ApiError>)
        requires
            store.comments@.len() <= 0x7fff_ffff_ffff_ffff,
            store.saved_posts@.len() <= 0x7fff_ffff_ffff_ffff,
        ensures
            r matches Ok(list) && listing_result_ok(
                list@,
                *store,
                PostSelector::SavedBy(self.user_id),
                None,
                false,
            ),
    {
        Ok(fetch_posts_listing(store, PostSelector::SavedBy(self.user_id), None, false))
    }
}

impl<'a> FetchPostsSavedByUser<WithDBClient, WithUserDetails<'a>> {
    /// The signed-in listing: saved flags relative to the caller.
    pub fn fetch_posts(&self, store: &Store) -> (r: Result<Vec<FetchPostsResponse>, ApiError>)
        requires
            store.comments@.len() <= 0x7fff_ffff_ffff_ffff,
            store.saved_posts@.len() <= 0x7fff_ffff_ffff_ffff,
        ensures
            r matches Ok(list) && listing_result_ok(
                list@,
                *store,
                PostSelector::SavedBy(self.user_id),
                Some(self.user_details.0.id),
                false,
            ),
    {
        Ok(
            fetch_posts_listing(
                store,
                PostSelector::SavedBy(self.user_id),
                Some(self.user_details.0.id),
                false,
            ),
        )
    }
}

/// Assembles and orders, newest first, the posts the selector lists.
fn fetch_posts_listing(
    store: &Store,
    sel: PostSelector,
    viewer: Option<i32>,
    count_saves: bool,
) -> (r: Vec<FetchPostsResponse>)
    requires
        store.comments@.len() <= 0x7fff_ffff_ffff_ffff,
        store.saved_posts@.len() <= 0x7fff_ffff_ffff_ffff,
    ensures
        listing_result_ok(r@, *store, sel, viewer, count_saves),
{
    let mut list = collect_posts(store, sel, viewer, count_saves);
    let ghost full = list@;
    sort_posts(&mut list, &None);
    proof {
        assert(responses_match(full, *store, sel, viewer, count_saves));
        assert(list@.to_multiset() == full.to_multiset());
    }
    list
}

} // verus!
