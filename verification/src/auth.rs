//! Account creation and login: the staged validation of the request
//! payloads, the store writes, and the signed identity token. Password
//! hashing and token signing are calls into outside crates behind trusted
//! wrappers; everything around them is verified.

use vstd::prelude::*;
use vstd::string::StrSliceExecFns;
use vstd::string::StringExecFns;

use crate::store::{Store, UserRow, username_taken};
use crate::{ApiError, ErrorKind};

use hmac::Mac;
use jwt::{SignWithKey, VerifyWithKey};

verus! {

/// Sessions expire two weeks after issuance.
pub const SESSION_LIFETIME_SECONDS: i64 = 1209600;

/// The authenticated caller: what the signed token carries.
#[derive(Debug)]
pub struct UserAuthDetails {
    pub id: i32,
    pub username: String,
    pub expires_at: i64,
}

impl Clone for UserAuthDetails {
    fn clone(&self) -> (r: Self)
        ensures
            r == *self,
    {
        UserAuthDetails {
            id: self.id,
            username: self.username.clone(),
            expires_at: self.expires_at,
        }
    }
}

/// The outcome of token extraction for a request: the caller's identity
/// when a valid token was presented.
pub struct UserAuth {
    pub details: Option<UserAuthDetails>,
}

impl UserAuth {
    /// The signed-in gate the guarded handlers run first: the caller's
    /// identity, or the forbidden error an anonymous request gets.
    pub fn require_signed_in(self) -> (r: Result<UserAuthDetails, ApiError>)
        ensures
            match r {
                Ok(u) => self.details matches Some(d) && d == u,
                Err(e) => {
                    &&& self.details is None
                    &&& e.kind == ErrorKind::Forbidden
                    &&& e.name matches Some(n) && n@ == "re-auth"@
                    &&& e.message@ == "User not signed in"@
                },
            },
    {
        match self.details {
            Some(u) => Ok(u),
            None => Err(ApiError::field(ErrorKind::Forbidden, "re-auth", "User not signed in")),
        }
    }
}

// ---------- the identity token ----------

/// The token that signing the triple (id, username, expires_at) with the
/// given secret produces. The token embeds its claims, so equal tokens
/// carry equal claims; nothing else is assumed about its shape.
pub uninterp spec fn token_of(secret: Seq<char>, id: int, username: Seq<char>, expires_at: int) -> Seq<char>;

/// Relies on `jwt::SignWithKey` for serde claims together with
/// `hmac::Hmac<sha2::Sha256>`: signing is a function of the secret and the
/// claims alone, and this path cannot fail (HMAC takes any key length and
/// these claims always serialize).
#[verifier::external_body]
fn jwt_sign(secret: &str, id: i32, username: &String, expires_at: i64) -> (r: Result<
    String,
    String,
>)
    ensures
        r is Ok,
        r matches Ok(t) ==> t@ == token_of(secret@, id as int, username@, expires_at as int),
{
    let key: hmac::Hmac<sha2::Sha256> = match hmac::Hmac::new_from_slice(secret.as_bytes()) {
        Ok(k) => k,
        Err(e) => return Err(e.to_string()),
    };
    let mut claims = serde_json::Map::new();
    claims.insert("id".to_owned(), serde_json::Value::from(id));
    claims.insert("username".to_owned(), serde_json::Value::from(username.as_str()));
    claims.insert("expires_at".to_owned(), serde_json::Value::from(expires_at));
    serde_json::Value::Object(claims).sign_with_key(&key).map_err(|e| e.to_string())
}

/// Whenever the token is one that signing some triple of claims with this
/// secret yields, decoding returned exactly that triple.
pub open spec fn decodes_signed_claims(
    secret: Seq<char>,
    token: Seq<char>,
    r: Result<UserAuthDetails, String>,
) -> bool {
    forall|id: i32, username: Seq<char>, expires_at: i64|
        token == token_of(secret, id as int, username, expires_at as int) ==> (r matches Ok(u)
            && u.id == id && u.username@ == username && u.expires_at == expires_at)
}

/// What decoding a token with a secret yields: the embedded claim triple
/// (id, username, expiry) when the signature verifies under the secret
/// and the claims parse, nothing otherwise. Verification is a function of
/// the secret and the token alone.
pub uninterp spec fn decoded_claims(secret: Seq<char>, token: Seq<char>) -> Option<(i32, Seq<char>, i64)>;

/// Relies on `jwt::VerifyWithKey` for serde claims together with
/// `hmac::Hmac<sha2::Sha256>`: verifying a token signed with the same
/// secret returns exactly the claims that were signed (the token embeds
/// its claims, so a token equal to a signed one carries that token's
/// claims), and the outcome is deterministic in the secret and the token.
#[verifier::external_body]
fn jwt_decode(secret: &str, token: &str) -> (r: Result<UserAuthDetails, String>)
    ensures
        decodes_signed_claims(secret@, token@, r),
        match decoded_claims(secret@, token@) {
            Some(c) => r matches Ok(u) && u.id == c.0 && u.username@ == c.1 && u.expires_at
                == c.2,
            None => r is Err,
        },
{
    let key: hmac::Hmac<sha2::Sha256> = hmac::Hmac::new_from_slice(secret.as_bytes()).map_err(
        |e| e.to_string(),
    )?;
    let v: serde_json::Value = token.verify_with_key(&key).map_err(|e| e.to_string())?;
    let id = v.get("id").and_then(|x| x.as_i64()).ok_or("malformed claims".to_owned())?;
    let username = v.get("username").and_then(|x| x.as_str()).ok_or("malformed claims".to_owned())?;
    let expires_at = v.get("expires_at").and_then(|x| x.as_i64()).ok_or(
        "malformed claims".to_owned(),
    )?;
    Ok(UserAuthDetails { id: id as i32, username: username.to_owned(), expires_at })
}

impl UserAuthDetails {
    /// Signs the identity as a token.
    pub fn to_jwt(self, secret: &str) -> (r: String)
        ensures
            r@ == token_of(secret@, self.id as int, self.username@, self.expires_at as int),
    {
        match jwt_sign(secret, self.id, &self.username, self.expires_at) {
            Ok(t) => t,
            Err(_) => {
                proof {
                    assert(false);
                }
                String::new()
            },
        }
    }

    /// Decodes and checks a presented token: the identity comes back only
    /// while it is not yet expired.
    pub fn from_jwt(token: &str, secret: &str, now: i64) -> (r: Result<UserAuthDetails, String>)
        ensures
            r matches Ok(u) ==> now < u.expires_at,
            r matches Ok(u) ==> (decoded_claims(secret@, token@) matches Some(c) && u.id == c.0
                && u.username@ == c.1 && u.expires_at == c.2),
            decoded_claims(secret@, token@) is None ==> r is Err,
            forall|id: i32, username: Seq<char>, expires_at: i64|
                token@ == token_of(secret@, id as int, username, expires_at as int) ==> if now
                    < expires_at {
                    r matches Ok(u) && u.id == id && u.username@ == username && u.expires_at
                        == expires_at
                } else {
                    r matches Err(m) && m@ == "Token expired"@
                },
    {
        match jwt_decode(secret, token) {
            Err(e) => Err(e),
            Ok(u) => {
                if now >= u.expires_at {
                    Err("Token expired".to_owned())
                } else {
                    Ok(u)
                }
            },
        }
    }
}

// ---------- password hashing ----------

/// What verifying a password against a hash decides: `Some(b)` when the
/// hash parses and comparison gives `b`, `None` when the hash is
/// malformed. Verification recomputes from the salt inside the hash, so
/// the outcome is a function of the password and the hash alone.
pub uninterp spec fn bcrypt_matches(password: Seq<char>, hash: Seq<char>) -> Option<bool>;

/// Relies on `bcrypt::hash`: salted hashing of the password at the given
/// cost. The salt is drawn fresh, so nothing pins the output itself; what
/// holds of every salt is that verifying the password against the
/// returned hash succeeds.
#[verifier::external_body]
fn bcrypt_hash(password: &String, cost: u32) -> (r: Result<String, String>)
    ensures
        r matches Ok(h) ==> bcrypt_matches(password@, h@) == Some(true),
{
    bcrypt::hash(password, cost).map_err(|e| e.to_string())
}

/// Relies on `bcrypt::verify`: deterministic in the password and the
/// hash; a malformed hash is the one failure.
#[verifier::external_body]
fn bcrypt_verify(password: &String, hash: &String) -> (r: Result<bool, String>)
    ensures
        match bcrypt_matches(password@, hash@) {
            Some(b) => r matches Ok(rb) && rb == b,
            None => r is Err,
        },
{
    bcrypt::verify(password, hash).map_err(|e| e.to_string())
}

// ---------- account creation ----------

/// The account-creation request payload, before any capability is
/// attached.
pub struct CreateAccountDetails {
    pub username: Option<String>,
    pub password: Option<String>,
    pub confirm_password: Option<String>,
}

/// The same payload once a store handle has been attached.
#[derive(Debug)]
pub struct CreateAccountDetailsWithDBClient {
    pub username: Option<String>,
    pub password: Option<String>,
    pub confirm_password: Option<String>,
}

impl CreateAccountDetails {
    /// Attaches the store capability; the store value itself is handed to
    /// the methods that touch it.
    pub fn add_db_client(self) -> (r: CreateAccountDetailsWithDBClient)
        ensures
            r.username == self.username,
            r.password == self.password,
            r.confirm_password == self.confirm_password,
    {
        CreateAccountDetailsWithDBClient {
            username: self.username,
            password: self.password,
            confirm_password: self.confirm_password,
        }
    }
}

impl CreateAccountDetailsWithDBClient {
    pub open spec fn passwords_match(self) -> bool {
        match (self.password, self.confirm_password) {
            (Some(p), Some(c)) => p@ == c@,
            (None, None) => true,
            _ => false,
        }
    }

    /// Which structured error, if any, validation of this payload against
    /// the given user table yields; checks run in a fixed order and the
    /// first failure wins.
    pub open spec fn validation_error(self, users: Seq<UserRow>) -> Option<(Seq<char>, Seq<char>)> {
        if self.username is None {
            Some(("username"@, "Username is required"@))
        } else if self.password is None {
            Some(("password"@, "Password is required"@))
        } else if !self.passwords_match() {
            Some(("confirm_password"@, "Passwords does not match"@))
        } else if self.username->0@.len() > 50 {
            Some(("username"@, "Names should not be more than 50 characters"@))
        } else if self.password->0@.len() < 4 || self.password->0@.len() > 50 {
            Some(("password"@, "Password should greater than 3 but not more than 50 characters"@))
        } else if username_taken(users, self.username->0@) {
            Some(("username"@, "Username is already taken"@))
        } else {
            None
        }
    }

    /// Runs the pure checks in order, then the uniqueness check against
    /// the store; returns the username and password on success.
    pub fn validate_details(&self, store: &Store) -> (r: Result<(String, String), ApiError>)
        ensures
            match self.validation_error(store.users@) {
                Some(err) => (r matches Err(e) && e.kind == ErrorKind::BadInput && (e.name
                matches Some(n) && n@ == err.0) && e.message@ == err.1),
                None => r matches Ok(up) && up.0@ == self.username->0@ && up.1@
                    == self.password->0@,
            },
    {
        let username = match &self.username {
            None => {
                return Err(ApiError::field(ErrorKind::BadInput, "username", "Username is required"));
            },
            Some(u) => u,
        };
        let password = match &self.password {
            None => {
                return Err(ApiError::field(ErrorKind::BadInput, "password", "Password is required"));
            },
            Some(p) => p,
        };
        let matches_confirm = match &self.confirm_password {
            None => false,
            Some(c) => *password == *c,
        };
        if !matches_confirm {
            return Err(
                ApiError::field(ErrorKind::BadInput, "confirm_password", "Passwords does not match"),
            );
        }
        if username.as_str().unicode_len() > 50 {
            return Err(
                ApiError::field(
                    ErrorKind::BadInput,
                    "username",
                    "Names should not be more than 50 characters",
                ),
            );
        }
        let plen = password.as_str().unicode_len();
        if plen < 4 || plen > 50 {
            return Err(
                ApiError::field(
                    ErrorKind::BadInput,
                    "password",
                    "Password should greater than 3 but not more than 50 characters",
                ),
            );
        }
        if self.is_username_taken(store) {
            return Err(
                ApiError::field(ErrorKind::BadInput, "username", "Username is already taken"),
            );
        }
        Ok((username.clone(), password.clone()))
    }

    /// Whether the store already holds an account under this payload's
    /// username.
    fn is_username_taken(&self, store: &Store) -> (r: bool)
        ensures
            self.username matches Some(u) ==> r == username_taken(store.users@, u@),
            self.username is None ==> r == false,
    {
        match &self.username {
            None => false,
            Some(u) => store.find_user_by_name(u).is_some(),
        }
    }

    /// Hashes the payload's password with bcrypt at the service's fixed
    /// (intentionally low) cost.
    fn hash_password(&self) -> (r: Result<String, ApiError>)
        ensures
            self.password is None ==> (r matches Err(e) && e.kind == ErrorKind::BadInput && (
            e.name matches Some(n) && n@ == "password"@) && e.message@ == "Password is required"@),
            r matches Err(e) ==> e.kind == ErrorKind::BadInput && (e.name matches Some(n) && n@
                == "password"@),
            r matches Ok(h) ==> (self.password matches Some(p) && bcrypt_matches(p@, h@) == Some(
                true,
            )),
    {
        let password = match &self.password {
            None => {
                return Err(ApiError::field(ErrorKind::BadInput, "password", "Password is required"));
            },
            Some(p) => p,
        };
        match bcrypt_hash(password, 6) {
            Ok(h) => Ok(h),
            Err(e) => {
                let mut message = "Error hashing password\n".to_owned();
                message.append(e.as_str());
                Err(ApiError { kind: ErrorKind::BadInput, name: Some("password".to_owned()), message })
            },
        }
    }

    /// Validates the payload and, when it passes, inserts the account row
    /// and returns the new identity with a two-week expiry.
    pub fn insert_to_db(&self, store: &mut Store, now: i64) -> (r: Result<
        UserAuthDetails,
        ApiError,
    >)
        requires
            old(store).wf(),
            old(store).next_user_id < i32::MAX,
            now <= i64::MAX - SESSION_LIFETIME_SECONDS,
        ensures
            final(store).wf(),
            match self.validation_error(old(store).users@) {
                Some(err) => *final(store) == *old(store) && (r matches Err(e) && e.kind
                    == ErrorKind::BadInput && (e.name matches Some(n) && n@ == err.0) && e.message@
                    == err.1),
                None => match r {
                    Ok(d) => {
                        &&& final(store).users@.len() == old(store).users@.len() + 1
                        &&& final(store).users@.take(old(store).users@.len() as int) == old(
                            store,
                        ).users@
                        &&& final(store).users@.last().id == old(store).next_user_id
                        &&& final(store).users@.last().username@ == self.username->0@
                        &&& final(store).users@.last().created_at == now
                        &&& final(store).next_user_id == old(store).next_user_id + 1
                        &&& final(store).posts == old(store).posts
                        &&& final(store).topics == old(store).topics
                        &&& final(store).posts_topics == old(store).posts_topics
                        &&& final(store).comments == old(store).comments
                        &&& final(store).saved_posts == old(store).saved_posts
                        &&& final(store).next_post_id == old(store).next_post_id
                        &&& final(store).next_topic_id == old(store).next_topic_id
                        &&& final(store).next_comment_id == old(store).next_comment_id
                        &&& d.id == old(store).next_user_id
                        &&& d.username@ == self.username->0@
                        &&& d.expires_at == now + SESSION_LIFETIME_SECONDS
                        &&& bcrypt_matches(
                            self.password->0@,
                            final(store).users@.last().password_hash@,
                        ) == Some(true)
                    },
                    // the hashing call may fail; then nothing was written
                    Err(e) => *final(store) == *old(store) && e.kind == ErrorKind::BadInput && (
                    e.name matches Some(n) && n@ == "password"@),
                },
            },
    {
        let (username, _password) = match self.validate_details(store) {
            Ok(up) => up,
            Err(e) => {
                return Err(e);
            },
        };
        let hash = match self.hash_password() {
            Ok(h) => h,
            Err(e) => {
                return Err(e);
            },
        };
        let id = store.next_user_id;
        let row = UserRow { id, username: username.clone(), password_hash: hash, created_at: now };
        store.users.push(row);
        store.next_user_id = id + 1;
        proof {
            assert(final(store).users@.take(old(store).users@.len() as int) =~= old(store).users@);
            assert forall|i: int, j: int|
                0 <= i < j < final(store).users@.len() implies final(store).users@[i].username@
                != final(store).users@[j].username@ by {
                if j == final(store).users@.len() - 1 {
                    assert(!username_taken(old(store).users@, final(store).users@[j].username@));
                    assert(old(store).users@[i] == final(store).users@[i]);
                }
            }
        }
        Ok(UserAuthDetails { id, username, expires_at: now + SESSION_LIFETIME_SECONDS })
    }
}

// ---------- login ----------

/// What looking the account up and verifying the password owes, for
/// every stored row carrying the username (unique in a well-formed
/// store): a passing verify yields exactly that account's identity, a
/// failing one the wrong-password error, a malformed hash the
/// verification error.
pub open spec fn login_outcome_ok(
    r: Result<UserAuthDetails, ApiError>,
    users: Seq<UserRow>,
    username: Seq<char>,
    password: Seq<char>,
    now: int,
) -> bool {
    forall|i: int|
        #![trigger users[i]]
        0 <= i < users.len() && users[i].username@ == username ==> match bcrypt_matches(
            password,
            users[i].password_hash@,
        ) {
            Some(true) => r matches Ok(d) && d.id == users[i].id && d.username@
                == users[i].username@ && d.expires_at == now + SESSION_LIFETIME_SECONDS,
            Some(false) => r matches Err(e) && e.kind == ErrorKind::BadInput && (e.name matches
            Some(n) && n@ == "password"@) && e.message@ == "Wrong password"@,
            None => r matches Err(e) && e.kind == ErrorKind::BadInput && e.name is None
                && e.message@ == "Error verifying password"@,
        }
}

/// The login request payload.
pub struct LoginDetails {
    pub username: Option<String>,
    pub password: Option<String>,
}

/// The login payload once a store handle has been attached.
pub struct LoginDetailsWithDBClient {
    pub username: Option<String>,
    pub password: Option<String>,
}

impl LoginDetails {
    /// Attaches the store capability; the store value itself is handed to
    /// the methods that touch it.
    pub fn add_db_client(self) -> (r: LoginDetailsWithDBClient)
        ensures
            r.username == self.username,
            r.password == self.password,
    {
        LoginDetailsWithDBClient { username: self.username, password: self.password }
    }
}

impl LoginDetailsWithDBClient {
    /// Checks the payload, looks the account up and verifies the
    /// password; correct credentials for a stored account yield an
    /// identity with a two-week expiry.
    pub fn validate(self, store: &Store, now: i64) -> (r: Result<UserAuthDetails, ApiError>)
        requires
            store.wf(),
            now <= i64::MAX - SESSION_LIFETIME_SECONDS,
        ensures
            self.username is None ==> (r matches Err(e) && e.kind == ErrorKind::BadInput && (
            e.name matches Some(n) && n@ == "username"@) && e.message@ == "Username is required"@),
            self.username is Some && self.password is None ==> (r matches Err(e) && e.kind
                == ErrorKind::BadInput && (e.name matches Some(n) && n@ == "password"@)
                && e.message@ == "Password is required"@),
            self.username is Some && self.password is Some && !username_taken(
                store.users@,
                self.username->0@,
            ) ==> (r matches Err(e) && e.kind == ErrorKind::BadInput && (e.name matches Some(n)
                && n@ == "username"@) && e.message@ == "Username does not exists"@),
            self.username is Some && self.password is Some ==> login_outcome_ok(
                r,
                store.users@,
                self.username->0@,
                self.password->0@,
                now as int,
            ),
            r matches Ok(d) ==> exists|i: int|
                0 <= i < store.users@.len() && (#[trigger] store.users@[i]).username@
                    == self.username->0@ && d.id == store.users@[i].id && d.username@
                    == store.users@[i].username@ && d.expires_at == now + SESSION_LIFETIME_SECONDS,
    {
        let username = match &self.username {
            None => {
                return Err(ApiError::field(ErrorKind::BadInput, "username", "Username is required"));
            },
            Some(u) => u,
        };
        let password = match &self.password {
            None => {
                return Err(ApiError::field(ErrorKind::BadInput, "password", "Password is required"));
            },
            Some(p) => p,
        };
        self.get_user_details(username, password, store, now)
    }

    /// Looks the account up by username and verifies the password against
    /// its stored hash: correct credentials yield the identity, a wrong
    /// password or a malformed hash its error.
    fn get_user_details(&self, username: &String, password: &String, store: &Store, now: i64) -> (r:
        Result<UserAuthDetails, ApiError>)
        requires
            store.wf(),
            now <= i64::MAX - SESSION_LIFETIME_SECONDS,
        ensures
            !username_taken(store.users@, username@) ==> (r matches Err(e) && e.kind
                == ErrorKind::BadInput && (e.name matches Some(n) && n@ == "username"@)
                && e.message@ == "Username does not exists"@),
            r matches Err(e) ==> e.kind == ErrorKind::BadInput,
            login_outcome_ok(r, store.users@, username@, password@, now as int),
    {
        let idx = match store.find_user_by_name(username) {
            None => {
                return Err(
                    ApiError::field(ErrorKind::BadInput, "username", "Username does not exists"),
                );
            },
            Some(i) => i,
        };
        let user = &store.users[idx];
        let ok = match bcrypt_verify(password, &user.password_hash) {
            Ok(b) => b,
            Err(_) => {
                return Err(ApiError::msg(ErrorKind::BadInput, "Error verifying password"));
            },
        };
        if !ok {
            return Err(ApiError::field(ErrorKind::BadInput, "password", "Wrong password"));
        }
        Ok(
            UserAuthDetails {
                id: user.id,
                username: user.username.clone(),
                expires_at: now + SESSION_LIFETIME_SECONDS,
            },
        )
    }
}

} // verus!
