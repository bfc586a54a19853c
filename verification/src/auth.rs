//! Credentials: token claims and their lifetime, password hashes, and the
//! store of users.
//!
//! Signing and parsing tokens is the caller's business. Here the claims of a
//! token are drawn up and, once a token has been parsed, checked against the
//! clock. Passwords are hashed and verified with bcrypt.

use vstd::prelude::*;
use crate::error::AuthError;
use crate::ident::{SessionId, uuid_hyphenated};
use crate::time::Timestamp;

verus! {

/// Seconds in one hour.
pub const SECS_PER_HOUR: i64 = 3600;

/// JWT claims structure.
#[derive(Debug, Clone)]
pub struct Claims {
    /// Subject (username).
    pub sub: String,
    /// Client type (HidClient or Commander).
    pub client_type: String,
    /// Optional client identifier.
    pub client_id: Option<String>,
    /// Expiration time, in seconds since the epoch.
    pub exp: i64,
    /// Time of issue, in seconds since the epoch.
    pub iat: i64,
    /// JWT ID (unique identifier).
    pub jti: String,
}

/// What `bcrypt::verify` makes of a password and a hash: whether the hash is
/// one of the password, or `None` where the hash cannot be read.
pub uninterp spec fn bcrypt_verdict(password: Seq<char>, hash: Seq<char>) -> Option<bool>;

/// Hashes `password` with `bcrypt::hash` at `bcrypt::DEFAULT_COST`. The salt is
/// random, so the hash is not determined by the password; what holds of
/// every hash that comes back is that `bcrypt::verify` accepts the password
/// for it, since it hashes again with the salt and cost that the hash names.
#[verifier::external_body]
fn bcrypt_hash(password: &str) -> (r: Result<String, bcrypt::BcryptError>)
    ensures
        r matches Ok(hash) ==> bcrypt_verdict(password@, hash@) == Some(true),
{
    bcrypt::hash(password, bcrypt::DEFAULT_COST)
}

/// Checks `password` against `hash` with `bcrypt::verify`. The answer
/// depends on the two texts alone; an error means that the hash cannot be
/// read.
#[verifier::external_body]
fn bcrypt_verify(password: &str, hash: &str) -> (r: Result<bool, bcrypt::BcryptError>)
    ensures
        r matches Ok(accepted) ==> bcrypt_verdict(password@, hash@) == Some(accepted),
        r is Err ==> bcrypt_verdict(password@, hash@) is None,
{
    bcrypt::verify(password, hash)
}

/// Whether a token issued at `now_secs` that lives `hours` hours has an
/// expiration time that fits the claims.
pub open spec fn expiry_fits(now_secs: i64, hours: i64) -> bool {
    i64::MIN <= now_secs + hours * 3600 <= i64::MAX
}

/// Whether `r` is what comes of issuing claims to `username` at `now_secs`
/// under a token identifier that reads `jti`, for tokens that live `hours`
/// hours: the claims with that time of issue and with the expiration time
/// `hours` hours later, or nothing where the expiration time does not fit.
pub open spec fn claims_issued(
    hours: i64,
    username: Seq<char>,
    client_type: Seq<char>,
    client_id: Option<String>,
    now_secs: i64,
    jti: Seq<char>,
    r: Option<Claims>,
) -> bool {
    if expiry_fits(now_secs, hours) {
        &&& r matches Some(claims)
        &&& claims.sub@ == username
        &&& claims.client_type@ == client_type
        &&& claims.client_id == client_id
        &&& claims.iat == now_secs
        &&& claims.exp == now_secs + hours * 3600
        &&& claims.jti@ == jti
    } else {
        r is None
    }
}

/// Whether claims with expiration time `exp` are over at `now_secs`.
pub open spec fn claims_expired(exp: i64, now_secs: i64) -> bool {
    exp < now_secs
}

/// Authentication manager: the secret that tokens are signed with, and how
/// long a token lives.
pub struct AuthManager {
    secret: String,
    token_expiry_hours: i64,
}

impl AuthManager {
    /// The secret that tokens are signed with.
    pub closed spec fn secret_text(&self) -> Seq<char> {
        self.secret@
    }

    /// The number of hours that a token lives.
    pub closed spec fn expiry_hours(&self) -> i64 {
        self.token_expiry_hours
    }

    /// Create a new authentication manager with a secret key.
    pub fn new(secret: &str, token_expiry_hours: i64) -> (m: AuthManager)
        ensures
            m.secret_text() == secret@,
            m.expiry_hours() == token_expiry_hours,
    {
        AuthManager { secret: secret.to_owned(), token_expiry_hours }
    }

    /// The secret that tokens are signed with.
    pub fn secret(&self) -> (secret: &String)
        ensures
            secret@ == self.secret_text(),
    {
        &self.secret
    }

    /// The number of hours that a token lives.
    pub fn token_expiry_hours(&self) -> (hours: i64)
        ensures
            hours == self.expiry_hours(),
    {
        self.token_expiry_hours
    }

    /// The claims of a token issued to `username` at `now_secs` under the
    /// token identifier `jti`: it expires after the manager's number of
    /// hours. There are no such claims where that time does not fit.
    pub fn issue_claims_at(
        &self,
        username: &str,
        client_type: &str,
        client_id: Option<String>,
        now_secs: i64,
        jti: String,
    ) -> (r: Option<Claims>)
        ensures
            expiry_fits(now_secs, self.expiry_hours()) ==> (r matches Some(claims) && claims.sub@
                == username@ && claims.client_type@ == client_type@ && claims.client_id == client_id
                && claims.exp == now_secs + self.expiry_hours() * 3600 && claims.iat == now_secs
                && claims.jti == jti),
            !expiry_fits(now_secs, self.expiry_hours()) ==> r is None,
    {
        let wide: i128 = (now_secs as i128) + (self.token_expiry_hours as i128) * (SECS_PER_HOUR as i128);
        if wide < (i64::MIN as i128) || wide > (i64::MAX as i128) {
            return None;
        }
        let exp: i64 = wide as i64;
        Some(
            Claims {
                sub: username.to_owned(),
                client_type: client_type.to_owned(),
                client_id,
                exp,
                iat: now_secs,
                jti,
            },
        )
    }

    /// The claims of a token issued to `username` now, under a random token
    /// identifier: what `issue_claims_at` gives for the second that the
    /// system clock shows and for the text of a freshly drawn version-4
    /// UUID. Claims are issued whenever the expiration time fits; with a
    /// lifetime of zero hours it always does.
    pub fn issue_claims(&self, username: &str, client_type: &str, client_id: Option<String>) -> (r: Option<
        Claims,
    >)
        ensures
            exists|now_secs: i64, id: SessionId|
                id.is_v4() && #[trigger] claims_issued(
                    self.expiry_hours(),
                    username@,
                    client_type@,
                    client_id,
                    now_secs,
                    uuid_hyphenated(id@),
                    r,
                ),
            r matches Some(claims) ==> claims.sub@ == username@ && claims.client_type@ == client_type@
                && claims.client_id == client_id && claims.exp == claims.iat + self.expiry_hours() * 3600,
            self.expiry_hours() == 0 ==> r is Some,
    {
        let now = Timestamp::now();
        let id = SessionId::random();
        let jti = id.to_text();
        let r = self.issue_claims_at(username, client_type, client_id, now.secs, jti);
        proof {
            assert(id.is_v4() && claims_issued(
                self.expiry_hours(),
                username@,
                client_type@,
                client_id,
                now.secs,
                uuid_hyphenated(id@),
                r,
            ));
        }
        r
    }

    /// Checks parsed claims against the time `now_secs`: claims whose
    /// expiration time lies before it are refused as expired, all others are
    /// handed back.
    pub fn check_claims_at(&self, claims: Claims, now_secs: i64) -> (r: Result<Claims, AuthError>)
        ensures
            claims_expired(claims.exp, now_secs) ==> r matches Err(AuthError::TokenExpired),
            !claims_expired(claims.exp, now_secs) ==> (r matches Ok(c) && c == claims),
    {
        if claims.exp < now_secs {
            Err(AuthError::TokenExpired)
        } else {
            Ok(claims)
        }
    }

    /// Checks parsed claims against the system clock.
    pub fn check_claims(&self, claims: Claims) -> (r: Result<Claims, AuthError>)
        ensures
            r matches Ok(c) ==> c == claims,
            r matches Err(e) ==> e is TokenExpired,
            exists|now_secs: i64| #[trigger] claims_expired(claims.exp, now_secs) == r is Err,
    {
        let now = Timestamp::now();
        let r = self.check_claims_at(claims, now.secs);
        assert(claims_expired(claims.exp, now.secs) == r is Err);
        r
    }

    /// Hash a password using bcrypt. Every hash that comes back is one that
    /// the password verifies against.
    pub fn hash_password(&self, password: &str) -> (r: Result<String, AuthError>)
        ensures
            r matches Ok(hash) ==> bcrypt_verdict(password@, hash@) == Some(true),
            r matches Err(e) ==> e is PasswordHashing,
    {
        match bcrypt_hash(password) {
            Ok(hash) => Ok(hash),
            Err(e) => Err(AuthError::PasswordHashing(e)),
        }
    }

    /// Verify a password against its hash.
    pub fn verify_password(&self, password: &str, hash: &str) -> (r: Result<bool, AuthError>)
        ensures
            verification(bcrypt_verdict(password@, hash@), r),
    {
        match bcrypt_verify(password, hash) {
            Ok(accepted) => Ok(accepted),
            Err(e) => Err(AuthError::PasswordHashing(e)),
        }
    }
}

/// Whether `r` is what the verification of a password returns when bcrypt's
/// verdict is `verdict`: the verdict itself, or the hashing error where the
/// hash could not be read.
pub open spec fn verification(verdict: Option<bool>, r: Result<bool, AuthError>) -> bool {
    match verdict {
        Some(accepted) => r matches Ok(b) && b == accepted,
        None => r matches Err(e) && e is PasswordHashing,
    }
}

/// User information for authentication.
#[derive(Debug, Clone)]
pub struct User {
    pub username: String,
    pub password_hash: String,
    pub created_at: Timestamp,
    pub last_login: Option<Timestamp>,
    pub active: bool,
}

/// `user` after a login at `now`.
pub open spec fn logged_in(user: User, now: Timestamp) -> User {
    User { last_login: Some(now), ..user }
}

impl User {
    /// Create a new user with hashed password.
    pub fn new(username: String, password: &str, auth_manager: &AuthManager) -> (r: Result<User, AuthError>)
        ensures
            r matches Ok(user) ==> user.username == username && user.active && user.last_login is None
                && bcrypt_verdict(password@, user.password_hash@) == Some(true),
            r matches Err(e) ==> e is PasswordHashing,
    {
        match auth_manager.hash_password(password) {
            Ok(password_hash) => Ok(
                User { username, password_hash, created_at: Timestamp::now(), last_login: None, active: true },
            ),
            Err(e) => Err(e),
        }
    }

    /// Verify password for this user. A user that is not active has no
    /// valid password.
    pub fn verify_password(&self, password: &str, auth_manager: &AuthManager) -> (r: Result<bool, AuthError>)
        ensures
            !self.active ==> (r matches Ok(b) && !b),
            self.active ==> verification(bcrypt_verdict(password@, self.password_hash@), r),
    {
        if !self.active {
            return Ok(false);
        }
        auth_manager.verify_password(password, self.password_hash.as_str())
    }

    /// Records a login at `now`.
    pub fn update_last_login_at(&mut self, now: Timestamp)
        ensures
            *final(self) == logged_in(*old(self), now),
    {
        self.last_login = Some(now);
    }

    /// Update last login timestamp.
    pub fn update_last_login(&mut self)
        ensures
            exists|now: Timestamp| *final(self) == #[trigger] logged_in(*old(self), now),
    {
        let now = Timestamp::now();
        self.update_last_login_at(now);
        assert(*self == logged_in(*old(self), now));
    }
}

/// Whether `users` holds a user named `name`.
pub open spec fn has_user(users: Seq<User>, name: Seq<char>) -> bool {
    exists|i: int| 0 <= i < users.len() && (#[trigger] users[i]).username@ == name
}

/// The position of the user named `name`, where there is one.
pub open spec fn user_index(users: Seq<User>, name: Seq<char>) -> int {
    choose|i: int| 0 <= i < users.len() && (#[trigger] users[i]).username@ == name
}

/// The store's invariant: no two users have one name.
pub open spec fn users_wf(users: Seq<User>) -> bool {
    forall|i: int, j: int|
        0 <= i < j < users.len() ==> (#[trigger] users[i]).username@ != (#[trigger] users[j]).username@
}

/// The store after `user` has been added: it takes the place of the user of
/// the same name, or comes last where there is none.
pub open spec fn with_user(users: Seq<User>, user: User) -> Seq<User> {
    if has_user(users, user.username@) {
        users.update(user_index(users, user.username@), user)
    } else {
        users.push(user)
    }
}

/// What an attempt to log in returns: no such user, a user that is not
/// active and a wrong password all give `false`; a hash that cannot be read
/// gives the hashing error.
pub open spec fn login_outcome(users: Seq<User>, name: Seq<char>, password: Seq<char>, r: Result<
    bool,
    AuthError,
>) -> bool {
    if !has_user(users, name) {
        r matches Ok(b) && !b
    } else {
        let user = users[user_index(users, name)];
        if !user.active {
            r matches Ok(b) && !b
        } else {
            verification(bcrypt_verdict(password, user.password_hash@), r)
        }
    }
}

/// The store after an attempt to log in at `now`: a login that succeeds is
/// recorded with the user; nothing else changes anything.
pub open spec fn after_login(users: Seq<User>, name: Seq<char>, password: Seq<char>, now: Timestamp) -> Seq<
    User,
> {
    if has_user(users, name) && users[user_index(users, name)].active && bcrypt_verdict(
        password,
        users[user_index(users, name)].password_hash@,
    ) == Some(true) {
        users.update(user_index(users, name), logged_in(users[user_index(users, name)], now))
    } else {
        users
    }
}

/// In a well-formed store the user at position `i` is the only one of its name.
pub proof fn lemma_user_unique(users: Seq<User>, i: int)
    requires
        users_wf(users),
        0 <= i < users.len(),
    ensures
        has_user(users, users[i].username@),
        user_index(users, users[i].username@) == i,
{
    let j = user_index(users, users[i].username@);
    assert(0 <= j < users.len() && users[j].username@ == users[i].username@);
}

/// Simple in-memory user store.
pub struct UserStore {
    users: Vec<User>,
}

impl View for UserStore {
    type V = Seq<User>;

    closed spec fn view(&self) -> Seq<User> {
        self.users@
    }
}

impl Default for UserStore {
    fn default() -> (store: UserStore)
        ensures
            store.wf(),
            store@ == Seq::<User>::empty(),
    {
        UserStore { users: Vec::new() }
    }
}

impl UserStore {
    /// The store's invariant: `new` establishes it and every method keeps it.
    pub open spec fn wf(&self) -> bool {
        users_wf(self@)
    }

    /// Create a new empty user store.
    pub fn new() -> (store: UserStore)
        ensures
            store.wf(),
            store@ == Seq::<User>::empty(),
    {
        UserStore { users: Vec::new() }
    }

    /// The position of the user named `name`.
    fn position(&self, name: &String) -> (r: Option<usize>)
        requires
            self.wf(),
        ensures
            r matches Some(i) ==> has_user(self@, name@) && i == user_index(self@, name@) && i < self@.len(),
            r is None ==> !has_user(self@, name@),
    {
        let mut i: usize = 0;
        while i < self.users.len()
            invariant
                self.wf(),
                0 <= i <= self.users.len(),
                forall|k: int| 0 <= k < i ==> (#[trigger] self.users@[k]).username@ != name@,
            decreases self.users.len() - i,
        {
            if self.users[i].username == *name {
                proof {
                    lemma_user_unique(self@, i as int);
                }
                return Some(i);
            }
            i += 1;
        }
        None
    }

    /// Add a user to the store. A user of the same name is replaced.
    pub fn add_user(&mut self, user: User)
        requires
            old(self).wf(),
        ensures
            final(self).wf(),
            final(self)@ == with_user(old(self)@, user),
    {
        match self.position(&user.username) {
            Some(i) => {
                self.users[i] = user;
                proof {
                    assert(self.users@ =~= old(self)@.update(i as int, user));
                }
            },
            None => {
                self.users.push(user);
            },
        }
    }

    /// Get a user by username.
    pub fn get_user(&self, username: &str) -> (r: Option<&User>)
        requires
            self.wf(),
        ensures
            has_user(self@, username@) ==> r == Some(&self@[user_index(self@, username@)]),
            !has_user(self@, username@) ==> r is None,
    {
        let name = username.to_owned();
        match self.position(&name) {
            Some(i) => Some(&self.users[i]),
            None => None,
        }
    }

    /// Authenticate a user with username and password at `now`.
    pub fn authenticate_at(
        &mut self,
        username: &str,
        password: &str,
        auth_manager: &AuthManager,
        now: Timestamp,
    ) -> (r: Result<bool, AuthError>)
        requires
            old(self).wf(),
        ensures
            final(self).wf(),
            login_outcome(old(self)@, username@, password@, r),
            final(self)@ == after_login(old(self)@, username@, password@, now),
    {
        let name = username.to_owned();
        match self.position(&name) {
            Some(i) => {
                match self.users[i].verify_password(password, auth_manager) {
                    Ok(valid) => {
                        if valid {
                            self.users[i].update_last_login_at(now);
                            proof {
                                assert(self.users@ =~= old(self)@.update(
                                    i as int,
                                    logged_in(old(self)@[i as int], now),
                                ));
                            }
                        }
                        Ok(valid)
                    },
                    Err(e) => Err(e),
                }
            },
            None => Ok(false),
        }
    }

    /// Authenticate a user with username/password.
    pub fn authenticate(&mut self, username: &str, password: &str, auth_manager: &AuthManager) -> (r: Result<
        bool,
        AuthError,
    >)
        requires
            old(self).wf(),
        ensures
            final(self).wf(),
            login_outcome(old(self)@, username@, password@, r),
            exists|now: Timestamp| final(self)@ == #[trigger] after_login(old(self)@, username@, password@, now),
    {
        let now = Timestamp::now();
        let r = self.authenticate_at(username, password, auth_manager, now);
        assert(self@ == after_login(old(self)@, username@, password@, now));
        r
    }

    /// Create default admin user for testing.
    pub fn create_default_admin(&mut self, auth_manager: &AuthManager) -> (r: Result<(), AuthError>)
        requires
            old(self).wf(),
        ensures
            final(self).wf(),
            r is Err ==> final(self)@ == old(self)@,
            r matches Err(e) ==> e is PasswordHashing,
            r is Ok ==> exists|admin: User|
                final(self)@ == #[trigger] with_user(old(self)@, admin) && admin.username@ == "admin"@
                    && admin.active && admin.last_login is None && bcrypt_verdict(
                    "admin123"@,
                    admin.password_hash@,
                ) == Some(true),
    {
        match User::new("admin".to_owned(), "admin123", auth_manager) {
            Ok(admin) => {
                self.add_user(admin);
                proof {
                    assert(self@ == with_user(old(self)@, admin));
                }
                Ok(())
            },
            Err(e) => Err(e),
        }
    }
}

} // verus!
