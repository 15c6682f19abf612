//! Registration and login over the credential store.
use vstd::prelude::*;

use crate::config::Config;
use crate::errors::ServiceError;
use crate::ids::new_uuid;
use crate::jwt::{generate_token, token_for, TOKEN_LIFETIME};
use crate::models::{LoginRequest, LoginResponse, NewUser, RegisterRequest, User};
use crate::password::{hash_password, password_verdict, verify_password};
use crate::store::{Store, StoreView};
use crate::supabase::SupabaseSignUpResponse;

verus! {

/// What `register_user` may do, whatever digest and id came back.
pub open spec fn register_outcome(
    old: StoreView,
    data: RegisterRequest,
    now: i64,
    r: Result<User, ServiceError>,
    new: StoreView,
) -> bool {
    if old.email_taken(data.email@) {
        r matches Err(e) && e is UserAlreadyExists && new == old
    } else {
        match r {
            Ok(u) => {
                &&& u == (User {
                    id: u.id,
                    email: data.email,
                    password_hash: u.password_hash,
                    full_name: data.full_name,
                    created_at: now,
                    updated_at: now,
                    last_login: None,
                    is_active: true,
                })
                &&& !old.has_user(u.id)
                &&& password_verdict(data.password@, u.password_hash@) == Some(true)
                &&& new == old.with_user(u)
            },
            Err(e) => (e is PasswordHashError || e is DatabaseError) && new == old,
        }
    }
}

/// Registers an account: refuses a taken email, stores a digest of the
/// password, and returns the new user. Mirroring the account to the
/// identity provider and issuing its token follow in
/// `complete_registration`.
pub fn register_user(db: &mut Store, register_data: RegisterRequest, now: i64) -> (r: Result<
    User,
    ServiceError,
>)
    requires
        old(db).wf(),
    ensures
        final(db).wf(),
        register_outcome(old(db)@, register_data, now, r, final(db)@),
{
    if db.user_index_by_email(&register_data.email).is_some() {
        return Err(ServiceError::UserAlreadyExists);
    }
    let password_hash = match hash_password(register_data.password.as_str()) {
        Ok(digest) => digest,
        Err(e) => {
            return Err(e);
        },
    };
    let new_user = NewUser {
        email: register_data.email,
        password_hash,
        full_name: register_data.full_name,
    };
    db.insert_user(new_uuid(), new_user, now)
}

/// Finishes a registration once the identity provider has answered: its
/// failure fails the registration; otherwise the new user gets a token.
pub fn complete_registration(
    user: &User,
    mirrored: Result<SupabaseSignUpResponse, ServiceError>,
    config: &Config,
    now: i64,
) -> (r: Result<LoginResponse, ServiceError>)
    ensures
        mirrored is Err ==> r == Err::<LoginResponse, ServiceError>(mirrored->Err_0),
        mirrored is Ok && now <= i64::MAX - TOKEN_LIFETIME ==> (r matches Ok(resp) && resp.token@
            == token_for(user.id, now, config.jwt_secret@) && resp.user_id == user.id
            && resp.email == user.email),
        mirrored is Ok && now > i64::MAX - TOKEN_LIFETIME ==> (r matches Err(e) && e is JwtError),
{
    if let Err(e) = mirrored {
        return Err(e);
    }
    match generate_token(user.id, config.jwt_secret.as_str(), now) {
        Ok(token) => Ok(LoginResponse { token, user_id: user.id, email: user.email.clone() }),
        Err(e) => Err(e),
    }
}

/// What logging in as the user at index `i` does, given the password.
pub open spec fn login_at(
    old: StoreView,
    i: int,
    password: Seq<char>,
    secret: Seq<char>,
    now: i64,
    r: Result<LoginResponse, ServiceError>,
    new: StoreView,
) -> bool {
    let u = old.users[i];
    match password_verdict(password, u.password_hash@) {
        None => r matches Err(e) && e is PasswordHashError && new == old,
        Some(false) => r matches Err(e) && e is InvalidCredentials && new == old,
        Some(true) => {
            &&& new == old.logged_in(i, now)
            &&& now <= i64::MAX - TOKEN_LIFETIME ==> (r matches Ok(resp) && resp.token@ == token_for(
                u.id,
                now,
                secret,
            ) && resp.user_id == u.id && resp.email == u.email)
            &&& now > i64::MAX - TOKEN_LIFETIME ==> (r matches Err(e) && e is JwtError)
        },
    }
}

/// What `login_user` does: an unknown email and a wrong password give the
/// same error and change nothing.
pub open spec fn login_outcome(
    old: StoreView,
    email: Seq<char>,
    password: Seq<char>,
    secret: Seq<char>,
    now: i64,
    r: Result<LoginResponse, ServiceError>,
    new: StoreView,
) -> bool {
    &&& !old.email_taken(email) ==> (r matches Err(e) && e is InvalidCredentials && new == old)
    &&& forall|i: int|
        0 <= i < old.users.len() && #[trigger] old.users[i].email@ == email ==> login_at(
            old,
            i,
            password,
            secret,
            now,
            r,
            new,
        )
}

/// Logs a user in: checks the password against the stored digest, records
/// the login time and issues a token.
pub fn login_user(db: &mut Store, login_data: LoginRequest, config: &Config, now: i64) -> (r:
    Result<LoginResponse, ServiceError>)
    requires
        old(db).wf(),
    ensures
        final(db).wf(),
        login_outcome(
            old(db)@,
            login_data.email@,
            login_data.password@,
            config.jwt_secret@,
            now,
            r,
            final(db)@,
        ),
{
    let i = match db.user_index_by_email(&login_data.email) {
        Some(i) => i,
        None => {
            return Err(ServiceError::InvalidCredentials);
        },
    };
    let ghost pre = db@;
    proof {
        assert forall|j: int|
            0 <= j < pre.users.len() && #[trigger] pre.users[j].email@ == login_data.email@ implies j
            == i by {
            if j < i {
                assert(pre.users[j].id != pre.users[i as int].id);
            } else if i < j {
                assert(pre.users[i as int].id != pre.users[j].id);
            }
        }
    }
    let matches = match verify_password(
        login_data.password.as_str(),
        db.user_at(i).password_hash.as_str(),
    ) {
        Ok(b) => b,
        Err(e) => {
            return Err(e);
        },
    };
    if !matches {
        return Err(ServiceError::InvalidCredentials);
    }
    let user = db.record_login(i, now);
    match generate_token(user.id, config.jwt_secret.as_str(), now) {
        Ok(token) => Ok(LoginResponse { token, user_id: user.id, email: user.email }),
        Err(e) => Err(e),
    }
}

/// The user with this id.
pub fn get_user_by_id(db: &Store, user_id: u128) -> (r: Result<User, ServiceError>)
    requires
        db.wf(),
    ensures
        !db@.has_user(user_id) ==> (r matches Err(e) && e is UserNotFound),
        forall|i: int|
            0 <= i < db@.users.len() && #[trigger] db@.users[i].id == user_id ==> r == Ok::<
                User,
                ServiceError,
            >(db@.users[i]),
{
    match db.user_index(user_id) {
        Some(i) => {
            proof {
                assert forall|j: int|
                    0 <= j < db@.users.len() && #[trigger] db@.users[j].id == user_id implies j
                    == i by {
                    if j < i {
                        assert(db@.users[j].id != db@.users[i as int].id);
                    } else if i < j {
                        assert(db@.users[i as int].id != db@.users[j].id);
                    }
                }
            }
            Ok(db.user_at(i).clone())
        },
        None => Err(ServiceError::UserNotFound),
    }
}

/// Logging in as a stored user with a password that matches the user's
/// digest succeeds for that user and hands back the token issued to the
/// user's id at the time of login.
pub proof fn login_with_matching_password(
    s: StoreView,
    i: int,
    password: Seq<char>,
    secret: Seq<char>,
    now: i64,
    r: Result<LoginResponse, ServiceError>,
    s2: StoreView,
)
    requires
        s.wf(),
        0 <= i < s.users.len(),
        password_verdict(password, s.users[i].password_hash@) == Some(true),
        login_outcome(s, s.users[i].email@, password, secret, now, r, s2),
        now <= i64::MAX - TOKEN_LIFETIME,
    ensures
        r matches Ok(resp) && resp.user_id == s.users[i].id && resp.token@ == token_for(
            s.users[i].id,
            now,
            secret,
        ),
{
    assert(login_at(s, i, password, secret, now, r, s2));
}

/// A user who has just registered can log in with the password they
/// chose: login succeeds for the id that registration assigned and hands
/// back the token issued to that id, which `verify_token` accepts for that
/// id until it expires.
pub proof fn login_after_register(
    s0: StoreView,
    s1: StoreView,
    s2: StoreView,
    data: RegisterRequest,
    registered_at: i64,
    user: User,
    secret: Seq<char>,
    now: i64,
    r: Result<LoginResponse, ServiceError>,
)
    requires
        s0.wf(),
        register_outcome(s0, data, registered_at, Ok(user), s1),
        login_outcome(s1, data.email@, data.password@, secret, now, r, s2),
        now <= i64::MAX - TOKEN_LIFETIME,
    ensures
        r matches Ok(resp) && resp.user_id == user.id && resp.token@ == token_for(
            user.id,
            now,
            secret,
        ),
{
    let last = s0.users.len() as int;
    assert(s1.users[last] == user);
    assert(login_at(s1, last, data.password@, secret, now, r, s2));
}

/// A login with an unknown email and one with a wrong password fail alike,
/// with `InvalidCredentials`, and change nothing.
pub proof fn failed_logins_look_alike(
    s: StoreView,
    email: Seq<char>,
    password: Seq<char>,
    secret: Seq<char>,
    now: i64,
    r: Result<LoginResponse, ServiceError>,
    s2: StoreView,
)
    requires
        s.wf(),
        login_outcome(s, email, password, secret, now, r, s2),
        !s.email_taken(email) || exists|i: int|
            0 <= i < s.users.len() && #[trigger] s.users[i].email@ == email && password_verdict(
                password,
                s.users[i].password_hash@,
            ) == Some(false),
    ensures
        r matches Err(e) && e is InvalidCredentials,
        s2 == s,
{
    if s.email_taken(email) {
        let i = choose|i: int|
            0 <= i < s.users.len() && #[trigger] s.users[i].email@ == email && password_verdict(
                password,
                s.users[i].password_hash@,
            ) == Some(false);
        assert(login_at(s, i, password, secret, now, r, s2));
    }
}

} // verus!
