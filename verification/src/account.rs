use vstd::prelude::*;

use crate::crypto::password_hash_of;
use crate::errors::AccountError;
use crate::models::{AccountLevel, level_code, level_of_code, spec_level_of_code};
use crate::store::{
    Store, StoreV, lemma_user_index_by_email, lemma_user_index_by_id, lemma_user_index_by_name,
    login_v, register_v, user_index_by_email, user_index_by_id, user_index_by_name, user_with_id,
    users_wf,
};
use crate::token::{issue_token, verify_token};

verus! {

/// The `{status, body}` envelope every route answers with.
#[derive(Clone, Debug)]
pub struct ResponseBlock<T> {
    pub status: bool,
    pub body: Option<T>,
}

#[derive(Clone, Debug)]
pub struct Ping {
    pub reply: String,
}

#[derive(Clone, Debug)]
pub struct LoginForm {
    pub username: String,
    pub pass: String,
}

#[derive(Clone, Debug)]
pub struct LoginResponse {
    pub result: AccountError,
    pub token: Option<String>,
}

#[derive(Clone, Debug)]
pub struct RegisterForm {
    pub username: String,
    pub pass: String,
    pub email: String,
    pub nickname: String,
}

#[derive(Clone, Debug)]
pub struct RegisterResponse {
    pub result: AccountError,
}

/// The claim a session token carries: the user's primary key.
#[derive(Clone, Copy, Debug, PartialEq, Eq, Structural)]
pub struct AccountToken {
    pub pk: i32,
}

#[derive(Clone, Debug)]
pub struct AuthRequest {
    pub token: String,
}

#[derive(Clone, Copy, Debug)]
pub struct InfoRequest {
    pub pk: i32,
}

/// A request body together with the caller's token.
#[derive(Clone, Debug)]
pub struct AsRequest<T> {
    pub token: String,
    pub body: T,
}

/// Mathematical image of a profile answer.
pub struct InfoResponseV {
    pub pk: i64,
    pub username: Seq<char>,
    pub nickname: Seq<char>,
    pub email: Seq<char>,
    pub level: AccountLevel,
}

/// The public profile fields of a user.
#[derive(Clone, Debug)]
pub struct InfoResponse {
    pub pk: i64,
    pub username: String,
    pub nickname: String,
    pub email: String,
    pub level: AccountLevel,
}

impl View for InfoResponse {
    type V = InfoResponseV;

    open spec fn view(&self) -> InfoResponseV {
        InfoResponseV {
            pk: self.pk,
            username: self.username@,
            nickname: self.nickname@,
            email: self.email@,
            level: self.level,
        }
    }
}

/// The liveness probe's answer.
pub fn ping() -> (r: ResponseBlock<Ping>)
    ensures
        r.status == true,
        r.body matches Some(p) && p.reply@ == "pong!"@,
{
    ResponseBlock { status: true, body: Some(Ping { reply: String::from_str("pong!") }) }
}

/// Outcome of a registration: the username check runs first, then
/// the email check; only then is the row inserted, with the plain
/// `Default` level. `DatabaseError` is a storage failure: here, a
/// spent id space.
pub open spec fn register_result_v(
    s: StoreV,
    username: Seq<char>,
    pass_hash: Seq<char>,
    email: Seq<char>,
    nickname: Seq<char>,
) -> (StoreV, AccountError) {
    if user_index_by_name(s.users, username) >= 0 {
        (s, AccountError::UsernameAlreadyExists)
    } else if user_index_by_email(s.users, email) >= 0 {
        (s, AccountError::EmailAlreadyExists)
    } else if s.next_user_id >= i32::MAX {
        (s, AccountError::DatabaseError)
    } else {
        (
            register_v(
                s,
                username,
                pass_hash,
                email,
                nickname,
                level_code(AccountLevel::Default),
            ),
            AccountError::Nothing,
        )
    }
}

/// Register an account: hashes the password and inserts a `Default`
/// level user, unless the username or the email is taken.
pub fn register(store: &mut Store, form: &RegisterForm) -> (r: RegisterResponse)
    requires
        old(store).wf(),
    ensures
        final(store).wf(),
        (final(store)@, r.result) == register_result_v(
            old(store)@,
            form.username@,
            password_hash_of(form.pass@),
            form.email@,
            form.nickname@,
        ),
{
    let v1 = store.by_username(form.username.as_str());
    let v2 = store.by_email(form.email.as_str());
    if v1.len() > 0 {
        return RegisterResponse { result: AccountError::UsernameAlreadyExists };
    }
    if v2.len() > 0 {
        return RegisterResponse { result: AccountError::EmailAlreadyExists };
    }
    let inserted = store.register(
        form.username.as_str(),
        form.pass.as_str(),
        form.email.as_str(),
        form.nickname.as_str(),
        AccountLevel::Default,
    );
    match inserted {
        Some(_) => RegisterResponse { result: AccountError::Nothing },
        None => RegisterResponse { result: AccountError::DatabaseError },
    }
}

/// Log in: checks the credentials; on a match the answer carries a
/// signed session token for the user's id, when the signer produced
/// one. No token ever accompanies a failure.
pub fn login(store: &Store, secret: &str, form: &LoginForm) -> (r: LoginResponse)
    ensures
        r.result == login_v(store@, form.username@, password_hash_of(form.pass@)).0,
        r.token is Some ==> r.result == AccountError::Nothing,
{
    let (err, pk) = store.login(form.username.as_str(), form.pass.as_str());
    match err {
        AccountError::Nothing => LoginResponse {
            result: AccountError::Nothing,
            token: issue_token(secret, pk),
        },
        _ => LoginResponse { result: err, token: None },
    }
}

/// The profile a claim resolves to: none without a valid claim, none
/// for a claim whose user is gone.
pub open spec fn info_v(s: StoreV, claim: Option<i32>) -> Option<InfoResponseV> {
    match claim {
        Option::None => Option::None,
        Option::Some(pk) => match user_with_id(s.users, pk) {
            Option::None => Option::None,
            Option::Some(u) => Option::Some(
                InfoResponseV {
                    pk: pk as i64,
                    username: u.username,
                    nickname: u.nickname,
                    email: u.email,
                    level: spec_level_of_code(u.permission),
                },
            ),
        },
    }
}

/// The profile lookup once token verification has spoken: exactly
/// `info_v` of the claim.
pub fn info_for_claims(store: &Store, claim: Option<i32>) -> (r: Option<InfoResponse>)
    ensures
        (r is Some) == (info_v(store@, claim) is Some),
        r matches Some(ir) ==> info_v(store@, claim) == Some(ir@),
{
    match claim {
        None => None,
        Some(pk) => match store.find_user(pk) {
            None => None,
            Some(u) => Some(
                InfoResponse {
                    pk: pk as i64,
                    username: u.username,
                    nickname: u.nickname,
                    email: u.email,
                    level: level_of_code(u.permission),
                },
            ),
        },
    }
}

/// The profile behind a session token. Token verification decides
/// the claim; whatever it said, the answer is `info_v` of it, so a
/// profile comes back only for a claim that resolves to a user.
pub fn info(store: &Store, secret: &str, token: &str) -> (r: Option<InfoResponse>)
    ensures
        r matches Some(ir) ==> exists|pk: i32| info_v(store@, Some(pk)) == Some(ir@),
{
    let claim = verify_token(secret, token);
    let r = info_for_claims(store, claim);
    proof {
        if r is Some {
            assert(claim is Some);
            let pk = claim.unwrap();
            assert(info_v(store@, Some(pk)) is Some);
        }
    }
    r
}

/// The public profile of any user id, with no token asked for.
pub fn get_user(store: &Store, pk: i32) -> (r: Option<InfoResponse>)
    ensures
        (r is Some) == (info_v(store@, Some(pk)) is Some),
        r matches Some(ir) ==> info_v(store@, Some(pk)) == Some(ir@),
{
    info_for_claims(store, Some(pk))
}

/// Law: registering a username that a successful registration
/// already holds fails with `UsernameAlreadyExists` and leaves the
/// store unchanged, whatever the other fields are.
pub proof fn lemma_register_same_username_twice(
    s: StoreV,
    username: Seq<char>,
    h1: Seq<char>,
    e1: Seq<char>,
    n1: Seq<char>,
    h2: Seq<char>,
    e2: Seq<char>,
    n2: Seq<char>,
)
    requires
        register_result_v(s, username, h1, e1, n1).1 == AccountError::Nothing,
    ensures
        ({
            let s1 = register_result_v(s, username, h1, e1, n1).0;
            register_result_v(s1, username, h2, e2, n2) == (
                s1,
                AccountError::UsernameAlreadyExists,
            )
        }),
{
    let s1 = register_result_v(s, username, h1, e1, n1).0;
    assert(s1.users[s.users.len() as int].username == username);
    lemma_user_index_by_name(s1.users, username);
}

/// Law: registering an email that a successful registration already
/// holds, under a username nobody holds, fails with
/// `EmailAlreadyExists` and leaves the store unchanged.
pub proof fn lemma_register_same_email_twice(
    s: StoreV,
    username: Seq<char>,
    h1: Seq<char>,
    email: Seq<char>,
    n1: Seq<char>,
    username2: Seq<char>,
    h2: Seq<char>,
    n2: Seq<char>,
)
    requires
        register_result_v(s, username, h1, email, n1).1 == AccountError::Nothing,
        username2 != username,
        forall|k: int|
            0 <= k < s.users.len() ==> (#[trigger] s.users[k]).username != username2,
    ensures
        ({
            let s1 = register_result_v(s, username, h1, email, n1).0;
            register_result_v(s1, username2, h2, email, n2) == (s1, AccountError::EmailAlreadyExists)
        }),
{
    let s1 = register_result_v(s, username, h1, email, n1).0;
    lemma_user_index_by_name(s1.users, username2);
    assert(forall|k: int|
        0 <= k < s1.users.len() ==> (#[trigger] s1.users[k]).username != username2);
    assert(s1.users[s.users.len() as int].email == email);
    lemma_user_index_by_email(s1.users, email);
}

/// Law: the wrong password for an existing user answers
/// `PassNotMatched` and names no user id.
pub proof fn lemma_login_wrong_password(s: StoreV, username: Seq<char>, h: Seq<char>)
    requires
        user_index_by_name(s.users, username) >= 0,
        s.users[user_index_by_name(s.users, username)].pass != h,
    ensures
        login_v(s, username, h) == (AccountError::PassNotMatched, -1i32),
{
}

/// Law: an unknown username answers `UserNotExists` and names no
/// user id.
pub proof fn lemma_login_unknown_user(s: StoreV, username: Seq<char>, h: Seq<char>)
    requires
        user_index_by_name(s.users, username) < 0,
    ensures
        login_v(s, username, h) == (AccountError::UserNotExists, -1i32),
{
}

/// Law: after a successful registration, the registered credentials
/// log in as the new user's id, and that id's profile shows exactly
/// the registered username, email, nickname and the plain level.
pub proof fn lemma_register_login_info(
    s: StoreV,
    username: Seq<char>,
    pass_hash: Seq<char>,
    email: Seq<char>,
    nickname: Seq<char>,
)
    requires
        users_wf(s),
        register_result_v(s, username, pass_hash, email, nickname).1 == AccountError::Nothing,
    ensures
        ({
            let s1 = register_result_v(s, username, pass_hash, email, nickname).0;
            &&& login_v(s1, username, pass_hash) == (AccountError::Nothing, s.next_user_id)
            &&& info_v(s1, Some(s.next_user_id)) == Some(
                InfoResponseV {
                    pk: s.next_user_id as i64,
                    username: username,
                    nickname: nickname,
                    email: email,
                    level: AccountLevel::Default,
                },
            )
        }),
{
    let s1 = register_result_v(s, username, pass_hash, email, nickname).0;
    let n = s.users.len() as int;
    assert(s1.users[n].username == username);
    lemma_user_index_by_name(s1.users, username);
    let i = user_index_by_name(s1.users, username);
    assert(0 <= i <= n);
    if i < n {
        assert(s1.users[i] == s.users[i]);
        lemma_user_index_by_name(s.users, username);
        assert(user_index_by_name(s.users, username) >= 0);
    }
    assert(i == n);
    assert(s1.users[n].id == s.next_user_id);
    lemma_user_index_by_id(s1.users, s.next_user_id);
    let j = user_index_by_id(s1.users, s.next_user_id);
    assert(0 <= j <= n);
    if j < n {
        assert(s1.users[j] == s.users[j]);
        assert(s.users[j].id < s.next_user_id);
    }
    assert(j == n);
}

} // verus!
