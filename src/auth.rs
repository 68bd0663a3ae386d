use vstd::prelude::*;
use crate::api::{failure_message, failure_text, is_success, Body, Method, Request};

verus! {

/// The account as the API describes it.
#[derive(Debug, Clone)]
pub struct UserInfo {
    pub id: u64,
    pub username: String,
    pub email: String,
}

/// What a successful login or registration gives: a bearer token and the
/// account it belongs to.
#[derive(Debug, Clone)]
pub struct AuthResponse {
    pub token: String,
    pub user: UserInfo,
}

/// Why a login or a registration failed.
#[derive(Debug, Clone)]
pub enum AuthError {
    /// The request did not complete or its answer could not be read.
    Request(String),
    /// The API refused; the field is its message.
    Api(String),
}

/// The URL `base` followed by `path`, the base taken as given.
fn auth_url(base_url: &str, path: &str) -> (r: String)
    ensures
        r@ == base_url@ + path@,
{
    let mut url = String::from_str(base_url);
    url.append(path);
    url
}

/// `POST {base_url}/auth/register {username, email, password}`, without a
/// token.
pub fn register(base_url: &str, username: &str, email: &str, password: &str) -> (r: Request)
    ensures
        r.method == Method::Post,
        r.url@ == base_url@ + "/auth/register"@,
        r.bearer is None,
        (r.body matches Body::Account { username: u, email: e, password: p } && u@ == username@
            && e@ == email@ && p@ == password@),
{
    Request {
        method: Method::Post,
        url: auth_url(base_url, "/auth/register"),
        bearer: None,
        body: Body::Account {
            username: String::from_str(username),
            email: String::from_str(email),
            password: String::from_str(password),
        },
    }
}

/// `POST {base_url}/auth/login {email, password}`, without a token.
pub fn login(base_url: &str, email: &str, password: &str) -> (r: Request)
    ensures
        r.method == Method::Post,
        r.url@ == base_url@ + "/auth/login"@,
        r.bearer is None,
        (r.body matches Body::Login { email: e, password: p } && e@ == email@ && p@
            == password@),
{
    Request {
        method: Method::Post,
        url: auth_url(base_url, "/auth/login"),
        bearer: None,
        body: Body::Login { email: String::from_str(email), password: String::from_str(password) },
    }
}

/// The outcome of an answer to a login or registration with `status` and
/// the body's `error` field: success for a 2xx status, else the API's
/// message, or "unknown error".
pub fn check_status(status: u16, error_field: Option<String>) -> (r: Result<(), AuthError>)
    ensures
        r is Ok <==> is_success(status),
        r is Err ==> (r->Err_0 matches AuthError::Api(m) && m@ == failure_text(error_field)),
{
    match failure_message(status, error_field) {
        None => Ok(()),
        Some(m) => Err(AuthError::Api(m)),
    }
}

} // verus!
