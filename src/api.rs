use vstd::prelude::*;
use crate::text::{chars_of, string_of};

verus! {

/// A VPN exit server as the API lists it.
#[derive(Debug, Clone)]
pub struct Server {
    pub id: u64,
    pub name: String,
    pub country: String,
    pub ip: String,
    pub public_key: String,
    pub listen_port: u16,
    pub subnet: String,
    pub is_active: bool,
}

/// What the API answers to a connection request: the peer address it
/// assigned and the tunnel configuration as text.
#[derive(Debug, Clone)]
pub struct ConnectionInfo {
    pub peer_ip: String,
    pub config: String,
}

/// One peer currently assigned to the user.
#[derive(Debug, Clone)]
pub struct PeerStatus {
    pub id: u64,
    pub user_id: u64,
    pub server_id: u64,
    pub public_key: String,
    pub allowed_ip: String,
    pub server: Server,
}

/// Why a call to the API failed.
#[derive(Debug, Clone)]
pub enum ApiError {
    /// The request did not complete or its answer could not be read; the
    /// field describes the transport failure.
    Request(String),
    /// The API answered with a failure status; the field is its message.
    Api(String),
}

/// The HTTP method of a request.
#[derive(Debug, Clone, Copy, PartialEq, Eq, Structural)]
pub enum Method {
    Get,
    Post,
    Put,
    Delete,
}

/// The JSON body a request carries.
#[derive(Debug, Clone)]
pub enum Body {
    Empty,
    /// `{"server_id": n}`
    ServerId(u64),
    /// `{"email": .., "password": ..}`
    Login { email: String, password: String },
    /// `{"username": .., "email": .., "password": ..}`
    Account { username: String, email: String, password: String },
}

/// One HTTP request to the API, ready to be sent.
#[derive(Debug, Clone)]
pub struct Request {
    pub method: Method,
    pub url: String,
    /// The bearer token for the `Authorization` header, if the call needs one.
    pub bearer: Option<String>,
    pub body: Body,
}

/// `s` without the `'/'` characters at its end.
pub open spec fn trim_slashes(s: Seq<char>) -> Seq<char>
    decreases s.len(),
{
    if s.len() > 0 && s.last() == '/' {
        trim_slashes(s.drop_last())
    } else {
        s
    }
}

/// `status` is a success status (2xx).
pub open spec fn is_success(status: u16) -> bool {
    200 <= status && status <= 299
}

/// The message that a failed answer carries: the `error` field of its body,
/// or "unknown error" when the body has none.
pub open spec fn failure_text(error_field: Option<String>) -> Seq<char> {
    match error_field {
        Some(m) => m@,
        None => "unknown error"@,
    }
}

/// The message of a failed answer, or `None` for a success status.
pub fn failure_message(status: u16, error_field: Option<String>) -> (r: Option<String>)
    ensures
        r is None <==> is_success(status),
        r is Some ==> r->Some_0@ == failure_text(error_field),
{
    if 200 <= status && status <= 299 {
        None
    } else {
        match error_field {
            Some(m) => Some(m),
            None => Some(String::from_str("unknown error")),
        }
    }
}

/// The URL `base` followed by `path`.
fn url_of(base: &String, path: &str) -> (r: String)
    ensures
        r@ == base@ + path@,
{
    let mut url = base.clone();
    url.append(path);
    url
}

/// The state of a client: the base URL of the API and the bearer token.
pub struct ClientModel {
    pub base_url: Seq<char>,
    pub token: Seq<char>,
}

/// The client of the remote API: it knows where the API is and which
/// token to present, and describes each call as a `Request`.
#[derive(Debug, Clone)]
pub struct ApiClient {
    base_url: String,
    token: String,
}

impl View for ApiClient {
    type V = ClientModel;

    closed spec fn view(&self) -> ClientModel {
        ClientModel { base_url: self.base_url@, token: self.token@ }
    }
}

/// `r` asks for `method` on `base + path` with `token` as bearer and `body`.
pub open spec fn authorized(r: Request, c: ClientModel, method: Method, path: Seq<char>) -> bool {
    &&& r.method == method
    &&& r.url@ == c.base_url + path
    &&& r.bearer is Some
    &&& r.bearer->Some_0@ == c.token
}

impl ApiClient {
    /// A client for the API at `base_url` (trailing `'/'` removed) that
    /// presents `token`.
    pub fn new(base_url: &str, token: &str) -> (r: ApiClient)
        ensures
            r@.base_url == trim_slashes(base_url@),
            r@.token == token@,
    {
        let v = chars_of(base_url);
        let mut end = v.len();
        assert(v@.take(end as int) =~= v@);
        while end > 0 && v[end - 1] == '/'
            invariant
                end <= v.len(),
                trim_slashes(v@) == trim_slashes(v@.take(end as int)),
            decreases end,
        {
            assert(v@.take(end as int).drop_last() =~= v@.take(end - 1));
            end -= 1;
        }
        proof {
            assert(v@.take(v.len() as int) =~= v@);
            assert(v@.subrange(0, end as int) =~= v@.take(end as int));
        }
        ApiClient { base_url: string_of(&v, 0, end), token: String::from_str(token) }
    }

    pub fn base_url(&self) -> (r: &str)
        ensures
            r@ == self@.base_url,
    {
        self.base_url.as_str()
    }

    pub fn token(&self) -> (r: &str)
        ensures
            r@ == self@.token,
    {
        self.token.as_str()
    }

    /// Replaces the bearer token; the base URL stays.
    pub fn set_token(&mut self, token: &str)
        ensures
            final(self)@.token == token@,
            final(self)@.base_url == old(self)@.base_url,
    {
        self.token = String::from_str(token);
    }

    /// `GET /vpn/servers`: the list of servers.
    pub fn list_servers(&self) -> (r: Request)
        ensures
            authorized(r, self@, Method::Get, "/vpn/servers"@),
            r.body is Empty,
    {
        Request {
            method: Method::Get,
            url: url_of(&self.base_url, "/vpn/servers"),
            bearer: Some(self.token.clone()),
            body: Body::Empty,
        }
    }

    /// `POST /vpn/connect {server_id}`: a tunnel configuration for a server.
    pub fn connect(&self, server_id: u64) -> (r: Request)
        ensures
            authorized(r, self@, Method::Post, "/vpn/connect"@),
            r.body == Body::ServerId(server_id),
    {
        Request {
            method: Method::Post,
            url: url_of(&self.base_url, "/vpn/connect"),
            bearer: Some(self.token.clone()),
            body: Body::ServerId(server_id),
        }
    }

    /// `POST /vpn/disconnect {server_id}`: releases the tunnel on a server.
    pub fn disconnect(&self, server_id: u64) -> (r: Request)
        ensures
            authorized(r, self@, Method::Post, "/vpn/disconnect"@),
            r.body == Body::ServerId(server_id),
    {
        Request {
            method: Method::Post,
            url: url_of(&self.base_url, "/vpn/disconnect"),
            bearer: Some(self.token.clone()),
            body: Body::ServerId(server_id),
        }
    }

    /// `GET /vpn/status`: the peers currently assigned to the user.
    pub fn status(&self) -> (r: Request)
        ensures
            authorized(r, self@, Method::Get, "/vpn/status"@),
            r.body is Empty,
    {
        Request {
            method: Method::Get,
            url: url_of(&self.base_url, "/vpn/status"),
            bearer: Some(self.token.clone()),
            body: Body::Empty,
        }
    }

    /// `PUT /profile/update {username, email, password}`.
    pub fn update_profile(&self, username: &str, email: &str, password: &str) -> (r: Request)
        ensures
            authorized(r, self@, Method::Put, "/profile/update"@),
            (r.body matches Body::Account { username: u, email: e, password: p } && u@ == username@
                && e@ == email@ && p@ == password@),
    {
        Request {
            method: Method::Put,
            url: url_of(&self.base_url, "/profile/update"),
            bearer: Some(self.token.clone()),
            body: Body::Account {
                username: String::from_str(username),
                email: String::from_str(email),
                password: String::from_str(password),
            },
        }
    }

    /// `DELETE /profile/delete`.
    pub fn delete_account(&self) -> (r: Request)
        ensures
            authorized(r, self@, Method::Delete, "/profile/delete"@),
            r.body is Empty,
    {
        Request {
            method: Method::Delete,
            url: url_of(&self.base_url, "/profile/delete"),
            bearer: Some(self.token.clone()),
            body: Body::Empty,
        }
    }

    /// The outcome of an answer with `status` whose body's `error` field
    /// (when the body has one) is `error_field`: success for a 2xx status,
    /// else the API's message, or "unknown error".
    pub fn check_status(status: u16, error_field: Option<String>) -> (r: Result<(), ApiError>)
        ensures
            r is Ok <==> is_success(status),
            r is Err ==> (r->Err_0 matches ApiError::Api(m) && m@ == failure_text(error_field)),
    {
        match failure_message(status, error_field) {
            None => Ok(()),
            Some(m) => Err(ApiError::Api(m)),
        }
    }
}

} // verus!
