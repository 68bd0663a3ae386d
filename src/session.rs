use vstd::prelude::*;
use crate::api::{
    authorized, trim_slashes, ApiClient, ApiError, ClientModel, ConnectionInfo, Method, Request,
    Server,
};
use crate::auth::{AuthError, AuthResponse, UserInfo};
use crate::wireguard::{parse_model, WireGuardConfig, WireGuardError};

verus! {

/// Why a session operation failed.
#[derive(Debug, Clone)]
pub enum SessionError {
    Auth(AuthError),
    Api(ApiError),
    WireGuard(WireGuardError),
    /// `disconnect` was asked of a session with no active server.
    NotConnected,
}

/// A remote call that an operation needs made next.
#[derive(Debug, Clone, Copy, PartialEq, Eq, Structural)]
pub enum Call {
    ListServers,
    Connect(u64),
    Disconnect(u64),
}

/// What a remote call gave back.
#[derive(Debug)]
pub enum Reply {
    Servers(Result<Vec<Server>, ApiError>),
    Connection(Result<ConnectionInfo, ApiError>),
    Disconnected(Result<(), ApiError>),
}

/// Where an operation in progress stands: which answer it waits for.
#[derive(Debug)]
pub enum Phase {
    /// Waiting for the tunnel configuration of this server.
    Connecting(u64),
    /// Holding the configuration, waiting for the list that names the server.
    Resolving(u64, WireGuardConfig),
    /// Waiting for the API to release the current server.
    Disconnecting,
    /// Releasing the current server before connecting to this one.
    SwitchDisconnecting(u64),
}

/// What follows a step: one more remote call, or the end of the operation.
#[derive(Debug)]
pub enum Next {
    Perform(Phase, Call),
    Finished(Result<(), SessionError>),
}

/// An authenticated user, the client bound to the user's token, and the
/// server and configuration of the active tunnel, if any.
#[derive(Debug)]
pub struct Session {
    token: String,
    user: UserInfo,
    client: ApiClient,
    current_server: Option<Server>,
    config: Option<WireGuardConfig>,
}

/// The state of a session.
pub struct SessionModel {
    pub token: Seq<char>,
    pub user: UserInfo,
    pub client: ClientModel,
    pub server: Option<Server>,
    pub config: Option<WireGuardConfig>,
}

impl View for Session {
    type V = SessionModel;

    closed spec fn view(&self) -> SessionModel {
        SessionModel {
            token: self.token@,
            user: self.user,
            client: self.client@,
            server: self.current_server,
            config: self.config,
        }
    }
}

/// No active server and no configuration.
pub open spec fn is_idle(s: SessionModel) -> bool {
    s.server is None && s.config is None
}

/// The session that a login or registration at `base_url` opens.
pub open spec fn fresh(base_url: Seq<char>, a: AuthResponse) -> SessionModel {
    SessionModel {
        token: a.token@,
        user: a.user,
        client: ClientModel { base_url: trim_slashes(base_url), token: a.token@ },
        server: None,
        config: None,
    }
}

/// The first server of `list` with this id.
pub open spec fn first_with_id(list: Seq<Server>, id: u64) -> Option<Server>
    decreases list.len(),
{
    if list.len() == 0 {
        None
    } else if list[0].id == id {
        Some(list[0])
    } else {
        first_with_id(list.drop_first(), id)
    }
}

pub open spec fn connect_step(id: u64) -> Next {
    Next::Perform(Phase::Connecting(id), Call::Connect(id))
}

pub open spec fn disconnect_step(s: SessionModel) -> Next {
    match s.server {
        Some(sv) => Next::Perform(Phase::Disconnecting, Call::Disconnect(sv.id)),
        None => Next::Finished(Err(SessionError::NotConnected)),
    }
}

pub open spec fn switch_step(s: SessionModel, id: u64) -> Next {
    match s.server {
        Some(sv) => Next::Perform(Phase::SwitchDisconnecting(id), Call::Disconnect(sv.id)),
        None => connect_step(id),
    }
}

/// `reply` is the kind of answer that `phase` waits for.
pub open spec fn answers(phase: Phase, reply: Reply) -> bool {
    match phase {
        Phase::Connecting(_) => reply is Connection,
        Phase::Resolving(_, _) => reply is Servers,
        Phase::Disconnecting => reply is Disconnected,
        Phase::SwitchDisconnecting(_) => reply is Disconnected,
    }
}

/// The session with no active server.
pub open spec fn cleared(s: SessionModel) -> SessionModel {
    SessionModel { server: None, config: None, ..s }
}

/// Taking `reply` in `phase` moves the session from `s` to `s2` and leads to
/// `next`. A failed call leaves the session as it was.
pub open spec fn resumes(
    s: SessionModel,
    phase: Phase,
    reply: Reply,
    s2: SessionModel,
    next: Next,
) -> bool {
    match phase {
        Phase::Connecting(id) => s2 == s && match reply {
            Reply::Connection(Err(e)) => next == Next::Finished(Err(SessionError::Api(e))),
            Reply::Connection(Ok(info)) => match parse_model(info.config@) {
                Ok(m) => next matches Next::Perform(Phase::Resolving(id2, cfg), Call::ListServers)
                    && id2 == id && cfg@ == m,
                Err(name) => next matches Next::Finished(
                    Err(SessionError::WireGuard(WireGuardError::MissingField(f))),
                ) && f@ == name,
            },
            _ => false,
        },
        Phase::Resolving(id, cfg) => match reply {
            Reply::Servers(Err(e)) => s2 == s && next == Next::Finished(Err(SessionError::Api(e))),
            Reply::Servers(Ok(list)) => s2 == SessionModel {
                server: first_with_id(list@, id),
                config: Some(cfg),
                ..s
            } && next == Next::Finished(Ok(())),
            _ => false,
        },
        Phase::Disconnecting => match reply {
            Reply::Disconnected(Err(e)) => s2 == s && next == Next::Finished(
                Err(SessionError::Api(e)),
            ),
            Reply::Disconnected(Ok(())) => s2 == cleared(s) && next == Next::Finished(Ok(())),
            _ => false,
        },
        Phase::SwitchDisconnecting(id) => match reply {
            Reply::Disconnected(Err(e)) => s2 == s && next == Next::Finished(
                Err(SessionError::Api(e)),
            ),
            Reply::Disconnected(Ok(())) => s2 == cleared(s) && next == connect_step(id),
            _ => false,
        },
    }
}

impl Session {
    fn from_auth(base_url: &str, auth_resp: AuthResponse) -> (r: Session)
        ensures
            r@ == fresh(base_url@, auth_resp),
    {
        let client = ApiClient::new(base_url, auth_resp.token.as_str());
        Session {
            token: auth_resp.token.clone(),
            user: auth_resp.user,
            client,
            current_server: None,
            config: None,
        }
    }

    /// The session that the answer to a login at `base_url` opens, idle;
    /// a failed login gives its error.
    pub fn login(base_url: &str, reply: Result<AuthResponse, AuthError>) -> (r: Result<
        Session,
        SessionError,
    >)
        ensures
            match reply {
                Ok(a) => r is Ok && r->Ok_0@ == fresh(base_url@, a),
                Err(e) => r is Err && r->Err_0 == SessionError::Auth(e),
            },
    {
        match reply {
            Ok(a) => Ok(Session::from_auth(base_url, a)),
            Err(e) => Err(SessionError::Auth(e)),
        }
    }

    /// The session that the answer to a registration at `base_url` opens,
    /// idle; a failed registration gives its error.
    pub fn register(base_url: &str, reply: Result<AuthResponse, AuthError>) -> (r: Result<
        Session,
        SessionError,
    >)
        ensures
            match reply {
                Ok(a) => r is Ok && r->Ok_0@ == fresh(base_url@, a),
                Err(e) => r is Err && r->Err_0 == SessionError::Auth(e),
            },
    {
        match reply {
            Ok(a) => Ok(Session::from_auth(base_url, a)),
            Err(e) => Err(SessionError::Auth(e)),
        }
    }

    pub fn user(&self) -> (r: &UserInfo)
        ensures
            *r == self@.user,
    {
        &self.user
    }

    pub fn token(&self) -> (r: &str)
        ensures
            r@ == self@.token,
    {
        self.token.as_str()
    }

    pub fn client(&self) -> (r: &ApiClient)
        ensures
            r@ == self@.client,
    {
        &self.client
    }

    pub fn current_server(&self) -> (r: Option<&Server>)
        ensures
            match r {
                Some(sv) => self@.server == Some(*sv),
                None => self@.server is None,
            },
    {
        match &self.current_server {
            Some(sv) => Some(sv),
            None => None,
        }
    }

    pub fn current_config(&self) -> (r: Option<&WireGuardConfig>)
        ensures
            match r {
                Some(c) => self@.config == Some(*c),
                None => self@.config is None,
            },
    {
        match &self.config {
            Some(c) => Some(c),
            None => None,
        }
    }

    /// Whether a server is active.
    pub fn is_connected(&self) -> (r: bool)
        ensures
            r == self@.server is Some,
    {
        self.current_server.is_some()
    }

    /// The request for the list of servers; the state does not change.
    pub fn list_servers(&self) -> (r: Request)
        ensures
            authorized(r, self@.client, Method::Get, "/vpn/servers"@),
            r.body is Empty,
    {
        self.client.list_servers()
    }

    /// Starts connecting to `server_id`: the first call is the connection
    /// request.
    pub fn connect(&self, server_id: u64) -> (r: Next)
        ensures
            r == connect_step(server_id),
    {
        Next::Perform(Phase::Connecting(server_id), Call::Connect(server_id))
    }

    /// Starts disconnecting: fails at once, with no call, when no server is
    /// active; else the first call releases the active server.
    pub fn disconnect(&self) -> (r: Next)
        ensures
            r == disconnect_step(self@),
    {
        match &self.current_server {
            Some(sv) => Next::Perform(Phase::Disconnecting, Call::Disconnect(sv.id)),
            None => Next::Finished(Err(SessionError::NotConnected)),
        }
    }

    /// Starts switching to `new_server_id`: a full disconnect first when a
    /// server is active, then a connect. The two are not one atomic step.
    pub fn switch_server(&self, new_server_id: u64) -> (r: Next)
        ensures
            r == switch_step(self@, new_server_id),
    {
        match &self.current_server {
            Some(sv) => Next::Perform(Phase::SwitchDisconnecting(new_server_id), Call::Disconnect(sv.id)),
            None => Next::Perform(Phase::Connecting(new_server_id), Call::Connect(new_server_id)),
        }
    }

    /// Takes the answer to the call that `phase` waits for, and says what
    /// comes next.
    pub fn resume(&mut self, phase: Phase, reply: Reply) -> (next: Next)
        requires
            answers(phase, reply),
        ensures
            resumes(old(self)@, phase, reply, final(self)@, next),
    {
        match phase {
            Phase::Connecting(id) => match reply {
                Reply::Connection(Err(e)) => Next::Finished(Err(SessionError::Api(e))),
                Reply::Connection(Ok(info)) => match WireGuardConfig::parse(info.config.as_str()) {
                    Ok(cfg) => Next::Perform(Phase::Resolving(id, cfg), Call::ListServers),
                    Err(e) => Next::Finished(Err(SessionError::WireGuard(e))),
                },
                _ => Next::Finished(Err(SessionError::NotConnected)),
            },
            Phase::Resolving(id, cfg) => match reply {
                Reply::Servers(Err(e)) => Next::Finished(Err(SessionError::Api(e))),
                Reply::Servers(Ok(list)) => {
                    self.current_server = take_first_with_id(list, id);
                    self.config = Some(cfg);
                    Next::Finished(Ok(()))
                },
                _ => Next::Finished(Err(SessionError::NotConnected)),
            },
            Phase::Disconnecting => match reply {
                Reply::Disconnected(Err(e)) => Next::Finished(Err(SessionError::Api(e))),
                Reply::Disconnected(Ok(())) => {
                    self.current_server = None;
                    self.config = None;
                    Next::Finished(Ok(()))
                },
                _ => Next::Finished(Err(SessionError::NotConnected)),
            },
            Phase::SwitchDisconnecting(id) => match reply {
                Reply::Disconnected(Err(e)) => Next::Finished(Err(SessionError::Api(e))),
                Reply::Disconnected(Ok(())) => {
                    self.current_server = None;
                    self.config = None;
                    Next::Perform(Phase::Connecting(id), Call::Connect(id))
                },
                _ => Next::Finished(Err(SessionError::NotConnected)),
            },
        }
    }

    /// The request that updates the user's profile.
    pub fn update_profile(&self, username: &str, email: &str, password: &str) -> (r: Request)
        ensures
            authorized(r, self@.client, Method::Put, "/profile/update"@),
            (r.body matches crate::api::Body::Account { username: u, email: e, password: p } && u@
                == username@ && e@ == email@ && p@ == password@),
    {
        self.client.update_profile(username, email, password)
    }

    /// The request that deletes the account; it does not end the tunnel.
    pub fn delete_account(&self) -> (r: Request)
        ensures
            authorized(r, self@.client, Method::Delete, "/profile/delete"@),
            r.body is Empty,
    {
        self.client.delete_account()
    }
}

/// Moves the first server with this id out of `list`.
fn take_first_with_id(servers: Vec<Server>, id: u64) -> (r: Option<Server>)
    ensures
        r == first_with_id(servers@, id),
{
    let mut list = servers;
    let ghost all = list@;
    let mut i: usize = 0;
    assert(all.subrange(0, all.len() as int) =~= all);
    while i < list.len()
        invariant
            list@ == all,
            all == servers@,
            i <= list.len(),
            first_with_id(all, id) == first_with_id(all.subrange(i as int, all.len() as int), id),
        decreases list.len() - i,
    {
        if list[i].id == id {
            assert(all.subrange(i as int, all.len() as int)[0] == all[i as int]);
            return Some(list.remove(i));
        }
        assert(all.subrange(i as int, all.len() as int).drop_first() =~= all.subrange(
            i + 1,
            all.len() as int,
        ));
        i += 1;
    }
    None
}

/// `list` holds a server with this id.
pub open spec fn lists_id(list: Seq<Server>, id: u64) -> bool {
    exists|j: int| 0 <= j < list.len() && (#[trigger] list[j]).id == id
}

proof fn lemma_first_with_id(list: Seq<Server>, id: u64)
    ensures
        first_with_id(list, id) is Some <==> lists_id(list, id),
        first_with_id(list, id) is Some ==> first_with_id(list, id)->Some_0.id == id,
    decreases list.len(),
{
    if list.len() > 0 {
        lemma_first_with_id(list.drop_first(), id);
        if lists_id(list, id) && list[0].id != id {
            let j = choose|j: int| 0 <= j < list.len() && (#[trigger] list[j]).id == id;
            assert(list.drop_first()[j - 1] == list[j]);
        }
        if lists_id(list.drop_first(), id) {
            let j = choose|j: int| 0 <= j < list.len() - 1 && (#[trigger] list.drop_first()[j]).id == id;
            assert(list[j + 1] == list.drop_first()[j]);
        }
    }
}

/// After a connect completes, the configuration is set, and the server is
/// set exactly when the refreshed list names it: the server and the
/// configuration are present together unless the server could not be found.
pub proof fn lemma_connect_pairs(
    s: SessionModel,
    id: u64,
    cfg: WireGuardConfig,
    list: Vec<Server>,
    s2: SessionModel,
    next: Next,
)
    requires
        resumes(s, Phase::Resolving(id, cfg), Reply::Servers(Ok(list)), s2, next),
    ensures
        next == Next::Finished(Ok(())),
        s2.config == Some(cfg),
        s2.server is Some <==> lists_id(list@, id),
        s2.server is Some ==> s2.server->Some_0.id == id,
{
    lemma_first_with_id(list@, id);
}

/// After a disconnect completes, neither a server nor a configuration is
/// left.
pub proof fn lemma_disconnect_clears(s: SessionModel, s2: SessionModel, next: Next)
    requires
        resumes(s, Phase::Disconnecting, Reply::Disconnected(Ok(())), s2, next),
    ensures
        next == Next::Finished(Ok(())),
        is_idle(s2),
{
}

/// A session just opened is idle, and asking it to disconnect fails with
/// `NotConnected` before any remote call.
pub proof fn lemma_fresh_disconnect(base_url: Seq<char>, a: AuthResponse)
    ensures
        is_idle(fresh(base_url, a)),
        disconnect_step(fresh(base_url, a)) == Next::Finished(Err(SessionError::NotConnected)),
{
}

/// Switching is not atomic: from a connected session, once the disconnect
/// leg has succeeded the session is idle, and a failure of the connect leg,
/// at either of its calls, leaves it idle rather than back on the old
/// server.
pub proof fn lemma_switch_not_atomic(
    s: SessionModel,
    new_id: u64,
    s1: SessionModel,
    n1: Next,
    phase: Phase,
    reply: Reply,
    s2: SessionModel,
    n2: Next,
)
    requires
        s.server is Some,
        resumes(s, Phase::SwitchDisconnecting(new_id), Reply::Disconnected(Ok(())), s1, n1),
        phase == Phase::Connecting(new_id) || (phase matches Phase::Resolving(i, _) && i == new_id),
        resumes(s1, phase, reply, s2, n2),
        n2 matches Next::Finished(Err(_)),
    ensures
        switch_step(s, new_id) == Next::Perform(
            Phase::SwitchDisconnecting(new_id),
            Call::Disconnect(s.server->Some_0.id),
        ),
        n1 == connect_step(new_id),
        is_idle(s1),
        is_idle(s2),
        s2 == cleared(s),
{
}

} // verus!
