use vpn_core::api::{ApiError, ConnectionInfo, Server};
use vpn_core::auth::{AuthError, AuthResponse, UserInfo};
use vpn_core::session::{Call, Next, Phase, Reply, Session, SessionError};
use vpn_core::wireguard::WireGuardError;

const CONFIG_TEXT: &str = "[Interface]\nPrivateKey = AAA\nAddress = 10.0.0.2/32\nDNS = 1.1.1.1\n\n[Peer]\nPublicKey = BBB\nEndpoint = 1.2.3.4:51820\nAllowedIPs = 0.0.0.0/0\n";

fn server(id: u64, name: &str) -> Server {
    Server {
        id,
        name: name.to_string(),
        country: "FR".to_string(),
        ip: format!("10.1.0.{}", id),
        public_key: format!("pk{}", id),
        listen_port: 51820,
        subnet: "10.0.0.0/24".to_string(),
        is_active: true,
    }
}

fn three_servers() -> Vec<Server> {
    vec![server(1, "Paris"), server(2, "Berlin"), server(3, "Tokyo")]
}

fn auth() -> AuthResponse {
    AuthResponse {
        token: "tok".to_string(),
        user: UserInfo { id: 9, username: "alice".to_string(), email: "a@x.io".to_string() },
    }
}

fn fresh_session() -> Session {
    Session::login("http://localhost:8080/", Ok(auth())).unwrap()
}

fn connection(text: &str) -> Reply {
    Reply::Connection(Ok(ConnectionInfo { peer_ip: "10.0.0.2".to_string(), config: text.to_string() }))
}

fn expect_call(next: Next, call: Call) -> Phase {
    match next {
        Next::Perform(phase, c) => {
            assert_eq!(c, call);
            phase
        }
        Next::Finished(_) => panic!("expected a call"),
    }
}

fn connect_fully(s: &mut Session, id: u64, list: Vec<Server>) {
    let phase = expect_call(s.connect(id), Call::Connect(id));
    let phase = expect_call(s.resume(phase, connection(CONFIG_TEXT)), Call::ListServers);
    match s.resume(phase, Reply::Servers(Ok(list))) {
        Next::Finished(Ok(())) => {}
        _ => panic!("connect should finish"),
    }
}

#[test]
fn login_opens_idle_session() {
    let s = fresh_session();
    assert!(!s.is_connected());
    assert!(s.current_server().is_none());
    assert!(s.current_config().is_none());
    assert_eq!(s.token(), "tok");
    assert_eq!(s.user().username, "alice");
    assert_eq!(s.client().base_url(), "http://localhost:8080");
    assert_eq!(s.client().token(), "tok");
}

#[test]
fn login_and_register_failures_are_auth_errors() {
    match Session::login("http://h", Err(AuthError::Api("bad password".to_string()))) {
        Err(SessionError::Auth(AuthError::Api(m))) => assert_eq!(m, "bad password"),
        _ => panic!("expected an auth error"),
    }
    match Session::register("http://h", Err(AuthError::Request("refused".to_string()))) {
        Err(SessionError::Auth(AuthError::Request(m))) => assert_eq!(m, "refused"),
        _ => panic!("expected an auth error"),
    }
    let s = Session::register("http://h", Ok(auth())).unwrap();
    assert!(!s.is_connected());
}

#[test]
fn example_login_list_connect_disconnect() {
    let mut s = fresh_session();
    let req = s.list_servers();
    assert_eq!(req.url, "http://localhost:8080/vpn/servers");
    let listed = three_servers();
    assert_eq!(listed.len(), 3);

    let phase = expect_call(s.connect(2), Call::Connect(2));
    let phase = expect_call(s.resume(phase, connection(CONFIG_TEXT)), Call::ListServers);
    assert!(!s.is_connected());
    match s.resume(phase, Reply::Servers(Ok(listed))) {
        Next::Finished(Ok(())) => {}
        _ => panic!("connect should finish"),
    }
    assert!(s.is_connected());
    assert_eq!(s.current_server().unwrap().id, 2);
    assert_eq!(s.current_server().unwrap().name, "Berlin");
    let cfg = s.current_config().unwrap();
    assert_eq!(cfg.persistent_keepalive, 25);
    assert_eq!(cfg.private_key, "AAA");
    assert_eq!(cfg.peer_public_key, "BBB");

    let phase = expect_call(s.disconnect(), Call::Disconnect(2));
    match s.resume(phase, Reply::Disconnected(Ok(()))) {
        Next::Finished(Ok(())) => {}
        _ => panic!("disconnect should finish"),
    }
    assert!(!s.is_connected());
    assert!(s.current_server().is_none());
    assert!(s.current_config().is_none());
}

#[test]
fn disconnect_when_idle_is_not_connected_without_a_call() {
    let s = fresh_session();
    match s.disconnect() {
        Next::Finished(Err(SessionError::NotConnected)) => {}
        _ => panic!("expected NotConnected"),
    }
}

#[test]
fn connect_api_failure_keeps_idle() {
    let mut s = fresh_session();
    let phase = expect_call(s.connect(4), Call::Connect(4));
    match s.resume(phase, Reply::Connection(Err(ApiError::Api("server full".to_string())))) {
        Next::Finished(Err(SessionError::Api(ApiError::Api(m)))) => assert_eq!(m, "server full"),
        _ => panic!("expected the API error"),
    }
    assert!(s.current_server().is_none());
    assert!(s.current_config().is_none());
}

#[test]
fn connect_bad_config_keeps_idle() {
    let mut s = fresh_session();
    let phase = expect_call(s.connect(1), Call::Connect(1));
    match s.resume(phase, connection("[Interface]\nPrivateKey = abc\n")) {
        Next::Finished(Err(SessionError::WireGuard(WireGuardError::MissingField(f)))) => {
            assert_eq!(f, "Address")
        }
        _ => panic!("expected a config error"),
    }
    assert!(s.current_server().is_none());
    assert!(s.current_config().is_none());
}

#[test]
fn connect_list_failure_keeps_idle() {
    let mut s = fresh_session();
    let phase = expect_call(s.connect(1), Call::Connect(1));
    let phase = expect_call(s.resume(phase, connection(CONFIG_TEXT)), Call::ListServers);
    match s.resume(phase, Reply::Servers(Err(ApiError::Request("timeout".to_string())))) {
        Next::Finished(Err(SessionError::Api(ApiError::Request(m)))) => assert_eq!(m, "timeout"),
        _ => panic!("expected the transport error"),
    }
    assert!(s.current_config().is_none());
}

#[test]
fn connect_unlisted_server_keeps_config_only() {
    let mut s = fresh_session();
    connect_fully(&mut s, 7, three_servers());
    assert!(s.current_server().is_none());
    assert!(s.current_config().is_some());
    assert!(!s.is_connected());
}

#[test]
fn connect_picks_first_server_with_id() {
    let mut s = fresh_session();
    connect_fully(&mut s, 2, vec![server(1, "a"), server(2, "first"), server(2, "second")]);
    assert_eq!(s.current_server().unwrap().name, "first");
}

#[test]
fn disconnect_failure_keeps_connection() {
    let mut s = fresh_session();
    connect_fully(&mut s, 3, three_servers());
    let phase = expect_call(s.disconnect(), Call::Disconnect(3));
    match s.resume(phase, Reply::Disconnected(Err(ApiError::Api("unknown error".to_string())))) {
        Next::Finished(Err(SessionError::Api(_))) => {}
        _ => panic!("expected the API error"),
    }
    assert_eq!(s.current_server().unwrap().id, 3);
    assert!(s.current_config().is_some());
}

#[test]
fn switch_when_idle_connects_directly() {
    let s = fresh_session();
    match s.switch_server(5) {
        Next::Perform(Phase::Connecting(5), Call::Connect(5)) => {}
        _ => panic!("expected a connect"),
    }
}

#[test]
fn switch_success_moves_to_new_server() {
    let mut s = fresh_session();
    connect_fully(&mut s, 1, three_servers());
    let phase = expect_call(s.switch_server(3), Call::Disconnect(1));
    let phase = expect_call(s.resume(phase, Reply::Disconnected(Ok(()))), Call::Connect(3));
    let phase = expect_call(s.resume(phase, connection(CONFIG_TEXT)), Call::ListServers);
    match s.resume(phase, Reply::Servers(Ok(three_servers()))) {
        Next::Finished(Ok(())) => {}
        _ => panic!("switch should finish"),
    }
    assert_eq!(s.current_server().unwrap().id, 3);
}

#[test]
fn switch_disconnect_failure_stays_on_old_server() {
    let mut s = fresh_session();
    connect_fully(&mut s, 1, three_servers());
    let phase = expect_call(s.switch_server(3), Call::Disconnect(1));
    match s.resume(phase, Reply::Disconnected(Err(ApiError::Api("busy".to_string())))) {
        Next::Finished(Err(SessionError::Api(_))) => {}
        _ => panic!("expected the API error"),
    }
    assert_eq!(s.current_server().unwrap().id, 1);
}

#[test]
fn switch_connect_failure_ends_idle() {
    let mut s = fresh_session();
    connect_fully(&mut s, 1, three_servers());
    let phase = expect_call(s.switch_server(2), Call::Disconnect(1));
    let phase = expect_call(s.resume(phase, Reply::Disconnected(Ok(()))), Call::Connect(2));
    match s.resume(phase, Reply::Connection(Err(ApiError::Api("server full".to_string())))) {
        Next::Finished(Err(SessionError::Api(_))) => {}
        _ => panic!("expected the API error"),
    }
    assert!(s.current_server().is_none());
    assert!(s.current_config().is_none());
}

#[test]
fn profile_requests_carry_token() {
    let s = fresh_session();
    let r = s.update_profile("bob", "b@x.io", "secret123");
    assert_eq!(r.url, "http://localhost:8080/profile/update");
    assert_eq!(r.bearer.as_deref(), Some("tok"));
    let d = s.delete_account();
    assert_eq!(d.url, "http://localhost:8080/profile/delete");
    assert_eq!(d.bearer.as_deref(), Some("tok"));
}
