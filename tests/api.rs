use vpn_core::api::{failure_message, ApiClient, ApiError, Body, Method};
use vpn_core::auth::{self, AuthError};

#[test]
fn new_trims_trailing_slashes() {
    let c = ApiClient::new("https://vpn.example.com//", "t");
    assert_eq!(c.base_url(), "https://vpn.example.com");
    let d = ApiClient::new("http://h:8080", "t");
    assert_eq!(d.base_url(), "http://h:8080");
    assert_eq!(ApiClient::new("///", "t").base_url(), "");
}

#[test]
fn set_token_keeps_base() {
    let mut c = ApiClient::new("http://h/", "");
    c.set_token("new-token");
    assert_eq!(c.token(), "new-token");
    assert_eq!(c.base_url(), "http://h");
    assert_eq!(c.status().bearer.as_deref(), Some("new-token"));
}

#[test]
fn requests_have_method_path_and_body() {
    let c = ApiClient::new("http://h/", "tk");
    let r = c.list_servers();
    assert_eq!(r.method, Method::Get);
    assert_eq!(r.url, "http://h/vpn/servers");
    assert!(matches!(r.body, Body::Empty));
    let r = c.connect(42);
    assert_eq!(r.method, Method::Post);
    assert_eq!(r.url, "http://h/vpn/connect");
    assert!(matches!(r.body, Body::ServerId(42)));
    let r = c.disconnect(7);
    assert_eq!(r.url, "http://h/vpn/disconnect");
    assert!(matches!(r.body, Body::ServerId(7)));
    let r = c.status();
    assert_eq!(r.method, Method::Get);
    assert_eq!(r.url, "http://h/vpn/status");
    let r = c.update_profile("u", "e@x", "pw");
    assert_eq!(r.method, Method::Put);
    match r.body {
        Body::Account { username, email, password } => {
            assert_eq!((username.as_str(), email.as_str(), password.as_str()), ("u", "e@x", "pw"))
        }
        _ => panic!("expected an account body"),
    }
    let r = c.delete_account();
    assert_eq!(r.method, Method::Delete);
    assert_eq!(r.url, "http://h/profile/delete");
    assert_eq!(r.bearer.as_deref(), Some("tk"));
}

#[test]
fn status_check_success_and_failures() {
    assert!(ApiClient::check_status(200, None).is_ok());
    assert!(ApiClient::check_status(204, Some("ignored".to_string())).is_ok());
    match ApiClient::check_status(404, Some("not found".to_string())) {
        Err(ApiError::Api(m)) => assert_eq!(m, "not found"),
        _ => panic!("expected an API error"),
    }
    match ApiClient::check_status(500, None) {
        Err(ApiError::Api(m)) => assert_eq!(m, "unknown error"),
        _ => panic!("expected an API error"),
    }
    assert!(ApiClient::check_status(199, None).is_err());
    assert!(ApiClient::check_status(300, None).is_err());
    assert_eq!(failure_message(299, None), None);
    assert_eq!(failure_message(302, None).as_deref(), Some("unknown error"));
}

#[test]
fn auth_requests_carry_no_token() {
    let r = auth::login("http://h", "a@b.c", "pw");
    assert_eq!(r.method, Method::Post);
    assert_eq!(r.url, "http://h/auth/login");
    assert!(r.bearer.is_none());
    match r.body {
        Body::Login { email, password } => assert_eq!((email.as_str(), password.as_str()), ("a@b.c", "pw")),
        _ => panic!("expected a login body"),
    }
    let r = auth::register("http://h/", "al", "a@b.c", "pw");
    assert_eq!(r.url, "http://h//auth/register");
    assert!(r.bearer.is_none());
    assert!(matches!(r.body, Body::Account { .. }));
}

#[test]
fn auth_status_check() {
    assert!(auth::check_status(201, None).is_ok());
    match auth::check_status(401, Some("invalid credentials".to_string())) {
        Err(AuthError::Api(m)) => assert_eq!(m, "invalid credentials"),
        _ => panic!("expected an auth error"),
    }
    match auth::check_status(422, None) {
        Err(AuthError::Api(m)) => assert_eq!(m, "unknown error"),
        _ => panic!("expected an auth error"),
    }
}
