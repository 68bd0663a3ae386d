use vpn_core::country::{country_flag, flag_code};
use vpn_core::profile::{validate_profile, AppState, ProfileError};

#[test]
fn country_flag_any_case() {
    assert_eq!(country_flag("fr"), "FR");
    assert_eq!(country_flag("France"), "FR");
    assert_eq!(country_flag("united kingdom"), "GB");
    assert_eq!(country_flag("uk"), "GB");
    assert_eq!(country_flag("Royaume-Uni"), "GB");
    assert_eq!(country_flag("usa"), "US");
    assert_eq!(country_flag("Allemagne"), "DE");
    assert_eq!(country_flag("pays-bas"), "NL");
    assert_eq!(country_flag("japon"), "JP");
    assert_eq!(country_flag("canada"), "CA");
    assert_eq!(country_flag("australie"), "AU");
    assert_eq!(country_flag("singapour"), "SG");
    assert_eq!(country_flag("suisse"), "CH");
    assert_eq!(country_flag("Brazil"), "--");
    assert_eq!(country_flag(""), "--");
}

#[test]
fn flag_code_needs_upper_case() {
    assert_eq!(flag_code("FR"), "FR");
    assert_eq!(flag_code("fr"), "--");
    assert_eq!(flag_code("SWITZERLAND"), "CH");
}

#[test]
fn profile_checks_in_order() {
    assert_eq!(validate_profile(" ab ", "x", "short").err(), Some(ProfileError::UsernameTooShort));
    assert_eq!(validate_profile("abc", "no-at-sign", "short").err(), Some(ProfileError::InvalidEmail));
    assert_eq!(validate_profile("abc", "a@b", "1234567").err(), Some(ProfileError::PasswordTooShort));
    let ok = validate_profile("  alice  ", " a@b.c ", " pass word ").unwrap();
    assert_eq!(ok.username, "alice");
    assert_eq!(ok.email, "a@b.c");
    assert_eq!(ok.password, " pass word ");
}

#[test]
fn profile_lengths_are_bytes() {
    assert!(validate_profile("é", "a@b", "12345678").is_err());
    assert!(validate_profile("éa", "a@b", "12345678").is_ok());
    assert!(validate_profile("abc", "a@b", "éééé").is_ok());
}

#[test]
fn app_state_compares() {
    assert_ne!(AppState::Login, AppState::Connected);
    assert_eq!(AppState::ServerList, AppState::ServerList);
}
