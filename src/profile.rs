use vstd::prelude::*;
use vstd::utf8::encode_utf8;
use crate::text::{chars_of, string_of, trim, trim_bounds};

verus! {

/// The screen the desktop client shows.
#[derive(Debug, Clone, Copy, PartialEq, Eq, Structural)]
pub enum AppState {
    Login,
    ServerList,
    Connected,
}

/// Why a profile update was refused before any call.
#[derive(Debug, Clone, Copy, PartialEq, Eq, Structural)]
pub enum ProfileError {
    /// The trimmed user name is under 3 bytes long.
    UsernameTooShort,
    /// The trimmed e-mail address holds no `'@'`.
    InvalidEmail,
    /// The password is under 8 bytes long.
    PasswordTooShort,
}

/// A profile update that passed the checks: the trimmed name and address,
/// and the password as given.
#[derive(Debug, Clone)]
pub struct ProfileInput {
    pub username: String,
    pub email: String,
    pub password: String,
}

/// The length in bytes of the UTF-8 form of `s`.
pub open spec fn byte_len(s: Seq<char>) -> nat {
    encode_utf8(s).len()
}

/// What the checks of a profile update give: the first failing check, in
/// the order name, address, password.
pub open spec fn profile_check(username: Seq<char>, email: Seq<char>, password: Seq<char>) -> Option<
    ProfileError,
> {
    if byte_len(trim(username)) < 3 {
        Some(ProfileError::UsernameTooShort)
    } else if !trim(email).contains('@') {
        Some(ProfileError::InvalidEmail)
    } else if byte_len(password) < 8 {
        Some(ProfileError::PasswordTooShort)
    } else {
        None
    }
}

/// The trimmed form of `s`.
fn trimmed(s: &str) -> (r: String)
    ensures
        r@ == trim(s@),
{
    let v = chars_of(s);
    let (a, b) = trim_bounds(&v, 0, v.len());
    assert(v@.subrange(0, v.len() as int) =~= s@);
    string_of(&v, a, b)
}

/// Checks a profile update: a user name of at least 3 bytes and an e-mail
/// address with an `'@'`, both trimmed, and a password of at least 8 bytes.
pub fn validate_profile(username: &str, email: &str, password: &str) -> (r: Result<
    ProfileInput,
    ProfileError,
>)
    ensures
        match profile_check(username@, email@, password@) {
            Some(e) => r == Err::<ProfileInput, ProfileError>(e),
            None => r is Ok && r->Ok_0.username@ == trim(username@) && r->Ok_0.email@ == trim(
                email@,
            ) && r->Ok_0.password@ == password@,
        },
{
    let u = trimmed(username);
    let e = trimmed(email);
    if u.as_str().as_bytes().len() < 3 {
        return Err(ProfileError::UsernameTooShort);
    }
    let ev = chars_of(e.as_str());
    let mut i: usize = 0;
    let mut found = false;
    while i < ev.len()
        invariant
            i <= ev.len(),
            ev@ == e@,
            found <==> exists|j: int| 0 <= j < i && ev@[j] == '@',
        decreases ev.len() - i,
    {
        if ev[i] == '@' {
            found = true;
        }
        i += 1;
    }
    if !found {
        return Err(ProfileError::InvalidEmail);
    }
    if password.as_bytes().len() < 8 {
        return Err(ProfileError::PasswordTooShort);
    }
    Ok(ProfileInput { username: u, email: e, password: String::from_str(password) })
}

} // verus!
