//! Signing the Matrix bot in: the stored credentials, and the order in which the ways of
//! signing in are tried.

use vstd::prelude::*;

verus! {

/// Credentials of a signed-in Matrix device, as stored between runs.
#[derive(Clone, Debug, PartialEq, Eq)]
pub struct MatrixCredentials {
    pub user_id: String,
    pub device_id: String,
    pub access_token: String,
}

/// A way of signing in.
#[derive(Clone, Debug, PartialEq, Eq)]
pub enum LoginStep {
    /// Restore the session saved by an earlier run.
    RestoreSaved,
    /// Restore the session given by the configured access token and device id, then save
    /// it.
    RestoreConfigured { access_token: String, device_id: String },
    /// Sign in with the configured password, then save the new session.
    PasswordLogin(String),
    /// No way is left: fail with this message.
    Fail(String),
}

/// The message when no way of signing in is configured.
pub open spec fn no_credentials_message() -> Seq<char> {
    "Matrix AUTH FAILED: No access_token, device_id, or password configured."@
}

/// The next way of signing in: first the saved session; then, when an access token and a
/// device id are configured, that session; then the password; failing when there is none.
/// `tried` counts the ways already tried and failed (0, 1 or 2).
pub fn next_login_step(
    tried: u8,
    access_token: Option<&str>,
    device_id: Option<&str>,
    password: Option<&str>,
) -> (r: LoginStep)
    requires
        tried <= 2,
    ensures
        tried == 0 ==> r is RestoreSaved,
        tried == 1 && access_token is Some && device_id is Some ==> (r matches LoginStep::RestoreConfigured {
            access_token: t,
            device_id: d,
        } && t@ == access_token->Some_0@ && d@ == device_id->Some_0@),
        (tried == 2 || (tried == 1 && (access_token is None || device_id is None))) ==> match password {
            Some(p) => r matches LoginStep::PasswordLogin(q) && q@ == p@,
            None => r matches LoginStep::Fail(m) && m@ == no_credentials_message(),
        },
{
    if tried == 0 {
        return LoginStep::RestoreSaved;
    }
    if tried == 1 {
        if let (Some(t), Some(d)) = (access_token, device_id) {
            return LoginStep::RestoreConfigured { access_token: t.to_owned(), device_id: d.to_owned() };
        }
    }
    match password {
        Some(p) => LoginStep::PasswordLogin(p.to_owned()),
        None => LoginStep::Fail("Matrix AUTH FAILED: No access_token, device_id, or password configured.".to_owned()),
    }
}

/// The credentials saved after signing in.
pub fn credentials_of(user_id: &str, device_id: &str, access_token: &str) -> (c: MatrixCredentials)
    ensures
        c.user_id@ == user_id@,
        c.device_id@ == device_id@,
        c.access_token@ == access_token@,
{
    MatrixCredentials {
        user_id: user_id.to_owned(),
        device_id: device_id.to_owned(),
        access_token: access_token.to_owned(),
    }
}

} // verus!
