//! The guard on the subscriber endpoint: the shared secret and the version
//! handshake, checked before a WebSocket upgrade completes.
use vstd::prelude::*;

use crate::text::{concat3, str_eq};

verus! {

/// Why an upgrade was refused.
#[derive(Clone, Debug)]
pub enum AuthError {
    /// The password is missing or is not the shared secret.
    Unauthorized,
    /// The client advertises another version; the field is the diagnostic.
    VersionMismatch(String),
}

/// The status of a successful upgrade.
pub const SWITCHING_PROTOCOLS: u16 = 101;

/// The status of a request whose client runs another version.
pub const BAD_REQUEST: u16 = 400;

/// The status of a request without the shared secret.
pub const UNAUTHORIZED: u16 = 401;

/// Whether the password given is the shared secret.
pub open spec fn password_ok(password: Option<&str>, secret: Seq<char>) -> bool {
    match password {
        Some(p) => p@ == secret,
        None => false,
    }
}

/// The diagnostic of a version mismatch.
pub open spec fn mismatch_message(server_version: Seq<char>, client_version: Seq<char>) -> Seq<
    char,
> {
    "Server is running version "@ + server_version + " but you are running "@ + client_version
}

/// The status that an upgrade with these credentials is answered with.
pub open spec fn handshake_status(
    user_id: Seq<char>,
    password: Option<&str>,
    secret: Seq<char>,
    server_version: Seq<char>,
) -> u16 {
    if !password_ok(password, secret) {
        UNAUTHORIZED
    } else if user_id != server_version {
        BAD_REQUEST
    } else {
        SWITCHING_PROTOCOLS
    }
}

impl AuthError {
    /// The HTTP status of the refusal.
    pub open spec fn spec_status(&self) -> u16 {
        match self {
            AuthError::Unauthorized => UNAUTHORIZED,
            AuthError::VersionMismatch(_) => BAD_REQUEST,
        }
    }

    /// The HTTP status of the refusal.
    pub fn status(&self) -> (r: u16)
        ensures
            r == self.spec_status(),
    {
        match self {
            AuthError::Unauthorized => UNAUTHORIZED,
            AuthError::VersionMismatch(_) => BAD_REQUEST,
        }
    }
}

/// The HTTP status that an upgrade is answered with, given the guard's verdict.
pub open spec fn spec_upgrade_status(verdict: Result<(), AuthError>) -> u16 {
    match verdict {
        Ok(_) => SWITCHING_PROTOCOLS,
        Err(e) => e.spec_status(),
    }
}

/// The HTTP status that an upgrade is answered with, given the guard's verdict.
pub fn upgrade_status(verdict: &Result<(), AuthError>) -> (r: u16)
    ensures
        r == spec_upgrade_status(*verdict),
{
    match verdict {
        Ok(_) => SWITCHING_PROTOCOLS,
        Err(e) => e.status(),
    }
}

/// Checks the Basic credentials of an upgrade. The user name carries the
/// client's version and must equal the server's exactly; the password
/// carries the shared secret. The secret is checked first.
pub fn basic_auth_validator(
    user_id: &str,
    password: Option<&str>,
    secret: &str,
    server_version: &str,
) -> (r: Result<(), AuthError>)
    ensures
        !password_ok(password, secret@) ==> r matches Err(AuthError::Unauthorized),
        password_ok(password, secret@) && user_id@ != server_version@ ==> (r matches Err(
            AuthError::VersionMismatch(msg),
        ) && msg@ == mismatch_message(server_version@, user_id@)),
        password_ok(password, secret@) && user_id@ == server_version@ ==> r is Ok,
        spec_upgrade_status(r) == handshake_status(user_id@, password, secret@, server_version@),
{
    let ok = match password {
        Some(p) => str_eq(p, secret),
        None => false,
    };
    if !ok {
        return Err(AuthError::Unauthorized);
    }
    if !str_eq(user_id, server_version) {
        let head = concat3("Server is running version ", server_version, " but you are running ");
        let mut msg = head;
        msg.append(user_id);
        return Err(AuthError::VersionMismatch(msg));
    }
    Ok(())
}

} // verus!
