use vstd::prelude::*;

verus! {

/// The error taxonomy of the engine.  Business-rule violations are mostly
/// returned as response values by the dispatchers; these errors cover the
/// remaining failures that callers must handle explicitly.
#[derive(Debug, Clone, PartialEq, Eq)]
pub enum Error {
    /// A unique key (name, uuid or token value) is already in use.
    Conflict,
    /// The requested row (user, invite, pending action) does not exist.
    NotFound,
    /// Bad user, bad password, or an operation that needs a verified
    /// password; deliberately indistinguishable from the caller's side.
    InvalidCredentials,
    /// The account exists but `active` is false.
    AccountDeactivated,
    /// A token exists but its validity window has elapsed.
    TokenExpired,
    /// A pending registration key blocks the operation, or none was
    /// expected and one is set.
    Registration,
    /// New-user registration is switched off in the configuration.
    RegistrationClosed,
    /// The caller presented no usable bearer token.
    NotLoggedIn,
    /// The caller is authenticated but lacks the admin flag.
    AccessDenied,
    /// A required field was blank.
    BlankField,
    /// The system clock could not be read or its value does not fit.
    Time,
    /// A remote peer was unreachable or answered with an unusable reply.
    Federation,
    /// Any other failure, with a short description.
    Msg(String),
}

impl Error {
    /// A short human-readable description, in place of `Display`.
    pub fn message(&self) -> (r: String)
    {
        match self {
            Error::Conflict => String::from_str("conflict: key already in use"),
            Error::NotFound => String::from_str("not found"),
            Error::InvalidCredentials => String::from_str("invalid user or password"),
            Error::AccountDeactivated => String::from_str("account is inactive"),
            Error::TokenExpired => String::from_str("login expired"),
            Error::Registration => String::from_str("registration state does not permit this"),
            Error::RegistrationClosed => String::from_str("new user registration is disabled"),
            Error::NotLoggedIn => String::from_str("not logged in"),
            Error::AccessDenied => String::from_str("access denied"),
            Error::BlankField => String::from_str("a required field was blank"),
            Error::Time => String::from_str("system time unavailable"),
            Error::Federation => String::from_str("remote instance failed"),
            Error::Msg(s) => s.clone(),
        }
    }
}

} // verus!
