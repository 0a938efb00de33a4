use vstd::prelude::*;

verus! {

/// An opaque user identifier wrapping the underlying row id, so that it
/// cannot be mixed up with unrelated numeric fields.
#[derive(PartialEq, Eq, Structural, Debug, Clone, Copy)]
pub enum UserId {
    Uid(i64),
}

impl UserId {
    /// The wrapped row id as a mathematical integer.
    pub open spec fn as_int(self) -> int {
        match self {
            UserId::Uid(i) => i as int,
        }
    }

    pub fn to_i64(&self) -> (r: &i64)
        ensures
            *r as int == self.as_int(),
    {
        match self {
            UserId::Uid(id) => id,
        }
    }
}

impl From<i64> for UserId {
    fn from(a: i64) -> (r: UserId)
    {
        UserId::Uid(a)
    }
}

impl vstd::std_specs::convert::FromSpecImpl<i64> for UserId {
    open spec fn obeys_from_spec() -> bool {
        true
    }

    open spec fn from_spec(a: i64) -> UserId {
        UserId::Uid(a)
    }
}

/// Engine configuration supplied by the host.
#[derive(Debug, Clone)]
pub struct Config {
    pub mainsite: String,
    pub appname: String,
    pub emaildomain: String,
    pub admin_email: String,
    pub regen_login_tokens: bool,
    pub login_token_expiration_ms: Option<i64>,
    pub email_token_expiration_ms: i64,
    pub reset_token_expiration_ms: i64,
    pub invite_token_expiration_ms: i64,
    pub open_registration: bool,
    pub send_emails: bool,
    pub non_admin_invite: bool,
    pub remote_registration: bool,
}

/// What a logged-in caller learns about a user.
#[derive(Debug, Clone)]
pub struct LoginData {
    pub userid: UserId,
    pub uuid: String,
    pub name: String,
    pub email: String,
    pub admin: bool,
    pub active: bool,
    pub remote_url: Option<String>,
    pub data: Option<String>,
}

/// The configuration flags that an administrator may inspect.
#[derive(Debug, Clone, PartialEq, Eq)]
pub struct AdminSettings {
    pub open_registration: bool,
    pub send_emails: bool,
    pub non_admin_invite: bool,
    pub remote_registration: bool,
}

/// The admin-visible slice of the configuration.
pub fn admin_settings(config: &Config) -> (r: AdminSettings)
    ensures
        r.open_registration == config.open_registration,
        r.send_emails == config.send_emails,
        r.non_admin_invite == config.non_admin_invite,
        r.remote_registration == config.remote_registration,
{
    AdminSettings {
        open_registration: config.open_registration,
        send_emails: config.send_emails,
        non_admin_invite: config.non_admin_invite,
        remote_registration: config.remote_registration,
    }
}

/// A stored user record.
#[derive(Debug)]
pub struct User {
    pub id: UserId,
    pub uuid: String,
    pub name: String,
    pub hashwd: String,
    pub salt: String,
    pub email: String,
    pub registration_key: Option<String>,
    pub admin: bool,
    pub active: bool,
    pub remote_url: Option<String>,
    pub cookie: Option<String>,
}

impl Clone for User {
    /// A clone keeps every field.
    fn clone(&self) -> (r: User)
        ensures
            r == *self,
    {
        User {
            id: self.id,
            uuid: self.uuid.clone(),
            name: self.name.clone(),
            hashwd: self.hashwd.clone(),
            salt: self.salt.clone(),
            email: self.email.clone(),
            registration_key: self.registration_key.clone(),
            admin: self.admin,
            active: self.active,
            remote_url: self.remote_url.clone(),
            cookie: self.cookie.clone(),
        }
    }
}

/// A remote user that is not registered on this instance.
#[derive(Debug, Clone)]
pub struct PhantomUser {
    pub id: UserId,
    pub uuid: String,
    pub name: String,
    pub active: bool,
    pub extra_login_data: String,
}

/// An outstanding invitation.
#[derive(Debug, Clone)]
pub struct UserInvite {
    pub email: Option<String>,
    pub token: String,
    pub url: String,
    pub data: Option<String>,
    pub creator: UserId,
}

/// A request for a fresh invitation.
#[derive(Debug, Clone)]
pub struct GetInvite {
    pub email: Option<String>,
    pub data: Option<String>,
}

#[derive(Debug, Clone)]
pub struct RegistrationData {
    pub uid: String,
    pub pwd: String,
    pub email: String,
    pub remote_url: String,
}

#[derive(Debug, Clone)]
pub struct RSVP {
    pub uid: String,
    pub pwd: String,
    pub email: String,
    pub invite: String,
}

#[derive(Debug, Clone)]
pub struct Login {
    pub uid: String,
    pub pwd: String,
}

#[derive(Debug, Clone)]
pub struct ResetPassword {
    pub uid: String,
}

#[derive(Debug, Clone)]
pub struct PwdReset {
    pub userid: UserId,
    pub url: String,
}

#[derive(Debug, Clone)]
pub struct SetPassword {
    pub uid: String,
    pub newpwd: String,
    pub reset_key: String,
}

#[derive(Debug, Clone)]
pub struct ChangePassword {
    pub oldpwd: String,
    pub newpwd: String,
}

#[derive(Debug, Clone)]
pub struct ChangeEmail {
    pub pwd: String,
    pub email: String,
}

#[derive(Debug, Clone)]
pub struct ChangeRemoteUrl {
    pub pwd: String,
    pub remote_url: String,
}

/// The tagged union of end-user requests.
#[derive(Debug, Clone)]
pub enum UserRequest {
    UrqRegister(RegistrationData),
    UrqLogin(Login),
    UrqReadInvite(String),
    UrqRSVP(RSVP),
    UrqResetPassword(ResetPassword),
    UrqSetPassword(SetPassword),
    UrqLogout,
    UrqAuthedRequest(AuthedRequest),
}

/// Requests that demand a resolved bearer token.
#[derive(Debug, Clone)]
pub enum AuthedRequest {
    AthGetInvite(GetInvite),
    AthChangePassword(ChangePassword),
    AthChangeEmail(ChangeEmail),
    AthChangeRemoteUrl(ChangeRemoteUrl),
    AthReadRemoteUser(UserId),
}

/// The tagged union of end-user responses; every rejection is a value of
/// its own, never an exception.
#[derive(Debug, Clone)]
pub enum UserResponse {
    UrpRegistrationSent,
    UrpUserExists,
    UrpUnregisteredUser,
    UrpInvalidUserOrPwd,
    UrpInvalidUserId,
    UrpInvalidUserUuid,
    UrpBlankUserName,
    UrpBlankPassword,
    UrpNotLoggedIn,
    UrpAccountDeactivated,
    UrpLoggedIn(LoginData),
    UrpLoggedOut,
    UrpChangedPassword,
    UrpChangedEmail,
    UrpChangedRemoteUrl,
    UrpResetPasswordAck,
    UrpSetPasswordAck,
    UrpInvite(UserInvite),
    UrpRemoteRegistrationFailed,
    UrpRemoteUser(PhantomUser),
    UrpNoData,
    UrpServerError(String),
}

/// The tagged union of administrative requests.
#[derive(Debug, Clone)]
pub enum AdminRequest {
    ArqGetUsers,
    ArqDeleteUser(UserId),
    ArqUpdateUser(LoginData),
    ArqGetInvite(GetInvite),
    ArqGetPwdReset(UserId),
}

/// The tagged union of administrative responses.
#[derive(Debug, Clone)]
pub enum AdminResponse {
    ArpUsers(Vec<LoginData>),
    ArpUserDeleted(UserId),
    ArpUserNotDeleted(UserId),
    ArpNoUserId,
    ArpNoData,
    ArpUserUpdated(LoginData),
    ArpServerError(String),
    ArpUserInvite(UserInvite),
    ArpPwdReset(PwdReset),
    ArpNotLoggedIn,
    ArpInvalidUserOrPassword,
    ArpAccessDenied,
}

} // verus!
