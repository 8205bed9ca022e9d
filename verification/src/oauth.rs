//! Logging in through GitHub: where the user is sent, what is asked of
//! GitHub, and what each answer leads to.

use vstd::prelude::*;
use vstd::string::*;
use crate::text::{decimal, decimal_string};
use crate::user::{auth_info, AuthProvider, NewUser, User, UserAuthInfo};

verus! {

/// Where GitHub asks the user for consent.
pub const GITHUB_AUTH_URL: &'static str = "https://github.com/login/oauth/authorize";

/// Where a code is exchanged for an access token.
pub const GITHUB_TOKEN_URL: &'static str = "https://github.com/login/oauth/access_token";

/// Where GitHub tells who the user is.
pub const GITHUB_USER_URL: &'static str = "https://api.github.com/user";

/// Where GitHub lists the addresses of the user.
pub const GITHUB_EMAILS_URL: &'static str = "https://api.github.com/user/emails";

/// The user agent under which GitHub is asked.
pub const GITHUB_USER_AGENT: &'static str = "rust-notebook-app";

/// What GitHub hands back to the service after the user consented.
#[derive(Debug, Clone, PartialEq, Eq)]
pub struct AuthRequest {
    pub code: String,
    pub state: String,
}

/// Who the user is, as GitHub tells it.
#[derive(Debug, Clone, PartialEq, Eq)]
pub struct GithubUser {
    pub id: u64,
    pub login: String,
    pub avatar_url: String,
    pub email: Option<String>,
}

/// One address of the user, as GitHub lists it.
#[derive(Debug, Clone, PartialEq, Eq)]
pub struct GithubEmail {
    pub email: String,
    pub primary: bool,
    pub verified: bool,
}

/// The user together with the access token under which more can be asked.
#[derive(Debug, Clone, PartialEq, Eq)]
pub struct GithubUserResponse {
    pub user: GithubUser,
    pub token: String,
}

/// Why a login through GitHub did not succeed.
#[derive(Clone, Copy, PartialEq, Eq, Structural, Debug)]
pub enum AuthFailure {
    TokenFailed,
    GithubResponseFailed,
    GithubResponseError,
    GithubDataError,
    GithubEmailsNotFound,
    WrongLoginMethod,
}

impl AuthFailure {
    /// The word that names the failure in the address the user is sent to.
    pub open spec fn code_text(self) -> Seq<char> {
        match self {
            AuthFailure::TokenFailed => "token_failed"@,
            AuthFailure::GithubResponseFailed => "github_response_failed"@,
            AuthFailure::GithubResponseError => "github_response_error"@,
            AuthFailure::GithubDataError => "github_data_error"@,
            AuthFailure::GithubEmailsNotFound => "github_emails_not_found"@,
            AuthFailure::WrongLoginMethod => "wrong_login_method"@,
        }
    }

    /// The word that names the failure in the address the user is sent to.
    pub fn code(&self) -> (r: &'static str)
        ensures
            r@ == self.code_text(),
    {
        match self {
            AuthFailure::TokenFailed => "token_failed",
            AuthFailure::GithubResponseFailed => "github_response_failed",
            AuthFailure::GithubResponseError => "github_response_error",
            AuthFailure::GithubDataError => "github_data_error",
            AuthFailure::GithubEmailsNotFound => "github_emails_not_found",
            AuthFailure::WrongLoginMethod => "wrong_login_method",
        }
    }
}

/// The address of the login page that tells the user what went wrong.
pub open spec fn failure_url(base: Seq<char>, failure: AuthFailure) -> Seq<char> {
    base + "/login?auth_error="@ + failure.code_text()
}

/// The address of the page that takes the token of a user who logged in.
pub open spec fn success_url(base: Seq<char>, token: Seq<char>) -> Seq<char> {
    base + "/auth-callback?token="@ + token
}

/// The address of the login page that tells the user what went wrong.
pub fn login_error_url(base: &str, failure: AuthFailure) -> (r: String)
    ensures
        r@ == failure_url(base@, failure),
{
    let mut r = String::from_str(base);
    r.append("/login?auth_error=");
    r.append(failure.code());
    r
}

/// The address of the page that takes the token of a user who logged in.
pub fn auth_callback_url(base: &str, token: &str) -> (r: String)
    ensures
        r@ == success_url(base@, token@),
{
    let mut r = String::from_str(base);
    r.append("/auth-callback?token=");
    r.append(token);
    r
}

/// Where GitHub sends the user back to after a login.
pub fn login_redirect_uri(api_url: &str) -> (r: String)
    ensures
        r@ == api_url@ + "/api/user/auth/callback/github"@,
{
    let mut r = String::from_str(api_url);
    r.append("/api/user/auth/callback/github");
    r
}

/// Where GitHub sends the user back to after linking an account.
pub fn link_redirect_uri(api_url: &str) -> (r: String)
    ensures
        r@ == api_url@ + "/api/user/link/github/callback"@,
{
    let mut r = String::from_str(api_url);
    r.append("/api/user/link/github/callback");
    r
}

/// What is asked of GitHub in the user's name: who the user is, and the
/// user's addresses.
pub fn github_scopes() -> (r: Vec<&'static str>)
    ensures
        r@.len() == 2,
        r@[0]@ == "read:user"@,
        r@[1]@ == "user:email"@,
{
    let mut r: Vec<&'static str> = Vec::new();
    r.push("read:user");
    r.push("user:email");
    r
}

/// The `Authorization` header under which GitHub is asked.
pub fn bearer_header(access_token: &str) -> (r: String)
    ensures
        r@ == "Bearer "@ + access_token@,
{
    let mut r = String::from_str("Bearer ");
    r.append(access_token);
    r
}

/// What the exchange of the code leads to: the access token, or the
/// address that tells the user that the exchange failed.
pub fn after_token_exchange(base: &str, exchanged: Result<String, String>) -> (r: Result<
    String,
    String,
>)
    ensures
        match exchanged {
            Ok(t) => r == Ok::<String, String>(t),
            Err(_) => r matches Err(url) && url@ == failure_url(base@, AuthFailure::TokenFailed),
        },
{
    match exchanged {
        Ok(t) => Ok(t),
        Err(_) => Err(login_error_url(base, AuthFailure::TokenFailed)),
    }
}

/// What GitHub's answer to the question who the user is leads to: the
/// user, or the address that tells what went wrong. An answer whose status
/// is no success is an error of GitHub's; one that cannot be read is an
/// error in the data.
pub fn after_profile_request(base: &str, success: bool, profile: Option<GithubUser>) -> (r: Result<
    GithubUser,
    String,
>)
    ensures
        !success ==> (r matches Err(url) && url@ == failure_url(
            base@,
            AuthFailure::GithubResponseError,
        )),
        success && profile is None ==> (r matches Err(url) && url@ == failure_url(
            base@,
            AuthFailure::GithubDataError,
        )),
        success && profile is Some ==> r == Ok::<GithubUser, String>(profile->0),
{
    if !success {
        return Err(login_error_url(base, AuthFailure::GithubResponseError));
    }
    match profile {
        Some(user) => Ok(user),
        None => Err(login_error_url(base, AuthFailure::GithubDataError)),
    }
}

/// Where the first address stands that is primary and verified; the
/// length of the list if there is none.
pub open spec fn first_usable(emails: Seq<GithubEmail>) -> int
    decreases emails.len(),
{
    if emails.len() == 0 || (emails[0].primary && emails[0].verified) {
        0
    } else {
        1 + first_usable(emails.drop_first())
    }
}

/// The first address of the list that is primary and verified.
pub fn primary_verified_email(emails: &Vec<GithubEmail>) -> (r: Option<String>)
    ensures
        0 <= first_usable(emails@) <= emails@.len(),
        match r {
            Some(e) => first_usable(emails@) < emails@.len() && e == emails@[first_usable(
                emails@,
            )].email,
            None => first_usable(emails@) == emails@.len(),
        },
{
    let mut i: usize = 0;
    assert(emails@.skip(0) =~= emails@);
    while i < emails.len()
        invariant
            i <= emails.len(),
            first_usable(emails@) == i + first_usable(emails@.skip(i as int)),
        decreases emails.len() - i,
    {
        let ghost rest = emails@.skip(i as int);
        assert(rest[0] == emails@[i as int]);
        if emails[i].primary && emails[i].verified {
            return Some(emails[i].email.clone());
        }
        assert(rest.drop_first() =~= emails@.skip(i + 1));
        i += 1;
    }
    None
}

/// Whether the addresses of the user must be asked for: GitHub did not
/// tell one with the user.
pub fn needs_email_lookup(user: &GithubUser) -> (b: bool)
    ensures
        b == (user.email is None),
{
    user.email.is_none()
}

/// The address under which a user of GitHub is known to the service: the
/// one that GitHub told with the user, else the first of the user's
/// addresses that is primary and verified. Where there is neither, the
/// address of the page that says so.
pub fn github_email(base: &str, user: &GithubUser, emails: &Vec<GithubEmail>) -> (r: Result<
    String,
    String,
>)
    ensures
        match user.email {
            Some(e) => r == Ok::<String, String>(e),
            None => if first_usable(emails@) < emails@.len() {
                r == Ok::<String, String>(emails@[first_usable(emails@)].email)
            } else {
                r matches Err(url) && url@ == failure_url(
                    base@,
                    AuthFailure::GithubEmailsNotFound,
                )
            },
        },
{
    match &user.email {
        Some(e) => Ok(e.clone()),
        None => match primary_verified_email(emails) {
            Some(e) => Ok(e),
            None => Err(login_error_url(base, AuthFailure::GithubEmailsNotFound)),
        },
    }
}

/// What a user of GitHub who is new to the service is registered as.
pub fn github_registration(user: GithubUser, email: String) -> (r: NewUser)
    ensures
        r.name == user.login,
        r.email == email,
        r.password_hash is None,
        r.primary_provider == AuthProvider::Github,
        r.github_id matches Some(id) && id@ == decimal(user.id as nat),
        r.google_id is None,
        r.avatar_url == Some(user.avatar_url),
{
    NewUser {
        name: user.login,
        email,
        password_hash: None,
        primary_provider: AuthProvider::Github,
        github_id: Some(decimal_string(user.id)),
        google_id: None,
        avatar_url: Some(user.avatar_url),
    }
}

/// What follows once GitHub has told who the user is.
#[derive(Debug, Clone, PartialEq, Eq)]
pub enum CallbackStep {
    /// The user is sent to this address.
    Redirect(String),
    /// A token is issued that says this of the user.
    IssueToken(UserAuthInfo),
    /// The user is registered as this.
    Register(NewUser),
}

/// Decides what follows once GitHub has told who the user is, given the
/// user stored under that address, if there is one. A stored user who does
/// not log in through GitHub is sent to the page that says so; any other
/// stored user gets a token. Someone who is not stored is registered.
pub fn after_identity(base: &str, profile: GithubUser, email: String, existing: Option<User>) -> (r:
    CallbackStep)
    ensures
        match existing {
            Some(u) => if u.primary_provider != AuthProvider::Github {
                r matches CallbackStep::Redirect(url) && url@ == failure_url(
                    base@,
                    AuthFailure::WrongLoginMethod,
                )
            } else {
                r matches CallbackStep::IssueToken(info) && info == auth_info(u)
            },
            None => r matches CallbackStep::Register(n) && n.name == profile.login && n.email
                == email && n.password_hash is None && n.primary_provider == AuthProvider::Github
                && (n.github_id matches Some(id) && id@ == decimal(profile.id as nat))
                && n.google_id is None && n.avatar_url == Some(profile.avatar_url),
        },
{
    match existing {
        Some(u) => {
            if u.primary_provider != AuthProvider::Github {
                CallbackStep::Redirect(login_error_url(base, AuthFailure::WrongLoginMethod))
            } else {
                CallbackStep::IssueToken(UserAuthInfo::from(u))
            }
        },
        None => CallbackStep::Register(github_registration(profile, email)),
    }
}

/// Where a user is sent at the end of a login: to the page that takes the
/// token where one was issued, else to the front page.
pub fn final_redirect(base: &str, token: Option<&str>) -> (r: String)
    ensures
        r@ == (match token {
            Some(t) => success_url(base@, t@),
            None => base@,
        }),
{
    match token {
        Some(t) => auth_callback_url(base, t),
        None => String::from_str(base),
    }
}

/// What linking an account to GitHub leads to, given whether the user was
/// found under the address and whether the change was stored: the user to
/// issue a token for, or the address of the page that says that no address
/// was found.
pub fn after_link(base: &str, found: Option<User>, stored: bool) -> (r: Result<UserAuthInfo, String>)
    ensures
        match found {
            Some(u) if stored => r == Ok::<UserAuthInfo, String>(auth_info(u)),
            _ => r matches Err(url) && url@ == failure_url(
                base@,
                AuthFailure::GithubEmailsNotFound,
            ),
        },
{
    match found {
        Some(u) => {
            if stored {
                Ok(UserAuthInfo::from(u))
            } else {
                Err(login_error_url(base, AuthFailure::GithubEmailsNotFound))
            }
        },
        None => Err(login_error_url(base, AuthFailure::GithubEmailsNotFound)),
    }
}

} // verus!
