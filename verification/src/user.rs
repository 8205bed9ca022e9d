//! Users, what they send to register and log in, and when a login is
//! accepted.

use vstd::prelude::*;
use vstd::string::*;
use crate::clock::Timestamp;
use crate::error::ApiError;
use crate::ids::Id;
use crate::password::{bcrypt_accepts, bcrypt_hash, bcrypt_verify};
use crate::text::{lowercase, normalize, trim, trim_str};

verus! {

/// What a user is to the service as a whole.
#[derive(Clone, Copy, PartialEq, Eq, Structural, Debug)]
pub enum UserRole {
    Admin,
    User,
}

/// How a user proves who they are.
#[derive(Clone, Copy, PartialEq, Eq, Structural, Debug)]
pub enum AuthProvider {
    Email,
    Google,
    Github,
}

impl AuthProvider {
    /// The name of the provider.
    pub open spec fn label_text(self) -> Seq<char> {
        match self {
            AuthProvider::Email => "Email"@,
            AuthProvider::Google => "Google"@,
            AuthProvider::Github => "Github"@,
        }
    }

    /// The name of the provider.
    pub fn label(&self) -> (r: &'static str)
        ensures
            r@ == self.label_text(),
    {
        match self {
            AuthProvider::Email => "Email",
            AuthProvider::Google => "Google",
            AuthProvider::Github => "Github",
        }
    }
}

/// A user as stored.
#[derive(Debug, Clone, PartialEq, Eq)]
pub struct User {
    pub id: Id,
    pub public_id: i32,
    pub name: String,
    pub email: String,
    pub avatar_url: Option<String>,
    pub password_hash: Option<String>,
    pub primary_provider: AuthProvider,
    pub github_id: Option<String>,
    pub google_id: Option<String>,
    pub role: UserRole,
    pub is_active: bool,
    pub created_at: Timestamp,
    pub updated_at: Timestamp,
    pub deleted_at: Option<Timestamp>,
}

/// What a token says of a user.
#[derive(Debug, Clone, PartialEq, Eq)]
pub struct UserAuthInfo {
    pub id: Id,
    pub public_id: i32,
    pub email: String,
    pub role: UserRole,
}

/// What a token says of `user`.
pub open spec fn auth_info(user: User) -> UserAuthInfo {
    UserAuthInfo { id: user.id, public_id: user.public_id, email: user.email, role: user.role }
}

impl From<User> for UserAuthInfo {
    fn from(input: User) -> (r: Self) {
        UserAuthInfo {
            id: input.id,
            public_id: input.public_id,
            email: input.email,
            role: input.role,
        }
    }
}

impl vstd::std_specs::convert::FromSpecImpl<User> for UserAuthInfo {
    open spec fn obeys_from_spec() -> bool {
        true
    }

    open spec fn from_spec(input: User) -> Self {
        auth_info(input)
    }
}

/// What is sent to register.
#[derive(Debug, Clone, PartialEq, Eq)]
pub struct NewUser {
    pub name: String,
    pub email: String,
    pub password_hash: Option<String>,
    pub primary_provider: AuthProvider,
    pub github_id: Option<String>,
    pub google_id: Option<String>,
    pub avatar_url: Option<String>,
}

/// What is sent to log in.
#[derive(Debug, Clone, PartialEq, Eq)]
pub struct LoginUser {
    pub email: String,
    pub password: String,
}

/// What is sent to change one's name and address.
#[derive(Debug, Clone, PartialEq, Eq)]
pub struct UpdateUser {
    pub name: String,
    pub email: String,
}

/// What is sent to change one's password.
#[derive(Debug, Clone, PartialEq, Eq)]
pub struct UpdateUserPassword {
    pub current_password: String,
    pub new_password: String,
    pub confirm_password: String,
}

impl LoginUser {
    /// Brings the address into the form in which addresses are compared:
    /// without white space around it, in lowercase.
    pub fn sanitize(&mut self)
        ensures
            final(self).email@ == lowercase(trim(old(self).email@)),
            final(self).password == old(self).password,
    {
        let email = normalize(self.email.as_str());
        self.email = email;
    }
}

impl NewUser {
    /// Takes the white space from around the name, and brings the address
    /// into the form in which addresses are compared.
    pub fn sanitize(&mut self)
        ensures
            final(self).name@ == trim(old(self).name@),
            final(self).email@ == lowercase(trim(old(self).email@)),
            final(self).password_hash == old(self).password_hash,
            final(self).primary_provider == old(self).primary_provider,
            final(self).github_id == old(self).github_id,
            final(self).google_id == old(self).google_id,
            final(self).avatar_url == old(self).avatar_url,
    {
        let name = trim_str(self.name.as_str());
        let email = normalize(self.email.as_str());
        self.name = name;
        self.email = email;
    }
}

impl UpdateUser {
    /// Takes the white space from around the name, and brings the address
    /// into the form in which addresses are compared.
    pub fn sanitize(&mut self)
        ensures
            final(self).name@ == trim(old(self).name@),
            final(self).email@ == lowercase(trim(old(self).email@)),
    {
        let email = normalize(self.email.as_str());
        let name = trim_str(self.name.as_str());
        self.email = email;
        self.name = name;
    }
}

/// Whether `password` is the password of `user`: the user has a hash and
/// the hash is one of `password`.
pub open spec fn password_matches(user: User, password: Seq<char>) -> bool {
    user.password_hash matches Some(h) && bcrypt_accepts(password, h@)
}

/// Decides a login against the stored user. A user who is inactive or
/// deleted is refused first; then one whose provider is not the password;
/// then one whose password does not match; any other is let in, with what
/// a token is to say of them.
pub fn authenticate(user: User, password: &str) -> (r: Result<UserAuthInfo, ApiError>)
    ensures
        !user.is_active || user.deleted_at is Some ==> r == Err::<UserAuthInfo, ApiError>(
            ApiError::NotActiveUser,
        ),
        user.is_active && user.deleted_at is None && user.primary_provider != AuthProvider::Email
            ==> (r matches Err(ApiError::WrongProvider(p)) && p@
            == user.primary_provider.label_text()),
        user.is_active && user.deleted_at is None && user.primary_provider == AuthProvider::Email
            && !password_matches(user, password@) ==> r == Err::<UserAuthInfo, ApiError>(
            ApiError::InvalidCredentials,
        ),
        user.is_active && user.deleted_at is None && user.primary_provider == AuthProvider::Email
            && password_matches(user, password@) ==> r == Ok::<UserAuthInfo, ApiError>(
            auth_info(user),
        ),
{
    if !user.is_active || user.deleted_at.is_some() {
        return Err(ApiError::NotActiveUser);
    }
    if user.primary_provider != AuthProvider::Email {
        return Err(ApiError::WrongProvider(String::from_str(user.primary_provider.label())));
    }
    let password_valid = match &user.password_hash {
        Some(hash) => bcrypt_verify(password, hash.as_str()),
        None => false,
    };
    if !password_valid {
        return Err(ApiError::InvalidCredentials);
    }
    Ok(UserAuthInfo::from(user))
}

/// Whether the password sent at registration is hashed before it is
/// stored: there is one, and the user is to log in with it.
pub open spec fn hashes_password(input: NewUser) -> bool {
    input.password_hash is Some && input.primary_provider == AuthProvider::Email
}

/// What is stored for a registration whose password is to be hashed,
/// given the hash, if the password could be hashed: the registration with
/// the hash in place of the password, or the refusal as an invalid password.
pub fn registration_with_hash(input: NewUser, hash: Option<String>) -> (r: Result<NewUser, ApiError>)
    ensures
        r == (match hash {
            Some(h) => Ok::<NewUser, ApiError>(
                NewUser {
                    name: input.name,
                    email: input.email,
                    password_hash: Some(h),
                    primary_provider: input.primary_provider,
                    github_id: input.github_id,
                    google_id: input.google_id,
                    avatar_url: input.avatar_url,
                },
            ),
            None => Err::<NewUser, ApiError>(ApiError::InvalidPassword),
        }),
{
    match hash {
        Some(h) => Ok(
            NewUser {
                name: input.name,
                email: input.email,
                password_hash: Some(h),
                primary_provider: input.primary_provider,
                github_id: input.github_id,
                google_id: input.google_id,
                avatar_url: input.avatar_url,
            },
        ),
        None => Err(ApiError::InvalidPassword),
    }
}

/// Makes what was sent at registration ready to be stored. What failed the
/// validation is refused with the validator's text. A password that is to be
/// logged in with is replaced by a hash of it; if it cannot be hashed the
/// registration is refused as an invalid password. Everything else is
/// stored as sent.
pub fn prepare_registration(input: NewUser, invalid: Option<String>) -> (r: Result<
    NewUser,
    ApiError,
>)
    ensures
        invalid matches Some(text) ==> r == Err::<NewUser, ApiError>(ApiError::Request(text)),
        invalid is None && !hashes_password(input) ==> r == Ok::<NewUser, ApiError>(input),
        invalid is None && hashes_password(input) ==> (r matches Err(e) && e
            == ApiError::InvalidPassword) || (r matches Ok(out) && out.password_hash matches Some(h)
            && bcrypt_accepts(input.password_hash->0@, h@) && out.name == input.name && out.email
            == input.email && out.primary_provider == input.primary_provider && out.github_id
            == input.github_id && out.google_id == input.google_id && out.avatar_url
            == input.avatar_url),
{
    match invalid {
        Some(text) => {
            return Err(ApiError::Request(text));
        },
        None => {},
    }
    let hashed = match &input.password_hash {
        Some(password) => {
            if input.primary_provider == AuthProvider::Email {
                Some(bcrypt_hash(password.as_str()))
            } else {
                None
            }
        },
        None => None,
    };
    match hashed {
        Some(hash) => registration_with_hash(input, hash),
        None => Ok(input),
    }
}

/// Refuses a change of password whose two copies of the new password
/// differ, or that failed the validation; the validation is looked at first.
pub fn check_password_request(input: &UpdateUserPassword, invalid: Option<String>) -> (r: Result<
    (),
    ApiError,
>)
    ensures
        r == (match invalid {
            Some(text) => Err::<(), ApiError>(ApiError::Request(text)),
            None => if input.confirm_password@ != input.new_password@ {
                Err::<(), ApiError>(ApiError::PasswordsDoNotMatch)
            } else {
                Ok::<(), ApiError>(())
            },
        }),
{
    match invalid {
        Some(text) => Err(ApiError::Request(text)),
        None => {
            if input.confirm_password != input.new_password {
                Err(ApiError::PasswordsDoNotMatch)
            } else {
                Ok(())
            }
        },
    }
}

/// Decides a change of password against the stored user, given whether
/// the current password matched and the hash of the new one, if it could be
/// hashed. A user whose provider is not the password is told to log in by
/// e-mail; one whose current password did not match, or whose new password
/// could not be hashed, is refused as an invalid password; for any other the
/// hash is what is stored.
pub fn password_change(provider: AuthProvider, current_valid: bool, new_hash: Option<String>) -> (r:
    Result<String, ApiError>)
    ensures
        provider != AuthProvider::Email ==> (r matches Err(ApiError::WrongProvider(p)) && p@
            == "E-mail"@),
        provider == AuthProvider::Email ==> r == (match new_hash {
            Some(h) if current_valid => Ok::<String, ApiError>(h),
            _ => Err::<String, ApiError>(ApiError::InvalidPassword),
        }),
{
    if provider != AuthProvider::Email {
        return Err(ApiError::WrongProvider(String::from_str("E-mail")));
    }
    if !current_valid {
        return Err(ApiError::InvalidPassword);
    }
    match new_hash {
        Some(hash) => Ok(hash),
        None => Err(ApiError::InvalidPassword),
    }
}

/// Decides a change of password against the stored user and gives the hash
/// to store. A user whose provider is not the password is told to log in by
/// e-mail; one whose current password does not match, or whose new password
/// cannot be hashed, is refused as an invalid password.
pub fn change_password(user: &User, input: &UpdateUserPassword) -> (r: Result<String, ApiError>)
    ensures
        user.primary_provider != AuthProvider::Email ==> (r matches Err(
            ApiError::WrongProvider(p),
        ) && p@ == "E-mail"@),
        user.primary_provider == AuthProvider::Email && !password_matches(
            *user,
            input.current_password@,
        ) ==> r == Err::<String, ApiError>(ApiError::InvalidPassword),
        user.primary_provider == AuthProvider::Email && password_matches(
            *user,
            input.current_password@,
        ) ==> (r matches Ok(h) && bcrypt_accepts(input.new_password@, h@)) || r == Err::<
            String,
            ApiError,
        >(ApiError::InvalidPassword),
{
    if user.primary_provider != AuthProvider::Email {
        return password_change(user.primary_provider, false, None);
    }
    let current_valid = match &user.password_hash {
        Some(hash) => bcrypt_verify(input.current_password.as_str(), hash.as_str()),
        None => false,
    };
    if !current_valid {
        return password_change(user.primary_provider, false, None);
    }
    let new_hash = bcrypt_hash(input.new_password.as_str());
    password_change(user.primary_provider, true, new_hash)
}

/// Whether a user asked for by a token is there: a search that failed is
/// answered with `UserNotFound`.
pub fn require_user(found: Result<User, String>) -> (r: Result<User, ApiError>)
    ensures
        r == (match found {
            Ok(u) => Ok::<User, ApiError>(u),
            Err(_) => Err::<User, ApiError>(ApiError::UserNotFound),
        }),
{
    match found {
        Ok(u) => Ok(u),
        Err(_) => Err(ApiError::UserNotFound),
    }
}

} // verus!
