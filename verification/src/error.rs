//! The failures that the service reports, and how each is shown to a client.

use vstd::prelude::*;
use vstd::string::*;
use crate::text::concat2;

verus! {

/// A failure of the service.
#[derive(Debug, Clone, PartialEq, Eq)]
pub enum ApiError {
    Request(String),
    DatabaseConnection(String),
    InvalidAuthorizationToken,
    MultipleAuthorizationErrors(Vec<String>),
    Database(String),
    CreateToken(String),
    InvalidData,
    InvalidEmail,
    InvalidCredentials,
    WrongProvider(String),
    NotActiveUser,
    InvalidPassword,
    FrontendUrl,
    UserNotFound,
    NotFound,
    MissingFrontendUrl,
    MissingEnv(String),
    PasswordsDoNotMatch,
    SendingEmail,
}

/// What accompanies a failure in the answer to the client.
#[derive(Debug, Clone, PartialEq, Eq)]
pub enum ErrorDetails {
    /// Nothing.
    Empty,
    /// One named text.
    Field { key: String, value: String },
    /// One named list of texts.
    List { key: String, values: Vec<String> },
}

/// The texts of a list of strings.
pub open spec fn string_views(v: Seq<String>) -> Seq<Seq<char>> {
    v.map_values(|s: String| s@)
}

/// How a list of texts reads in the debug format of the standard library.
pub uninterp spec fn debug_list(v: Seq<Seq<char>>) -> Seq<char>;

/// Formats a list of strings with `format!("{:?}", ..)`. The text depends
/// on the list alone and is named [`debug_list`]; nothing more is claimed.
#[verifier::external_body]
fn debug_strings(v: &Vec<String>) -> (s: String)
    ensures
        s@ == debug_list(string_views(v@)),
{
    format!("{:?}", v)
}

impl ApiError {
    /// The code that names this kind of failure.
    pub open spec fn code(self) -> Seq<char> {
        match self {
            ApiError::Request(_) => "BAD_REQUEST"@,
            ApiError::DatabaseConnection(_) => "DATABASE_CONNECTION_ERROR"@,
            ApiError::InvalidAuthorizationToken => "INVALID_AUTH_TOKEN"@,
            ApiError::MultipleAuthorizationErrors(_) => "MULTIPLE_AUTH_ERRORS"@,
            ApiError::Database(_) => "DATABASE_ERROR"@,
            ApiError::CreateToken(_) => "TOKEN_CREATION_FAILED"@,
            ApiError::InvalidData => "INVALID_DATA"@,
            ApiError::InvalidEmail => "INVALID_EMAIL"@,
            ApiError::InvalidCredentials => "INVALID_CREDENTIALS"@,
            ApiError::WrongProvider(_) => "WRONG_PROVIDER"@,
            ApiError::NotActiveUser => "USER_NOT_ACTIVE"@,
            ApiError::InvalidPassword => "INVALID_PASSWORD"@,
            ApiError::FrontendUrl => "MISSING_FRONTEND_URL"@,
            ApiError::MissingFrontendUrl => "MISSING_FRONTEND_URL"@,
            ApiError::UserNotFound => "USER_NOT_FOUND"@,
            ApiError::NotFound => "NOT_FOUND"@,
            ApiError::MissingEnv(_) => "MISSING_ENV_VAR"@,
            ApiError::PasswordsDoNotMatch => "PASSWORDS_DO_NOT_MATCH"@,
            ApiError::SendingEmail => "ERROR_SENDING_EMAIL"@,
        }
    }

    /// The sentence that describes this failure.
    pub open spec fn text(self) -> Seq<char> {
        match self {
            ApiError::Request(d) => "Error processing your request: "@ + d@,
            ApiError::DatabaseConnection(d) => "Error while trying to connect to the database: "@
                + d@,
            ApiError::InvalidAuthorizationToken => "Invalid authorization token"@,
            ApiError::MultipleAuthorizationErrors(l) =>
                "Multiple errors while validating the authorization token: "@ + debug_list(
                    string_views(l@),
                ),
            ApiError::Database(d) => "A database error occurred: "@ + d@,
            ApiError::CreateToken(d) => "Failed to create token: "@ + d@,
            ApiError::InvalidData => "Missing fields in the request"@,
            ApiError::InvalidEmail => "Invalid email provided"@,
            ApiError::InvalidCredentials => "Invalid email or password"@,
            ApiError::WrongProvider(p) => "Please log in with "@ + p@,
            ApiError::NotActiveUser => "User is not active"@,
            ApiError::InvalidPassword => "Invalid password"@,
            ApiError::FrontendUrl => "Missing frontend URL"@,
            ApiError::UserNotFound => "User not found"@,
            ApiError::NotFound => "Not found"@,
            ApiError::MissingFrontendUrl => "Missing frontend URL"@,
            ApiError::MissingEnv(e) => e@ + " is missing from env"@,
            ApiError::PasswordsDoNotMatch => "The passwords do not match"@,
            ApiError::SendingEmail => "Error sending the e-mail"@,
        }
    }

    /// The HTTP status that this failure is answered with.
    pub open spec fn status(self) -> u16 {
        match self {
            ApiError::Database(_) | ApiError::DatabaseConnection(_) | ApiError::CreateToken(_) => {
                500
            },
            ApiError::Request(_)
            | ApiError::InvalidData
            | ApiError::InvalidEmail
            | ApiError::MissingFrontendUrl => 400,
            ApiError::InvalidAuthorizationToken
            | ApiError::InvalidPassword
            | ApiError::InvalidCredentials
            | ApiError::PasswordsDoNotMatch => 401,
            ApiError::NotActiveUser => 403,
            ApiError::WrongProvider(_) => 400,
            ApiError::UserNotFound | ApiError::NotFound => 404,
            _ => 500,
        }
    }

    /// The message that the client is shown: the sentence that describes the
    /// failure for the kinds that have a status of their own, a fixed text
    /// for an inactive user, and `Unknown error` for the rest.
    pub open spec fn shown(self) -> Seq<char> {
        match self {
            ApiError::NotActiveUser => "User account is inactive"@,
            ApiError::MultipleAuthorizationErrors(_)
            | ApiError::FrontendUrl
            | ApiError::MissingEnv(_)
            | ApiError::SendingEmail => "Unknown error"@,
            _ => self.text(),
        }
    }

    /// The code that names this kind of failure.
    pub fn error_code(&self) -> (r: &'static str)
        ensures
            r@ == self.code(),
    {
        match self {
            ApiError::Request(_) => "BAD_REQUEST",
            ApiError::DatabaseConnection(_) => "DATABASE_CONNECTION_ERROR",
            ApiError::InvalidAuthorizationToken => "INVALID_AUTH_TOKEN",
            ApiError::MultipleAuthorizationErrors(_) => "MULTIPLE_AUTH_ERRORS",
            ApiError::Database(_) => "DATABASE_ERROR",
            ApiError::CreateToken(_) => "TOKEN_CREATION_FAILED",
            ApiError::InvalidData => "INVALID_DATA",
            ApiError::InvalidEmail => "INVALID_EMAIL",
            ApiError::InvalidCredentials => "INVALID_CREDENTIALS",
            ApiError::WrongProvider(_) => "WRONG_PROVIDER",
            ApiError::NotActiveUser => "USER_NOT_ACTIVE",
            ApiError::InvalidPassword => "INVALID_PASSWORD",
            ApiError::FrontendUrl | ApiError::MissingFrontendUrl => "MISSING_FRONTEND_URL",
            ApiError::UserNotFound => "USER_NOT_FOUND",
            ApiError::NotFound => "NOT_FOUND",
            ApiError::MissingEnv(_) => "MISSING_ENV_VAR",
            ApiError::PasswordsDoNotMatch => "PASSWORDS_DO_NOT_MATCH",
            ApiError::SendingEmail => "ERROR_SENDING_EMAIL",
        }
    }

    /// What accompanies this failure: the provider to log in with, the
    /// variable that is missing, the detail of a bad request, or the list of
    /// what is wrong with a token.
    pub fn error_details(&self) -> (r: ErrorDetails)
        ensures
            match *self {
                ApiError::WrongProvider(p) => r matches ErrorDetails::Field { key, value }
                    && key@ == "provider"@ && value@ == p@,
                ApiError::MissingEnv(e) => r matches ErrorDetails::Field { key, value } && key@
                    == "env_var"@ && value@ == e@,
                ApiError::Request(d) => r matches ErrorDetails::Field { key, value } && key@
                    == "detail"@ && value@ == d@,
                ApiError::MultipleAuthorizationErrors(l) => r matches ErrorDetails::List {
                    key,
                    values,
                } && key@ == "errors"@ && string_views(values@) == string_views(l@),
                _ => r is Empty,
            },
    {
        match self {
            ApiError::WrongProvider(p) => ErrorDetails::Field {
                key: String::from_str("provider"),
                value: p.clone(),
            },
            ApiError::MissingEnv(e) => ErrorDetails::Field {
                key: String::from_str("env_var"),
                value: e.clone(),
            },
            ApiError::Request(d) => ErrorDetails::Field {
                key: String::from_str("detail"),
                value: d.clone(),
            },
            ApiError::MultipleAuthorizationErrors(l) => ErrorDetails::List {
                key: String::from_str("errors"),
                values: clone_strings(l),
            },
            _ => ErrorDetails::Empty,
        }
    }

    /// The sentence that describes this failure.
    pub fn to_text(&self) -> (r: String)
        ensures
            r@ == self.text(),
    {
        match self {
            ApiError::Request(d) => concat2("Error processing your request: ", d.as_str()),
            ApiError::DatabaseConnection(d) => concat2(
                "Error while trying to connect to the database: ",
                d.as_str(),
            ),
            ApiError::InvalidAuthorizationToken => String::from_str("Invalid authorization token"),
            ApiError::MultipleAuthorizationErrors(l) => {
                let list = debug_strings(l);
                concat2("Multiple errors while validating the authorization token: ", list.as_str())
            },
            ApiError::Database(d) => concat2("A database error occurred: ", d.as_str()),
            ApiError::CreateToken(d) => concat2("Failed to create token: ", d.as_str()),
            ApiError::InvalidData => String::from_str("Missing fields in the request"),
            ApiError::InvalidEmail => String::from_str("Invalid email provided"),
            ApiError::InvalidCredentials => String::from_str("Invalid email or password"),
            ApiError::WrongProvider(p) => concat2("Please log in with ", p.as_str()),
            ApiError::NotActiveUser => String::from_str("User is not active"),
            ApiError::InvalidPassword => String::from_str("Invalid password"),
            ApiError::FrontendUrl => String::from_str("Missing frontend URL"),
            ApiError::UserNotFound => String::from_str("User not found"),
            ApiError::NotFound => String::from_str("Not found"),
            ApiError::MissingFrontendUrl => String::from_str("Missing frontend URL"),
            ApiError::MissingEnv(e) => concat2(e.as_str(), " is missing from env"),
            ApiError::PasswordsDoNotMatch => String::from_str("The passwords do not match"),
            ApiError::SendingEmail => String::from_str("Error sending the e-mail"),
        }
    }

    /// The HTTP status that this failure is answered with: 400 for a bad
    /// request and a wrong provider, 401 for a bad token, credential or
    /// password, 403 for an inactive user, 404 for a user that is not
    /// there, 500 for the rest.
    pub fn status_code(&self) -> (r: u16)
        ensures
            r == self.status(),
    {
        match self {
            ApiError::Database(_) | ApiError::DatabaseConnection(_) | ApiError::CreateToken(_) => {
                500
            },
            ApiError::Request(_)
            | ApiError::InvalidData
            | ApiError::InvalidEmail
            | ApiError::MissingFrontendUrl => 400,
            ApiError::InvalidAuthorizationToken
            | ApiError::InvalidPassword
            | ApiError::InvalidCredentials
            | ApiError::PasswordsDoNotMatch => 401,
            ApiError::NotActiveUser => 403,
            ApiError::WrongProvider(_) => 400,
            ApiError::UserNotFound | ApiError::NotFound => 404,
            _ => 500,
        }
    }

    /// The message that the client is shown.
    pub fn message(&self) -> (r: String)
        ensures
            r@ == self.shown(),
    {
        match self {
            ApiError::NotActiveUser => String::from_str("User account is inactive"),
            ApiError::MultipleAuthorizationErrors(_)
            | ApiError::FrontendUrl
            | ApiError::MissingEnv(_)
            | ApiError::SendingEmail => String::from_str("Unknown error"),
            _ => self.to_text(),
        }
    }
}

/// A copy of a list of strings.
pub fn clone_strings(v: &Vec<String>) -> (r: Vec<String>)
    ensures
        string_views(r@) == string_views(v@),
{
    let mut r: Vec<String> = Vec::new();
    let mut i: usize = 0;
    while i < v.len()
        invariant
            i <= v.len(),
            r@.len() == i,
            string_views(r@) == string_views(v@).take(i as int),
        decreases v.len() - i,
    {
        let item = v[i].clone();
        let ghost before = r@;
        r.push(item);
        i += 1;
        assert forall|k: int| 0 <= k < i implies string_views(r@)[k] == string_views(v@).take(
            i as int,
        )[k] by {
            if k < i - 1 {
                assert(string_views(before)[k] == string_views(v@).take(i - 1)[k]);
            }
        }
        assert(string_views(r@) =~= string_views(v@).take(i as int));
    }
    assert(string_views(v@).take(v.len() as int) =~= string_views(v@));
    r
}

/// What a search of storage gave, or the answer that it is not there:
/// storage tells apart what it could not look for from what it looked for
/// and did not find.
pub fn or_not_found<T>(found: Option<T>) -> (r: Result<T, ApiError>)
    ensures
        r == (match found {
            Some(row) => Ok::<T, ApiError>(row),
            None => Err::<T, ApiError>(ApiError::NotFound),
        }),
{
    match found {
        Some(row) => Ok(row),
        None => Err(ApiError::NotFound),
    }
}

} // verus!
