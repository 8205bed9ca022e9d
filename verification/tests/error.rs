use rust_server::error::{clone_strings, or_not_found, ApiError, ErrorDetails};

fn all() -> Vec<ApiError> {
    vec![
        ApiError::Request("r".to_string()),
        ApiError::DatabaseConnection("c".to_string()),
        ApiError::InvalidAuthorizationToken,
        ApiError::MultipleAuthorizationErrors(vec!["a".to_string(), "b\"c".to_string()]),
        ApiError::Database("d".to_string()),
        ApiError::CreateToken("t".to_string()),
        ApiError::InvalidData,
        ApiError::InvalidEmail,
        ApiError::InvalidCredentials,
        ApiError::WrongProvider("Github".to_string()),
        ApiError::NotActiveUser,
        ApiError::InvalidPassword,
        ApiError::FrontendUrl,
        ApiError::UserNotFound,
        ApiError::NotFound,
        ApiError::MissingFrontendUrl,
        ApiError::MissingEnv("JWT_SECRET".to_string()),
        ApiError::PasswordsDoNotMatch,
        ApiError::SendingEmail,
    ]
}

#[test]
fn every_failure_has_its_code() {
    let codes: Vec<&str> = all().iter().map(|e| e.error_code()).collect();
    assert_eq!(
        codes,
        vec![
            "BAD_REQUEST",
            "DATABASE_CONNECTION_ERROR",
            "INVALID_AUTH_TOKEN",
            "MULTIPLE_AUTH_ERRORS",
            "DATABASE_ERROR",
            "TOKEN_CREATION_FAILED",
            "INVALID_DATA",
            "INVALID_EMAIL",
            "INVALID_CREDENTIALS",
            "WRONG_PROVIDER",
            "USER_NOT_ACTIVE",
            "INVALID_PASSWORD",
            "MISSING_FRONTEND_URL",
            "USER_NOT_FOUND",
            "NOT_FOUND",
            "MISSING_FRONTEND_URL",
            "MISSING_ENV_VAR",
            "PASSWORDS_DO_NOT_MATCH",
            "ERROR_SENDING_EMAIL",
        ]
    );
}

#[test]
fn every_failure_has_its_status() {
    let statuses: Vec<u16> = all().iter().map(|e| e.status_code()).collect();
    assert_eq!(
        statuses,
        vec![400, 500, 401, 500, 500, 500, 400, 400, 401, 400, 403, 401, 500, 404, 404, 400, 500, 401, 500]
    );
}

#[test]
fn every_failure_has_its_sentence() {
    let texts: Vec<String> = all().iter().map(|e| e.to_text()).collect();
    assert_eq!(
        texts,
        vec![
            "Error processing your request: r",
            "Error while trying to connect to the database: c",
            "Invalid authorization token",
            "Multiple errors while validating the authorization token: [\"a\", \"b\\\"c\"]",
            "A database error occurred: d",
            "Failed to create token: t",
            "Missing fields in the request",
            "Invalid email provided",
            "Invalid email or password",
            "Please log in with Github",
            "User is not active",
            "Invalid password",
            "Missing frontend URL",
            "User not found",
            "Not found",
            "Missing frontend URL",
            "JWT_SECRET is missing from env",
            "The passwords do not match",
            "Error sending the e-mail",
        ]
    );
}

#[test]
fn every_failure_has_its_message_for_the_client() {
    let shown: Vec<String> = all().iter().map(|e| e.message()).collect();
    assert_eq!(
        shown,
        vec![
            "Error processing your request: r",
            "Error while trying to connect to the database: c",
            "Invalid authorization token",
            "Unknown error",
            "A database error occurred: d",
            "Failed to create token: t",
            "Missing fields in the request",
            "Invalid email provided",
            "Invalid email or password",
            "Please log in with Github",
            "User account is inactive",
            "Invalid password",
            "Unknown error",
            "User not found",
            "Not found",
            "Missing frontend URL",
            "Unknown error",
            "The passwords do not match",
            "Unknown error",
        ]
    );
}

#[test]
fn details_name_what_is_wrong() {
    assert_eq!(
        ApiError::WrongProvider("Github".to_string()).error_details(),
        ErrorDetails::Field { key: "provider".to_string(), value: "Github".to_string() }
    );
    assert_eq!(
        ApiError::MissingEnv("JWT_SECRET".to_string()).error_details(),
        ErrorDetails::Field { key: "env_var".to_string(), value: "JWT_SECRET".to_string() }
    );
    assert_eq!(
        ApiError::Request("bad".to_string()).error_details(),
        ErrorDetails::Field { key: "detail".to_string(), value: "bad".to_string() }
    );
    assert_eq!(
        ApiError::MultipleAuthorizationErrors(vec!["x".to_string(), "y".to_string()]).error_details(),
        ErrorDetails::List { key: "errors".to_string(), values: vec!["x".to_string(), "y".to_string()] }
    );
    assert_eq!(ApiError::InvalidData.error_details(), ErrorDetails::Empty);
    assert_eq!(ApiError::Database("d".to_string()).error_details(), ErrorDetails::Empty);
}

#[test]
fn list_of_strings_is_copied() {
    let v = vec!["a".to_string(), String::new(), "c".to_string()];
    assert_eq!(clone_strings(&v), v);
    assert_eq!(clone_strings(&Vec::new()), Vec::<String>::new());
}

#[test]
fn what_is_not_there_is_not_found() {
    assert_eq!(or_not_found(Some(5u8)), Ok(5u8));
    assert_eq!(or_not_found(None::<u8>), Err(ApiError::NotFound));
    assert_eq!(ApiError::NotFound.status_code(), 404);
    assert_eq!(ApiError::NotFound.error_details(), ErrorDetails::Empty);
}
