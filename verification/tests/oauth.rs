use rust_server::clock::Timestamp;
use rust_server::oauth::{
    after_identity, after_link, after_profile_request, after_token_exchange, auth_callback_url,
    bearer_header, final_redirect, github_email, github_registration, github_scopes,
    link_redirect_uri, login_error_url, login_redirect_uri, needs_email_lookup,
    primary_verified_email, AuthFailure, CallbackStep, GithubEmail, GithubUser, GITHUB_AUTH_URL,
    GITHUB_EMAILS_URL, GITHUB_TOKEN_URL, GITHUB_USER_AGENT, GITHUB_USER_URL,
};
use rust_server::user::{AuthProvider, NewUser, User, UserAuthInfo, UserRole};

fn profile(email: Option<&str>) -> GithubUser {
    GithubUser {
        id: 583231,
        login: "octocat".to_string(),
        avatar_url: "https://a/u.png".to_string(),
        email: email.map(|e| e.to_string()),
    }
}

fn address(email: &str, primary: bool, verified: bool) -> GithubEmail {
    GithubEmail { email: email.to_string(), primary, verified }
}

fn stored(provider: AuthProvider) -> User {
    User {
        id: 0x11,
        public_id: 5,
        name: "Eva".to_string(),
        email: "e@x".to_string(),
        avatar_url: None,
        password_hash: None,
        primary_provider: provider,
        github_id: None,
        google_id: None,
        role: UserRole::User,
        is_active: true,
        created_at: Timestamp { secs: 1, nanos: 0 },
        updated_at: Timestamp { secs: 2, nanos: 0 },
        deleted_at: None,
    }
}

#[test]
fn addresses_of_github() {
    assert_eq!(GITHUB_AUTH_URL, "https://github.com/login/oauth/authorize");
    assert_eq!(GITHUB_TOKEN_URL, "https://github.com/login/oauth/access_token");
    assert_eq!(GITHUB_USER_URL, "https://api.github.com/user");
    assert_eq!(GITHUB_EMAILS_URL, "https://api.github.com/user/emails");
    assert_eq!(GITHUB_USER_AGENT, "rust-notebook-app");
    assert_eq!(github_scopes(), vec!["read:user", "user:email"]);
    assert_eq!(bearer_header("gho_x"), "Bearer gho_x");
}

#[test]
fn redirect_addresses() {
    assert_eq!(login_redirect_uri("https://api.x"), "https://api.x/api/user/auth/callback/github");
    assert_eq!(link_redirect_uri("https://api.x"), "https://api.x/api/user/link/github/callback");
    assert_eq!(auth_callback_url("https://app.x", "tok"), "https://app.x/auth-callback?token=tok");
    assert_eq!(final_redirect("https://app.x", Some("tok")), "https://app.x/auth-callback?token=tok");
    assert_eq!(final_redirect("https://app.x", None), "https://app.x");
}

#[test]
fn each_failure_has_its_address() {
    let cases = [
        (AuthFailure::TokenFailed, "token_failed"),
        (AuthFailure::GithubResponseFailed, "github_response_failed"),
        (AuthFailure::GithubResponseError, "github_response_error"),
        (AuthFailure::GithubDataError, "github_data_error"),
        (AuthFailure::GithubEmailsNotFound, "github_emails_not_found"),
        (AuthFailure::WrongLoginMethod, "wrong_login_method"),
    ];
    for (failure, code) in cases {
        assert_eq!(failure.code(), code);
        assert_eq!(login_error_url("https://app.x", failure), format!("https://app.x/login?auth_error={}", code));
    }
}

#[test]
fn failed_exchange_sends_the_user_back() {
    assert_eq!(after_token_exchange("b", Ok("gho_x".to_string())), Ok("gho_x".to_string()));
    assert_eq!(
        after_token_exchange("b", Err("bad code".to_string())),
        Err("b/login?auth_error=token_failed".to_string())
    );
}

#[test]
fn answer_of_github_is_judged() {
    assert_eq!(after_profile_request("b", true, Some(profile(None))), Ok(profile(None)));
    assert_eq!(
        after_profile_request("b", false, Some(profile(None))),
        Err("b/login?auth_error=github_response_error".to_string())
    );
    assert_eq!(after_profile_request("b", false, None), Err("b/login?auth_error=github_response_error".to_string()));
    assert_eq!(after_profile_request("b", true, None), Err("b/login?auth_error=github_data_error".to_string()));
}

#[test]
fn first_primary_verified_address_is_chosen() {
    let emails = vec![
        address("a@x", true, false),
        address("b@x", false, true),
        address("c@x", true, true),
        address("d@x", true, true),
    ];
    assert_eq!(primary_verified_email(&emails), Some("c@x".to_string()));
    assert_eq!(primary_verified_email(&emails[..2].to_vec()), None);
    assert_eq!(primary_verified_email(&Vec::new()), None);
}

#[test]
fn address_told_by_github_is_preferred() {
    let emails = vec![address("c@x", true, true)];
    assert!(!needs_email_lookup(&profile(Some("p@x"))));
    assert!(needs_email_lookup(&profile(None)));
    assert_eq!(github_email("b", &profile(Some("p@x")), &emails), Ok("p@x".to_string()));
    assert_eq!(github_email("b", &profile(None), &emails), Ok("c@x".to_string()));
    assert_eq!(
        github_email("b", &profile(None), &vec![address("a@x", true, false)]),
        Err("b/login?auth_error=github_emails_not_found".to_string())
    );
}

#[test]
fn new_user_of_github_is_registered() {
    let n = github_registration(profile(None), "c@x".to_string());
    assert_eq!(
        n,
        NewUser {
            name: "octocat".to_string(),
            email: "c@x".to_string(),
            password_hash: None,
            primary_provider: AuthProvider::Github,
            github_id: Some("583231".to_string()),
            google_id: None,
            avatar_url: Some("https://a/u.png".to_string()),
        }
    );
}

#[test]
fn stored_user_of_another_provider_is_sent_back() {
    let step = after_identity("b", profile(None), "e@x".to_string(), Some(stored(AuthProvider::Email)));
    assert_eq!(step, CallbackStep::Redirect("b/login?auth_error=wrong_login_method".to_string()));
    let step = after_identity("b", profile(None), "e@x".to_string(), Some(stored(AuthProvider::Google)));
    assert_eq!(step, CallbackStep::Redirect("b/login?auth_error=wrong_login_method".to_string()));
}

#[test]
fn stored_user_of_github_gets_a_token() {
    let step = after_identity("b", profile(None), "e@x".to_string(), Some(stored(AuthProvider::Github)));
    assert_eq!(
        step,
        CallbackStep::IssueToken(UserAuthInfo { id: 0x11, public_id: 5, email: "e@x".to_string(), role: UserRole::User })
    );
}

#[test]
fn unknown_user_is_registered() {
    let step = after_identity("b", profile(None), "c@x".to_string(), None);
    assert_eq!(step, CallbackStep::Register(github_registration(profile(None), "c@x".to_string())));
}

#[test]
fn linking_needs_the_user_and_the_change() {
    let info = UserAuthInfo { id: 0x11, public_id: 5, email: "e@x".to_string(), role: UserRole::User };
    assert_eq!(after_link("b", Some(stored(AuthProvider::Email)), true), Ok(info));
    assert_eq!(
        after_link("b", Some(stored(AuthProvider::Email)), false),
        Err("b/login?auth_error=github_emails_not_found".to_string())
    );
    assert_eq!(after_link("b", None, true), Err("b/login?auth_error=github_emails_not_found".to_string()));
}
