use next_plugin_gog::error::Code;
use next_plugin_gog::service::{CompleteLoginRequest, GogStoreService, LOGIN_CHALLENGE_TTL};
use next_plugin_gog::refresh::{refresh_session, RefreshSessionRequest};
use next_plugin_gog::session::{
    account_after_save, fetch_game_ids, stored_token, verify_session, AuthState, Token, UserData,
};

fn token() -> Token {
    Token {
        expires_in: 3600,
        scope: "".to_string(),
        token_type: "bearer".to_string(),
        access_token: "acc\"ess\u{1f600}".to_string(),
        user_id: "48628349".to_string(),
        refresh_token: "re\\fresh".to_string(),
        session_id: "6354".to_string(),
        updated_at: 1700000000,
    }
}

fn user() -> UserData {
    UserData { username: "hans".to_string(), user_id: "48628349".to_string() }
}

fn request(challenge_id: &str, user_input: &str) -> CompleteLoginRequest {
    CompleteLoginRequest {
        profile_id: "profile".to_string(),
        challenge_id: challenge_id.to_string(),
        user_input: user_input.to_string(),
    }
}

#[test]
fn challenge_points_at_gog() {
    let mut service = GogStoreService::new();
    let challenge = service.begin_login(0);
    assert_eq!(
        challenge.oauth_redirect.auth_url,
        "https://auth.gog.com/auth?client_id=46899977096215655&redirect_uri=https%3A%2F%2Fembed.gog.com%2Fon_login_success%3Forigin%3Dclient&response_type=code&layout=client2"
    );
    assert!(challenge.error.is_none());
    assert_eq!(
        challenge.oauth_redirect.redirect_uri,
        "https://embed.gog.com/on_login_success?origin=client"
    );
}

#[test]
fn challenge_ids_are_random_uuids() {
    let mut service = GogStoreService::new();
    let one = service.begin_login(0).challenge_id;
    let two = service.begin_login(0).challenge_id;
    assert_ne!(one, two);
    for id in [one, two] {
        let parsed = uuid::Uuid::parse_str(&id).unwrap();
        assert_eq!(parsed.get_version_num(), 4);
        assert_eq!(parsed.hyphenated().to_string(), id);
        assert!(matches!(id.as_bytes()[19], b'8' | b'9' | b'a' | b'b'));
    }
}

#[test]
fn login_succeeds_once() {
    let mut service = GogStoreService::new();
    let id = service.begin_login(10).challenge_id;
    let exchange = service.complete_login(request(&id, "code"), 20).unwrap();
    assert_eq!(exchange.profile_id, "profile");
    assert_eq!(exchange.challenge_id, id);
    assert_eq!(exchange.code, "code");
    let save = exchange.exchanged(Ok(Ok((token(), user())))).unwrap();
    assert_eq!(save.profile_id, "profile");
    assert_eq!(save.challenge_id, id);
    assert_eq!(save.user.username, "hans");
    let stored = gog::token::Token::from_response(save.credentials.clone()).unwrap();
    assert_eq!(stored.access_token, token().access_token);
    let account = service.login_saved(save, Ok(())).unwrap();
    assert_eq!(account.account_display_name, "hans");
    assert_eq!(account.account_id, "48628349");
    assert_eq!(account.auth_state, AuthState::Active);
    assert!(account.linked_at.is_none() && account.last_verified_at.is_none());
    let status = service.complete_login(request(&id, "code"), 30).unwrap_err();
    assert_eq!(status.code, Code::NotFound);
    assert_eq!(status.message, "GOG login challenge not found or already completed");
}

#[test]
fn unknown_challenge_is_refused() {
    let mut service = GogStoreService::new();
    service.begin_login(0);
    let status = service.complete_login(request("other", ""), 0).unwrap_err();
    assert_eq!(status.code, Code::NotFound);
}

#[test]
fn challenge_expires_after_five_minutes() {
    let mut service = GogStoreService::new();
    let id = service.issue_challenge("c".to_string(), 7).challenge_id;
    assert_eq!(LOGIN_CHALLENGE_TTL, 5 * 60 * 1_000_000_000);
    assert!(service.complete_login(request(&id, "code"), 7 + LOGIN_CHALLENGE_TTL).is_ok());
    let status = service.complete_login(request(&id, ""), 8 + LOGIN_CHALLENGE_TTL).unwrap_err();
    assert_eq!(status.code, Code::DeadlineExceeded);
    assert_eq!(status.message, "GOG login challenge expired");
    let status = service.complete_login(request(&id, "code"), 7).unwrap_err();
    assert_eq!(status.code, Code::NotFound);
}

#[test]
fn code_is_required_and_the_challenge_stays() {
    let mut service = GogStoreService::new();
    let id = service.begin_login(0).challenge_id;
    let status = service.complete_login(request(&id, ""), 1).unwrap_err();
    assert_eq!(status.code, Code::InvalidArgument);
    assert_eq!(status.message, "GOG authorization code is required");
    assert!(service.complete_login(request(&id, "code"), 2).is_ok());
}

#[test]
fn failed_exchange_leaves_the_challenge() {
    let mut service = GogStoreService::new();
    let other = service.begin_login(0).challenge_id;
    let id = service.begin_login(0).challenge_id;
    let exchange = service.complete_login(request(&id, "bad"), 1).unwrap();
    let status = exchange.exchanged(Ok(Err("invalid_grant".to_string()))).unwrap_err();
    assert_eq!(status.code, Code::Unauthenticated);
    assert_eq!(status.message, "GOG authorization failed: invalid_grant");
    let exchange = service.complete_login(request(&id, "bad"), 1).unwrap();
    let status = exchange.exchanged(Err("boom".to_string())).unwrap_err();
    assert_eq!(status.code, Code::Internal);
    assert_eq!(status.message, "GOG worker task panicked: boom");
    let exchange = service.complete_login(request(&id, "better"), 1).unwrap();
    let save = exchange.exchanged(Ok(Ok((token(), user())))).unwrap();
    assert!(service.login_saved(save, Ok(())).is_ok());
    assert!(service.complete_login(request(&id, "code"), 1).is_err());
    assert!(service.complete_login(request(&other, "code"), 1).is_ok());
}

#[test]
fn failed_save_leaves_the_challenge() {
    let mut service = GogStoreService::new();
    let id = service.begin_login(0).challenge_id;
    let exchange = service.complete_login(request(&id, "code"), 1).unwrap();
    let save = exchange.exchanged(Ok(Ok((token(), user())))).unwrap();
    let status = service.login_saved(save, Err("disk full".to_string())).unwrap_err();
    assert_eq!(status.code, Code::Internal);
    assert_eq!(status.message, "GOG credentials error: disk full");

    let exchange = service.complete_login(request(&id, "code"), 2).unwrap();
    let save = exchange.exchanged(Ok(Ok((token(), user())))).unwrap();
    assert!(service.login_saved(save, Ok(())).is_ok());
    let status = service.complete_login(request(&id, "code"), 3).unwrap_err();
    assert_eq!(status.code, Code::NotFound);
}

#[test]
fn saved_session_loads_back() {
    let session = verify_session(Ok((Ok(user()), token()))).unwrap();
    assert_ne!(session.credentials, "");
    let again = stored_token(Ok(Some(session.credentials)), "nothing").unwrap();
    let first = token();
    assert_eq!(again.expires_in, first.expires_in);
    assert_eq!(again.scope, first.scope);
    assert_eq!(again.token_type, first.token_type);
    assert_eq!(again.access_token, first.access_token);
    assert_eq!(again.user_id, first.user_id);
    assert_eq!(again.refresh_token, first.refresh_token);
    assert_eq!(again.session_id, first.session_id);
    assert_eq!(again.updated_at, first.updated_at);
}

#[test]
fn stored_form_is_that_of_the_gog_crate() {
    let session = verify_session(Ok((Ok(user()), token()))).unwrap();
    let read = gog::token::Token::from_response(session.credentials).unwrap();
    assert_eq!(read.access_token, token().access_token);
    assert_eq!(read.updated_at, 1700000000);
}

#[test]
fn token_without_a_time_is_completed() {
    let json = "{\"expires_in\":1,\"scope\":\"s\",\"token_type\":\"t\",\"access_token\":\"a\",\"user_id\":\"u\",\"refresh_token\":\"r\",\"session_id\":\"i\"}";
    let token = stored_token(Ok(Some(json.to_string())), "nothing").unwrap();
    assert_eq!(token.access_token, "a");
    assert_eq!(token.refresh_token, "r");
    assert!(token.updated_at > 1700000000);
}

#[test]
fn missing_and_broken_credentials() {
    let status = stored_token(Ok(None), "nothing stored").unwrap_err();
    assert_eq!(status.code, Code::Internal);
    assert_eq!(status.message, "GOG credentials error: nothing stored");
    let status = stored_token(Err("locked".to_string()), "nothing stored").unwrap_err();
    assert_eq!(status.message, "GOG credentials error: locked");
    let status = stored_token(Ok(Some("{}".to_string())), "nothing stored").unwrap_err();
    assert_eq!(status.code, Code::Internal);
    assert!(status.message.starts_with("GOG JSON error: missing field"));
}

#[test]
fn failed_session_checks() {
    let status = verify_session(Ok((Err("401".to_string()), token()))).unwrap_err();
    assert_eq!(status.code, Code::Unauthenticated);
    assert_eq!(status.message, "GOG session is no longer valid: 401");
    let status = verify_session(Err("boom".to_string())).unwrap_err();
    assert_eq!(status.code, Code::Internal);
    let status = account_after_save(user(), Err("disk full".to_string())).unwrap_err();
    assert_eq!(status.message, "GOG credentials error: disk full");
}

fn stored_json() -> String {
    verify_session(Ok((Ok(user()), token()))).unwrap().credentials
}

#[test]
fn refresh_saves_for_its_profile() {
    let load = refresh_session(RefreshSessionRequest { profile_id: "mine".to_string() });
    assert_eq!(load.profile_id, "mine");
    let check = load.loaded(Ok(Some(stored_json())), "nothing").unwrap();
    assert_eq!(check.profile_id, "mine");
    assert_eq!(check.token.access_token, token().access_token);
    let mut fresh = token();
    fresh.access_token = "fresh".to_string();
    let save = check.checked(Ok((Ok(user()), fresh))).unwrap();
    assert_eq!(save.profile_id, "mine");
    let stored = gog::token::Token::from_response(save.credentials.clone()).unwrap();
    assert_eq!(stored.access_token, "fresh");
    let account = save.saved(Ok(())).unwrap();
    assert_eq!(account.account_display_name, "hans");
    assert_eq!(account.account_id, "48628349");
}

#[test]
fn refresh_fails_step_by_step() {
    let load = || refresh_session(RefreshSessionRequest { profile_id: "mine".to_string() });
    let check = || load().loaded(Ok(Some(stored_json())), "nothing").unwrap();
    let status = load().loaded(Ok(None), "nothing").unwrap_err();
    assert_eq!(status.message, "GOG credentials error: nothing");
    let status = load().loaded(Ok(Some("[]".to_string())), "nothing").unwrap_err();
    assert!(status.message.starts_with("GOG JSON error: "));
    let status = check().checked(Ok((Err("401".to_string()), token()))).unwrap_err();
    assert_eq!(status.code, Code::Unauthenticated);
    assert_eq!(status.message, "GOG session is no longer valid: 401");
    let status = check().checked(Err("boom".to_string())).unwrap_err();
    assert_eq!(status.message, "GOG worker task panicked: boom");
    let save = check().checked(Ok((Ok(user()), token()))).unwrap();
    let status = save.saved(Err("disk full".to_string())).unwrap_err();
    assert_eq!(status.code, Code::Internal);
    assert_eq!(status.message, "GOG credentials error: disk full");
}

#[test]
fn owned_ids() {
    assert_eq!(fetch_game_ids(Ok(Ok(vec![3, 1, 2]))).unwrap(), vec![3, 1, 2]);
    let status = fetch_game_ids(Ok(Err("429".to_string()))).unwrap_err();
    assert_eq!(status.code, Code::Unavailable);
    assert_eq!(status.message, "GOG API error: 429");
    assert_eq!(fetch_game_ids(Err("x".to_string())).unwrap_err().code, Code::Internal);
}
