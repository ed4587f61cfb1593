use decman::auth::{
    authenticate_auth0, expires_at, login_request, sign_in, token_source, Auth0Failure, Auth0TokenResponse,
    AuthError, AuthRegistry, CredentialsStep, LoginReply, LoginRequest, RenewReply, RenewRequest,
    TokenManager, TokenResponse, TokenSource, TokenStep, UnixTime, WorkflowAuth,
};
use decman::config::{Auth0M2MConfig, CantonId, KeycloakConfig, PartyCredentials};

fn id(text: &str) -> CantonId {
    CantonId { text: text.to_string() }
}

fn at(secs: i64) -> UnixTime {
    UnixTime { secs, nanos: 0 }
}

fn keycloak(url: &str) -> KeycloakConfig {
    KeycloakConfig {
        url: url.to_string(),
        internal_url: None,
        realm: "test-realm".to_string(),
        client_id: "decman".to_string(),
        client_secret: Some("secret".to_string()),
        username: None,
        password: None,
    }
}

fn user(url: &str) -> KeycloakConfig {
    KeycloakConfig {
        client_secret: None,
        username: Some("u".to_string()),
        password: Some("p".to_string()),
        ..keycloak(url)
    }
}

fn auth0() -> Auth0M2MConfig {
    Auth0M2MConfig {
        domain: "tenant.auth0.com//".to_string(),
        client_id: "c".to_string(),
        client_secret: "s".to_string(),
        audience: "a".to_string(),
    }
}

fn party(name: u8, keycloak_url: &str) -> PartyCredentials {
    PartyCredentials {
        dec_party_id: id(&format!("party{name}")),
        member_party_id: id(&format!("member{name}")),
        user_id: format!("user{name}"),
        keycloak: keycloak(keycloak_url),
        auth0: None,
    }
}

fn response(token: &str, expires_in: u64) -> TokenResponse {
    TokenResponse {
        access_token: token.to_string(),
        refresh_token: format!("{token}-refresh"),
        expires_in,
    }
}

/// Signs a party in, with the answer that its server gives.
fn attempt(
    p: &PartyCredentials,
    answer: Result<TokenResponse, String>,
) -> Result<TokenManager, AuthError> {
    match token_source(p) {
        TokenSource::Keycloak(config) => TokenManager::new(
            config,
            p.user_id.clone(),
            p.member_party_id.clone(),
            answer,
            at(0),
        ),
        TokenSource::Auth0(_) => unreachable!(),
    }
}

#[test]
fn one_failing_party_logs_a_warning_and_no_error() {
    let parties = vec![party(1, "http://working"), party(2, "http://broken")];
    let attempts = vec![
        attempt(&parties[0], Ok(response("t", 0))),
        attempt(&parties[1], Err("500: nope".to_string())),
    ];
    let (registry, report) = AuthRegistry::new(&parties, attempts);
    assert_eq!(registry.party_ids().len(), 1);
    assert_eq!(
        report.warnings,
        vec![
            "Failed to initialize auth for dec_party=party2: \
             Keycloak M2M authentication failed: 500: nope. \
             Skipping — workflows for this party will fail until credentials are fixed."
        ]
    );
    assert!(report.error.is_none());
    assert!(registry.has_credentials(&id("party1")));
    assert!(!registry.has_credentials(&id("party2")));
}

#[test]
fn every_party_failing_logs_an_error() {
    let parties = vec![party(1, "http://broken"), party(2, "http://broken")];
    let attempts = vec![
        attempt(&parties[0], Err("nope".to_string())),
        attempt(&parties[1], Err("nope".to_string())),
    ];
    let (registry, report) = AuthRegistry::new(&parties, attempts);
    assert!(registry.party_ids().is_empty());
    assert_eq!(report.warnings.len(), 2);
    let error = report.error.unwrap();
    assert!(error.contains("all 2 configured parties"));
    assert_eq!(
        error,
        "Authentication failed for all 2 configured parties: party1, party2. \
         This node can run no workflow until the credentials are fixed."
    );
}

#[test]
fn no_configured_party_logs_no_error() {
    let (registry, report) = AuthRegistry::new(&Vec::new(), Vec::new());
    assert!(registry.party_ids().is_empty());
    assert!(report.warnings.is_empty());
    assert!(report.error.is_none());
}

#[test]
fn a_client_with_a_secret_signs_in_as_a_machine() {
    match login_request(&TokenSource::Keycloak(keycloak("http://kc"))) {
        Ok(LoginRequest::KeycloakClientCredentials { url, realm, client_id, client_secret }) => {
            assert_eq!(url, "http://kc");
            assert_eq!(realm, "test-realm");
            assert_eq!(client_id, "decman");
            assert_eq!(client_secret, "secret");
        }
        _ => panic!("not a machine's request"),
    }
}

#[test]
fn a_client_without_a_secret_signs_in_as_a_user() {
    match login_request(&TokenSource::Keycloak(user("http://kc"))) {
        Ok(LoginRequest::KeycloakPassword { username, password, .. }) => {
            assert_eq!(username, "u");
            assert_eq!(password, "p");
        }
        _ => panic!("not a user's request"),
    }
}

#[test]
fn a_user_needs_a_name_and_a_password() {
    let nameless = KeycloakConfig { username: None, ..user("http://kc") };
    let open = KeycloakConfig { password: None, ..user("http://kc") };
    assert!(matches!(
        login_request(&TokenSource::Keycloak(nameless.clone())),
        Err(AuthError::MissingUsername)
    ));
    assert!(matches!(
        login_request(&TokenSource::Keycloak(open)),
        Err(AuthError::MissingPassword)
    ));
    assert!(matches!(
        TokenManager::new(nameless, String::new(), id("m"), Ok(response("t", 1)), at(0)),
        Err(AuthError::MissingUsername)
    ));
}

#[test]
fn auth0_is_asked_at_its_token_address() {
    match login_request(&TokenSource::Auth0(auth0())) {
        Ok(LoginRequest::Auth0 { token_url, fields }) => {
            assert_eq!(token_url, "https://tenant.auth0.com/oauth/token");
            let expected = [
                ("grant_type", "client_credentials"),
                ("client_id", "c"),
                ("client_secret", "s"),
                ("audience", "a"),
            ];
            assert_eq!(fields.len(), expected.len());
            for (field, (name, value)) in fields.iter().zip(expected) {
                assert_eq!(field.0, name);
                assert_eq!(field.1, value);
            }
        }
        _ => panic!("not a request to Auth0"),
    }
}

#[test]
fn a_party_with_an_auth0_client_uses_it() {
    let mut p = party(1, "http://kc");
    assert!(matches!(token_source(&p), TokenSource::Keycloak(_)));
    p.auth0 = Some(auth0());
    assert!(matches!(token_source(&p), TokenSource::Auth0(_)));
}

#[test]
fn each_failure_of_auth0() {
    let said = |f: Auth0Failure| match authenticate_auth0(Err(f), at(0)) {
        Err(e) => e.to_string(),
        Ok(_) => panic!("a failure gave a token"),
    };
    assert_eq!(
        said(Auth0Failure::Request("timeout".to_string())),
        "Keycloak M2M authentication failed: Auth0 request failed: timeout"
    );
    assert_eq!(
        said(Auth0Failure::Status("401 Unauthorized".to_string(), "no".to_string())),
        "Keycloak M2M authentication failed: Auth0 token endpoint returned 401 Unauthorized: no"
    );
    assert_eq!(
        said(Auth0Failure::Parse("eof".to_string())),
        "Keycloak M2M authentication failed: Auth0 response parse failed: eof"
    );
}

#[test]
fn each_error_in_words() {
    assert_eq!(
        AuthError::PasswordAuthFailed("x".to_string()).to_string(),
        "Keycloak password authentication failed: x"
    );
    assert_eq!(
        AuthError::RefreshFailed("x".to_string()).to_string(),
        "Token refresh failed: x"
    );
    assert_eq!(
        AuthError::MissingUsername.to_string(),
        "Missing username for password flow"
    );
    assert_eq!(
        AuthError::MissingPassword.to_string(),
        "Missing password for password flow"
    );
    assert_eq!(
        AuthError::NoCredentials("p".to_string()).to_string(),
        "No credentials configured for party: p"
    );
}

#[test]
fn a_failed_password_is_told_apart() {
    assert!(matches!(
        TokenManager::new(user("x"), String::new(), id("m"), Err("no".to_string()), at(0)),
        Err(AuthError::PasswordAuthFailed(e)) if e == "no"
    ));
}

#[test]
fn a_token_expires_a_minute_early() {
    let e = expires_at(UnixTime { secs: 1000, nanos: 5 }, 300);
    assert_eq!((e.secs, e.nanos), (1240, 5));
    let e = expires_at(at(1000), 30);
    assert_eq!(e.secs, 1000);
    let e = expires_at(at(1000), u64::MAX);
    assert_eq!(e.secs, 1000);
}

fn manager(config: KeycloakConfig) -> TokenManager {
    match TokenManager::new(config, "user".to_string(), id("m"), Ok(response("t", 300)), at(1000))
    {
        Ok(m) => m,
        Err(_) => panic!("no token"),
    }
}

#[test]
fn a_token_is_served_until_its_last_minute() {
    let m = manager(keycloak("http://kc"));
    assert!(matches!(m.get_token(at(1239)), Ok(TokenStep::Ready(t)) if t == "t"));
    assert!(matches!(m.get_token(at(1240)), Ok(TokenStep::Renew(RenewRequest::Login(_)))));
    assert_eq!(m.user_id(), "user");
    assert_eq!(m.member_party_id().to_string(), "m");
}

#[test]
fn a_user_s_token_is_refreshed() {
    let mut m = manager(user("http://kc"));
    match m.get_token(at(1240)) {
        Ok(TokenStep::Renew(RenewRequest::Refresh { url, realm, client_id, refresh_token })) => {
            assert_eq!(url, "http://kc");
            assert_eq!(realm, "test-realm");
            assert_eq!(client_id, "decman");
            assert_eq!(refresh_token, "t-refresh");
        }
        _ => panic!("not a refresh"),
    }
    let more = m.renew(RenewReply::Refreshed(Ok(response("n", 100))), at(1240));
    assert!(matches!(more, Ok(None)));
    assert!(matches!(m.get_token(at(1279)), Ok(TokenStep::Ready(t)) if t == "n"));
    assert_eq!(m.state.refresh_token, "n-refresh");
    assert!(!m.state.is_m2m);
}

#[test]
fn an_expired_refresh_token_leads_to_a_new_sign_in() {
    let mut m = manager(user("http://kc"));
    let refused = "400: Token is not active (invalid_grant)".to_string();
    let more = m.renew(RenewReply::Refreshed(Err(refused)), at(2000));
    assert!(matches!(
        more,
        Ok(Some(RenewRequest::Login(LoginRequest::KeycloakPassword { .. })))
    ));
    let login = LoginReply::Keycloak(Ok(response("n", 100)));
    assert!(matches!(m.renew(RenewReply::LoggedIn(login), at(2000)), Ok(None)));
    assert_eq!(m.credentials().token, "n");
}

#[test]
fn a_renewal_that_fails_changes_nothing() {
    let mut m = manager(user("http://kc"));
    let more = m.renew(RenewReply::Refreshed(Err("boom".to_string())), at(2000));
    assert!(matches!(more, Err(AuthError::RefreshFailed(e)) if e == "boom"));
    assert_eq!(m.state.access_token, "t");
    let login = LoginReply::Keycloak(Err("down".to_string()));
    assert!(m.renew(RenewReply::LoggedIn(login), at(2000)).is_err());
    assert_eq!(m.state.access_token, "t");
    assert_eq!(m.state.expires_at.secs, 1240);
}

#[test]
fn auth0_tokens_are_for_machines() {
    let answer = Auth0TokenResponse { access_token: "t".to_string(), expires_in: 120 };
    let m = TokenManager::new_auth0(auth0(), "u".to_string(), id("m"), Ok(answer), at(0));
    match m {
        Ok(m) => {
            assert!(m.state.is_m2m);
            assert_eq!(m.state.refresh_token, "");
            assert_eq!(m.state.expires_at.secs, 60);
            assert!(matches!(
                m.refresh_or_reauthenticate(),
                Ok(RenewRequest::Login(LoginRequest::Auth0 { .. }))
            ));
        }
        Err(_) => panic!("no token"),
    }
}

#[test]
fn credentials_of_a_party() {
    let parties = vec![party(1, "http://kc"), party(2, "http://kc")];
    let attempts = vec![
        attempt(&parties[0], Ok(response("one", 300))),
        attempt(&parties[1], Ok(response("two", 300))),
    ];
    let (mut registry, _) = AuthRegistry::new(&parties, attempts);
    let login = LoginReply::Keycloak(Ok(response("new", 300)));
    assert!(matches!(
        registry.renew(&id("party1"), RenewReply::LoggedIn(login), at(500)),
        Ok(None)
    ));
    assert_eq!(registry.credentials(&id("party1")).unwrap().token, "new");
    assert_eq!(registry.credentials(&id("party2")).unwrap().token, "two");
    assert!(registry.get_by_str("party3").is_none());
    let auth = WorkflowAuth::Keycloak(registry);
    match auth.get_credentials(&id("party1"), at(500)) {
        Ok(CredentialsStep::Ready(c)) => {
            assert_eq!(c.token, "new");
            assert_eq!(c.user_id, "user1");
            assert_eq!(c.member_party_id.to_string(), "member1");
        }
        _ => panic!("no credentials"),
    }
    assert!(matches!(
        auth.get_credentials(&id("party2"), at(500)),
        Ok(CredentialsStep::Renew(RenewRequest::Login(_)))
    ));
    assert!(matches!(
        auth.get_credentials(&id("party3"), at(500)),
        Err(AuthError::NoCredentials(p)) if p == "party3"
    ));
    assert!(matches!(
        WorkflowAuth::Mock.get_credentials(&id("party3"), at(500)),
        Ok(CredentialsStep::Mock)
    ));
}

#[test]
fn a_party_signs_in_as_itself() {
    let p = party(1, "http://kc");
    match sign_in(&p, LoginReply::Keycloak(Ok(response("t", 300))), at(0)) {
        Ok(m) => {
            assert!(matches!(&m.source, TokenSource::Keycloak(c) if c.url == "http://kc"));
            let c = m.credentials();
            assert_eq!((c.token.as_str(), c.user_id.as_str()), ("t", "user1"));
            assert_eq!(c.member_party_id.to_string(), "member1");
        }
        Err(e) => panic!("{e:?}"),
    }
    let mut p = party(2, "http://kc");
    p.auth0 = Some(auth0());
    let answer = Auth0TokenResponse { access_token: "a".to_string(), expires_in: 120 };
    match sign_in(&p, LoginReply::Auth0(Ok(answer)), at(0)) {
        Ok(m) => assert!(matches!(m.source, TokenSource::Auth0(_)) && m.state.is_m2m),
        Err(e) => panic!("{e:?}"),
    }
    assert!(matches!(
        sign_in(&party(1, "x"), LoginReply::Keycloak(Err("no".to_string())), at(0)),
        Err(AuthError::M2MAuthFailed(e)) if e == "no"
    ));
}

#[test]
fn a_party_without_tokens_cannot_renew() {
    let parties = vec![party(1, "http://kc")];
    let attempts = vec![attempt(&parties[0], Ok(response("one", 300)))];
    let (mut registry, _) = AuthRegistry::new(&parties, attempts);
    let login = LoginReply::Keycloak(Ok(response("new", 300)));
    assert!(matches!(
        registry.renew(&id("party9"), RenewReply::LoggedIn(login), at(500)),
        Err(AuthError::NoCredentials(p)) if p == "party9"
    ));
    assert_eq!(registry.party_ids().len(), 1);
    assert_eq!(registry.credentials(&id("party1")).unwrap().token, "one");
}
