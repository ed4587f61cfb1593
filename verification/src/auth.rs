//! The tokens with which this node acts for its parties on Canton: how they are
//! asked for, how long they are used, and how they are renewed.

use vstd::prelude::*;
use vstd::string::*;

use crate::config::{Auth0M2MConfig, CantonId, KeycloakConfig, PartyCredentials};
use crate::map::TextMap;
use crate::text;

verus! {

/// Why a token could not be had.
#[derive(Debug)]
pub enum AuthError {
    M2MAuthFailed(String),
    PasswordAuthFailed(String),
    RefreshFailed(String),
    MissingUsername,
    MissingPassword,
    NoCredentials(String),
}

impl AuthError {
    /// What an operator is told.
    pub open spec fn said(self) -> Seq<char> {
        match self {
            AuthError::M2MAuthFailed(reason) => "Keycloak M2M authentication failed: "@ + reason@,
            AuthError::PasswordAuthFailed(reason) => "Keycloak password authentication failed: "@
                + reason@,
            AuthError::RefreshFailed(reason) => "Token refresh failed: "@ + reason@,
            AuthError::MissingUsername => "Missing username for password flow"@,
            AuthError::MissingPassword => "Missing password for password flow"@,
            AuthError::NoCredentials(party) => "No credentials configured for party: "@ + party@,
        }
    }

    /// What an operator is told.
    pub fn to_string(&self) -> (s: String)
        ensures
            s@ == self.said(),
    {
        match self {
            AuthError::M2MAuthFailed(reason) => "Keycloak M2M authentication failed: ".to_owned()
                .concat(reason.as_str()),
            AuthError::PasswordAuthFailed(reason) => "Keycloak password authentication failed: "
                .to_owned().concat(reason.as_str()),
            AuthError::RefreshFailed(reason) => "Token refresh failed: ".to_owned().concat(
                reason.as_str(),
            ),
            AuthError::MissingUsername => "Missing username for password flow".to_owned(),
            AuthError::MissingPassword => "Missing password for password flow".to_owned(),
            AuthError::NoCredentials(party) => "No credentials configured for party: ".to_owned()
                .concat(party.as_str()),
        }
    }
}

/// A moment of the system clock.
#[derive(Clone, Copy)]
pub struct UnixTime {
    /// Whole seconds since the epoch.
    pub secs: i64,
    /// Nanoseconds of the second that has begun.
    pub nanos: u32,
}

/// The first moment is not before the second.
pub open spec fn not_before(a: UnixTime, b: UnixTime) -> bool {
    a.secs > b.secs || a.secs == b.secs && a.nanos >= b.nanos
}

/// How many seconds before its end a token is no longer used.
pub const EXPIRY_MARGIN_SECS: u64 = 60;

/// When a token that lasts so many seconds from now on is no longer used: a
/// minute before its end, or now where that is past or out of the clock's reach.
pub open spec fn expiry(now: UnixTime, expires_in: u64) -> UnixTime {
    let lasts = if expires_in > EXPIRY_MARGIN_SECS {
        expires_in - EXPIRY_MARGIN_SECS
    } else {
        0
    };
    if now.secs + lasts <= i64::MAX {
        UnixTime { secs: (now.secs + lasts) as i64, nanos: now.nanos }
    } else {
        now
    }
}

/// When a token that lasts so many seconds from now on is no longer used.
pub fn expires_at(now: UnixTime, expires_in: u64) -> (at: UnixTime)
    ensures
        at == expiry(now, expires_in),
{
    match now.secs.checked_add_unsigned(expires_in.saturating_sub(EXPIRY_MARGIN_SECS)) {
        Some(secs) => UnixTime { secs, nanos: now.nanos },
        None => now,
    }
}

/// A token and what is known of it.
pub struct TokenState {
    pub access_token: String,
    /// Empty where the token cannot be refreshed.
    pub refresh_token: String,
    pub expires_at: UnixTime,
    /// The token stands for a machine, and cannot be refreshed.
    pub is_m2m: bool,
}

/// Where the tokens of a party come from.
pub enum TokenSource {
    Keycloak(KeycloakConfig),
    Auth0(Auth0M2MConfig),
}

/// What Keycloak answers to a request for a token.
pub struct TokenResponse {
    pub access_token: String,
    pub refresh_token: String,
    pub expires_in: u64,
}

/// What Auth0 answers to a request for a token.
pub struct Auth0TokenResponse {
    pub access_token: String,
    pub expires_in: u64,
}

/// Why Auth0 gave no token.
pub enum Auth0Failure {
    /// The request did not get through.
    Request(String),
    /// Auth0 refused: the status and the body of its answer.
    Status(String, String),
    /// Auth0's answer could not be read.
    Parse(String),
}

impl Auth0Failure {
    /// The failure in words.
    pub open spec fn said(self) -> Seq<char> {
        match self {
            Auth0Failure::Request(e) => "Auth0 request failed: "@ + e@,
            Auth0Failure::Status(status, body) => "Auth0 token endpoint returned "@ + status@
                + ": "@ + body@,
            Auth0Failure::Parse(e) => "Auth0 response parse failed: "@ + e@,
        }
    }

    /// The failure in words.
    pub fn to_string(&self) -> (s: String)
        ensures
            s@ == self.said(),
    {
        match self {
            Auth0Failure::Request(e) => "Auth0 request failed: ".to_owned().concat(e.as_str()),
            Auth0Failure::Status(status, body) => "Auth0 token endpoint returned ".to_owned()
                .concat(status.as_str()).concat(": ").concat(body.as_str()),
            Auth0Failure::Parse(e) => "Auth0 response parse failed: ".to_owned().concat(e.as_str()),
        }
    }
}

/// A request for a first token.
pub enum LoginRequest {
    /// To the realm's token address of the Keycloak server, for a machine.
    KeycloakClientCredentials {
        url: String,
        realm: String,
        client_id: String,
        client_secret: String,
    },
    /// To the realm's token address of the Keycloak server, for a user.
    KeycloakPassword {
        url: String,
        realm: String,
        client_id: String,
        username: String,
        password: String,
    },
    /// To this address, with these fields as a JSON object.
    Auth0 { token_url: String, fields: Vec<(String, String)> },
}

/// The address of Auth0's tokens.
pub open spec fn auth0_token_url(domain: Seq<char>) -> Seq<char> {
    "https://"@ + text::without_trailing(domain, '/') + "/oauth/token"@
}

/// What Auth0 is asked with.
pub open spec fn auth0_fields(config: Auth0M2MConfig) -> Seq<(Seq<char>, Seq<char>)> {
    seq![
        ("grant_type"@, "client_credentials"@),
        ("client_id"@, config.client_id@),
        ("client_secret"@, config.client_secret@),
        ("audience"@, config.audience@),
    ]
}

/// The request is the one by which the source gives a first token.
pub open spec fn asks(source: TokenSource, request: Result<LoginRequest, AuthError>) -> bool {
    match source {
        TokenSource::Keycloak(config) => match (
            config.client_secret,
            config.username,
            config.password,
        ) {
            (Some(client_secret), _, _) => request == Ok::<LoginRequest, AuthError>(
                LoginRequest::KeycloakClientCredentials {
                    url: config.url,
                    realm: config.realm,
                    client_id: config.client_id,
                    client_secret,
                },
            ),
            (None, None, _) => request == Err::<LoginRequest, AuthError>(
                AuthError::MissingUsername,
            ),
            (None, Some(_), None) => request == Err::<LoginRequest, AuthError>(
                AuthError::MissingPassword,
            ),
            (None, Some(username), Some(password)) => request == Ok::<LoginRequest, AuthError>(
                LoginRequest::KeycloakPassword {
                    url: config.url,
                    realm: config.realm,
                    client_id: config.client_id,
                    username,
                    password,
                },
            ),
        },
        TokenSource::Auth0(config) => request matches Ok(LoginRequest::Auth0 { token_url, fields })
            && token_url@ == auth0_token_url(config.domain@) && crate::outside::field_texts(fields@)
            == auth0_fields(config),
    }
}

/// The request by which Keycloak gives a first token: for a machine where the
/// client has a secret, else for a user, whose name and password are needed.
pub fn keycloak_login(config: &KeycloakConfig) -> (request: Result<LoginRequest, AuthError>)
    ensures
        asks(TokenSource::Keycloak(*config), request),
{
    match &config.client_secret {
        Some(client_secret) => Ok(
            LoginRequest::KeycloakClientCredentials {
                url: config.url.clone(),
                realm: config.realm.clone(),
                client_id: config.client_id.clone(),
                client_secret: client_secret.clone(),
            },
        ),
        None => match &config.username {
            None => Err(AuthError::MissingUsername),
            Some(username) => match &config.password {
                None => Err(AuthError::MissingPassword),
                Some(password) => Ok(
                    LoginRequest::KeycloakPassword {
                        url: config.url.clone(),
                        realm: config.realm.clone(),
                        client_id: config.client_id.clone(),
                        username: username.clone(),
                        password: password.clone(),
                    },
                ),
            },
        },
    }
}

/// The request by which Auth0 gives a token.
pub fn auth0_client_credentials(config: &Auth0M2MConfig) -> (request: LoginRequest)
    ensures
        asks(TokenSource::Auth0(*config), Ok::<LoginRequest, AuthError>(request)),
{
    let domain = text::trim_end_matches(config.domain.as_str(), '/');
    let token_url = "https://".to_owned().concat(domain.as_str()).concat("/oauth/token");
    let mut fields: Vec<(String, String)> = Vec::new();
    fields.push(("grant_type".to_owned(), "client_credentials".to_owned()));
    fields.push(("client_id".to_owned(), config.client_id.clone()));
    fields.push(("client_secret".to_owned(), config.client_secret.clone()));
    fields.push(("audience".to_owned(), config.audience.clone()));
    proof {
        assert(crate::outside::field_texts(fields@) =~= auth0_fields(*config));
    }
    LoginRequest::Auth0 { token_url, fields }
}

/// The request by which a source gives a first token.
pub fn login_request(source: &TokenSource) -> (request: Result<LoginRequest, AuthError>)
    ensures
        asks(*source, request),
{
    match source {
        TokenSource::Keycloak(config) => keycloak_login(config),
        TokenSource::Auth0(config) => Ok(auth0_client_credentials(config)),
    }
}

/// The answer to a request for a first token.
pub enum LoginReply {
    Keycloak(Result<TokenResponse, String>),
    Auth0(Result<Auth0TokenResponse, Auth0Failure>),
}

/// The answer is one of the source's kind.
pub open spec fn reply_for(source: TokenSource, reply: LoginReply) -> bool {
    source is Keycloak <==> reply is Keycloak
}

/// What an answer of Keycloak makes of a client: the token, or why there is none.
pub open spec fn keycloak_state(
    config: KeycloakConfig,
    reply: Result<TokenResponse, String>,
    now: UnixTime,
    state: Result<TokenState, AuthError>,
) -> bool {
    let is_m2m = config.client_secret is Some;
    if !is_m2m && config.username is None {
        state == Err::<TokenState, AuthError>(AuthError::MissingUsername)
    } else if !is_m2m && config.password is None {
        state == Err::<TokenState, AuthError>(AuthError::MissingPassword)
    } else {
        state == match reply {
            Ok(response) => Ok::<TokenState, AuthError>(
                TokenState {
                    access_token: response.access_token,
                    refresh_token: response.refresh_token,
                    expires_at: expiry(now, response.expires_in),
                    is_m2m,
                },
            ),
            Err(reason) => Err::<TokenState, AuthError>(
                if is_m2m {
                    AuthError::M2MAuthFailed(reason)
                } else {
                    AuthError::PasswordAuthFailed(reason)
                },
            ),
        }
    }
}

/// What an answer of Auth0 makes: the token, or why there is none.
pub open spec fn auth0_state(
    reply: Result<Auth0TokenResponse, Auth0Failure>,
    now: UnixTime,
    state: Result<TokenState, AuthError>,
) -> bool {
    match reply {
        Ok(response) => state matches Ok(s) && s.access_token == response.access_token
            && s.refresh_token@ == Seq::<char>::empty() && s.expires_at == expiry(
            now,
            response.expires_in,
        ) && s.is_m2m,
        Err(failure) => state matches Err(AuthError::M2MAuthFailed(reason)) && reason@
            == failure.said(),
    }
}

/// What the answer to a request for a first token makes of its source.
pub open spec fn first_state(
    source: TokenSource,
    reply: LoginReply,
    now: UnixTime,
    state: Result<TokenState, AuthError>,
) -> bool {
    match (source, reply) {
        (TokenSource::Keycloak(config), LoginReply::Keycloak(r)) => keycloak_state(
            config,
            r,
            now,
            state,
        ),
        (TokenSource::Auth0(_), LoginReply::Auth0(r)) => auth0_state(r, now, state),
        _ => true,
    }
}

/// The token that an answer of Keycloak gives.
pub fn authenticate_keycloak(
    config: &KeycloakConfig,
    reply: Result<TokenResponse, String>,
    now: UnixTime,
) -> (state: Result<TokenState, AuthError>)
    ensures
        keycloak_state(*config, reply, now, state),
{
    let is_m2m = config.client_secret.is_some();
    if !is_m2m {
        if config.username.is_none() {
            return Err(AuthError::MissingUsername);
        }
        if config.password.is_none() {
            return Err(AuthError::MissingPassword);
        }
    }
    match reply {
        Ok(response) => Ok(
            TokenState {
                access_token: response.access_token,
                refresh_token: response.refresh_token,
                expires_at: expires_at(now, response.expires_in),
                is_m2m,
            },
        ),
        Err(reason) => Err(
            if is_m2m {
                AuthError::M2MAuthFailed(reason)
            } else {
                AuthError::PasswordAuthFailed(reason)
            },
        ),
    }
}

/// The token that an answer of Auth0 gives.
pub fn authenticate_auth0(
    reply: Result<Auth0TokenResponse, Auth0Failure>,
    now: UnixTime,
) -> (state: Result<TokenState, AuthError>)
    ensures
        auth0_state(reply, now, state),
{
    match reply {
        Ok(response) => Ok(
            TokenState {
                access_token: response.access_token,
                refresh_token: String::new(),
                expires_at: expires_at(now, response.expires_in),
                is_m2m: true,
            },
        ),
        Err(failure) => Err(AuthError::M2MAuthFailed(failure.to_string())),
    }
}

/// The token that the answer to a request for a first one gives.
pub fn authenticate(source: &TokenSource, reply: LoginReply, now: UnixTime) -> (state: Result<
    TokenState,
    AuthError,
>)
    requires
        reply_for(*source, reply),
    ensures
        first_state(*source, reply, now, state),
{
    match source {
        TokenSource::Keycloak(config) => match reply {
            LoginReply::Keycloak(r) => authenticate_keycloak(config, r, now),
            LoginReply::Auth0(r) => authenticate_auth0(r, now),
        },
        TokenSource::Auth0(_) => match reply {
            LoginReply::Auth0(r) => authenticate_auth0(r, now),
            LoginReply::Keycloak(_) => Err(AuthError::MissingUsername),
        },
    }
}

/// A request for a token in place of one that has expired.
pub enum RenewRequest {
    /// As for the first token.
    Login(LoginRequest),
    /// To the realm's token address of the Keycloak server.
    Refresh { url: String, realm: String, client_id: String, refresh_token: String },
}

/// The answer to a request for a token in place of one that has expired.
pub enum RenewReply {
    LoggedIn(LoginReply),
    Refreshed(Result<TokenResponse, String>),
}

/// How a token is had.
pub enum TokenStep {
    /// It is there.
    Ready(String),
    /// By this request.
    Renew(RenewRequest),
}

/// The tokens of one party.
pub struct TokenManager {
    pub source: TokenSource,
    pub user_id: String,
    /// The member party that the tokens are for.
    pub member_party_id: CantonId,
    pub state: TokenState,
}

impl TokenManager {
    /// The manager has this source, user, member and token.
    pub open spec fn holds(
        self,
        source: TokenSource,
        user_id: String,
        member_party_id: CantonId,
        state: TokenState,
    ) -> bool {
        self == (TokenManager { source, user_id, member_party_id, state })
    }

    /// The manager of a party that signs in with Keycloak, by Keycloak's answer.
    pub fn new(
        config: KeycloakConfig,
        user_id: String,
        member_party_id: CantonId,
        reply: Result<TokenResponse, String>,
        now: UnixTime,
    ) -> (manager: Result<Self, AuthError>)
        ensures
            match manager {
                Ok(m) => keycloak_state(
                    config,
                    reply,
                    now,
                    Ok::<TokenState, AuthError>(m.state),
                ) && m.holds(TokenSource::Keycloak(config), user_id, member_party_id, m.state),
                Err(e) => keycloak_state(config, reply, now, Err::<TokenState, AuthError>(e)),
            },
    {
        match authenticate_keycloak(&config, reply, now) {
            Ok(state) => Ok(
                TokenManager {
                    source: TokenSource::Keycloak(config),
                    user_id,
                    member_party_id,
                    state,
                },
            ),
            Err(e) => Err(e),
        }
    }

    /// The manager of a party that signs in with Auth0, by Auth0's answer.
    pub fn new_auth0(
        config: Auth0M2MConfig,
        user_id: String,
        member_party_id: CantonId,
        reply: Result<Auth0TokenResponse, Auth0Failure>,
        now: UnixTime,
    ) -> (manager: Result<Self, AuthError>)
        ensures
            match manager {
                Ok(m) => auth0_state(reply, now, Ok::<TokenState, AuthError>(m.state)) && m.holds(
                    TokenSource::Auth0(config),
                    user_id,
                    member_party_id,
                    m.state,
                ),
                Err(e) => auth0_state(reply, now, Err::<TokenState, AuthError>(e)),
            },
    {
        match authenticate_auth0(reply, now) {
            Ok(state) => Ok(
                TokenManager { source: TokenSource::Auth0(config), user_id, member_party_id, state },
            ),
            Err(e) => Err(e),
        }
    }

    /// The user that the tokens are for.
    pub fn user_id(&self) -> (id: &str)
        ensures
            id@ == self.user_id@,
    {
        self.user_id.as_str()
    }

    /// The member party that the tokens are for.
    pub fn member_party_id(&self) -> (id: &CantonId)
        ensures
            *id == self.member_party_id,
    {
        &self.member_party_id
    }

    /// The credentials are those of the party, with the token that is there.
    pub open spec fn gives(self, c: PartyAuthCredentials) -> bool {
        &&& c.token == self.state.access_token
        &&& c.user_id@ == self.user_id@
        &&& c.member_party_id == self.member_party_id
    }

    /// The party's credentials, with the token that is there.
    pub fn credentials(&self) -> (c: PartyAuthCredentials)
        ensures
            self.gives(c),
    {
        PartyAuthCredentials {
            token: self.state.access_token.clone(),
            user_id: self.user_id().to_owned(),
            member_party_id: self.member_party_id().clone(),
        }
    }

    /// Whether the token is no longer used.
    pub open spec fn needs_renewal(self, now: UnixTime) -> bool {
        not_before(now, self.state.expires_at)
    }

    /// The request by which an expired token is renewed: one for a machine, and
    /// one that does not come from Keycloak, as the first one was had; any other
    /// by a refresh.
    pub open spec fn renews_by(self, request: Result<RenewRequest, AuthError>) -> bool {
        match self.source {
            TokenSource::Keycloak(config) if !self.state.is_m2m => request == Ok::<
                RenewRequest,
                AuthError,
            >(
                RenewRequest::Refresh {
                    url: config.url,
                    realm: config.realm,
                    client_id: config.client_id,
                    refresh_token: self.state.refresh_token,
                },
            ),
            _ => match request {
                Ok(RenewRequest::Login(login)) => asks(
                    self.source,
                    Ok::<LoginRequest, AuthError>(login),
                ),
                Ok(RenewRequest::Refresh { .. }) => false,
                Err(e) => asks(self.source, Err::<LoginRequest, AuthError>(e)),
            },
        }
    }

    /// The request by which a token is renewed like the first one was had.
    fn login_again(&self) -> (request: Result<RenewRequest, AuthError>)
        ensures
            match request {
                Ok(RenewRequest::Login(login)) => asks(
                    self.source,
                    Ok::<LoginRequest, AuthError>(login),
                ),
                Ok(RenewRequest::Refresh { .. }) => false,
                Err(e) => asks(self.source, Err::<LoginRequest, AuthError>(e)),
            },
    {
        match login_request(&self.source) {
            Ok(login) => Ok(RenewRequest::Login(login)),
            Err(e) => Err(e),
        }
    }

    /// The request by which an expired token is renewed.
    pub fn refresh_or_reauthenticate(&self) -> (request: Result<RenewRequest, AuthError>)
        ensures
            self.renews_by(request),
    {
        if self.state.is_m2m {
            return self.login_again();
        }
        match &self.source {
            TokenSource::Keycloak(config) => Ok(
                RenewRequest::Refresh {
                    url: config.url.clone(),
                    realm: config.realm.clone(),
                    client_id: config.client_id.clone(),
                    refresh_token: self.state.refresh_token.clone(),
                },
            ),
            TokenSource::Auth0(_) => self.login_again(),
        }
    }

    /// How the party's token is had: it is there until it is no longer used, and
    /// is renewed after that.
    pub fn get_token(&self, now: UnixTime) -> (step: Result<TokenStep, AuthError>)
        ensures
            if self.needs_renewal(now) {
                match step {
                    Ok(TokenStep::Renew(request)) => self.renews_by(
                        Ok::<RenewRequest, AuthError>(request),
                    ),
                    Ok(TokenStep::Ready(_)) => false,
                    Err(e) => self.renews_by(Err::<RenewRequest, AuthError>(e)),
                }
            } else {
                step == Ok::<TokenStep, AuthError>(TokenStep::Ready(self.state.access_token))
            },
    {
        let at = self.state.expires_at;
        if now.secs > at.secs || (now.secs == at.secs && now.nanos >= at.nanos) {
            match self.refresh_or_reauthenticate() {
                Ok(request) => Ok(TokenStep::Renew(request)),
                Err(e) => Err(e),
            }
        } else {
            Ok(TokenStep::Ready(self.state.access_token.clone()))
        }
    }

    /// What the answer to a request for a new token makes of the manager: it has
    /// the new token, or it is as it was. A refresh token that has expired leads
    /// to a request as for the first token.
    pub open spec fn renewed(
        before: Self,
        reply: RenewReply,
        now: UnixTime,
        after: Self,
        more: Result<Option<RenewRequest>, AuthError>,
    ) -> bool {
        &&& after.source == before.source
        &&& after.user_id == before.user_id
        &&& after.member_party_id == before.member_party_id
        &&& match reply {
            RenewReply::LoggedIn(login) => match more {
                Ok(next) => next is None && first_state(
                    before.source,
                    login,
                    now,
                    Ok::<TokenState, AuthError>(after.state),
                ),
                Err(e) => after.state == before.state && first_state(
                    before.source,
                    login,
                    now,
                    Err::<TokenState, AuthError>(e),
                ),
            },
            RenewReply::Refreshed(Ok(response)) => {
                &&& more == Ok::<Option<RenewRequest>, AuthError>(None)
                &&& after.state == (TokenState {
                    access_token: response.access_token,
                    refresh_token: response.refresh_token,
                    expires_at: expiry(now, response.expires_in),
                    is_m2m: before.state.is_m2m,
                })
            },
            RenewReply::Refreshed(Err(reason)) => {
                &&& after.state == before.state
                &&& if text::occurs_in(reason@, "Token is not active"@) {
                    match more {
                        Ok(Some(RenewRequest::Login(login))) => asks(
                            before.source,
                            Ok::<LoginRequest, AuthError>(login),
                        ),
                        Ok(_) => false,
                        Err(e) => asks(before.source, Err::<LoginRequest, AuthError>(e)),
                    }
                } else {
                    more == Err::<Option<RenewRequest>, AuthError>(
                        AuthError::RefreshFailed(reason),
                    )
                }
            },
        }
    }

    /// Takes the answer to a request for a new token. Returns the request that
    /// is needed next, where one is.
    pub fn renew(&mut self, reply: RenewReply, now: UnixTime) -> (more: Result<
        Option<RenewRequest>,
        AuthError,
    >)
        requires
            reply matches RenewReply::LoggedIn(login) ==> reply_for(old(self).source, login),
        ensures
            Self::renewed(*old(self), reply, now, *final(self), more),
            reply matches RenewReply::Refreshed(Ok(response)) ==> {
                &&& final(self).state.access_token == response.access_token
                &&& final(self).state.refresh_token == response.refresh_token
                &&& response.expires_in >= 60 && now.secs + response.expires_in <= i64::MAX ==> {
                    &&& final(self).state.expires_at.secs == now.secs + response.expires_in - 60
                    &&& final(self).state.expires_at.nanos == now.nanos
                }
            },
    {
        match reply {
            RenewReply::LoggedIn(login) => match authenticate(&self.source, login, now) {
                Ok(state) => {
                    self.state = state;
                    Ok(None)
                },
                Err(e) => Err(e),
            },
            RenewReply::Refreshed(Ok(response)) => {
                self.state.access_token = response.access_token;
                self.state.refresh_token = response.refresh_token;
                self.state.expires_at = expires_at(now, response.expires_in);
                Ok(None)
            },
            RenewReply::Refreshed(Err(reason)) => {
                if text::contains(reason.as_str(), "Token is not active") {
                    match self.login_again() {
                        Ok(request) => Ok(Some(request)),
                        Err(e) => Err(e),
                    }
                } else {
                    Err(AuthError::RefreshFailed(reason))
                }
            },
        }
    }
}

/// Where the tokens of a party come from: from Auth0 where the party has a
/// client there, else from Keycloak.
pub open spec fn source_of(party: PartyCredentials) -> TokenSource {
    match party.auth0 {
        Some(config) => TokenSource::Auth0(config),
        None => TokenSource::Keycloak(party.keycloak),
    }
}

/// Where the tokens of a party come from.
pub fn token_source(party: &PartyCredentials) -> (source: TokenSource)
    ensures
        source == source_of(*party),
{
    match &party.auth0 {
        Some(config) => TokenSource::Auth0(config.clone()),
        None => TokenSource::Keycloak(party.keycloak.clone()),
    }
}

/// What the answer to a party's first request makes: a manager with the party's
/// own source, user and member, or why there is none.
pub open spec fn signs_in(
    party: PartyCredentials,
    reply: LoginReply,
    now: UnixTime,
    manager: Result<TokenManager, AuthError>,
) -> bool {
    match manager {
        Ok(m) => m.holds(source_of(party), party.user_id, party.member_party_id, m.state)
            && first_state(
            source_of(party),
            reply,
            now,
            Ok::<TokenState, AuthError>(m.state),
        ),
        Err(e) => first_state(source_of(party), reply, now, Err::<TokenState, AuthError>(e)),
    }
}

/// The manager of a party, by the answer to its first request.
pub fn sign_in(party: &PartyCredentials, reply: LoginReply, now: UnixTime) -> (manager: Result<
    TokenManager,
    AuthError,
>)
    requires
        reply_for(source_of(*party), reply),
    ensures
        signs_in(*party, reply, now, manager),
{
    let source = token_source(party);
    match authenticate(&source, reply, now) {
        Ok(state) => Ok(
            TokenManager {
                source,
                user_id: party.user_id.clone(),
                member_party_id: party.member_party_id.clone(),
                state,
            },
        ),
        Err(e) => Err(e),
    }
}

/// What became of a party at startup.
pub open spec fn signed_in(
    parties: Seq<PartyCredentials>,
    attempts: Seq<Result<TokenManager, AuthError>>,
) -> Map<Seq<char>, TokenManager>
    decreases attempts.len(),
{
    if attempts.len() == 0 {
        Map::empty()
    } else {
        let before = signed_in(parties, attempts.drop_last());
        match attempts.last() {
            Ok(manager) => before.insert(
                parties[attempts.len() - 1].dec_party_id@,
                manager,
            ),
            Err(_) => before,
        }
    }
}

/// The parties that could not sign in, in order.
pub open spec fn failed_parties(
    parties: Seq<PartyCredentials>,
    attempts: Seq<Result<TokenManager, AuthError>>,
) -> Seq<Seq<char>>
    decreases attempts.len(),
{
    if attempts.len() == 0 {
        Seq::empty()
    } else {
        let before = failed_parties(parties, attempts.drop_last());
        match attempts.last() {
            Ok(_) => before,
            Err(_) => before.push(parties[attempts.len() - 1].dec_party_id@),
        }
    }
}

/// What an operator is told of a party that could not sign in.
pub open spec fn party_warning(party: Seq<char>, e: AuthError) -> Seq<char> {
    "Failed to initialize auth for dec_party="@ + party + ": "@ + e.said()
        + ". Skipping — workflows for this party will fail until credentials are fixed."@
}

/// The warnings of a startup, in order.
pub open spec fn startup_warnings(
    parties: Seq<PartyCredentials>,
    attempts: Seq<Result<TokenManager, AuthError>>,
) -> Seq<Seq<char>>
    decreases attempts.len(),
{
    if attempts.len() == 0 {
        Seq::empty()
    } else {
        let before = startup_warnings(parties, attempts.drop_last());
        match attempts.last() {
            Ok(_) => before,
            Err(e) => before.push(party_warning(parties[attempts.len() - 1].dec_party_id@, e)),
        }
    }
}

/// What an operator is told where no party could sign in.
pub open spec fn outage_notice(failed: Seq<Seq<char>>) -> Seq<char> {
    "Authentication failed for all "@ + text::decimal(failed.len()) + " configured parties: "@
        + text::joined(failed, ", "@)
        + ". This node can run no workflow until the credentials are fixed."@
}

/// What an operator is told of a startup.
pub struct StartupReport {
    /// One warning for each party that could not sign in.
    pub warnings: Vec<String>,
    /// The error, where there are parties and none could sign in.
    pub error: Option<String>,
}

/// The tokens of the parties.
pub struct AuthRegistry {
    pub managers: TextMap<TokenManager>,
}

impl AuthRegistry {
    /// The tokens of the parties that could sign in, by what became of each
    /// attempt. A party that could not is left out, with a warning; only where
    /// none could is there an error.
    pub fn new(
        parties: &Vec<PartyCredentials>,
        attempts: Vec<Result<TokenManager, AuthError>>,
    ) -> (started: (Self, StartupReport))
        requires
            attempts@.len() == parties@.len(),
        ensures
            started.0.managers@ == signed_in(parties@, attempts@),
            text::texts(started.1.warnings@) == startup_warnings(parties@, attempts@),
            ({
                let failed = failed_parties(parties@, attempts@);
                if signed_in(parties@, attempts@) == Map::<Seq<char>, TokenManager>::empty()
                    && failed.len() > 0 {
                    text::text_of(started.1.error) == Some(outage_notice(failed))
                } else {
                    started.1.error is None
                }
            }),
    {
        let ghost all = attempts@;
        let mut rest = attempts;
        let mut managers: TextMap<TokenManager> = TextMap::new();
        let mut failed: Vec<String> = Vec::new();
        let mut warnings: Vec<String> = Vec::new();
        let n = parties.len();
        let mut i: usize = 0;
        proof {
            assert(all.skip(0) =~= all);
            assert(text::texts(failed@) =~= failed_parties(parties@, all.take(0)));
            assert(text::texts(warnings@) =~= startup_warnings(parties@, all.take(0)));
        }
        while i < n
            invariant
                i <= n == parties@.len() == all.len(),
                rest@ == all.skip(i as int),
                managers@ == signed_in(parties@, all.take(i as int)),
                text::texts(failed@) == failed_parties(parties@, all.take(i as int)),
                text::texts(warnings@) == startup_warnings(parties@, all.take(i as int)),
            decreases n - i,
        {
            let attempt = rest.remove(0);
            proof {
                assert(rest@ =~= all.skip(i + 1));
                assert(attempt == all[i as int]);
                assert(all.take(i + 1).drop_last() =~= all.take(i as int));
                assert(all.take(i + 1).last() == attempt);
            }
            let id = parties[i].dec_party_id.to_string();
            match attempt {
                Ok(manager) => {
                    managers.insert(id, manager);
                },
                Err(e) => {
                    let ghost before = (failed@, warnings@);
                    let warning = "Failed to initialize auth for dec_party=".to_owned().concat(
                        id.as_str(),
                    ).concat(": ").concat(e.to_string().as_str()).concat(
                        ". Skipping — workflows for this party will fail until credentials are fixed.",
                    );
                    let ghost said = (id@, warning@);
                    warnings.push(warning);
                    failed.push(id);
                    proof {
                        assert(text::texts(failed@) =~= text::texts(before.0).push(said.0));
                        assert(text::texts(warnings@) =~= text::texts(before.1).push(said.1));
                    }
                },
            }
            i += 1;
        }
        proof {
            assert(all.take(i as int) =~= all);
        }
        let error = if managers.is_empty() && failed.len() > 0 {
            let count = text::decimal_text(failed.len());
            Some(
                "Authentication failed for all ".to_owned().concat(count.as_str()).concat(
                    " configured parties: ",
                ).concat(text::join(&failed, ", ").as_str()).concat(
                    ". This node can run no workflow until the credentials are fixed.",
                ),
            )
        } else {
            None
        };
        (AuthRegistry { managers }, StartupReport { warnings, error })
    }

    /// The tokens of a party.
    pub fn get(&self, party_id: &CantonId) -> (manager: Option<&TokenManager>)
        ensures
            match manager {
                Some(m) => self.managers@.contains_key(party_id@) && *m
                    == self.managers@[party_id@],
                None => !self.managers@.contains_key(party_id@),
            },
    {
        self.managers.get(party_id.text.as_str())
    }

    /// The tokens of a party, by the text of its id.
    pub fn get_by_str(&self, party_id: &str) -> (manager: Option<&TokenManager>)
        ensures
            match manager {
                Some(m) => self.managers@.contains_key(party_id@) && *m
                    == self.managers@[party_id@],
                None => !self.managers@.contains_key(party_id@),
            },
    {
        self.managers.get(party_id)
    }

    /// Whether there are tokens of a party.
    pub fn has_credentials(&self, party_id: &CantonId) -> (yes: bool)
        ensures
            yes == self.managers@.contains_key(party_id@),
    {
        self.managers.contains_key(party_id.text.as_str())
    }

    /// The ids of the parties of which there are tokens, each once.
    pub fn party_ids(&self) -> (ids: Vec<&String>)
        ensures
            forall|i: int| 0 <= i < ids@.len() ==> self.managers@.contains_key(#[trigger] ids@[i]@),
            forall|k: Seq<char>| #[trigger]
                self.managers@.contains_key(k) ==> exists|i: int|
                    0 <= i < ids@.len() && ids@[i]@ == k,
            forall|i: int, j: int|
                0 <= i < j < ids@.len() ==> #[trigger] ids@[i]@ != #[trigger] ids@[j]@,
    {
        self.managers.keys()
    }

    /// With what this node acts for a party, by the token that is there.
    pub fn credentials(&self, party_id: &CantonId) -> (found: Option<PartyAuthCredentials>)
        ensures
            match found {
                Some(c) => self.managers@.contains_key(party_id@)
                    && self.managers@[party_id@].gives(c),
                None => !self.managers@.contains_key(party_id@),
            },
    {
        match self.get(party_id) {
            Some(manager) => Some(manager.credentials()),
            None => None,
        }
    }

    /// What the answer to a request for a new token of a party makes of the tokens.
    pub open spec fn renews(
        before: Map<Seq<char>, TokenManager>,
        party: Seq<char>,
        reply: RenewReply,
        now: UnixTime,
        after: Map<Seq<char>, TokenManager>,
        more: Result<Option<RenewRequest>, AuthError>,
    ) -> bool {
        if before.contains_key(party) {
            &&& after.contains_key(party)
            &&& TokenManager::renewed(before[party], reply, now, after[party], more)
            &&& after.remove(party) == before.remove(party)
        } else {
            &&& more matches Err(AuthError::NoCredentials(told)) && told@ == party
            &&& after == before
        }
    }

    /// Takes the answer to a request for a new token of a party. The tokens of
    /// the other parties stay as they are, and so do all where the party has
    /// none.
    pub fn renew(&mut self, party_id: &CantonId, reply: RenewReply, now: UnixTime) -> (more: Result<
        Option<RenewRequest>,
        AuthError,
    >)
        requires
            old(self).managers@.contains_key(party_id@) ==> (
            reply matches RenewReply::LoggedIn(login) ==> reply_for(
                old(self).managers@[party_id@].source,
                login,
            )),
        ensures
            Self::renews(
                old(self).managers@,
                party_id@,
                reply,
                now,
                final(self).managers@,
                more,
            ),
    {
        let ghost before = self.managers@;
        match self.managers.remove(party_id.text.as_str()) {
            Some(manager) => {
                let mut manager = manager;
                let more = manager.renew(reply, now);
                self.managers.insert(party_id.to_string(), manager);
                proof {
                    assert(self.managers@.remove(party_id@) =~= before.remove(party_id@));
                }
                more
            },
            None => {
                proof {
                    assert(self.managers@ =~= before);
                }
                Err(AuthError::NoCredentials(party_id.to_string()))
            },
        }
    }
}

/// How this node signs in for its parties.
pub enum WorkflowAuth {
    /// With each party's own credentials.
    Keycloak(AuthRegistry),
    /// With a token that needs no sign-in.
    Mock,
}

/// With what this node acts for a party.
pub struct PartyAuthCredentials {
    pub token: String,
    pub user_id: String,
    pub member_party_id: CantonId,
}

/// How the credentials of a party are had.
pub enum CredentialsStep {
    /// They are there.
    Ready(PartyAuthCredentials),
    /// By this request first.
    Renew(RenewRequest),
    /// From the source of the tokens that need no sign-in.
    Mock,
}

impl WorkflowAuth {
    /// How the credentials of a decentralized party are had.
    pub fn get_credentials(&self, dec_party_id: &CantonId, now: UnixTime) -> (step: Result<
        CredentialsStep,
        AuthError,
    >)
        ensures
            match *self {
                WorkflowAuth::Mock => step == Ok::<CredentialsStep, AuthError>(
                    CredentialsStep::Mock,
                ),
                WorkflowAuth::Keycloak(registry) => if !registry.managers@.contains_key(
                    dec_party_id@,
                ) {
                    step matches Err(AuthError::NoCredentials(party)) && party@ == dec_party_id@
                } else {
                    let manager = registry.managers@[dec_party_id@];
                    if manager.needs_renewal(now) {
                        match step {
                            Ok(CredentialsStep::Renew(request)) => manager.renews_by(
                                Ok::<RenewRequest, AuthError>(request),
                            ),
                            Ok(_) => false,
                            Err(e) => manager.renews_by(Err::<RenewRequest, AuthError>(e)),
                        }
                    } else {
                        step matches Ok(CredentialsStep::Ready(c)) && manager.gives(c)
                    }
                },
            },
    {
        match self {
            WorkflowAuth::Mock => Ok(CredentialsStep::Mock),
            WorkflowAuth::Keycloak(registry) => match registry.get(dec_party_id) {
                None => Err(AuthError::NoCredentials(dec_party_id.to_string())),
                Some(manager) => match manager.get_token(now) {
                    Err(e) => Err(e),
                    Ok(TokenStep::Renew(request)) => Ok(CredentialsStep::Renew(request)),
                    Ok(TokenStep::Ready(_)) => Ok(CredentialsStep::Ready(manager.credentials())),
                },
            },
        }
    }
}

/// A token is used for all of its life but the last minute, and not in that: it
/// is served at every moment from which on it lasts for more than a minute.
pub proof fn law_token_is_used_until_its_last_minute(
    manager: TokenManager,
    had_at: UnixTime,
    expires_in: u64,
    now: UnixTime,
)
    requires
        manager.state.expires_at == expiry(had_at, expires_in),
        had_at.secs + expires_in <= i64::MAX,
        expires_in >= EXPIRY_MARGIN_SECS,
    ensures
        !manager.needs_renewal(now) <==> now.secs < had_at.secs + expires_in - EXPIRY_MARGIN_SECS
            || now.secs == had_at.secs + expires_in - EXPIRY_MARGIN_SECS && now.nanos
            < had_at.nanos,
{
}

/// A token that lasts for more than a minute is served at the moment it is had.
pub proof fn law_new_token_is_served(manager: TokenManager, had_at: UnixTime, expires_in: u64)
    requires
        manager.state.expires_at == expiry(had_at, expires_in),
        had_at.secs + expires_in <= i64::MAX,
    ensures
        !manager.needs_renewal(had_at) <==> expires_in > EXPIRY_MARGIN_SECS,
{
}

/// A renewal that fails leaves the manager as it was.
pub proof fn law_failed_renewal_changes_nothing(
    before: TokenManager,
    reply: RenewReply,
    now: UnixTime,
    after: TokenManager,
    e: AuthError,
)
    requires
        TokenManager::renewed(
            before,
            reply,
            now,
            after,
            Err::<Option<RenewRequest>, AuthError>(e),
        ),
    ensures
        after == before,
{
}

/// After a refresh that succeeds, the credentials hold the token that it gave.
pub proof fn law_refreshed_token_is_given(
    before: TokenManager,
    response: TokenResponse,
    now: UnixTime,
    after: TokenManager,
    more: Result<Option<RenewRequest>, AuthError>,
    c: PartyAuthCredentials,
)
    requires
        TokenManager::renewed(before, RenewReply::Refreshed(Ok(response)), now, after, more),
        after.gives(c),
    ensures
        c.token == response.access_token,
        c.user_id@ == before.user_id@,
        c.member_party_id == before.member_party_id,
{
}

/// The token that an answer gives, where it gives one.
pub open spec fn token_in(reply: LoginReply) -> Option<String> {
    match reply {
        LoginReply::Keycloak(Ok(response)) => Some(response.access_token),
        LoginReply::Auth0(Ok(response)) => Some(response.access_token),
        _ => None,
    }
}

/// After a new sign-in that succeeds, the credentials hold the token that it
/// gave, and no further request is needed.
pub proof fn law_new_sign_in_token_is_given(
    before: TokenManager,
    login: LoginReply,
    now: UnixTime,
    after: TokenManager,
    more: Option<RenewRequest>,
    c: PartyAuthCredentials,
)
    requires
        reply_for(before.source, login),
        TokenManager::renewed(
            before,
            RenewReply::LoggedIn(login),
            now,
            after,
            Ok::<Option<RenewRequest>, AuthError>(more),
        ),
        after.gives(c),
    ensures
        more is None,
        token_in(login) == Some(c.token),
        c.user_id@ == before.user_id@,
        c.member_party_id == before.member_party_id,
{
}

/// A token for a machine is never refreshed.
pub proof fn law_machine_tokens_are_not_refreshed(
    manager: TokenManager,
    request: Result<RenewRequest, AuthError>,
)
    requires
        manager.state.is_m2m,
        manager.renews_by(request),
    ensures
        !(request matches Ok(RenewRequest::Refresh { .. })),
{
}

/// One party that cannot sign in does not stop another: each party that could
/// is in the registry, and each that could not is left out, where no two
/// parties have the same id.
pub proof fn law_parties_start_independently(
    parties: Seq<PartyCredentials>,
    attempts: Seq<Result<TokenManager, AuthError>>,
    i: int,
)
    requires
        attempts.len() <= parties.len(),
        0 <= i < attempts.len(),
        forall|a: int, b: int|
            0 <= a < b < parties.len() ==> #[trigger] parties[a].dec_party_id@
                != #[trigger] parties[b].dec_party_id@,
    ensures
        match attempts[i] {
            Ok(manager) => signed_in(parties, attempts).contains_key(parties[i].dec_party_id@)
                && signed_in(parties, attempts)[parties[i].dec_party_id@] == manager,
            Err(_) => !signed_in(parties, attempts).contains_key(parties[i].dec_party_id@),
        },
    decreases attempts.len(),
{
    let front = attempts.drop_last();
    let last = attempts.len() - 1;
    if i < last {
        law_parties_start_independently(parties, front, i);
        assert(front[i] == attempts[i]);
        assert(parties[i].dec_party_id@ != parties[last].dec_party_id@);
    } else {
        lemma_signed_in_from(parties, front, parties[i].dec_party_id@);
    }
}

/// What the registry holds for a party that signed in is the party's own: its
/// user, its member and the token that the answer gave.
pub proof fn law_parties_act_as_themselves(
    parties: Seq<PartyCredentials>,
    attempts: Seq<Result<TokenManager, AuthError>>,
    i: int,
    reply: LoginReply,
    now: UnixTime,
    c: PartyAuthCredentials,
)
    requires
        attempts.len() <= parties.len(),
        0 <= i < attempts.len(),
        forall|a: int, b: int|
            0 <= a < b < parties.len() ==> #[trigger] parties[a].dec_party_id@
                != #[trigger] parties[b].dec_party_id@,
        reply_for(source_of(parties[i]), reply),
        signs_in(parties[i], reply, now, attempts[i]),
        attempts[i] is Ok,
        signed_in(parties, attempts)[parties[i].dec_party_id@].gives(c),
    ensures
        signed_in(parties, attempts).contains_key(parties[i].dec_party_id@),
        c.user_id@ == parties[i].user_id@,
        c.member_party_id == parties[i].member_party_id,
        token_in(reply) == Some(c.token),
{
    law_parties_start_independently(parties, attempts, i);
}

/// Every id in the registry is that of a party before the last attempt.
proof fn lemma_signed_in_from(
    parties: Seq<PartyCredentials>,
    attempts: Seq<Result<TokenManager, AuthError>>,
    id: Seq<char>,
)
    requires
        attempts.len() <= parties.len(),
    ensures
        signed_in(parties, attempts).contains_key(id) ==> exists|i: int|
            0 <= i < attempts.len() && #[trigger] parties[i].dec_party_id@ == id,
    decreases attempts.len(),
{
    if attempts.len() > 0 {
        lemma_signed_in_from(parties, attempts.drop_last(), id);
        assert(parties[attempts.len() - 1].dec_party_id@
            == parties[attempts.len() - 1].dec_party_id@);
    }
}

/// There is an error at startup exactly where there are parties and none of
/// them could sign in.
pub proof fn law_error_only_when_all_fail(
    parties: Seq<PartyCredentials>,
    attempts: Seq<Result<TokenManager, AuthError>>,
)
    ensures
        (signed_in(parties, attempts) == Map::<Seq<char>, TokenManager>::empty() && failed_parties(
            parties,
            attempts,
        ).len() > 0) <==> attempts.len() > 0 && forall|i: int|
            0 <= i < attempts.len() ==> #[trigger] attempts[i] is Err,
    decreases attempts.len(),
{
    if attempts.len() > 0 {
        let front = attempts.drop_last();
        law_error_only_when_all_fail(parties, front);
        lemma_failed_or_signed_in(parties, front);
        if attempts.last() is Ok {
            let id = parties[attempts.len() - 1].dec_party_id@;
            assert(signed_in(parties, attempts).contains_key(id));
            assert(attempts[attempts.len() - 1] is Ok);
        } else if forall|i: int| 0 <= i < attempts.len() ==> #[trigger] attempts[i] is Err {
            assert forall|i: int| 0 <= i < front.len() implies #[trigger] front[i] is Err by {
                assert(attempts[i] is Err);
            }
        } else {
            let i = choose|i: int| 0 <= i < attempts.len() && !(#[trigger] attempts[i] is Err);
            assert(attempts[attempts.len() - 1] is Err);
            assert(!(front[i] is Err));
        }
        if forall|i: int| 0 <= i < front.len() ==> #[trigger] front[i] is Err {
            if attempts.last() is Err {
                assert forall|i: int|
                    0 <= i < attempts.len() implies #[trigger] attempts[i] is Err by {
                    if i < front.len() {
                        assert(front[i] is Err);
                    }
                }
            }
        }
    }
}

/// Where there are attempts, a party could sign in or one could not.
proof fn lemma_failed_or_signed_in(
    parties: Seq<PartyCredentials>,
    attempts: Seq<Result<TokenManager, AuthError>>,
)
    ensures
        attempts.len() > 0 ==> failed_parties(parties, attempts).len() > 0 || signed_in(
            parties,
            attempts,
        ) != Map::<Seq<char>, TokenManager>::empty(),
        attempts.len() == 0 ==> signed_in(parties, attempts) == Map::<
            Seq<char>,
            TokenManager,
        >::empty(),
    decreases attempts.len(),
{
    if attempts.len() > 0 {
        lemma_failed_or_signed_in(parties, attempts.drop_last());
        if attempts.last() is Ok {
            assert(signed_in(parties, attempts).contains_key(
                parties[attempts.len() - 1].dec_party_id@,
            ));
        }
    }
}

} // verus!
