//! What holds of the parties' tokens from one call to the next, said in terms of
//! what the servers answered and when.

use vstd::prelude::*;
use vstd::string::*;

use crate::auth;
use crate::auth::{
    Auth0Failure, Auth0TokenResponse, AuthError, AuthRegistry, CredentialsStep, LoginReply,
    LoginRequest, PartyAuthCredentials, RenewReply, RenewRequest, StartupReport, TokenManager,
    TokenResponse, TokenSource, TokenStep, UnixTime, WorkflowAuth,
};
use crate::config::{Auth0M2MConfig, CantonId, KeycloakConfig, PartyCredentials};
use crate::text;

verus! {

/// After a renewal that succeeds, by a refresh as by a new sign-in, with an answer
/// that lasts so many seconds from now on, the token is renewed at every moment
/// from a minute before its end on, and at none before that.
pub proof fn law_renewed_token_lasts(
    before: TokenManager,
    reply: RenewReply,
    now: UnixTime,
    after: TokenManager,
    expires_in: u64,
    later: UnixTime,
)
    requires
        reply matches RenewReply::LoggedIn(login) ==> auth::reply_for(before.source, login),
        TokenManager::renewed(
            before,
            reply,
            now,
            after,
            Ok::<Option<RenewRequest>, AuthError>(None),
        ),
        match reply {
            RenewReply::LoggedIn(LoginReply::Keycloak(Ok(response))) => expires_in
                == response.expires_in,
            RenewReply::LoggedIn(LoginReply::Auth0(Ok(response))) => expires_in
                == response.expires_in,
            RenewReply::Refreshed(Ok(response)) => expires_in == response.expires_in,
            _ => false,
        },
        now.secs + expires_in <= i64::MAX,
    ensures
        expires_in >= 60 ==> (after.needs_renewal(later) <==> later.secs > now.secs + expires_in
            - 60 || later.secs == now.secs + expires_in - 60 && later.nanos >= now.nanos),
        expires_in < 60 ==> (after.needs_renewal(later) <==> later.secs > now.secs || later.secs
            == now.secs && later.nanos >= now.nanos),
{
}

/// The first token of a party is renewed from a minute before its end on, and not
/// before that.
pub proof fn law_first_token_lasts(
    party: PartyCredentials,
    reply: LoginReply,
    now: UnixTime,
    manager: TokenManager,
    expires_in: u64,
    later: UnixTime,
)
    requires
        auth::reply_for(auth::source_of(party), reply),
        auth::signs_in(party, reply, now, Ok::<TokenManager, AuthError>(manager)),
        match reply {
            LoginReply::Keycloak(Ok(response)) => expires_in == response.expires_in,
            LoginReply::Auth0(Ok(response)) => expires_in == response.expires_in,
            _ => false,
        },
        now.secs + expires_in <= i64::MAX,
    ensures
        expires_in >= 60 ==> (manager.needs_renewal(later) <==> later.secs > now.secs + expires_in
            - 60 || later.secs == now.secs + expires_in - 60 && later.nanos >= now.nanos),
        expires_in < 60 ==> (manager.needs_renewal(later) <==> later.secs > now.secs || later.secs
            == now.secs && later.nanos >= now.nanos),
{
}

/// A token whose end is beyond the clock's reach is renewed at once.
pub proof fn law_unreachable_ends_are_not_waited_for(
    before: TokenManager,
    response: TokenResponse,
    now: UnixTime,
    after: TokenManager,
    more: Result<Option<RenewRequest>, AuthError>,
)
    requires
        TokenManager::renewed(before, RenewReply::Refreshed(Ok(response)), now, after, more),
        response.expires_in >= 60,
        now.secs + response.expires_in - 60 > i64::MAX,
    ensures
        after.needs_renewal(now),
{
}

/// A token is handed out exactly before the moment from which on it is renewed,
/// and it is the one that is held.
pub proof fn law_tokens_are_handed_out_in_time(
    manager: TokenManager,
    now: UnixTime,
    step: Result<TokenStep, AuthError>,
)
    requires
        call_ensures(TokenManager::get_token, (&manager, now), step),
    ensures
        (step matches Ok(TokenStep::Ready(_))) <==> now.secs < manager.state.expires_at.secs
            || now.secs == manager.state.expires_at.secs && now.nanos
            < manager.state.expires_at.nanos,
        step matches Ok(TokenStep::Ready(token)) ==> token == manager.state.access_token,
{
}

/// What a refresh gave is handed out until a minute before its end, whatever the
/// manager held before.
pub proof fn law_refreshed_token_is_handed_out(
    before: TokenManager,
    response: TokenResponse,
    now: UnixTime,
    after: TokenManager,
    more: Result<Option<RenewRequest>, AuthError>,
    later: UnixTime,
    step: Result<TokenStep, AuthError>,
)
    requires
        TokenManager::renewed(before, RenewReply::Refreshed(Ok(response)), now, after, more),
        call_ensures(TokenManager::get_token, (&after, later), step),
        response.expires_in >= 60,
        now.secs + response.expires_in <= i64::MAX,
    ensures
        more == Ok::<Option<RenewRequest>, AuthError>(None),
        later.secs < now.secs + response.expires_in - 60 || later.secs == now.secs
            + response.expires_in - 60 && later.nanos < now.nanos ==> step == Ok::<
            TokenStep,
            AuthError,
        >(TokenStep::Ready(response.access_token)),
        later.secs > now.secs + response.expires_in - 60 || later.secs == now.secs
            + response.expires_in - 60 && later.nanos >= now.nanos ==> !(step matches Ok(
            TokenStep::Ready(_),
        )),
{
}

/// A user's token is refreshed with the refresh token that came last, at the
/// server, realm and client of the party.
pub proof fn law_refresh_token_is_the_last_one(
    before: TokenManager,
    config: KeycloakConfig,
    response: TokenResponse,
    now: UnixTime,
    after: TokenManager,
    more: Result<Option<RenewRequest>, AuthError>,
    request: Result<RenewRequest, AuthError>,
)
    requires
        before.source == TokenSource::Keycloak(config),
        !before.state.is_m2m,
        TokenManager::renewed(before, RenewReply::Refreshed(Ok(response)), now, after, more),
        after.renews_by(request),
    ensures
        request matches Ok(RenewRequest::Refresh { url, realm, client_id, refresh_token }) && url
            == config.url && realm == config.realm && client_id == config.client_id
            && refresh_token == response.refresh_token,
{
}

/// How the first token of a party is renewed goes by its credentials: with a
/// client at Auth0, by signing in there; else with a client secret, by signing in
/// with that; else by a refresh, with the refresh token that came with it.
pub proof fn law_renewal_goes_by_the_credentials(
    party: PartyCredentials,
    reply: LoginReply,
    now: UnixTime,
    manager: TokenManager,
    request: Result<RenewRequest, AuthError>,
)
    requires
        auth::reply_for(auth::source_of(party), reply),
        auth::signs_in(party, reply, now, Ok::<TokenManager, AuthError>(manager)),
        manager.renews_by(request),
    ensures
        party.auth0 is Some <==> (request matches Ok(RenewRequest::Login(LoginRequest::Auth0 {
            ..
        }))),
        party.auth0 is None && party.keycloak.client_secret is Some <==> (request matches Ok(
            RenewRequest::Login(LoginRequest::KeycloakClientCredentials { .. }),
        )),
        party.auth0 is None && party.keycloak.client_secret is None <==> (request matches Ok(
            RenewRequest::Refresh { .. },
        )),
        request matches Ok(
            RenewRequest::Login(
                LoginRequest::KeycloakClientCredentials { url, realm, client_id, client_secret },
            ),
        ) ==> url == party.keycloak.url && realm == party.keycloak.realm && client_id
            == party.keycloak.client_id && party.keycloak.client_secret == Some(client_secret),
        request matches Ok(
            RenewRequest::Refresh { url, realm, client_id, refresh_token },
        ) ==> url == party.keycloak.url && realm == party.keycloak.realm && client_id
            == party.keycloak.client_id && (reply matches LoginReply::Keycloak(Ok(response))
            && response.refresh_token == refresh_token),
{
}

/// A client of Keycloak asks for its first token with its own server, realm and
/// name: with its secret where it has one, else with its user's name and password;
/// what is missing is told.
pub proof fn law_keycloak_is_asked_with_the_clients_own(
    config: KeycloakConfig,
    request: Result<LoginRequest, AuthError>,
)
    requires
        auth::asks(TokenSource::Keycloak(config), request),
    ensures
        config.client_secret is Some <==> (request matches Ok(
            LoginRequest::KeycloakClientCredentials { .. },
        )),
        config.client_secret is None && config.username is Some && config.password is Some <==> (
        request matches Ok(LoginRequest::KeycloakPassword { .. })),
        config.client_secret is None && config.username is None <==> (request matches Err(
            AuthError::MissingUsername,
        )),
        config.client_secret is None && config.username is Some && config.password is None <==> (
        request matches Err(AuthError::MissingPassword)),
        request matches Ok(
            LoginRequest::KeycloakClientCredentials { url, realm, client_id, client_secret },
        ) ==> url == config.url && realm == config.realm && client_id == config.client_id
            && config.client_secret == Some(client_secret),
        request matches Ok(
            LoginRequest::KeycloakPassword { url, realm, client_id, username, password },
        ) ==> url == config.url && realm == config.realm && client_id == config.client_id
            && config.username == Some(username) && config.password == Some(password),
{
}

/// Auth0 is asked, in this order, for a token of a machine with the client's name,
/// its secret and its audience.
pub proof fn law_auth0_is_asked_with_the_clients_own(
    config: Auth0M2MConfig,
    request: Result<LoginRequest, AuthError>,
)
    requires
        auth::asks(TokenSource::Auth0(config), request),
    ensures
        request matches Ok(LoginRequest::Auth0 { token_url, fields }) && fields@.len() == 4
            && fields@[0].0@ == "grant_type"@ && fields@[0].1@ == "client_credentials"@
            && fields@[1].0@ == "client_id"@ && fields@[1].1@ == config.client_id@
            && fields@[2].0@ == "client_secret"@ && fields@[2].1@ == config.client_secret@
            && fields@[3].0@ == "audience"@ && fields@[3].1@ == config.audience@,
{
    if let Ok(LoginRequest::Auth0 { token_url, fields }) = request {
        let told = crate::outside::field_texts(fields@);
        let wanted = auth::auth0_fields(config);
        assert(told.len() == 4);
        assert(told[0] == wanted[0]);
        assert(told[1] == wanted[1]);
        assert(told[2] == wanted[2]);
        assert(told[3] == wanted[3]);
    }
}

/// Slashes after a domain of Auth0 make no difference to where its tokens are, and
/// the domain itself stands between the scheme and the path.
pub proof fn law_auth0_domain_slashes_do_not_matter(domain: Seq<char>)
    ensures
        auth::auth0_token_url(domain.push('/')) == auth::auth0_token_url(domain),
        domain.len() == 0 || domain.last() != '/' ==> auth::auth0_token_url(domain) == "https://"@
            + domain + "/oauth/token"@,
{
    assert(domain.push('/').drop_last() =~= domain);
    assert(domain.push('/').last() == '/');
    reveal_with_fuel(text::without_trailing, 2);
}

/// Parties that are asked for in the same way at Keycloak have the same server,
/// realm and client.
pub proof fn law_logins_tell_clients_apart(
    first: KeycloakConfig,
    second: KeycloakConfig,
    request: LoginRequest,
)
    requires
        auth::asks(TokenSource::Keycloak(first), Ok::<LoginRequest, AuthError>(request)),
        auth::asks(TokenSource::Keycloak(second), Ok::<LoginRequest, AuthError>(request)),
    ensures
        first.url == second.url,
        first.realm == second.realm,
        first.client_id == second.client_id,
        first.client_secret == second.client_secret,
        first.client_secret is None ==> first.username == second.username && first.password
            == second.password,
{
}

/// A sign-in fails exactly where the answer holds no token, and then with the
/// server's reason: as a machine's at Auth0 and with a client secret, else as a
/// user's. Where the party's own name or password is missing, that is told.
pub proof fn law_failed_sign_in_says_why(
    party: PartyCredentials,
    reply: LoginReply,
    now: UnixTime,
    manager: Result<TokenManager, AuthError>,
)
    requires
        auth::reply_for(auth::source_of(party), reply),
        auth::signs_in(party, reply, now, manager),
    ensures
        party.auth0 is Some ==> (manager is Ok <==> (reply matches LoginReply::Auth0(Ok(_)))),
        party.auth0 is None && party.keycloak.client_secret is Some ==> (manager is Ok <==> (
        reply matches LoginReply::Keycloak(Ok(_)))),
        party.auth0 is None && party.keycloak.client_secret is None ==> (manager is Ok <==> (
        reply matches LoginReply::Keycloak(Ok(_))) && party.keycloak.username is Some
            && party.keycloak.password is Some),
        manager matches Err(AuthError::M2MAuthFailed(told)) ==> match reply {
            LoginReply::Keycloak(Err(reason)) => told == reason && party.keycloak.client_secret
                is Some,
            LoginReply::Auth0(Err(failure)) => told@ == failure.said(),
            _ => false,
        },
        manager matches Err(AuthError::PasswordAuthFailed(told)) ==> reply == LoginReply::Keycloak(
            Err(told),
        ) && party.keycloak.client_secret is None,
        manager matches Err(AuthError::MissingUsername) ==> party.auth0 is None
            && party.keycloak.username is None && party.keycloak.client_secret is None,
        manager matches Err(AuthError::MissingPassword) ==> party.auth0 is None
            && party.keycloak.password is None && party.keycloak.client_secret is None,
        !(manager matches Err(AuthError::RefreshFailed(_))),
        !(manager matches Err(AuthError::NoCredentials(_))),
{
}

/// A party that signed in acts as its own user and member, with its own source.
pub proof fn law_managers_are_the_partys_own(
    party: PartyCredentials,
    reply: LoginReply,
    now: UnixTime,
    manager: TokenManager,
)
    requires
        auth::signs_in(party, reply, now, Ok::<TokenManager, AuthError>(manager)),
    ensures
        manager.user_id == party.user_id,
        manager.member_party_id == party.member_party_id,
        party.auth0 matches Some(config) ==> manager.source == TokenSource::Auth0(config),
        party.auth0 is None ==> manager.source == TokenSource::Keycloak(party.keycloak),
{
}

/// A renewal keeps whose tokens they are and where they come from.
pub proof fn law_renewal_keeps_the_party(
    before: TokenManager,
    reply: RenewReply,
    now: UnixTime,
    after: TokenManager,
    more: Result<Option<RenewRequest>, AuthError>,
)
    requires
        TokenManager::renewed(before, reply, now, after, more),
    ensures
        after.source == before.source,
        after.user_id == before.user_id,
        after.member_party_id == before.member_party_id,
        reply is Refreshed ==> after.state.is_m2m == before.state.is_m2m,
{
}

/// A refresh that is refused because the refresh token has expired leads to a new
/// sign-in, and never to the refusal itself; any other refusal is told as it came,
/// and leads to nothing more.
pub proof fn law_expired_refresh_leads_to_sign_in(
    before: TokenManager,
    front: Seq<char>,
    back: Seq<char>,
    reason: String,
    now: UnixTime,
    after: TokenManager,
    more: Result<Option<RenewRequest>, AuthError>,
)
    requires
        TokenManager::renewed(before, RenewReply::Refreshed(Err(reason)), now, after, more),
    ensures
        after == before,
        reason@ == front + "Token is not active"@ + back ==> match more {
            Ok(next) => next matches Some(RenewRequest::Login(_)),
            Err(e) => e is MissingUsername || e is MissingPassword,
        },
        (forall|a: Seq<char>, b: Seq<char>|
            reason@ != #[trigger] (a + "Token is not active"@ + b)) <==> (more matches Err(
            AuthError::RefreshFailed(_),
        )),
        more matches Err(AuthError::RefreshFailed(told)) ==> told == reason,
        more matches Ok(Some(RenewRequest::Login(login))) ==> auth::asks(
            before.source,
            Ok::<LoginRequest, AuthError>(login),
        ),
        more matches Err(AuthError::MissingUsername) ==> (
        before.source matches TokenSource::Keycloak(config) && config.client_secret is None
            && config.username is None),
        more matches Err(AuthError::MissingPassword) ==> (
        before.source matches TokenSource::Keycloak(config) && config.client_secret is None
            && config.username is Some && config.password is None),
        !(more matches Err(AuthError::M2MAuthFailed(_))),
        !(more matches Err(AuthError::PasswordAuthFailed(_))),
        !(more matches Err(AuthError::NoCredentials(_))),
{
    let needle = "Token is not active"@;
    reveal_strlit("Token is not active");
    if reason@ == front + needle + back {
        assert(reason@.subrange(
            front.len() as int,
            (front.len() + needle.len()) as int,
        ) =~= needle);
        assert(text::occurs_at(reason@, needle, front.len() as int));
    }
    if text::occurs_in(reason@, needle) {
        let k = choose|k: int| text::occurs_at(reason@, needle, k);
        let a = reason@.take(k);
        let b = reason@.skip(k + needle.len());
        assert(reason@ =~= (a + needle) + b);
    } else {
        assert forall|a: Seq<char>, b: Seq<char>| reason@ != #[trigger] (a + needle + b) by {
            if reason@ == a + needle + b {
                assert(reason@.subrange(a.len() as int, (a.len() + needle.len()) as int)
                    =~= needle);
                assert(text::occurs_at(reason@, needle, a.len() as int));
            }
        }
    }
}

/// A new sign-in that is refused is told for the server's reason: as a machine's at
/// Auth0 and with a client secret, else as a user's. One that succeeds leaves the
/// answer's token and asks for nothing more.
pub proof fn law_new_sign_in_is_told_as_it_went(
    before: TokenManager,
    login: LoginReply,
    now: UnixTime,
    after: TokenManager,
    more: Result<Option<RenewRequest>, AuthError>,
)
    requires
        auth::reply_for(before.source, login),
        TokenManager::renewed(before, RenewReply::LoggedIn(login), now, after, more),
    ensures
        more is Ok ==> more == Ok::<Option<RenewRequest>, AuthError>(None),
        login matches LoginReply::Auth0(Ok(response)) ==> more is Ok && after.state.access_token
            == response.access_token && after.state.is_m2m,
        login matches LoginReply::Auth0(Err(failure)) ==> (more matches Err(
            AuthError::M2MAuthFailed(told),
        ) && told@ == failure.said()),
        login matches LoginReply::Keycloak(Ok(response)) ==> (more is Ok ==> after.state.access_token
            == response.access_token && after.state.refresh_token == response.refresh_token),
        before.source matches TokenSource::Keycloak(config) ==> (config.client_secret is Some ==> (
        more is Ok <==> (login matches LoginReply::Keycloak(Ok(_))))),
        before.source matches TokenSource::Keycloak(config) ==> (config.client_secret is Some
            && more is Ok ==> after.state.is_m2m),
        before.source matches TokenSource::Keycloak(config) ==> (config.client_secret is None
            && more is Ok ==> !after.state.is_m2m),
        before.source matches TokenSource::Keycloak(config) ==> (config.client_secret is None
            && config.username is Some && config.password is Some ==> (more is Ok <==> (
        login matches LoginReply::Keycloak(Ok(_))))),
        before.source matches TokenSource::Keycloak(config) ==> (config.client_secret is Some ==> (
        login matches LoginReply::Keycloak(Err(reason)) ==> more == Err::<
            Option<RenewRequest>,
            AuthError,
        >(AuthError::M2MAuthFailed(reason)))),
        before.source matches TokenSource::Keycloak(config) ==> (config.client_secret is None
            && config.username is Some && config.password is Some ==> (
        login matches LoginReply::Keycloak(Err(reason)) ==> more == Err::<
            Option<RenewRequest>,
            AuthError,
        >(AuthError::PasswordAuthFailed(reason)))),
        more is Err ==> after == before,
{
}

/// What an operator is told of an error ends with its reason.
pub proof fn law_errors_tell_their_reason(reason: String, e: AuthError)
    requires
        e == AuthError::M2MAuthFailed(reason) || e == AuthError::PasswordAuthFailed(reason) || e
            == AuthError::RefreshFailed(reason) || e == AuthError::NoCredentials(reason),
    ensures
        e.said().len() > reason@.len(),
        e.said().skip(e.said().len() - reason@.len()) == reason@,
{
    reveal_strlit("Keycloak M2M authentication failed: ");
    reveal_strlit("Keycloak password authentication failed: ");
    reveal_strlit("Token refresh failed: ");
    reveal_strlit("No credentials configured for party: ");
    assert(e.said().skip(e.said().len() - reason@.len()) =~= reason@);
}

/// The parties that failed are told, each one with its reason, and no other party
/// is.
pub proof fn law_each_failure_is_told(
    parties: Seq<PartyCredentials>,
    attempts: Seq<Result<TokenManager, AuthError>>,
)
    requires
        attempts.len() <= parties.len(),
    ensures
        auth::startup_warnings(parties, attempts).len() == auth::failed_parties(
            parties,
            attempts,
        ).len(),
        forall|i: int|
            0 <= i < attempts.len() && (#[trigger] attempts[i]) is Err ==> exists|k: int|
                0 <= k < auth::failed_parties(parties, attempts).len() && #[trigger]
                auth::failed_parties(parties, attempts)[k] == parties[i].dec_party_id@
                    && auth::startup_warnings(parties, attempts)[k]
                    == "Failed to initialize auth for dec_party="@ + parties[i].dec_party_id@
                    + ": "@ + attempts[i]->Err_0.said()
                    + ". Skipping — workflows for this party will fail until credentials are fixed."@,
        forall|k: int|
            0 <= k < auth::failed_parties(parties, attempts).len() ==> exists|i: int|
                0 <= i < attempts.len() && (#[trigger] attempts[i]) is Err && (
                #[trigger] auth::failed_parties(parties, attempts)[k])
                    == parties[i].dec_party_id@,
    decreases attempts.len(),
{
    if attempts.len() > 0 {
        let front = attempts.drop_last();
        let last = attempts.len() - 1;
        law_each_failure_is_told(parties, front);
        let failed = auth::failed_parties(parties, attempts);
        let earlier = auth::failed_parties(parties, front);
        let warned = auth::startup_warnings(parties, attempts);
        assert forall|i: int| 0 <= i < attempts.len() && (#[trigger] attempts[i]) is Err implies
            exists|k: int|
                0 <= k < failed.len() && #[trigger] failed[k] == parties[i].dec_party_id@
                    && warned[k] == "Failed to initialize auth for dec_party="@
                    + parties[i].dec_party_id@ + ": "@ + attempts[i]->Err_0.said()
                    + ". Skipping — workflows for this party will fail until credentials are fixed."@
        by {
            if i < last {
                assert(front[i] is Err);
                let k = choose|k: int|
                    0 <= k < earlier.len() && #[trigger] earlier[k] == parties[i].dec_party_id@
                        && auth::startup_warnings(parties, front)[k]
                        == "Failed to initialize auth for dec_party="@
                        + parties[i].dec_party_id@ + ": "@ + front[i]->Err_0.said()
                        + ". Skipping — workflows for this party will fail until credentials are fixed."@;
                assert(failed[k] == earlier[k]);
            } else {
                assert(failed[failed.len() - 1] == parties[i].dec_party_id@);
            }
        }
        assert forall|k: int| 0 <= k < failed.len() implies exists|i: int|
            0 <= i < attempts.len() && (#[trigger] attempts[i]) is Err && (#[trigger] failed[k])
                == parties[i].dec_party_id@ by {
            if k < earlier.len() {
                assert(failed[k] == earlier[k]);
                let i = choose|i: int|
                    0 <= i < front.len() && (#[trigger] front[i]) is Err && earlier[k]
                        == parties[i].dec_party_id@;
                assert(attempts[i] is Err);
            } else {
                assert(attempts[last] is Err);
            }
        }
    }
}

/// Where no party could sign in, the error names every party, in order.
pub proof fn law_outage_names_every_party(
    parties: Seq<PartyCredentials>,
    attempts: Seq<Result<TokenManager, AuthError>>,
)
    requires
        attempts.len() <= parties.len(),
        forall|i: int| 0 <= i < attempts.len() ==> #[trigger] attempts[i] is Err,
    ensures
        auth::failed_parties(parties, attempts).len() == attempts.len(),
        forall|i: int|
            0 <= i < attempts.len() ==> #[trigger] auth::failed_parties(parties, attempts)[i]
                == parties[i].dec_party_id@,
    decreases attempts.len(),
{
    if attempts.len() > 0 {
        let front = attempts.drop_last();
        assert forall|i: int| 0 <= i < front.len() implies #[trigger] front[i] is Err by {
            assert(attempts[i] is Err);
        }
        law_outage_names_every_party(parties, front);
        assert(attempts[attempts.len() - 1] is Err);
    }
}

/// A node that presents its parties' tokens acts for a party with the token of
/// that party, and for no party that has none.
pub proof fn law_credentials_are_the_partys_own(
    registry: AuthRegistry,
    party: CantonId,
    now: UnixTime,
    step: Result<CredentialsStep, AuthError>,
)
    requires
        call_ensures(
            WorkflowAuth::get_credentials,
            (&WorkflowAuth::Keycloak(registry), &party, now),
            step,
        ),
    ensures
        !registry.managers@.contains_key(party@) <==> (step matches Err(
            AuthError::NoCredentials(_),
        )),
        step matches Err(AuthError::NoCredentials(told)) ==> told@ == party@,
        !(step matches Ok(CredentialsStep::Mock)),
        step matches Ok(CredentialsStep::Ready(c)) ==> {
            let manager = registry.managers@[party@];
            &&& c.token == manager.state.access_token
            &&& c.user_id@ == manager.user_id@
            &&& c.member_party_id == manager.member_party_id
        },
        registry.managers@.contains_key(party@) ==> {
            let ends = registry.managers@[party@].state.expires_at;
            (step matches Ok(CredentialsStep::Ready(_))) <==> now.secs < ends.secs || now.secs
                == ends.secs && now.nanos < ends.nanos
        },
{
}

/// A node without sign-in has the same credentials for every party at all times.
pub proof fn law_mock_credentials_are_for_all(
    party: CantonId,
    now: UnixTime,
    step: Result<CredentialsStep, AuthError>,
)
    requires
        call_ensures(WorkflowAuth::get_credentials, (&WorkflowAuth::Mock, &party, now), step),
    ensures
        step == Ok::<CredentialsStep, AuthError>(CredentialsStep::Mock),
{
}

/// What the answer for one party changes is that party's token only: the others
/// keep theirs, and no party comes or goes. A party without tokens is told, and
/// nothing changes.
pub proof fn law_renewals_are_kept_apart(
    before: Map<Seq<char>, TokenManager>,
    party: Seq<char>,
    reply: RenewReply,
    now: UnixTime,
    after: Map<Seq<char>, TokenManager>,
    more: Result<Option<RenewRequest>, AuthError>,
    other: Seq<char>,
)
    requires
        AuthRegistry::renews(before, party, reply, now, after, more),
    ensures
        after.contains_key(other) <==> before.contains_key(other),
        other != party && before.contains_key(other) ==> after[other] == before[other],
        !before.contains_key(party) ==> (more matches Err(AuthError::NoCredentials(told)) && told@
            == party),
        before.contains_key(party) ==> after[party].user_id == before[party].user_id
            && after[party].member_party_id == before[party].member_party_id && after[party].source
            == before[party].source,
        before.contains_key(party) ==> (reply matches RenewReply::Refreshed(Ok(response)) ==> (
        after[party].state.access_token == response.access_token
            && after[party].state.refresh_token == response.refresh_token)),
        before.contains_key(party) && more is Err ==> after[party] == before[party],
{
    if before.contains_key(party) && other != party {
        assert(after.remove(party).contains_key(other) == before.remove(party).contains_key(
            other,
        ));
        if before.contains_key(other) {
            assert(after.remove(party)[other] == before.remove(party)[other]);
        }
    }
}

/// The ways to look a party up agree: by its id, by the text of its id, and by
/// whether there are tokens of it.
pub proof fn law_lookups_agree(
    registry: AuthRegistry,
    party: CantonId,
    id: &str,
    by_id: Option<&TokenManager>,
    by_text: Option<&TokenManager>,
    there: bool,
    found: Option<PartyAuthCredentials>,
)
    requires
        id@ == party@,
        call_ensures(AuthRegistry::get, (&registry, &party), by_id),
        call_ensures(AuthRegistry::get_by_str, (&registry, id), by_text),
        call_ensures(AuthRegistry::has_credentials, (&registry, &party), there),
        call_ensures(AuthRegistry::credentials, (&registry, &party), found),
    ensures
        by_id == by_text,
        by_id is Some <==> there,
        found is Some <==> there,
        there <==> registry.managers@.contains_key(party@),
        by_id matches Some(manager) ==> *manager == registry.managers@[party@],
        found matches Some(c) ==> c.token == registry.managers@[party@].state.access_token
            && c.user_id@ == registry.managers@[party@].user_id@ && c.member_party_id
            == registry.managers@[party@].member_party_id,
{
}

/// The ids that are listed are those of the parties with tokens, each once.
pub proof fn law_listed_parties_have_tokens(
    registry: AuthRegistry,
    ids: Vec<&String>,
    party: Seq<char>,
)
    requires
        call_ensures(AuthRegistry::party_ids, (&registry,), ids),
    ensures
        registry.managers@.contains_key(party) <==> exists|i: int|
            0 <= i < ids@.len() && (#[trigger] ids@[i])@ == party,
        forall|i: int, j: int|
            0 <= i < j < ids@.len() ==> (#[trigger] ids@[i])@ != (#[trigger] ids@[j])@,
{
}

/// A manager is made for the user and the member that it is asked for, at the
/// client that answered, and holds the token of the answer.
pub proof fn law_new_managers_are_for_who_is_asked(
    config: KeycloakConfig,
    auth0: Auth0M2MConfig,
    user_id: String,
    member: CantonId,
    response: TokenResponse,
    machine: Auth0TokenResponse,
    now: UnixTime,
    first: Result<TokenManager, AuthError>,
    second: Result<TokenManager, AuthError>,
)
    requires
        call_ensures(
            TokenManager::new,
            (config, user_id, member, Ok::<TokenResponse, String>(response), now),
            first,
        ),
        call_ensures(
            TokenManager::new_auth0,
            (auth0, user_id, member, Ok::<Auth0TokenResponse, Auth0Failure>(machine), now),
            second,
        ),
    ensures
        first matches Ok(m) ==> m.user_id == user_id && m.member_party_id == member && m.source
            == TokenSource::Keycloak(config) && m.state.access_token == response.access_token
            && m.state.refresh_token == response.refresh_token,
        first is Ok <==> config.client_secret is Some || config.username is Some
            && config.password is Some,
        second matches Ok(m) && m.user_id == user_id && m.member_party_id == member && m.source
            == TokenSource::Auth0(auth0) && m.state.access_token == machine.access_token
            && m.state.refresh_token@.len() == 0,
{
}

/// What Auth0's failures are told as ends with what is known of them.
pub proof fn law_auth0_failures_tell_their_detail(failure: Auth0Failure)
    ensures
        failure matches Auth0Failure::Request(e) ==> failure.said() == "Auth0 request failed: "@
            + e@,
        failure matches Auth0Failure::Status(status, body) ==> failure.said()
            == "Auth0 token endpoint returned "@ + status@ + ": "@ + body@,
        failure matches Auth0Failure::Parse(e) ==> failure.said()
            == "Auth0 response parse failed: "@ + e@,
{
}

/// Where no party could sign in the operator is told how many there are and each
/// of their ids, with a comma between two.
pub proof fn law_outage_is_told_in_full(failed: Seq<Seq<char>>)
    ensures
        auth::outage_notice(failed) == "Authentication failed for all "@ + text::decimal(
            failed.len(),
        ) + " configured parties: "@ + text::joined(failed, ", "@)
            + ". This node can run no workflow until the credentials are fixed."@,
{
}

/// Of several attempts for one party the last that succeeded counts, and there are
/// tokens of a party exactly where one did.
pub proof fn law_last_sign_in_counts(
    parties: Seq<PartyCredentials>,
    attempts: Seq<Result<TokenManager, AuthError>>,
    i: int,
    id: Seq<char>,
)
    requires
        attempts.len() <= parties.len(),
    ensures
        auth::signed_in(parties, attempts).contains_key(id) <==> exists|k: int|
            0 <= k < attempts.len() && (#[trigger] attempts[k]) is Ok && parties[k].dec_party_id@
                == id,
        0 <= i < attempts.len() && attempts[i] is Ok && parties[i].dec_party_id@ == id && (
        forall|j: int|
            i < j < attempts.len() && (#[trigger] attempts[j]) is Ok ==> parties[j].dec_party_id@
                != id) ==> auth::signed_in(parties, attempts)[id] == attempts[i]->Ok_0,
    decreases attempts.len(),
{
    if attempts.len() > 0 {
        let front = attempts.drop_last();
        let last = attempts.len() - 1;
        law_last_sign_in_counts(parties, front, i, id);
        if exists|k: int|
            0 <= k < attempts.len() && (#[trigger] attempts[k]) is Ok && parties[k].dec_party_id@
                == id {
            let k = choose|k: int|
                0 <= k < attempts.len() && (#[trigger] attempts[k]) is Ok
                    && parties[k].dec_party_id@ == id;
            if k < last {
                assert(front[k] is Ok);
            }
        }
        if exists|k: int|
            0 <= k < front.len() && (#[trigger] front[k]) is Ok && parties[k].dec_party_id@ == id {
            let k = choose|k: int|
                0 <= k < front.len() && (#[trigger] front[k]) is Ok && parties[k].dec_party_id@
                    == id;
            assert(attempts[k] is Ok);
        }
        if attempts.last() is Ok && parties[last].dec_party_id@ == id {
            assert(attempts[last] is Ok);
        }
        if 0 <= i < last && attempts[i] is Ok && parties[i].dec_party_id@ == id && (forall|j: int|
            i < j < attempts.len() && (#[trigger] attempts[j]) is Ok ==> parties[j].dec_party_id@
                != id) {
            assert(front[i] is Ok);
            assert forall|j: int|
                i < j < front.len() && (#[trigger] front[j]) is Ok implies parties[j].dec_party_id@
                != id by {
                assert(attempts[j] is Ok);
            }
            if attempts[last] is Ok {
                assert(parties[last].dec_party_id@ != id);
            }
        }
    }
}

/// A startup ends with an error exactly where there are parties and none of them
/// could sign in, warns once for each that could not, and keeps the tokens of those
/// that could.
pub proof fn law_startup_is_told_as_it_went(
    parties: Vec<PartyCredentials>,
    attempts: Vec<Result<TokenManager, AuthError>>,
    started: (AuthRegistry, StartupReport),
    id: Seq<char>,
)
    requires
        attempts@.len() == parties@.len(),
        call_ensures(AuthRegistry::new, (&parties, attempts), started),
    ensures
        started.1.error is Some <==> attempts@.len() > 0 && forall|i: int|
            0 <= i < attempts@.len() ==> #[trigger] attempts@[i] is Err,
        started.0.managers@.contains_key(id) <==> exists|k: int|
            0 <= k < attempts@.len() && (#[trigger] attempts@[k]) is Ok
                && parties@[k].dec_party_id@ == id,
        started.1.warnings@.len() == auth::failed_parties(parties@, attempts@).len(),
{
    auth::law_error_only_when_all_fail(parties@, attempts@);
    law_last_sign_in_counts(parties@, attempts@, 0, id);
    law_each_failure_is_told(parties@, attempts@);
    assert(text::texts(started.1.warnings@).len() == started.1.warnings@.len());
}

/// As many parties are told as failed as attempts failed.
pub proof fn law_failures_are_counted(
    parties: Seq<PartyCredentials>,
    attempts: Seq<Result<TokenManager, AuthError>>,
)
    ensures
        auth::failed_parties(parties, attempts).len() == attempts.filter(
            |a: Result<TokenManager, AuthError>| a is Err,
        ).len(),
    decreases attempts.len(),
{
    reveal(Seq::filter);
    if attempts.len() > 0 {
        law_failures_are_counted(parties, attempts.drop_last());
    }
}

} // verus!
