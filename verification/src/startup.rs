//! From the command line to the node's configuration.

use vstd::prelude::*;
use vstd::string::*;

use crate::cli::Commands;
use crate::config::{Auth0Config, CantonTlsConfig, KeycloakConfig, NodeConfig};
use crate::text;

verus! {

/// The TLS options of one connection to Canton.
pub struct TlsOverrides<'a> {
    pub enabled: &'a Option<bool>,
    pub ca_cert: &'a Option<String>,
    pub client_cert: &'a Option<String>,
    pub client_key: &'a Option<String>,
    pub domain: &'a Option<String>,
}

/// What an option says, or what held before where it was not given.
pub open spec fn given_or<T>(given: Option<T>, before: T) -> T {
    match given {
        Some(value) => value,
        None => before,
    }
}

/// An optional setting: what was given, or what held before.
pub open spec fn either<T>(given: Option<T>, before: Option<T>) -> Option<T> {
    match given {
        Some(value) => Some(value),
        None => before,
    }
}

/// The TLS settings after the options were applied.
pub open spec fn tls_after(before: CantonTlsConfig, given: TlsOverrides<'_>) -> CantonTlsConfig {
    CantonTlsConfig {
        enabled: given_or(*given.enabled, before.enabled),
        ca_cert: either(*given.ca_cert, before.ca_cert),
        client_cert: either(*given.client_cert, before.client_cert),
        client_key: either(*given.client_key, before.client_key),
        domain: either(*given.domain, before.domain),
    }
}

/// Applies the TLS options that were given, and leaves the rest as it is.
pub fn apply_tls_overrides(tls: &mut CantonTlsConfig, overrides: TlsOverrides<'_>)
    ensures
        *final(tls) == tls_after(*old(tls), overrides),
{
    if let Some(enabled) = overrides.enabled {
        tls.enabled = *enabled;
    }
    if let Some(path) = overrides.ca_cert {
        tls.ca_cert = Some(path.clone());
    }
    if let Some(path) = overrides.client_cert {
        tls.client_cert = Some(path.clone());
    }
    if let Some(path) = overrides.client_key {
        tls.client_key = Some(path.clone());
    }
    if let Some(domain) = overrides.domain {
        tls.domain = Some(domain.clone());
    }
}

/// The directory that argument `i` gives, with the one after it where it needs
/// that.
pub open spec fn dir_at(args: Seq<Seq<char>>, i: int) -> Option<Seq<char>> {
    let arg = args[i];
    if (arg == "-d"@ || arg == "--dir"@) && i + 1 < args.len() {
        Some(args[i + 1])
    } else if text::starts_with(arg, "--dir="@) {
        Some(arg.skip("--dir="@.len() as int))
    } else if text::starts_with(arg, "-d"@) && arg.len() > "-d"@.len() {
        Some(arg.skip("-d"@.len() as int))
    } else {
        None
    }
}

/// The directory that the first argument from `from` on gives that gives one;
/// the current one where none does.
pub open spec fn dir_from(args: Seq<Seq<char>>, from: nat) -> Seq<char>
    decreases args.len() - from,
{
    if from >= args.len() {
        "."@
    } else {
        match dir_at(args, from as int) {
            Some(dir) => dir,
            None => dir_from(args, from + 1),
        }
    }
}

/// The directory that the arguments give, found before they are parsed so that
/// the settings file in it can be loaded first.
pub fn find_dir_arg(args: &Vec<String>) -> (dir: String)
    ensures
        dir@ == dir_from(text::texts(args@), 0),
{
    let ghost said = text::texts(args@);
    let mut i: usize = 0;
    while i < args.len()
        invariant
            i <= args@.len(),
            said == text::texts(args@),
            dir_from(said, 0) == dir_from(said, i as nat),
        decreases args@.len() - i,
    {
        let arg = args[i].as_str();
        proof {
            assert(said[i as int] == arg@);
        }
        if (text::same_text(arg, "-d") || text::same_text(arg, "--dir")) && i + 1 < args.len() {
            proof {
                assert(said[i + 1] == args@[i + 1]@);
            }
            return args[i + 1].clone();
        }
        if let Some(dir) = text::strip_prefix(arg, "--dir=") {
            return dir;
        }
        if let Some(dir) = text::strip_prefix(arg, "-d") {
            if !dir.as_str().is_empty() {
                return dir;
            }
        }
        i += 1;
    }
    ".".to_owned()
}

/// Whether the log is written as JSON: it is, unless the text format is asked
/// for, in any case and with any white space around it.
pub open spec fn wants_json(format: Option<Seq<char>>) -> bool {
    match format {
        Some(f) => text::lowered(text::trimmed(f)) != "text"@,
        None => true,
    }
}

/// Whether the log is written as JSON.
pub fn json_logs_enabled(format: Option<&str>) -> (yes: bool)
    ensures
        yes == wants_json(
            match format {
                Some(f) => Some(f@),
                None => None,
            },
        ),
{
    proof {
        reveal_strlit("text");
        assert(text::lowered("text"@) =~= "text"@);
    }
    match format {
        Some(f) => !text::same_ignoring_case(text::trim(f).as_str(), "text"),
        None => true,
    }
}

/// The keys in a comma-separated list: the pieces without the white space
/// around them, but for those that are empty.
pub open spec fn keys_among(pieces: Seq<Seq<char>>) -> Seq<Seq<char>>
    decreases pieces.len(),
{
    if pieces.len() == 0 {
        Seq::empty()
    } else {
        let before = keys_among(pieces.drop_last());
        let key = text::trimmed(pieces.last());
        if key.len() > 0 {
            before.push(key)
        } else {
            before
        }
    }
}

/// The keys that an option gives.
pub open spec fn keys_in(given: Option<String>) -> Seq<Seq<char>> {
    match given {
        Some(list) => keys_among(text::pieces(list@, ',')),
        None => Seq::empty(),
    }
}

/// The keys that an option gives.
pub fn tenant_keys(given: &Option<String>) -> (keys: Vec<String>)
    ensures
        text::texts(keys@) == keys_in(*given),
{
    let mut keys: Vec<String> = Vec::new();
    proof {
        assert(text::texts(keys@) =~= Seq::empty());
    }
    match given {
        None => {},
        Some(list) => {
            let found = text::split(list.as_str(), ',');
            let ghost said = text::texts(found@);
            let mut i: usize = 0;
            proof {
                assert(said.take(0) =~= Seq::empty());
            }
            while i < found.len()
                invariant
                    i <= found@.len(),
                    said == text::texts(found@),
                    text::texts(keys@) == keys_among(said.take(i as int)),
                decreases found@.len() - i,
            {
                proof {
                    assert(said.take(i + 1).drop_last() =~= said.take(i as int));
                    assert(said.take(i + 1).last() == found@[i as int]@);
                }
                let key = text::trim(found[i].as_str());
                if !key.as_str().is_empty() {
                    let ghost was = keys@;
                    let ghost added = key@;
                    keys.push(key);
                    proof {
                        assert(text::texts(keys@) =~= text::texts(was).push(added));
                    }
                }
                i += 1;
            }
            proof {
                assert(said.take(i as int) =~= said);
            }
        },
    }
    keys
}

/// What an option says, or an empty text where it was not given.
pub open spec fn given_or_empty(given: Option<String>) -> Seq<char> {
    match given {
        Some(value) => value@,
        None => Seq::empty(),
    }
}

/// What the Keycloak options make of the node's own sign-in. The internal
/// address alone makes none.
pub open spec fn keycloak_after(
    before: Option<KeycloakConfig>,
    url: Option<String>,
    realm: Option<String>,
    client_id: Option<String>,
    internal_url: Option<String>,
    after: Option<KeycloakConfig>,
) -> bool {
    if url is Some || realm is Some || client_id is Some {
        match (before, after) {
            (Some(b), Some(a)) => a == (KeycloakConfig {
                url: given_or(url, b.url),
                internal_url: either(internal_url, b.internal_url),
                realm: given_or(realm, b.realm),
                client_id: given_or(client_id, b.client_id),
                ..b
            }),
            (None, Some(a)) => {
                &&& a.url@ == given_or_empty(url)
                &&& a.internal_url == internal_url
                &&& a.realm@ == given_or_empty(realm)
                &&& a.client_id@ == given_or_empty(client_id)
                &&& a.client_secret is None
                &&& a.username is None
                &&& a.password is None
            },
            _ => false,
        }
    } else {
        after == before
    }
}

/// Applies the Keycloak options. Returns whether an internal address was given
/// that nothing uses.
pub fn apply_keycloak(
    keycloak: &mut Option<KeycloakConfig>,
    url: &Option<String>,
    realm: &Option<String>,
    client_id: &Option<String>,
    internal_url: &Option<String>,
) -> (ignored: bool)
    ensures
        keycloak_after(*old(keycloak), *url, *realm, *client_id, *internal_url, *final(keycloak)),
        ignored == (url is None && realm is None && client_id is None && internal_url is Some),
{
    if url.is_some() || realm.is_some() || client_id.is_some() {
        let mut kc = match keycloak.take() {
            Some(kc) => kc,
            None => KeycloakConfig {
                url: String::new(),
                internal_url: None,
                realm: String::new(),
                client_id: String::new(),
                client_secret: None,
                username: None,
                password: None,
            },
        };
        if let Some(url) = url {
            kc.url = url.clone();
        }
        if let Some(internal_url) = internal_url {
            kc.internal_url = Some(internal_url.clone());
        }
        if let Some(realm) = realm {
            kc.realm = realm.clone();
        }
        if let Some(client_id) = client_id {
            kc.client_id = client_id.clone();
        }
        *keycloak = Some(kc);
        false
    } else {
        internal_url.is_some()
    }
}

/// What is done beside the configuration.
pub struct Notices {
    /// The key under which the store keeps secrets.
    pub db_encryption_key: Option<String>,
    /// An internal Keycloak address was given that nothing uses.
    pub internal_url_ignored: bool,
}

/// What the options make of the settings that the operator has for the node and
/// for Canton.
pub open spec fn connections_after(before: NodeConfig, command: Commands, after: NodeConfig) -> bool {
    match command {
        Commands::Serve {
            listen_address,
            noise_port,
            public_address,
            canton_admin_host,
            canton_admin_port,
            canton_ledger_host,
            canton_ledger_port,
            canton_admin_tls,
            canton_admin_tls_ca_cert,
            canton_admin_tls_client_cert,
            canton_admin_tls_client_key,
            canton_admin_tls_domain,
            canton_ledger_tls,
            canton_ledger_tls_ca_cert,
            canton_ledger_tls_client_cert,
            canton_ledger_tls_client_key,
            canton_ledger_tls_domain,
            canton_synchronizer,
            canton_network,
            ..
        } => {
            &&& after.root_dir == before.root_dir
            &&& after.node.listen_address == given_or(listen_address, before.node.listen_address)
            &&& after.node.port == given_or(noise_port, before.node.port)
            &&& after.node.public_address == either(public_address, before.node.public_address)
            &&& after.canton.admin_api_host == given_or(
                canton_admin_host,
                before.canton.admin_api_host,
            )
            &&& after.canton.admin_api_port == given_or(
                canton_admin_port,
                before.canton.admin_api_port,
            )
            &&& after.canton.ledger_api_host == given_or(
                canton_ledger_host,
                before.canton.ledger_api_host,
            )
            &&& after.canton.ledger_api_port == given_or(
                canton_ledger_port,
                before.canton.ledger_api_port,
            )
            &&& after.canton.admin_api_tls == tls_after(
                before.canton.admin_api_tls,
                TlsOverrides {
                    enabled: &canton_admin_tls,
                    ca_cert: &canton_admin_tls_ca_cert,
                    client_cert: &canton_admin_tls_client_cert,
                    client_key: &canton_admin_tls_client_key,
                    domain: &canton_admin_tls_domain,
                },
            )
            &&& after.canton.ledger_api_tls == tls_after(
                before.canton.ledger_api_tls,
                TlsOverrides {
                    enabled: &canton_ledger_tls,
                    ca_cert: &canton_ledger_tls_ca_cert,
                    client_cert: &canton_ledger_tls_client_cert,
                    client_key: &canton_ledger_tls_client_key,
                    domain: &canton_ledger_tls_domain,
                },
            )
            &&& after.canton.synchronizer == given_or(
                canton_synchronizer,
                before.canton.synchronizer,
            )
            &&& after.canton.network == given_or(canton_network, before.canton.network)
        },
    }
}

/// What the options make of whom the node trusts and what it presents.
pub open spec fn trust_after(before: NodeConfig, command: Commands, after: NodeConfig) -> bool {
    match command {
        Commands::Serve {
            keycloak_url,
            keycloak_realm,
            keycloak_client_id,
            keycloak_internal_url,
            auth0_domain,
            auth0_client_id,
            auth0_audience,
            insecure,
            canton_hmac_secret,
            canton_hmac_audience,
            canton_hmac_subject,
            tenant_api_keys,
            ..
        } => {
            &&& keycloak_after(
                before.keycloak,
                keycloak_url,
                keycloak_realm,
                keycloak_client_id,
                keycloak_internal_url,
                after.keycloak,
            )
            &&& after.auth0 == match (auth0_domain, auth0_client_id) {
                (Some(domain), Some(client_id)) => Some(
                    Auth0Config { domain, client_id, audience: auth0_audience },
                ),
                _ => before.auth0,
            }
            &&& text::texts(after.tenant_api_keys@) == keys_in(tenant_api_keys)
            &&& after.insecure == insecure
            &&& if insecure {
                &&& after.insecure_auth.secret == given_or(
                    canton_hmac_secret,
                    before.insecure_auth.secret,
                )
                &&& after.insecure_auth.audience == given_or(
                    canton_hmac_audience,
                    before.insecure_auth.audience,
                )
                &&& after.insecure_auth.subject == given_or(
                    canton_hmac_subject,
                    before.insecure_auth.subject,
                )
            } else {
                after.insecure_auth == before.insecure_auth
            }
        },
    }
}

/// What the options make of how long and how often things are tried.
pub open spec fn pace_after(before: NodeConfig, command: Commands, after: NodeConfig) -> bool {
    match command {
        Commands::Serve {
            timeout_handshake,
            timeout_message,
            timeout_retry_attempts,
            timeout_retry_delay,
            noise_retry_timeout_sec,
            noise_retry_max_attempts,
            noise_retry_backoff_ms,
            reward_automation_interval_secs,
            reward_max_creates,
            reward_min_expiry_margin_secs,
            ..
        } => {
            &&& after.timeouts.handshake_timeout_secs == given_or(
                timeout_handshake,
                before.timeouts.handshake_timeout_secs,
            )
            &&& after.timeouts.message_timeout_secs == given_or(
                timeout_message,
                before.timeouts.message_timeout_secs,
            )
            &&& after.timeouts.connection_retry_attempts == given_or(
                timeout_retry_attempts,
                before.timeouts.connection_retry_attempts,
            )
            &&& after.timeouts.connection_retry_delay_secs == given_or(
                timeout_retry_delay,
                before.timeouts.connection_retry_delay_secs,
            )
            &&& after.noise_retry.per_attempt_timeout_secs == given_or(
                noise_retry_timeout_sec,
                before.noise_retry.per_attempt_timeout_secs,
            )
            &&& after.noise_retry.max_attempts == given_or(
                noise_retry_max_attempts,
                before.noise_retry.max_attempts,
            )
            &&& after.noise_retry.backoff_ms == given_or(
                noise_retry_backoff_ms,
                before.noise_retry.backoff_ms,
            )
            &&& after.reward_automation_interval_secs == given_or(
                reward_automation_interval_secs,
                before.reward_automation_interval_secs,
            )
            &&& after.reward_max_creates == given_or(
                reward_max_creates,
                before.reward_max_creates,
            )
            &&& after.reward_min_expiry_margin_secs == given_or(
                reward_min_expiry_margin_secs,
                before.reward_min_expiry_margin_secs,
            )
        },
    }
}

/// What is done beside the configuration.
pub open spec fn notices_of(command: Commands, notices: Notices) -> bool {
    match command {
        Commands::Serve {
            db_encryption_key,
            keycloak_url,
            keycloak_realm,
            keycloak_client_id,
            keycloak_internal_url,
            ..
        } => {
            &&& notices.db_encryption_key == db_encryption_key
            &&& notices.internal_url_ignored == (keycloak_url is None && keycloak_realm is None
                && keycloak_client_id is None && keycloak_internal_url is Some)
        },
    }
}

/// Sets a text to what was given.
fn set_text(setting: &mut String, given: &Option<String>)
    ensures
        *final(setting) == given_or(*given, *old(setting)),
{
    if let Some(value) = given {
        *setting = value.clone();
    }
}

/// Sets a number or the like to what was given.
fn set<T: Copy>(setting: &mut T, given: &Option<T>)
    ensures
        *final(setting) == given_or(*given, *old(setting)),
{
    if let Some(value) = given {
        *setting = *value;
    }
}

/// Applies the options for the node and for Canton.
fn apply_connections(config: &mut NodeConfig, command: &Commands)
    ensures
        connections_after(*old(config), *command, *final(config)),
        *final(config) == (NodeConfig {
            node: final(config).node,
            canton: final(config).canton,
            ..*old(config)
        }),
{
    match command {
        Commands::Serve {
            listen_address,
            noise_port,
            public_address,
            canton_admin_host,
            canton_admin_port,
            canton_ledger_host,
            canton_ledger_port,
            canton_admin_tls,
            canton_admin_tls_ca_cert,
            canton_admin_tls_client_cert,
            canton_admin_tls_client_key,
            canton_admin_tls_domain,
            canton_ledger_tls,
            canton_ledger_tls_ca_cert,
            canton_ledger_tls_client_cert,
            canton_ledger_tls_client_key,
            canton_ledger_tls_domain,
            canton_synchronizer,
            canton_network,
            ..
        } => {
            set_text(&mut config.node.listen_address, listen_address);
            set(&mut config.node.port, noise_port);
            if let Some(address) = public_address {
                config.node.public_address = Some(address.clone());
            }
            set_text(&mut config.canton.admin_api_host, canton_admin_host);
            set(&mut config.canton.admin_api_port, canton_admin_port);
            set_text(&mut config.canton.ledger_api_host, canton_ledger_host);
            set(&mut config.canton.ledger_api_port, canton_ledger_port);
            apply_tls_overrides(
                &mut config.canton.admin_api_tls,
                TlsOverrides {
                    enabled: canton_admin_tls,
                    ca_cert: canton_admin_tls_ca_cert,
                    client_cert: canton_admin_tls_client_cert,
                    client_key: canton_admin_tls_client_key,
                    domain: canton_admin_tls_domain,
                },
            );
            apply_tls_overrides(
                &mut config.canton.ledger_api_tls,
                TlsOverrides {
                    enabled: canton_ledger_tls,
                    ca_cert: canton_ledger_tls_ca_cert,
                    client_cert: canton_ledger_tls_client_cert,
                    client_key: canton_ledger_tls_client_key,
                    domain: canton_ledger_tls_domain,
                },
            );
            set_text(&mut config.canton.synchronizer, canton_synchronizer);
            set(&mut config.canton.network, canton_network);
        },
    }
}

/// Applies the options for whom the node trusts and what it presents. Returns
/// whether an internal Keycloak address was given that nothing uses.
fn apply_trust(config: &mut NodeConfig, command: &Commands) -> (ignored: bool)
    ensures
        trust_after(*old(config), *command, *final(config)),
        *final(config) == (NodeConfig {
            keycloak: final(config).keycloak,
            auth0: final(config).auth0,
            tenant_api_keys: final(config).tenant_api_keys,
            insecure: final(config).insecure,
            insecure_auth: final(config).insecure_auth,
            ..*old(config)
        }),
        ignored == (command->keycloak_url is None && command->keycloak_realm is None
            && command->keycloak_client_id is None && command->keycloak_internal_url is Some),
{
    match command {
        Commands::Serve {
            keycloak_url,
            keycloak_realm,
            keycloak_client_id,
            keycloak_internal_url,
            auth0_domain,
            auth0_client_id,
            auth0_audience,
            insecure,
            canton_hmac_secret,
            canton_hmac_audience,
            canton_hmac_subject,
            tenant_api_keys,
            ..
        } => {
            let ignored = apply_keycloak(
                &mut config.keycloak,
                keycloak_url,
                keycloak_realm,
                keycloak_client_id,
                keycloak_internal_url,
            );
            if let Some(domain) = auth0_domain {
                if let Some(client_id) = auth0_client_id {
                    config.auth0 = Some(
                        Auth0Config {
                            domain: domain.clone(),
                            client_id: client_id.clone(),
                            audience: auth0_audience.clone(),
                        },
                    );
                }
            }
            config.tenant_api_keys = tenant_keys(tenant_api_keys);
            config.insecure = *insecure;
            if *insecure {
                set_text(&mut config.insecure_auth.secret, canton_hmac_secret);
                set_text(&mut config.insecure_auth.audience, canton_hmac_audience);
                set_text(&mut config.insecure_auth.subject, canton_hmac_subject);
            }
            ignored
        },
    }
}

/// Applies the options for how long and how often things are tried.
fn apply_pace(config: &mut NodeConfig, command: &Commands)
    ensures
        pace_after(*old(config), *command, *final(config)),
        *final(config) == (NodeConfig {
            timeouts: final(config).timeouts,
            noise_retry: final(config).noise_retry,
            reward_automation_interval_secs: final(config).reward_automation_interval_secs,
            reward_max_creates: final(config).reward_max_creates,
            reward_min_expiry_margin_secs: final(config).reward_min_expiry_margin_secs,
            ..*old(config)
        }),
{
    match command {
        Commands::Serve {
            timeout_handshake,
            timeout_message,
            timeout_retry_attempts,
            timeout_retry_delay,
            noise_retry_timeout_sec,
            noise_retry_max_attempts,
            noise_retry_backoff_ms,
            reward_automation_interval_secs,
            reward_max_creates,
            reward_min_expiry_margin_secs,
            ..
        } => {
            set(&mut config.timeouts.handshake_timeout_secs, timeout_handshake);
            set(&mut config.timeouts.message_timeout_secs, timeout_message);
            set(&mut config.timeouts.connection_retry_attempts, timeout_retry_attempts);
            set(&mut config.timeouts.connection_retry_delay_secs, timeout_retry_delay);
            set(&mut config.noise_retry.per_attempt_timeout_secs, noise_retry_timeout_sec);
            set(&mut config.noise_retry.max_attempts, noise_retry_max_attempts);
            set(&mut config.noise_retry.backoff_ms, noise_retry_backoff_ms);
            set(&mut config.reward_automation_interval_secs, reward_automation_interval_secs);
            set(&mut config.reward_max_creates, reward_max_creates);
            set(&mut config.reward_min_expiry_margin_secs, reward_min_expiry_margin_secs);
        },
    }
}

/// Applies the options that were given to the configuration, and leaves the
/// rest of it as it is.
pub fn configure(config: &mut NodeConfig, command: &Commands) -> (notices: Notices)
    ensures
        connections_after(*old(config), *command, *final(config)),
        trust_after(*old(config), *command, *final(config)),
        pace_after(*old(config), *command, *final(config)),
        notices_of(*command, notices),
{
    apply_connections(config, command);
    let internal_url_ignored = apply_trust(config, command);
    apply_pace(config, command);
    match command {
        Commands::Serve { db_encryption_key, .. } => Notices {
            db_encryption_key: db_encryption_key.clone(),
            internal_url_ignored,
        },
    }
}

/// The database below a root directory.
pub open spec fn default_database(root_dir: Seq<char>) -> Seq<char> {
    if root_dir.len() == 0 || root_dir.last() == '/' {
        root_dir + "data/decpm.db"@
    } else {
        root_dir + "/data/decpm.db"@
    }
}

/// The path of the database: the one that was given, or the one below the root
/// directory.
pub fn database_path(given: &Option<String>, root_dir: &str) -> (path: String)
    ensures
        path@ == match *given {
            Some(db) => db@,
            None => default_database(root_dir@),
        },
{
    match given {
        Some(db) => db.clone(),
        None => {
            let n = root_dir.unicode_len();
            if n == 0 || root_dir.get_char(n - 1) == '/' {
                root_dir.to_owned().concat("data/decpm.db")
            } else {
                root_dir.to_owned().concat("/data/decpm.db")
            }
        },
    }
}

/// TLS options that were not given change nothing.
pub proof fn law_absent_tls_options_change_nothing(before: CantonTlsConfig)
    ensures
        tls_after(
            before,
            TlsOverrides {
                enabled: &None,
                ca_cert: &None,
                client_cert: &None,
                client_key: &None,
                domain: &None,
            },
        ) == before,
{
}

/// Applying the same TLS options again changes nothing more.
pub proof fn law_tls_options_settle(before: CantonTlsConfig, given: TlsOverrides<'_>)
    ensures
        tls_after(tls_after(before, given), given) == tls_after(before, given),
{
}

/// No key of the tenants is empty or has white space around it.
pub proof fn law_tenant_keys_are_trimmed(pieces: Seq<Seq<char>>, k: int)
    requires
        0 <= k < keys_among(pieces).len(),
    ensures
        keys_among(pieces)[k].len() > 0,
        text::trimmed(keys_among(pieces)[k]) == keys_among(pieces)[k],
    decreases pieces.len(),
{
    if pieces.len() > 0 {
        let front = pieces.drop_last();
        if k < keys_among(front).len() {
            law_tenant_keys_are_trimmed(front, k);
        } else {
            text::lemma_trimmed_twice(pieces.last());
        }
    }
}

/// A node that is not insecure keeps nothing of the options for the unsafe
/// token.
pub proof fn law_secure_nodes_ignore_unsafe_token_options(
    before: NodeConfig,
    command: Commands,
    after: NodeConfig,
)
    requires
        trust_after(before, command, after),
        !after.insecure,
    ensures
        after.insecure_auth == before.insecure_auth,
{
}

} // verus!
