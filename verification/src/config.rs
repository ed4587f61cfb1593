//! What a node is configured with.

use vstd::prelude::*;

verus! {

/// The network that a node belongs to.
#[derive(Clone, Copy, Debug, PartialEq, Eq, Structural)]
pub enum Network {
    Devnet,
    Testnet,
    Mainnet,
}

/// How a connection to Canton is secured.
pub struct CantonTlsConfig {
    pub enabled: bool,
    pub ca_cert: Option<String>,
    pub client_cert: Option<String>,
    pub client_key: Option<String>,
    pub domain: Option<String>,
}

/// Where the node listens for its peers.
pub struct NodeSettings {
    pub listen_address: String,
    pub port: u16,
    pub public_address: Option<String>,
}

/// How the node reaches Canton.
pub struct CantonSettings {
    pub admin_api_host: String,
    pub admin_api_port: u16,
    pub admin_api_tls: CantonTlsConfig,
    pub ledger_api_host: String,
    pub ledger_api_port: u16,
    pub ledger_api_tls: CantonTlsConfig,
    pub synchronizer: String,
    pub network: Network,
}

/// A Keycloak client.
pub struct KeycloakConfig {
    pub url: String,
    pub internal_url: Option<String>,
    pub realm: String,
    pub client_id: String,
    pub client_secret: Option<String>,
    pub username: Option<String>,
    pub password: Option<String>,
}

/// An Auth0 client of the frontend.
pub struct Auth0Config {
    pub domain: String,
    pub client_id: String,
    pub audience: Option<String>,
}

/// An Auth0 client that stands for a machine.
pub struct Auth0M2MConfig {
    pub domain: String,
    pub client_id: String,
    pub client_secret: String,
    pub audience: String,
}

impl Clone for KeycloakConfig {
    fn clone(&self) -> (copy: Self)
        ensures
            copy == *self,
    {
        KeycloakConfig {
            url: self.url.clone(),
            internal_url: self.internal_url.clone(),
            realm: self.realm.clone(),
            client_id: self.client_id.clone(),
            client_secret: self.client_secret.clone(),
            username: self.username.clone(),
            password: self.password.clone(),
        }
    }
}

impl Clone for Auth0M2MConfig {
    fn clone(&self) -> (copy: Self)
        ensures
            copy == *self,
    {
        Auth0M2MConfig {
            domain: self.domain.clone(),
            client_id: self.client_id.clone(),
            client_secret: self.client_secret.clone(),
            audience: self.audience.clone(),
        }
    }
}

/// How long peers are waited for, and how often.
pub struct TimeoutSettings {
    pub handshake_timeout_secs: u64,
    pub message_timeout_secs: u64,
    pub connection_retry_attempts: u32,
    pub connection_retry_delay_secs: u64,
}

/// How often a message to a peer is tried.
pub struct NoiseRetrySettings {
    pub per_attempt_timeout_secs: u64,
    pub max_attempts: usize,
    pub backoff_ms: u64,
}

/// The token that an insecure node presents to Canton.
pub struct InsecureAuthSettings {
    pub secret: String,
    pub audience: String,
    pub subject: String,
}

/// What a node is configured with.
pub struct NodeConfig {
    pub root_dir: String,
    pub node: NodeSettings,
    pub canton: CantonSettings,
    pub keycloak: Option<KeycloakConfig>,
    pub auth0: Option<Auth0Config>,
    pub timeouts: TimeoutSettings,
    pub noise_retry: NoiseRetrySettings,
    pub reward_automation_interval_secs: u64,
    pub reward_max_creates: usize,
    pub reward_min_expiry_margin_secs: u64,
    pub tenant_api_keys: Vec<String>,
    pub insecure: bool,
    pub insecure_auth: InsecureAuthSettings,
}

/// The id of a party or a participant, as text.
pub struct CantonId {
    pub text: String,
}

impl View for CantonId {
    type V = Seq<char>;

    open spec fn view(&self) -> Seq<char> {
        self.text@
    }
}

impl CantonId {
    /// The id as text.
    pub fn to_string(&self) -> (s: String)
        ensures
            s@ == self@,
    {
        self.text.clone()
    }
}

impl Clone for CantonId {
    fn clone(&self) -> (copy: Self)
        ensures
            copy == *self,
    {
        CantonId { text: self.text.clone() }
    }
}

/// How the member of a decentralized party signs in.
pub struct PartyCredentials {
    pub dec_party_id: CantonId,
    pub member_party_id: CantonId,
    pub user_id: String,
    pub keycloak: KeycloakConfig,
    pub auth0: Option<Auth0M2MConfig>,
}

} // verus!
