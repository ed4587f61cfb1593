//! What a node decides before it serves: whether it may start, whom it trusts,
//! and when its listener tries again.

use vstd::prelude::*;
use vstd::string::*;

use crate::cli;
use crate::cli::NumberError;
use crate::config::{Network, NodeSettings};
use crate::text;

verus! {

/// The name of a network.
pub open spec fn network_name(network: Network) -> Seq<char> {
    match network {
        Network::Devnet => "Devnet"@,
        Network::Testnet => "Testnet"@,
        Network::Mainnet => "Mainnet"@,
    }
}

/// The name of a network.
fn name_of(network: Network) -> (name: &'static str)
    ensures
        name@ == network_name(network),
{
    match network {
        Network::Devnet => "Devnet",
        Network::Testnet => "Testnet",
        Network::Mainnet => "Mainnet",
    }
}

/// What an operator is told who starts an insecure node on a network.
pub open spec fn insecure_refusal(network: Network) -> Seq<char> {
    "--insecure / DECPM_INSECURE is only permitted on the devnet network; refusing to start on "@
        + network_name(network)
}

/// Refuses to start an insecure node on anything but devnet.
pub fn ensure_insecure_allowed(insecure: bool, network: Network) -> (allowed: Result<(), String>)
    ensures
        match allowed {
            Ok(_) => !insecure || network == Network::Devnet,
            Err(reason) => insecure && network != Network::Devnet && reason@ == insecure_refusal(
                network,
            ),
        },
{
    if insecure && network != Network::Devnet {
        let reason =
            "--insecure / DECPM_INSECURE is only permitted on the devnet network; refusing to start on "
            .to_owned();
        Err(reason.concat(name_of(network)))
    } else {
        Ok(())
    }
}

/// Who may use the endpoints for administrators.
pub enum AdminGate {
    /// Callers with this role.
    Role(String),
    /// Every caller that is let in.
    Open,
}

/// Which token this node presents to Canton.
pub enum OutboundAuth {
    /// An unsafe one that needs no sign-in.
    Mock,
    /// None: no party has credentials.
    Disabled,
    /// Each party's own.
    Registry,
}

/// What is missing for callers to be let in.
pub enum ConfigNotice {
    /// Everything: only the first configuration is accepted.
    Unusable,
    /// The node's own sign-in: only the parties' issuers are trusted, this many.
    PartiesOnly(usize),
    /// Nothing.
    Complete,
}

/// How callers are let in.
pub enum InboundAuth {
    /// Every one, as one with this role.
    Mock { admin_role: String },
    /// Those with a valid token.
    Jwt(ConfigNotice),
}

/// From where browsers may call.
pub enum CorsPolicy {
    SameOrigin,
    /// From this origin too, with any method and header, and with credentials.
    Allow(String),
}

/// The largest upload, in bytes.
pub const UPLOAD_LIMIT: usize = 104_857_600;

/// What is known before a node serves.
pub struct BootInputs {
    /// The operator asked for an insecure node.
    pub insecure: bool,
    /// The program was built to be insecure.
    pub built_insecure: bool,
    pub network: Network,
    pub admin_role: Option<String>,
    /// How many parties have credentials.
    pub party_count: usize,
    /// The node's own sign-in is configured.
    pub keycloak_configured: bool,
    pub allowed_origin: Option<String>,
}

/// How a node serves.
pub struct BootPlan {
    pub insecure: bool,
    pub admin_gate: AdminGate,
    pub outbound: OutboundAuth,
    pub inbound: InboundAuth,
    pub cors: CorsPolicy,
    /// Whether the interactive documentation is served.
    pub swagger: bool,
    pub upload_limit: usize,
}

/// The plan is the one for what is known.
pub open spec fn plans(plan: BootPlan, inputs: BootInputs) -> bool {
    let insecure = inputs.insecure || inputs.built_insecure;
    &&& plan.insecure == insecure
    &&& match inputs.admin_role {
        Some(role) if role@.len() > 0 => plan.admin_gate matches AdminGate::Role(r) && r@ == role@,
        _ => plan.admin_gate is Open,
    }
    &&& plan.outbound == if insecure {
        OutboundAuth::Mock
    } else if inputs.party_count == 0 {
        OutboundAuth::Disabled
    } else {
        OutboundAuth::Registry
    }
    &&& if insecure {
        plan.inbound matches InboundAuth::Mock { admin_role } && admin_role@
            == match inputs.admin_role {
            Some(role) => role@,
            None => Seq::<char>::empty(),
        }
    } else {
        plan.inbound == InboundAuth::Jwt(
            if inputs.keycloak_configured {
                ConfigNotice::Complete
            } else if inputs.party_count == 0 {
                ConfigNotice::Unusable
            } else {
                ConfigNotice::PartiesOnly(inputs.party_count)
            },
        )
    }
    &&& plan.cors == match inputs.allowed_origin {
        Some(origin) => CorsPolicy::Allow(origin),
        None => CorsPolicy::SameOrigin,
    }
    &&& plan.swagger == insecure
    &&& plan.upload_limit == UPLOAD_LIMIT
}

/// How a node serves, where it may start.
pub fn plan_boot(inputs: BootInputs) -> (plan: Result<BootPlan, String>)
    ensures
        match plan {
            Ok(p) => (!inputs.insecure || inputs.network == Network::Devnet) && plans(p, inputs),
            Err(reason) => inputs.insecure && inputs.network != Network::Devnet && reason@
                == insecure_refusal(inputs.network),
        },
        plan matches Ok(p) ==> (!inputs.insecure && !inputs.built_insecure ==> {
            &&& p.outbound is Registry <==> inputs.party_count > 0
            &&& p.outbound is Disabled <==> inputs.party_count == 0
        }),
{
    match ensure_insecure_allowed(inputs.insecure, inputs.network) {
        Ok(_) => {},
        Err(reason) => {
            return Err(reason);
        },
    }
    let insecure = inputs.insecure || inputs.built_insecure;
    let admin_gate = match &inputs.admin_role {
        Some(role) => if role.as_str().is_empty() {
            AdminGate::Open
        } else {
            AdminGate::Role(role.clone())
        },
        None => AdminGate::Open,
    };
    let outbound = if insecure {
        OutboundAuth::Mock
    } else if inputs.party_count == 0 {
        OutboundAuth::Disabled
    } else {
        OutboundAuth::Registry
    };
    let inbound = if insecure {
        InboundAuth::Mock {
            admin_role: match inputs.admin_role {
                Some(role) => role,
                None => String::new(),
            },
        }
    } else {
        InboundAuth::Jwt(
            if inputs.keycloak_configured {
                ConfigNotice::Complete
            } else if inputs.party_count == 0 {
                ConfigNotice::Unusable
            } else {
                ConfigNotice::PartiesOnly(inputs.party_count)
            },
        )
    };
    let cors = match inputs.allowed_origin {
        Some(origin) => CorsPolicy::Allow(origin),
        None => CorsPolicy::SameOrigin,
    };
    Ok(
        BootPlan {
            insecure,
            admin_gate,
            outbound,
            inbound,
            cors,
            swagger: insecure,
            upload_limit: UPLOAD_LIMIT,
        },
    )
}

/// What was loaded, or nothing where it could not be.
pub fn loaded_or_none<T>(loaded: Result<Vec<T>, String>) -> (items: Vec<T>)
    ensures
        match loaded {
            Ok(found) => items == found,
            Err(_) => items@.len() == 0,
        },
{
    match loaded {
        Ok(found) => found,
        Err(_) => Vec::new(),
    }
}

/// Where the node listens for its peers: the address, a colon and the port.
pub fn listen_address(node: &NodeSettings) -> (address: String)
    ensures
        address@ == node.listen_address@ + ":"@ + text::decimal(node.port as nat),
{
    let port = text::decimal_text(node.port as usize);
    node.listen_address.clone().concat(":").concat(port.as_str())
}

/// How long the listener waits before it tries to bind again, in milliseconds.
pub const BIND_RETRY_MILLIS: u64 = 5000;

/// How long the listener waits after it failed to accept, in milliseconds.
pub const ACCEPT_BACKOFF_MILLIS: u64 = 100;

/// How often peers are asked whether they are up, in milliseconds.
pub const PING_INTERVAL_MILLIS: u64 = 5000;

/// What happened to the listener.
pub enum ListenerEvent {
    /// The node's keys were loaded or made, or not.
    KeysLoaded(bool),
    /// The address was bound, or not.
    Bound(bool),
    /// A connection was accepted, or not.
    Accepted(bool),
}

/// What the listener does next.
pub enum ListenerAction {
    /// Nothing ever, and no peer is asked either.
    Stop,
    /// It binds its address after so many milliseconds.
    Bind(u64),
    /// It accepts a connection after so many milliseconds.
    Accept(u64),
    /// It serves the connection aside, and accepts the next.
    Serve,
}

/// What the listener does after each event. Once its keys are there it never
/// stops.
pub fn next_listener_action(event: ListenerEvent) -> (action: ListenerAction)
    ensures
        action == match event {
            ListenerEvent::KeysLoaded(loaded) => if loaded {
                ListenerAction::Bind(0)
            } else {
                ListenerAction::Stop
            },
            ListenerEvent::Bound(bound) => if bound {
                ListenerAction::Accept(0)
            } else {
                ListenerAction::Bind(BIND_RETRY_MILLIS)
            },
            ListenerEvent::Accepted(accepted) => if accepted {
                ListenerAction::Serve
            } else {
                ListenerAction::Accept(ACCEPT_BACKOFF_MILLIS)
            },
        },
{
    match event {
        ListenerEvent::KeysLoaded(loaded) => if loaded {
            ListenerAction::Bind(0)
        } else {
            ListenerAction::Stop
        },
        ListenerEvent::Bound(bound) => if bound {
            ListenerAction::Accept(0)
        } else {
            ListenerAction::Bind(BIND_RETRY_MILLIS)
        },
        ListenerEvent::Accepted(accepted) => if accepted {
            ListenerAction::Serve
        } else {
            ListenerAction::Accept(ACCEPT_BACKOFF_MILLIS)
        },
    }
}

/// How long a node waits before it first asks Canton for its parties, in
/// milliseconds.
pub const SYNC_DELAY_MILLIS: u64 = 5000;

/// What happened while the node's parties are brought up to date.
pub enum SyncEvent {
    /// Canton named them, or not.
    Fetched(bool),
    /// They were stored, or not.
    Stored(bool),
}

/// What is done next to bring the node's parties up to date.
pub enum SyncAction {
    /// They are stored.
    Store,
    /// The peers are asked for their owner keys.
    AskPeers,
    /// Nothing.
    Stop,
}

/// What is done after each event to bring the node's parties up to date.
pub fn next_sync_action(event: SyncEvent) -> (action: SyncAction)
    ensures
        action == match event {
            SyncEvent::Fetched(true) => SyncAction::Store,
            SyncEvent::Stored(true) => SyncAction::AskPeers,
            _ => SyncAction::Stop,
        },
{
    match event {
        SyncEvent::Fetched(true) => SyncAction::Store,
        SyncEvent::Stored(true) => SyncAction::AskPeers,
        _ => SyncAction::Stop,
    }
}

/// A node that the operator did not ask to be insecure, and that was not built
/// so, lets nobody in without a valid token, presents no unsafe token to Canton
/// and serves no interactive documentation.
pub proof fn law_secure_nodes_check_tokens(inputs: BootInputs, plan: BootPlan)
    requires
        !inputs.insecure,
        !inputs.built_insecure,
        plans(plan, inputs),
    ensures
        plan.inbound is Jwt,
        !(plan.outbound is Mock),
        !plan.swagger,
{
}

/// Whom a node lets in and what it presents to Canton go together: either both
/// are checked, or neither is.
pub proof fn law_insecure_is_all_or_nothing(inputs: BootInputs, plan: BootPlan)
    requires
        plans(plan, inputs),
    ensures
        plan.insecure <==> plan.inbound is Mock,
        plan.insecure <==> plan.outbound is Mock,
        plan.insecure <==> plan.swagger,
{
}

/// A node that is not insecure presents its parties' tokens exactly where a party
/// has credentials, and none where none has; nothing else decides.
pub proof fn law_tokens_are_presented_where_there_are_any(inputs: BootInputs, plan: BootPlan)
    requires
        !inputs.insecure,
        !inputs.built_insecure,
        plans(plan, inputs),
    ensures
        plan.outbound is Registry <==> inputs.party_count > 0,
        plan.outbound is Disabled <==> inputs.party_count == 0,
{
}

/// Two nodes of the same security and the same parties present the same to Canton,
/// whatever their own sign-in, role, origin and network.
pub proof fn law_only_parties_decide_what_is_presented(
    first: BootInputs,
    second: BootInputs,
    first_plan: BootPlan,
    second_plan: BootPlan,
)
    requires
        plans(first_plan, first),
        plans(second_plan, second),
        (first.insecure || first.built_insecure) == (second.insecure || second.built_insecure),
        first.party_count > 0 <==> second.party_count > 0,
    ensures
        first_plan.outbound == second_plan.outbound,
{
}

/// A node is insecure exactly where the operator asked for it or the program was
/// built so; then it lets everyone in with the role that is configured, or without
/// one.
pub proof fn law_insecure_where_asked_for(inputs: BootInputs, plan: BootPlan)
    requires
        plans(plan, inputs),
    ensures
        plan.insecure <==> inputs.insecure || inputs.built_insecure,
        plan.swagger <==> inputs.insecure || inputs.built_insecure,
        plan.outbound is Mock <==> inputs.insecure || inputs.built_insecure,
        plan.inbound is Mock <==> inputs.insecure || inputs.built_insecure,
        plan.inbound matches InboundAuth::Mock { admin_role } ==> (
        inputs.admin_role matches Some(role) ==> admin_role@ == role@),
        plan.inbound matches InboundAuth::Mock { admin_role } ==> (inputs.admin_role is None
            ==> admin_role@.len() == 0),
{
}

/// Administrators need the role that is configured, where one is that has a name;
/// else nobody needs one. Nothing else decides.
pub proof fn law_admin_gate_goes_by_the_role(inputs: BootInputs, plan: BootPlan)
    requires
        plans(plan, inputs),
    ensures
        plan.admin_gate is Role <==> inputs.admin_role is Some && inputs.admin_role->0@.len() > 0,
        plan.admin_gate matches AdminGate::Role(role) ==> inputs.admin_role is Some && role@
            == inputs.admin_role->0@,
{
}

/// What a secure node lacks for callers to be let in: nothing where its own sign-in
/// is configured; else that sign-in where parties have credentials, and it is told
/// how many; else everything.
pub proof fn law_what_is_lacking_is_told(inputs: BootInputs, plan: BootPlan, notice: ConfigNotice)
    requires
        plans(plan, inputs),
        plan.inbound == InboundAuth::Jwt(notice),
    ensures
        notice is Complete <==> inputs.keycloak_configured,
        notice is Unusable <==> !inputs.keycloak_configured && inputs.party_count == 0,
        notice is PartiesOnly <==> !inputs.keycloak_configured && inputs.party_count > 0,
        notice matches ConfigNotice::PartiesOnly(count) ==> count == inputs.party_count,
{
}

/// Browsers may call from the configured origin and no other, and uploads may have
/// a hundred mebibytes, on every node.
pub proof fn law_origin_and_uploads(inputs: BootInputs, plan: BootPlan)
    requires
        plans(plan, inputs),
    ensures
        plan.cors is Allow <==> inputs.allowed_origin is Some,
        plan.cors matches CorsPolicy::Allow(origin) ==> inputs.allowed_origin == Some(origin),
        plan.upload_limit == 100 * 1024 * 1024,
{
}

/// A node starts unless the operator asked for an insecure one on another network
/// than devnet; what it was built for keeps it from nothing. A refusal ends with
/// the name of the network.
pub proof fn law_when_a_node_starts(inputs: BootInputs, plan: Result<BootPlan, String>)
    requires
        call_ensures(plan_boot, (inputs,), plan),
    ensures
        plan is Ok <==> !inputs.insecure || inputs.network == Network::Devnet,
        plan matches Err(reason) ==> (inputs.network == Network::Testnet ==> reason@
            == "--insecure / DECPM_INSECURE is only permitted on the devnet network; refusing to start on "@
            + "Testnet"@),
        plan matches Err(reason) ==> (inputs.network == Network::Mainnet ==> reason@
            == "--insecure / DECPM_INSECURE is only permitted on the devnet network; refusing to start on "@
            + "Mainnet"@),
{
}

/// What was loaded is used as it was loaded; what could not be is empty.
pub proof fn law_loaded_items_are_used<T>(loaded: Result<Vec<T>, String>, items: Vec<T>)
    requires
        call_ensures(loaded_or_none::<T>, (loaded,), items),
    ensures
        loaded matches Ok(found) ==> items == found,
        loaded is Err ==> items@.len() == 0,
{
}

/// The address that a node listens at starts with its host and ends with its port:
/// what follows the host and a colon is read as the port again.
pub proof fn law_address_holds_host_and_port(node: NodeSettings, address: String)
    requires
        call_ensures(listen_address, (&node,), address),
    ensures
        address@.take(node.listen_address@.len() as int) == node.listen_address@,
        address@[node.listen_address@.len() as int] == ':',
        cli::number_of(address@.skip(node.listen_address@.len() as int + 1)) == Ok::<
            nat,
            NumberError,
        >(node.port as nat),
{
    reveal_strlit(":");
    let host = node.listen_address@;
    cli::law_decimal_is_read_back(node.port as usize);
    assert(address@.take(host.len() as int) =~= host);
    assert(address@.skip(host.len() as int + 1) =~= text::decimal(node.port as nat));
}

/// Once the keys are there the listener never stops, and it comes back to each
/// step that failed: to binding after five seconds, to accepting after a tenth of
/// one.
pub proof fn law_the_listener_goes_on(event: ListenerEvent, action: ListenerAction)
    requires
        call_ensures(next_listener_action, (event,), action),
    ensures
        action is Stop <==> event == ListenerEvent::KeysLoaded(false),
        action is Serve <==> event == ListenerEvent::Accepted(true),
        action == ListenerAction::Bind(0) <==> event == ListenerEvent::KeysLoaded(true),
        action == ListenerAction::Bind(5000) <==> event == ListenerEvent::Bound(false),
        action == ListenerAction::Accept(0) <==> event == ListenerEvent::Bound(true),
        action == ListenerAction::Accept(100) <==> event == ListenerEvent::Accepted(false),
{
}

/// Peers are asked for their owner keys only once the node's parties are stored,
/// and these are stored only once Canton named them; any failure ends it.
pub proof fn law_sync_goes_step_by_step(event: SyncEvent, action: SyncAction)
    requires
        call_ensures(next_sync_action, (event,), action),
    ensures
        action is Store <==> event == SyncEvent::Fetched(true),
        action is AskPeers <==> event == SyncEvent::Stored(true),
        action is Stop <==> event == SyncEvent::Fetched(false) || event == SyncEvent::Stored(
            false,
        ),
{
}

} // verus!
