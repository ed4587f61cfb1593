use decman::config::{Network, NodeSettings};
use decman::server::boot::{
    ensure_insecure_allowed, listen_address, loaded_or_none, next_listener_action,
    next_sync_action, plan_boot, AdminGate, BootInputs, ConfigNotice, CorsPolicy, InboundAuth, ListenerAction, ListenerEvent,
    OutboundAuth, SyncAction, SyncEvent,
};

#[test]
fn insecure_allowed_on_devnet() {
    assert!(ensure_insecure_allowed(true, Network::Devnet).is_ok());
}

#[test]
fn insecure_refused_off_devnet() {
    assert!(ensure_insecure_allowed(true, Network::Testnet).is_err());
    assert!(ensure_insecure_allowed(true, Network::Mainnet).is_err());
}

#[test]
fn secure_allowed_on_any_network() {
    assert!(ensure_insecure_allowed(false, Network::Devnet).is_ok());
    assert!(ensure_insecure_allowed(false, Network::Testnet).is_ok());
    assert!(ensure_insecure_allowed(false, Network::Mainnet).is_ok());
}

#[test]
fn refusal_names_the_network() {
    assert_eq!(
        ensure_insecure_allowed(true, Network::Mainnet),
        Err("--insecure / DECPM_INSECURE is only permitted on the devnet network; \
             refusing to start on Mainnet"
            .to_string())
    );
}

fn inputs() -> BootInputs {
    BootInputs {
        insecure: false,
        built_insecure: false,
        network: Network::Mainnet,
        admin_role: None,
        party_count: 0,
        keycloak_configured: false,
        allowed_origin: None,
    }
}

#[test]
fn a_bare_node_waits_for_its_first_configuration() {
    let plan = plan_boot(inputs()).unwrap();
    assert!(!plan.insecure);
    assert!(matches!(plan.admin_gate, AdminGate::Open));
    assert!(matches!(plan.outbound, OutboundAuth::Disabled));
    assert!(matches!(plan.inbound, InboundAuth::Jwt(ConfigNotice::Unusable)));
    assert!(matches!(plan.cors, CorsPolicy::SameOrigin));
    assert!(!plan.swagger);
    assert_eq!(plan.upload_limit, 100 * 1024 * 1024);
}

#[test]
fn a_node_with_parties_trusts_their_issuers() {
    let mut i = inputs();
    i.party_count = 3;
    i.admin_role = Some("ops".to_string());
    i.allowed_origin = Some("https://ui.example.com".to_string());
    let plan = plan_boot(i).unwrap();
    assert!(matches!(plan.outbound, OutboundAuth::Registry));
    assert!(matches!(plan.inbound, InboundAuth::Jwt(ConfigNotice::PartiesOnly(3))));
    assert!(matches!(plan.admin_gate, AdminGate::Role(r) if r == "ops"));
    assert!(matches!(plan.cors, CorsPolicy::Allow(o) if o == "https://ui.example.com"));
}

#[test]
fn a_configured_node_has_nothing_to_complain_of() {
    let mut i = inputs();
    i.keycloak_configured = true;
    i.admin_role = Some(String::new());
    let plan = plan_boot(i).unwrap();
    assert!(matches!(plan.inbound, InboundAuth::Jwt(ConfigNotice::Complete)));
    assert!(matches!(plan.admin_gate, AdminGate::Open));
}

#[test]
fn an_insecure_node_mocks_both_ways() {
    let mut i = inputs();
    i.insecure = true;
    i.network = Network::Devnet;
    i.admin_role = Some("ops".to_string());
    i.party_count = 2;
    let plan = plan_boot(i).unwrap();
    assert!(plan.insecure && plan.swagger);
    assert!(matches!(plan.outbound, OutboundAuth::Mock));
    assert!(matches!(plan.inbound, InboundAuth::Mock { admin_role } if admin_role == "ops"));
}

#[test]
fn an_insecure_node_does_not_start_on_mainnet() {
    let mut i = inputs();
    i.insecure = true;
    assert!(plan_boot(i).is_err());
}

#[test]
fn a_program_built_insecure_starts_anywhere() {
    let mut i = inputs();
    i.built_insecure = true;
    let plan = plan_boot(i).unwrap();
    assert!(plan.insecure);
    assert!(matches!(plan.inbound, InboundAuth::Mock { admin_role } if admin_role.is_empty()));
}

#[test]
fn what_cannot_be_loaded_is_empty() {
    assert_eq!(loaded_or_none::<u8>(Ok(vec![1, 2])), vec![1, 2]);
    assert!(loaded_or_none::<u8>(Err("no".to_string())).is_empty());
}

#[test]
fn address_and_port_are_joined() {
    let node = NodeSettings {
        listen_address: "0.0.0.0".to_string(),
        port: 9090,
        public_address: None,
    };
    assert_eq!(listen_address(&node), "0.0.0.0:9090");
}

#[test]
fn the_listener_tries_again() {
    assert!(matches!(
        next_listener_action(ListenerEvent::KeysLoaded(false)),
        ListenerAction::Stop
    ));
    assert!(matches!(
        next_listener_action(ListenerEvent::KeysLoaded(true)),
        ListenerAction::Bind(0)
    ));
    assert!(matches!(
        next_listener_action(ListenerEvent::Bound(false)),
        ListenerAction::Bind(5000)
    ));
    assert!(matches!(
        next_listener_action(ListenerEvent::Bound(true)),
        ListenerAction::Accept(0)
    ));
    assert!(matches!(
        next_listener_action(ListenerEvent::Accepted(false)),
        ListenerAction::Accept(100)
    ));
    assert!(matches!(
        next_listener_action(ListenerEvent::Accepted(true)),
        ListenerAction::Serve
    ));
}

#[test]
fn parties_are_stored_before_peers_are_asked() {
    assert!(matches!(next_sync_action(SyncEvent::Fetched(true)), SyncAction::Store));
    assert!(matches!(next_sync_action(SyncEvent::Fetched(false)), SyncAction::Stop));
    assert!(matches!(next_sync_action(SyncEvent::Stored(true)), SyncAction::AskPeers));
    assert!(matches!(next_sync_action(SyncEvent::Stored(false)), SyncAction::Stop));
}
