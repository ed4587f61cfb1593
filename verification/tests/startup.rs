use decman::cli::{parse_positive_usize, Commands};
use decman::config::{
    CantonSettings, CantonTlsConfig, InsecureAuthSettings, Network, NodeConfig, NodeSettings,
    NoiseRetrySettings, TimeoutSettings,
};
use decman::startup::{
    apply_tls_overrides, configure, database_path, find_dir_arg, json_logs_enabled, tenant_keys, TlsOverrides,
};

#[test]
fn json_is_the_default_when_the_variable_is_unset() {
    assert!(json_logs_enabled(None));
}

#[test]
fn text_selects_the_console_format() {
    assert!(!json_logs_enabled(Some("text")));
}

#[test]
fn the_text_value_tolerates_case_and_padding() {
    assert!(!json_logs_enabled(Some(" TEXT ")));
}

#[test]
fn any_other_value_stays_on_json() {
    assert!(json_logs_enabled(Some("json")));
    assert!(json_logs_enabled(Some("")));
    assert!(json_logs_enabled(Some("pretty")));
}

fn dir(args: &[&str]) -> String {
    let args: Vec<String> = args.iter().map(|a| a.to_string()).collect();
    find_dir_arg(&args)
}

#[test]
fn the_directory_is_found_in_every_form() {
    assert_eq!(dir(&["decpm", "-d", "/a", "serve"]), "/a");
    assert_eq!(dir(&["decpm", "--dir", "/a"]), "/a");
    assert_eq!(dir(&["decpm", "--dir=/a"]), "/a");
    assert_eq!(dir(&["decpm", "-d/a"]), "/a");
    assert_eq!(dir(&["decpm", "--dir="]), "");
}

#[test]
fn the_first_directory_counts() {
    assert_eq!(dir(&["decpm", "--dir=/a", "-d", "/b"]), "/a");
}

#[test]
fn the_directory_defaults_to_the_current_one() {
    assert_eq!(dir(&["decpm", "serve"]), ".");
    assert_eq!(dir(&["decpm", "-d"]), ".");
    assert_eq!(dir(&["decpm", "--dir"]), ".");
    assert_eq!(dir(&[]), ".");
}

#[test]
fn positive_numbers_are_read_like_the_standard_library_reads_them() {
    let tried = [
        "", "+", "-", "0", "+0", "1", "+7", "007", "-1", "1a", "a1", "1 ", " 1", "++1", "٣",
        "4294967295", "18446744073709551615", "18446744073709551616", "99999999999999999999999x",
        "1844674407370955161x", "18446744073709551610000",
    ];
    for s in tried {
        let expected = match s.parse::<usize>() {
            Ok(0) => Err("must be >= 1".to_string()),
            Ok(v) => Ok(v),
            Err(e) => Err(e.to_string()),
        };
        assert_eq!(parse_positive_usize(s), expected, "{s:?}");
    }
}

#[test]
fn each_complaint_about_a_number() {
    assert_eq!(parse_positive_usize("3"), Ok(3));
    assert_eq!(parse_positive_usize("0"), Err("must be >= 1".to_string()));
    assert_eq!(
        parse_positive_usize(""),
        Err("cannot parse integer from empty string".to_string())
    );
    assert_eq!(
        parse_positive_usize("x"),
        Err("invalid digit found in string".to_string())
    );
    assert_eq!(
        parse_positive_usize("99999999999999999999"),
        Err("number too large to fit in target type".to_string())
    );
}

#[test]
fn decimal_notation_is_read_back() {
    for n in [1, 9, 10, 12345, usize::MAX] {
        assert_eq!(parse_positive_usize(&decman::text::decimal_text(n)), Ok(n));
    }
}

#[test]
fn tenant_keys_are_trimmed_and_not_empty() {
    let keys = tenant_keys(&Some(" a, ,b ,,\tc\n".to_string()));
    assert_eq!(keys, vec!["a", "b", "c"]);
    assert!(tenant_keys(&Some(String::new())).is_empty());
    assert!(tenant_keys(&None).is_empty());
}

fn tls() -> CantonTlsConfig {
    CantonTlsConfig {
        enabled: false,
        ca_cert: None,
        client_cert: Some("old.pem".to_string()),
        client_key: None,
        domain: None,
    }
}

#[test]
fn tls_options_that_are_given_are_applied() {
    let mut t = tls();
    apply_tls_overrides(
        &mut t,
        TlsOverrides {
            enabled: &Some(true),
            ca_cert: &Some("ca.pem".to_string()),
            client_cert: &None,
            client_key: &None,
            domain: &Some("canton".to_string()),
        },
    );
    assert!(t.enabled);
    assert_eq!(t.ca_cert.as_deref(), Some("ca.pem"));
    assert_eq!(t.client_cert.as_deref(), Some("old.pem"));
    assert_eq!(t.client_key, None);
    assert_eq!(t.domain.as_deref(), Some("canton"));
}

#[test]
fn tls_options_settle() {
    let (enabled, domain) = (Some(true), Some("canton".to_string()));
    let mut t = tls();
    for _ in 0..2 {
        apply_tls_overrides(
            &mut t,
            TlsOverrides {
                enabled: &enabled,
                ca_cert: &None,
                client_cert: &None,
                client_key: &None,
                domain: &domain,
            },
        );
        assert!(t.enabled);
        assert_eq!(t.ca_cert, None);
        assert_eq!(t.client_cert.as_deref(), Some("old.pem"));
        assert_eq!(t.domain.as_deref(), Some("canton"));
    }
}

fn config() -> NodeConfig {
    NodeConfig {
        root_dir: "/root".to_string(),
        node: NodeSettings {
            listen_address: "0.0.0.0".to_string(),
            port: 9000,
            public_address: None,
        },
        canton: CantonSettings {
            admin_api_host: "localhost".to_string(),
            admin_api_port: 5002,
            admin_api_tls: tls(),
            ledger_api_host: "localhost".to_string(),
            ledger_api_port: 5001,
            ledger_api_tls: tls(),
            synchronizer: "global".to_string(),
            network: Network::Devnet,
        },
        keycloak: None,
        auth0: None,
        timeouts: TimeoutSettings {
            handshake_timeout_secs: 1,
            message_timeout_secs: 2,
            connection_retry_attempts: 3,
            connection_retry_delay_secs: 4,
        },
        noise_retry: NoiseRetrySettings {
            per_attempt_timeout_secs: 5,
            max_attempts: 6,
            backoff_ms: 7,
        },
        reward_automation_interval_secs: 300,
        reward_max_creates: 100,
        reward_min_expiry_margin_secs: 120,
        tenant_api_keys: vec!["stale".to_string()],
        insecure: false,
        insecure_auth: InsecureAuthSettings {
            secret: "unsafe".to_string(),
            audience: "https://canton.network.global".to_string(),
            subject: "ledger-api-user".to_string(),
        },
    }
}

fn serve() -> Commands {
    Commands::Serve {
        host: "0.0.0.0".to_string(),
        port: 8080,
        db: None,
        db_encryption_key: None,
        listen_address: None,
        noise_port: None,
        public_address: None,
        canton_admin_host: None,
        canton_admin_port: None,
        canton_ledger_host: None,
        canton_ledger_port: None,
        canton_admin_tls: None,
        canton_admin_tls_ca_cert: None,
        canton_admin_tls_client_cert: None,
        canton_admin_tls_client_key: None,
        canton_admin_tls_domain: None,
        canton_ledger_tls: None,
        canton_ledger_tls_ca_cert: None,
        canton_ledger_tls_client_cert: None,
        canton_ledger_tls_client_key: None,
        canton_ledger_tls_domain: None,
        canton_synchronizer: None,
        canton_network: None,
        keycloak_url: None,
        keycloak_realm: None,
        keycloak_client_id: None,
        keycloak_internal_url: None,
        auth0_domain: None,
        auth0_client_id: None,
        auth0_audience: None,
        jwt_role_claim: None,
        admin_role: None,
        allowed_origin: None,
        insecure: false,
        canton_hmac_secret: None,
        canton_hmac_audience: None,
        canton_hmac_subject: None,
        tenant_api_keys: None,
        timeout_handshake: None,
        timeout_message: None,
        timeout_retry_attempts: None,
        timeout_retry_delay: None,
        noise_retry_timeout_sec: None,
        noise_retry_max_attempts: None,
        noise_retry_backoff_ms: None,
        reward_automation_interval_secs: None,
        reward_max_creates: None,
        reward_min_expiry_margin_secs: None,
    }
}

#[test]
fn options_that_are_not_given_leave_the_defaults() {
    let mut c = config();
    let notices = configure(&mut c, &serve());
    assert_eq!(c.node.listen_address, "0.0.0.0");
    assert_eq!(c.canton.admin_api_port, 5002);
    assert_eq!(c.timeouts.connection_retry_attempts, 3);
    assert_eq!(c.noise_retry.max_attempts, 6);
    assert_eq!(c.reward_max_creates, 100);
    assert!(c.keycloak.is_none());
    assert!(c.auth0.is_none());
    assert!(c.tenant_api_keys.is_empty());
    assert!(notices.db_encryption_key.is_none());
    assert!(!notices.internal_url_ignored);
}

#[test]
fn options_that_are_given_are_applied() {
    let mut command = serve();
    match &mut command {
        Commands::Serve {
            noise_port,
            canton_network,
            canton_ledger_tls,
            public_address,
            timeout_message,
            noise_retry_max_attempts,
            reward_min_expiry_margin_secs,
            db_encryption_key,
            tenant_api_keys,
            ..
        } => {
            *noise_port = Some(9999);
            *canton_network = Some(Network::Testnet);
            *canton_ledger_tls = Some(true);
            *public_address = Some("node.example.com".to_string());
            *timeout_message = Some(20);
            *noise_retry_max_attempts = Some(9);
            *reward_min_expiry_margin_secs = Some(60);
            *db_encryption_key = Some("SECRET-REDACTED".to_string());
            *tenant_api_keys = Some("k1,k2".to_string());
        }
    }
    let mut c = config();
    let notices = configure(&mut c, &command);
    assert_eq!(c.node.port, 9999);
    assert_eq!(c.canton.network, Network::Testnet);
    assert!(c.canton.ledger_api_tls.enabled);
    assert!(!c.canton.admin_api_tls.enabled);
    assert_eq!(c.node.public_address.as_deref(), Some("node.example.com"));
    assert_eq!(c.timeouts.message_timeout_secs, 20);
    assert_eq!(c.noise_retry.max_attempts, 9);
    assert_eq!(c.reward_min_expiry_margin_secs, 60);
    assert_eq!(c.tenant_api_keys, vec!["k1", "k2"]);
    assert_eq!(notices.db_encryption_key.as_deref(), Some("SECRET-REDACTED"));
}

#[test]
fn an_internal_address_alone_makes_no_keycloak_client() {
    let mut command = serve();
    match &mut command {
        Commands::Serve { keycloak_internal_url, .. } => {
            *keycloak_internal_url = Some("http://kc".to_string());
        }
    }
    let mut c = config();
    let notices = configure(&mut c, &command);
    assert!(c.keycloak.is_none());
    assert!(notices.internal_url_ignored);
}

#[test]
fn an_internal_address_supplements_a_keycloak_client() {
    let mut command = serve();
    match &mut command {
        Commands::Serve { keycloak_internal_url, keycloak_realm, .. } => {
            *keycloak_internal_url = Some("http://kc".to_string());
            *keycloak_realm = Some("realm".to_string());
        }
    }
    let mut c = config();
    let notices = configure(&mut c, &command);
    let kc = c.keycloak.unwrap();
    assert_eq!(kc.url, "");
    assert_eq!(kc.realm, "realm");
    assert_eq!(kc.internal_url.as_deref(), Some("http://kc"));
    assert!(kc.client_secret.is_none());
    assert!(!notices.internal_url_ignored);
}

#[test]
fn auth0_needs_a_domain_and_a_client() {
    let mut command = serve();
    match &mut command {
        Commands::Serve { auth0_domain, .. } => {
            *auth0_domain = Some("t.auth0.com".to_string());
        }
    }
    let mut c = config();
    configure(&mut c, &command);
    assert!(c.auth0.is_none());
    match &mut command {
        Commands::Serve { auth0_client_id, .. } => {
            *auth0_client_id = Some("spa".to_string());
        }
    }
    configure(&mut c, &command);
    let auth0 = c.auth0.unwrap();
    assert_eq!(auth0.domain, "t.auth0.com");
    assert_eq!(auth0.client_id, "spa");
    assert_eq!(auth0.audience, None);
}

#[test]
fn unsafe_token_options_count_in_insecure_mode_only() {
    let mut command = serve();
    match &mut command {
        Commands::Serve { canton_hmac_secret, .. } => {
            *canton_hmac_secret = Some("other".to_string());
        }
    }
    let mut c = config();
    configure(&mut c, &command);
    assert_eq!(c.insecure_auth.secret, "unsafe");
    match &mut command {
        Commands::Serve { insecure, .. } => {
            *insecure = true;
        }
    }
    configure(&mut c, &command);
    assert!(c.insecure);
    assert_eq!(c.insecure_auth.secret, "other");
    assert_eq!(c.insecure_auth.subject, "ledger-api-user");
}

#[test]
fn the_database_is_given_or_below_the_root() {
    assert_eq!(database_path(&Some("/x.db".to_string()), "/root"), "/x.db");
    for root in ["/root", "/root/", ".", ""] {
        let below = std::path::Path::new(root).join("data").join("decpm.db");
        assert_eq!(database_path(&None, root), below.to_str().unwrap());
    }
}
