use decman::map::TextMap;
use decman::server::listener::{Message, MessageType};
use decman::server::peers::{
    admit_peer, begin_round, build_peer_key_map, handshake_key, identify_sender, parse_public_key,
    plan_probe, probe_status, probe_with, public_key_hex, record_probes, seen_peer, PeerRow, Probe, PublicKey,
};

/// The generator of the curve, compressed and not.
const G: &str = "0279be667ef9dcbbac55a06295ce870b07029bfcdb2dce28d959f2815b16f81798";
const G_LONG: &str = "0479BE667EF9DCBBAC55A06295CE870B07029BFCDB2DCE28D959F2815B16F81798\
                      483ADA7726A3C4655DA4FBFC0E1108A8FD17B448A68554199C47D08FFB10D4B8";

fn row(id: &str, key: &str) -> PeerRow {
    PeerRow {
        participant_id: id.to_string(),
        address: "host".to_string(),
        port: 1,
        public_key: key.to_string(),
    }
}

#[test]
fn keys_are_read_in_either_form_and_case() {
    let short = parse_public_key(G).unwrap();
    let long = parse_public_key(G_LONG).unwrap();
    assert_eq!(short.bytes, long.bytes);
    assert_eq!(short.bytes[0], 2);
    assert_eq!(public_key_hex(&long), G);
}

#[test]
fn what_is_no_key_is_not_read() {
    for s in ["", "02", "xyz", "0", "é", &G[..65], &format!("{G}00"), &"00".repeat(33)] {
        assert!(parse_public_key(s).is_none(), "{s:?}");
    }
}

#[test]
fn every_key_reads_as_itself() {
    let key = parse_public_key(G).unwrap();
    let again = parse_public_key(&public_key_hex(&key)).unwrap();
    assert_eq!(key.bytes, again.bytes);
    assert_eq!(public_key_hex(&PublicKey { bytes: [0xa5; 33] }), "a5".repeat(33));
}

fn allowed() -> TextMap<PublicKey> {
    build_peer_key_map(
        Ok(vec![row("self", G), row("a", G), row("b", ""), row("c", "nonsense"), row("d", G_LONG)]),
        "self",
    )
}

#[test]
fn only_other_nodes_with_a_key_may_connect() {
    let keys = allowed();
    assert!(!keys.contains_key("self"));
    assert!(keys.contains_key("a") && keys.contains_key("d"));
    assert!(!keys.contains_key("b") && !keys.contains_key("c"));
    assert!(build_peer_key_map(Err("down".to_string()), "self").is_empty());
}

#[test]
fn the_later_row_of_a_peer_counts() {
    let mut keys = TextMap::new();
    let one = PublicKey { bytes: [1; 33] };
    let two = PublicKey { bytes: [2; 33] };
    admit_peer(&mut keys, &row("a", "x"), "self", Some(one));
    admit_peer(&mut keys, &row("a", "x"), "self", Some(two));
    admit_peer(&mut keys, &row("a", "x"), "self", None);
    admit_peer(&mut keys, &row("a", ""), "self", Some(one));
    admit_peer(&mut keys, &row("self", "x"), "self", Some(one));
    assert_eq!(keys.get("a").unwrap().bytes, [2; 33]);
    assert!(!keys.contains_key("self"));
}

#[test]
fn a_handshake_needs_an_id_on_the_list() {
    let keys = allowed();
    assert_eq!(handshake_key(&keys, b"a").unwrap().bytes[0], 2);
    assert!(handshake_key(&keys, b"b").is_none());
    assert!(handshake_key(&keys, b"self").is_none());
    assert!(handshake_key(&keys, &[0xff, 0xfe]).is_none());
    assert!(handshake_key(&keys, &parse_public_key(G).unwrap().bytes).is_none());
}

#[test]
fn senders_are_known_by_their_identity() {
    let keys = allowed();
    let known = identify_sender(&keys, b"a");
    assert_eq!(known.id.as_deref(), Some("a"));
    assert_eq!(known.pubkey.as_deref(), Some(G));
    assert_eq!(seen_peer(&known).as_deref(), Some("a"));
    let unknown = identify_sender(&keys, b"z");
    assert_eq!(unknown.id.as_deref(), Some("z"));
    assert!(unknown.pubkey.is_none() && seen_peer(&unknown).is_none());
    let unreadable = identify_sender(&keys, &[0xff]);
    assert!(unreadable.id.is_none() && unreadable.pubkey.is_none());
}

#[test]
fn a_round_asks_all_but_this_node() {
    let rows = vec![row("a", G), row("self", G), row("b", "")];
    let targets = begin_round(Ok(rows), "self").unwrap();
    let ids: Vec<&str> = targets.iter().map(|t| t.participant_id.as_str()).collect();
    assert_eq!(ids, vec!["a", "b"]);
    assert!(begin_round(Err("down".to_string()), "self").is_none());
}

#[test]
fn only_stale_peers_are_pinged() {
    assert!(matches!(plan_probe(&row("a", ""), true), Probe::Known(false)));
    assert!(matches!(plan_probe(&row("a", "zz"), false), Probe::Known(false)));
    assert!(matches!(plan_probe(&row("a", G), false), Probe::Known(true)));
    assert!(matches!(plan_probe(&row("a", G), true), Probe::Ping(k) if k.bytes[0] == 2));
    let key = PublicKey { bytes: [9; 33] };
    assert!(matches!(probe_with(Some(key), true), Probe::Ping(k) if k.bytes == [9; 33]));
    assert!(matches!(probe_with(Some(key), false), Probe::Known(true)));
    assert!(matches!(probe_with(None, true), Probe::Known(false)));
}

#[test]
fn a_round_updates_the_peers_it_asked() {
    let mut status = TextMap::new();
    status.insert("a".to_string(), true);
    status.insert("b".to_string(), true);
    record_probes(&mut status, vec![("a".to_string(), false), ("c".to_string(), true)]);
    assert_eq!(status.get("a"), Some(&false));
    assert_eq!(status.get("b"), Some(&true));
    assert_eq!(status.get("c"), Some(&true));
}

#[test]
fn a_round_gives_each_peer_its_status() {
    let pong = Some(Message::new_empty(MessageType::Pong));
    let other = Some(Message::new_empty(MessageType::Ack));
    let up = |key: &str, stale, answer| probe_status(plan_probe(&row("a", key), stale), answer);
    assert!(up(G, true, &pong));
    assert!(!up(G, true, &other));
    assert!(!up(G, true, &None));
    assert!(up(G, false, &None));
    assert!(!up("nonsense", false, &None));
    assert!(!up("nonsense", true, &pong));
    let mut status = TextMap::new();
    let results = vec![("a".to_string(), up(G, true, &None)), ("b".to_string(), up(G, true, &pong))];
    record_probes(&mut status, results);
    assert_eq!(status.get("a"), Some(&false));
    assert_eq!(status.get("b"), Some(&true));
}
