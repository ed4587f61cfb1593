use decman::config::{CantonId, KeycloakConfig, PartyCredentials};
use decman::server::chunks::{count_chunks, write_chunked_metadata, ChunkCache, ChunkLimits};
use decman::server::invitations::InvitationType;
use decman::server::listener::{
    chunk_reply, command_reply, dispatch, health_reply, is_up, member_party_reply,
    owner_keys_reply, packages_reply, peer_list_reply, ping_outcome, refuse_short_frame,
    reject_frame, requested_parties, route_command, written_peers_reply, HttpReply, Message, MessageType,
    RouteStep, Step,
};
use decman::server::peers::{PeerRow, Sender};

const LIMITS: ChunkLimits = ChunkLimits { max_payload: 4, chunk_size: 3, max_total: 8 };

const SECOND: u64 = 1_000_000_000;

fn peer() -> Sender {
    Sender { id: Some("p".to_string()), pubkey: Some("key".to_string()) }
}

fn stranger() -> Sender {
    Sender { id: Some("p".to_string()), pubkey: None }
}

fn message(t: MessageType, instance: &str, payload: &[u8]) -> Message {
    Message { msg_type: t, instance: instance.to_string(), payload: payload.to_vec() }
}

fn ask(t: MessageType, sender: &Sender) -> Step {
    dispatch(message(t, "", b""), sender, "ours")
}

fn check(reply: HttpReply, status: u16, t: MessageType, payload: &[u8]) {
    assert_eq!(reply.status, status);
    let m = reply.message.unwrap();
    assert_eq!(m.msg_type, t);
    assert_eq!(m.payload, payload);
    assert_eq!(m.instance, "");
}

fn check_empty(reply: HttpReply, status: u16) {
    assert_eq!(reply.status, status);
    assert!(reply.message.is_none());
}

fn check_step(step: Step, status: u16, t: MessageType, payload: &[u8]) {
    match step {
        Step::Reply(reply) => check(reply, status, t, payload),
        _ => panic!("not answered at once"),
    }
}

fn check_empty_step(step: Step, status: u16) {
    match step {
        Step::Reply(reply) => check_empty(reply, status),
        _ => panic!("not answered at once"),
    }
}

#[test]
fn short_bodies_are_not_read() {
    check_empty(refuse_short_frame(&vec![0; 5]).unwrap(), 200);
    assert!(refuse_short_frame(&vec![0; 6]).is_none());
}

#[test]
fn unreadable_bodies_are_answered_with_the_reason() {
    check(reject_frame("bad version"), 503, MessageType::Error, b"request rejected: bad version");
}

#[test]
fn a_ping_is_answered_with_our_key() {
    check_step(ask(MessageType::Ping, &stranger()), 200, MessageType::Pong, b"ours");
}

#[test]
fn questions_for_this_node() {
    assert!(matches!(ask(MessageType::Health, &peer()), Step::ReadHealth));
    assert!(matches!(ask(MessageType::ListPackages, &peer()), Step::ListPackages));
    assert!(matches!(ask(MessageType::ListPeers, &peer()), Step::ListPeers));
    check(health_reply(vec![1, 2]), 200, MessageType::HealthResponse, &[1, 2]);
}

#[test]
fn owner_keys_are_asked_for_by_party() {
    let named = message(MessageType::RequestOwnerKeys, "", br#"["a::b","c"]"#);
    match dispatch(named, &peer(), "ours") {
        Step::ReadOwnerKeys(ids) => assert_eq!(ids, vec!["a::b", "c"]),
        _ => panic!("not a question for owner keys"),
    }
    for payload in [&b""[..], b"{}", b"[1]", b"[\"a\""] {
        let unreadable = message(MessageType::RequestOwnerKeys, "", payload);
        match dispatch(unreadable, &peer(), "ours") {
            Step::ReadOwnerKeys(ids) => assert!(ids.is_empty()),
            _ => panic!("not a question for owner keys"),
        }
    }
    assert_eq!(requested_parties(Some(vec!["a".to_string()])), vec!["a"]);
    assert!(requested_parties(None).is_empty());
    check(owner_keys_reply(Ok(vec![7])), 200, MessageType::OwnerKeys, &[7]);
    check(owner_keys_reply(Err("down".to_string())), 200, MessageType::OwnerKeys, b"[]");
}

#[test]
fn commands_go_to_their_run() {
    for t in [
        MessageType::GetNextCommand,
        MessageType::KeysUpload,
        MessageType::DnsSignature,
        MessageType::P2pSignatures,
        MessageType::SubmissionSignatures,
        MessageType::KickSignatures,
        MessageType::AddPartyKeysUpload,
        MessageType::AddPartySignatures,
        MessageType::AddPartyClearSignatures,
        MessageType::AddPartyClearProposal,
        MessageType::ChangeThresholdSignatures,
        MessageType::StatusUpdate,
        MessageType::DeclineInvitation,
    ] {
        assert!(matches!(
            dispatch(message(t, "run", b"x"), &stranger(), "ours"),
            Step::Route(m) if m.msg_type == t && m.instance == "run" && m.payload == b"x"
        ));
    }
}

#[test]
fn invitations_are_recorded_for_known_senders() {
    let kinds = [
        (MessageType::InviteOnboarding, InvitationType::Onboarding),
        (MessageType::InviteKick, InvitationType::Kick),
        (MessageType::InviteContracts, InvitationType::Contracts),
        (MessageType::InviteDars, InvitationType::Dars),
        (MessageType::InviteAddParty, InvitationType::AddParty),
        (MessageType::InviteChangeThreshold, InvitationType::ChangeThreshold),
    ];
    for (t, kind) in kinds {
        match dispatch(message(t, "", b"{}"), &peer(), "ours") {
            Step::Invite { invitation_type, pubkey, payload } => {
                assert_eq!(invitation_type, kind);
                assert_eq!(pubkey, "key");
                assert_eq!(payload, b"{}");
            }
            _ => panic!("not an invitation"),
        }
        check_step(ask(t, &stranger()), 200, MessageType::Ack, b"");
    }
}

#[test]
fn cancels_and_retries_are_for_known_senders() {
    assert!(matches!(
        dispatch(message(MessageType::CancelInvite, "run", b""), &peer(), "ours"),
        Step::Cancel { pubkey, instance } if pubkey == "key" && instance == "run"
    ));
    assert!(matches!(
        dispatch(message(MessageType::RetryWorkflow, "", b""), &peer(), "ours"),
        Step::Retry { pubkey, instance } if pubkey == "key" && instance.is_empty()
    ));
    check_step(ask(MessageType::CancelInvite, &stranger()), 200, MessageType::Ack, b"");
    check_step(ask(MessageType::RetryWorkflow, &stranger()), 200, MessageType::Ack, b"");
}

#[test]
fn other_messages_are_ignored() {
    check_empty_step(ask(MessageType::Other(999), &peer()), 200);
    check_empty_step(ask(MessageType::Pong, &peer()), 200);
}

#[test]
fn requests_for_chunks() {
    let named = message(MessageType::GetChunk, "run", b"");
    assert!(matches!(dispatch(named, &peer(), "ours"), Step::Route(_)));
    check_empty_step(
        dispatch(message(MessageType::GetChunk, "", &[0, 0, 1]), &peer(), "ours"),
        400,
    );
    check_empty_step(
        dispatch(message(MessageType::GetChunk, "", &[0, 0, 0, 1]), &stranger(), "ours"),
        400,
    );
    assert!(matches!(
        dispatch(message(MessageType::GetChunk, "", &[0, 1, 2, 3, 9]), &peer(), "ours"),
        Step::ReadChunk { pubkey, index } if pubkey == "key" && index == 0x0001_0203
    ));
}

#[test]
fn a_small_listing_goes_out_at_once() {
    let mut cache = ChunkCache::new();
    let reply = packages_reply(Ok(b"1234".to_vec()), &peer(), &mut cache, LIMITS, 7, 0);
    check(reply, 200, MessageType::Data, b"1234");
    let reply = packages_reply(Err("down".to_string()), &peer(), &mut cache, LIMITS, 7, 0);
    check(reply, 200, MessageType::Data, b"[]");
    let reply = packages_reply(Ok(b"12345".to_vec()), &stranger(), &mut cache, LIMITS, 7, 0);
    check(reply, 200, MessageType::Data, b"12345");
    assert!(cache.entries.is_empty());
}

#[test]
fn a_listing_that_is_too_large_is_refused() {
    let mut cache = ChunkCache::new();
    let reply = packages_reply(Ok(vec![0; 9]), &peer(), &mut cache, LIMITS, 7, 0);
    check_empty(reply, 500);
    assert!(cache.entries.is_empty());
}

#[test]
fn a_large_listing_is_fetched_in_chunks() {
    let mut cache = ChunkCache::new();
    let listing = b"12345678".to_vec();
    let reply = packages_reply(Ok(listing.clone()), &peer(), &mut cache, LIMITS, 0x0102, 0);
    check(
        reply,
        200,
        MessageType::ChunkedCommand,
        &[1, 2, 0, 0, 0, 8, 0, 0, 0, 3],
    );
    let mut whole = Vec::new();
    for index in 0..3u32 {
        // Each read gives the listing another half minute.
        let now = (index as u64 + 1) * 29 * SECOND;
        let reply = chunk_reply(&mut cache, "key", index, LIMITS, now);
        assert_eq!(reply.status, 200);
        let m = reply.message.unwrap();
        assert_eq!(m.msg_type, MessageType::Chunk);
        assert_eq!(m.payload[..4], index.to_be_bytes());
        whole.extend_from_slice(&m.payload[4..]);
    }
    assert_eq!(whole, listing);
    check_empty(chunk_reply(&mut cache, "key", 3, LIMITS, 88 * SECOND), 400);
    check_empty(chunk_reply(&mut cache, "other", 0, LIMITS, 88 * SECOND), 404);
    check_empty(chunk_reply(&mut cache, "key", 0, LIMITS, 117 * SECOND), 404);
    assert!(cache.entries.is_empty());
}

#[test]
fn an_offer_lets_expired_listings_go() {
    let mut cache = ChunkCache::new();
    cache.offer("a", vec![1], 0);
    cache.offer("b", vec![2], 20 * SECOND);
    cache.offer("c", vec![3], 30 * SECOND);
    assert!(!cache.entries.contains_key("a"));
    assert!(cache.entries.contains_key("b"));
    cache.offer("b", vec![4], 31 * SECOND);
    assert_eq!(cache.entries.get("b").unwrap().bytes, vec![4]);
}

#[test]
fn chunks_are_counted_and_announced() {
    assert_eq!(count_chunks(0, 3), 0);
    assert_eq!(count_chunks(3, 3), 1);
    assert_eq!(count_chunks(4, 3), 2);
    assert_eq!(
        write_chunked_metadata(0xabcd, 0x0102_0304, 5),
        vec![0xab, 0xcd, 1, 2, 3, 4, 0, 0, 0, 5]
    );
}

fn row(id: &str) -> PeerRow {
    PeerRow {
        participant_id: id.to_string(),
        address: "host".to_string(),
        port: 1,
        public_key: String::new(),
    }
}

#[test]
fn peers_are_listed_as_json() {
    check(
        peer_list_reply(Ok(vec![row("a"), row("b\"c")])),
        200,
        MessageType::PeerList,
        br#"["a","b\"c"]"#,
    );
    check(peer_list_reply(Ok(vec![])), 200, MessageType::PeerList, b"[]");
    check(peer_list_reply(Err("down".to_string())), 200, MessageType::PeerList, b"[]");
    check(written_peers_reply(Some(vec![1])), 200, MessageType::PeerList, &[1]);
    check(written_peers_reply(None), 200, MessageType::PeerList, b"[]");
}

fn credentials(dec: &str, member: &str) -> PartyCredentials {
    PartyCredentials {
        dec_party_id: CantonId { text: dec.to_string() },
        member_party_id: CantonId { text: member.to_string() },
        user_id: String::new(),
        keycloak: KeycloakConfig {
            url: String::new(),
            internal_url: None,
            realm: String::new(),
            client_id: String::new(),
            client_secret: None,
            username: None,
            password: None,
        },
        auth0: None,
    }
}

#[test]
fn the_member_of_a_party_is_found() {
    let all = vec![credentials("d1", "m1"), credentials("d2", "m2"), credentials("d2", "m3")];
    let reply = |p: &[u8]| member_party_reply(&all, &p.to_vec());
    check(reply(b"d2"), 200, MessageType::MemberPartyResponse, b"m2");
    check(reply(b"d3"), 200, MessageType::MemberPartyResponse, b"");
    check(reply(&[0xff]), 200, MessageType::MemberPartyResponse, b"");
}

#[test]
fn a_run_that_is_gone_is_answered_with_a_refusal() {
    match route_command(MessageType::GetNextCommand, false, Some("p".to_string())) {
        RouteStep::Reply(reply) => check_empty(reply, 503),
        RouteStep::Handle(_) => panic!("handled"),
    }
    match route_command(MessageType::GetChunk, false, None) {
        RouteStep::Reply(reply) => check(
            reply,
            503,
            MessageType::Error,
            b"no such workflow run on this peer: it was cancelled or already finished",
        ),
        RouteStep::Handle(_) => panic!("handled"),
    }
    match route_command(MessageType::KeysUpload, true, None) {
        RouteStep::Reply(reply) => check(reply, 200, MessageType::Wait, b""),
        RouteStep::Handle(_) => panic!("handled"),
    }
    assert!(matches!(
        route_command(MessageType::KeysUpload, true, Some("p".to_string())),
        RouteStep::Handle(id) if id == "p"
    ));
}

#[test]
fn what_a_run_says_goes_out() {
    let said = command_reply(Ok(message(MessageType::Data, "run", b"x")));
    assert_eq!(said.status, 200);
    assert_eq!(said.message.unwrap().instance, "run");
    check(command_reply(Err("boom".to_string())), 200, MessageType::Error, b"boom");
}

#[test]
fn only_a_pong_shows_that_a_peer_is_up() {
    assert!(is_up(&Some(message(MessageType::Pong, "", b""))));
    assert!(!is_up(&Some(message(MessageType::Ack, "", b""))));
    assert!(!is_up(&None));
}

#[test]
fn a_peer_is_heard_of_by_its_pong_only() {
    let up = ping_outcome(&Some(message(MessageType::Pong, "", b"")));
    assert!(up.up && up.seen_now);
    let odd = ping_outcome(&Some(message(MessageType::Error, "", b"")));
    assert!(!odd.up && !odd.seen_now);
    let silent = ping_outcome(&None);
    assert!(!silent.up && !silent.seen_now);
}
