//! What holds between a peer's message and what is done about it.

use vstd::prelude::*;
use vstd::string::*;
use vstd::utf8::*;

use crate::config::PartyCredentials;
use crate::outside;
use crate::server::chunks;
use crate::server::chunks::{CachedPayload, ChunkLimits};
use crate::server::invitations;
use crate::server::invitations::{InvitationType, PendingInvitation};
use crate::server::listener;
use crate::server::listener::{HttpReply, Message, MessageType, PingOutcome, RouteStep, Step};
use crate::server::peers::{PeerRow, Sender};
use crate::server::workflow_laws;
use crate::server::workflows;
use crate::server::workflows::{WorkflowProgress, WorkflowRole, WorkflowRun};
use crate::text;

verus! {

/// A cancel and a retry are for exactly the run that the message names, on the
/// account of the message's sender; a known sender gets one by each such message,
/// and nobody gets one by any other.
pub proof fn law_cancel_and_retry_are_for_the_named_run(
    message: Message,
    pubkey: Option<Seq<char>>,
    our_pubkey: Seq<char>,
    step: Step,
)
    requires
        listener::asks_for(message, pubkey, our_pubkey, step),
    ensures
        step is Cancel <==> message.msg_type == MessageType::CancelInvite && pubkey is Some,
        step matches Step::Cancel { pubkey: key, instance } ==> instance@ == message.instance@
            && pubkey == Some(key@),
        step is Retry <==> message.msg_type == MessageType::RetryWorkflow && pubkey is Some,
        step matches Step::Retry { pubkey: key, instance } ==> instance@ == message.instance@
            && pubkey == Some(key@),
{
}

/// Messages that name different runs never ask for the same cancel or retry.
pub proof fn law_named_runs_are_told_apart(
    first: Message,
    second: Message,
    pubkey: Option<Seq<char>>,
    our_pubkey: Seq<char>,
    step: Step,
)
    requires
        listener::asks_for(first, pubkey, our_pubkey, step),
        listener::asks_for(second, pubkey, our_pubkey, step),
        step is Cancel || step is Retry,
    ensures
        first.instance@ == second.instance@,
        first.msg_type == second.msg_type,
{
}

/// A retry that names a run starts no run but failed ones that the sender
/// coordinates under that name, and it starts all of those.
pub proof fn law_named_retry_reaches_that_run_only(
    message: Message,
    pubkey: Option<Seq<char>>,
    our_pubkey: Seq<char>,
    step: Step,
    run: WorkflowRun,
)
    requires
        listener::asks_for(message, pubkey, our_pubkey, step),
        step is Retry,
        message.instance@.len() > 0,
    ensures
        step matches Step::Retry { pubkey: key, instance } && (workflows::retries(
            key@,
            instance@,
        )(run) <==> {
            &&& run.role == WorkflowRole::Peer
            &&& run.status == WorkflowProgress::Failed
            &&& run.coordinator_pubkey matches Some(holder) && pubkey == Some(holder@)
            &&& run.coordinator_instance matches Some(name) && name@ == message.instance@
        }),
{
    if let Step::Retry { pubkey: key, instance } = step {
        workflow_laws::law_who_has_a_say(run, key@, instance@);
    }
}

/// A cancel that names a run reaches no run and no invitation but those that the
/// sender coordinates under that name, and it reaches all of those.
pub proof fn law_named_cancel_reaches_that_run_only(
    message: Message,
    pubkey: Option<Seq<char>>,
    our_pubkey: Seq<char>,
    step: Step,
    run: WorkflowRun,
    invitation: PendingInvitation,
)
    requires
        listener::asks_for(message, pubkey, our_pubkey, step),
        step is Cancel,
        message.instance@.len() > 0,
    ensures
        step matches Step::Cancel { pubkey: key, instance } && (workflows::cancels(
            key@,
            instance@,
        )(run) <==> {
            &&& run.role == WorkflowRole::Peer
            &&& run.coordinator_pubkey matches Some(holder) && pubkey == Some(holder@)
            &&& run.coordinator_instance matches Some(name) && name@ == message.instance@
        }) && (invitations::concerns(invitation, key@, instance@) <==> {
            &&& pubkey == Some(invitation.coordinator_pubkey@)
            &&& invitation.workflow_instance matches Some(name) && name@ == message.instance@
        }),
{
    if let Step::Cancel { pubkey: key, instance } = step {
        workflow_laws::law_who_has_a_say(run, key@, instance@);
    }
}

/// A cancel or a retry that names no run reaches every run of the sender.
pub proof fn law_unnamed_requests_reach_every_run_of_the_sender(
    message: Message,
    pubkey: Option<Seq<char>>,
    our_pubkey: Seq<char>,
    step: Step,
    run: WorkflowRun,
    invitation: PendingInvitation,
)
    requires
        listener::asks_for(message, pubkey, our_pubkey, step),
        message.instance@.len() == 0,
    ensures
        step matches Step::Cancel { pubkey: key, instance } ==> (workflows::cancels(
            key@,
            instance@,
        )(run) <==> run.role == WorkflowRole::Peer && (run.coordinator_pubkey matches Some(holder)
            && pubkey == Some(holder@))) && (invitations::concerns(invitation, key@, instance@)
            <==> pubkey == Some(invitation.coordinator_pubkey@)),
        step matches Step::Retry { pubkey: key, instance } ==> (workflows::retries(
            key@,
            instance@,
        )(run) <==> run.role == WorkflowRole::Peer && run.status == WorkflowProgress::Failed && (
        run.coordinator_pubkey matches Some(holder) && pubkey == Some(holder@))),
{
    match step {
        Step::Cancel { pubkey: key, instance } => {
            workflow_laws::law_who_has_a_say(run, key@, instance@);
        },
        Step::Retry { pubkey: key, instance } => {
            workflow_laws::law_who_has_a_say(run, key@, instance@);
        },
        _ => {},
    }
}

/// An invitation is of the kind that its message has the name of, with what came
/// with the message; a known sender invites by each such message, and nobody by
/// any other.
pub proof fn law_invitations_have_the_kind_of_their_message(
    message: Message,
    pubkey: Option<Seq<char>>,
    our_pubkey: Seq<char>,
    step: Step,
)
    requires
        listener::asks_for(message, pubkey, our_pubkey, step),
    ensures
        step matches Step::Invite { invitation_type, pubkey: key, payload } ==> {
            &&& pubkey == Some(key@)
            &&& payload == message.payload
            &&& message.msg_type == MessageType::InviteOnboarding <==> invitation_type
                == InvitationType::Onboarding
            &&& message.msg_type == MessageType::InviteKick <==> invitation_type
                == InvitationType::Kick
            &&& message.msg_type == MessageType::InviteContracts <==> invitation_type
                == InvitationType::Contracts
            &&& message.msg_type == MessageType::InviteDars <==> invitation_type
                == InvitationType::Dars
            &&& message.msg_type == MessageType::InviteAddParty <==> invitation_type
                == InvitationType::AddParty
            &&& message.msg_type == MessageType::InviteChangeThreshold <==> invitation_type
                == InvitationType::ChangeThreshold
        },
        step is Invite <==> pubkey is Some && (message.msg_type == MessageType::InviteOnboarding
            || message.msg_type == MessageType::InviteKick || message.msg_type
            == MessageType::InviteContracts || message.msg_type == MessageType::InviteDars
            || message.msg_type == MessageType::InviteAddParty || message.msg_type
            == MessageType::InviteChangeThreshold),
{
}

/// A message is handed to a run as it came. That befalls each command of a
/// workflow, whoever sent it, and a request for a chunk that names a run; nothing
/// else.
pub proof fn law_commands_are_routed_as_they_came(
    message: Message,
    pubkey: Option<Seq<char>>,
    our_pubkey: Seq<char>,
    step: Step,
)
    requires
        listener::asks_for(message, pubkey, our_pubkey, step),
    ensures
        step is Route ==> step == Step::Route(message),
        step is Route <==> {
            let t = message.msg_type;
            ||| t == MessageType::GetNextCommand
            ||| t == MessageType::KeysUpload
            ||| t == MessageType::DnsSignature
            ||| t == MessageType::P2pSignatures
            ||| t == MessageType::SubmissionSignatures
            ||| t == MessageType::KickSignatures
            ||| t == MessageType::AddPartyKeysUpload
            ||| t == MessageType::AddPartySignatures
            ||| t == MessageType::AddPartyClearSignatures
            ||| t == MessageType::AddPartyClearProposal
            ||| t == MessageType::ChangeThresholdSignatures
            ||| t == MessageType::StatusUpdate
            ||| t == MessageType::DeclineInvitation
            ||| t == MessageType::GetChunk && message.instance@.len() > 0
        },
{
}

/// A request for a chunk that names no run is for the chunk whose number its first
/// four bytes make, of what is kept for the sender; one without a number or from a
/// stranger is refused.
pub proof fn law_chunk_requests_are_for_their_number(
    message: Message,
    pubkey: Option<Seq<char>>,
    our_pubkey: Seq<char>,
    step: Step,
)
    requires
        listener::asks_for(message, pubkey, our_pubkey, step),
    ensures
        step is ReadChunk <==> message.msg_type == MessageType::GetChunk && message.instance@.len()
            == 0 && message.payload@.len() >= 4 && pubkey is Some,
        step matches Step::ReadChunk { pubkey: key, index } ==> pubkey == Some(key@) && index
            == message.payload@[0] * 16_777_216 + message.payload@[1] * 65_536
            + message.payload@[2] * 256 + message.payload@[3],
        message.msg_type == MessageType::GetChunk && !(step is ReadChunk) && !(step is Route) ==> (
        step matches Step::Reply(reply) && reply.status == 400 && reply.message is None),
{
}

/// Each question is passed on as what it asks, and with what it names.
pub proof fn law_questions_are_passed_on(
    message: Message,
    pubkey: Option<Seq<char>>,
    our_pubkey: Seq<char>,
    step: Step,
)
    requires
        listener::asks_for(message, pubkey, our_pubkey, step),
    ensures
        step is ReadHealth <==> message.msg_type == MessageType::Health,
        step is ListPackages <==> message.msg_type == MessageType::ListPackages,
        step is ListPeers <==> message.msg_type == MessageType::ListPeers,
        step is FindMemberParty <==> message.msg_type == MessageType::RequestMemberParty,
        step matches Step::FindMemberParty(payload) ==> payload == message.payload,
        step is ReadOwnerKeys <==> message.msg_type == MessageType::RequestOwnerKeys,
        step matches Step::ReadOwnerKeys(ids) ==> match outside::json_texts(message.payload@) {
            Some(list) => text::texts(ids@) == list,
            None => ids@.len() == 0,
        },
{
    if let Step::ReadOwnerKeys(ids) = step {
        assert(text::texts(ids@).len() == ids@.len());
    }
}

/// What is answered at once: a ping with a pong that holds this node's key; what a
/// stranger may not ask for, with the word that it was taken; and what asks for
/// nothing, with nothing.
pub proof fn law_what_is_answered_at_once(
    message: Message,
    pubkey: Option<Seq<char>>,
    our_pubkey: Seq<char>,
    reply: HttpReply,
)
    requires
        listener::asks_for(message, pubkey, our_pubkey, Step::Reply(reply)),
    ensures
        reply.status == 200 <==> message.msg_type != MessageType::GetChunk,
        reply.message matches Some(m) ==> m.instance@.len() == 0,
        message.msg_type == MessageType::Ping <==> (reply.message matches Some(m) && m.msg_type
            == MessageType::Pong),
        message.msg_type == MessageType::Ping ==> (reply.message matches Some(m) && m.payload@
            == encode_utf8(our_pubkey)),
        (message.msg_type == MessageType::CancelInvite || message.msg_type
            == MessageType::RetryWorkflow || message.msg_type == MessageType::InviteOnboarding
            || message.msg_type == MessageType::InviteKick || message.msg_type
            == MessageType::InviteContracts || message.msg_type == MessageType::InviteDars
            || message.msg_type == MessageType::InviteAddParty || message.msg_type
            == MessageType::InviteChangeThreshold) <==> (reply.message matches Some(m)
            && m.msg_type == MessageType::Ack),
        reply.message matches Some(m) ==> m.msg_type == MessageType::Ack ==> m.payload@.len() == 0
            && pubkey is None,
        reply.message matches Some(m) ==> m.msg_type == MessageType::Pong || m.msg_type
            == MessageType::Ack,
{
}

/// A body is read exactly where it has six bytes or more; a shorter one is answered
/// with nothing.
pub proof fn law_short_bodies_are_not_read(body: Vec<u8>, reply: Option<HttpReply>)
    requires
        call_ensures(listener::refuse_short_frame, (&body,), reply),
    ensures
        reply is Some <==> body@.len() < 6,
        reply matches Some(r) ==> r.status == 200 && r.message is None,
{
}

/// A run handles a message exactly where the run is there and the sender has an
/// id, and then on the account of that id. Whatever its type, a message for a run
/// that is gone is answered as not available, and one of a sender without an id
/// with the word to wait.
pub proof fn law_runs_handle_what_is_theirs(
    msg_type: MessageType,
    run_found: bool,
    peer: Option<String>,
    step: RouteStep,
)
    requires
        call_ensures(listener::route_command, (msg_type, run_found, peer), step),
    ensures
        step is Handle <==> run_found && peer is Some,
        step matches RouteStep::Handle(id) ==> peer == Some(id),
        step matches RouteStep::Reply(reply) ==> (reply.status == 503 <==> !run_found),
        step matches RouteStep::Reply(reply) ==> (reply.status == 200 <==> run_found),
        step matches RouteStep::Reply(reply) ==> (run_found ==> (reply.message matches Some(m)
            && m.msg_type == MessageType::Wait && m.payload@.len() == 0)),
        step matches RouteStep::Reply(reply) ==> (!run_found ==> (reply.message is Some
            <==> msg_type == MessageType::GetChunk)),
        step matches RouteStep::Reply(reply) ==> (!run_found ==> (
        reply.message matches Some(m) ==> m.msg_type == MessageType::Error)),
{
}

/// What a run answered is passed on as it came; why it failed is told as an error.
pub proof fn law_answers_of_runs_are_passed_on(
    handled: Result<Message, String>,
    reply: HttpReply,
)
    requires
        call_ensures(listener::command_reply, (handled,), reply),
    ensures
        reply.status == 200,
        handled matches Ok(message) ==> reply.message == Some(message),
        handled matches Err(reason) ==> (reply.message matches Some(m) && m.msg_type
            == MessageType::Error && m.payload@ == encode_utf8(reason@)),
{
}

/// A peer is up, and counts as heard of, exactly where it answered with a pong.
pub proof fn law_only_a_pong_shows_a_peer(answer: Option<Message>, outcome: PingOutcome, up: bool)
    requires
        call_ensures(listener::ping_outcome, (&answer,), outcome),
        call_ensures(listener::is_up, (&answer,), up),
    ensures
        outcome.up <==> answer is Some && answer->0.msg_type == MessageType::Pong,
        outcome.seen_now <==> outcome.up,
        up <==> outcome.up,
{
}

/// The member party that is told is that of the first credentials for the party;
/// none is told exactly where there are no credentials for it.
pub proof fn law_first_credentials_name_the_member(
    credentials: Seq<PartyCredentials>,
    party: Seq<char>,
)
    ensures
        listener::member_party_of(credentials, party) is Some <==> exists|i: int|
            0 <= i < credentials.len() && #[trigger] credentials[i].dec_party_id@ == party,
        forall|i: int|
            0 <= i < credentials.len() && #[trigger] credentials[i].dec_party_id@ == party && (
            forall|j: int|
                0 <= j < i ==> #[trigger] credentials[j].dec_party_id@ != party)
                ==> listener::member_party_of(credentials, party) == Some(
                credentials[i].member_party_id@,
            ),
    decreases credentials.len(),
{
    if credentials.len() > 0 {
        let rest = credentials.drop_first();
        law_first_credentials_name_the_member(rest, party);
        if exists|i: int|
            0 <= i < credentials.len() && #[trigger] credentials[i].dec_party_id@ == party {
            let i = choose|i: int|
                0 <= i < credentials.len() && #[trigger] credentials[i].dec_party_id@ == party;
            if i > 0 {
                assert(rest[i - 1].dec_party_id@ == party);
            }
        }
        if exists|i: int| 0 <= i < rest.len() && #[trigger] rest[i].dec_party_id@ == party {
            let i = choose|i: int|
                0 <= i < rest.len() && #[trigger] rest[i].dec_party_id@ == party;
            assert(credentials[i + 1].dec_party_id@ == party);
        }
        assert forall|i: int|
            0 <= i < credentials.len() && #[trigger] credentials[i].dec_party_id@ == party && (
            forall|j: int|
                0 <= j < i ==> #[trigger] credentials[j].dec_party_id@
                    != party) implies listener::member_party_of(credentials, party) == Some(
            credentials[i].member_party_id@,
        ) by {
            if i > 0 {
                assert(credentials[0].dec_party_id@ != party);
                assert(rest[i - 1].dec_party_id@ == party);
                assert forall|j: int| 0 <= j < i - 1 implies #[trigger] rest[j].dec_party_id@
                    != party by {
                    assert(credentials[j + 1].dec_party_id@ != party);
                }
            }
        }
    }
}

/// Who asks for the member of a party is told the id of this node's member of that
/// party, or nothing.
pub proof fn law_members_are_told_to_who_asks(
    credentials: Vec<PartyCredentials>,
    payload: Vec<u8>,
    reply: HttpReply,
    i: int,
)
    requires
        call_ensures(listener::member_party_reply, (&credentials, &payload), reply),
        0 <= i < credentials@.len(),
        forall|j: int| 0 <= j < i ==> #[trigger] credentials@[j].dec_party_id@
            != credentials@[i].dec_party_id@,
        valid_utf8(payload@),
        decode_utf8(payload@) == credentials@[i].dec_party_id@,
    ensures
        reply.status == 200,
        reply.message matches Some(m) && m.msg_type == MessageType::MemberPartyResponse
            && m.payload@ == encode_utf8(credentials@[i].member_party_id@),
{
    law_first_credentials_name_the_member(credentials@, credentials@[i].dec_party_id@);
}

/// What was read is sent as it was read: owner keys as owner keys, health as
/// health; where owner keys could not be read, an empty list is sent.
pub proof fn law_what_was_read_is_sent(
    read: Result<Vec<u8>, String>,
    keys_reply: HttpReply,
    health: Vec<u8>,
    health_reply: HttpReply,
)
    requires
        call_ensures(listener::owner_keys_reply, (read,), keys_reply),
        call_ensures(listener::health_reply, (health,), health_reply),
    ensures
        keys_reply.status == 200,
        keys_reply.message matches Some(m) && m.msg_type == MessageType::OwnerKeys && (
        read matches Ok(bytes) ==> m.payload@ == bytes@) && (read is Err ==> m.payload@
            == seq![0x5bu8, 0x5du8]),
        health_reply.status == 200,
        health_reply.message matches Some(m) && m.msg_type == MessageType::HealthResponse
            && m.payload@ == health@,
{
}

/// The ids of the peers that are told are those of the rows, in their order.
pub proof fn law_peers_are_told_in_order(peers: Seq<PeerRow>, i: int)
    requires
        0 <= i < peers.len(),
    ensures
        listener::peer_ids(peers).len() == peers.len(),
        listener::peer_ids(peers)[i] == peers[i].participant_id@,
{
}

/// A listing that fits in one reply goes out whole, and so does every listing to a
/// stranger; nothing is kept for it.
pub proof fn law_small_listings_go_out_whole(
    reply: HttpReply,
    listing: Vec<u8>,
    sender: Option<Seq<char>>,
    before: Map<Seq<char>, CachedPayload>,
    after: Map<Seq<char>, CachedPayload>,
    limits: ChunkLimits,
    data_code: u16,
    now: u64,
)
    requires
        listener::answers_listing(
            reply,
            Ok::<Vec<u8>, String>(listing),
            sender,
            before,
            after,
            limits,
            data_code,
            now,
        ),
    ensures
        (listing@.len() <= limits.max_payload || sender is None) <==> (
        reply.message matches Some(m) && m.msg_type == MessageType::Data),
        reply.message matches Some(m) ==> (m.msg_type == MessageType::Data ==> m.payload@
            == listing@ && after == before),
        reply.status == 500 <==> listing@.len() > limits.max_payload && sender is Some
            && listing@.len() > limits.max_total,
        reply.status == 500 ==> after == before && reply.message is None,
        reply.status == 500 || reply.status == 200,
{
}

/// A listing that could not be read goes out as an empty one.
pub proof fn law_unread_listings_are_empty(
    reply: HttpReply,
    reason: String,
    sender: Option<Seq<char>>,
    before: Map<Seq<char>, CachedPayload>,
    after: Map<Seq<char>, CachedPayload>,
    limits: ChunkLimits,
    data_code: u16,
    now: u64,
)
    requires
        limits.max_payload >= 2,
        listener::answers_listing(
            reply,
            Err::<Vec<u8>, String>(reason),
            sender,
            before,
            after,
            limits,
            data_code,
            now,
        ),
    ensures
        reply.status == 200,
        reply.message matches Some(m) && m.msg_type == MessageType::Data && m.payload@
            == seq![0x5bu8, 0x5du8],
        after == before,
{
}

/// A listing that is announced in chunks can be fetched: within half a minute of
/// the announcement, which tells its length, a request for any chunk in range gets
/// the number of the chunk and then the bytes of the listing at its place.
pub proof fn law_announced_listings_can_be_fetched(
    announced: HttpReply,
    listing: Vec<u8>,
    pubkey: Seq<char>,
    before: Map<Seq<char>, CachedPayload>,
    between: Map<Seq<char>, CachedPayload>,
    limits: ChunkLimits,
    data_code: u16,
    now: u64,
    index: u32,
    later: u64,
    after: Map<Seq<char>, CachedPayload>,
    reply: HttpReply,
)
    requires
        limits.valid(),
        limits.max_payload < listing@.len() <= limits.max_total,
        listener::answers_listing(
            announced,
            Ok::<Vec<u8>, String>(listing),
            Some(pubkey),
            before,
            between,
            limits,
            data_code,
            now,
        ),
        listener::answers_chunk(reply, between, after, pubkey, index, limits, later),
        later - now < 30_000_000_000,
        index * limits.chunk_size < listing@.len(),
    ensures
        announced.status == 200,
        announced.message matches Some(m) && m.msg_type == MessageType::ChunkedCommand
            && m.payload@.len() == 10 && m.payload@[0] * 256 + m.payload@[1] == data_code
            && m.payload@[2] * 16_777_216 + m.payload@[3] * 65_536 + m.payload@[4] * 256
            + m.payload@[5] == listing@.len() && forall|i: int|
            0 <= i ==> (i < m.payload@[6] * 16_777_216 + m.payload@[7] * 65_536 + m.payload@[8]
                * 256 + m.payload@[9] <==> #[trigger] (i * limits.chunk_size) < listing@.len()),
        reply.status == 200,
        reply.message matches Some(m) && m.msg_type == MessageType::Chunk && m.payload@.len() == 4
            + if listing@.len() - index * limits.chunk_size >= limits.chunk_size {
            limits.chunk_size as int
        } else {
            listing@.len() - index * limits.chunk_size
        } && m.payload@[0] * 16_777_216 + m.payload@[1] * 65_536 + m.payload@[2] * 256
            + m.payload@[3] == index && forall|j: int|
            4 <= j < m.payload@.len() ==> #[trigger] m.payload@[j] == listing@[index
                * limits.chunk_size + j - 4],
        after.contains_key(pubkey) && after[pubkey].bytes@ == listing@,
{
    let chunks_in_all = chunks::chunk_count(listing@.len(), limits.chunk_size as nat);
    let count = chunks_in_all as u32;
    chunks::law_chunks_make_the_payload(listing@, limits.chunk_size as nat);
    let n = listing@.len() as int;
    assert(n * limits.chunk_size >= n) by (nonlinear_arith)
        requires
            n >= 0,
            limits.chunk_size >= 1,
    ;
    assert(!(n < chunks_in_all));
    assert(count == chunks_in_all);
    chunks::law_metadata_can_be_read_back(data_code, listing@.len() as u32, count);
    chunks::law_be32_round_trip(index);
    assert(index * limits.chunk_size >= 0) by (nonlinear_arith)
        requires
            index >= 0,
            limits.chunk_size >= 0,
    ;
    let part = chunks::chunk(listing@, index as int, limits.chunk_size as int);
    let all = chunks::be32(index) + part;
    assert(all.len() == 4 + part.len());
    assert(all[0] == chunks::be32(index)[0]);
    assert(all[1] == chunks::be32(index)[1]);
    assert(all[2] == chunks::be32(index)[2]);
    assert(all[3] == chunks::be32(index)[3]);
    assert forall|j: int| 4 <= j < all.len() implies #[trigger] all[j] == listing@[index
        * limits.chunk_size + j - 4] by {
        assert(all[j] == part[j - 4]);
    }
}

/// A chunk is refused as not found exactly where nothing is kept for the peer or
/// half a minute has gone by, and as a bad request exactly where its number is out
/// of range; a refusal starts no time anew.
pub proof fn law_chunks_are_refused_for_a_reason(
    reply: HttpReply,
    before: Map<Seq<char>, CachedPayload>,
    after: Map<Seq<char>, CachedPayload>,
    pubkey: Seq<char>,
    index: u32,
    limits: ChunkLimits,
    now: u64,
)
    requires
        listener::answers_chunk(reply, before, after, pubkey, index, limits, now),
    ensures
        reply.status == 404 <==> !before.contains_key(pubkey) || now - before[pubkey].at
            >= 30_000_000_000,
        reply.status == 400 <==> before.contains_key(pubkey) && now - before[pubkey].at
            < 30_000_000_000 && index * limits.chunk_size >= before[pubkey].bytes@.len(),
        reply.status == 404 || reply.status == 400 || reply.status == 200,
        reply.status != 200 ==> reply.message is None,
        reply.status == 400 ==> after == before,
        reply.status == 404 ==> !after.contains_key(pubkey),
        after.remove(pubkey) == before.remove(pubkey),
{
    assert(after.remove(pubkey) =~= before.remove(pubkey));
}

/// A body that could not be read is answered as not available, with the reason.
pub proof fn law_unreadable_bodies_are_refused(reason: &str, reply: HttpReply)
    requires
        call_ensures(listener::reject_frame, (reason,), reply),
    ensures
        reply.status == 503,
        reply.message matches Some(m) && m.msg_type == MessageType::Error && m.payload@
            == encode_utf8("request rejected: "@ + reason@),
{
}

/// The peers are told as the JSON of their ids; where they could not be loaded, or
/// where that could not be written, an empty list is.
pub proof fn law_peers_are_told_as_json(
    loaded: Result<Vec<PeerRow>, String>,
    reply: HttpReply,
    written: Option<Vec<u8>>,
    direct: HttpReply,
)
    requires
        call_ensures(listener::peer_list_reply, (loaded,), reply),
        call_ensures(listener::written_peers_reply, (written,), direct),
    ensures
        reply.status == 200,
        reply.message matches Some(m) && m.msg_type == MessageType::PeerList,
        loaded is Err ==> reply.message->0.payload@ == seq![0x5bu8, 0x5du8],
        loaded matches Ok(peers) ==> (outside::json_of_texts(
            listener::peer_ids(peers@),
        ) matches Some(json) ==> reply.message->0.payload@ == json),
        direct.status == 200,
        direct.message matches Some(m) && m.msg_type == MessageType::PeerList,
        written matches Some(json) ==> direct.message->0.payload@ == json@,
        written is None ==> direct.message->0.payload@ == seq![0x5bu8, 0x5du8],
{
}

/// The parties of a request are those that were read, or none.
pub proof fn law_requested_parties_are_those_read(
    read: Option<Vec<String>>,
    ids: Vec<String>,
)
    requires
        call_ensures(listener::requested_parties, (read,), ids),
    ensures
        read matches Some(list) ==> ids == list,
        read is None ==> ids@.len() == 0,
{
    assert(text::texts(ids@).len() == ids@.len());
}

/// A message that was taken is answered with that word and nothing more.
pub proof fn law_taken_is_taken(reply: HttpReply)
    requires
        call_ensures(listener::ack_reply, (), reply),
    ensures
        reply.status == 200,
        reply.message matches Some(m) && m.msg_type == MessageType::Ack && m.payload@.len() == 0
            && m.instance@.len() == 0,
{
}

/// A message is dealt with on the account of the key that its sender has, and of no
/// other: a cancel, a retry, an invitation and a chunk all go under that key, and
/// none of them to a sender without one.
pub proof fn law_messages_are_dealt_with_for_their_sender(
    message: Message,
    sender: Sender,
    our_pubkey: &str,
    step: Step,
)
    requires
        call_ensures(listener::dispatch, (message, &sender, our_pubkey), step),
    ensures
        step matches Step::Cancel { pubkey, instance } ==> sender.pubkey is Some && pubkey@
            == sender.pubkey->0@ && instance@ == message.instance@,
        step matches Step::Retry { pubkey, instance } ==> sender.pubkey is Some && pubkey@
            == sender.pubkey->0@ && instance@ == message.instance@,
        step matches Step::Invite { invitation_type, pubkey, payload } ==> sender.pubkey is Some
            && pubkey@ == sender.pubkey->0@ && payload == message.payload,
        step matches Step::ReadChunk { pubkey, index } ==> sender.pubkey is Some && pubkey@
            == sender.pubkey->0@,
        step is Cancel <==> message.msg_type == MessageType::CancelInvite && sender.pubkey is Some,
        step is Retry <==> message.msg_type == MessageType::RetryWorkflow && sender.pubkey is Some,
        message.msg_type == MessageType::Ping ==> (step matches Step::Reply(reply)
            && reply.message is Some && reply.message->0.payload@ == encode_utf8(our_pubkey@)),
{
}

/// An announcement to one peer leaves in place, as it is, what is kept for another
/// and has not been there for half a minute, and nothing else of theirs.
pub proof fn law_announcements_leave_others_alone(
    reply: HttpReply,
    read: Result<Vec<u8>, String>,
    sender: Option<Seq<char>>,
    before: Map<Seq<char>, CachedPayload>,
    after: Map<Seq<char>, CachedPayload>,
    limits: ChunkLimits,
    data_code: u16,
    now: u64,
    other: Seq<char>,
)
    requires
        listener::answers_listing(reply, read, sender, before, after, limits, data_code, now),
        sender != Some(other),
    ensures
        after.contains_key(other) ==> before.contains_key(other) && after[other] == before[other],
        before.contains_key(other) && now - before[other].at < 30_000_000_000
            ==> after.contains_key(other),
        after != before ==> (after.contains_key(other) <==> before.contains_key(other) && now
            - before[other].at < 30_000_000_000),
{
    if let Some(pubkey) = sender {
        if after != before {
            let kept = chunks::unexpired(before, now);
            assert(after.remove(pubkey).contains_key(other) == kept.remove(pubkey).contains_key(
                other,
            ));
            if after.contains_key(other) {
                assert(after.remove(pubkey)[other] == kept.remove(pubkey)[other]);
            }
        }
    }
}

/// A payload that is not text asks for the member of the party without a name.
pub proof fn law_unreadable_names_are_empty(
    credentials: Vec<PartyCredentials>,
    payload: Vec<u8>,
    empty: Vec<u8>,
    reply: HttpReply,
    of_empty: HttpReply,
)
    requires
        call_ensures(listener::member_party_reply, (&credentials, &payload), reply),
        call_ensures(listener::member_party_reply, (&credentials, &empty), of_empty),
        !valid_utf8(payload@),
        valid_utf8(empty@),
        decode_utf8(empty@).len() == 0,
    ensures
        reply.status == of_empty.status,
        reply.message is Some && of_empty.message is Some,
        reply.message->0.msg_type == of_empty.message->0.msg_type,
        reply.message->0.payload@ == of_empty.message->0.payload@,
{
    assert(decode_utf8(empty@) =~= Seq::<char>::empty());
}

/// Who asks for the member of a party that this node has no member of is told
/// nothing.
pub proof fn law_unknown_parties_have_no_member(
    credentials: Vec<PartyCredentials>,
    payload: Vec<u8>,
    reply: HttpReply,
)
    requires
        call_ensures(listener::member_party_reply, (&credentials, &payload), reply),
        valid_utf8(payload@),
        forall|i: int| 0 <= i < credentials@.len() ==> #[trigger] credentials@[i].dec_party_id@
            != decode_utf8(payload@),
    ensures
        reply.status == 200,
        reply.message matches Some(m) && m.msg_type == MessageType::MemberPartyResponse
            && m.payload@.len() == 0,
{
    law_first_credentials_name_the_member(credentials@, decode_utf8(payload@));
}

} // verus!
