//! What the listener answers to the messages of peers.

use vstd::prelude::*;
use vstd::string::*;
use vstd::utf8::*;

use crate::config::PartyCredentials;
use crate::outside;
use crate::server::chunks;
use crate::server::chunks::{CachedPayload, ChunkCache, ChunkLimits, ChunkRead};
use crate::server::invitations::InvitationType;
use crate::server::peers::{PeerRow, Sender};
use crate::text;

verus! {

/// The type of a message between nodes.
#[derive(Clone, Copy, Debug, PartialEq, Eq, Structural)]
pub enum MessageType {
    Ping,
    Pong,
    Health,
    HealthResponse,
    ListPackages,
    Data,
    ChunkedCommand,
    GetChunk,
    Chunk,
    RequestOwnerKeys,
    OwnerKeys,
    ListPeers,
    PeerList,
    RequestMemberParty,
    MemberPartyResponse,
    GetNextCommand,
    KeysUpload,
    DnsSignature,
    P2pSignatures,
    SubmissionSignatures,
    KickSignatures,
    AddPartyKeysUpload,
    AddPartySignatures,
    AddPartyClearSignatures,
    AddPartyClearProposal,
    ChangeThresholdSignatures,
    StatusUpdate,
    DeclineInvitation,
    InviteOnboarding,
    InviteKick,
    InviteContracts,
    InviteDars,
    InviteAddParty,
    InviteChangeThreshold,
    CancelInvite,
    RetryWorkflow,
    Ack,
    Wait,
    Error,
    /// Any other type, by its code.
    Other(u16),
}

impl MessageType {
    /// A command that belongs to a workflow.
    pub open spec fn is_workflow_command(self) -> bool {
        match self {
            MessageType::GetNextCommand | MessageType::KeysUpload | MessageType::DnsSignature
            | MessageType::P2pSignatures | MessageType::SubmissionSignatures
            | MessageType::KickSignatures | MessageType::AddPartyKeysUpload
            | MessageType::AddPartySignatures | MessageType::AddPartyClearSignatures
            | MessageType::AddPartyClearProposal | MessageType::ChangeThresholdSignatures
            | MessageType::StatusUpdate | MessageType::DeclineInvitation => true,
            _ => false,
        }
    }

    /// A command that belongs to a workflow.
    pub fn workflow_command(self) -> (yes: bool)
        ensures
            yes == self.is_workflow_command(),
    {
        match self {
            MessageType::GetNextCommand | MessageType::KeysUpload | MessageType::DnsSignature
            | MessageType::P2pSignatures | MessageType::SubmissionSignatures
            | MessageType::KickSignatures | MessageType::AddPartyKeysUpload
            | MessageType::AddPartySignatures | MessageType::AddPartyClearSignatures
            | MessageType::AddPartyClearProposal | MessageType::ChangeThresholdSignatures
            | MessageType::StatusUpdate | MessageType::DeclineInvitation => true,
            _ => false,
        }
    }

    /// The kind of workflow that a message invites to.
    pub open spec fn invites_to(self) -> Option<InvitationType> {
        match self {
            MessageType::InviteOnboarding => Some(InvitationType::Onboarding),
            MessageType::InviteKick => Some(InvitationType::Kick),
            MessageType::InviteContracts => Some(InvitationType::Contracts),
            MessageType::InviteDars => Some(InvitationType::Dars),
            MessageType::InviteAddParty => Some(InvitationType::AddParty),
            MessageType::InviteChangeThreshold => Some(InvitationType::ChangeThreshold),
            _ => None,
        }
    }

    /// The kind of workflow that a message invites to.
    pub fn invitation_type(self) -> (kind: Option<InvitationType>)
        ensures
            kind == self.invites_to(),
    {
        match self {
            MessageType::InviteOnboarding => Some(InvitationType::Onboarding),
            MessageType::InviteKick => Some(InvitationType::Kick),
            MessageType::InviteContracts => Some(InvitationType::Contracts),
            MessageType::InviteDars => Some(InvitationType::Dars),
            MessageType::InviteAddParty => Some(InvitationType::AddParty),
            MessageType::InviteChangeThreshold => Some(InvitationType::ChangeThreshold),
            _ => None,
        }
    }
}

/// A message between nodes.
pub struct Message {
    pub msg_type: MessageType,
    /// The coordinator's run that the message belongs to; may be empty.
    pub instance: String,
    pub payload: Vec<u8>,
}

impl Message {
    /// A message that belongs to no run.
    pub fn new(msg_type: MessageType, payload: Vec<u8>) -> (message: Self)
        ensures
            message.msg_type == msg_type,
            message.instance@ == Seq::<char>::empty(),
            message.payload == payload,
    {
        Message { msg_type, instance: String::new(), payload }
    }

    /// A message that belongs to no run and says nothing but its type.
    pub fn new_empty(msg_type: MessageType) -> (message: Self)
        ensures
            message.msg_type == msg_type,
            message.instance@ == Seq::<char>::empty(),
            message.payload@ == Seq::<u8>::empty(),
    {
        Message { msg_type, instance: String::new(), payload: Vec::new() }
    }
}

/// What a request is answered with; without a message the body is empty.
pub struct HttpReply {
    pub status: u16,
    pub message: Option<Message>,
}

/// The reply has the status and holds a message of the type with the payload.
pub open spec fn answers(
    reply: HttpReply,
    status: u16,
    msg_type: MessageType,
    payload: Seq<u8>,
) -> bool {
    &&& reply.status == status
    &&& reply.message matches Some(m) && m.msg_type == msg_type && m.instance@ == Seq::<
        char,
    >::empty() && m.payload@ == payload
}

/// The reply has the status and nothing else.
pub open spec fn answers_empty(reply: HttpReply, status: u16) -> bool {
    reply.status == status && reply.message is None
}

/// A reply that holds a message.
fn reply_with(status: u16, msg_type: MessageType, payload: Vec<u8>) -> (reply: HttpReply)
    ensures
        answers(reply, status, msg_type, payload@),
{
    HttpReply { status, message: Some(Message::new(msg_type, payload)) }
}

/// A reply with an empty body.
fn empty_reply(status: u16) -> (reply: HttpReply)
    ensures
        answers_empty(reply, status),
{
    HttpReply { status, message: None }
}

/// The reply that says a message was taken.
pub fn ack_reply() -> (reply: HttpReply)
    ensures
        answers(reply, 200, MessageType::Ack, Seq::empty()),
{
    HttpReply { status: 200, message: Some(Message::new_empty(MessageType::Ack)) }
}

/// The bytes of a text.
fn bytes_of(t: &str) -> (bytes: Vec<u8>)
    ensures
        bytes@ == encode_utf8(t@),
{
    t.as_bytes_vec()
}

/// The shortest body that can hold a message.
pub const SHORTEST_FRAME: usize = 6;

/// The answer to a body that is too short to hold a message; longer ones are read.
pub fn refuse_short_frame(body: &Vec<u8>) -> (reply: Option<HttpReply>)
    ensures
        match reply {
            Some(r) => body@.len() < SHORTEST_FRAME && answers_empty(r, 200),
            None => body@.len() >= SHORTEST_FRAME,
        },
{
    if body.len() < SHORTEST_FRAME {
        Some(empty_reply(200))
    } else {
        None
    }
}

/// The answer to a body that could not be read, with the reason.
pub fn reject_frame(reason: &str) -> (reply: HttpReply)
    ensures
        answers(reply, 503, MessageType::Error, encode_utf8("request rejected: "@ + reason@)),
{
    let said = "request rejected: ".to_owned().concat(reason);
    reply_with(503, MessageType::Error, bytes_of(said.as_str()))
}

/// What a request asks for, where the answer needs more than the message.
pub enum Step {
    /// Nothing: this is the answer.
    Reply(HttpReply),
    /// The health of this node.
    ReadHealth,
    /// The packages of this node.
    ListPackages,
    /// A chunk of what is kept for the peer.
    ReadChunk { pubkey: String, index: u32 },
    /// This node's owner keys of these parties.
    ReadOwnerKeys(Vec<String>),
    /// The peers of this node.
    ListPeers,
    /// The member party of the decentralized party that the payload names.
    FindMemberParty(Vec<u8>),
    /// The run that the message names, to handle the message.
    Route(Message),
    /// That the invitation be recorded.
    Invite { invitation_type: InvitationType, pubkey: String, payload: Vec<u8> },
    /// That the coordinator's invitations be dropped and its runs cancelled.
    Cancel { pubkey: String, instance: String },
    /// That the coordinator's failed runs be started again.
    Retry { pubkey: String, instance: String },
}

/// What a message of a sender asks for.
pub open spec fn asks_for(
    message: Message,
    pubkey: Option<Seq<char>>,
    our_pubkey: Seq<char>,
    step: Step,
) -> bool {
    let t = message.msg_type;
    if t == MessageType::Ping {
        step matches Step::Reply(r) && answers(r, 200, MessageType::Pong, encode_utf8(our_pubkey))
    } else if t == MessageType::Health {
        step is ReadHealth
    } else if t == MessageType::ListPackages {
        step is ListPackages
    } else if t == MessageType::GetChunk {
        if message.instance@.len() > 0 {
            step == Step::Route(message)
        } else if message.payload@.len() < 4 || pubkey is None {
            step matches Step::Reply(r) && answers_empty(r, 400)
        } else {
            step matches Step::ReadChunk { pubkey: from, index } && Some(from@) == pubkey && index
                == chunks::from_be32(message.payload@)
        }
    } else if t == MessageType::RequestOwnerKeys {
        step matches Step::ReadOwnerKeys(ids) && text::texts(ids@) == match outside::json_texts(
            message.payload@,
        ) {
            Some(list) => list,
            None => Seq::empty(),
        }
    } else if t == MessageType::ListPeers {
        step is ListPeers
    } else if t == MessageType::RequestMemberParty {
        step == Step::FindMemberParty(message.payload)
    } else if t.is_workflow_command() {
        step == Step::Route(message)
    } else if t.invites_to() is Some {
        match pubkey {
            Some(from) => step matches Step::Invite { invitation_type, pubkey: key, payload }
                && Some(invitation_type) == t.invites_to() && key@ == from && payload
                == message.payload,
            None => step matches Step::Reply(r) && answers(
                r,
                200,
                MessageType::Ack,
                Seq::empty(),
            ),
        }
    } else if t == MessageType::CancelInvite {
        match pubkey {
            Some(from) => step matches Step::Cancel { pubkey: key, instance } && key@ == from
                && instance == message.instance,
            None => step matches Step::Reply(r) && answers(
                r,
                200,
                MessageType::Ack,
                Seq::empty(),
            ),
        }
    } else if t == MessageType::RetryWorkflow {
        match pubkey {
            Some(from) => step matches Step::Retry { pubkey: key, instance } && key@ == from
                && instance == message.instance,
            None => step matches Step::Reply(r) && answers(
                r,
                200,
                MessageType::Ack,
                Seq::empty(),
            ),
        }
    } else {
        step matches Step::Reply(r) && answers_empty(r, 200)
    }
}

/// The parties that a request names; none where it could not be read.
pub fn requested_parties(read: Option<Vec<String>>) -> (ids: Vec<String>)
    ensures
        match read {
            Some(list) => ids == list,
            None => text::texts(ids@) == Seq::<Seq<char>>::empty(),
        },
{
    match read {
        Some(list) => list,
        None => {
            let none: Vec<String> = Vec::new();
            proof {
                assert(text::texts(none@) =~= Seq::empty());
            }
            none
        },
    }
}

/// What a message asks for.
pub fn dispatch(message: Message, sender: &Sender, our_pubkey: &str) -> (step: Step)
    ensures
        asks_for(message, text::text_of(sender.pubkey), our_pubkey@, step),
        step matches Step::Cancel { pubkey, instance } ==> message.msg_type
            == MessageType::CancelInvite && instance == message.instance && sender.pubkey == Some(
            pubkey,
        ),
        step matches Step::Retry { pubkey, instance } ==> message.msg_type
            == MessageType::RetryWorkflow && instance == message.instance && sender.pubkey == Some(
            pubkey,
        ),
{
    let t = message.msg_type;
    match t {
        MessageType::Ping => {
            return Step::Reply(reply_with(200, MessageType::Pong, bytes_of(our_pubkey)));
        },
        MessageType::Health => {
            return Step::ReadHealth;
        },
        MessageType::ListPackages => {
            return Step::ListPackages;
        },
        MessageType::GetChunk => {
            if !message.instance.as_str().is_empty() {
                return Step::Route(message);
            }
            if message.payload.len() < 4 {
                return Step::Reply(empty_reply(400));
            }
            let index = chunks::read_be32(&message.payload);
            return match &sender.pubkey {
                Some(pubkey) => Step::ReadChunk { pubkey: pubkey.clone(), index },
                None => Step::Reply(empty_reply(400)),
            };
        },
        MessageType::RequestOwnerKeys => {
            return Step::ReadOwnerKeys(
                requested_parties(outside::read_json_texts(message.payload.as_slice())),
            );
        },
        MessageType::ListPeers => {
            return Step::ListPeers;
        },
        MessageType::RequestMemberParty => {
            return Step::FindMemberParty(message.payload);
        },
        MessageType::CancelInvite => {
            return match &sender.pubkey {
                Some(pubkey) => Step::Cancel {
                    pubkey: pubkey.clone(),
                    instance: message.instance,
                },
                None => Step::Reply(ack_reply()),
            };
        },
        MessageType::RetryWorkflow => {
            return match &sender.pubkey {
                Some(pubkey) => Step::Retry {
                    pubkey: pubkey.clone(),
                    instance: message.instance,
                },
                None => Step::Reply(ack_reply()),
            };
        },
        _ => {},
    }
    if t.workflow_command() {
        return Step::Route(message);
    }
    match t.invitation_type() {
        Some(invitation_type) => match &sender.pubkey {
            Some(pubkey) => Step::Invite {
                invitation_type,
                pubkey: pubkey.clone(),
                payload: message.payload,
            },
            None => Step::Reply(ack_reply()),
        },
        None => Step::Reply(empty_reply(200)),
    }
}

/// The answer to a question for this node's health.
pub fn health_reply(payload: Vec<u8>) -> (reply: HttpReply)
    ensures
        answers(reply, 200, MessageType::HealthResponse, payload@),
{
    reply_with(200, MessageType::HealthResponse, payload)
}

/// An empty JSON list.
pub open spec fn empty_list() -> Seq<u8> {
    seq![0x5b, 0x5d]
}

/// What was read, or an empty JSON list where it could not be.
pub open spec fn listing_of(read: Result<Vec<u8>, String>) -> Seq<u8> {
    match read {
        Ok(payload) => payload@,
        Err(_) => empty_list(),
    }
}

/// What was read, or an empty JSON list where it could not be.
fn listing(read: Result<Vec<u8>, String>) -> (payload: Vec<u8>)
    ensures
        payload@ == listing_of(read),
{
    match read {
        Ok(payload) => payload,
        Err(_) => {
            let payload: Vec<u8> = vec![0x5b, 0x5d];
            proof {
                assert(payload@ =~= empty_list());
            }
            payload
        },
    }
}

/// The reply is the answer to a question for this node's packages, and this is
/// what is kept before and after it.
pub open spec fn answers_listing(
    reply: HttpReply,
    read: Result<Vec<u8>, String>,
    sender: Option<Seq<char>>,
    before: Map<Seq<char>, CachedPayload>,
    after: Map<Seq<char>, CachedPayload>,
    limits: ChunkLimits,
    data_code: u16,
    now: u64,
) -> bool {
    let payload = listing_of(read);
    match sender {
        Some(pubkey) if payload.len() > limits.max_payload => if payload.len()
            > limits.max_total {
            answers_empty(reply, 500) && after == before
        } else {
            &&& answers(
                reply,
                200,
                MessageType::ChunkedCommand,
                chunks::chunked_metadata(
                    data_code,
                    payload.len() as u32,
                    chunks::chunk_count(payload.len(), limits.chunk_size as nat) as u32,
                ),
            )
            &&& after.contains_key(pubkey)
            &&& after[pubkey].bytes@ == payload
            &&& after[pubkey].at == now
            &&& after.remove(pubkey) == chunks::unexpired(before, now).remove(pubkey)
        },
        _ => answers(reply, 200, MessageType::Data, payload) && after == before,
    }
}

/// The answer to a question for this node's packages: the listing where it fits
/// in one reply, or where nothing could be kept for the sender; else what the
/// sender has to know to fetch it in chunks; nothing where it is too large for
/// that too.
pub fn packages_reply(
    read: Result<Vec<u8>, String>,
    sender: &Sender,
    cache: &mut ChunkCache,
    limits: ChunkLimits,
    data_code: u16,
    now: u64,
) -> (reply: HttpReply)
    requires
        limits.valid(),
    ensures
        answers_listing(
            reply,
            read,
            text::text_of(sender.pubkey),
            old(cache).entries@,
            final(cache).entries@,
            limits,
            data_code,
            now,
        ),
{
    let payload = listing(read);
    if payload.len() <= limits.max_payload {
        return reply_with(200, MessageType::Data, payload);
    }
    match &sender.pubkey {
        None => reply_with(200, MessageType::Data, payload),
        Some(pubkey) => {
            if payload.len() > limits.max_total {
                return empty_reply(500);
            }
            let total = payload.len() as u32;
            let count = chunks::count_chunks(payload.len(), limits.chunk_size) as u32;
            let ghost before = cache.entries@;
            cache.offer(pubkey.as_str(), payload, now);
            proof {
                assert(cache.entries@.remove(pubkey@) =~= chunks::unexpired(before, now).remove(
                    pubkey@,
                ));
            }
            let meta = chunks::write_chunked_metadata(data_code, total, count);
            reply_with(200, MessageType::ChunkedCommand, meta)
        },
    }
}

/// The reply is the answer to a request for a chunk of what is kept for the peer,
/// and this is what is kept before and after it.
pub open spec fn answers_chunk(
    reply: HttpReply,
    before: Map<Seq<char>, CachedPayload>,
    after: Map<Seq<char>, CachedPayload>,
    pubkey: Seq<char>,
    index: u32,
    limits: ChunkLimits,
    now: u64,
) -> bool {
    let entry = before[pubkey];
    if !before.contains_key(pubkey) {
        answers_empty(reply, 404) && after == before
    } else if chunks::is_expired(entry, now) {
        answers_empty(reply, 404) && after == before.remove(pubkey)
    } else if index * limits.chunk_size >= entry.bytes@.len() {
        answers_empty(reply, 400) && after == before
    } else {
        &&& answers(
            reply,
            200,
            MessageType::Chunk,
            chunks::be32(index) + chunks::chunk(
                entry.bytes@,
                index as int,
                limits.chunk_size as int,
            ),
        )
        &&& after == before.insert(pubkey, CachedPayload { bytes: entry.bytes, at: now })
    }
}

/// The answer to a request for a chunk of what is kept for the peer.
pub fn chunk_reply(
    cache: &mut ChunkCache,
    pubkey: &str,
    index: u32,
    limits: ChunkLimits,
    now: u64,
) -> (reply: HttpReply)
    requires
        limits.valid(),
    ensures
        answers_chunk(
            reply,
            old(cache).entries@,
            final(cache).entries@,
            pubkey@,
            index,
            limits,
            now,
        ),
{
    match cache.read_chunk(pubkey, index, limits.chunk_size, now) {
        ChunkRead::Missing => empty_reply(404),
        ChunkRead::Expired => empty_reply(404),
        ChunkRead::OutOfRange => empty_reply(400),
        ChunkRead::Chunk(bytes) => {
            let mut payload: Vec<u8> = Vec::new();
            let ghost part = bytes@;
            let mut rest = bytes;
            chunks::push_be32(&mut payload, index);
            payload.append(&mut rest);
            proof {
                assert(payload@ =~= chunks::be32(index) + part);
            }
            reply_with(200, MessageType::Chunk, payload)
        },
    }
}

/// The answer to a question for this node's owner keys.
pub fn owner_keys_reply(read: Result<Vec<u8>, String>) -> (reply: HttpReply)
    ensures
        answers(reply, 200, MessageType::OwnerKeys, listing_of(read)),
{
    reply_with(200, MessageType::OwnerKeys, listing(read))
}

/// The ids of peers.
pub open spec fn peer_ids(peers: Seq<PeerRow>) -> Seq<Seq<char>> {
    peers.map_values(|p: PeerRow| p.participant_id@)
}

/// The ids of peers.
pub fn ids_of(peers: &Vec<PeerRow>) -> (ids: Vec<String>)
    ensures
        text::texts(ids@) == peer_ids(peers@),
{
    let mut ids: Vec<String> = Vec::new();
    let mut i: usize = 0;
    while i < peers.len()
        invariant
            i <= peers@.len(),
            ids@.len() == i,
            forall|j: int| 0 <= j < i ==> #[trigger] ids@[j]@ == peers@[j].participant_id@,
        decreases peers@.len() - i,
    {
        ids.push(peers[i].participant_id.clone());
        i += 1;
    }
    proof {
        assert(text::texts(ids@) =~= peer_ids(peers@));
    }
    ids
}

/// The answer that holds a JSON list of peers, which is empty where it could
/// not be written.
pub fn written_peers_reply(json: Option<Vec<u8>>) -> (reply: HttpReply)
    ensures
        answers(
            reply,
            200,
            MessageType::PeerList,
            match json {
                Some(list) => list@,
                None => empty_list(),
            },
        ),
{
    let read = match json {
        Some(list) => Ok(list),
        None => Err(String::new()),
    };
    reply_with(200, MessageType::PeerList, listing(read))
}

/// The answer to a question for this node's peers: their ids as a JSON list,
/// which is empty where they could not be loaded or written.
pub fn peer_list_reply(loaded: Result<Vec<PeerRow>, String>) -> (reply: HttpReply)
    ensures
        answers(
            reply,
            200,
            MessageType::PeerList,
            match loaded {
                Ok(peers) => match outside::json_of_texts(peer_ids(peers@)) {
                    Some(json) => json,
                    None => empty_list(),
                },
                Err(_) => empty_list(),
            },
        ),
{
    match loaded {
        Ok(peers) => written_peers_reply(outside::write_json_texts(&ids_of(&peers))),
        Err(_) => written_peers_reply(None),
    }
}

/// The member party of the first credentials for the decentralized party.
pub open spec fn member_party_of(credentials: Seq<PartyCredentials>, party: Seq<char>) -> Option<
    Seq<char>,
>
    decreases credentials.len(),
{
    if credentials.len() == 0 {
        None
    } else if credentials[0].dec_party_id@ == party {
        Some(credentials[0].member_party_id@)
    } else {
        member_party_of(credentials.drop_first(), party)
    }
}

/// The answer to a question for this node's member of a decentralized party:
/// its id, or nothing where this node has none. A payload that is not text
/// names the party without a name.
pub fn member_party_reply(credentials: &Vec<PartyCredentials>, payload: &Vec<u8>) -> (reply:
    HttpReply)
    ensures
        ({
            let party = if valid_utf8(payload@) {
                decode_utf8(payload@)
            } else {
                Seq::empty()
            };
            answers(
                reply,
                200,
                MessageType::MemberPartyResponse,
                match member_party_of(credentials@, party) {
                    Some(member) => encode_utf8(member),
                    None => Seq::empty(),
                },
            )
        }),
{
    let party = match outside::read_utf8(payload.as_slice()) {
        Some(party) => party.to_owned(),
        None => String::new(),
    };
    let mut i: usize = 0;
    proof {
        assert(credentials@.skip(0) =~= credentials@);
    }
    while i < credentials.len()
        invariant
            i <= credentials@.len(),
            party@ == if valid_utf8(payload@) {
                decode_utf8(payload@)
            } else {
                Seq::empty()
            },
            member_party_of(credentials@, party@) == member_party_of(
                credentials@.skip(i as int),
                party@,
            ),
        decreases credentials@.len() - i,
    {
        if text::same_text(credentials[i].dec_party_id.text.as_str(), party.as_str()) {
            return reply_with(
                200,
                MessageType::MemberPartyResponse,
                bytes_of(credentials[i].member_party_id.text.as_str()),
            );
        }
        proof {
            assert(credentials@.skip(i as int).drop_first() =~= credentials@.skip(i + 1));
        }
        i += 1;
    }
    HttpReply { status: 200, message: Some(Message::new_empty(MessageType::MemberPartyResponse)) }
}

/// What is done with a message for a run.
pub enum RouteStep {
    /// The run handles it, as one of this peer.
    Handle(String),
    /// Nothing: this is the answer.
    Reply(HttpReply),
}

/// What is done with a message for a run, once the run was looked for and the
/// sender's id was read. A run that is gone is answered so that the peer gives
/// up; a peer without an id is asked to wait.
pub fn route_command(msg_type: MessageType, run_found: bool, peer: Option<String>) -> (step:
    RouteStep)
    ensures
        if !run_found {
            step matches RouteStep::Reply(r) && if msg_type == MessageType::GetChunk {
                answers(
                    r,
                    503,
                    MessageType::Error,
                    encode_utf8(
                        "no such workflow run on this peer: it was cancelled or already finished"@,
                    ),
                )
            } else {
                answers_empty(r, 503)
            }
        } else {
            match peer {
                Some(id) => step == RouteStep::Handle(id),
                None => step matches RouteStep::Reply(r) && answers(
                    r,
                    200,
                    MessageType::Wait,
                    Seq::empty(),
                ),
            }
        },
{
    if !run_found {
        if msg_type == MessageType::GetChunk {
            let said = "no such workflow run on this peer: it was cancelled or already finished";
            RouteStep::Reply(reply_with(503, MessageType::Error, bytes_of(said)))
        } else {
            RouteStep::Reply(empty_reply(503))
        }
    } else {
        match peer {
            Some(id) => RouteStep::Handle(id),
            None => RouteStep::Reply(
                HttpReply { status: 200, message: Some(Message::new_empty(MessageType::Wait)) },
            ),
        }
    }
}

/// The answer to a message that a run handled, or failed to.
pub fn command_reply(handled: Result<Message, String>) -> (reply: HttpReply)
    ensures
        match handled {
            Ok(message) => reply.status == 200 && reply.message == Some(message),
            Err(reason) => answers(reply, 200, MessageType::Error, encode_utf8(reason@)),
        },
{
    match handled {
        Ok(message) => HttpReply { status: 200, message: Some(message) },
        Err(reason) => reply_with(200, MessageType::Error, bytes_of(reason.as_str())),
    }
}

/// Whether a peer answered a ping, by what could be read of its answer.
pub fn is_up(answer: &Option<Message>) -> (up: bool)
    ensures
        up == (answer matches Some(m) && m.msg_type == MessageType::Pong),
{
    match answer {
        Some(m) => m.msg_type == MessageType::Pong,
        None => false,
    }
}

/// What a ping shows of a peer.
#[derive(Clone, Copy, Debug, PartialEq, Eq, Structural)]
pub struct PingOutcome {
    pub up: bool,
    /// The peer counts as heard of just now.
    pub seen_now: bool,
}

/// What a ping shows of a peer, by what could be read of the answer: a peer that
/// answered with a pong is up and counts as heard of, any other is neither.
pub fn ping_outcome(answer: &Option<Message>) -> (outcome: PingOutcome)
    ensures
        outcome.up == (answer matches Some(m) && m.msg_type == MessageType::Pong),
        outcome.seen_now == outcome.up,
{
    let up = is_up(answer);
    PingOutcome { up, seen_now: up }
}

/// A sender that is not on the allowlist gets nothing recorded, cancelled or
/// retried, and no chunk.
pub proof fn law_strangers_change_nothing(message: Message, our_pubkey: Seq<char>, step: Step)
    requires
        asks_for(message, None, our_pubkey, step),
    ensures
        !(step is Invite || step is Cancel || step is Retry || step is ReadChunk),
{
}

/// A request for a chunk that names a run goes to that run only, and one that
/// names none goes to no run.
pub proof fn law_chunk_requests_are_told_apart(
    message: Message,
    pubkey: Option<Seq<char>>,
    our_pubkey: Seq<char>,
    step: Step,
)
    requires
        message.msg_type == MessageType::GetChunk,
        asks_for(message, pubkey, our_pubkey, step),
    ensures
        step is Route <==> message.instance@.len() > 0,
        step is Route ==> step == Step::Route(message),
{
}

/// An invitation, a cancel or a retry is always on the account of the key that
/// the sender was let in with.
pub proof fn law_senders_act_for_themselves(
    message: Message,
    pubkey: Option<Seq<char>>,
    our_pubkey: Seq<char>,
    step: Step,
)
    requires
        asks_for(message, pubkey, our_pubkey, step),
    ensures
        step matches Step::Invite { pubkey: key, .. } ==> Some(key@) == pubkey,
        step matches Step::Cancel { pubkey: key, .. } ==> Some(key@) == pubkey,
        step matches Step::Retry { pubkey: key, .. } ==> Some(key@) == pubkey,
        step matches Step::ReadChunk { pubkey: key, .. } ==> Some(key@) == pubkey,
{
}

} // verus!
