//! The peers that this node knows: whom it lets in, who sent a request, and
//! which of them are up.

use vstd::prelude::*;
use vstd::string::*;
use vstd::utf8::*;

use crate::map::TextMap;
use crate::outside;
use crate::server::listener;
use crate::server::listener::Message;
use crate::text;

verus! {

/// A peer as the store holds it.
pub struct PeerRow {
    pub participant_id: String,
    pub address: String,
    pub port: u16,
    /// The peer's public key in hexadecimal; may be empty.
    pub public_key: String,
}

/// A public key, in compressed form.
#[derive(Clone, Copy)]
pub struct PublicKey {
    pub bytes: [u8; 33],
}

/// The compressed form of the public key that a hexadecimal text stands for.
pub open spec fn public_key_of(s: Seq<char>) -> Option<Seq<u8>> {
    match outside::hex_bytes(s) {
        Some(bytes) => outside::compressed_public_key(bytes),
        None => None,
    }
}

/// The public key that a hexadecimal text stands for, where it stands for one.
pub fn parse_public_key(s: &str) -> (key: Option<PublicKey>)
    ensures
        match key {
            Some(k) => public_key_of(s@) == Some(k.bytes@),
            None => public_key_of(s@) is None,
        },
{
    match outside::hex_decode(s) {
        Some(bytes) => match outside::read_public_key(bytes.as_slice()) {
            Some(bytes) => Some(PublicKey { bytes }),
            None => None,
        },
        None => None,
    }
}

/// The key in the form in which peers and runs are found by it.
pub fn public_key_hex(key: &PublicKey) -> (s: String)
    ensures
        s@ == outside::hex_text(key.bytes@),
{
    outside::hex_encode(&key.bytes)
}

/// What an allowlist says, key by key.
pub open spec fn listed(keys: Map<Seq<char>, PublicKey>) -> Map<Seq<char>, Seq<u8>> {
    keys.map_values(|k: PublicKey| k.bytes@)
}

/// Whether the row puts its peer on the allowlist: it is another node's, and
/// its key can be read.
pub open spec fn admits(peer: PeerRow, self_id: Seq<char>) -> bool {
    &&& peer.participant_id@ != self_id
    &&& peer.public_key@.len() > 0
    &&& public_key_of(peer.public_key@) is Some
}

/// The allowlist of the rows: of two rows of one peer, the later counts.
pub open spec fn allowlist(peers: Seq<PeerRow>, self_id: Seq<char>) -> Map<Seq<char>, Seq<u8>>
    decreases peers.len(),
{
    if peers.len() == 0 {
        Map::empty()
    } else {
        let before = allowlist(peers.drop_last(), self_id);
        let peer = peers.last();
        if admits(peer, self_id) {
            before.insert(peer.participant_id@, public_key_of(peer.public_key@).unwrap())
        } else {
            before
        }
    }
}

/// Puts a peer on the allowlist under the key that was read for it, in place of
/// an earlier key; not where the row is this node's own, where it gives no key,
/// or where none could be read.
pub fn admit_peer(
    keys: &mut TextMap<PublicKey>,
    peer: &PeerRow,
    self_id: &str,
    key: Option<PublicKey>,
)
    ensures
        final(keys)@ == match key {
            Some(k) if peer.participant_id@ != self_id@ && peer.public_key@.len() > 0 => old(
                keys,
            )@.insert(peer.participant_id@, k),
            _ => old(keys)@,
        },
{
    if !text::same_text(peer.participant_id.as_str(), self_id)
        && !peer.public_key.as_str().is_empty() {
        if let Some(key) = key {
            keys.insert(peer.participant_id.clone(), key);
        }
    }
}

/// The peers that may connect, each with its key; none where the rows could not
/// be loaded.
pub fn build_peer_key_map(loaded: Result<Vec<PeerRow>, String>, self_id: &str) -> (keys: TextMap<
    PublicKey,
>)
    ensures
        match loaded {
            Ok(peers) => listed(keys@) == allowlist(peers@, self_id@),
            Err(_) => keys@ == Map::<Seq<char>, PublicKey>::empty(),
        },
{
    let mut keys: TextMap<PublicKey> = TextMap::new();
    let peers = match loaded {
        Ok(peers) => peers,
        Err(_) => {
            return keys;
        },
    };
    let mut k: usize = 0;
    proof {
        assert(listed(keys@) =~= allowlist(peers@.take(0), self_id@));
    }
    while k < peers.len()
        invariant
            k <= peers@.len(),
            listed(keys@) == allowlist(peers@.take(k as int), self_id@),
        decreases peers@.len() - k,
    {
        let peer = &peers[k];
        proof {
            assert(peers@.take(k + 1).drop_last() =~= peers@.take(k as int));
        }
        let ghost was = keys@;
        admit_peer(&mut keys, peer, self_id, parse_public_key(peer.public_key.as_str()));
        proof {
            let id = peer.participant_id@;
            if admits(*peer, self_id@) {
                assert(listed(keys@) =~= listed(was).insert(
                    id,
                    public_key_of(peer.public_key@).unwrap(),
                ));
            }
        }
        k += 1;
    }
    proof {
        assert(peers@.take(k as int) =~= peers@);
    }
    keys
}

/// The key with which a handshake under `identity` is answered: that of the
/// peer on the allowlist whose id the identity spells. Without one the
/// handshake fails.
pub fn handshake_key(keys: &TextMap<PublicKey>, identity: &[u8]) -> (key: Option<PublicKey>)
    ensures
        match key {
            Some(k) => valid_utf8(identity@) && keys@.contains_key(decode_utf8(identity@)) && k
                == keys@[decode_utf8(identity@)],
            None => !valid_utf8(identity@) || !keys@.contains_key(decode_utf8(identity@)),
        },
{
    match outside::read_utf8(identity) {
        Some(id) => match keys.get(id) {
            Some(key) => Some(*key),
            None => None,
        },
        None => None,
    }
}

/// Who sent a request.
pub struct Sender {
    /// The participant id, where the identity spells one.
    pub id: Option<String>,
    /// The hexadecimal key, where the id is on the allowlist.
    pub pubkey: Option<String>,
}

/// What the identity and the allowlist say of a sender.
pub open spec fn sent_under(
    sender: Sender,
    keys: Map<Seq<char>, PublicKey>,
    identity: Seq<u8>,
) -> bool {
    if valid_utf8(identity) {
        let id = decode_utf8(identity);
        &&& text::text_of(sender.id) == Some(id)
        &&& text::text_of(sender.pubkey) == if keys.contains_key(id) {
            Some(outside::hex_text(keys[id].bytes@))
        } else {
            None
        }
    } else {
        sender.id is None && sender.pubkey is None
    }
}

/// Who sent a request under `identity`. A sender's key can stand in the ids of
/// its invitations.
pub fn identify_sender(keys: &TextMap<PublicKey>, identity: &[u8]) -> (sender: Sender)
    ensures
        sent_under(sender, keys@, identity@),
        sender.pubkey matches Some(key) ==> crate::server::invitations::has_short_key(key@),
{
    match outside::read_utf8(identity) {
        Some(id) => Sender {
            id: Some(id.to_owned()),
            pubkey: match keys.get(id) {
                Some(key) => {
                    proof {
                        law_sender_keys_can_be_shortened(*key);
                    }
                    Some(public_key_hex(key))
                },
                None => None,
            },
        },
        None => Sender { id: None, pubkey: None },
    }
}

/// The id under which the sender counts as seen just now, where it is on the
/// allowlist.
pub fn seen_peer(sender: &Sender) -> (id: Option<String>)
    ensures
        id == if sender.pubkey is Some {
            sender.id
        } else {
            None
        },
{
    if sender.pubkey.is_some() {
        sender.id.clone()
    } else {
        None
    }
}

/// The rows of the peers to ask whether they are up: all but this node's own.
pub open spec fn is_other(self_id: Seq<char>) -> spec_fn(PeerRow) -> bool {
    |peer: PeerRow| peer.participant_id@ != self_id
}

/// The peers to ask whether they are up.
pub fn probe_targets(peers: Vec<PeerRow>, our_id: &str) -> (targets: Vec<PeerRow>)
    ensures
        targets@ == peers@.filter(is_other(our_id@)),
{
    let mut rest = peers;
    let ghost all = peers@;
    let ghost p = is_other(our_id@);
    let mut targets: Vec<PeerRow> = Vec::new();
    let n = rest.len();
    let mut k: usize = 0;
    proof {
        assert(all.skip(0) =~= all);
        assert(all.take(0).filter(p) =~= Seq::<PeerRow>::empty()) by {
            reveal(Seq::filter);
        }
    }
    while k < n
        invariant
            k <= n == all.len(),
            rest@ == all.skip(k as int),
            p == is_other(our_id@),
            targets@ == all.take(k as int).filter(p),
        decreases n - k,
    {
        let peer = rest.remove(0);
        proof {
            assert(rest@ =~= all.skip(k + 1));
            assert(peer == all[k as int]);
            crate::counting::lemma_filter_take(all, p, k as int);
        }
        if !text::same_text(peer.participant_id.as_str(), our_id) {
            targets.push(peer);
        }
        k += 1;
    }
    proof {
        assert(all.take(k as int) =~= all);
    }
    targets
}

/// The peers to ask in a round of probes; no round takes place where they could
/// not be loaded.
pub fn begin_round(loaded: Result<Vec<PeerRow>, String>, our_id: &str) -> (targets: Option<
    Vec<PeerRow>,
>)
    ensures
        match loaded {
            Ok(peers) => targets matches Some(t) && t@ == peers@.filter(is_other(our_id@)),
            Err(_) => targets is None,
        },
{
    match loaded {
        Ok(peers) => Some(probe_targets(peers, our_id)),
        Err(_) => None,
    }
}

/// How a peer's status is found out.
pub enum Probe {
    /// It is known: the peer is up, or not.
    Known(bool),
    /// By a ping under this key.
    Ping(PublicKey),
}

/// How the status of a peer is found out, by the key that was read for it: a
/// peer without one counts as down, one that was heard of lately counts as up,
/// any other is pinged.
pub fn probe_with(key: Option<PublicKey>, stale: bool) -> (probe: Probe)
    ensures
        probe == match key {
            Some(k) => if stale {
                Probe::Ping(k)
            } else {
                Probe::Known(true)
            },
            None => Probe::Known(false),
        },
{
    match key {
        Some(key) => if stale {
            Probe::Ping(key)
        } else {
            Probe::Known(true)
        },
        None => Probe::Known(false),
    }
}

/// The probe is the one for the peer.
pub open spec fn is_planned(peer: PeerRow, stale: bool, probe: Probe) -> bool {
    match public_key_of(peer.public_key@) {
        Some(key) => if stale {
            probe matches Probe::Ping(k) && k.bytes@ == key
        } else {
            probe == Probe::Known(true)
        },
        None => probe == Probe::Known(false),
    }
}

/// How a peer's status is found out.
pub fn plan_probe(peer: &PeerRow, stale: bool) -> (probe: Probe)
    ensures
        is_planned(*peer, stale, probe),
{
    probe_with(parse_public_key(peer.public_key.as_str()), stale)
}

/// Whether a peer is up: as it was known, or where it was pinged, by whether it
/// answered with a pong.
pub open spec fn status_by(probe: Probe, answer: Option<Message>) -> bool {
    match probe {
        Probe::Known(known) => known,
        Probe::Ping(_) => answer matches Some(m) && m.msg_type == listener::MessageType::Pong,
    }
}

/// Whether a peer is up, by what was known of it and by what could be read of its
/// answer where it was pinged.
pub fn probe_status(probe: Probe, answer: &Option<Message>) -> (up: bool)
    ensures
        up == status_by(probe, *answer),
{
    match probe {
        Probe::Known(known) => known,
        Probe::Ping(_) => listener::is_up(answer),
    }
}

/// What the results of a round of probes make of the status map: of two results
/// for one peer, the later counts.
pub open spec fn status_after(
    status: Map<Seq<char>, bool>,
    results: Seq<(String, bool)>,
) -> Map<Seq<char>, bool>
    decreases results.len(),
{
    if results.len() == 0 {
        status
    } else {
        status_after(status, results.drop_last()).insert(results.last().0@, results.last().1)
    }
}

/// Enters the results of a round of probes into the status map.
pub fn record_probes(status: &mut TextMap<bool>, results: Vec<(String, bool)>)
    ensures
        final(status)@ == status_after(old(status)@, results@),
{
    let ghost start = status@;
    let mut k: usize = 0;
    proof {
        assert(results@.take(0) =~= Seq::<(String, bool)>::empty());
    }
    while k < results.len()
        invariant
            k <= results@.len(),
            status@ == status_after(start, results@.take(k as int)),
        decreases results@.len() - k,
    {
        proof {
            assert(results@.take(k + 1).drop_last() =~= results@.take(k as int));
        }
        status.insert(results[k].0.clone(), results[k].1);
        k += 1;
    }
    proof {
        assert(results@.take(k as int) =~= results@);
    }
}

/// Only another node's id with a readable key is ever on the allowlist, and its
/// key there is the one that a row of the peer gives.
pub proof fn law_allowlist_is_from_rows(peers: Seq<PeerRow>, self_id: Seq<char>, id: Seq<char>)
    requires
        allowlist(peers, self_id).contains_key(id),
    ensures
        id != self_id,
        exists|i: int|
            0 <= i < peers.len() && #[trigger] peers[i].participant_id@ == id
                && peers[i].public_key@.len() > 0 && public_key_of(peers[i].public_key@) == Some(
                allowlist(peers, self_id)[id],
            ),
    decreases peers.len(),
{
    let front = peers.drop_last();
    if admits(peers.last(), self_id) && peers.last().participant_id@ == id {
        assert(peers[peers.len() - 1].participant_id@ == id);
    } else {
        law_allowlist_is_from_rows(front, self_id, id);
        let i = choose|i: int|
            0 <= i < front.len() && #[trigger] front[i].participant_id@ == id
                && front[i].public_key@.len() > 0 && public_key_of(front[i].public_key@) == Some(
                allowlist(front, self_id)[id],
            );
        assert(peers[i].participant_id@ == id);
    }
}

/// Every other node whose row has a readable key is on the allowlist.
pub proof fn law_readable_rows_are_listed(peers: Seq<PeerRow>, self_id: Seq<char>, i: int)
    requires
        0 <= i < peers.len(),
        peers[i].participant_id@ != self_id,
        peers[i].public_key@.len() > 0,
        public_key_of(peers[i].public_key@) is Some,
    ensures
        allowlist(peers, self_id).contains_key(peers[i].participant_id@),
    decreases peers.len(),
{
    if i < peers.len() - 1 {
        law_readable_rows_are_listed(peers.drop_last(), self_id, i);
    }
}

/// A request comes from a sender with a key exactly where the handshake under
/// the same identity is answered.
pub proof fn law_sender_has_key_iff_admitted(
    keys: Map<Seq<char>, PublicKey>,
    identity: Seq<u8>,
    sender: Sender,
)
    requires
        sent_under(sender, keys, identity),
    ensures
        sender.pubkey is Some <==> valid_utf8(identity) && keys.contains_key(
            decode_utf8(identity),
        ),
        sender.pubkey is Some ==> sender.id is Some,
{
}

/// A key's text is as long as the ids of invitations need, and its first
/// sixteen bytes are its first sixteen characters.
pub proof fn law_sender_keys_can_be_shortened(key: PublicKey)
    ensures
        outside::hex_text(key.bytes@).len() == 66,
        crate::server::invitations::has_short_key(outside::hex_text(key.bytes@)),
        crate::server::invitations::short_key(outside::hex_text(key.bytes@))
            == outside::hex_text(key.bytes@).take(16),
{
    let s = outside::hex_text(key.bytes@);
    assert forall|i: int| 0 <= i < s.len() implies '\0' <= #[trigger] s[i] <= '\u{7f}' by {
        assert(0 <= key.bytes@[i / 2] as int / 16 < 16);
        assert(0 <= key.bytes@[i / 2] as int % 16 < 16);
    }
    lemma_ascii_prefix(s, 16);
}

/// In a text of ASCII characters bytes and characters are counted alike.
proof fn lemma_ascii_prefix(s: Seq<char>, n: int)
    requires
        is_ascii_chars(s),
        0 <= n < s.len(),
    ensures
        is_char_boundary(encode_utf8(s), n),
        decode_utf8(encode_utf8(s).subrange(0, n)) == s.take(n),
{
    let bytes = encode_utf8(s);
    let front = s.take(n);
    encode_utf8_valid_utf8(s);
    is_ascii_chars_encode_utf8(s);
    assert(bytes[n] == s[n] as u8);
    is_char_boundary_iff_is_leading_byte(bytes, n);
    assert(is_leading_byte_width_1(bytes[n]));
    is_ascii_chars_encode_utf8(front);
    assert(encode_utf8(front) =~= bytes.subrange(0, n)) by {
        assert forall|i: int| 0 <= i < n implies #[trigger] encode_utf8(front)[i] == bytes[i] by {
            assert(front[i] == s[i]);
        }
    }
    encode_utf8_decode_utf8(front);
}

/// After a round, a peer counts as up exactly where its key can be read, and it
/// was heard of lately or answered its ping with a pong. Of two results of the
/// round for one peer, the later counts.
pub proof fn law_round_gives_each_peer_its_status(
    status: Map<Seq<char>, bool>,
    results: Seq<(String, bool)>,
    i: int,
    peer: PeerRow,
    stale: bool,
    probe: Probe,
    answer: Option<Message>,
)
    requires
        is_planned(peer, stale, probe),
        0 <= i < results.len(),
        results[i].0@ == peer.participant_id@,
        results[i].1 == status_by(probe, answer),
        forall|j: int|
            i < j < results.len() ==> #[trigger] results[j].0@ != peer.participant_id@,
    ensures
        status_after(status, results).contains_key(peer.participant_id@),
        status_after(status, results)[peer.participant_id@] <==> public_key_of(
            peer.public_key@,
        ) is Some && (!stale || (answer matches Some(m) && m.msg_type
            == listener::MessageType::Pong)),
    decreases results.len(),
{
    let last = results.len() - 1;
    if i < last {
        let front = results.drop_last();
        assert forall|j: int| i < j < front.len() implies #[trigger] front[j].0@
            != peer.participant_id@ by {
            assert(results[j].0@ != peer.participant_id@);
        }
        assert(front[i] == results[i]);
        assert(results[last].0@ != peer.participant_id@);
        law_round_gives_each_peer_its_status(status, front, i, peer, stale, probe, answer);
    }
}

/// A round of probes gives each probed peer a status, and leaves the status of
/// every other as it was.
pub proof fn law_probes_touch_probed_peers_only(
    status: Map<Seq<char>, bool>,
    results: Seq<(String, bool)>,
    id: Seq<char>,
)
    ensures
        (exists|i: int| 0 <= i < results.len() && #[trigger] results[i].0@ == id)
            ==> status_after(status, results).contains_key(id),
        (forall|i: int| 0 <= i < results.len() ==> #[trigger] results[i].0@ != id)
            ==> status_after(status, results).contains_key(id) == status.contains_key(id) && (
        status.contains_key(id) ==> status_after(status, results)[id] == status[id]),
    decreases results.len(),
{
    if results.len() > 0 {
        let front = results.drop_last();
        law_probes_touch_probed_peers_only(status, front, id);
        if exists|i: int| 0 <= i < results.len() && #[trigger] results[i].0@ == id {
            let i = choose|i: int| 0 <= i < results.len() && #[trigger] results[i].0@ == id;
            if i < results.len() - 1 {
                assert(front[i].0@ == id);
            }
        }
        if forall|i: int| 0 <= i < results.len() ==> #[trigger] results[i].0@ != id {
            assert forall|i: int| 0 <= i < front.len() implies #[trigger] front[i].0@ != id by {
                assert(results[i].0@ != id);
            }
            assert(results[results.len() - 1].0@ != id);
        }
    }
}

/// Of the readable rows of one peer the last one counts: the peer is on the
/// allowlist under its key.
pub proof fn law_last_readable_row_counts(peers: Seq<PeerRow>, self_id: Seq<char>, i: int)
    requires
        0 <= i < peers.len(),
        peers[i].participant_id@ != self_id,
        peers[i].public_key@.len() > 0,
        public_key_of(peers[i].public_key@) is Some,
        forall|j: int|
            i < j < peers.len() && #[trigger] peers[j].participant_id@ == peers[i].participant_id@
                ==> peers[j].public_key@.len() == 0 || public_key_of(peers[j].public_key@) is None,
    ensures
        allowlist(peers, self_id).contains_key(peers[i].participant_id@),
        public_key_of(peers[i].public_key@) == Some(
            allowlist(peers, self_id)[peers[i].participant_id@],
        ),
    decreases peers.len(),
{
    let last = peers.len() - 1;
    if i < last {
        let front = peers.drop_last();
        assert(front[i] == peers[i]);
        assert forall|j: int|
            i < j < front.len() && #[trigger] front[j].participant_id@
                == front[i].participant_id@ implies front[j].public_key@.len() == 0
            || public_key_of(front[j].public_key@) is None by {
            assert(peers[j].participant_id@ == peers[i].participant_id@);
        }
        law_last_readable_row_counts(front, self_id, i);
        assert(peers[last].participant_id@ == peers[last].participant_id@);
    }
}

/// A key that is written in hexadecimal is read as the key of its bytes.
pub proof fn law_written_keys_are_read(bytes: Seq<u8>, key: PublicKey)
    ensures
        public_key_of(outside::hex_text(bytes)) == outside::compressed_public_key(bytes),
        public_key_of(outside::hex_text(key.bytes@)) == outside::compressed_public_key(key.bytes@),
{
    outside::law_hex_round_trip(bytes);
    outside::law_hex_round_trip(key.bytes@);
}

/// Under one identity, a handshake is answered with the key under which requests
/// count: there is one exactly where the identity spells an id on the allowlist,
/// and it is the key that is listed for that id.
pub proof fn law_handshake_and_sender_agree(
    keys: TextMap<PublicKey>,
    identity: &[u8],
    key: Option<PublicKey>,
    sender: Sender,
)
    requires
        call_ensures(handshake_key, (&keys, identity), key),
        call_ensures(identify_sender, (&keys, identity), sender),
    ensures
        key is Some <==> sender.pubkey is Some,
        key is Some <==> valid_utf8(identity@) && keys@.contains_key(decode_utf8(identity@)),
        key matches Some(k) ==> k == keys@[decode_utf8(identity@)],
        key matches Some(k) ==> (sender.pubkey matches Some(text) && text@ == outside::hex_text(
            k.bytes@,
        )),
        sender.id is Some <==> valid_utf8(identity@),
        sender.id matches Some(id) ==> id@ == decode_utf8(identity@),
{
}

/// Senders that are let in under different keys never count as one.
pub proof fn law_keys_tell_senders_apart(
    keys: Map<Seq<char>, PublicKey>,
    first: Seq<u8>,
    second: Seq<u8>,
    a: Sender,
    b: Sender,
)
    requires
        sent_under(a, keys, first),
        sent_under(b, keys, second),
        a.pubkey is Some,
        b.pubkey is Some,
        a.pubkey->0@ == b.pubkey->0@,
    ensures
        keys[decode_utf8(first)].bytes@ == keys[decode_utf8(second)].bytes@,
{
    outside::law_hex_round_trip(keys[decode_utf8(first)].bytes@);
    outside::law_hex_round_trip(keys[decode_utf8(second)].bytes@);
}

/// A sender counts as seen exactly where it has a key and an id, under that id.
pub proof fn law_seen_under_their_id(sender: Sender, id: Option<String>)
    requires
        call_ensures(seen_peer, (&sender,), id),
    ensures
        id is Some <==> sender.pubkey is Some && sender.id is Some,
        id is Some ==> id == sender.id,
{
}

/// A round asks every peer but this node, each as often as it has rows and in their
/// order, and takes place exactly where the rows could be loaded.
pub proof fn law_a_round_asks_all_others(
    loaded: Result<Vec<PeerRow>, String>,
    our_id: &str,
    targets: Option<Vec<PeerRow>>,
    row: PeerRow,
)
    requires
        call_ensures(begin_round, (loaded, our_id), targets),
    ensures
        targets is Some <==> loaded is Ok,
        loaded matches Ok(peers) ==> (targets matches Some(t) && (t@.contains(row)
            <==> peers@.contains(row) && row.participant_id@ != our_id@) && t@ == peers@.filter(
            |peer: PeerRow| peer.participant_id@ != our_id@,
        )),
{
    if let Ok(peers) = loaded {
        crate::counting::lemma_filter_same(
            peers@,
            is_other(our_id@),
            |peer: PeerRow| peer.participant_id@ != our_id@,
        );
        crate::counting::lemma_filter_contains(peers@, is_other(our_id@), row);
    }
}

/// Only a peer with a key is ever pinged, under that key, and only where it was not
/// heard of lately; without a key it counts as down.
pub proof fn law_who_is_pinged(key: Option<PublicKey>, stale: bool, probe: Probe)
    requires
        call_ensures(probe_with, (key, stale), probe),
    ensures
        probe is Ping <==> key is Some && stale,
        probe matches Probe::Ping(k) ==> key == Some(k),
        probe == Probe::Known(true) <==> key is Some && !stale,
        probe == Probe::Known(false) <==> key is None,
{
}

/// The allowlist that is built holds an id exactly where a row of another node under
/// that id has a key that can be read; without rows it is empty.
pub proof fn law_who_is_let_in(
    loaded: Result<Vec<PeerRow>, String>,
    self_id: &str,
    keys: TextMap<PublicKey>,
    id: Seq<char>,
)
    requires
        call_ensures(build_peer_key_map, (loaded, self_id), keys),
    ensures
        loaded is Err ==> !keys@.contains_key(id),
        loaded matches Ok(peers) ==> (keys@.contains_key(id) <==> id != self_id@ && exists|i: int|
            0 <= i < peers@.len() && (#[trigger] peers@[i]).participant_id@ == id
                && peers@[i].public_key@.len() > 0 && public_key_of(peers@[i].public_key@)
                is Some),
{
    if let Ok(peers) = loaded {
        assert(keys@.contains_key(id) == listed(keys@).contains_key(id));
        if keys@.contains_key(id) {
            law_allowlist_is_from_rows(peers@, self_id@, id);
            let i = choose|i: int|
                0 <= i < peers@.len() && #[trigger] peers@[i].participant_id@ == id
                    && peers@[i].public_key@.len() > 0 && public_key_of(peers@[i].public_key@)
                    == Some(allowlist(peers@, self_id@)[id]);
            assert(peers@[i].participant_id@ == id);
        }
        if id != self_id@ && exists|i: int|
            0 <= i < peers@.len() && (#[trigger] peers@[i]).participant_id@ == id
                && peers@[i].public_key@.len() > 0 && public_key_of(peers@[i].public_key@)
                is Some {
            let i = choose|i: int|
                0 <= i < peers@.len() && (#[trigger] peers@[i]).participant_id@ == id
                    && peers@[i].public_key@.len() > 0 && public_key_of(peers@[i].public_key@)
                    is Some;
            law_readable_rows_are_listed(peers@, self_id@, i);
        }
    }
}

/// Who is asked is asked in the way that was planned for it, and its status is what
/// comes of that.
pub proof fn law_probes_are_as_planned(
    peer: PeerRow,
    stale: bool,
    probe: Probe,
    answer: Option<Message>,
    up: bool,
)
    requires
        call_ensures(plan_probe, (&peer, stale), probe),
        call_ensures(probe_status, (probe, &answer), up),
    ensures
        up <==> public_key_of(peer.public_key@) is Some && (!stale || answer is Some
            && answer->0.msg_type == listener::MessageType::Pong),
{
}

} // verus!
