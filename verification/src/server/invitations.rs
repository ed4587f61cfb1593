//! Invitations to workflows that wait for the operator's answer.

use vstd::prelude::*;
use vstd::string::*;
use vstd::utf8::*;

use crate::counting;
use crate::text;

verus! {

/// The kind of workflow that an invitation is for.
#[derive(Clone, Copy, Debug, PartialEq, Eq, Structural)]
pub enum InvitationType {
    Onboarding,
    Kick,
    Contracts,
    Dars,
    AddParty,
    ChangeThreshold,
}

impl InvitationType {
    /// The name of the kind.
    pub open spec fn name(self) -> Seq<char> {
        match self {
            InvitationType::Onboarding => "Onboarding"@,
            InvitationType::Kick => "Kick"@,
            InvitationType::Contracts => "Contracts"@,
            InvitationType::Dars => "Dars"@,
            InvitationType::AddParty => "AddParty"@,
            InvitationType::ChangeThreshold => "ChangeThreshold"@,
        }
    }

    /// The name of the kind.
    pub fn as_str(self) -> (name: &'static str)
        ensures
            name@ == self.name(),
    {
        match self {
            InvitationType::Onboarding => "Onboarding",
            InvitationType::Kick => "Kick",
            InvitationType::Contracts => "Contracts",
            InvitationType::Dars => "Dars",
            InvitationType::AddParty => "AddParty",
            InvitationType::ChangeThreshold => "ChangeThreshold",
        }
    }

    /// The name of the kind in lower case, as ids hold it.
    pub fn tag(self) -> (tag: &'static str)
        ensures
            tag@ == text::lowered(self.name()),
    {
        proof {
            reveal_strlit("Onboarding");
            reveal_strlit("onboarding");
            reveal_strlit("Kick");
            reveal_strlit("kick");
            reveal_strlit("Contracts");
            reveal_strlit("contracts");
            reveal_strlit("Dars");
            reveal_strlit("dars");
            reveal_strlit("AddParty");
            reveal_strlit("addparty");
            reveal_strlit("ChangeThreshold");
            reveal_strlit("changethreshold");
            assert(text::lowered("Onboarding"@) =~= "onboarding"@);
            assert(text::lowered("Kick"@) =~= "kick"@);
            assert(text::lowered("Contracts"@) =~= "contracts"@);
            assert(text::lowered("Dars"@) =~= "dars"@);
            assert(text::lowered("AddParty"@) =~= "addparty"@);
            assert(text::lowered("ChangeThreshold"@) =~= "changethreshold"@);
        }
        match self {
            InvitationType::Onboarding => "onboarding",
            InvitationType::Kick => "kick",
            InvitationType::Contracts => "contracts",
            InvitationType::Dars => "dars",
            InvitationType::AddParty => "addparty",
            InvitationType::ChangeThreshold => "changethreshold",
        }
    }
}

/// What an invitation to found a party says.
pub struct OnboardingInvitePayload {
    pub prefix: String,
    pub participants: Vec<String>,
    pub threshold: Option<u32>,
    pub workflow_instance: Option<String>,
}

/// What an invitation to distribute packages says.
pub struct DarsInvitePayload {
    pub dar_filenames: Vec<String>,
    pub participants: Vec<String>,
    pub workflow_instance: Option<String>,
}

/// What an invitation to remove a participant says.
pub struct KickInvitePayload {
    pub kicked_participant: String,
    pub new_threshold: u32,
    pub previous_threshold: u32,
    pub dec_party_id: String,
    pub participants: Vec<String>,
    pub workflow_instance: Option<String>,
}

/// What an invitation to set up contracts says.
pub struct ContractsInvitePayload {
    pub dec_party_id: String,
    pub participants: Vec<String>,
    pub package_names: Vec<String>,
    pub workflow_instance: Option<String>,
}

/// What an invitation to add a participant says.
pub struct AddPartyInvitePayload {
    pub new_participant: String,
    pub new_threshold: u32,
    pub previous_threshold: u32,
    pub dec_party_id: String,
    pub participants: Vec<String>,
    pub workflow_instance: Option<String>,
}

/// What an invitation to change the threshold says.
pub struct ChangeThresholdInvitePayload {
    pub new_threshold: u32,
    pub previous_threshold: u32,
    pub dec_party_id: String,
    pub participants: Vec<String>,
    pub workflow_instance: Option<String>,
}

/// What came with an invitation.
pub enum InvitationMeta {
    /// Nothing, or nothing that could be read.
    Nothing,
    Onboarding(OnboardingInvitePayload),
    Dars(DarsInvitePayload),
    Kick(KickInvitePayload),
    Contracts(ContractsInvitePayload),
    AddParty(AddPartyInvitePayload),
    ChangeThreshold(ChangeThresholdInvitePayload),
}

impl InvitationMeta {
    /// The coordinator's run that the invitation belongs to, where it names one.
    pub open spec fn instance(self) -> Option<String> {
        match self {
            InvitationMeta::Nothing => None,
            InvitationMeta::Onboarding(p) => p.workflow_instance,
            InvitationMeta::Dars(p) => p.workflow_instance,
            InvitationMeta::Kick(p) => p.workflow_instance,
            InvitationMeta::Contracts(p) => p.workflow_instance,
            InvitationMeta::AddParty(p) => p.workflow_instance,
            InvitationMeta::ChangeThreshold(p) => p.workflow_instance,
        }
    }
}

/// What came with an invitation, by its payload and by what could be read of it:
/// an empty payload, and one that could not be read, count as nothing.
pub fn invitation_meta(payload: &Vec<u8>, read: Option<InvitationMeta>) -> (meta: InvitationMeta)
    ensures
        meta == match read {
            Some(m) if payload@.len() > 0 => m,
            _ => InvitationMeta::Nothing,
        },
{
    if payload.len() == 0 {
        return InvitationMeta::Nothing;
    }
    match read {
        Some(meta) => meta,
        None => InvitationMeta::Nothing,
    }
}

/// An invitation that waits for the operator's answer.
pub struct PendingInvitation {
    pub id: String,
    pub invitation_type: InvitationType,
    pub coordinator_pubkey: String,
    pub coordinator_name: Option<String>,
    /// Seconds since the epoch.
    pub received_at: i64,
    pub prefix: Option<String>,
    pub participants: Vec<String>,
    pub dar_filenames: Vec<String>,
    pub kicked_participant: Option<String>,
    pub new_participant: Option<String>,
    pub new_threshold: Option<u32>,
    pub previous_threshold: Option<u32>,
    pub dec_party_id: Option<String>,
    pub package_names: Vec<String>,
    pub workflow_instance: Option<String>,
}

impl PendingInvitation {
    /// The invitation holds what came with it, and nothing else.
    pub open spec fn carries(self, meta: InvitationMeta) -> bool {
        &&& self.workflow_instance == meta.instance()
        &&& match meta {
            InvitationMeta::Onboarding(p) => {
                &&& self.prefix == Some(p.prefix)
                &&& self.participants == p.participants
                &&& self.new_threshold == p.threshold
            },
            InvitationMeta::Dars(p) => {
                &&& self.prefix is None
                &&& self.participants == p.participants
                &&& self.new_threshold is None
            },
            InvitationMeta::Kick(p) => {
                &&& self.prefix is None
                &&& self.participants == p.participants
                &&& self.new_threshold == Some(p.new_threshold)
            },
            InvitationMeta::Contracts(p) => {
                &&& self.prefix is None
                &&& self.participants == p.participants
                &&& self.new_threshold is None
            },
            InvitationMeta::AddParty(p) => {
                &&& self.prefix is None
                &&& self.participants == p.participants
                &&& self.new_threshold == Some(p.new_threshold)
            },
            InvitationMeta::ChangeThreshold(p) => {
                &&& self.prefix is None
                &&& self.participants == p.participants
                &&& self.new_threshold == Some(p.new_threshold)
            },
            InvitationMeta::Nothing => {
                &&& self.prefix is None
                &&& self.participants@ == Seq::<String>::empty()
                &&& self.new_threshold is None
            },
        }
        &&& match meta {
            InvitationMeta::Dars(p) => self.dar_filenames == p.dar_filenames,
            _ => self.dar_filenames@ == Seq::<String>::empty(),
        }
        &&& match meta {
            InvitationMeta::Kick(p) => self.kicked_participant == Some(p.kicked_participant),
            _ => self.kicked_participant is None,
        }
        &&& match meta {
            InvitationMeta::AddParty(p) => self.new_participant == Some(p.new_participant),
            _ => self.new_participant is None,
        }
        &&& match meta {
            InvitationMeta::Kick(p) => self.previous_threshold == Some(p.previous_threshold),
            InvitationMeta::AddParty(p) => self.previous_threshold == Some(p.previous_threshold),
            InvitationMeta::ChangeThreshold(p) => self.previous_threshold == Some(
                p.previous_threshold,
            ),
            _ => self.previous_threshold is None,
        }
        &&& match meta {
            InvitationMeta::Kick(p) => self.dec_party_id == Some(p.dec_party_id),
            InvitationMeta::Contracts(p) => self.dec_party_id == Some(p.dec_party_id),
            InvitationMeta::AddParty(p) => self.dec_party_id == Some(p.dec_party_id),
            InvitationMeta::ChangeThreshold(p) => self.dec_party_id == Some(p.dec_party_id),
            _ => self.dec_party_id is None,
        }
        &&& match meta {
            InvitationMeta::Contracts(p) => self.package_names == p.package_names,
            _ => self.package_names@ == Seq::<String>::empty(),
        }
    }
}

/// The text of the first sixteen bytes of a coordinator's key.
pub open spec fn short_key(pubkey: Seq<char>) -> Seq<char> {
    decode_utf8(encode_utf8(pubkey).subrange(0, 16))
}

/// The first sixteen bytes of the key are whole characters.
pub open spec fn has_short_key(pubkey: Seq<char>) -> bool {
    is_char_boundary(encode_utf8(pubkey), 16)
}

/// The id of an invitation: one per run where the invitation names its run,
/// else one per kind and coordinator.
pub open spec fn invitation_id(
    invitation_type: InvitationType,
    pubkey: Seq<char>,
    instance: Option<Seq<char>>,
) -> Seq<char> {
    let base = text::lowered(invitation_type.name()) + "-"@ + short_key(pubkey);
    match instance {
        Some(i) => base + "-"@ + i,
        None => base,
    }
}

/// The text of the first sixteen bytes of a coordinator's key.
fn shorten(pubkey: &str) -> (short: &str)
    requires
        has_short_key(pubkey@),
    ensures
        short@ == short_key(pubkey@),
{
    let short = pubkey.split_at(16).0;
    proof {
        encode_utf8_decode_utf8(short@);
    }
    short
}

/// The invitation that a message of a coordinator makes.
pub fn new_invitation(
    invitation_type: InvitationType,
    coordinator_pubkey: &str,
    meta: InvitationMeta,
    received_at: i64,
) -> (invitation: PendingInvitation)
    requires
        has_short_key(coordinator_pubkey@),
    ensures
        invitation.id@ == invitation_id(
            invitation_type,
            coordinator_pubkey@,
            text::text_of(meta.instance()),
        ),
        invitation.invitation_type == invitation_type,
        invitation.coordinator_pubkey@ == coordinator_pubkey@,
        invitation.coordinator_name is None,
        invitation.received_at == received_at,
        invitation.carries(meta),
        meta matches InvitationMeta::Kick(p) ==> invitation.new_threshold == Some(p.new_threshold)
            && invitation.previous_threshold == Some(p.previous_threshold),
        meta matches InvitationMeta::AddParty(p) ==> invitation.new_threshold == Some(
            p.new_threshold,
        ) && invitation.previous_threshold == Some(p.previous_threshold),
        meta matches InvitationMeta::ChangeThreshold(p) ==> invitation.new_threshold == Some(
            p.new_threshold,
        ) && invitation.previous_threshold == Some(p.previous_threshold),
{
    let mut prefix: Option<String> = None;
    let mut participants: Vec<String> = Vec::new();
    let mut dar_filenames: Vec<String> = Vec::new();
    let mut kicked_participant: Option<String> = None;
    let mut new_participant: Option<String> = None;
    let mut new_threshold: Option<u32> = None;
    let mut previous_threshold: Option<u32> = None;
    let mut dec_party_id: Option<String> = None;
    let mut package_names: Vec<String> = Vec::new();
    let mut workflow_instance: Option<String> = None;
    match meta {
        InvitationMeta::Nothing => {},
        InvitationMeta::Onboarding(p) => {
            prefix = Some(p.prefix);
            participants = p.participants;
            new_threshold = p.threshold;
            workflow_instance = p.workflow_instance;
        },
        InvitationMeta::Dars(p) => {
            dar_filenames = p.dar_filenames;
            participants = p.participants;
            workflow_instance = p.workflow_instance;
        },
        InvitationMeta::Kick(p) => {
            kicked_participant = Some(p.kicked_participant);
            new_threshold = Some(p.new_threshold);
            previous_threshold = Some(p.previous_threshold);
            dec_party_id = Some(p.dec_party_id);
            participants = p.participants;
            workflow_instance = p.workflow_instance;
        },
        InvitationMeta::Contracts(p) => {
            dec_party_id = Some(p.dec_party_id);
            participants = p.participants;
            package_names = p.package_names;
            workflow_instance = p.workflow_instance;
        },
        InvitationMeta::AddParty(p) => {
            new_participant = Some(p.new_participant);
            new_threshold = Some(p.new_threshold);
            previous_threshold = Some(p.previous_threshold);
            dec_party_id = Some(p.dec_party_id);
            participants = p.participants;
            workflow_instance = p.workflow_instance;
        },
        InvitationMeta::ChangeThreshold(p) => {
            new_threshold = Some(p.new_threshold);
            previous_threshold = Some(p.previous_threshold);
            dec_party_id = Some(p.dec_party_id);
            participants = p.participants;
            workflow_instance = p.workflow_instance;
        },
    }
    let base = invitation_type.tag().to_owned().concat("-").concat(shorten(coordinator_pubkey));
    let id = match &workflow_instance {
        Some(instance) => base.concat("-").concat(instance.as_str()),
        None => base,
    };
    PendingInvitation {
        id,
        invitation_type,
        coordinator_pubkey: coordinator_pubkey.to_owned(),
        coordinator_name: None,
        received_at,
        prefix,
        participants,
        dar_filenames,
        kicked_participant,
        new_participant,
        new_threshold,
        previous_threshold,
        dec_party_id,
        package_names,
        workflow_instance,
    }
}

/// How many invitations of one coordinator may wait at a time.
pub const MAX_PENDING_INVITES_PER_COORDINATOR: usize = 16;

/// Invitation `j` of the coordinator came after invitation `i`: later by the
/// clock, or at the same second and further down the list.
pub open spec fn is_newer(list: Seq<PendingInvitation>, i: int, j: int) -> bool {
    ||| list[j].received_at > list[i].received_at
    ||| list[j].received_at == list[i].received_at && j > i
}

/// Invitation `i` came from the coordinator.
pub open spec fn is_from(list: Seq<PendingInvitation>, pubkey: Seq<char>, i: int) -> bool {
    list[i].coordinator_pubkey@ == pubkey
}

/// How many of the coordinator's invitations came after invitation `i`.
pub open spec fn newer_count(list: Seq<PendingInvitation>, pubkey: Seq<char>, i: int) -> nat {
    counting::count_below(list.len(), |j: int| is_from(list, pubkey, j) && is_newer(list, i, j))
}

/// Invitation `i` is one that the coordinator's newer ones crowd out.
pub open spec fn is_overdue(list: Seq<PendingInvitation>, pubkey: Seq<char>, i: int) -> bool {
    is_from(list, pubkey, i) && newer_count(list, pubkey, i) >= MAX_PENDING_INVITES_PER_COORDINATOR
}

/// The ids of the overdue ones among the first `n` invitations.
pub open spec fn overdue_ids(
    list: Seq<PendingInvitation>,
    pubkey: Seq<char>,
    n: nat,
) -> Seq<Seq<char>>
    decreases n,
{
    if n == 0 {
        Seq::empty()
    } else {
        let before = overdue_ids(list, pubkey, (n - 1) as nat);
        if is_overdue(list, pubkey, n - 1) {
            before.push(list[n - 1].id@)
        } else {
            before
        }
    }
}

/// The list with `invitation` at its end, in place of one with the same id.
pub open spec fn with_invitation(
    list: Seq<PendingInvitation>,
    invitation: PendingInvitation,
) -> Seq<PendingInvitation> {
    list.filter(|i: PendingInvitation| i.id@ != invitation.id@).push(invitation)
}

/// The invitations that have none of the ids.
pub open spec fn has_none_of(ids: Seq<Seq<char>>) -> spec_fn(PendingInvitation) -> bool {
    |i: PendingInvitation| !ids.contains(i.id@)
}

/// The invitations that the coordinator sent.
pub open spec fn sent_by(pubkey: Seq<char>) -> spec_fn(PendingInvitation) -> bool {
    |i: PendingInvitation| i.coordinator_pubkey@ == pubkey
}

/// The invitations that others than the coordinator sent.
pub open spec fn not_sent_by(pubkey: Seq<char>) -> spec_fn(PendingInvitation) -> bool {
    |i: PendingInvitation| i.coordinator_pubkey@ != pubkey
}

/// The list without the invitations that have one of the ids.
pub open spec fn without_ids(list: Seq<PendingInvitation>, ids: Seq<Seq<char>>) -> Seq<
    PendingInvitation,
> {
    list.filter(has_none_of(ids))
}

/// What is left of the list once the coordinator's overdue invitations are gone.
pub open spec fn bounded(list: Seq<PendingInvitation>, pubkey: Seq<char>) -> Seq<
    PendingInvitation,
> {
    without_ids(list, overdue_ids(list, pubkey, list.len()))
}

/// Whether an invitation of the coordinator belongs to the run `instance`; an
/// empty `instance` stands for every run.
pub open spec fn concerns(
    invitation: PendingInvitation,
    pubkey: Seq<char>,
    instance: Seq<char>,
) -> bool {
    invitation.coordinator_pubkey@ == pubkey && (instance.len() == 0 || text::text_of(
        invitation.workflow_instance,
    ) == Some(instance))
}

/// What the store is to delete.
pub enum InvitationDelete {
    /// Every invitation of the coordinator with this key.
    ByCoordinator(String),
    /// The invitations with these ids.
    ByIds(Vec<String>),
}

/// The list after `invitation` was recorded in it.
pub open spec fn recorded(
    list: Seq<PendingInvitation>,
    invitation: PendingInvitation,
) -> Seq<PendingInvitation> {
    bounded(with_invitation(list, invitation), invitation.coordinator_pubkey@)
}

/// The ids of the invitations that recording `invitation` lets go.
pub open spec fn crowded_out(
    list: Seq<PendingInvitation>,
    invitation: PendingInvitation,
) -> Seq<Seq<char>> {
    let with = with_invitation(list, invitation);
    overdue_ids(with, invitation.coordinator_pubkey@, with.len())
}

/// The list after the coordinator cancelled the run `instance`.
pub open spec fn dropped(
    list: Seq<PendingInvitation>,
    pubkey: Seq<char>,
    instance: Seq<char>,
) -> Seq<PendingInvitation> {
    list.filter(|i: PendingInvitation| !concerns(i, pubkey, instance))
}

/// What the store is to delete once the coordinator cancelled the run `instance`.
pub open spec fn deletes(
    list: Seq<PendingInvitation>,
    pubkey: Seq<char>,
    instance: Seq<char>,
    delete: InvitationDelete,
) -> bool {
    match delete {
        InvitationDelete::ByCoordinator(key) => instance.len() == 0 && key@ == pubkey,
        InvitationDelete::ByIds(ids) => instance.len() > 0 && text::texts(ids@) == list.filter(
            |i: PendingInvitation| concerns(i, pubkey, instance),
        ).map_values(|i: PendingInvitation| i.id@),
    }
}

/// The invitations that wait, in the order they came.
pub struct PendingInvitations {
    pub list: Vec<PendingInvitation>,
}

/// Takes the invitations that have one of the ids out of the list.
fn take_ids(list: &mut Vec<PendingInvitation>, ids: &Vec<String>)
    ensures
        final(list)@ == without_ids(old(list)@, text::texts(ids@)),
{
    let ghost start = list@;
    let ghost p = has_none_of(text::texts(ids@));
    let mut kept: Vec<PendingInvitation> = Vec::new();
    let mut k: usize = 0;
    let n = list.len();
    proof {
        assert(start.skip(0) =~= start);
        assert(start.take(0).filter(p) =~= Seq::<PendingInvitation>::empty()) by {
            reveal(Seq::filter);
        }
    }
    while k < n
        invariant
            k <= n == start.len(),
            list@ == start.skip(k as int),
            p == has_none_of(text::texts(ids@)),
            kept@ == start.take(k as int).filter(p),
        decreases n - k,
    {
        let invitation = list.remove(0);
        proof {
            assert(list@ =~= start.skip(k + 1));
            assert(invitation == start[k as int]);
            counting::lemma_filter_take(start, p, k as int);
        }
        if !text::one_of(ids, &invitation.id) {
            kept.push(invitation);
        }
        k += 1;
    }
    proof {
        assert(start.take(k as int) =~= start);
    }
    *list = kept;
}

impl PendingInvitations {
    /// How many of the coordinator's invitations came after invitation `i`.
    fn count_newer(&self, pubkey: &str, i: usize) -> (count: usize)
        requires
            i < self.list@.len(),
        ensures
            count == newer_count(self.list@, pubkey@, i as int),
    {
        let ghost p = |j: int|
            is_from(self.list@, pubkey@, j) && is_newer(self.list@, i as int, j);
        let mut count: usize = 0;
        let mut j: usize = 0;
        while j < self.list.len()
            invariant
                i < self.list@.len(),
                j <= self.list@.len(),
                count <= j,
                p == (|j: int|
                    is_from(self.list@, pubkey@, j) && is_newer(self.list@, i as int, j)),
                count == counting::count_below(j as nat, p),
            decreases self.list@.len() - j,
        {
            let later = self.list[j].received_at > self.list[i].received_at || (
            self.list[j].received_at == self.list[i].received_at && j > i);
            if text::same_text(self.list[j].coordinator_pubkey.as_str(), pubkey) && later {
                count += 1;
            }
            j += 1;
        }
        count
    }

    /// The ids of the coordinator's overdue invitations.
    fn find_overdue(&self, pubkey: &str) -> (ids: Vec<String>)
        ensures
            text::texts(ids@) == overdue_ids(self.list@, pubkey@, self.list@.len()),
    {
        let mut ids: Vec<String> = Vec::new();
        let mut i: usize = 0;
        proof {
            assert(text::texts(ids@) =~= overdue_ids(self.list@, pubkey@, 0));
        }
        while i < self.list.len()
            invariant
                i <= self.list@.len(),
                text::texts(ids@) == overdue_ids(self.list@, pubkey@, i as nat),
            decreases self.list@.len() - i,
        {
            if text::same_text(self.list[i].coordinator_pubkey.as_str(), pubkey)
                && self.count_newer(pubkey, i) >= MAX_PENDING_INVITES_PER_COORDINATOR {
                let ghost was = ids@;
                ids.push(self.list[i].id.clone());
                proof {
                    assert(text::texts(ids@) =~= text::texts(was).push(self.list@[i as int].id@));
                }
            }
            i += 1;
        }
        ids
    }

    /// Puts `invitation` at the end of the list, in place of an earlier one
    /// with the same id, and lets the coordinator's overdue invitations go.
    /// Returns the ids of those that went, for the store to delete.
    pub fn record_invitation(&mut self, invitation: PendingInvitation) -> (evicted: Vec<String>)
        ensures
            final(self).list@ == recorded(old(self).list@, invitation),
            text::texts(evicted@) == crowded_out(old(self).list@, invitation),
    {
        let ghost start = self.list@;
        let mut same: Vec<String> = Vec::new();
        same.push(invitation.id.clone());
        take_ids(&mut self.list, &same);
        proof {
            let p = has_none_of(text::texts(same@));
            let q = |i: PendingInvitation| i.id@ != invitation.id@;
            assert forall|i: int| 0 <= i < start.len() implies p(#[trigger] start[i]) == q(
                start[i],
            ) by {
                assert(text::texts(same@)[0] == invitation.id@);
                assert(text::texts(same@).len() == 1);
            }
            counting::lemma_filter_same(start, p, q);
        }
        let pubkey = invitation.coordinator_pubkey.clone();
        self.list.push(invitation);
        let evicted = self.find_overdue(pubkey.as_str());
        take_ids(&mut self.list, &evicted);
        evicted
    }

    /// Takes the coordinator's invitations to the run `instance` out of the
    /// list, or all of its invitations where `instance` is empty, and says what
    /// the store is to delete.
    pub fn drop_invitations_from(&mut self, coordinator_pubkey: &str, instance: &str) -> (delete:
        InvitationDelete)
        ensures
            final(self).list@ == dropped(old(self).list@, coordinator_pubkey@, instance@),
            deletes(old(self).list@, coordinator_pubkey@, instance@, delete),
    {
        let ghost start = self.list@;
        let ghost stays = |i: PendingInvitation| !concerns(i, coordinator_pubkey@, instance@);
        let ghost goes = |i: PendingInvitation| concerns(i, coordinator_pubkey@, instance@);
        let ghost id_of = |i: PendingInvitation| i.id@;
        let mut list: Vec<PendingInvitation> = Vec::new();
        core::mem::swap(&mut self.list, &mut list);
        let mut ids: Vec<String> = Vec::new();
        let mut k: usize = 0;
        let n = list.len();
        proof {
            assert(start.skip(0) =~= start);
            assert(start.take(0).filter(stays) =~= Seq::<PendingInvitation>::empty()) by {
                reveal(Seq::filter);
            }
            assert(start.take(0).filter(goes) =~= Seq::<PendingInvitation>::empty()) by {
                reveal(Seq::filter);
            }
            assert(text::texts(ids@) =~= start.take(0).filter(goes).map_values(id_of));
        }
        while k < n
            invariant
                k <= n == start.len(),
                list@ == start.skip(k as int),
                stays == (|i: PendingInvitation| !concerns(i, coordinator_pubkey@, instance@)),
                goes == (|i: PendingInvitation| concerns(i, coordinator_pubkey@, instance@)),
                id_of == (|i: PendingInvitation| i.id@),
                self.list@ == start.take(k as int).filter(stays),
                text::texts(ids@) == start.take(k as int).filter(goes).map_values(id_of),
            decreases n - k,
        {
            let invitation = list.remove(0);
            proof {
                assert(list@ =~= start.skip(k + 1));
                assert(invitation == start[k as int]);
                counting::lemma_filter_take(start, stays, k as int);
                counting::lemma_filter_take(start, goes, k as int);
            }
            let in_run = instance.is_empty() || text::is_text(
                &invitation.workflow_instance,
                instance,
            );
            if text::same_text(invitation.coordinator_pubkey.as_str(), coordinator_pubkey)
                && in_run {
                let ghost was = ids@;
                ids.push(invitation.id.clone());
                proof {
                    assert(text::texts(ids@) =~= text::texts(was).push(invitation.id@));
                    assert(start.take(k as int).filter(goes).push(invitation).map_values(id_of)
                        =~= start.take(k as int).filter(goes).map_values(id_of).push(
                        invitation.id@,
                    ));
                }
            } else {
                self.list.push(invitation);
            }
            k += 1;
        }
        proof {
            assert(start.take(k as int) =~= start);
        }
        if instance.is_empty() {
            InvitationDelete::ByCoordinator(coordinator_pubkey.to_owned())
        } else {
            InvitationDelete::ByIds(ids)
        }
    }
}

} // verus!
