//! What an invitation tells the operator, in terms of what its coordinator wrote.

use vstd::prelude::*;

use crate::server::invitations;
use crate::server::invitations::{
    AddPartyInvitePayload, ChangeThresholdInvitePayload, InvitationMeta, InvitationType,
    KickInvitePayload, PendingInvitation,
};
use crate::text;

verus! {

/// An invitation to remove a participant, to add one or to change the threshold
/// shows the new threshold as the new one and the previous as the previous one;
/// an invitation to found a party shows the threshold that is wished for; no other
/// invitation shows any.
pub proof fn law_thresholds_are_shown_as_written(invitation: PendingInvitation, meta: InvitationMeta)
    requires
        invitation.carries(meta),
    ensures
        meta matches InvitationMeta::Kick(p) ==> invitation.new_threshold == Some(p.new_threshold)
            && invitation.previous_threshold == Some(p.previous_threshold),
        meta matches InvitationMeta::AddParty(p) ==> invitation.new_threshold == Some(
            p.new_threshold,
        ) && invitation.previous_threshold == Some(p.previous_threshold),
        meta matches InvitationMeta::ChangeThreshold(p) ==> invitation.new_threshold == Some(
            p.new_threshold,
        ) && invitation.previous_threshold == Some(p.previous_threshold),
        meta matches InvitationMeta::Onboarding(p) ==> invitation.new_threshold == p.threshold
            && invitation.previous_threshold is None,
        meta is Dars || meta is Contracts || meta is Nothing ==> invitation.new_threshold is None
            && invitation.previous_threshold is None,
{
}

/// The thresholds that an invitation shows tell two payloads of one kind apart:
/// payloads with different thresholds make different invitations.
pub proof fn law_thresholds_are_told_apart(
    first: PendingInvitation,
    second: PendingInvitation,
    a: AddPartyInvitePayload,
    b: KickInvitePayload,
    c: ChangeThresholdInvitePayload,
)
    requires
        first.carries(InvitationMeta::AddParty(a)),
    ensures
        second.carries(InvitationMeta::Kick(b)) ==> ((first.new_threshold == second.new_threshold
            <==> a.new_threshold == b.new_threshold) && (first.previous_threshold
            == second.previous_threshold <==> a.previous_threshold == b.previous_threshold)),
        second.carries(InvitationMeta::ChangeThreshold(c)) ==> ((first.new_threshold
            == second.new_threshold <==> a.new_threshold == c.new_threshold) && (
        first.previous_threshold == second.previous_threshold <==> a.previous_threshold
            == c.previous_threshold)),
{
}

/// Every invitation that came with something shows the participants that it names.
pub proof fn law_participants_are_shown(invitation: PendingInvitation, meta: InvitationMeta)
    requires
        invitation.carries(meta),
    ensures
        meta matches InvitationMeta::Onboarding(p) ==> invitation.participants == p.participants,
        meta matches InvitationMeta::Dars(p) ==> invitation.participants == p.participants,
        meta matches InvitationMeta::Kick(p) ==> invitation.participants == p.participants,
        meta matches InvitationMeta::Contracts(p) ==> invitation.participants == p.participants,
        meta matches InvitationMeta::AddParty(p) ==> invitation.participants == p.participants,
        meta matches InvitationMeta::ChangeThreshold(p) ==> invitation.participants
            == p.participants,
        meta is Nothing ==> invitation.participants@.len() == 0,
{
}

/// An invitation belongs to the run that it came with, whatever its kind, and to
/// none where it came with none.
pub proof fn law_runs_are_shown(invitation: PendingInvitation, meta: InvitationMeta)
    requires
        invitation.carries(meta),
    ensures
        meta matches InvitationMeta::Onboarding(p) ==> invitation.workflow_instance
            == p.workflow_instance,
        meta matches InvitationMeta::Dars(p) ==> invitation.workflow_instance
            == p.workflow_instance,
        meta matches InvitationMeta::Kick(p) ==> invitation.workflow_instance
            == p.workflow_instance,
        meta matches InvitationMeta::Contracts(p) ==> invitation.workflow_instance
            == p.workflow_instance,
        meta matches InvitationMeta::AddParty(p) ==> invitation.workflow_instance
            == p.workflow_instance,
        meta matches InvitationMeta::ChangeThreshold(p) ==> invitation.workflow_instance
            == p.workflow_instance,
        meta is Nothing ==> invitation.workflow_instance is None,
{
}

/// The party that a change is about is shown, by each kind of change alike.
pub proof fn law_the_party_is_shown(invitation: PendingInvitation, meta: InvitationMeta)
    requires
        invitation.carries(meta),
    ensures
        meta matches InvitationMeta::Kick(p) ==> invitation.dec_party_id == Some(p.dec_party_id),
        meta matches InvitationMeta::Contracts(p) ==> invitation.dec_party_id == Some(
            p.dec_party_id,
        ),
        meta matches InvitationMeta::AddParty(p) ==> invitation.dec_party_id == Some(
            p.dec_party_id,
        ),
        meta matches InvitationMeta::ChangeThreshold(p) ==> invitation.dec_party_id == Some(
            p.dec_party_id,
        ),
        meta is Onboarding || meta is Dars || meta is Nothing ==> invitation.dec_party_id is None,
{
}

/// Who leaves is shown as the one who leaves, who comes as the one who comes, and
/// the name, the packages and the files of those kinds that have them.
pub proof fn law_subjects_are_shown(invitation: PendingInvitation, meta: InvitationMeta)
    requires
        invitation.carries(meta),
    ensures
        invitation.kicked_participant is Some <==> meta is Kick,
        meta matches InvitationMeta::Kick(p) ==> invitation.kicked_participant == Some(
            p.kicked_participant,
        ),
        invitation.new_participant is Some <==> meta is AddParty,
        meta matches InvitationMeta::AddParty(p) ==> invitation.new_participant == Some(
            p.new_participant,
        ),
        invitation.prefix is Some <==> meta is Onboarding,
        meta matches InvitationMeta::Onboarding(p) ==> invitation.prefix == Some(p.prefix),
        meta matches InvitationMeta::Dars(p) ==> invitation.dar_filenames == p.dar_filenames,
        !(meta is Dars) ==> invitation.dar_filenames@.len() == 0,
        meta matches InvitationMeta::Contracts(p) ==> invitation.package_names == p.package_names,
        !(meta is Contracts) ==> invitation.package_names@.len() == 0,
{
}

/// What came with a message counts as it was read, whatever its kind, unless the
/// message held nothing or could not be read.
pub proof fn law_readable_payloads_count(
    payload: Vec<u8>,
    read: Option<InvitationMeta>,
    meta: InvitationMeta,
)
    requires
        call_ensures(invitations::invitation_meta, (&payload, read), meta),
    ensures
        payload@.len() > 0 && read is Some ==> read == Some(meta),
        payload@.len() == 0 || read is None ==> meta is Nothing,
{
}

/// An invitation is of the kind, of the coordinator and of the moment of its
/// message, whatever came with it.
pub proof fn law_invitations_are_of_their_message(
    kind: InvitationType,
    pubkey: &str,
    meta: InvitationMeta,
    at: i64,
    invitation: PendingInvitation,
)
    requires
        call_ensures(invitations::new_invitation, (kind, pubkey, meta, at), invitation),
    ensures
        invitation.invitation_type == kind,
        invitation.coordinator_pubkey@ == pubkey@,
        invitation.received_at == at,
        invitation.coordinator_name is None,
        meta matches InvitationMeta::Kick(p) ==> invitation.new_threshold == Some(p.new_threshold)
            && invitation.previous_threshold == Some(p.previous_threshold),
        meta matches InvitationMeta::AddParty(p) ==> invitation.new_threshold == Some(
            p.new_threshold,
        ) && invitation.previous_threshold == Some(p.previous_threshold),
        meta matches InvitationMeta::ChangeThreshold(p) ==> invitation.new_threshold == Some(
            p.new_threshold,
        ) && invitation.previous_threshold == Some(p.previous_threshold),
{
}

/// The id of an invitation starts with the kind in lower case, goes on with the
/// first of the coordinator's key, and ends with the run where it names one.
pub proof fn law_ids_are_readable(
    kind: InvitationType,
    pubkey: Seq<char>,
    instance: Option<Seq<char>>,
)
    ensures
        ({
            let id = invitations::invitation_id(kind, pubkey, instance);
            let rest = "-"@ + invitations::short_key(pubkey) + match instance {
                Some(run) => "-"@ + run,
                None => Seq::empty(),
            };
            &&& kind == InvitationType::Onboarding ==> id == "onboarding"@ + rest
            &&& kind == InvitationType::Kick ==> id == "kick"@ + rest
            &&& kind == InvitationType::Contracts ==> id == "contracts"@ + rest
            &&& kind == InvitationType::Dars ==> id == "dars"@ + rest
            &&& kind == InvitationType::AddParty ==> id == "addparty"@ + rest
            &&& kind == InvitationType::ChangeThreshold ==> id == "changethreshold"@ + rest
        }),
{
    reveal_strlit("Onboarding");
    reveal_strlit("onboarding");
    reveal_strlit("Kick");
    reveal_strlit("kick");
    reveal_strlit("Contracts");
    reveal_strlit("contracts");
    reveal_strlit("Dars");
    reveal_strlit("dars");
    reveal_strlit("AddParty");
    reveal_strlit("addparty");
    reveal_strlit("ChangeThreshold");
    reveal_strlit("changethreshold");
    assert(text::lowered("Onboarding"@) =~= "onboarding"@);
    assert(text::lowered("Kick"@) =~= "kick"@);
    assert(text::lowered("Contracts"@) =~= "contracts"@);
    assert(text::lowered("Dars"@) =~= "dars"@);
    assert(text::lowered("AddParty"@) =~= "addparty"@);
    assert(text::lowered("ChangeThreshold"@) =~= "changethreshold"@);
    let id = invitations::invitation_id(kind, pubkey, instance);
    let rest = "-"@ + invitations::short_key(pubkey) + match instance {
        Some(run) => "-"@ + run,
        None => Seq::empty(),
    };
    assert(id =~= text::lowered(kind.name()) + rest);
}

} // verus!
