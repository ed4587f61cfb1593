use decman::server::invitations::{
    invitation_meta, new_invitation, DarsInvitePayload, InvitationDelete, InvitationMeta, InvitationType,
    KickInvitePayload, OnboardingInvitePayload, PendingInvitation, PendingInvitations,
};

const KEY: &str = "0279be667ef9dcbbac55a06295ce870b07029bfcdb2dce28d959f2815b16f81798";
const OTHER: &str = "03ffff667ef9dcbbac55a06295ce870b07029bfcdb2dce28d959f2815b16f81798";

fn dars(instance: Option<&str>) -> InvitationMeta {
    InvitationMeta::Dars(DarsInvitePayload {
        dar_filenames: vec!["a.dar".to_string()],
        participants: vec!["p1".to_string()],
        workflow_instance: instance.map(|i| i.to_string()),
    })
}

fn invite(key: &str, instance: Option<&str>, at: i64) -> PendingInvitation {
    new_invitation(InvitationType::Dars, key, dars(instance), at)
}

fn ids(pending: &PendingInvitations) -> Vec<&str> {
    pending.list.iter().map(|i| i.id.as_str()).collect()
}

#[test]
fn an_invitation_that_names_its_run_has_an_id_of_its_own() {
    let i = invite(KEY, Some("run-1"), 7);
    assert_eq!(i.id, "dars-0279be667ef9dcbb-run-1");
    assert_eq!(i.received_at, 7);
    assert_eq!(i.coordinator_pubkey, KEY);
    assert_eq!(i.dar_filenames, vec!["a.dar"]);
    assert_eq!(i.participants, vec!["p1"]);
    assert!(i.coordinator_name.is_none() && i.prefix.is_none());
}

#[test]
fn an_invitation_that_names_no_run_has_the_id_of_its_kind() {
    assert_eq!(invite(KEY, None, 0).id, "dars-0279be667ef9dcbb");
    let i = new_invitation(InvitationType::ChangeThreshold, KEY, InvitationMeta::Nothing, 0);
    assert_eq!(i.id, "changethreshold-0279be667ef9dcbb");
    assert!(i.participants.is_empty() && i.new_threshold.is_none());
}

#[test]
fn what_came_with_an_invitation_is_kept() {
    let kick = InvitationMeta::Kick(KickInvitePayload {
        kicked_participant: "k".to_string(),
        new_threshold: 2,
        previous_threshold: 3,
        dec_party_id: "d".to_string(),
        participants: vec![],
        workflow_instance: None,
    });
    let i = new_invitation(InvitationType::Kick, KEY, kick, 0);
    assert_eq!(i.kicked_participant.as_deref(), Some("k"));
    assert_eq!(i.new_threshold, Some(2));
    assert_eq!(i.previous_threshold, Some(3));
    assert_eq!(i.dec_party_id.as_deref(), Some("d"));
    let onboarding = InvitationMeta::Onboarding(OnboardingInvitePayload {
        prefix: "pre".to_string(),
        participants: vec![],
        threshold: None,
        workflow_instance: Some("r".to_string()),
    });
    let i = new_invitation(InvitationType::Onboarding, KEY, onboarding, 0);
    assert_eq!(i.prefix.as_deref(), Some("pre"));
    assert_eq!(i.new_threshold, None);
    assert_eq!(i.workflow_instance.as_deref(), Some("r"));
}

#[test]
fn the_same_run_replaces_its_invitation() {
    let mut p = PendingInvitations { list: Vec::new() };
    assert!(p.record_invitation(invite(KEY, Some("a"), 1)).is_empty());
    assert!(p.record_invitation(invite(KEY, Some("b"), 2)).is_empty());
    assert!(p.record_invitation(invite(KEY, Some("a"), 3)).is_empty());
    assert_eq!(
        ids(&p),
        vec!["dars-0279be667ef9dcbb-b", "dars-0279be667ef9dcbb-a"]
    );
    assert_eq!(p.list[1].received_at, 3);
}

#[test]
fn a_coordinator_has_at_most_sixteen_invitations() {
    let mut p = PendingInvitations { list: Vec::new() };
    p.record_invitation(invite(OTHER, Some("x"), 0));
    for n in 0..20 {
        let evicted = p.record_invitation(invite(KEY, Some(&format!("r{n}")), n));
        if n < 16 {
            assert!(evicted.is_empty());
        } else {
            assert_eq!(evicted, vec![format!("dars-0279be667ef9dcbb-r{}", n - 16)]);
        }
    }
    assert_eq!(p.list.len(), 17);
    assert_eq!(p.list[0].coordinator_pubkey, OTHER);
    assert_eq!(p.list[1].id, "dars-0279be667ef9dcbb-r4");
}

#[test]
fn of_invitations_of_one_second_the_first_leaves() {
    let mut p = PendingInvitations { list: Vec::new() };
    for n in 0..17 {
        p.record_invitation(invite(KEY, Some(&format!("r{n}")), 5));
    }
    assert_eq!(p.list.len(), 16);
    assert_eq!(p.list[0].id, "dars-0279be667ef9dcbb-r1");
}

#[test]
fn an_invitation_older_than_sixteen_others_does_not_stay() {
    let mut p = PendingInvitations { list: Vec::new() };
    for n in 0..16 {
        p.record_invitation(invite(KEY, Some(&format!("r{n}")), 100));
    }
    let evicted = p.record_invitation(invite(KEY, Some("old"), 1));
    assert_eq!(evicted, vec!["dars-0279be667ef9dcbb-old"]);
    assert_eq!(p.list.len(), 16);
}

#[test]
fn a_cancel_of_one_run_leaves_its_siblings() {
    let mut p = PendingInvitations { list: Vec::new() };
    p.record_invitation(invite(KEY, Some("a"), 1));
    p.record_invitation(invite(KEY, Some("b"), 2));
    p.record_invitation(invite(OTHER, Some("a"), 3));
    match p.drop_invitations_from(KEY, "a") {
        InvitationDelete::ByIds(dropped) => {
            assert_eq!(dropped, vec!["dars-0279be667ef9dcbb-a"]);
        }
        InvitationDelete::ByCoordinator(_) => panic!("the cancel named a run"),
    }
    assert_eq!(
        ids(&p),
        vec!["dars-0279be667ef9dcbb-b", "dars-03ffff667ef9dcbb-a"]
    );
}

#[test]
fn a_cancel_without_a_run_drops_all_of_the_coordinator() {
    let mut p = PendingInvitations { list: Vec::new() };
    p.record_invitation(invite(KEY, Some("a"), 1));
    p.record_invitation(invite(KEY, None, 2));
    p.record_invitation(invite(OTHER, None, 3));
    assert!(matches!(
        p.drop_invitations_from(KEY, ""),
        InvitationDelete::ByCoordinator(k) if k == KEY
    ));
    assert_eq!(ids(&p), vec!["dars-03ffff667ef9dcbb"]);
}

#[test]
fn an_empty_or_unreadable_payload_counts_as_nothing() {
    let payload = b"{}".to_vec();
    assert!(matches!(invitation_meta(&payload, Some(dars(None))), InvitationMeta::Dars(_)));
    assert!(matches!(invitation_meta(&payload, None), InvitationMeta::Nothing));
    assert!(matches!(invitation_meta(&vec![], Some(dars(None))), InvitationMeta::Nothing));
}
