//! What holds of the waiting invitations as a whole.

use vstd::prelude::*;

use crate::counting;
use crate::outside;
use crate::server::invitations;
use crate::server::invitations::{InvitationDelete, InvitationType, PendingInvitation};
use crate::server::peers;
use crate::server::peers::PublicKey;
use crate::text;

verus! {

/// No two invitations of the list have the same id.
pub open spec fn distinct_ids(list: Seq<PendingInvitation>) -> bool {
    forall|i: int, j: int| 0 <= i < j < list.len() ==> #[trigger] list[i].id@ != #[trigger] list[j].id@
}

/// How many invitations of the coordinator wait.
pub open spec fn backlog(list: Seq<PendingInvitation>, pubkey: Seq<char>) -> nat {
    list.filter(invitations::sent_by(pubkey)).len()
}

/// The list after `invitation` was recorded in it.
pub open spec fn recorded(
    list: Seq<PendingInvitation>,
    invitation: PendingInvitation,
) -> Seq<PendingInvitation> {
    invitations::recorded(list, invitation)
}

/// The list after the coordinator cancelled the run `instance`.
pub open spec fn dropped(
    list: Seq<PendingInvitation>,
    pubkey: Seq<char>,
    instance: Seq<char>,
) -> Seq<PendingInvitation> {
    invitations::dropped(list, pubkey, instance)
}

/// Among the positions below `n` that have the property, the one that came first.
proof fn lemma_oldest(list: Seq<PendingInvitation>, n: nat, p: spec_fn(int) -> bool) -> (m: int)
    requires
        counting::count_below(n, p) > 0,
    ensures
        0 <= m < n,
        p(m),
        forall|j: int|
            0 <= j < n && #[trigger] p(j) && j != m ==> invitations::is_newer(list, m, j),
    decreases n,
{
    let k = (n - 1) as nat;
    if counting::count_below(k, p) == 0 {
        assert forall|j: int| 0 <= j < k implies !#[trigger] p(j) by {
            counting::lemma_count_positive(k, p, j);
        }
        k as int
    } else {
        let m = lemma_oldest(list, k, p);
        if p(k as int) && invitations::is_newer(list, k as int, m) {
            k as int
        } else {
            m
        }
    }
}

/// Among the positions below `n` that have the property, the one that came last.
proof fn lemma_newest(list: Seq<PendingInvitation>, n: nat, p: spec_fn(int) -> bool) -> (m: int)
    requires
        counting::count_below(n, p) > 0,
    ensures
        0 <= m < n,
        p(m),
        forall|j: int|
            0 <= j < n && #[trigger] p(j) && j != m ==> invitations::is_newer(list, j, m),
    decreases n,
{
    let k = (n - 1) as nat;
    if counting::count_below(k, p) == 0 {
        assert forall|j: int| 0 <= j < k implies !#[trigger] p(j) by {
            counting::lemma_count_positive(k, p, j);
        }
        k as int
    } else {
        let m = lemma_newest(list, k, p);
        if p(k as int) && invitations::is_newer(list, m, k as int) {
            k as int
        } else {
            m
        }
    }
}

/// The ids of the overdue are the ids at the overdue positions.
proof fn lemma_overdue_ids(list: Seq<PendingInvitation>, pubkey: Seq<char>, n: nat, id: Seq<char>)
    requires
        n <= list.len(),
    ensures
        invitations::overdue_ids(list, pubkey, n).contains(id) <==> exists|i: int|
            0 <= i < n && #[trigger] invitations::is_overdue(list, pubkey, i) && list[i].id@ == id,
    decreases n,
{
    let ids = invitations::overdue_ids(list, pubkey, n);
    if n > 0 {
        let before = invitations::overdue_ids(list, pubkey, (n - 1) as nat);
        lemma_overdue_ids(list, pubkey, (n - 1) as nat, id);
        if invitations::is_overdue(list, pubkey, n - 1) {
            assert(ids == before.push(list[n - 1].id@));
            if before.contains(id) {
                let k = choose|k: int| 0 <= k < before.len() && before[k] == id;
                assert(ids[k] == id);
            }
            if list[n - 1].id@ == id {
                assert(ids[before.len() as int] == id);
            }
            if ids.contains(id) && list[n - 1].id@ != id {
                let k = choose|k: int| 0 <= k < ids.len() && ids[k] == id;
                assert(before[k] == id);
            }
        }
    }
}

/// The positions of the coordinator's invitations that are not overdue.
spec fn kept(list: Seq<PendingInvitation>, pubkey: Seq<char>) -> spec_fn(int) -> bool {
    |i: int| invitations::is_from(list, pubkey, i) && !invitations::is_overdue(list, pubkey, i)
}

/// The positions of the coordinator's invitations.
spec fn sent(list: Seq<PendingInvitation>, pubkey: Seq<char>) -> spec_fn(int) -> bool {
    |i: int| invitations::is_from(list, pubkey, i)
}

/// At most as many invitations as may wait are not overdue.
proof fn lemma_kept_at_most(list: Seq<PendingInvitation>, pubkey: Seq<char>)
    ensures
        counting::count_below(list.len(), kept(list, pubkey))
            <= invitations::MAX_PENDING_INVITES_PER_COORDINATOR,
{
    let n = list.len();
    let p = kept(list, pubkey);
    if counting::count_below(n, p) > 0 {
        let m = lemma_oldest(list, n, p);
        counting::lemma_count_at_most_one_more(
            n,
            p,
            |j: int| invitations::is_from(list, pubkey, j) && invitations::is_newer(list, m, j),
            m,
        );
    }
}

/// As many invitations as may wait are not overdue, or all of them.
proof fn lemma_kept_at_least(list: Seq<PendingInvitation>, pubkey: Seq<char>)
    ensures
        counting::count_below(list.len(), kept(list, pubkey))
            >= invitations::MAX_PENDING_INVITES_PER_COORDINATOR || counting::count_below(
            list.len(),
            kept(list, pubkey),
        ) == counting::count_below(list.len(), sent(list, pubkey)),
{
    let n = list.len();
    let overdue = |i: int| invitations::is_overdue(list, pubkey, i);
    if counting::count_below(n, overdue) > 0 {
        let m = lemma_newest(list, n, overdue);
        let newer = |j: int|
            invitations::is_from(list, pubkey, j) && invitations::is_newer(list, m, j);
        assert forall|j: int| 0 <= j < n && #[trigger] newer(j) implies kept(list, pubkey)(j) by {
            if invitations::is_overdue(list, pubkey, j) {
                assert(overdue(j));
            }
        }
        counting::lemma_count_monotone(n, newer, kept(list, pubkey));
    } else {
        assert forall|i: int| 0 <= i < n implies #[trigger] kept(list, pubkey)(i) == sent(
            list,
            pubkey,
        )(i) by {
            counting::lemma_count_positive(n, overdue, i);
        }
        counting::lemma_count_same(n, kept(list, pubkey), sent(list, pubkey));
    }
}

/// The backlog after the overdue are gone counts kept positions only.
proof fn lemma_backlog_of_bounded(list: Seq<PendingInvitation>, pubkey: Seq<char>)
    ensures
        backlog(invitations::bounded(list, pubkey), pubkey) <= counting::count_below(
            list.len(),
            kept(list, pubkey),
        ),
        distinct_ids(list) ==> backlog(invitations::bounded(list, pubkey), pubkey)
            == counting::count_below(list.len(), kept(list, pubkey)),
{
    let n = list.len();
    let ids = invitations::overdue_ids(list, pubkey, n);
    let stays = invitations::has_none_of(ids);
    let from = invitations::sent_by(pubkey);
    let both = |i: PendingInvitation| stays(i) && from(i);
    let at = |i: int| both(list[i]);
    counting::lemma_filter_filter(list, stays, from, both);
    counting::lemma_filter_count(list, both, at);
    assert forall|i: int| 0 <= i < n && #[trigger] at(i) implies kept(list, pubkey)(i) by {
        lemma_overdue_ids(list, pubkey, n, list[i].id@);
    }
    counting::lemma_count_monotone(n, at, kept(list, pubkey));
    if distinct_ids(list) {
        assert forall|i: int| 0 <= i < n && #[trigger] kept(list, pubkey)(i) implies at(i) by {
            lemma_overdue_ids(list, pubkey, n, list[i].id@);
        }
        counting::lemma_count_monotone(n, kept(list, pubkey), at);
    }
}

/// Filtering keeps ids distinct.
proof fn lemma_filter_distinct(
    list: Seq<PendingInvitation>,
    p: spec_fn(PendingInvitation) -> bool,
)
    requires
        distinct_ids(list),
    ensures
        distinct_ids(list.filter(p)),
    decreases list.len(),
{
    reveal(Seq::filter);
    if list.len() > 0 {
        let front = list.drop_last();
        assert(distinct_ids(front)) by {
            assert forall|i: int, j: int| 0 <= i < j < front.len() implies #[trigger] front[i].id@
                != #[trigger] front[j].id@ by {
                assert(list[i].id@ != list[j].id@);
            }
        }
        lemma_filter_distinct(front, p);
        if p(list.last()) {
            let filtered = list.filter(p);
            assert forall|i: int, j: int|
                0 <= i < j < filtered.len() implies #[trigger] filtered[i].id@
                != #[trigger] filtered[j].id@ by {
                if j == filtered.len() - 1 {
                    let k = counting::lemma_filter_position(front, p, i);
                    assert(list[k].id@ != list[list.len() - 1].id@);
                } else {
                    assert(front.filter(p)[i].id@ != front.filter(p)[j].id@);
                }
            }
        }
    }
}

/// Putting an invitation into a list of distinct ids leaves the ids distinct.
proof fn lemma_with_distinct(list: Seq<PendingInvitation>, invitation: PendingInvitation)
    requires
        distinct_ids(list),
    ensures
        distinct_ids(invitations::with_invitation(list, invitation)),
{
    let others = |i: PendingInvitation| i.id@ != invitation.id@;
    let with = invitations::with_invitation(list, invitation);
    lemma_filter_distinct(list, others);
    assert forall|i: int, j: int| 0 <= i < j < with.len() implies #[trigger] with[i].id@
        != #[trigger] with[j].id@ by {
        let k = counting::lemma_filter_position(list, others, i);
        if j < with.len() - 1 {
            assert(list.filter(others)[i].id@ != list.filter(others)[j].id@);
        }
    }
}

/// However many invitations a coordinator sends, at most sixteen of them wait
/// after each.
pub proof fn law_backlog_is_bounded(
    list: Seq<PendingInvitation>,
    invitation: PendingInvitation,
)
    ensures
        backlog(recorded(list, invitation), invitation.coordinator_pubkey@) <= 16,
{
    let with = invitations::with_invitation(list, invitation);
    lemma_kept_at_most(with, invitation.coordinator_pubkey@);
    lemma_backlog_of_bounded(with, invitation.coordinator_pubkey@);
}

/// No coordinator has more invitations waiting than it may.
pub open spec fn all_bounded(list: Seq<PendingInvitation>) -> bool {
    forall|pubkey: Seq<char>| #[trigger] backlog(list, pubkey) <= 16
}

/// A list has no fewer invitations of a coordinator than what is left of it.
proof fn lemma_filtered_backlog(
    list: Seq<PendingInvitation>,
    p: spec_fn(PendingInvitation) -> bool,
    pubkey: Seq<char>,
)
    ensures
        backlog(list.filter(p), pubkey) <= backlog(list, pubkey),
{
    let from = invitations::sent_by(pubkey);
    let both = |i: PendingInvitation| p(i) && from(i);
    let left = |i: int| both(list[i]);
    let all = |i: int| from(list[i]);
    counting::lemma_filter_filter(list, p, from, both);
    counting::lemma_filter_count(list, both, left);
    counting::lemma_filter_count(list, from, all);
    counting::lemma_count_monotone(list.len(), left, all);
}

/// Once no coordinator has more invitations waiting than it may, none ever has,
/// whatever is recorded and whatever is dropped.
pub proof fn law_every_backlog_stays_bounded(
    list: Seq<PendingInvitation>,
    invitation: PendingInvitation,
    pubkey: Seq<char>,
    instance: Seq<char>,
)
    requires
        all_bounded(list),
    ensures
        all_bounded(recorded(list, invitation)),
        all_bounded(dropped(list, pubkey, instance)),
{
    let sender = invitation.coordinator_pubkey@;
    let others = |i: PendingInvitation| i.id@ != invitation.id@;
    let with = invitations::with_invitation(list, invitation);
    let stays = invitations::has_none_of(invitations::overdue_ids(with, sender, with.len()));
    assert forall|key: Seq<char>| #[trigger]
        backlog(recorded(list, invitation), key)
            <= invitations::MAX_PENDING_INVITES_PER_COORDINATOR by {
        if key == sender {
            law_backlog_is_bounded(list, invitation);
        } else {
            lemma_filtered_backlog(with, stays, key);
            lemma_filtered_backlog(list, others, key);
            assert(backlog(with, key) == backlog(list.filter(others), key)) by {
                reveal(Seq::filter);
                assert(with.drop_last() =~= list.filter(others));
            }
            assert(backlog(list, key) <= invitations::MAX_PENDING_INVITES_PER_COORDINATOR);
        }
    }
    assert forall|key: Seq<char>| #[trigger]
        backlog(dropped(list, pubkey, instance), key)
            <= invitations::MAX_PENDING_INVITES_PER_COORDINATOR by {
        lemma_filtered_backlog(
            list,
            |i: PendingInvitation| !invitations::concerns(i, pubkey, instance),
            key,
        );
        assert(backlog(list, key) <= invitations::MAX_PENDING_INVITES_PER_COORDINATOR);
    }
}

/// No more invitations leave than the bound asks for: with distinct ids, the
/// coordinator keeps sixteen invitations or all that it has.
pub proof fn law_backlog_is_kept(list: Seq<PendingInvitation>, invitation: PendingInvitation)
    requires
        distinct_ids(list),
    ensures
        ({
            let pubkey = invitation.coordinator_pubkey@;
            let before = backlog(invitations::with_invitation(list, invitation), pubkey);
            backlog(recorded(list, invitation), pubkey) == if before <= 16 {
                before
            } else {
                16nat
            }
        }),
{
    let pubkey = invitation.coordinator_pubkey@;
    let with = invitations::with_invitation(list, invitation);
    let n = with.len();
    lemma_with_distinct(list, invitation);
    lemma_kept_at_most(with, pubkey);
    lemma_kept_at_least(with, pubkey);
    lemma_backlog_of_bounded(with, pubkey);
    let from = invitations::sent_by(pubkey);
    counting::lemma_filter_count(with, from, sent(with, pubkey));
    counting::lemma_count_monotone(n, kept(with, pubkey), sent(with, pubkey));
}

/// Those that leave came before every invitation of the coordinator that stays.
pub proof fn law_oldest_leave(
    list: Seq<PendingInvitation>,
    pubkey: Seq<char>,
    stays: int,
    leaves: int,
)
    requires
        0 <= stays < list.len(),
        0 <= leaves < list.len(),
        invitations::is_from(list, pubkey, stays),
        !invitations::is_overdue(list, pubkey, stays),
        invitations::is_overdue(list, pubkey, leaves),
    ensures
        list[leaves].coordinator_pubkey@ == pubkey,
        list[leaves].received_at <= list[stays].received_at,
        list[leaves].received_at == list[stays].received_at ==> leaves < stays,
{
    if !invitations::is_newer(list, leaves, stays) {
        counting::lemma_count_monotone(
            list.len(),
            |j: int| invitations::is_from(list, pubkey, j) && invitations::is_newer(list, leaves, j),
            |j: int| invitations::is_from(list, pubkey, j) && invitations::is_newer(list, stays, j),
        );
    }
}

/// Recording keeps the ids of the list distinct.
pub proof fn law_ids_stay_distinct(list: Seq<PendingInvitation>, invitation: PendingInvitation)
    requires
        distinct_ids(list),
    ensures
        distinct_ids(recorded(list, invitation)),
{
    let with = invitations::with_invitation(list, invitation);
    let pubkey = invitation.coordinator_pubkey@;
    lemma_with_distinct(list, invitation);
    lemma_filter_distinct(
        with,
        invitations::has_none_of(invitations::overdue_ids(with, pubkey, with.len())),
    );
}

/// An invitation that is not older than the coordinator's others is in the list
/// after it was recorded.
pub proof fn law_newest_is_recorded(list: Seq<PendingInvitation>, invitation: PendingInvitation)
    requires
        forall|i: int|
            0 <= i < list.len() && #[trigger] list[i].coordinator_pubkey@
                == invitation.coordinator_pubkey@ ==> list[i].received_at <= invitation.received_at,
    ensures
        recorded(list, invitation).contains(invitation),
{
    let others = |i: PendingInvitation| i.id@ != invitation.id@;
    let with = invitations::with_invitation(list, invitation);
    let pubkey = invitation.coordinator_pubkey@;
    let ids = invitations::overdue_ids(with, pubkey, with.len());
    let last = with.len() - 1;
    let newer = |j: int|
        invitations::is_from(with, pubkey, j) && invitations::is_newer(with, last, j);
    assert forall|j: int| 0 <= j < with.len() implies !#[trigger] newer(j) by {
        if j < last {
            let k = counting::lemma_filter_position(list, others, j);
            assert(list[k].coordinator_pubkey@ == with[j].coordinator_pubkey@);
        }
    }
    counting::lemma_none_counted(with.len(), newer);
    lemma_overdue_ids(with, pubkey, with.len(), invitation.id@);
    assert forall|i: int|
        0 <= i < with.len() && #[trigger] invitations::is_overdue(with, pubkey, i) implies with[i].id@
        != invitation.id@ by {
        if i < last {
            let k = counting::lemma_filter_position(list, others, i);
        }
    }
    let stays = invitations::has_none_of(ids);
    assert(with[last] == invitation);
    counting::lemma_filter_contains(with, stays, invitation);
}

/// A second invitation with the same id takes the place of the first: after
/// it, no other invitation has that id.
pub proof fn law_same_run_is_replaced(
    list: Seq<PendingInvitation>,
    invitation: PendingInvitation,
    k: int,
)
    requires
        0 <= k < recorded(list, invitation).len(),
        recorded(list, invitation)[k].id@ == invitation.id@,
    ensures
        recorded(list, invitation)[k] == invitation,
{
    let others = |i: PendingInvitation| i.id@ != invitation.id@;
    let with = invitations::with_invitation(list, invitation);
    let ids = invitations::overdue_ids(with, invitation.coordinator_pubkey@, with.len());
    let i = counting::lemma_filter_position(with, invitations::has_none_of(ids), k);
    if i < with.len() - 1 {
        let j = counting::lemma_filter_position(list, others, i);
    }
}

/// What one coordinator sends leaves the invitations of the others alone, where
/// no other coordinator's invitation has the new one's id.
pub proof fn law_other_coordinators_are_untouched(
    list: Seq<PendingInvitation>,
    invitation: PendingInvitation,
)
    requires
        distinct_ids(list),
        forall|i: int|
            0 <= i < list.len() && #[trigger] list[i].id@ == invitation.id@
                ==> list[i].coordinator_pubkey@ == invitation.coordinator_pubkey@,
    ensures
        recorded(list, invitation).filter(
            invitations::not_sent_by(invitation.coordinator_pubkey@),
        ) == list.filter(invitations::not_sent_by(invitation.coordinator_pubkey@)),
{
    let pubkey = invitation.coordinator_pubkey@;
    let foreign = invitations::not_sent_by(pubkey);
    let others = |i: PendingInvitation| i.id@ != invitation.id@;
    let with = invitations::with_invitation(list, invitation);
    let ids = invitations::overdue_ids(with, pubkey, with.len());
    let stays = invitations::has_none_of(ids);
    lemma_with_distinct(list, invitation);
    assert forall|i: int| 0 <= i < with.len() implies foreign(#[trigger] with[i]) == (stays(
        with[i],
    ) && foreign(with[i])) by {
        lemma_overdue_ids(with, pubkey, with.len(), with[i].id@);
    }
    counting::lemma_filter_filter(with, stays, foreign, foreign);
    assert(with.filter(foreign) == list.filter(others).filter(foreign)) by {
        reveal(Seq::filter);
        assert(with.drop_last() =~= list.filter(others));
    }
    assert forall|i: int| 0 <= i < list.len() implies foreign(#[trigger] list[i]) == (others(
        list[i],
    ) && foreign(list[i])) by {
        assert(list[i].id@ == list[i].id@);
    }
    counting::lemma_filter_filter(list, others, foreign, foreign);
}

/// A cancelled run leaves no invitation behind, and cancelling it again changes
/// nothing.
pub proof fn law_drop_is_complete(
    list: Seq<PendingInvitation>,
    pubkey: Seq<char>,
    instance: Seq<char>,
)
    ensures
        forall|i: int|
            0 <= i < dropped(list, pubkey, instance).len() ==> !invitations::concerns(
                #[trigger] dropped(list, pubkey, instance)[i],
                pubkey,
                instance,
            ),
        dropped(dropped(list, pubkey, instance), pubkey, instance) == dropped(
            list,
            pubkey,
            instance,
        ),
{
    let stays = |i: PendingInvitation| !invitations::concerns(i, pubkey, instance);
    let after = list.filter(stays);
    assert forall|i: int| 0 <= i < after.len() implies stays(#[trigger] after[i]) by {
        let k = counting::lemma_filter_position(list, stays, i);
    }
    counting::lemma_filter_filter(list, stays, stays, stays);
}

/// Cancelling one run of a coordinator leaves in place the invitations to its
/// other runs, and those of other coordinators.
pub proof fn law_sibling_runs_survive(
    list: Seq<PendingInvitation>,
    pubkey: Seq<char>,
    instance: Seq<char>,
    sibling: PendingInvitation,
)
    requires
        instance.len() > 0,
        list.contains(sibling),
        sibling.coordinator_pubkey@ != pubkey || text::text_of(sibling.workflow_instance)
            != Some(instance),
    ensures
        dropped(list, pubkey, instance).contains(sibling),
{
    counting::lemma_filter_contains(
        list,
        |i: PendingInvitation| !invitations::concerns(i, pubkey, instance),
        sibling,
    );
}

/// A cancel without a run drops every invitation of the coordinator.
pub proof fn law_unscoped_drop_leaves_nothing(list: Seq<PendingInvitation>, pubkey: Seq<char>)
    ensures
        backlog(dropped(list, pubkey, Seq::empty()), pubkey) == 0,
{
    let after = dropped(list, pubkey, Seq::empty());
    let from = invitations::sent_by(pubkey);
    law_drop_is_complete(list, pubkey, Seq::empty());
    let at = |i: int| from(after[i]);
    counting::lemma_filter_count(after, from, at);
    counting::lemma_none_counted(after.len(), at);
}

/// A proper part of the positions is fewer positions.
proof fn lemma_count_strict(n: nat, p: spec_fn(int) -> bool, q: spec_fn(int) -> bool, i: int)
    requires
        forall|j: int| 0 <= j < n && #[trigger] p(j) ==> q(j),
        0 <= i < n,
        q(i),
        !p(i),
    ensures
        counting::count_below(n, p) < counting::count_below(n, q),
    decreases n,
{
    let k = (n - 1) as nat;
    if i < k {
        lemma_count_strict(k, p, q, i);
    } else {
        counting::lemma_count_monotone(k, p, q);
    }
}

/// Recording lets nothing in but the new invitation.
pub proof fn law_nothing_else_appears(
    list: Seq<PendingInvitation>,
    invitation: PendingInvitation,
    x: PendingInvitation,
)
    requires
        recorded(list, invitation).contains(x),
        x != invitation,
    ensures
        list.contains(x),
        x.id@ != invitation.id@,
{
    let others = |i: PendingInvitation| i.id@ != invitation.id@;
    let with = invitations::with_invitation(list, invitation);
    let ids = invitations::overdue_ids(with, invitation.coordinator_pubkey@, with.len());
    counting::lemma_filter_contains(with, invitations::has_none_of(ids), x);
    let k = choose|k: int| 0 <= k < with.len() && with[k] == x;
    assert(list.filter(others)[k] == x);
    assert(list.filter(others).contains(x));
    counting::lemma_filter_contains(list, others, x);
}

/// Recording lets nothing go but what has the new invitation's id, unless its
/// coordinator has more than sixteen invitations waiting with it.
pub proof fn law_nothing_else_leaves(
    list: Seq<PendingInvitation>,
    invitation: PendingInvitation,
    x: PendingInvitation,
)
    requires
        list.contains(x),
        x.id@ != invitation.id@,
        backlog(
            list.filter(|i: PendingInvitation| i.id@ != invitation.id@).push(invitation),
            invitation.coordinator_pubkey@,
        ) <= 16,
    ensures
        recorded(list, invitation).contains(x),
{
    let others = |i: PendingInvitation| i.id@ != invitation.id@;
    let with = invitations::with_invitation(list, invitation);
    let pubkey = invitation.coordinator_pubkey@;
    let n = with.len();
    let ids = invitations::overdue_ids(with, pubkey, n);
    counting::lemma_filter_contains(list, others, x);
    let k = choose|k: int| 0 <= k < list.filter(others).len() && list.filter(others)[k] == x;
    assert(with[k] == x);
    assert(with =~= list.filter(others).push(invitation));
    counting::lemma_filter_count(with, invitations::sent_by(pubkey), sent(with, pubkey));
    lemma_overdue_ids(with, pubkey, n, x.id@);
    assert forall|i: int| 0 <= i < n implies !#[trigger] invitations::is_overdue(
        with,
        pubkey,
        i,
    ) by {
        if invitations::is_from(with, pubkey, i) {
            lemma_count_strict(
                n,
                |j: int| invitations::is_from(with, pubkey, j) && invitations::is_newer(with, i, j),
                sent(with, pubkey),
                i,
            );
        }
    }
    counting::lemma_filter_contains(with, invitations::has_none_of(ids), x);
}

/// With distinct ids, what the store is told to delete is what left for being too
/// many: it has an id that was there with the new invitation and is not after.
pub proof fn law_the_store_deletes_what_left(
    list: Seq<PendingInvitation>,
    invitation: PendingInvitation,
    i: int,
)
    requires
        distinct_ids(list),
        0 <= i < list.filter(|i: PendingInvitation| i.id@ != invitation.id@).push(invitation).len(),
    ensures
        ({
            let with = list.filter(|i: PendingInvitation| i.id@ != invitation.id@).push(invitation);
            invitations::crowded_out(list, invitation).contains(with[i].id@) <==> !recorded(list, invitation).contains(with[i])
        }),
{
    let others = |i: PendingInvitation| i.id@ != invitation.id@;
    let with = invitations::with_invitation(list, invitation);
    assert(with =~= list.filter(others).push(invitation));
    let ids = invitations::overdue_ids(with, invitation.coordinator_pubkey@, with.len());
    counting::lemma_filter_contains(with, invitations::has_none_of(ids), with[i]);
    assert(with.contains(with[i]));
}

/// What is left keeps its order, whatever is recorded: of two invitations that
/// stay, the one that stood first stands first.
pub proof fn law_order_is_kept(
    list: Seq<PendingInvitation>,
    p: spec_fn(PendingInvitation) -> bool,
    a: int,
    b: int,
) -> (at: (int, int))
    requires
        0 <= a < b < list.len(),
        p(list[a]),
        p(list[b]),
    ensures
        0 <= at.0 < at.1 < list.filter(p).len(),
        list.filter(p)[at.0] == list[a],
        list.filter(p)[at.1] == list[b],
    decreases list.len(),
{
    reveal(Seq::filter);
    let front = list.drop_last();
    if b < front.len() {
        law_order_is_kept(front, p, a, b)
    } else {
        let k = counting::lemma_filtered_position(front, p, a);
        (k, list.filter(p).len() - 1)
    }
}

/// A cancel takes away exactly the invitations that hold the coordinator's key and
/// the run that it names; one that names no run takes all that hold the key.
pub proof fn law_what_a_cancel_takes(
    list: Seq<PendingInvitation>,
    pubkey: Seq<char>,
    instance: Seq<char>,
    x: PendingInvitation,
)
    ensures
        dropped(list, pubkey, instance).contains(x) <==> list.contains(x) && (
        x.coordinator_pubkey@ != pubkey || instance.len() > 0 && !(
        x.workflow_instance matches Some(run) && run@ == instance)),
        invitations::concerns(x, pubkey, instance) <==> x.coordinator_pubkey@ == pubkey && (
        instance.len() > 0 ==> (x.workflow_instance matches Some(run) && run@ == instance)),
{
    counting::lemma_filter_contains(
        list,
        |i: PendingInvitation| !invitations::concerns(i, pubkey, instance),
        x,
    );
}

/// What is recorded and then cancelled by its coordinator is gone.
pub proof fn law_a_recorded_run_can_be_cancelled(
    list: Seq<PendingInvitation>,
    invitation: PendingInvitation,
    run: String,
)
    requires
        invitation.workflow_instance == Some(run),
    ensures
        !dropped(
            recorded(list, invitation),
            invitation.coordinator_pubkey@,
            run@,
        ).contains(invitation),
{
    law_what_a_cancel_takes(
        recorded(list, invitation),
        invitation.coordinator_pubkey@,
        run@,
        invitation,
    );
}

/// Coordinators whose keys differ in their first sixteen characters have different
/// ids for their invitations of one kind and run.
pub proof fn law_ids_tell_coordinators_apart(
    kind: InvitationType,
    first: PublicKey,
    second: PublicKey,
    instance: Option<Seq<char>>,
)
    requires
        invitations::invitation_id(kind, outside::hex_text(first.bytes@), instance)
            == invitations::invitation_id(kind, outside::hex_text(second.bytes@), instance),
    ensures
        outside::hex_text(first.bytes@).take(16) == outside::hex_text(second.bytes@).take(16),
{
    peers::law_sender_keys_can_be_shortened(first);
    peers::law_sender_keys_can_be_shortened(second);
    let a = invitations::invitation_id(kind, outside::hex_text(first.bytes@), instance);
    let b = invitations::invitation_id(kind, outside::hex_text(second.bytes@), instance);
    let front = text::lowered(kind.name()) + "-"@;
    let n = front.len() as int;
    assert(a.subrange(n, n + 16) =~= outside::hex_text(first.bytes@).take(16));
    assert(b.subrange(n, n + 16) =~= outside::hex_text(second.bytes@).take(16));
}

/// Of one coordinator's invitations, those of different kinds or different runs
/// have different ids, and one that names no run has the id of none that does.
pub proof fn law_ids_tell_runs_apart(
    first: InvitationType,
    second: InvitationType,
    pubkey: Seq<char>,
    first_instance: Option<Seq<char>>,
    second_instance: Option<Seq<char>>,
)
    requires
        invitations::invitation_id(first, pubkey, first_instance) == invitations::invitation_id(
            second,
            pubkey,
            second_instance,
        ),
    ensures
        first == second,
        first_instance == second_instance,
{
    reveal_strlit("Onboarding");
    reveal_strlit("Kick");
    reveal_strlit("Contracts");
    reveal_strlit("Dars");
    reveal_strlit("AddParty");
    reveal_strlit("ChangeThreshold");
    reveal_strlit("-");
    let a = invitations::invitation_id(first, pubkey, first_instance);
    let b = invitations::invitation_id(second, pubkey, second_instance);
    assert(a[0] == text::lowered(first.name())[0]);
    assert(b[0] == text::lowered(second.name())[0]);
    assert(a[1] == text::lowered(first.name())[1]);
    assert(b[1] == text::lowered(second.name())[1]);
    assert(first == second);
    let base = text::lowered(first.name()) + "-"@ + invitations::short_key(pubkey);
    match (first_instance, second_instance) {
        (Some(i), Some(j)) => {
            assert(a.skip(base.len() as int + 1) =~= i);
            assert(b.skip(base.len() as int + 1) =~= j);
        },
        (Some(i), None) => {
            assert(a.len() > b.len());
        },
        (None, Some(j)) => {
            assert(b.len() > a.len());
        },
        (None, None) => {},
    }
}

/// What the store deletes on a cancel is what left the list: all of the
/// coordinator's where no run is named, else the ids of the invitations that hold
/// the coordinator's key and the named run, in their order.
pub proof fn law_the_store_forgets_what_was_cancelled(
    list: Seq<PendingInvitation>,
    pubkey: Seq<char>,
    instance: Seq<char>,
    delete: InvitationDelete,
    i: int,
)
    requires
        invitations::deletes(list, pubkey, instance, delete),
        0 <= i < list.len(),
    ensures
        delete is ByCoordinator <==> instance.len() == 0,
        delete matches InvitationDelete::ByCoordinator(key) ==> key@ == pubkey,
        delete matches InvitationDelete::ByIds(ids) ==> (list[i].coordinator_pubkey@ == pubkey && (
        list[i].workflow_instance matches Some(run) && run@ == instance) ==> exists|k: int|
            0 <= k < ids@.len() && #[trigger] ids@[k]@ == list[i].id@),
        delete matches InvitationDelete::ByIds(ids) ==> forall|k: int|
            0 <= k < ids@.len() ==> exists|j: int|
                0 <= j < list.len() && (#[trigger] list[j]).id@ == (#[trigger] ids@[k])@
                    && list[j].coordinator_pubkey@ == pubkey && (
                list[j].workflow_instance matches Some(run) && run@ == instance),
{
    let goes = |i: PendingInvitation| invitations::concerns(i, pubkey, instance);
    let id_of = |i: PendingInvitation| i.id@;
    if let InvitationDelete::ByIds(ids) = delete {
        let gone = list.filter(goes);
        assert(text::texts(ids@) == gone.map_values(id_of));
        if list[i].coordinator_pubkey@ == pubkey && (list[i].workflow_instance matches Some(run)
            && run@ == instance) {
            let k = counting::lemma_filtered_position(list, goes, i);
            assert(text::texts(ids@)[k] == gone.map_values(id_of)[k]);
            assert(ids@[k]@ == list[i].id@);
        }
        assert forall|k: int| 0 <= k < ids@.len() implies exists|j: int|
            0 <= j < list.len() && (#[trigger] list[j]).id@ == (#[trigger] ids@[k])@
                && list[j].coordinator_pubkey@ == pubkey && (
            list[j].workflow_instance matches Some(run) && run@ == instance) by {
            assert(text::texts(ids@).len() == gone.len());
            assert(text::texts(ids@)[k] == gone.map_values(id_of)[k]);
            let j = counting::lemma_filter_position(list, goes, k);
            assert(list[j].id@ == ids@[k]@);
        }
    }
}

} // verus!
