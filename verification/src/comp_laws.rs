//! Properties of the competition state machine that span several operations.
use vstd::prelude::*;

use crate::comp_model::{
    able, add_vote, collect, set_fines, finish_action, lemma_merge_titles, lemma_seek, next_action, seek,
    state_wf, titles_distinct, StateModel,
};
use crate::errors::CompError;
use crate::proto::{Verification, VoteMessageModel};

verus! {

/// A vote that is recorded is one that `able` would have allowed.
pub proof fn law_recorded_vote_was_able(
    s: StateModel,
    author: i32,
    vote_author: i32,
    message_id: i32,
    vote: VoteMessageModel,
)
    requires
        add_vote(s, author, vote_author, message_id, vote) is Ok,
    ensures
        able(s, author, vote.queue_id, vote.action_id) is Ok,
{
}

/// A judge votes once per action: after a recorded vote of `author` (as its
/// own author), every further vote of `author` in that queue is refused as
/// blocked.
pub proof fn law_one_vote_per_judge(
    s: StateModel,
    author: i32,
    message_id: i32,
    vote: VoteMessageModel,
    message_id2: i32,
    vote2: VoteMessageModel,
    vote_author2: i32,
)
    requires
        add_vote(s, author, author, message_id, vote) is Ok,
        vote2.queue_id == vote.queue_id,
    ensures
        ({
            let s2 = add_vote(s, author, author, message_id, vote).unwrap();
            &&& add_vote(s2, author, vote_author2, message_id2, vote2) is Err
            &&& able(s2, author, vote2.queue_id, vote2.action_id) == Err::<(), CompError>(
                CompError::VoteRejected,
            )
        }),
{
    let s2 = add_vote(s, author, author, message_id, vote).unwrap();
    let q = vote.queue_id as int;
    assert(s2.queues[q].voted_users.last() == author);
    assert(s2.queues[q].voted_users.contains(author));
}

/// Once the voting on an action is closed, the queue takes no votes until the
/// next action starts.
pub proof fn law_closed_queue_takes_no_votes(
    s: StateModel,
    q: i32,
    verdict: Verification,
    author: i32,
    vote_author: i32,
    message_id: i32,
    vote: VoteMessageModel,
)
    requires
        finish_action(s, q, verdict).1 is Ok,
        vote.queue_id == q,
    ensures
        add_vote(finish_action(s, q, verdict).0, author, vote_author, message_id, vote) is Err,
        able(finish_action(s, q, verdict).0, author, q, vote.action_id) is Err,
{
}

/// A blocked action is judged again: after an action starts and its voting
/// is closed with `Block`, moving to the next action starts the same team
/// again.
pub proof fn law_blocked_action_is_judged_again(s: StateModel, q: i32)
    requires
        state_wf(s),
        next_action(s, q).1 is Ok,
    ensures
        ({
            let s1 = next_action(s, q).0;
            let s2 = finish_action(s1, q, Verification::Block).0;
            &&& finish_action(s1, q, Verification::Block).1 is Ok
            &&& s2.declaration == s1.declaration
            &&& next_action(s2, q).1 is Ok
            &&& next_action(s2, q).0.queues[q as int].active_action
                == s1.queues[q as int].active_action
            &&& next_action(s2, q).0.queues[q as int].team == s1.queues[q as int].team
        }),
{
    let qi = q as int;
    let dq = s.declaration.queues[qi];
    lemma_seek(dq.nomination_list, s.declaration.ready_queues[qi]);
    let s1 = next_action(s, q).0;
    let s2 = finish_action(s1, q, Verification::Block).0;
    let noms = s1.declaration.queues[qi].nomination_list;
    assert(noms.len() > 0);
    assert(noms[0].inner_queue.len() > 0);
    let redq1 = s1.declaration.ready_queues[qi];
    assert(redq1.last().0 == noms[0].title);
    assert(seek(noms, redq1) == (noms, redq1));
    let s3 = next_action(s2, q).0;
    assert(s3.declaration.queues[qi].nomination_list == noms);
}

/// Results are given only when no queue judges an action; each queue's
/// results hold every nomination title once.
pub proof fn law_collected_titles_distinct(s: StateModel)
    ensures
        collect(s) is Ok <==> !crate::comp_model::any_in_progress(s),
        collect(s) matches Ok(qs) ==> forall|q: int|
            0 <= q < qs.len() ==> titles_distinct(#[trigger] qs[q]),
{
    if collect(s) is Ok {
        let qs = collect(s).unwrap();
        assert forall|q: int| 0 <= q < qs.len() implies titles_distinct(#[trigger] qs[q]) by {
            lemma_merge_titles(s.declaration.ready_queues[q]);
        }
    }
}

/// Fines are taken exactly when queue `q` exists and judges action `action`
/// at the moment; then that queue's fines become `fines`, and nothing else of
/// the state changes.
pub proof fn law_fines_are_recorded(s: StateModel, q: i32, action: i32, fines: Seq<i32>)
    ensures
        set_fines(s, q, action, fines) is Ok <==> (0 <= q < s.queues.len() && s.queues[q as int].in_progress
            && s.queues[q as int].active_action == action),
        set_fines(s, q, action, fines) matches Ok(ns) ==> {
            &&& ns.declaration == s.declaration
            &&& ns.queues.len() == s.queues.len()
            &&& ns.queues[q as int].fines == fines
            &&& ns.queues[q as int].mark_groups == s.queues[q as int].mark_groups
            &&& ns.queues[q as int].active_action == s.queues[q as int].active_action
            &&& ns.queues[q as int].in_progress == s.queues[q as int].in_progress
            &&& ns.queues[q as int].voted_users == s.queues[q as int].voted_users
            &&& ns.queues[q as int].team == s.queues[q as int].team
            &&& forall|k: int| 0 <= k < s.queues.len() && k != q ==> #[trigger] ns.queues[k] == s.queues[k]
        },
{
}

/// An approved vote that is recorded lands in a free slot of its queue under
/// the message id, vote and author given, and its author counts as having
/// voted.
pub proof fn law_recorded_vote_keeps_its_message_id(
    s: StateModel,
    author: i32,
    vote_author: i32,
    message_id: i32,
    vote: VoteMessageModel,
)
    ensures
        add_vote(s, author, vote_author, message_id, vote) matches Ok(ns) ==> {
            &&& 0 <= vote.queue_id < ns.queues.len()
            &&& exists|g: int, k: int|
                0 <= g < ns.queues[vote.queue_id as int].mark_groups.len()
                && 0 <= k < ns.queues[vote.queue_id as int].mark_groups[g].len()
                && #[trigger] ns.queues[vote.queue_id as int].mark_groups[g][k] == Some((message_id, vote, vote_author))
                && s.queues[vote.queue_id as int].mark_groups[g][k] is None
            &&& ns.queues[vote.queue_id as int].voted_users.contains(vote_author)
        },
{
    if let Ok(ns) = add_vote(s, author, vote_author, message_id, vote) {
        let g = crate::scheme::group_id(vote.mark_type).unwrap() as int;
        let q = vote.queue_id as int;
        let slots = s.queues[q].mark_groups[g];
        crate::comp_model::lemma_first_free_is_free(slots);
        let k = crate::comp_model::first_free(slots).unwrap();
        assert(ns.queues[q].mark_groups[g][k] == Some((message_id, vote, vote_author)));
        let vu = ns.queues[q].voted_users;
        assert(vu[vu.len() - 1] == vote_author);
    }
}

} // verus!
