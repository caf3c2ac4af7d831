//! What the competition screens pick out of the event queue and of a user's
//! roles.
use vstd::prelude::*;

use crate::proto::{EqHistoryMessage, EqHistoryModel, MessageModel, Message, Role};
use crate::scheme::role_weight;

verus! {

/// Whether message `m` sets or clears the action that queue `q` judges.
pub open spec fn updates_queue(m: EqHistoryModel, q: i32) -> bool {
    match m.message {
        Some(em) => match em.message {
            Some(MessageModel::SetActiveAction(s)) => s.qid == q,
            Some(MessageModel::ClearQueueAction(id)) => id.id == q,
            _ => false,
        },
        None => false,
    }
}

/// Whether message `m` is a vote sent by user `uid`.
pub open spec fn vote_by(m: EqHistoryModel, uid: i32) -> bool {
    match m.message {
        Some(em) => match em.message {
            Some(MessageModel::VoteMessage(_)) => em.author.unwrap().uid == uid,
            _ => false,
        },
        None => false,
    }
}

/// Every vote in `msgs` names its author.
pub open spec fn votes_signed(msgs: Seq<EqHistoryModel>) -> bool {
    forall|i: int|
        0 <= i < msgs.len() ==> ((#[trigger] msgs[i]).message matches Some(em) && em.message matches Some(
            MessageModel::VoteMessage(_),
        ) ==> em.author is Some)
}

fn updates_queue_exec(m: &EqHistoryMessage, q: i32) -> (r: bool)
    ensures
        r == updates_queue(m.deep_view(), q),
{
    match &m.message {
        Some(em) => match &em.message {
            Some(Message::SetActiveAction(s)) => s.qid == q,
            Some(Message::ClearQueueAction(id)) => id.id == q,
            _ => false,
        },
        None => false,
    }
}

/// Where the latest message that sets or clears the action of queue `q`
/// stands in `msgs`, if there is one.
pub fn last_queue_action(msgs: &Vec<EqHistoryMessage>, q: i32) -> (r: Option<usize>)
    ensures
        match r {
            Some(i) => i < msgs@.len() && updates_queue(msgs.deep_view()[i as int], q) && forall|j: int|
                i < j < msgs@.len() ==> !updates_queue(#[trigger] msgs.deep_view()[j], q),
            None => forall|j: int| 0 <= j < msgs@.len() ==> !updates_queue(#[trigger] msgs.deep_view()[j], q),
        },
{
    let ghost mv = msgs.deep_view();
    let mut k: usize = msgs.len();
    while k > 0
        invariant
            k <= msgs@.len(),
            mv == msgs.deep_view(),
            forall|j: int| k <= j < msgs@.len() ==> !updates_queue(#[trigger] mv[j], q),
        decreases k,
    {
        assert(mv[k - 1] == msgs@[k - 1].deep_view());
        if updates_queue_exec(&msgs[k - 1], q) {
            return Some(k - 1);
        }
        k = k - 1;
    }
    None
}

/// Where the latest vote of user `uid` stands in `msgs`, if there is one.
pub fn last_vote_of(msgs: &Vec<EqHistoryMessage>, uid: i32) -> (r: Option<usize>)
    requires
        votes_signed(msgs.deep_view()),
    ensures
        match r {
            Some(i) => i < msgs@.len() && vote_by(msgs.deep_view()[i as int], uid) && forall|j: int|
                i < j < msgs@.len() ==> !vote_by(#[trigger] msgs.deep_view()[j], uid),
            None => forall|j: int| 0 <= j < msgs@.len() ==> !vote_by(#[trigger] msgs.deep_view()[j], uid),
        },
{
    let ghost mv = msgs.deep_view();
    let mut k: usize = msgs.len();
    while k > 0
        invariant
            k <= msgs@.len(),
            mv == msgs.deep_view(),
            votes_signed(mv),
            forall|j: int| k <= j < msgs@.len() ==> !vote_by(#[trigger] mv[j], uid),
        decreases k,
    {
        assert(mv[k - 1] == msgs@[k - 1].deep_view());
        let hit = match &msgs[k - 1].message {
            Some(em) => match &em.message {
                Some(Message::VoteMessage(_)) => match &em.author {
                    Some(a) => a.uid == uid,
                    None => false,
                },
                _ => false,
            },
            None => false,
        };
        if hit {
            return Some(k - 1);
        }
        k = k - 1;
    }
    None
}

/// The role a screen is shown for: among the roles of highest weight, the
/// last one.
pub open spec fn is_main_role(roles: Seq<Role>, i: int) -> bool {
    &&& 0 <= i < roles.len()
    &&& forall|j: int| 0 <= j < roles.len() ==> role_weight(#[trigger] roles[j]) <= role_weight(roles[i])
    &&& forall|j: int| i < j < roles.len() ==> role_weight(#[trigger] roles[j]) < role_weight(roles[i])
}

/// The role that decides what the competition screen shows, as sorting the
/// roles by weight and taking the last picks it.
pub fn main_role(roles: &Vec<Role>) -> (r: Option<Role>)
    ensures
        roles@.len() == 0 <==> r is None,
        r matches Some(x) ==> exists|i: int| is_main_role(roles@, i) && roles@[i] == x,
{
    if roles.len() == 0 {
        return None;
    }
    let mut best: usize = 0;
    let mut i: usize = 1;
    while i < roles.len()
        invariant
            1 <= i <= roles@.len(),
            best < i,
            forall|j: int| 0 <= j < i ==> role_weight(#[trigger] roles@[j]) <= role_weight(roles@[best as int]),
            forall|j: int| best < j < i ==> role_weight(#[trigger] roles@[j]) < role_weight(roles@[best as int]),
        decreases roles@.len() - i,
    {
        if roles[i].weight() >= roles[best].weight() {
            best = i;
        }
        i = i + 1;
    }
    assert(is_main_role(roles@, best as int));
    Some(roles[best])
}

} // verus!
