//! Properties of the event queue that span several operations.
use vstd::prelude::*;

use crate::message_pool::{increasing_below, without_positions};

use crate::message_pool::{
    is_vote, lemma_position_of_found, pool_wf, remove_model, send_model, PoolModel,
};
use crate::proto::{EqHistoryModel, EqMessageModel, MessageModel};

verus! {

/// A sent message is stored under the next id, and reading that id gives it
/// back.
pub proof fn law_sent_message_is_stored(m: PoolModel, value: EqMessageModel)
    requires
        value.message is Some,
    ensures
        send_model(m, value).1 == Ok::<int, crate::errors::CompError>(m.history.len() as int),
        send_model(m, value).0.history[m.history.len() as int] == (EqHistoryModel {
            message_id: m.history.len() as i32,
            message: Some(value),
        }),
        send_model(m, value).0.history.subrange(0, m.history.len() as int) == m.history,
{
    assert(send_model(m, value).0.history.subrange(0, m.history.len() as int) =~= m.history);
}

/// Sending keeps the pool well formed.
pub proof fn law_send_keeps_wf(m: PoolModel, value: EqMessageModel)
    requires
        pool_wf(m),
        m.history.len() < i32::MAX,
    ensures
        pool_wf(send_model(m, value).0),
{
    let n = send_model(m, value).0;
    if value.message is Some {
        assert forall|k: int, l: int|
            0 <= k < n.not_verified.len() && 0 <= l < n.not_verified.len() && k != l
                implies #[trigger] n.not_verified[k] != #[trigger] n.not_verified[l] by {
            if k < m.not_verified.len() && l < m.not_verified.len() {
            } else if k < m.not_verified.len() {
                assert(m.not_verified[k] < m.history.len());
            } else {
                assert(m.not_verified[l] < m.history.len());
            }
        }
    }
}

/// A vote waits for a verdict from the moment it is sent until it is taken
/// off the list; a message of any other kind never waits.
pub proof fn law_vote_waits_until_verified(m: PoolModel, value: EqMessageModel)
    requires
        pool_wf(m),
        m.history.len() < i32::MAX,
        value.message is Some,
    ensures
        ({
            let sent = send_model(m, value).0;
            let id = m.history.len() as i32;
            &&& is_vote(value) ==> sent.not_verified.contains(id)
            &&& !is_vote(value) ==> sent.not_verified == m.not_verified
            &&& is_vote(value) ==> remove_model(sent, id).1 == Ok::<i32, crate::errors::CompError>(id)
            &&& is_vote(value) ==> !remove_model(sent, id).0.not_verified.contains(id)
            &&& remove_model(sent, id).0.history == sent.history
        }),
{
    let sent = send_model(m, value).0;
    let id = m.history.len() as i32;
    law_send_keeps_wf(m, value);
    if is_vote(value) {
        assert(sent.not_verified[sent.not_verified.len() - 1] == id);
        lemma_position_of_found(sent.not_verified, id);
        let k = crate::message_pool::position_of(sent.not_verified, id).unwrap();
        let after = sent.not_verified.remove(k);
        if after.contains(id) {
            let j = choose|j: int| 0 <= j < after.len() && after[j] == id;
            let j0 = if j < k { j } else { j + 1 };
            assert(sent.not_verified[j0] == id);
            assert(j0 != k);
        }
    }
}


/// Position `i` is one of `failed`.
pub open spec fn listed(failed: Seq<usize>, i: int) -> bool {
    exists|k: int| 0 <= k < failed.len() && failed[k] as int == i
}

/// The members of `s` at the positions that `failed` does not list, in
/// order.
pub open spec fn kept<S>(s: Seq<S>, failed: Seq<usize>) -> Seq<S>
    decreases s.len(),
{
    if s.len() == 0 {
        Seq::empty()
    } else {
        let before = kept(s.drop_last(), failed);
        if listed(failed, s.len() - 1) {
            before
        } else {
            before.push(s.last())
        }
    }
}

pub proof fn lemma_listed_push(f: Seq<usize>, p: usize, i: int)
    ensures
        listed(f.push(p), i) <==> (listed(f, i) || i == p),
{
    let g = f.push(p);
    if listed(g, i) {
        let k = choose|k: int| 0 <= k < g.len() && g[k] as int == i;
        if k < f.len() {
            assert(f[k] == g[k]);
        }
    }
    if listed(f, i) {
        let k = choose|k: int| 0 <= k < f.len() && f[k] as int == i;
        assert(g[k] == f[k]);
    }
    if i == p {
        assert(g[f.len() as int] == p);
    }
}

proof fn lemma_kept_none<S>(s: Seq<S>, f: Seq<usize>)
    requires
        f.len() == 0,
    ensures
        kept(s, f) == s,
    decreases s.len(),
{
    if s.len() > 0 {
        lemma_kept_none(s.drop_last(), f);
        assert(s.drop_last().push(s.last()) =~= s);
    }
}

proof fn lemma_kept_ignores_outside<S>(t: Seq<S>, f: Seq<usize>, p: usize)
    requires
        p >= t.len(),
    ensures
        kept(t, f.push(p)) == kept(t, f),
    decreases t.len(),
{
    if t.len() > 0 {
        lemma_kept_ignores_outside(t.drop_last(), f, p);
        lemma_listed_push(f, p, t.len() - 1);
    }
}

proof fn lemma_kept_remove<S>(s: Seq<S>, f: Seq<usize>, p: usize)
    requires
        p < s.len(),
        forall|k: int| 0 <= k < f.len() ==> (#[trigger] f[k]) < p,
    ensures
        kept(s.remove(p as int), f) == kept(s, f.push(p)),
    decreases s.len(),
{
    lemma_listed_push(f, p, s.len() - 1);
    if p == s.len() - 1 {
        assert(s.remove(p as int) =~= s.drop_last());
        lemma_kept_ignores_outside(s.drop_last(), f, p);
    } else {
        let r = s.remove(p as int);
        assert(r.drop_last() =~= s.drop_last().remove(p as int));
        assert(r.last() == s.last());
        lemma_kept_remove(s.drop_last(), f, p);
        assert(!listed(f, s.len() - 1)) by {
            if listed(f, s.len() - 1) {
                let k = choose|k: int| 0 <= k < f.len() && f[k] as int == s.len() - 1;
                assert(f[k] < p);
            }
        }
        assert(!listed(f, r.len() - 1)) by {
            if listed(f, r.len() - 1) {
                let k = choose|k: int| 0 <= k < f.len() && f[k] as int == r.len() - 1;
                assert(f[k] < p);
            }
        }
    }
}

/// Dropping the subscribers whose delivery failed keeps every other
/// subscriber, in its order: with the failed positions listed in increasing
/// order, what remains is exactly the subscribers at the other positions.
pub proof fn law_dropping_failed_subscribers_keeps_the_others<S>(s: Seq<S>, failed: Seq<usize>)
    requires
        increasing_below(failed, s.len() as int),
    ensures
        without_positions(s, failed) == kept(s, failed),
    decreases failed.len(),
{
    if failed.len() > 0 {
        let p = failed.last();
        let f = failed.drop_last();
        assert(failed =~= f.push(p));
        assert forall|k: int| 0 <= k < f.len() implies (#[trigger] f[k]) < p by {
            assert(failed[k] < failed[failed.len() - 1]);
        }
        assert(increasing_below(f, s.remove(p as int).len() as int)) by {
            assert forall|i: int| 0 <= i < f.len() implies #[trigger] f[i] < s.remove(p as int).len() by {
                assert(failed[i] < failed[failed.len() - 1]);
            }
            assert forall|i: int, j: int| 0 <= i < j < f.len() implies #[trigger] f[i] < #[trigger] f[j] by {
                assert(failed[i] < failed[j]);
            }
        }
        law_dropping_failed_subscribers_keeps_the_others(s.remove(p as int), f);
        lemma_kept_remove(s, f, p);
    } else {
        lemma_kept_none(s, failed);
    }
}

/// Every id waiting for a verdict is that of a stored vote.
pub open spec fn only_votes_wait(m: PoolModel) -> bool {
    forall|k: int|
        0 <= k < m.not_verified.len() ==> (m.history[#[trigger] m.not_verified[k] as int].message matches Some(em)
            && em.message matches Some(MessageModel::VoteMessage(_)))
}

/// Sending a vote puts its id on the list of ids waiting for a verdict;
/// sending a message of any other kind (closing, move, fines, verdict,
/// block) keeps that list unchanged; and every waiting id stays that of a
/// stored vote.
pub proof fn law_only_votes_wait_for_a_verdict(m: PoolModel, value: EqMessageModel)
    requires
        pool_wf(m),
        m.history.len() < i32::MAX,
        value.message is Some,
    ensures
        value.message matches Some(MessageModel::VoteMessage(_)) ==> send_model(m, value).0.not_verified
            == m.not_verified.push(m.history.len() as i32),
        !(value.message matches Some(MessageModel::VoteMessage(_))) ==> send_model(m, value).0.not_verified
            == m.not_verified,
        only_votes_wait(m) ==> only_votes_wait(send_model(m, value).0),
{
    let n = send_model(m, value).0;
    if only_votes_wait(m) {
        assert forall|k: int| 0 <= k < n.not_verified.len() implies (n.history[#[trigger] n.not_verified[k] as int].message matches Some(em)
            && em.message matches Some(MessageModel::VoteMessage(_))) by {
            if k < m.not_verified.len() {
                assert(n.not_verified[k] == m.not_verified[k]);
                assert(0 <= m.not_verified[k] < m.history.len());
                assert(n.history[m.not_verified[k] as int] == m.history[m.not_verified[k] as int]);
            } else {
                assert(n.not_verified[k] == m.history.len() as i32);
            }
        }
    }
}

/// Taking an id off the waiting list keeps every other waiting id that of a
/// stored vote.
pub proof fn law_removing_keeps_only_votes_waiting(m: PoolModel, id: i32)
    requires
        only_votes_wait(m),
    ensures
        only_votes_wait(remove_model(m, id).0),
{
    let n = remove_model(m, id).0;
    if let Some(p) = crate::message_pool::position_of(m.not_verified, id) {
        crate::message_pool::lemma_position_of_found(m.not_verified, id);
        assert forall|k: int| 0 <= k < n.not_verified.len() implies (n.history[#[trigger] n.not_verified[k] as int].message matches Some(em)
            && em.message matches Some(MessageModel::VoteMessage(_))) by {
            let k0 = if k < p { k } else { k + 1 };
            assert(n.not_verified[k] == m.not_verified[k0]);
        }
    }
}

} // verus!
