//! Handing one sent message to the subscribers of a pool, one after another:
//! which subscriber comes next, and which ones are dropped afterwards. The
//! sending itself (an await on each channel) is done by the caller, which
//! reports each outcome back.
use vstd::prelude::*;

use crate::message_pool::{increasing_below, is_vote, pool_wf, send_model, without_positions, PoolModel};
use crate::proto::{EqHistoryModel, EqMessageModel};
use crate::pool_laws::{
    kept, law_dropping_failed_subscribers_keeps_the_others, law_send_keeps_wf, lemma_listed_push, listed,
};

verus! {

/// The positions whose delivery failed, given the outcome of each delivery
/// so far (`true` where the subscriber took the message), in increasing
/// order.
pub open spec fn failed_positions(outcomes: Seq<bool>) -> Seq<usize>
    decreases outcomes.len(),
{
    if outcomes.len() == 0 {
        Seq::empty()
    } else {
        let before = failed_positions(outcomes.drop_last());
        if outcomes.last() {
            before
        } else {
            before.push((outcomes.len() - 1) as usize)
        }
    }
}

/// The subscriber that is handed the message next, of `total`, once the
/// deliveries `outcomes` are done: the one after the last, while any is left.
pub open spec fn next_target(total: nat, outcomes: Seq<bool>) -> Option<usize> {
    if outcomes.len() < total {
        Some(outcomes.len() as usize)
    } else {
        None
    }
}

/// The members of `s` that took the message, in their order.
pub open spec fn reached<S>(s: Seq<S>, outcomes: Seq<bool>) -> Seq<S>
    decreases s.len(),
{
    if s.len() == 0 {
        Seq::empty()
    } else {
        let before = reached(s.drop_last(), outcomes);
        if outcomes[s.len() - 1] {
            before.push(s.last())
        } else {
            before
        }
    }
}

/// A delivery of one message to `total` subscribers.
pub struct Delivery {
    total: usize,
    done: usize,
    outcomes: Ghost<Seq<bool>>,
    failed: Vec<usize>,
}

impl Delivery {
    /// How many subscribers the message goes to.
    pub closed spec fn total(&self) -> nat {
        self.total as nat
    }

    /// The outcome of each delivery made so far, in order.
    pub closed spec fn outcomes(&self) -> Seq<bool> {
        self.outcomes@
    }

    /// The count of deliveries and the failed positions agree with the
    /// outcomes.
    pub closed spec fn wf(&self) -> bool {
        &&& self.done == self.outcomes@.len()
        &&& self.done <= self.total
        &&& self.failed@ == failed_positions(self.outcomes@)
    }

    /// A delivery to `total` subscribers, none reached yet.
    pub fn new(total: usize) -> (r: Delivery)
        ensures
            r.wf(),
            r.total() == total,
            r.outcomes() == Seq::<bool>::empty(),
    {
        Delivery { total, done: 0, outcomes: Ghost(Seq::empty()), failed: Vec::new() }
    }

    /// The position of the subscriber to hand the message to next, or
    /// `None` when every one has had it.
    pub fn target(&self) -> (r: Option<usize>)
        requires
            self.wf(),
        ensures
            r == next_target(self.total(), self.outcomes()),
    {
        if self.done < self.total {
            Some(self.done)
        } else {
            None
        }
    }

    /// Records the outcome of handing the message to the subscriber that
    /// `target` named: `delivered` where it took the message.
    pub fn record(&mut self, delivered: bool)
        requires
            old(self).wf(),
            old(self).outcomes().len() < old(self).total(),
        ensures
            final(self).wf(),
            final(self).total() == old(self).total(),
            final(self).outcomes() == old(self).outcomes().push(delivered),
    {
        let ghost before = self.outcomes@;
        let position = self.done;
        if !delivered {
            self.failed.push(position);
        }
        let ghost after = before.push(delivered);
        assert(after.drop_last() =~= before);
        self.done = position + 1;
        self.outcomes = Ghost(after);
    }

    /// The positions of the subscribers that did not take the message, in
    /// increasing order.
    pub fn failed(&self) -> (r: &Vec<usize>)
        requires
            self.wf(),
        ensures
            r@ == failed_positions(self.outcomes()),
    {
        &self.failed
    }
}

proof fn lemma_failed_positions(o: Seq<bool>)
    requires
        o.len() <= usize::MAX,
    ensures
        increasing_below(failed_positions(o), o.len() as int),
        forall|i: int| 0 <= i < o.len() ==> (listed(failed_positions(o), i) <==> !o[i]),
    decreases o.len(),
{
    if o.len() > 0 {
        let p = o.drop_last();
        lemma_failed_positions(p);
        let f = failed_positions(p);
        assert forall|i: int| 0 <= i < o.len() implies (listed(failed_positions(o), i) <==> !o[i]) by {
            if !o.last() {
                lemma_listed_push(f, (o.len() - 1) as usize, i);
            }
            if i == o.len() - 1 {
                assert(listed(f, i) ==> false) by {
                    if listed(f, i) {
                        let k = choose|k: int| 0 <= k < f.len() && f[k] as int == i;
                        assert(f[k] < p.len());
                    }
                }
            } else {
                assert(o[i] == p[i]);
            }
        }
    }
}

proof fn lemma_kept_is_reached<S>(t: Seq<S>, o: Seq<bool>)
    requires
        t.len() <= o.len(),
        o.len() <= usize::MAX,
    ensures
        kept(t, failed_positions(o)) == reached(t, o),
    decreases t.len(),
{
    if t.len() > 0 {
        lemma_kept_is_reached(t.drop_last(), o);
        lemma_failed_positions(o);
    }
}

/// Each subscriber is offered the message once, in their order: after the
/// first `k` deliveries the next one goes to subscriber `k`, and once every
/// subscriber has had it there is none left.
pub proof fn law_each_subscriber_is_offered_once_in_order(total: nat, outcomes: Seq<bool>)
    requires
        outcomes.len() <= total,
    ensures
        forall|k: int| 0 <= k < outcomes.len() ==> #[trigger] next_target(total, outcomes.take(k)) == Some(k as usize),
        outcomes.len() == total ==> next_target(total, outcomes) is None,
{
}

/// After a delivery to every subscriber (as many as a `usize` counts), the
/// failed positions ascend and lie among the subscribers (so the pool can
/// drop them), and dropping them keeps exactly the subscribers that took the
/// message, in their order.
pub proof fn law_delivery_keeps_the_reached_subscribers<S>(s: Seq<S>, outcomes: Seq<bool>)
    requires
        outcomes.len() == s.len(),
        s.len() <= usize::MAX,
    ensures
        increasing_below(failed_positions(outcomes), s.len() as int),
        without_positions(s, failed_positions(outcomes)) == reached(s, outcomes),
{
    lemma_failed_positions(outcomes);
    law_dropping_failed_subscribers_keeps_the_others(s, failed_positions(outcomes));
    lemma_kept_is_reached(s, outcomes);
}

/// Sending a message to a pool with subscribers `s` and then delivering it:
/// the message is stored under the next id (its position), a vote also waits
/// for a verdict, the pool stays well formed; each subscriber is offered the
/// message once, in order; and afterwards the pool keeps exactly the
/// subscribers that took it, in their order.
pub proof fn law_sent_message_reaches_each_subscriber<S>(
    m: PoolModel,
    s: Seq<S>,
    value: EqMessageModel,
    outcomes: Seq<bool>,
)
    requires
        pool_wf(m),
        m.history.len() < i32::MAX,
        value.message is Some,
        outcomes.len() == s.len(),
        s.len() <= usize::MAX,
    ensures
        send_model(m, value).1 == Ok::<int, crate::errors::CompError>(m.history.len() as int),
        send_model(m, value).0.history == m.history.push(
            EqHistoryModel { message_id: m.history.len() as i32, message: Some(value) },
        ),
        send_model(m, value).0.not_verified == (if is_vote(value) {
            m.not_verified.push(m.history.len() as i32)
        } else {
            m.not_verified
        }),
        pool_wf(send_model(m, value).0),
        forall|k: int| 0 <= k < s.len() ==> #[trigger] next_target(s.len(), outcomes.take(k)) == Some(k as usize),
        next_target(s.len(), outcomes) is None,
        increasing_below(failed_positions(outcomes), s.len() as int),
        without_positions(s, failed_positions(outcomes)) == reached(s, outcomes),
{
    law_send_keeps_wf(m, value);
    law_each_subscriber_is_offered_once_in_order(s.len(), outcomes);
    law_delivery_keeps_the_reached_subscribers(s, outcomes);
}

} // verus!
