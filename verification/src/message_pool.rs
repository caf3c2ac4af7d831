//! The event queue of a running competition: every message sent, in order,
//! and the votes still waiting for a supervisor's verdict.
use vstd::prelude::*;

use crate::errors::CompError;
use crate::proto::{EqHistoryMessage, EqHistoryModel, EqMessage, EqMessageModel, Message, MessageModel};
use crate::replicate::Replicate;

verus! {

pub struct PoolModel {
    pub history: Seq<EqHistoryModel>,
    pub not_verified: Seq<i32>,
}

/// Every message is stored under its position and carries a payload; the ids
/// waiting for a verdict are distinct positions of the history.
pub open spec fn pool_wf(m: PoolModel) -> bool {
    &&& m.history.len() <= i32::MAX
    &&& forall|i: int| 0 <= i < m.history.len() ==> (#[trigger] m.history[i]).message_id == i
    &&& forall|i: int|
        0 <= i < m.history.len() ==> ((#[trigger] m.history[i]).message matches Some(em)
            && em.message is Some)
    &&& forall|k: int|
        0 <= k < m.not_verified.len() ==> 0 <= #[trigger] m.not_verified[k] < m.history.len()
    &&& forall|k: int, l: int|
        0 <= k < m.not_verified.len() && 0 <= l < m.not_verified.len() && k != l
            ==> #[trigger] m.not_verified[k] != #[trigger] m.not_verified[l]
}

pub open spec fn is_vote(m: EqMessageModel) -> bool {
    m.message matches Some(MessageModel::VoteMessage(_))
}

/// Sends a message: it is stored under the next id, and a vote also waits for
/// a verdict. A message without payload is refused.
pub open spec fn send_model(m: PoolModel, value: EqMessageModel) -> (PoolModel, Result<int, CompError>) {
    if value.message is None {
        (m, Err(CompError::NoMessageData))
    } else {
        let id = m.history.len();
        let h = m.history.push(EqHistoryModel { message_id: id as i32, message: Some(value) });
        let nv = if is_vote(value) { m.not_verified.push(id as i32) } else { m.not_verified };
        (PoolModel { history: h, not_verified: nv }, Ok(id as int))
    }
}

/// Position of the first occurrence of `x`.
pub open spec fn position_of(s: Seq<i32>, x: i32) -> Option<int>
    decreases s.len(),
{
    if s.len() == 0 {
        None
    } else if s[0] == x {
        Some(0)
    } else {
        match position_of(s.drop_first(), x) {
            Some(i) => Some(i + 1),
            None => None,
        }
    }
}

pub proof fn lemma_position_of(s: Seq<i32>, x: i32, i: int)
    requires
        0 <= i <= s.len(),
        forall|j: int| 0 <= j < i ==> #[trigger] s[j] != x,
    ensures
        i < s.len() && s[i] == x ==> position_of(s, x) == Some(i),
        i == s.len() ==> position_of(s, x) is None,
    decreases i,
{
    if i > 0 {
        let rest = s.drop_first();
        assert forall|j: int| 0 <= j < i - 1 implies #[trigger] rest[j] != x by {
            assert(s[j + 1] != x);
        }
        lemma_position_of(rest, x, i - 1);
    }
}

pub proof fn lemma_position_of_found(s: Seq<i32>, x: i32)
    ensures
        position_of(s, x) matches Some(i) ==> 0 <= i < s.len() && s[i] == x,
        position_of(s, x) is None <==> !s.contains(x),
    decreases s.len(),
{
    if s.len() > 0 && s[0] != x {
        lemma_position_of_found(s.drop_first(), x);
        if s.contains(x) {
            let k = choose|k: int| 0 <= k < s.len() && s[k] == x;
            assert(s.drop_first()[k - 1] == x);
        }
    }
}

/// Takes a message off the list of those waiting for a verdict.
pub open spec fn remove_model(m: PoolModel, id: i32) -> (PoolModel, Result<i32, CompError>) {
    match position_of(m.not_verified, id) {
        Some(k) => (PoolModel { not_verified: m.not_verified.remove(k), ..m }, Ok(id)),
        None => (m, Err(CompError::MessageNotFound)),
    }
}

/// The author of a stored message.
pub open spec fn author_uid(h: EqHistoryModel) -> i32 {
    h.message.unwrap().author.unwrap().uid
}

pub open spec fn by_author(m: PoolModel, author_id: i32) -> spec_fn(i32) -> bool {
    |x: i32| 0 <= x < m.history.len() && author_uid(m.history[x as int]) == author_id
}

pub open spec fn by_queue(m: PoolModel, quid: i32) -> spec_fn(i32) -> bool {
    |x: i32|
        0 <= x < m.history.len() && (m.history[x as int].message.unwrap().message.unwrap() matches MessageModel::VoteMessage(
            v,
        ) && v.queue_id == quid)
}

/// Messages whose author is known, for every message waiting for a verdict.
pub open spec fn authors_known(m: PoolModel) -> bool {
    forall|k: int|
        0 <= k < m.not_verified.len() ==> (#[trigger] m.history[m.not_verified[k] as int]).message.unwrap().author
            is Some
}

/// `s` without the elements at the given positions, removed from the last
/// position to the first.
pub open spec fn without_positions<S>(s: Seq<S>, positions: Seq<usize>) -> Seq<S>
    decreases positions.len(),
{
    if positions.len() == 0 {
        s
    } else {
        without_positions(s.remove(positions.last() as int), positions.drop_last())
    }
}

pub open spec fn increasing_below(positions: Seq<usize>, n: int) -> bool {
    &&& forall|i: int, j: int|
        0 <= i < j < positions.len() ==> #[trigger] positions[i] < #[trigger] positions[j]
    &&& forall|i: int| 0 <= i < positions.len() ==> #[trigger] positions[i] < n
}

/// The event queue of one competition, with the subscribers that receive
/// every message sent.
pub struct MessagePool<S> {
    history: Vec<EqHistoryMessage>,
    not_verified: Vec<i32>,
    senders: Vec<S>,
}

impl<S> MessagePool<S> {
    pub closed spec fn model(&self) -> PoolModel {
        PoolModel { history: self.history.deep_view(), not_verified: self.not_verified@ }
    }

    pub closed spec fn subscribers(&self) -> Seq<S> {
        self.senders@
    }

    pub open spec fn wf(&self) -> bool {
        pool_wf(self.model())
    }

    /// An empty pool.
    pub fn new() -> (r: Self)
        ensures
            r.wf(),
            r.model().history.len() == 0,
            r.model().not_verified.len() == 0,
            r.subscribers().len() == 0,
    {
        MessagePool { history: Vec::new(), not_verified: Vec::new(), senders: Vec::new() }
    }

    /// Whether message `i` waits for a verdict.
    pub fn not_verified(&self, i: i32) -> (r: bool)
        ensures
            r == self.model().not_verified.contains(i),
    {
        let mut k: usize = 0;
        while k < self.not_verified.len()
            invariant
                k <= self.not_verified@.len(),
                forall|j: int| 0 <= j < k ==> self.not_verified@[j] != i,
            decreases self.not_verified@.len() - k,
        {
            if self.not_verified[k] == i {
                assert(self.not_verified@[k as int] == i);
                return true;
            }
            k = k + 1;
        }
        false
    }

    /// The messages waiting for a verdict whose author is `author_id`, in the
    /// order in which they wait.
    pub fn select_unverified_with_author(&self, author_id: i32) -> (r: Vec<i32>)
        requires
            self.wf(),
            authors_known(self.model()),
        ensures
            r@ == self.model().not_verified.filter(by_author(self.model(), author_id)),
    {
        let ghost m = self.model();
        let ghost pred = by_author(m, author_id);
        let mut out: Vec<i32> = Vec::new();
        let mut k: usize = 0;
        assert(self.not_verified@.subrange(0, 0) =~= Seq::<i32>::empty());
        assert(Seq::<i32>::empty().filter(pred) =~= Seq::<i32>::empty()) by {
            reveal(Seq::filter);
        }
        while k < self.not_verified.len()
            invariant
                m == self.model(),
                pool_wf(m),
                authors_known(m),
                pred == by_author(m, author_id),
                k <= m.not_verified.len(),
                out@ == m.not_verified.subrange(0, k as int).filter(pred),
            decreases m.not_verified.len() - k,
        {
            let x = self.not_verified[k];
            let ghost pre = m.not_verified.subrange(0, k as int);
            assert(m.not_verified.subrange(0, k + 1) =~= pre.push(x));
            proof { pre.lemma_filter_push(x, pred); }
            let keep = if (x as usize) < self.history.len() {
                let h = &self.history[x as usize];
                proof {
                    assert(m.history[x as int] == h.deep_view());
                }
                match &h.message {
                    Some(em) => match &em.author {
                        Some(a) => a.uid == author_id,
                        None => false,
                    },
                    None => false,
                }
            } else {
                false
            };
            if keep {
                out.push(x);
            }
            k = k + 1;
        }
        assert(m.not_verified.subrange(0, k as int) =~= m.not_verified);
        out
    }

    /// The votes waiting for a verdict that were cast in queue `quidu`, in
    /// the order in which they wait.
    pub fn select_unverified_with_query(&self, quidu: usize) -> (r: Vec<i32>)
        requires
            self.wf(),
            quidu <= i32::MAX,
        ensures
            r@ == self.model().not_verified.filter(by_queue(self.model(), quidu as i32)),
    {
        let quid = quidu as i32;
        let ghost m = self.model();
        let ghost pred = by_queue(m, quid);
        let mut out: Vec<i32> = Vec::new();
        let mut k: usize = 0;
        assert(self.not_verified@.subrange(0, 0) =~= Seq::<i32>::empty());
        assert(Seq::<i32>::empty().filter(pred) =~= Seq::<i32>::empty()) by {
            reveal(Seq::filter);
        }
        while k < self.not_verified.len()
            invariant
                m == self.model(),
                pool_wf(m),
                pred == by_queue(m, quid),
                k <= m.not_verified.len(),
                out@ == m.not_verified.subrange(0, k as int).filter(pred),
            decreases m.not_verified.len() - k,
        {
            let x = self.not_verified[k];
            let ghost pre = m.not_verified.subrange(0, k as int);
            assert(m.not_verified.subrange(0, k + 1) =~= pre.push(x));
            proof { pre.lemma_filter_push(x, pred); }
            let keep = if (x as usize) < self.history.len() {
                let h = &self.history[x as usize];
                proof {
                    assert(m.history[x as int] == h.deep_view());
                }
                match &h.message {
                    Some(em) => match &em.message {
                        Some(Message::VoteMessage(v)) => v.queue_id == quid,
                        _ => false,
                    },
                    None => false,
                }
            } else {
                false
            };
            if keep {
                out.push(x);
            }
            k = k + 1;
        }
        assert(m.not_verified.subrange(0, k as int) =~= m.not_verified);
        out
    }

    /// Takes message `i` off the list of those waiting for a verdict.
    pub fn remove_from_unverifyed(&mut self, i: i32) -> (r: Result<i32, CompError>)
        requires
            old(self).wf(),
        ensures
            final(self).wf(),
            (final(self).model(), r) == remove_model(old(self).model(), i),
            final(self).subscribers() == old(self).subscribers(),
    {
        let ghost m = self.model();
        let mut k: usize = 0;
        while k < self.not_verified.len()
            invariant
                m == self.model(),
                m == old(self).model(),
                pool_wf(m),
                self.senders@ == old(self).senders@,
                k <= m.not_verified.len(),
                forall|j: int| 0 <= j < k ==> #[trigger] m.not_verified[j] != i,
            decreases m.not_verified.len() - k,
        {
            if self.not_verified[k] == i {
                proof {
                    lemma_position_of(m.not_verified, i, k as int);
                }
                let removed = self.not_verified.remove(k);
                proof {
                    let nm = self.model();
                    assert(nm.not_verified == m.not_verified.remove(k as int));
                    assert forall|a: int, b: int|
                        0 <= a < nm.not_verified.len() && 0 <= b < nm.not_verified.len() && a != b
                            implies #[trigger] nm.not_verified[a] != #[trigger] nm.not_verified[b] by {
                        let a0 = if a < k { a } else { a + 1 };
                        let b0 = if b < k { b } else { b + 1 };
                        assert(nm.not_verified[a] == m.not_verified[a0]);
                        assert(nm.not_verified[b] == m.not_verified[b0]);
                    }
                    assert forall|a: int| 0 <= a < nm.not_verified.len() implies 0
                        <= #[trigger] nm.not_verified[a] < nm.history.len() by {
                        let a0 = if a < k { a } else { a + 1 };
                        assert(nm.not_verified[a] == m.not_verified[a0]);
                    }
                }
                assert(removed == i);
                assert(self.model() == PoolModel { not_verified: m.not_verified.remove(k as int), ..m });
                return Ok(removed);
            }
            k = k + 1;
        }
        proof {
            lemma_position_of(m.not_verified, i, k as int);
        }
        Err(CompError::MessageNotFound)
    }

    /// Adds a subscriber.
    pub fn subscribe(&mut self, sender: S)
        ensures
            final(self).model() == old(self).model(),
            final(self).subscribers() == old(self).subscribers().push(sender),
    {
        self.senders.push(sender);
    }

    /// The subscribers, in the order in which they subscribed.
    pub fn senders(&self) -> (r: &Vec<S>)
        ensures
            r@ == self.subscribers(),
    {
        &self.senders
    }

    /// Drops the subscribers at the given positions.
    pub fn drop_senders(&mut self, failed: &Vec<usize>)
        requires
            increasing_below(failed@, old(self).subscribers().len() as int),
        ensures
            final(self).model() == old(self).model(),
            final(self).subscribers() == without_positions(old(self).subscribers(), failed@),
    {
        let ghost target = without_positions(self.senders@, failed@);
        let mut k: usize = failed.len();
        assert(failed@.subrange(0, k as int) =~= failed@);
        while k > 0
            invariant
                k <= failed@.len(),
                increasing_below(failed@, old(self).subscribers().len() as int),
                forall|i: int| 0 <= i < k ==> #[trigger] failed@[i] < self.senders@.len(),
                self.senders@.len() + failed@.len() - k == old(self).subscribers().len(),
                without_positions(self.senders@, failed@.subrange(0, k as int)) == target,
                self.model() == old(self).model(),
            decreases k,
        {
            let p = failed[k - 1];
            let ghost pre = failed@.subrange(0, k as int);
            assert(pre.last() == p);
            assert(pre.drop_last() =~= failed@.subrange(0, k - 1));
            self.senders.remove(p);
            proof {
                assert forall|i: int| 0 <= i < k - 1 implies #[trigger] failed@[i] < self.senders@.len() by {
                    assert(failed@[i] < failed@[k - 1]);
                }
            }
            k = k - 1;
        }
        assert(failed@.subrange(0, 0) =~= Seq::<usize>::empty());
    }

    /// Sends a message: it is stored under the next id, and a vote also waits
    /// for a verdict. Returns the id.
    pub fn send(&mut self, value: EqMessage) -> (r: Result<usize, CompError>)
        requires
            old(self).wf(),
            old(self).model().history.len() < i32::MAX,
        ensures
            final(self).wf(),
            final(self).subscribers() == old(self).subscribers(),
            final(self).model() == send_model(old(self).model(), value.deep_view()).0,
            match send_model(old(self).model(), value.deep_view()).1 {
                Ok(id) => r == Ok::<usize, CompError>(id as usize),
                Err(e) => r == Err::<usize, CompError>(e),
            },
            value.message matches Some(Message::VoteMessage(_)) ==> final(self).model().not_verified == old(
                self,
            ).model().not_verified.push(old(self).model().history.len() as i32),
            !(value.message matches Some(Message::VoteMessage(_))) ==> final(self).model().not_verified == old(
                self,
            ).model().not_verified,
    {
        let ghost m = self.model();
        let ghost vd = value.deep_view();
        let vote = match &value.message {
            None => {
                return Err(CompError::NoMessageData);
            },
            Some(Message::VoteMessage(_)) => true,
            Some(_) => false,
        };
        let id = self.history.len();
        self.history.push(EqHistoryMessage { message_id: id as i32, message: Some(value) });
        if vote {
            self.not_verified.push(id as i32);
        }
        proof {
            let nm = send_model(m, vd).0;
            assert(self.history.deep_view() =~= nm.history);
            assert(self.model() == nm);
        }
        Ok(id)
    }

    /// The id of the last message, or -1 when nothing was sent.
    pub fn last_id(&self) -> (r: i32)
        requires
            self.wf(),
        ensures
            r == self.model().history.len() - 1,
    {
        let n = self.history.len();
        if n == 0 {
            -1
        } else {
            proof {
                assert(self.model().history[n - 1] == self.history@[n - 1].deep_view());
            }
            self.history[n - 1].message_id
        }
    }

    /// The last message, if any.
    pub fn last_msg(&self) -> (r: Option<&EqHistoryMessage>)
        ensures
            match r {
                Some(h) => self.model().history.len() > 0 && h.deep_view() == self.model().history.last(),
                None => self.model().history.len() == 0,
            },
    {
        let n = self.history.len();
        if n == 0 {
            None
        } else {
            Some(&self.history[n - 1])
        }
    }

    /// A copy of message `mid`, if it was sent.
    pub fn index(&self, mid: i32) -> (r: Option<EqHistoryMessage>)
        ensures
            match r {
                Some(h) => 0 <= mid < self.model().history.len() && h.deep_view()
                    == self.model().history[mid as int],
                None => !(0 <= mid < self.model().history.len()),
            },
    {
        if mid < 0 || mid as usize >= self.history.len() {
            None
        } else {
            Some(self.history[mid as usize].replicate())
        }
    }

    /// A copy of every message sent, in order.
    pub fn history_clone(&self) -> (r: Vec<EqHistoryMessage>)
        ensures
            r.deep_view() == self.model().history,
    {
        self.history.replicate()
    }

    /// A copy of the messages from the `n`-th last up to, but not including,
    /// the last one.
    pub fn nth_history_clone(&self, n: usize) -> (r: Vec<EqHistoryMessage>)
        requires
            1 <= n <= self.model().history.len(),
        ensures
            r.deep_view() == self.model().history.subrange(
                self.model().history.len() - n,
                self.model().history.len() - 1,
            ),
    {
        let len = self.history.len();
        let start = len - n;
        let ghost h = self.model().history;
        let mut out: Vec<EqHistoryMessage> = Vec::new();
        let mut i: usize = start;
        while i < len - 1
            invariant
                h == self.model().history,
                len == h.len(),
                start == len - n,
                start <= i <= len - 1,
                out.deep_view() == h.subrange(start as int, i as int),
            decreases len - 1 - i,
        {
            let ghost before = out.deep_view();
            assert(h[i as int] == self.history@[i as int].deep_view());
            out.push(self.history[i].replicate());
            assert(out.deep_view() =~= before.push(h[i as int]));
            assert(out.deep_view() =~= h.subrange(start as int, i + 1));
            i = i + 1;
        }
        out
    }
}

} // verus!
