//! The running competitions of the server: for each, its event queue and
//! its judging state, and the rules by which client messages change them.
use std::collections::HashMap;
use vstd::prelude::*;

use crate::access::{competition_perms, may_push, message_permitted, org_perms};
use crate::comp_model::{able, add_vote, finish_action, next_action, StateModel};
use crate::comp_state::{started, CompState};
use crate::errors::CompError;
use crate::marks::blank_marks;
use crate::message_pool::{lemma_position_of_found, pool_wf, remove_model, send_model, MessagePool, PoolModel};
use crate::proto::{
    CompDeclaration, CompStatus, EqMessage, EqMessageModel, JudgeScheme, Message, MessageModel,
    Verification,
};
use crate::scheme::{scheme_from_code, status_from_code, verification_from_code};
use crate::tokens::{PermModel, PermissionComparator, Permissions};

verus! {

broadcast use vstd::std_specs::hash::group_hash_axioms;

/// The event queues and judging states of the running competitions, by
/// competition id.
pub struct RuntimeModel {
    pub pools: Map<i32, PoolModel>,
    pub states: Map<i32, StateModel>,
}

/// An event queue with nothing sent.
pub open spec fn empty_pool() -> PoolModel {
    PoolModel { history: Seq::empty(), not_verified: Seq::empty() }
}

/// The judging state of a competition that has just started.
pub open spec fn fresh_state(d: CompDeclaration) -> StateModel {
    StateModel {
        declaration: started(d),
        queues: Seq::new(d.queues@.len(), |i: int| blank_marks()),
    }
}

pub open spec fn with_pool(m: RuntimeModel, coid: i32, p: PoolModel) -> RuntimeModel {
    RuntimeModel { pools: m.pools.insert(coid, p), ..m }
}

pub open spec fn with_state(m: RuntimeModel, coid: i32, s: StateModel) -> RuntimeModel {
    RuntimeModel { states: m.states.insert(coid, s), ..m }
}

/// Whether a competition in status `status` may be started: one being
/// declared, open for registration or waiting may, unless it runs already.
pub open spec fn run_gate(m: RuntimeModel, coid: i32, status: i32) -> Result<(), CompError> {
    match status_from_code(status) {
        Some(CompStatus::Declaration) => if m.pools.contains_key(coid) {
            Err(CompError::AlreadyRunned)
        } else {
            Ok(())
        },
        Some(CompStatus::Registration) => if m.pools.contains_key(coid) {
            Err(CompError::AlreadyRunned)
        } else {
            Ok(())
        },
        Some(CompStatus::Waiting) => if m.pools.contains_key(coid) {
            Err(CompError::AlreadyRunned)
        } else {
            Ok(())
        },
        Some(CompStatus::Running) => Err(CompError::AlreadyRunned),
        _ => Err(CompError::InvalidStatus),
    }
}

/// Starting competition `coid`: an empty event queue and a fresh judging
/// state are put in place; a judging state already there is reported.
pub open spec fn run_model(m: RuntimeModel, coid: i32, status: i32, d: CompDeclaration) -> (RuntimeModel, Result<(), CompError>) {
    match run_gate(m, coid, status) {
        Err(e) => (m, Err(e)),
        Ok(_) => (
            RuntimeModel {
                pools: m.pools.insert(coid, empty_pool()),
                states: m.states.insert(coid, fresh_state(d)),
            },
            if m.states.contains_key(coid) {
                Err(CompError::PoolBroken)
            } else {
                Ok(())
            },
        ),
    }
}

/// Whether a competition in status `status` takes messages: only a running
/// one does.
pub open spec fn push_gate(status: i32) -> Result<(), CompError> {
    match status_from_code(status) {
        Some(CompStatus::Declaration) => Err(CompError::NotRunnedYet),
        Some(CompStatus::Registration) => Err(CompError::NotRunnedYet),
        Some(CompStatus::Waiting) => Err(CompError::Waiting),
        Some(CompStatus::Running) => Ok(()),
        Some(CompStatus::Completed) => Err(CompError::AlreadyCompleted),
        _ => Err(CompError::StatusUnknown),
    }
}

/// The verdict that a wire number names; an unknown number reads as
/// `NotChecked`.
pub open spec fn verdict_of(code: i32) -> Verification {
    match verification_from_code(code) {
        Some(v) => v,
        None => Verification::NotChecked,
    }
}

/// A supervisor's verdict on message `target`: the message stops waiting;
/// where the verdict approves it, its vote is recorded for its author.
pub open spec fn apply_verdict(m: RuntimeModel, coid: i32, target: i32, verdict: i32) -> (RuntimeModel, Result<(), CompError>) {
    let pool = m.pools[coid];
    if !pool.not_verified.contains(target) {
        (m, Err(CompError::UnableToVerify))
    } else {
        let p2 = remove_model(pool, target).0;
        let m2 = with_pool(m, coid, p2);
        if verification_from_code(verdict) == Some(Verification::Approve) {
            let em = p2.history[target as int].message.unwrap();
            match em.message.unwrap() {
                MessageModel::VoteMessage(v) => match em.author {
                    Some(a) => if !m.states.contains_key(coid) {
                        (m2, Err(CompError::StateNotStarted))
                    } else {
                        match add_vote(m.states[coid], a.uid, a.uid, target, v) {
                            Ok(ns) => (with_state(m2, coid, ns), Ok(())),
                            Err(e) => (m2, Err(e)),
                        }
                    },
                    None => (m2, Err(CompError::UnexpectedVerifiedMessage)),
                },
                _ => (m2, Err(CompError::UnexpectedVerifiedMessage)),
            }
        } else {
            (m2, Ok(()))
        }
    }
}

/// What message `msg` from user `uid` does to competition `coid` before it
/// is stored: a vote must be one the state takes now; a verdict is applied;
/// closing a voting and moving a queue on change the judging state. Other
/// messages are not taken from clients.
pub open spec fn handle(m: RuntimeModel, coid: i32, uid: i32, msg: MessageModel) -> (RuntimeModel, Result<(), CompError>) {
    match msg {
        MessageModel::VoteMessage(v) => if !m.states.contains_key(coid) {
            (m, Err(CompError::StateNotStarted))
        } else {
            (m, able(m.states[coid], uid, v.queue_id, v.action_id))
        },
        MessageModel::VerifyMessage(vm) => apply_verdict(m, coid, vm.target_message_id, vm.verdict),
        MessageModel::FixVoting(f) => if !m.states.contains_key(coid) {
            (m, Err(CompError::StateNotFound))
        } else {
            let (ns, r) = finish_action(m.states[coid], f.queue_id, verdict_of(f.verdict));
            (
                with_state(m, coid, ns),
                match r {
                    Ok(_) => Ok(()),
                    Err(e) => Err(e),
                },
            )
        },
        MessageModel::TryNext(n) => if !m.states.contains_key(coid) {
            (m, Err(CompError::StateNotFound))
        } else {
            let (ns, r) = next_action(m.states[coid], n.queue_id);
            (with_state(m, coid, ns), r)
        },
        _ => (m, Err(CompError::UnsupportedMessage)),
    }
}

/// A client message `req` from user `uid`, holding `perms`, to a
/// competition of organisation `org` with status `status` and scheme number
/// `scheme_code`: checked, applied, and stored in the event queue under the
/// id returned.
pub open spec fn push_model(
    m: RuntimeModel,
    req: EqMessageModel,
    uid: i32,
    perms: Seq<(i32, Seq<PermModel>)>,
    org: i32,
    status: i32,
    scheme_code: i32,
) -> (RuntimeModel, Result<i32, CompError>) {
    let coid = req.comp_id;
    match req.message {
        None => (m, Err(CompError::NoMessageInRequest)),
        Some(msg) => match push_gate(status) {
            Err(e) => (m, Err(e)),
            Ok(_) => if scheme_from_code(scheme_code) is None {
                (m, Err(CompError::SchemeMismatch))
            } else if !may_push(org_perms(perms, org, coid, false), coid, msg) {
                (m, Err(CompError::PermissionDenied))
            } else if !m.pools.contains_key(coid) {
                (m, Err(CompError::NotStarted))
            } else {
                let (m2, r) = handle(m, coid, uid, msg);
                match r {
                    Err(e) => (m2, Err(e)),
                    Ok(_) => if m2.pools[coid].history.len() >= i32::MAX {
                        (m2, Err(CompError::HistoryFull))
                    } else {
                        let (p3, s) = send_model(m2.pools[coid], req);
                        (
                            with_pool(m2, coid, p3),
                            match s {
                                Ok(id) => Ok(id as i32),
                                Err(e) => Err(e),
                            },
                        )
                    },
                }
            },
        },
    }
}

/// Whether message `req` passes every check and reaches the judging state:
/// the competition runs with a known scheme, the sender may send it, and its
/// event queue is there. A `Block` message that gets this far is not
/// supported: stopping the events of a competition is left undone.
pub open spec fn reaches_handling(
    m: RuntimeModel,
    req: EqMessageModel,
    perms: Seq<(i32, Seq<PermModel>)>,
    org: i32,
    status: i32,
    scheme_code: i32,
) -> bool {
    &&& req.message is Some
    &&& push_gate(status) is Ok
    &&& scheme_from_code(scheme_code) is Some
    &&& may_push(org_perms(perms, org, req.comp_id, false), req.comp_id, req.message.unwrap())
    &&& m.pools.contains_key(req.comp_id)
}

/// Whether a user holding `perms`, and owning the organisation or not, may
/// follow the event queue of competition `coid` of organisation `org`.
pub open spec fn stream_model(m: RuntimeModel, coid: i32, perms: Seq<(i32, Seq<PermModel>)>, org: i32, owner: bool) -> Result<(), CompError> {
    if org_perms(perms, org, coid, true).len() == 0 && !owner {
        Err(CompError::PermissionDenied)
    } else if !m.pools.contains_key(coid) {
        Err(CompError::CompNotFound)
    } else {
        Ok(())
    }
}

/// The running competitions, each with its event queue (and the
/// subscribers `S` of it) and its judging state.
pub struct CompetitionRuntime<S> {
    pools: HashMap<i32, MessagePool<S>>,
    states: HashMap<i32, CompState>,
}

impl<S> CompetitionRuntime<S> {
    pub closed spec fn model(&self) -> RuntimeModel {
        RuntimeModel {
            pools: Map::new(|k: i32| self.pools@.contains_key(k), |k: i32| self.pools@[k].model()),
            states: Map::new(
                |k: i32| self.states@.contains_key(k),
                |k: i32| self.states@[k].deep_view(),
            ),
        }
    }

    /// The subscribers of the event queue of competition `coid`.
    pub closed spec fn subscribers(&self, coid: i32) -> Seq<S> {
        self.pools@[coid].subscribers()
    }

    pub closed spec fn wf(&self) -> bool {
        &&& forall|k: i32| #[trigger] self.pools@.contains_key(k) ==> self.pools@[k].wf()
        &&& forall|k: i32| #[trigger] self.states@.contains_key(k) ==> self.states@[k].wf()
    }

    /// No competition running.
    pub fn new() -> (r: Self)
        ensures
            r.wf(),
            r.model().pools == Map::<i32, PoolModel>::empty(),
            r.model().states == Map::<i32, StateModel>::empty(),
    {
        let r = CompetitionRuntime { pools: HashMap::new(), states: HashMap::new() };
        assert(r.model().pools =~= Map::<i32, PoolModel>::empty());
        assert(r.model().states =~= Map::<i32, StateModel>::empty());
        r
    }

    /// Whether competition `coid`, in status `status`, may be started.
    pub fn run_check(&self, coid: i32, status: i32) -> (r: Result<(), CompError>)
        ensures
            r == run_gate(self.model(), coid, status),
    {
        let running = self.pools.contains_key(&coid);
        match CompStatus::try_from_code(status) {
            Some(CompStatus::Declaration) | Some(CompStatus::Registration) | Some(
                CompStatus::Waiting,
            ) => if running {
                Err(CompError::AlreadyRunned)
            } else {
                Ok(())
            },
            Some(CompStatus::Running) => Err(CompError::AlreadyRunned),
            _ => Err(CompError::InvalidStatus),
        }
    }

    /// Starts competition `coid`, declared as `declaration`: it gets an empty
    /// event queue and a fresh judging state.
    pub fn run(&mut self, coid: i32, status: i32, declaration: CompDeclaration) -> (r: Result<(), CompError>)
        requires
            old(self).wf(),
        ensures
            final(self).wf(),
            (final(self).model(), r) == run_model(old(self).model(), coid, status, declaration),
            forall|k: i32|
                k != coid && old(self).model().pools.contains_key(k) ==> #[trigger] final(self).subscribers(k)
                    == old(self).subscribers(k),
            run_gate(old(self).model(), coid, status) is Ok ==> final(self).subscribers(coid).len() == 0,
            run_gate(old(self).model(), coid, status) is Err ==> final(self).subscribers(coid) == old(self).subscribers(coid),
    {
        let ghost old_model = self.model();
        match self.run_check(coid, status) {
            Err(e) => {
                return Err(e);
            },
            Ok(()) => {},
        }
        let ghost d = declaration;
        let pool: MessagePool<S> = MessagePool::new();
        let state = CompState::new_clean(declaration);
        proof {
            assert(pool.model().history =~= Seq::empty());
            assert(pool.model().not_verified =~= Seq::empty());
            assert(pool.model() == empty_pool());
            assert(state.deep_view() == fresh_state(d));
        }
        let ghost old_pools = self.pools@;
        let ghost new_pool = pool;
        let had_pool = self.pools.insert(coid, pool);
        let had_state = self.states.insert(coid, state);
        assert(self.pools@ == old_pools.insert(coid, new_pool));
        assert(self.model().pools =~= old_model.pools.insert(coid, empty_pool()));
        assert forall|k: i32| k != coid implies #[trigger] self.pools@[k] == old_pools[k] by {}
        assert(self.model().states =~= old_model.states.insert(coid, fresh_state(d)));
        match (had_pool, had_state) {
            (None, None) => Ok(()),
            _ => Err(CompError::PoolBroken),
        }
    }

    /// Adds `sender` to the subscribers of competition `coid`, where a user
    /// holding `perms`, owner of organisation `org` or not, may follow it.
    pub fn start_eq_message_stream(
        &mut self,
        coid: i32,
        perms: &Vec<(i32, Vec<Permissions>)>,
        org: i32,
        owner: bool,
        sender: S,
    ) -> (r: Result<(), CompError>)
        requires
            old(self).wf(),
        ensures
            final(self).wf(),
            final(self).model() == old(self).model(),
            r == stream_model(old(self).model(), coid, perms.deep_view(), org, owner),
            r is Ok ==> final(self).subscribers(coid) == old(self).subscribers(coid).push(sender),
            forall|k: i32|
                (k != coid || r is Err) ==> #[trigger] final(self).subscribers(k) == old(self).subscribers(k),
    {
        let ghost old_model = self.model();
        let held = competition_perms(perms, org, coid, true);
        if held.len() == 0 && !owner {
            return Err(CompError::PermissionDenied);
        }
        let ghost old_pools = self.pools@;
        match self.pools.remove(&coid) {
            None => {
                assert(self.pools@ =~= old_pools);
                Err(CompError::CompNotFound)
            },
            Some(mut pool) => {
                assert(pool == old_pools[coid]);
                pool.subscribe(sender);
                let ghost np = pool;
                self.pools.insert(coid, pool);
                assert(self.pools@ =~= old_pools.insert(coid, np));
                assert(self.model().pools =~= old_model.pools);
                assert(self.model().states =~= old_model.states);
                Ok(())
            },
        }
    }

    fn apply_verdict(&mut self, coid: i32, target: i32, verdict: i32) -> (r: Result<(), CompError>)
        requires
            old(self).wf(),
            old(self).model().pools.contains_key(coid),
        ensures
            final(self).wf(),
            (final(self).model(), r) == apply_verdict(old(self).model(), coid, target, verdict),
            forall|k: i32| #[trigger] final(self).subscribers(k) == old(self).subscribers(k),
            final(self).model().pools.contains_key(coid),
    {
        let ghost m = self.model();
        let ghost old_pools = self.pools@;
        let ghost old_states = self.states@;
        let mut pool = self.pools.remove(&coid).unwrap();
        assert(pool == old_pools[coid]);
        let ghost pm = pool.model();
        assert(pm == m.pools[coid]);
        if !pool.not_verified(target) {
            self.pools.insert(coid, pool);
            assert(self.pools@ =~= old_pools);
            return Err(CompError::UnableToVerify);
        }
        let removed = pool.remove_from_unverifyed(target);
        proof {
            lemma_position_of_found(pm.not_verified, target);
        }
        let verified = pool.index(target);
        let ghost p2 = pool.model();
        let ghost np = pool;
        assert(p2 == remove_model(pm, target).0);
        self.pools.insert(coid, pool);
        let ghost m2 = with_pool(m, coid, p2);
        assert(self.pools@ =~= old_pools.insert(coid, np));
        assert(self.model().pools =~= m2.pools);
        assert(self.model().states =~= m2.states);
        assert(self.model() == m2);
        match removed {
            Err(e) => {
                return Err(e);
            },
            Ok(_) => {},
        }
        if Verification::from_code_or_default(verdict) != Verification::Approve {
            return Ok(());
        }
        proof {
            let k = choose|k: int| 0 <= k < pm.not_verified.len() && pm.not_verified[k] == target;
            assert(0 <= pm.not_verified[k] < pm.history.len());
        }
        assert(p2.history == pm.history);
        let h = verified.unwrap();
        assert(h.deep_view() == p2.history[target as int]);
        assert(pool_wf(pm));
        assert(pm.history[target as int].message is Some);
        let em = match h.message {
            Some(em) => em,
            None => {
                assert(false);
                return Err(CompError::UnexpectedVerifiedMessage);
            },
        };
        assert(em.deep_view().message is Some);
        let vote = match em.message {
            Some(Message::VoteMessage(v)) => v,
            _ => {
                return Err(CompError::UnexpectedVerifiedMessage);
            },
        };
        let author = match em.author {
            Some(a) => a,
            None => {
                return Err(CompError::UnexpectedVerifiedMessage);
            },
        };
        match self.states.remove(&coid) {
            None => {
                assert(self.states@ =~= old_states);
                Err(CompError::StateNotStarted)
            },
            Some(mut state) => {
                assert(state == old_states[coid]);
                let r = state.try_to_add_vote(author.uid, author.uid, target, vote);
                let ghost ns = state;
                self.states.insert(coid, state);
                assert(self.states@ =~= old_states.insert(coid, ns));
                assert(self.model().pools =~= m2.pools);
                assert(self.model().states =~= m2.states.insert(coid, ns.deep_view()));
                proof {
                    if r is Err {
                        assert(m2.states.insert(coid, ns.deep_view()) =~= m2.states);
                    }
                }
                match r {
                    Ok(_) => Ok(()),
                    Err(e) => Err(e),
                }
            },
        }
    }

    fn handle(&mut self, coid: i32, uid: i32, msg: &Message) -> (r: Result<(), CompError>)
        requires
            old(self).wf(),
            old(self).model().pools.contains_key(coid),
        ensures
            final(self).wf(),
            (final(self).model(), r) == handle(old(self).model(), coid, uid, msg.deep_view()),
            forall|k: i32| #[trigger] final(self).subscribers(k) == old(self).subscribers(k),
            final(self).model().pools.contains_key(coid),
    {
        let ghost m = self.model();
        let ghost old_states = self.states@;
        match msg {
            Message::VoteMessage(v) => match self.states.get(&coid) {
                None => Err(CompError::StateNotStarted),
                Some(st) => {
                    assert(st.deep_view() == m.states[coid]);
                    st.able_to_add_vote(uid, v)
                },
            },
            Message::VerifyMessage(vm) => self.apply_verdict(coid, vm.target_message_id, vm.verdict),
            Message::FixVoting(f) => match self.states.remove(&coid) {
                None => {
                    assert(self.states@ =~= old_states);
                    Err(CompError::StateNotFound)
                },
                Some(mut st) => {
                    assert(st == old_states[coid]);
                    let r = st.try_finish_action(f.queue_id, Verification::from_code_or_default(f.verdict));
                    let ghost ns = st;
                    self.states.insert(coid, st);
                    assert(self.states@ =~= old_states.insert(coid, ns));
                    assert(self.model().pools =~= m.pools);
                    assert(self.model().states =~= m.states.insert(coid, ns.deep_view()));
                    match r {
                        Ok(_) => Ok(()),
                        Err(e) => Err(e),
                    }
                },
            },
            Message::TryNext(n) => match self.states.remove(&coid) {
                None => {
                    assert(self.states@ =~= old_states);
                    Err(CompError::StateNotFound)
                },
                Some(mut st) => {
                    assert(st == old_states[coid]);
                    let r = st.try_next_action(n.queue_id);
                    let ghost ns = st;
                    self.states.insert(coid, st);
                    assert(self.states@ =~= old_states.insert(coid, ns));
                    assert(self.model().pools =~= m.pools);
                    assert(self.model().states =~= m.states.insert(coid, ns.deep_view()));
                    r
                },
            },
            _ => Err(CompError::UnsupportedMessage),
        }
    }

    /// Whether message `req` would pass every check of `push_eq_message` and
    /// reach the judging state.
    pub fn reaches_handling(
        &self,
        req: &EqMessage,
        perms: &Vec<(i32, Vec<Permissions>)>,
        org: i32,
        status: i32,
        scheme_code: i32,
    ) -> (r: bool)
        requires
            self.wf(),
        ensures
            r == reaches_handling(self.model(), req.deep_view(), perms.deep_view(), org, status, scheme_code),
    {
        let msg = match &req.message {
            None => {
                return false;
            },
            Some(x) => x,
        };
        let running = match CompStatus::try_from_code(status) {
            Some(CompStatus::Running) => true,
            _ => false,
        };
        if !running {
            return false;
        }
        let scheme = match JudgeScheme::try_from_code(scheme_code) {
            None => {
                return false;
            },
            Some(s) => s,
        };
        let held = PermissionComparator(competition_perms(perms, org, req.comp_id, false));
        if !message_permitted(&held, req.comp_id, scheme, msg) {
            return false;
        }
        self.pools.contains_key(&req.comp_id)
    }

    /// Takes message `req` from user `uid`, who holds `perms`, for a
    /// competition of organisation `org` whose stored status is `status` and
    /// scheme number `scheme_code`: checks that the competition runs, that
    /// the permissions allow the message, and that the judging state takes
    /// it; applies it; and stores it in the event queue. Returns its id.
    pub fn push_eq_message(
        &mut self,
        req: EqMessage,
        uid: i32,
        perms: &Vec<(i32, Vec<Permissions>)>,
        org: i32,
        status: i32,
        scheme_code: i32,
    ) -> (r: Result<i32, CompError>)
        requires
            old(self).wf(),
            req.message matches Some(Message::Block(_)) ==> !reaches_handling(
                old(self).model(),
                req.deep_view(),
                perms.deep_view(),
                org,
                status,
                scheme_code,
            ),
        ensures
            final(self).wf(),
            (final(self).model(), r) == push_model(
                old(self).model(),
                req.deep_view(),
                uid,
                perms.deep_view(),
                org,
                status,
                scheme_code,
            ),
            forall|k: i32| #[trigger] final(self).subscribers(k) == old(self).subscribers(k),
    {
        let ghost m = self.model();
        let ghost rq = req.deep_view();
        let coid = req.comp_id;
        let msg = match &req.message {
            None => {
                return Err(CompError::NoMessageInRequest);
            },
            Some(x) => x,
        };
        match CompStatus::try_from_code(status) {
            Some(CompStatus::Declaration) | Some(CompStatus::Registration) => {
                return Err(CompError::NotRunnedYet);
            },
            Some(CompStatus::Waiting) => {
                return Err(CompError::Waiting);
            },
            Some(CompStatus::Running) => {},
            Some(CompStatus::Completed) => {
                return Err(CompError::AlreadyCompleted);
            },
            _ => {
                return Err(CompError::StatusUnknown);
            },
        }
        let scheme = match JudgeScheme::try_from_code(scheme_code) {
            None => {
                return Err(CompError::SchemeMismatch);
            },
            Some(s) => s,
        };
        let held = PermissionComparator(competition_perms(perms, org, coid, false));
        if !message_permitted(&held, coid, scheme, msg) {
            return Err(CompError::PermissionDenied);
        }
        if !self.pools.contains_key(&coid) {
            return Err(CompError::NotStarted);
        }
        let done = self.handle(coid, uid, msg);
        let ghost mid = *self;
        match done {
            Err(e) => {
                return Err(e);
            },
            Ok(()) => {},
        }
        let ghost m2 = self.model();
        let ghost pools2 = self.pools@;
        let mut pool = self.pools.remove(&coid).unwrap();
        assert(pool == pools2[coid]);
        if pool.last_id() >= i32::MAX - 1 {
            self.pools.insert(coid, pool);
            assert(self.pools@ =~= pools2);
            assert forall|k: i32| #[trigger] self.subscribers(k) == old(self).subscribers(k) by {
                assert(self.subscribers(k) == mid.subscribers(k));
            }
            return Err(CompError::HistoryFull);
        }
        let sent = pool.send(req);
        let ghost p3 = pool.model();
        let ghost np = pool;
        self.pools.insert(coid, pool);
        assert(self.pools@ =~= pools2.insert(coid, np));
        assert(self.model().pools =~= m2.pools.insert(coid, p3));
        assert forall|k: i32| #[trigger] self.subscribers(k) == old(self).subscribers(k) by {
            assert(mid.subscribers(k) == old(self).subscribers(k));
        }
        assert(self.model().states =~= m2.states);
        match sent {
            Ok(id) => Ok(id as i32),
            Err(e) => Err(e),
        }
    }

    /// The event queue of competition `coid`, if it runs.
    pub fn pool(&self, coid: i32) -> (r: Option<&MessagePool<S>>)
        ensures
            match r {
                Some(p) => self.model().pools.contains_key(coid) && p.model() == self.model().pools[coid]
                    && p.subscribers() == self.subscribers(coid),
                None => !self.model().pools.contains_key(coid),
            },
    {
        self.pools.get(&coid)
    }

    /// The judging state of competition `coid`, if it runs.
    pub fn state(&self, coid: i32) -> (r: Option<&CompState>)
        ensures
            match r {
                Some(s) => self.model().states.contains_key(coid) && s.deep_view()
                    == self.model().states[coid],
                None => !self.model().states.contains_key(coid),
            },
    {
        self.states.get(&coid)
    }

    /// Drops the subscribers of competition `coid` at the given positions:
    /// those whose channel has closed.
    pub fn drop_senders(&mut self, coid: i32, failed: &Vec<usize>)
        requires
            old(self).wf(),
            old(self).model().pools.contains_key(coid) ==> crate::message_pool::increasing_below(
                failed@,
                old(self).subscribers(coid).len() as int,
            ),
        ensures
            final(self).wf(),
            final(self).model() == old(self).model(),
            old(self).model().pools.contains_key(coid) ==> final(self).subscribers(coid)
                == crate::message_pool::without_positions(old(self).subscribers(coid), failed@),
            forall|k: i32| k != coid ==> #[trigger] final(self).subscribers(k) == old(self).subscribers(k),
    {
        let ghost m = self.model();
        let ghost old_pools = self.pools@;
        match self.pools.remove(&coid) {
            None => {
                assert(self.pools@ =~= old_pools);
            },
            Some(mut pool) => {
                assert(pool == old_pools[coid]);
                pool.drop_senders(failed);
                let ghost np = pool;
                self.pools.insert(coid, pool);
                assert(self.pools@ =~= old_pools.insert(coid, np));
                assert(self.model().pools =~= m.pools);
                assert(self.model().states =~= m.states);
            },
        }
    }
}

} // verus!
