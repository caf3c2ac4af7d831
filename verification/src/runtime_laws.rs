//! Properties of the running competitions that span several calls.
use vstd::prelude::*;

use crate::access::{may_push, org_perms};
use crate::errors::CompError;
use crate::message_pool::remove_model;
use crate::proto::{CompDeclaration, EqHistoryModel, EqMessageModel, MessageModel};
use crate::runtime::{apply_verdict, handle, push_gate, push_model, run_gate, run_model, RuntimeModel};
use crate::comp_laws::law_recorded_vote_keeps_its_message_id;
use crate::proto::{UserViewModel, Verification, VoteMessageModel};
use crate::scheme::verification_from_code;
use crate::scheme::scheme_from_code;
use crate::tokens::PermModel;

verus! {

/// Only a running competition takes messages: in any other status a message
/// is refused and nothing changes.
pub proof fn law_only_running_competitions_take_messages(
    m: RuntimeModel,
    req: EqMessageModel,
    uid: i32,
    perms: Seq<(i32, Seq<PermModel>)>,
    org: i32,
    status: i32,
    scheme_code: i32,
)
    requires
        push_gate(status) is Err,
    ensures
        push_model(m, req, uid, perms, org, status, scheme_code).0 == m,
        push_model(m, req, uid, perms, org, status, scheme_code).1 is Err,
{
}

/// A message that the sender's permissions do not allow is refused as
/// such, and nothing changes.
pub proof fn law_unpermitted_message_changes_nothing(
    m: RuntimeModel,
    req: EqMessageModel,
    uid: i32,
    perms: Seq<(i32, Seq<PermModel>)>,
    org: i32,
    status: i32,
    scheme_code: i32,
)
    requires
        req.message is Some,
        push_gate(status) is Ok,
        scheme_from_code(scheme_code) is Some,
        !may_push(org_perms(perms, org, req.comp_id, false), req.comp_id, req.message.unwrap()),
    ensures
        push_model(m, req, uid, perms, org, status, scheme_code) == (
            m,
            Err::<i32, CompError>(CompError::PermissionDenied),
        ),
{
}

/// Applying a message never changes what the event queue has stored.
proof fn lemma_handle_keeps_history(m: RuntimeModel, coid: i32, uid: i32, msg: MessageModel)
    requires
        m.pools.contains_key(coid),
    ensures
        handle(m, coid, uid, msg).0.pools.contains_key(coid),
        handle(m, coid, uid, msg).0.pools[coid].history == m.pools[coid].history,
{
    match msg {
        MessageModel::VerifyMessage(vm) => {
            let pool = m.pools[coid];
            if pool.not_verified.contains(vm.target_message_id) {
                assert(remove_model(pool, vm.target_message_id).0.history == pool.history);
            }
        },
        _ => {},
    }
}

/// A message that is taken is stored at the end of its competition's event
/// queue, under the id returned, which is the number of messages stored
/// before it.
pub proof fn law_taken_message_is_stored_last(
    m: RuntimeModel,
    req: EqMessageModel,
    uid: i32,
    perms: Seq<(i32, Seq<PermModel>)>,
    org: i32,
    status: i32,
    scheme_code: i32,
)
    requires
        push_model(m, req, uid, perms, org, status, scheme_code).1 is Ok,
    ensures
        ({
            let (m2, r) = push_model(m, req, uid, perms, org, status, scheme_code);
            let id = r->Ok_0;
            &&& m.pools.contains_key(req.comp_id)
            &&& id == m.pools[req.comp_id].history.len()
            &&& m2.pools[req.comp_id].history == m.pools[req.comp_id].history.push(
                EqHistoryModel { message_id: id, message: Some(req) },
            )
        }),
{
    let coid = req.comp_id;
    let msg = req.message.unwrap();
    lemma_handle_keeps_history(m, coid, uid, msg);
}

/// A competition that was started is not started a second time: the second
/// attempt is refused and changes nothing.
pub proof fn law_competition_starts_once(
    m: RuntimeModel,
    coid: i32,
    status: i32,
    d1: CompDeclaration,
    d2: CompDeclaration,
)
    requires
        run_gate(m, coid, status) is Ok,
    ensures
        ({
            let m1 = run_model(m, coid, status, d1).0;
            &&& run_gate(m1, coid, status) == Err::<(), CompError>(CompError::AlreadyRunned)
            &&& run_model(m1, coid, status, d2).0 == m1
        }),
{
}

/// An approving verdict that is taken on the waiting vote stored as message
/// `target` records that vote in the judging state of its queue under the
/// message id `target` (with the vote and its author's id), in a slot that
/// was free; the event queue's history is unchanged.
pub proof fn law_approved_vote_is_recorded_under_its_message_id(
    m: RuntimeModel,
    coid: i32,
    target: i32,
    verdict: i32,
    v: VoteMessageModel,
    a: UserViewModel,
)
    requires
        m.pools.contains_key(coid),
        m.pools[coid].history[target as int].message matches Some(em) && em.message == Some(
            MessageModel::VoteMessage(v),
        ) && em.author == Some(a),
        verification_from_code(verdict) == Some(Verification::Approve),
        apply_verdict(m, coid, target, verdict).1 is Ok,
    ensures
        apply_verdict(m, coid, target, verdict).0.pools[coid].history == m.pools[coid].history,
        apply_verdict(m, coid, target, verdict).0.states.contains_key(coid),
        0 <= v.queue_id < apply_verdict(m, coid, target, verdict).0.states[coid].queues.len(),
        exists|g: int, k: int|
            0 <= g < apply_verdict(m, coid, target, verdict).0.states[coid].queues[v.queue_id as int].mark_groups.len()
            && 0 <= k < apply_verdict(m, coid, target, verdict).0.states[coid].queues[v.queue_id as int].mark_groups[g].len()
            && #[trigger] apply_verdict(m, coid, target, verdict).0.states[coid].queues[v.queue_id as int].mark_groups[g][k]
                == Some((target, v, a.uid))
            && m.states[coid].queues[v.queue_id as int].mark_groups[g][k] is None,
{
    law_recorded_vote_keeps_its_message_id(m.states[coid], a.uid, a.uid, target, v);
}

} // verus!
