//! The abstract state machine of a running competition.
//!
//! A running competition has, for every queue, the list of nominations still
//! to perform (each with its own order of teams), the marks of the action that
//! the queue judges at the moment, and the marks of the actions already
//! approved, grouped by nomination.
use vstd::prelude::*;

use crate::errors::CompError;
use crate::marks::{all_marked, cleaned, MarkModel, MarksModel};
use crate::proto::{
    ActiveActionModel,    CompetitionQueueModel, JudgeScheme, NominationDeclarationModel, Verification,
    VoteMessageModel, VoteView,
};
use crate::scheme::{group_id, group_name, verification_code};

verus! {

/// Marks of the approved actions of one nomination, under its title.
pub type ReadyEntry = (Seq<char>, Seq<MarksModel>);

pub struct DeclarationModel {
    pub title: Seq<char>,
    pub public: bool,
    pub related_organisation_id: i32,
    pub descr: Option<Seq<char>>,
    pub scheme: JudgeScheme,
    pub queues: Seq<CompetitionQueueModel>,
    pub ready_queues: Seq<Seq<ReadyEntry>>,
}

pub struct StateModel {
    pub declaration: DeclarationModel,
    pub queues: Seq<MarksModel>,
}

/// The shape that every reachable state has.
pub open spec fn state_wf(s: StateModel) -> bool {
    &&& s.queues.len() == s.declaration.queues.len()
    &&& s.queues.len() == s.declaration.ready_queues.len()
    &&& forall|q: int| 0 <= q < s.queues.len() ==> #[trigger] s.queues[q].mark_groups.len() <= 3
    &&& forall|q: int|
        0 <= q < s.queues.len() && #[trigger] s.queues[q].in_progress
            ==> s.declaration.ready_queues[q].len() > 0
}

pub open spec fn has_queue(s: StateModel, q: int) -> bool {
    0 <= q < s.queues.len()
}

// ---------------------------------------------------------------------------
// Votes
// ---------------------------------------------------------------------------

/// Index of the first empty slot of a group.
pub open spec fn first_free(slots: Seq<Option<MarkModel>>) -> Option<int>
    decreases slots.len(),
{
    if slots.len() == 0 {
        None
    } else if slots[0] is None {
        Some(0)
    } else {
        match first_free(slots.drop_first()) {
            Some(i) => Some(i + 1),
            None => None,
        }
    }
}

pub proof fn lemma_first_free(slots: Seq<Option<MarkModel>>, i: int)
    requires
        0 <= i <= slots.len(),
        forall|j: int| 0 <= j < i ==> #[trigger] slots[j] is Some,
    ensures
        i < slots.len() && slots[i] is None ==> first_free(slots) == Some(i),
        i == slots.len() ==> first_free(slots) is None,
    decreases i,
{
    if i > 0 {
        let rest = slots.drop_first();
        assert forall|j: int| 0 <= j < i - 1 implies #[trigger] rest[j] is Some by {
            assert(slots[j + 1] is Some);
        }
        lemma_first_free(rest, i - 1);
    }
}

pub proof fn lemma_first_free_is_free(slots: Seq<Option<MarkModel>>)
    ensures
        first_free(slots) matches Some(i) ==> 0 <= i < slots.len() && slots[i] is None,
    decreases slots.len(),
{
    if slots.len() > 0 && slots[0] is Some {
        lemma_first_free_is_free(slots.drop_first());
    }
}

/// Whether a vote of `author` on the action `action` of queue `q` may be
/// taken: the queue exists, judges that action, and `author` has not voted.
pub open spec fn able(s: StateModel, author: i32, q: i32, action: i32) -> Result<(), CompError> {
    if !has_queue(s, q as int) {
        Err(CompError::QueueNotFound)
    } else {
        let m = s.queues[q as int];
        if m.active_action == action && m.in_progress && !m.voted_users.contains(author) {
            Ok(())
        } else {
            Err(CompError::VoteRejected)
        }
    }
}

/// Records a vote: the first empty slot of the vote's group receives it, and
/// `vote_author` counts as having voted.
pub open spec fn add_vote(
    s: StateModel,
    author: i32,
    vote_author: i32,
    message_id: i32,
    vote: VoteMessageModel,
) -> Result<StateModel, CompError> {
    match group_id(vote.mark_type) {
        None => Err(CompError::InvalidMarkType),
        Some(g) => {
            let q = vote.queue_id as int;
            if !has_queue(s, q) {
                Err(CompError::QueueNotFound)
            } else {
                let m = s.queues[q];
                if !(m.in_progress && !m.voted_users.contains(author)) {
                    Err(CompError::VotingBlocked)
                } else if m.active_action != vote.action_id {
                    Err(CompError::InvalidActionId)
                } else if g as int >= m.mark_groups.len() {
                    Err(CompError::MarkGroupMissing)
                } else {
                    match first_free(m.mark_groups[g as int]) {
                        None => Err(CompError::VotingFull),
                        Some(slot) => {
                            let group = m.mark_groups[g as int].update(
                                slot,
                                Some((message_id, vote, vote_author)),
                            );
                            let m2 = MarksModel {
                                mark_groups: m.mark_groups.update(g as int, group),
                                voted_users: m.voted_users.push(vote_author),
                                ..m
                            };
                            Ok(StateModel { queues: s.queues.update(q, m2), ..s })
                        },
                    }
                }
            }
        },
    }
}

/// Sets the fines of the action that queue `q` judges.
pub open spec fn set_fines(s: StateModel, q: i32, action: i32, fines: Seq<i32>) -> Result<
    StateModel,
    CompError,
> {
    if !has_queue(s, q as int) {
        Err(CompError::QueueNotFound)
    } else {
        let m = s.queues[q as int];
        if !m.in_progress {
            Err(CompError::VotingBlocked)
        } else if m.active_action != action {
            Err(CompError::InvalidActionId)
        } else {
            Ok(StateModel { queues: s.queues.update(q as int, MarksModel { fines, ..m }), ..s })
        }
    }
}

// ---------------------------------------------------------------------------
// Moving to the next action
// ---------------------------------------------------------------------------

/// The ready list after a nomination with this title has been reached: a new
/// entry unless the last entry has the same title.
pub open spec fn note_title(redq: Seq<ReadyEntry>, title: Seq<char>) -> Seq<ReadyEntry> {
    if redq.len() == 0 || redq.last().0 != title {
        redq.push((title, Seq::empty()))
    } else {
        redq
    }
}

/// Drops the nominations whose teams have all performed, noting the title of
/// each nomination reached. Stops at the first nomination with a team left.
pub open spec fn seek(noms: Seq<NominationDeclarationModel>, redq: Seq<ReadyEntry>) -> (
    Seq<NominationDeclarationModel>,
    Seq<ReadyEntry>,
)
    decreases noms.len(),
{
    if noms.len() == 0 {
        (noms, redq)
    } else {
        let redq2 = note_title(redq, noms[0].title);
        if noms[0].inner_queue.len() > 0 {
            (noms, redq2)
        } else {
            seek(noms.drop_first(), redq2)
        }
    }
}

pub proof fn lemma_seek(noms: Seq<NominationDeclarationModel>, redq: Seq<ReadyEntry>)
    ensures
        seek(noms, redq).0.len() > 0 ==> seek(noms, redq).0[0].inner_queue.len() > 0,
        seek(noms, redq).0.len() <= noms.len(),
        seek(noms, redq).1.len() >= redq.len(),
        noms.len() > 0 ==> seek(noms, redq).1.len() > 0,
        seek(noms, redq).0.len() > 0 ==> seek(noms, redq).1.last().0 == seek(noms, redq).0[0].title,
    decreases noms.len(),
{
    if noms.len() > 0 && noms[0].inner_queue.len() == 0 {
        lemma_seek(noms.drop_first(), note_title(redq, noms[0].title));
    }
}

/// Starts judging the next team of queue `q`.
pub open spec fn next_action(s: StateModel, q: i32) -> (StateModel, Result<(), CompError>) {
    if !has_queue(s, q as int) {
        (s, Err(CompError::QueueNotFound))
    } else if s.queues[q as int].in_progress {
        (s, Err(CompError::VotingInProgress))
    } else {
        let dq = s.declaration.queues[q as int];
        let sought = seek(dq.nomination_list, s.declaration.ready_queues[q as int]);
        let noms = sought.0;
        let decl = DeclarationModel {
            queues: s.declaration.queues.update(
                q as int,
                CompetitionQueueModel { nomination_list: noms, ..dq },
            ),
            ready_queues: s.declaration.ready_queues.update(q as int, sought.1),
            ..s.declaration
        };
        let s1 = StateModel { declaration: decl, ..s };
        if noms.len() == 0 {
            (s1, Err(CompError::QueueEmpty))
        } else {
            let aid = noms[0].inner_queue[0];
            if !noms[0].teams.contains_key(aid) {
                (s1, Err(CompError::DataCorrupted))
            } else {
                let m = s.queues[q as int];
                let m2 = cleaned(
                    MarksModel {
                        in_progress: true,
                        active_action: aid,
                        team: Some(noms[0].teams[aid]),
                        ..m
                    },
                    s.declaration.scheme,
                );
                (StateModel { queues: s.queues.update(q as int, m2), ..s1 }, Ok(()))
            }
        }
    }
}

// ---------------------------------------------------------------------------
// Finishing an action
// ---------------------------------------------------------------------------

/// Records approved marks: the head team of the first nomination leaves the
/// order of performances, and the marks join the last ready entry.
pub open spec fn record(d: DeclarationModel, q: int, marks: MarksModel) -> DeclarationModel {
    let dq = d.queues[q];
    let nom = dq.nomination_list[0];
    let nom2 = NominationDeclarationModel { inner_queue: nom.inner_queue.drop_first(), ..nom };
    let dq2 = CompetitionQueueModel { nomination_list: dq.nomination_list.update(0, nom2), ..dq };
    let rq = d.ready_queues[q];
    let last = rq.last();
    let rq2 = rq.update(rq.len() - 1, (last.0, last.1.push(marks)));
    DeclarationModel { queues: d.queues.update(q, dq2), ready_queues: d.ready_queues.update(q, rq2), ..d }
}

/// Closes the voting on the action that queue `q` judges. An approved action
/// must have every slot marked; it leaves the order and its marks are kept.
/// A blocked action stays first in the order. Either way the queue is idle
/// afterwards and the closed marks are returned.
pub open spec fn finish_action(s: StateModel, q: i32, verdict: Verification) -> (
    StateModel,
    Result<MarksModel, CompError>,
) {
    if verdict == Verification::NotChecked {
        (s, Err(CompError::InvalidVerdict))
    } else if !has_queue(s, q as int) {
        (s, Err(CompError::QueueNotFound))
    } else if !s.queues[q as int].in_progress {
        (s, Err(CompError::NoActiveAction))
    } else if q as int >= s.declaration.queues.len() {
        (s, Err(CompError::InvalidQueueId))
    } else {
        let noms = s.declaration.queues[q as int].nomination_list;
        let m = s.queues[q as int];
        if noms.len() == 0 {
            (s, Err(CompError::NominationQueueMissing))
        } else if noms[0].inner_queue.len() == 0 {
            (s, Err(CompError::ActiveActionMissing))
        } else if m.active_action != noms[0].inner_queue[0] {
            (s, Err(CompError::ActiveActionMismatch))
        } else if verdict == Verification::Approve && !all_marked(m.mark_groups) {
            (s, Err(CompError::NotFinished))
        } else {
            let ret = MarksModel { in_progress: false, ..m };
            let decl = if verdict == Verification::Approve {
                record(s.declaration, q as int, ret)
            } else {
                s.declaration
            };
            let m2 = cleaned(MarksModel { active_action: -1i32, team: None, ..ret }, s.declaration.scheme);
            (StateModel { declaration: decl, queues: s.queues.update(q as int, m2) }, Ok(ret))
        }
    }
}

// ---------------------------------------------------------------------------
// Views of the state
// ---------------------------------------------------------------------------

/// How a slot is shown: an approved mark, or a blocked placeholder.
pub open spec fn vote_view_of(slot: Option<MarkModel>) -> VoteView {
    match slot {
        Some(mk) => VoteView {
            message_id: mk.0,
            verifyed: verification_code(Verification::Approve),
            mark: mk.1.mark,
        },
        None => VoteView {
            message_id: -1i32,
            verifyed: verification_code(Verification::Block),
            mark: 0i32,
        },
    }
}

pub open spec fn group_view(slots: Seq<Option<MarkModel>>) -> Seq<VoteView> {
    Seq::new(slots.len(), |i: int| vote_view_of(slots[i]))
}

/// The named vote lists of an action, one per group.
pub open spec fn marks_view(groups: Seq<Seq<Option<MarkModel>>>) -> Seq<(Seq<char>, Seq<VoteView>)> {
    Seq::new(groups.len(), |g: int| (group_name(g).unwrap(), group_view(groups[g])))
}

/// The action that queue `qid` judges, with its marks so far, unless the
/// queue does not exist or judges nothing.
pub open spec fn active_state(s: StateModel, qid: int) -> Option<ActiveActionModel> {
    if !has_queue(s, qid) || s.queues[qid].active_action == -1 {
        None
    } else {
        let m = s.queues[qid];
        Some(
            ActiveActionModel {
                qid: qid as i32,
                aid: m.active_action,
                team: m.team,
                marks: marks_view(m.mark_groups),
            },
        )
    }
}

/// Whether `author` has voted on the action that queue `q` judges.
pub open spec fn has_voted(s: StateModel, author: i32, q: i32) -> bool {
    has_queue(s, q as int) && s.queues[q as int].voted_users.contains(author)
}

/// Whether any queue is judging an action.
pub open spec fn any_in_progress(s: StateModel) -> bool {
    exists|q: int| 0 <= q < s.queues.len() && #[trigger] s.queues[q].in_progress
}

// ---------------------------------------------------------------------------
// Collecting the results
// ---------------------------------------------------------------------------

/// Position of the entry with the given title.
pub open spec fn title_index(entries: Seq<ReadyEntry>, title: Seq<char>) -> Option<int>
    decreases entries.len(),
{
    if entries.len() == 0 {
        None
    } else if entries.last().0 == title {
        Some(entries.len() - 1)
    } else {
        title_index(entries.drop_last(), title)
    }
}

/// The ready entries with one entry per title: a later entry replaces the
/// marks of an earlier entry with the same title, in the earlier one's place.
pub open spec fn merge_titles(entries: Seq<ReadyEntry>) -> Seq<ReadyEntry>
    decreases entries.len(),
{
    if entries.len() == 0 {
        Seq::empty()
    } else {
        let acc = merge_titles(entries.drop_last());
        let e = entries.last();
        match title_index(acc, e.0) {
            Some(i) => acc.update(i, e),
            None => acc.push(e),
        }
    }
}

pub proof fn lemma_title_index(entries: Seq<ReadyEntry>, title: Seq<char>)
    ensures
        title_index(entries, title) matches Some(i) ==> 0 <= i < entries.len() && entries[i].0
            == title,
        title_index(entries, title) is None ==> forall|j: int|
            0 <= j < entries.len() ==> #[trigger] entries[j].0 != title,
    decreases entries.len(),
{
    if entries.len() > 0 && entries.last().0 != title {
        lemma_title_index(entries.drop_last(), title);
        let rest = entries.drop_last();
        if title_index(entries, title) is None {
            assert forall|j: int| 0 <= j < entries.len() implies #[trigger] entries[j].0 != title by {
                if j < entries.len() - 1 {
                    assert(rest[j] == entries[j]);
                }
            }
        }
    }
}

/// Merged titles are distinct.
pub open spec fn titles_distinct(entries: Seq<ReadyEntry>) -> bool {
    forall|i: int, j: int|
        0 <= i < entries.len() && 0 <= j < entries.len() && i != j ==> #[trigger] entries[i].0
            != #[trigger] entries[j].0
}

/// Every title of a merged list is distinct, and every title met appears.
pub proof fn lemma_merge_titles(entries: Seq<ReadyEntry>)
    ensures
        titles_distinct(merge_titles(entries)),
        merge_titles(entries).len() <= entries.len(),
        forall|i: int|
            0 <= i < entries.len() ==> exists|j: int|
                0 <= j < merge_titles(entries).len() && #[trigger] merge_titles(entries)[j].0
                    == #[trigger] entries[i].0,
    decreases entries.len(),
{
    if entries.len() > 0 {
        let rest = entries.drop_last();
        lemma_merge_titles(rest);
        let acc = merge_titles(rest);
        let e = entries.last();
        lemma_title_index(acc, e.0);
        let m = merge_titles(entries);
        match title_index(acc, e.0) {
            Some(k) => {
                assert forall|i: int| 0 <= i < entries.len() implies exists|j: int|
                    0 <= j < m.len() && #[trigger] m[j].0 == #[trigger] entries[i].0 by {
                    if i < entries.len() - 1 {
                        assert(rest[i] == entries[i]);
                        let j = choose|j: int| 0 <= j < acc.len() && #[trigger] acc[j].0 == rest[i].0;
                        assert(m[j].0 == entries[i].0);
                    } else {
                        assert(m[k].0 == entries[i].0);
                    }
                }
            },
            None => {
                assert forall|i: int| 0 <= i < entries.len() implies exists|j: int|
                    0 <= j < m.len() && #[trigger] m[j].0 == #[trigger] entries[i].0 by {
                    if i < entries.len() - 1 {
                        assert(rest[i] == entries[i]);
                        let j = choose|j: int| 0 <= j < acc.len() && #[trigger] acc[j].0 == rest[i].0;
                        assert(m[j].0 == entries[i].0);
                    } else {
                        assert(m[acc.len() as int].0 == entries[i].0);
                    }
                }
            },
        }
    }
}

/// The results of every queue: for each queue, its ready entries merged by
/// title. Refused while an action is being judged.
pub open spec fn collect(s: StateModel) -> Result<Seq<Seq<ReadyEntry>>, CompError> {
    if any_in_progress(s) {
        Err(CompError::ActionsNotFinished)
    } else {
        Ok(
            Seq::new(
                s.declaration.ready_queues.len(),
                |q: int| merge_titles(s.declaration.ready_queues[q]),
            ),
        )
    }
}

} // verus!
