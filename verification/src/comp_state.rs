//! The state of a running competition.
use vstd::prelude::*;

use crate::comp_model::{
    lemma_title_index, active_state, record, able, add_vote, any_in_progress, collect, finish_action, first_free, group_view, has_voted,
    lemma_first_free, lemma_first_free_is_free, lemma_seek, marks_view, merge_titles, next_action,
    note_title, seek, set_fines, state_wf, title_index, DeclarationModel,
    ReadyEntry, StateModel,
};
use crate::errors::CompError;
use crate::marks::{blank_marks, Mark, MarksModel, NominationMarks};
use crate::proto::{
    ActiveActionState, CompDeclaration, CompetitionQueue, FinesSetup, JudgeScheme,
    NominationDeclaration, Verification, VoteList, VoteMessage, VoteView,
};
use crate::replicate::Replicate;
use crate::scheme::{group_name, scheme_from_code};

verus! {

broadcast use vstd::std_specs::hash::group_hash_axioms;

/// The declaration of a competition while it runs, with the marks of the
/// actions approved so far.
#[derive(Debug)]
pub struct OnRunnedCompDeclaration {
    title: String,
    public: bool,
    related_organisation_id: i32,
    descr: Option<String>,
    scheme: JudgeScheme,
    queues: Vec<CompetitionQueue>,
    ready_queues: Vec<Vec<(String, Vec<NominationMarks>)>>,
}

impl DeepView for OnRunnedCompDeclaration {
    type V = DeclarationModel;

    closed spec fn deep_view(&self) -> DeclarationModel {
        DeclarationModel {
            title: self.title@,
            public: self.public,
            related_organisation_id: self.related_organisation_id,
            descr: self.descr.deep_view(),
            scheme: self.scheme,
            queues: self.queues.deep_view(),
            ready_queues: self.ready_queues.deep_view(),
        }
    }
}

/// The scheme that a declaration names; an unknown number reads as the
/// default scheme.
pub open spec fn declared_scheme(code: i32) -> JudgeScheme {
    match scheme_from_code(code) {
        Some(s) => s,
        None => JudgeScheme::FourFourOne,
    }
}

/// A declaration that has just started: nothing approved yet in any queue.
pub open spec fn started(declaration: CompDeclaration) -> DeclarationModel {
    DeclarationModel {
        title: declaration.title@,
        public: declaration.public,
        related_organisation_id: declaration.related_organisation_id,
        descr: declaration.descr.deep_view(),
        scheme: declared_scheme(declaration.scheme),
        queues: declaration.queues.deep_view(),
        ready_queues: Seq::new(declaration.queues@.len(), |i: int| Seq::<ReadyEntry>::empty()),
    }
}

impl OnRunnedCompDeclaration {
    /// Starts a declaration: nothing approved yet in any queue.
    pub fn from(declaration: CompDeclaration) -> (r: Self)
        ensures
            r.deep_view() == started(declaration),
    {
        let n = declaration.queues.len();
        let mut ready: Vec<Vec<(String, Vec<NominationMarks>)>> = Vec::new();
        while ready.len() < n
            invariant
                ready@.len() <= n,
                forall|i: int| 0 <= i < ready@.len() ==> #[trigger] ready@[i]@.len() == 0,
            decreases n - ready@.len(),
        {
            ready.push(Vec::new());
        }
        let r = OnRunnedCompDeclaration {
            title: declaration.title,
            public: declaration.public,
            related_organisation_id: declaration.related_organisation_id,
            scheme: JudgeScheme::from_code_or_default(declaration.scheme),
            descr: declaration.descr,
            queues: declaration.queues,
            ready_queues: ready,
        };
        assert forall|i: int| 0 <= i < n implies #[trigger] r.ready_queues.deep_view()[i]
            =~= Seq::<ReadyEntry>::empty() by {
            assert(r.ready_queues@[i]@.len() == 0);
        }
        assert(r.ready_queues.deep_view() =~= Seq::new(n as nat, |i: int| Seq::<ReadyEntry>::empty()));
        r
    }
}

/// A running competition: its declaration and, per queue, the marks of the
/// action being judged.
#[derive(Debug)]
pub struct CompState {
    declaration: OnRunnedCompDeclaration,
    queues: Vec<NominationMarks>,
}

impl DeepView for CompState {
    type V = StateModel;

    closed spec fn deep_view(&self) -> StateModel {
        StateModel { declaration: self.declaration.deep_view(), queues: self.queues.deep_view() }
    }
}

impl CompState {
    /// The shape that every state the library builds has.
    pub open spec fn wf(&self) -> bool {
        state_wf(self.deep_view())
    }

    /// A competition that has just started: no voting is in progress on any
    /// queue, no team is set, and each queue's action number reads 0 (so
    /// `get_queue_active_action` reports action 0, with no team and no
    /// marks, until the first action is taken).
    pub fn new_clean(declaration: CompDeclaration) -> (r: Self)
        ensures
            r.wf(),
            r.deep_view().declaration == started(declaration),
            r.deep_view().queues == Seq::new(declaration.queues@.len(), |i: int| blank_marks()),
    {
        let n = declaration.queues.len();
        let mut queues: Vec<NominationMarks> = Vec::new();
        while queues.len() < n
            invariant
                queues@.len() <= n,
                forall|i: int| 0 <= i < queues@.len() ==> #[trigger] queues@[i].deep_view() == blank_marks(),
            decreases n - queues@.len(),
        {
            queues.push(NominationMarks::blank());
        }
        let r = CompState { declaration: OnRunnedCompDeclaration::from(declaration), queues };
        assert(r.queues.deep_view() =~= Seq::new(n as nat, |i: int| blank_marks()));
        r
    }

    /// The judging scheme of the competition.
    pub fn scheme(&self) -> (r: JudgeScheme)
        ensures
            r == self.deep_view().declaration.scheme,
    {
        self.declaration.scheme
    }

    /// The number of queues.
    pub fn queue_count(&self) -> (r: usize)
        ensures
            r == self.deep_view().queues.len(),
    {
        self.queues.len()
    }

    /// Whether `author` has voted on the action that queue `quid` judges.
    pub fn voted(&self, author: i32, quid: i32) -> (r: bool)
        ensures
            r == has_voted(self.deep_view(), author, quid),
    {
        if quid < 0 || quid as usize >= self.queues.len() {
            return false;
        }
        contains_i32(&self.queues[quid as usize].voted_users, author)
    }

    /// Records the vote that message `vote_mess_id` carries, when `author` may
    /// vote on the action that the vote's queue judges and its group has an
    /// empty slot; refused otherwise, with the state unchanged.
    pub fn try_to_add_vote(
        &mut self,
        author: i32,
        vote_author: i32,
        vote_mess_id: i32,
        vote: VoteMessage,
    ) -> (r: Result<(), CompError>)
        requires
            old(self).wf(),
        ensures
            final(self).wf(),
            match add_vote(old(self).deep_view(), author, vote_author, vote_mess_id, vote.deep_view()) {
                Ok(ns) => r is Ok && final(self).deep_view() == ns,
                Err(e) => r == Err::<(), CompError>(e) && final(self).deep_view() == old(self).deep_view(),
            },
    {
        let ghost old_dv = self.deep_view();
        let ghost vdv = vote.deep_view();
        let g = match self.declaration.scheme.get_judgement_group_id(vote.mark_type.clone()) {
            Ok(g) => g,
            Err(_) => {
                return Err(CompError::InvalidMarkType);
            },
        };
        let q = vote.queue_id;
        if q < 0 || q as usize >= self.queues.len() {
            return Err(CompError::QueueNotFound);
        }
        let qi = q as usize;
        if !(self.queues[qi].in_progress && !contains_i32(&self.queues[qi].voted_users, author)) {
            return Err(CompError::VotingBlocked);
        }
        if self.queues[qi].active_action != vote.action_id {
            return Err(CompError::InvalidActionId);
        }
        let gi = g as usize;
        if gi >= self.queues[qi].mark_groups.len() {
            return Err(CompError::MarkGroupMissing);
        }
        let slot = first_free_slot(&self.queues[qi].mark_groups[gi]);
        match slot {
            None => Err(CompError::VotingFull),
            Some(si) => {
                proof {
                    lemma_first_free_is_free(old_dv.queues[qi as int].mark_groups[gi as int]);
                }
                let ghost old_m = self.queues@[qi as int];
                let ghost old_group = old_m.mark_groups@[gi as int];
                self.queues[qi].mark_groups[gi].set(si, Some((vote_mess_id, vote, vote_author)));
                self.queues[qi].voted_users.push(vote_author);
                proof {
                    let m = self.queues@[qi as int];
                    let group = m.mark_groups@[gi as int];
                    assert(group.deep_view() =~= old_group.deep_view().update(
                        si as int,
                        Some((vote_mess_id, vdv, vote_author)),
                    ));
                    assert(m.mark_groups.deep_view() =~= old_m.mark_groups.deep_view().update(
                        gi as int,
                        group.deep_view(),
                    ));
                    let ns = add_vote(old_dv, author, vote_author, vote_mess_id, vdv).unwrap();
                    assert(self.queues.deep_view() =~= ns.queues);
                    assert(self.deep_view() == ns);
                }
                Ok(())
            },
        }
    }

    /// Starts judging the next team of queue `qui`: nominations with no team
    /// left are dropped (their titles still reach the ready list), and the
    /// first team left in the order becomes the active action.
    pub fn try_next_action(&mut self, qui: i32) -> (r: Result<(), CompError>)
        requires
            old(self).wf(),
        ensures
            final(self).wf(),
            (final(self).deep_view(), r) == next_action(old(self).deep_view(), qui),
    {
        let ghost old_dv = self.deep_view();
        if qui < 0 || qui as usize >= self.queues.len() {
            return Err(CompError::QueueNotFound);
        }
        let qi = qui as usize;
        if self.queues[qi].in_progress {
            return Err(CompError::VotingInProgress);
        }
        let mut noms: Vec<NominationDeclaration> = Vec::new();
        std::mem::swap(&mut noms, &mut self.declaration.queues[qi].nomination_list);
        let mut redq: Vec<(String, Vec<NominationMarks>)> = Vec::new();
        std::mem::swap(&mut redq, &mut self.declaration.ready_queues[qi]);
        seek_next(&mut noms, &mut redq);
        proof {
            lemma_seek(old_dv.declaration.queues[qi as int].nomination_list, old_dv.declaration.ready_queues[qi as int]);
        }
        std::mem::swap(&mut noms, &mut self.declaration.queues[qi].nomination_list);
        std::mem::swap(&mut redq, &mut self.declaration.ready_queues[qi]);
        let ghost s1 = next_action(old_dv, qui).0;
        proof {
            assert(self.declaration.queues.deep_view() =~= s1.declaration.queues);
            assert(self.declaration.ready_queues.deep_view() =~= s1.declaration.ready_queues);
        }
        if self.declaration.queues[qi].nomination_list.len() == 0 {
            assert(self.deep_view() == s1);
            return Err(CompError::QueueEmpty);
        }
        let aid = self.declaration.queues[qi].nomination_list[0].inner_queue[0];
        let found = self.declaration.queues[qi].nomination_list[0].teams.get(&aid);
        let team = match found {
            None => {
                assert(self.deep_view() == s1);
                return Err(CompError::DataCorrupted);
            },
            Some(t) => t.replicate(),
        };
        let ghost old_m = self.queues@[qi as int];
        self.queues[qi].active_action = aid;
        self.queues[qi].team = Some(team);
        self.queues[qi].in_progress = true;
        let scheme = self.declaration.scheme;
        self.queues[qi].clean_marks_with_scheme(&scheme);
        proof {
            let ns = next_action(old_dv, qui).0;
            assert(self.queues.deep_view() =~= ns.queues);
        }
        Ok(())
    }

    /// Closes the voting on the action that queue `qui` judges, with the
    /// verdict of its supervisor, and returns the closed marks.
    pub fn try_finish_action(&mut self, qui: i32, verdict: Verification) -> (r: Result<
        NominationMarks,
        CompError,
    >)
        requires
            old(self).wf(),
        ensures
            final(self).wf(),
            final(self).deep_view() == finish_action(old(self).deep_view(), qui, verdict).0,
            match finish_action(old(self).deep_view(), qui, verdict).1 {
                Ok(m) => r matches Ok(x) && x.deep_view() == m,
                Err(e) => r matches Err(x) && x == e,
            },
    {
        let ghost old_dv = self.deep_view();
        if verdict == Verification::NotChecked {
            return Err(CompError::InvalidVerdict);
        }
        if qui < 0 || qui as usize >= self.queues.len() {
            return Err(CompError::QueueNotFound);
        }
        let qi = qui as usize;
        if !self.queues[qi].in_progress {
            return Err(CompError::NoActiveAction);
        }
        if qi >= self.declaration.queues.len() {
            return Err(CompError::InvalidQueueId);
        }
        if self.declaration.queues[qi].nomination_list.len() == 0 {
            return Err(CompError::NominationQueueMissing);
        }
        if self.declaration.queues[qi].nomination_list[0].inner_queue.len() == 0 {
            return Err(CompError::ActiveActionMissing);
        }
        if self.queues[qi].active_action != self.declaration.queues[qi].nomination_list[0].inner_queue[0] {
            return Err(CompError::ActiveActionMismatch);
        }
        let approve = verdict == Verification::Approve;
        if approve && !self.queues[qi].ready() {
            return Err(CompError::NotFinished);
        }
        self.queues[qi].in_progress = false;
        let ret = self.queues[qi].replicate();
        let ghost retm = ret.deep_view();
        if approve {
            let ghost old_inner = self.declaration.queues@[qi as int].nomination_list@[0].inner_queue@;
            self.declaration.queues[qi].nomination_list[0].inner_queue.remove(0);
            let last = self.declaration.ready_queues[qi].len() - 1;
            let ghost old_entry = self.declaration.ready_queues@[qi as int]@[last as int];
            self.declaration.ready_queues[qi][last].1.push(ret.replicate());
            proof {
                let d = record(old_dv.declaration, qi as int, retm);
                let dq = self.declaration.queues@[qi as int];
                assert(dq.nomination_list@[0].inner_queue@ =~= old_inner.drop_first());
                assert(dq.nomination_list.deep_view() =~= d.queues[qi as int].nomination_list);
                assert(self.declaration.queues.deep_view() =~= d.queues);
                let entry = self.declaration.ready_queues@[qi as int]@[last as int];
                assert(entry.1.deep_view() =~= old_entry.1.deep_view().push(retm));
                assert(self.declaration.ready_queues@[qi as int].deep_view() =~= d.ready_queues[qi as int]);
                assert(self.declaration.ready_queues.deep_view() =~= d.ready_queues);
            }
        }
        self.queues[qi].active_action = -1;
        self.queues[qi].team = None;
        let scheme = self.declaration.scheme;
        self.queues[qi].clean_marks_with_scheme(&scheme);
        proof {
            let ns = finish_action(old_dv, qui, verdict).0;
            assert(self.queues.deep_view() =~= ns.queues);
        }
        Ok(ret)
    }

    /// The action that queue `qid` judges, with its marks so far.
    pub fn get_queue_active_action(&self, qid: usize) -> (r: Option<ActiveActionState>)
        requires
            self.wf(),
            qid <= i32::MAX,
        ensures
            r.deep_view() == active_state(self.deep_view(), qid as int),
    {
        let quid = qid as i32;
        if qid >= self.queues.len() {
            return None;
        }
        let nomination = &self.queues[qid];
        if nomination.active_action == -1 {
            return None;
        }
        let ghost groups = nomination.mark_groups.deep_view();
        let mut marks: Vec<(String, VoteList)> = Vec::new();
        let mut g: usize = 0;
        while g < nomination.mark_groups.len()
            invariant
                groups == nomination.mark_groups.deep_view(),
                groups.len() <= 3,
                g <= groups.len(),
                marks.deep_view() == marks_view(groups).subrange(0, g as int),
            decreases groups.len() - g,
        {
            assert(marks_view(groups).len() == groups.len());
            assert(marks.deep_view().len() == g);
            let name = self.declaration.scheme.get_judgement_group_name(g as i32).unwrap();
            let slots = &nomination.mark_groups[g];
            let mut votes: Vec<VoteView> = Vec::new();
            let mut i: usize = 0;
            while i < slots.len()
                invariant
                    *slots == nomination.mark_groups@[g as int],
                    groups == nomination.mark_groups.deep_view(),
                    g < groups.len(),
                    i <= slots@.len(),
                    votes@ == group_view(groups[g as int]).subrange(0, i as int),
                decreases slots@.len() - i,
            {
                let v = match &slots[i] {
                    Some(mk) => VoteView { message_id: mk.0, verifyed: Verification::Approve.code(), mark: mk.1.mark },
                    None => VoteView { message_id: -1, verifyed: Verification::Block.code(), mark: 0 },
                };
                proof {
                    assert(groups[g as int][i as int] == slots@[i as int].deep_view());
                }
                votes.push(v);
                assert(votes@ =~= group_view(groups[g as int]).subrange(0, i + 1));
                i = i + 1;
            }
            assert(votes@ =~= group_view(groups[g as int]));
            let ghost before = marks.deep_view();
            let ghost name_v = name@;
            assert(name_v == group_name(g as int).unwrap());
            let ghost votes_v = votes@;
            marks.push((name, VoteList { votes }));
            assert(marks@.len() == g + 1);
            assert(marks@[g as int].0@ == name_v);
            assert(marks@[g as int].1.votes@ == votes_v);
            assert(marks@[g as int].deep_view() == (name_v, votes_v));
            assert(marks.deep_view()[g as int] == marks_view(groups)[g as int]);
            assert(marks.deep_view() =~= marks_view(groups).subrange(0, g + 1));
            g = g + 1;
        }
        assert(marks.deep_view() =~= marks_view(groups));
        Some(ActiveActionState { qid: quid, aid: nomination.active_action, team: nomination.team.replicate(), marks })
    }

    /// The results of every queue, by nomination title; refused while some
    /// queue judges an action.
    pub fn try_collect(&self) -> (r: Result<Vec<(usize, Vec<(String, Vec<NominationMarks>)>)>, CompError>)
        requires
            self.wf(),
        ensures
            match collect(self.deep_view()) {
                Err(e) => r == Err::<Vec<(usize, Vec<(String, Vec<NominationMarks>)>)>, CompError>(e),
                Ok(qs) => r matches Ok(v) && v@.len() == qs.len() && forall|q: int|
                    0 <= q < qs.len() ==> (#[trigger] v@[q]).0 == q && v@[q].1.deep_view() == qs[q],
            },
    {
        let ghost dv = self.deep_view();
        let mut q: usize = 0;
        while q < self.queues.len()
            invariant
                dv == self.deep_view(),
                q <= dv.queues.len(),
                forall|j: int| 0 <= j < q ==> !(#[trigger] dv.queues[j]).in_progress,
            decreases dv.queues.len() - q,
        {
            if self.queues[q].in_progress {
                assert(dv.queues[q as int].in_progress);
                return Err(CompError::ActionsNotFinished);
            }
            q = q + 1;
        }
        assert(!any_in_progress(dv));
        let ghost qs = collect(dv).unwrap();
        let mut resz: Vec<(usize, Vec<(String, Vec<NominationMarks>)>)> = Vec::new();
        let mut k: usize = 0;
        while k < self.declaration.ready_queues.len()
            invariant
                dv == self.deep_view(),
                !any_in_progress(dv),
                qs == collect(dv).unwrap(),
                k <= dv.declaration.ready_queues.len(),
                qs.len() == dv.declaration.ready_queues.len(),
                resz@.len() == k,
                forall|j: int| 0 <= j < k ==> (#[trigger] resz@[j]).0 == j && resz@[j].1.deep_view() == qs[j],
            decreases dv.declaration.ready_queues.len() - k,
        {
            let merged = merge_ready(&self.declaration.ready_queues[k]);
            assert(self.declaration.ready_queues@[k as int].deep_view() == dv.declaration.ready_queues[k as int]);
            assert(qs[k as int] == merge_titles(dv.declaration.ready_queues[k as int]));
            resz.push((k, merged));
            assert(resz@[k as int].1.deep_view() == qs[k as int]);
            k = k + 1;
        }
        Ok(resz)
    }

    /// Sets the fines of the action that the queue judges, when the queue
    /// judges that action; refused otherwise, with the state unchanged.
    pub fn try_to_add_fines(&mut self, fines: FinesSetup) -> (r: Result<(), CompError>)
        requires
            old(self).wf(),
        ensures
            final(self).wf(),
            match set_fines(old(self).deep_view(), fines.queue_id, fines.action_id, fines.fines@) {
                Ok(ns) => r is Ok && final(self).deep_view() == ns,
                Err(e) => r == Err::<(), CompError>(e) && final(self).deep_view() == old(self).deep_view(),
            },
            r is Ok ==> final(self).deep_view().queues[fines.queue_id as int].fines == fines.fines@,
    {
        let ghost old_dv = self.deep_view();
        let q = fines.queue_id;
        if q < 0 || q as usize >= self.queues.len() {
            return Err(CompError::QueueNotFound);
        }
        let qi = q as usize;
        if !self.queues[qi].in_progress {
            return Err(CompError::VotingBlocked);
        }
        if self.queues[qi].active_action != fines.action_id {
            return Err(CompError::InvalidActionId);
        }
        let ghost f = fines.fines@;
        self.queues[qi].fines = fines.fines;
        proof {
            assert(self.queues@[qi as int].fines.deep_view() =~= f);
            let ns = set_fines(old_dv, q, fines.action_id, f).unwrap();
            assert(self.queues.deep_view() =~= ns.queues);
        }
        Ok(())
    }

    /// Whether a vote of `author` may be taken now.
    pub fn able_to_add_vote(&self, author: i32, vote: &VoteMessage) -> (r: Result<(), CompError>)
        ensures
            r == able(self.deep_view(), author, vote.queue_id, vote.action_id),
    {
        if vote.queue_id < 0 || vote.queue_id as usize >= self.queues.len() {
            return Err(CompError::QueueNotFound);
        }
        let nomination = &self.queues[vote.queue_id as usize];
        if nomination.active_action == vote.action_id && nomination.in_progress
            && !contains_i32(&nomination.voted_users, author) {
            Ok(())
        } else {
            Err(CompError::VoteRejected)
        }
    }
}

/// Drops the nominations whose teams have all performed, noting the title of
/// each nomination reached in the ready list.
fn seek_next(
    noms: &mut Vec<NominationDeclaration>,
    redq: &mut Vec<(String, Vec<NominationMarks>)>,
)
    ensures
        (final(noms).deep_view(), final(redq).deep_view()) == seek(
            old(noms).deep_view(),
            old(redq).deep_view(),
        ),
{
    let ghost target = seek(noms.deep_view(), redq.deep_view());
    loop
        invariant
            seek(noms.deep_view(), redq.deep_view()) == target,
        ensures
            (noms.deep_view(), redq.deep_view()) == target,
        decreases noms@.len(),
    {
        let ghost nd = noms.deep_view();
        let ghost rd = redq.deep_view();
        if noms.len() == 0 {
            assert(seek(nd, rd) == (nd, rd));
            break;
        }
        let n = redq.len();
        if n == 0 || !(redq[n - 1].0 == noms[0].title) {
            let entry: (String, Vec<NominationMarks>) = (noms[0].title.clone(), Vec::new());
            redq.push(entry);
            assert(redq@.last().1.deep_view() =~= Seq::<MarksModel>::empty());
            assert(redq.deep_view() =~= rd.push((nd[0].title, Seq::empty())));
        }
        assert(redq.deep_view() == note_title(rd, nd[0].title));
        if noms[0].inner_queue.len() > 0 {
            assert(seek(nd, rd) == (nd, redq.deep_view()));
            break;
        }
        noms.remove(0);
        assert(noms.deep_view() =~= nd.drop_first());
    }
}

/// Position of the entry titled `title`, searching from the end.
fn find_title(acc: &Vec<(String, Vec<NominationMarks>)>, title: &String) -> (r: Option<usize>)
    ensures
        match r {
            Some(i) => title_index(acc.deep_view(), title@) == Some(i as int),
            None => title_index(acc.deep_view(), title@) is None,
        },
{
    let ghost dv = acc.deep_view();
    let mut j: usize = acc.len();
    assert(dv.subrange(0, j as int) =~= dv);
    while j > 0
        invariant
            dv == acc.deep_view(),
            j <= dv.len(),
            title_index(dv, title@) == title_index(dv.subrange(0, j as int), title@),
        decreases j,
    {
        let ghost sub = dv.subrange(0, j as int);
        assert(sub.last() == dv[j - 1]);
        if acc[j - 1].0 == *title {
            return Some(j - 1);
        }
        assert(sub.drop_last() =~= dv.subrange(0, j - 1));
        j = j - 1;
    }
    None
}

/// The entries of a ready list with one entry per title, as `merge_titles`
/// describes.
fn merge_ready(redq: &Vec<(String, Vec<NominationMarks>)>) -> (r: Vec<(String, Vec<NominationMarks>)>)
    ensures
        r.deep_view() == merge_titles(redq.deep_view()),
{
    let ghost dv = redq.deep_view();
    let mut acc: Vec<(String, Vec<NominationMarks>)> = Vec::new();
    let mut k: usize = 0;
    assert(dv.subrange(0, 0) =~= Seq::<ReadyEntry>::empty());
    assert(acc.deep_view() =~= Seq::<ReadyEntry>::empty());
    while k < redq.len()
        invariant
            dv == redq.deep_view(),
            k <= dv.len(),
            acc.deep_view() == merge_titles(dv.subrange(0, k as int)),
        decreases dv.len() - k,
    {
        let ghost sub = dv.subrange(0, k + 1);
        assert(sub.drop_last() =~= dv.subrange(0, k as int));
        assert(sub.last() == dv[k as int]);
        let ghost before = acc.deep_view();
        let entry = redq[k].replicate();
        let found = find_title(&acc, &redq[k].0);
        proof {
            lemma_title_index(before, dv[k as int].0);
        }
        match found {
            Some(i) => {
                acc.set(i, entry);
                assert(acc.deep_view() =~= before.update(i as int, dv[k as int]));
            },
            None => {
                acc.push(entry);
                assert(acc.deep_view() =~= before.push(dv[k as int]));
            },
        }
        k = k + 1;
    }
    assert(dv.subrange(0, k as int) =~= dv);
    acc
}

/// Index of the first empty slot.
fn first_free_slot(slots: &Vec<Option<Mark>>) -> (r: Option<usize>)
    ensures
        match r {
            Some(i) => first_free(slots.deep_view()) == Some(i as int),
            None => first_free(slots.deep_view()) is None,
        },
{
    let ghost dv = slots.deep_view();
    let mut i: usize = 0;
    while i < slots.len()
        invariant
            dv == slots.deep_view(),
            i <= slots@.len(),
            forall|j: int| 0 <= j < i ==> #[trigger] dv[j] is Some,
        decreases slots@.len() - i,
    {
        if slots[i].is_none() {
            proof {
                assert(dv[i as int] is None);
                lemma_first_free(dv, i as int);
            }
            return Some(i);
        }
        assert(dv[i as int] is Some);
        i = i + 1;
    }
    proof {
        lemma_first_free(dv, i as int);
    }
    None
}

/// Whether `v` holds `x`.
pub fn contains_i32(v: &Vec<i32>, x: i32) -> (r: bool)
    ensures
        r == v@.contains(x),
{
    let mut i: usize = 0;
    while i < v.len()
        invariant
            i <= v@.len(),
            forall|j: int| 0 <= j < i ==> v@[j] != x,
        decreases v@.len() - i,
    {
        if v[i] == x {
            assert(v@[i as int] == x);
            return true;
        }
        i = i + 1;
    }
    false
}

/// Turns the marks of an action into scores.
pub struct StateInterpreter {}

} // verus!
