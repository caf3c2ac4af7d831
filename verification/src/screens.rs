//! What the competition screens show: the screen a user gets, the verdict a
//! judge sees on a sent mark, the marks grid of a queue, the votes an
//! arbitor may approve at once, and the votes that carry verdict buttons.
use vstd::prelude::*;

use crate::proto::{
    ActiveActionState, EqHistoryMessage, EqHistoryModel, Judge, Message, MessageModel, Role, Verification,
    VoteList, VoteView,
};
use crate::scheme::{group_name, scheme_sizes, verification_from_code};
use crate::proto::JudgeScheme;
use crate::replicate::Replicate;
use crate::views::{is_main_role, last_queue_action, main_role, updates_queue};
use crate::proto::ActiveActionModel;
use crate::proto::{EqMessage, FixVotingMessage, Id, TryNext, UserView, UserViewModel, VerifyVoteMessage};
use crate::scheme::verification_code;

verus! {

/// The verdict that the wire number `code` reads as: an unknown number reads
/// as `NotChecked`.
pub open spec fn verdict_of(code: i32) -> Verification {
    match verification_from_code(code) {
        Some(v) => v,
        None => Verification::NotChecked,
    }
}

/// The votes stored under the group `name`: those of the first entry with
/// that name.
pub open spec fn named_votes(marks: Seq<(Seq<char>, Seq<VoteView>)>, name: Seq<char>) -> Option<Seq<VoteView>>
    decreases marks.len(),
{
    if marks.len() == 0 {
        None
    } else if marks[0].0 == name {
        Some(marks[0].1)
    } else {
        named_votes(marks.drop_first(), name)
    }
}

/// The first vote in `votes` that message `id` cast.
pub open spec fn vote_with_id(votes: Seq<VoteView>, id: i32) -> Option<VoteView>
    decreases votes.len(),
{
    if votes.len() == 0 {
        None
    } else if votes[0].message_id == id {
        Some(votes[0])
    } else {
        vote_with_id(votes.drop_first(), id)
    }
}

/// Where the entry named `name` stands in `marks`, if there is one.
fn find_group(marks: &Vec<(String, VoteList)>, name: &String) -> (r: Option<usize>)
    ensures
        match r {
            Some(i) => i < marks@.len() && named_votes(marks.deep_view(), name@) == Some(
                marks@[i as int].1.deep_view(),
            ),
            None => named_votes(marks.deep_view(), name@) is None,
        },
{
    let ghost mv = marks.deep_view();
    let mut i: usize = 0;
    assert(mv.subrange(0, mv.len() as int) =~= mv);
    while i < marks.len()
        invariant
            i <= marks@.len(),
            mv == marks.deep_view(),
            named_votes(mv, name@) == named_votes(mv.subrange(i as int, mv.len() as int), name@),
        decreases marks@.len() - i,
    {
        let ghost rest = mv.subrange(i as int, mv.len() as int);
        assert(rest[0] == mv[i as int]);
        assert(mv[i as int] == marks@[i as int].deep_view());
        if marks[i].0 == *name {
            return Some(i);
        }
        assert(rest.drop_first() =~= mv.subrange(i + 1, mv.len() as int));
        i = i + 1;
    }
    None
}

/// What a judge sees of a mark that was sent.
#[derive(Clone, Copy, Debug, PartialEq, Eq, Structural)]
pub enum VoteStatus {
    /// The mark awaits its verdict.
    Waiting,
    /// The mark was approved.
    Accepted,
    /// The mark was refused.
    Rejected,
}

/// The status of the mark that message `sent` cast, among `votes`.
pub open spec fn status_among(votes: Seq<VoteView>, sent: i32) -> VoteStatus {
    match vote_with_id(votes, sent) {
        None => VoteStatus::Waiting,
        Some(v) => match verdict_of(v.verifyed) {
            Verification::Approve => VoteStatus::Accepted,
            Verification::Block => VoteStatus::Rejected,
            Verification::NotChecked => VoteStatus::Waiting,
        },
    }
}

/// The status that a judge sees, on a screen of scheme `scheme`, of the mark
/// sent by message `sent`, while `active` is the action of the judge's queue; nothing where no mark was
/// sent or no action runs.
pub fn vote_status(scheme: &JudgeScheme, judge: &Judge, sent: Option<i32>, active: &Option<ActiveActionState>) -> (r: Option<
    VoteStatus,
>)
    requires
        sent is Some && active is Some ==> (group_name(judge.mark_group as int) matches Some(name)
            && named_votes(active.unwrap().deep_view().marks, name) is Some),
    ensures
        match (sent, *active) {
            (Some(s), Some(a)) => r == Some(
                status_among(named_votes(a.deep_view().marks, group_name(judge.mark_group as int).unwrap()).unwrap(), s),
            ),
            _ => r is None,
        },
{
    let (s, a) = match (sent, active) {
        (Some(s), Some(a)) => (s, a),
        _ => {
            return None;
        },
    };
    let name = match scheme.get_judgement_group_name(judge.mark_group) {
        Ok(n) => n,
        Err(_) => {
            return None;
        },
    };
    let k = match find_group(&a.marks, &name) {
        Some(k) => k,
        None => {
            return None;
        },
    };
    let votes = &a.marks[k].1.votes;
    let ghost vv = votes@;
    assert(a.marks@[k as int].1.deep_view() == vv);
    let mut i: usize = 0;
    assert(vv.subrange(0, vv.len() as int) =~= vv);
    while i < votes.len()
        invariant
            i <= vv.len(),
            vv == votes@,
            sent == Some(s),
            *active == Some(*a),
            named_votes(a.deep_view().marks, group_name(judge.mark_group as int).unwrap()) == Some(vv),
            vote_with_id(vv, s) == vote_with_id(vv.subrange(i as int, vv.len() as int), s),
        decreases vv.len() - i,
    {
        let ghost rest = vv.subrange(i as int, vv.len() as int);
        assert(rest[0] == vv[i as int]);
        if votes[i].message_id == s {
            assert(vote_with_id(rest, s) == Some(vv[i as int]));
            let st = match Verification::from_code_or_default(votes[i].verifyed) {
                Verification::Approve => VoteStatus::Accepted,
                Verification::Block => VoteStatus::Rejected,
                Verification::NotChecked => VoteStatus::Waiting,
            };
            return Some(st);
        }
        assert(rest.drop_first() =~= vv.subrange(i + 1, vv.len() as int));
        i = i + 1;
    }
    Some(VoteStatus::Waiting)
}

/// Whether a vote has no verdict yet and is not an empty slot.
pub open spec fn awaits_verdict(v: VoteView) -> bool {
    verdict_of(v.verifyed) == Verification::NotChecked && v.message_id != -1
}

/// The messages of the votes in `votes` that await a verdict, in order.
pub open spec fn awaiting_ids(votes: Seq<VoteView>) -> Seq<i32>
    decreases votes.len(),
{
    if votes.len() == 0 {
        Seq::empty()
    } else {
        let before = awaiting_ids(votes.drop_last());
        if awaits_verdict(votes.last()) {
            before.push(votes.last().message_id)
        } else {
            before
        }
    }
}

/// The messages awaiting a verdict in the first `n` judgement groups of
/// `marks`, group by group.
pub open spec fn awaiting_in_groups(marks: Seq<(Seq<char>, Seq<VoteView>)>, n: nat) -> Seq<i32>
    decreases n,
{
    if n == 0 {
        Seq::empty()
    } else {
        awaiting_in_groups(marks, (n - 1) as nat) + match named_votes(marks, group_name(n - 1).unwrap()) {
            Some(vs) => awaiting_ids(vs),
            None => Seq::empty(),
        }
    }
}

/// The messages whose votes an arbitor approves at once on the screen of
/// scheme `scheme` while `active` runs: in every judgement group of the
/// scheme, the votes that await a verdict.
pub fn unverified_votes(scheme: &JudgeScheme, active: &Option<ActiveActionState>) -> (r: Vec<i32>)
    ensures
        r@ == (match *active {
            Some(a) => awaiting_in_groups(a.deep_view().marks, scheme_sizes(*scheme).len()),
            None => Seq::empty(),
        }),
{
    let mut out: Vec<i32> = Vec::new();
    let a = match active {
        Some(a) => a,
        None => {
            return out;
        },
    };
    let ghost mv = a.deep_view().marks;
    let sizes = scheme.sizes();
    let mut g: usize = 0;
    while g < sizes.len()
        invariant
            g <= sizes@.len(),
            sizes@ == scheme_sizes(*scheme),
            sizes@.len() == 3,
            mv == a.marks.deep_view(),
            out@ == awaiting_in_groups(mv, g as nat),
        decreases sizes@.len() - g,
    {
        let name = match scheme.get_judgement_group_name(g as i32) {
            Ok(n) => n,
            Err(_) => {
                return out;
            },
        };
        let ghost base = out@;
        match find_group(&a.marks, &name) {
            Some(k) => {
                let votes = &a.marks[k].1.votes;
                let ghost vv = votes@;
                assert(a.marks@[k as int].1.deep_view() == vv);
                let mut i: usize = 0;
                assert(vv.subrange(0, 0) =~= Seq::<VoteView>::empty());
                assert(out@ =~= base + awaiting_ids(vv.subrange(0, 0)));
                while i < votes.len()
                    invariant
                        i <= vv.len(),
                        vv == votes@,
                        out@ == base + awaiting_ids(vv.subrange(0, i as int)),
                    decreases vv.len() - i,
                {
                    assert(vv.subrange(0, i + 1).drop_last() =~= vv.subrange(0, i as int));
                    assert(vv.subrange(0, i + 1).last() == vv[i as int]);
                    let v = votes[i];
                    if Verification::from_code_or_default(v.verifyed) == Verification::NotChecked && v.message_id
                        != -1 {
                        out.push(v.message_id);
                        assert(out@ =~= base + awaiting_ids(vv.subrange(0, i + 1)));
                    }
                    i = i + 1;
                }
                assert(vv.subrange(0, vv.len() as int) =~= vv);
            },
            None => {
                assert(out@ =~= base + Seq::<i32>::empty());
            },
        }
        g = g + 1;
    }
    out
}

/// A cell of the marks grid: a mark with its verdict, or an empty slot.
pub open spec fn cell_of(v: VoteView) -> Option<(i32, Verification)> {
    Some((v.mark, verdict_of(v.verifyed)))
}

/// The cells of one judgement group with `n` judges: the votes in order,
/// then empty slots up to `n`; `n` empty slots where the group has no entry.
pub open spec fn group_cells(votes: Option<Seq<VoteView>>, n: int) -> Seq<Option<(i32, Verification)>> {
    match votes {
        Some(vs) => {
            let shown = vs.map_values(|v: VoteView| cell_of(v));
            if shown.len() < n {
                shown + Seq::new((n - shown.len()) as nat, |k: int| None::<(i32, Verification)>)
            } else {
                shown
            }
        },
        None => Seq::new(n as nat, |k: int| None::<(i32, Verification)>),
    }
}

/// The marks grid of a queue on the screen of scheme `scheme`: one row per
/// judgement group of the scheme, empty rows where no action runs.
pub fn marks_grid(scheme: &JudgeScheme, active: &Option<ActiveActionState>) -> (r: Vec<
    Vec<Option<(i32, Verification)>>,
>)
    ensures
        r@.len() == scheme_sizes(*scheme).len(),
        forall|g: int|
            0 <= g < r@.len() ==> (#[trigger] r@[g])@ == (match *active {
                Some(a) => group_cells(
                    named_votes(a.deep_view().marks, group_name(g).unwrap()),
                    scheme_sizes(*scheme)[g] as int,
                ),
                None => Seq::empty(),
            }),
{
    let sizes = scheme.sizes();
    let mut out: Vec<Vec<Option<(i32, Verification)>>> = Vec::new();
    let mut g: usize = 0;
    while g < sizes.len()
        invariant
            g <= sizes@.len(),
            sizes@ == scheme_sizes(*scheme),
            sizes@.len() == 3,
            out@.len() == g,
            forall|h: int| 0 <= h < 3 ==> 0 < #[trigger] sizes@[h],
            forall|h: int|
                0 <= h < g ==> (#[trigger] out@[h])@ == (match *active {
                    Some(a) => group_cells(named_votes(a.deep_view().marks, group_name(h).unwrap()), sizes@[h] as int),
                    None => Seq::empty(),
                }),
        decreases sizes@.len() - g,
    {
        let n = sizes[g];
        let mut row: Vec<Option<(i32, Verification)>> = Vec::new();
        match active {
            None => {
                assert(row@ =~= Seq::<Option<(i32, Verification)>>::empty());
            },
            Some(a) => {
                let name = match scheme.get_judgement_group_name(g as i32) {
                    Ok(nm) => nm,
                    Err(_) => String::new(),
                };
                assert(name@ == group_name(g as int).unwrap());
                let ghost target = group_cells(named_votes(a.deep_view().marks, name@), n as int);
                match find_group(&a.marks, &name) {
                    Some(k) => {
                        let votes = &a.marks[k].1.votes;
                        let ghost vv = votes@;
                        assert(a.marks@[k as int].1.deep_view() == vv);
                        let ghost shown = vv.map_values(|v: VoteView| cell_of(v));
                        let mut i: usize = 0;
                        while i < votes.len()
                            invariant
                                i <= vv.len(),
                                vv == votes@,
                                shown == vv.map_values(|v: VoteView| cell_of(v)),
                                row@ =~= shown.subrange(0, i as int),
                            decreases vv.len() - i,
                        {
                            let v = votes[i];
                            row.push(Some((v.mark, Verification::from_code_or_default(v.verifyed))));
                            i = i + 1;
                        }
                        let ghost filled = row@;
                        assert(filled =~= shown);
                        let n_slots: usize = n as usize;
                        let mut j: usize = row.len();
                        while j < n_slots
                            invariant
                                filled.len() <= j,
                                n_slots == n,
                                row@.len() == j,
                                row@.subrange(0, filled.len() as int) =~= filled,
                                forall|t: int| filled.len() <= t < j ==> #[trigger] row@[t] == None::<(i32, Verification)>,
                                j <= (if filled.len() < n_slots { n_slots as int } else { filled.len() as int }),
                            decreases n_slots - j,
                        {
                            row.push(None);
                            j = j + 1;
                        }
                        assert(row@ =~= target);
                    },
                    None => {
                        let mut j: i32 = 0;
                        while j < n
                            invariant
                                0 <= j <= n,
                                row@.len() == j,
                                forall|t: int| 0 <= t < j ==> #[trigger] row@[t] == None::<(i32, Verification)>,
                            decreases n - j,
                        {
                            row.push(None);
                            j = j + 1;
                        }
                        assert(row@ =~= target);
                    },
                }
            },
        }
        out.push(row);
        g = g + 1;
    }
    out
}

/// The queue on which verdict buttons beside history message `m` judge the
/// vote, for a screen of role `role`: a moderator judges any vote, an
/// arbitor the votes of the queue that the arbitor verifies; no other role
/// and no other message gets buttons.
pub open spec fn verdict_queue(role: Option<Role>, m: EqHistoryModel) -> Option<i32> {
    match (role, m.message) {
        (Some(r), Some(em)) => match em.message {
            Some(MessageModel::VoteMessage(v)) => match r {
                Role::Moderator(_) => Some(v.queue_id),
                Role::Arbitor(q) => if v.queue_id == q.id {
                    Some(q.id)
                } else {
                    None
                },
                _ => None,
            },
            _ => None,
        },
        _ => None,
    }
}

/// The queue on which the verdict buttons beside `m` judge its vote, where
/// the screen of `role` shows them.
pub fn vote_controls(role: &Option<Role>, m: &EqHistoryMessage) -> (r: Option<i32>)
    ensures
        r == verdict_queue(*role, m.deep_view()),
{
    match (role, &m.message) {
        (Some(r), Some(em)) => match &em.message {
            Some(Message::VoteMessage(v)) => match r {
                Role::Moderator(_) => Some(v.queue_id),
                Role::Arbitor(q) => if v.queue_id == q.id {
                    Some(q.id)
                } else {
                    None
                },
                _ => None,
            },
            _ => None,
        },
        _ => None,
    }
}

/// The screen that a competition page shows.
#[derive(Clone, Copy, Debug, PartialEq, Eq, Structural)]
pub enum Screen {
    /// The competition or the user's roles are not known yet.
    Loading,
    /// The user holds no role in the competition.
    Blank,
    /// The queues with their actions, for moderators and secretaries.
    Secretary,
    /// The verification of the votes of a queue, for its arbitor.
    Verification(i32),
    /// The judging of a judge.
    Judging(Judge),
    /// A role that has no screen yet.
    Unsupported,
}

/// The screen of a role.
pub open spec fn screen_of(r: Role) -> Screen {
    match r {
        Role::Moderator(_) | Role::Secretary(_) => Screen::Secretary,
        Role::Arbitor(q) => Screen::Verification(q.id),
        Role::Judge(j) => Screen::Judging(j),
        Role::Watcher(_) => Screen::Unsupported,
    }
}

/// The screen of a competition page: loading until the competition and the
/// user's roles are known, then the screen of the user's main role.
pub fn screen_for(comp_known: bool, roles: &Option<Vec<Role>>) -> (r: Screen)
    ensures
        !comp_known ==> r == Screen::Loading,
        comp_known ==> match roles {
            Some(v) => if v@.len() == 0 {
                r == Screen::Blank
            } else {
                exists|i: int| is_main_role(v@, i) && r == screen_of(#[trigger] v@[i])
            },
            None => r == Screen::Loading,
        },
{
    if !comp_known {
        return Screen::Loading;
    }
    match roles {
        None => Screen::Loading,
        Some(v) => match main_role(v) {
            None => Screen::Blank,
            Some(role) => match role {
                Role::Moderator(_) | Role::Secretary(_) => Screen::Secretary,
                Role::Arbitor(q) => Screen::Verification(q.id),
                Role::Judge(j) => Screen::Judging(j),
                Role::Watcher(_) => Screen::Unsupported,
            },
        },
    }
}


/// What the screens show of one queue.
#[derive(Clone, Debug, PartialEq)]
pub enum QueuePanel {
    /// Nothing was ever set on the queue: the competition has not started.
    NotStarted,
    /// The queue has no action now.
    Idle,
    /// The queue judges this action.
    Active(ActiveActionState),
}

pub enum QueuePanelModel {
    NotStarted,
    Idle,
    Active(ActiveActionModel),
}

impl DeepView for QueuePanel {
    type V = QueuePanelModel;

    open spec fn deep_view(&self) -> QueuePanelModel {
        match self {
            QueuePanel::NotStarted => QueuePanelModel::NotStarted,
            QueuePanel::Idle => QueuePanelModel::Idle,
            QueuePanel::Active(a) => QueuePanelModel::Active(a.deep_view()),
        }
    }
}

/// Message `i` of `msgs` is the latest that sets or clears the action of
/// queue `q`.
pub open spec fn is_last_update(msgs: Seq<EqHistoryModel>, q: i32, i: int) -> bool {
    &&& 0 <= i < msgs.len()
    &&& updates_queue(msgs[i], q)
    &&& forall|j: int| i < j < msgs.len() ==> !updates_queue(#[trigger] msgs[j], q)
}

/// The panel that an update of a queue leaves: the action it sets, or none.
pub open spec fn panel_after(m: EqHistoryModel) -> QueuePanelModel {
    match m.message {
        Some(em) => match em.message {
            Some(MessageModel::SetActiveAction(s)) => QueuePanelModel::Active(s),
            _ => QueuePanelModel::Idle,
        },
        None => QueuePanelModel::Idle,
    }
}

/// What the screens show of queue `q`, given the event history `msgs`: the
/// state that the latest update of the queue left, or that the competition
/// has not started where the queue was never updated.
pub fn queue_panel(msgs: &Vec<EqHistoryMessage>, q: i32) -> (r: QueuePanel)
    ensures
        (forall|j: int| 0 <= j < msgs@.len() ==> !updates_queue(#[trigger] msgs.deep_view()[j], q))
            ==> r.deep_view() == QueuePanelModel::NotStarted,
        forall|i: int| #[trigger] is_last_update(msgs.deep_view(), q, i) ==> r.deep_view() == panel_after(
            msgs.deep_view()[i],
        ),
{
    let ghost mv = msgs.deep_view();
    match last_queue_action(msgs, q) {
        None => QueuePanel::NotStarted,
        Some(k) => {
            assert(mv[k as int] == msgs@[k as int].deep_view());
            assert forall|i: int| #[trigger] is_last_update(mv, q, i) implies i == k by {
                if i < k {
                    assert(!updates_queue(mv[k as int], q));
                } else if i > k {
                    assert(!updates_queue(mv[i], q));
                }
            }
            match &msgs[k].message {
                Some(em) => match &em.message {
                    Some(Message::SetActiveAction(s)) => QueuePanel::Active(s.replicate()),
                    _ => QueuePanel::Idle,
                },
                None => QueuePanel::Idle,
            }
        },
    }
}

/// The panels of the queues `0 .. nqueues`, as the secretary's screen shows
/// them.
pub fn queue_panels(msgs: &Vec<EqHistoryMessage>, nqueues: i32) -> (r: Vec<QueuePanel>)
    ensures
        r@.len() == (if nqueues > 0 { nqueues as int } else { 0 }),
        forall|q: int|
            0 <= q < r@.len() ==> ((forall|j: int|
                0 <= j < msgs@.len() ==> !updates_queue(#[trigger] msgs.deep_view()[j], q as i32))
                ==> (#[trigger] r@[q]).deep_view() == QueuePanelModel::NotStarted),
        forall|q: int, i: int|
            0 <= q < r@.len() && #[trigger] is_last_update(msgs.deep_view(), q as i32, i) ==> (
            #[trigger] r@[q]).deep_view() == panel_after(msgs.deep_view()[i]),
{
    let mut out: Vec<QueuePanel> = Vec::new();
    let mut q: i32 = 0;
    while q < nqueues
        invariant
            0 <= q,
            q <= nqueues || q == 0,
            out@.len() == q,
            forall|p: int|
                0 <= p < q ==> ((forall|j: int|
                    0 <= j < msgs@.len() ==> !updates_queue(#[trigger] msgs.deep_view()[j], p as i32))
                    ==> (#[trigger] out@[p]).deep_view() == QueuePanelModel::NotStarted),
            forall|p: int, i: int|
                0 <= p < q && #[trigger] is_last_update(msgs.deep_view(), p as i32, i) ==> (
                #[trigger] out@[p]).deep_view() == panel_after(msgs.deep_view()[i]),
        decreases nqueues - q,
    {
        let panel = queue_panel(msgs, q);
        out.push(panel);
        q = q + 1;
    }
    out
}


/// What a button of a screen asks the competition service for: to take a
/// message into the event queue, or to start the competition.
pub enum ScreenRequest {
    Push(EqMessage),
    Run(Id),
}

/// `e` is the message that user `user` sends to competition `coid` with
/// payload `m`, signed as the screens sign.
pub open spec fn sent_by(e: EqMessage, coid: i32, user: UserViewModel, m: MessageModel) -> bool {
    &&& e.comp_id == coid
    &&& e.author.deep_view() == Some(user)
    &&& e.signature@ == "SIGNATURE"@
    &&& e.message.deep_view() == Some(m)
}

fn screen_message(coid: i32, user: &UserView, m: Message) -> (r: EqMessage)
    ensures
        sent_by(r, coid, user.deep_view(), m.deep_view()),
{
    EqMessage { comp_id: coid, author: Some(user.replicate()), signature: "SIGNATURE".to_owned(), message: Some(m) }
}

/// What the button of the secretary's panel of queue `q` asks for, for user
/// `user` in competition `coid`: while an action runs, closing its voting
/// with an approving verdict; while the queue has no action, moving it to
/// the next team; before anything was set on the queue, starting the
/// competition.
pub fn panel_action(panel: &QueuePanel, q: i32, coid: i32, user: &UserView) -> (r: ScreenRequest)
    ensures
        match panel.deep_view() {
            QueuePanelModel::Active(_) => r matches ScreenRequest::Push(e) && sent_by(
                e,
                coid,
                user.deep_view(),
                MessageModel::FixVoting(FixVotingMessage { queue_id: q, verdict: verification_code(Verification::Approve) }),
            ),
            QueuePanelModel::Idle => r matches ScreenRequest::Push(e) && sent_by(
                e,
                coid,
                user.deep_view(),
                MessageModel::TryNext(TryNext { queue_id: q }),
            ),
            QueuePanelModel::NotStarted => r == ScreenRequest::Run(Id { id: coid }),
        },
{
    match panel {
        QueuePanel::Active(_) => ScreenRequest::Push(
            screen_message(coid, user, Message::FixVoting(FixVotingMessage { queue_id: q, verdict: Verification::Approve.code() })),
        ),
        QueuePanel::Idle => ScreenRequest::Push(screen_message(coid, user, Message::TryNext(TryNext { queue_id: q }))),
        QueuePanel::NotStarted => ScreenRequest::Run(Id { id: coid }),
    }
}

/// A line of the message list: the message, and the messages that its two
/// verdict buttons send (approving, refusing), where it has them.
pub struct MessageLine {
    pub message: EqHistoryMessage,
    pub verdicts: Option<(EqMessage, EqMessage)>,
}

/// `e` gives the verdict `v`, from user `user` in competition `coid`, on the
/// vote cast by message `target`.
pub open spec fn verdict_on(e: EqMessage, coid: i32, user: UserViewModel, target: i32, v: Verification) -> bool {
    sent_by(
        e,
        coid,
        user,
        MessageModel::VerifyMessage(VerifyVoteMessage { target_message_id: target, verdict: verification_code(v) }),
    )
}

/// The message list of a competition screen for role `role`, newest first:
/// each message of the event queue `msgs`, with verdict buttons where
/// `verdict_queue` gives them, which send an approving and a refusing
/// verdict on the message's vote.
pub fn message_lines(msgs: &Vec<EqHistoryMessage>, role: &Option<Role>, coid: i32, user: &UserView) -> (r: Vec<
    MessageLine,
>)
    ensures
        r@.len() == msgs@.len(),
        forall|i: int|
            0 <= i < r@.len() ==> {
                let m = msgs.deep_view()[msgs@.len() - 1 - i];
                &&& (#[trigger] r@[i]).message.deep_view() == m
                &&& match verdict_queue(*role, m) {
                    Some(_) => r@[i].verdicts matches Some(p) && verdict_on(
                        p.0,
                        coid,
                        user.deep_view(),
                        m.message_id,
                        Verification::Approve,
                    ) && verdict_on(p.1, coid, user.deep_view(), m.message_id, Verification::Block),
                    None => r@[i].verdicts is None,
                }
            },
{
    let ghost mv = msgs.deep_view();
    let n = msgs.len();
    let mut out: Vec<MessageLine> = Vec::new();
    let mut i: usize = 0;
    while i < n
        invariant
            i <= n,
            n == msgs@.len(),
            mv == msgs.deep_view(),
            out@.len() == i,
            forall|k: int|
                0 <= k < i ==> {
                    let m = mv[n - 1 - k];
                    &&& (#[trigger] out@[k]).message.deep_view() == m
                    &&& match verdict_queue(*role, m) {
                        Some(_) => out@[k].verdicts matches Some(p) && verdict_on(
                            p.0,
                            coid,
                            user.deep_view(),
                            m.message_id,
                            Verification::Approve,
                        ) && verdict_on(p.1, coid, user.deep_view(), m.message_id, Verification::Block),
                        None => out@[k].verdicts is None,
                    }
                },
        decreases n - i,
    {
        let h = &msgs[n - 1 - i];
        assert(mv[n - 1 - i] == h.deep_view());
        let verdicts = match vote_controls(role, h) {
            Some(_) => {
                let target = h.message_id;
                let yes = screen_message(
                    coid,
                    user,
                    Message::VerifyMessage(VerifyVoteMessage { target_message_id: target, verdict: Verification::Approve.code() }),
                );
                let no = screen_message(
                    coid,
                    user,
                    Message::VerifyMessage(VerifyVoteMessage { target_message_id: target, verdict: Verification::Block.code() }),
                );
                Some((yes, no))
            },
            None => None,
        };
        out.push(MessageLine { message: h.replicate(), verdicts });
        i = i + 1;
    }
    out
}

} // verus!
