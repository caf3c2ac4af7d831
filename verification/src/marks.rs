//! The marks that the judges of one queue give to the action being judged.
use vstd::prelude::*;

use crate::proto::{JudgeScheme, Team, TeamModel, VoteMessage, VoteMessageModel};
use crate::replicate::Replicate;
use crate::scheme::scheme_sizes;

verus! {

/// (message id, vote, author id)
pub type Mark = (i32, VoteMessage, i32);

pub type MarkModel = (i32, VoteMessageModel, i32);

/// Marks of the action that a queue judges, with the fines given to it and
/// the users that have voted already.
#[derive(Clone, Debug, PartialEq)]
pub struct NominationMarks {
    pub in_progress: bool,
    pub active_action: i32,
    pub team: Option<Team>,
    pub mark_groups: Vec<Vec<Option<Mark>>>,
    pub fines: Vec<i32>,
    pub voted_users: Vec<i32>,
}

pub struct MarksModel {
    pub in_progress: bool,
    pub active_action: i32,
    pub team: Option<TeamModel>,
    pub mark_groups: Seq<Seq<Option<MarkModel>>>,
    pub fines: Seq<i32>,
    pub voted_users: Seq<i32>,
}

impl DeepView for NominationMarks {
    type V = MarksModel;

    open spec fn deep_view(&self) -> MarksModel {
        MarksModel {
            in_progress: self.in_progress,
            active_action: self.active_action,
            team: self.team.deep_view(),
            mark_groups: self.mark_groups.deep_view(),
            fines: self.fines@,
            voted_users: self.voted_users@,
        }
    }
}

impl Replicate for bool {
    fn replicate(&self) -> (r: Self) {
        *self
    }
}

impl Replicate for NominationMarks {
    fn replicate(&self) -> (r: Self) {
        let fines = self.fines.replicate();
        let voted = self.voted_users.replicate();
        proof {
            assert(fines.deep_view() =~= fines@);
            assert(self.fines.deep_view() =~= self.fines@);
            assert(voted.deep_view() =~= voted@);
            assert(self.voted_users.deep_view() =~= self.voted_users@);
        }
        NominationMarks {
            in_progress: self.in_progress,
            active_action: self.active_action,
            team: self.team.replicate(),
            mark_groups: self.mark_groups.replicate(),
            fines,
            voted_users: voted,
        }
    }
}

/// Empty mark slots: one per judge, grouped as the scheme groups its judges.
pub open spec fn empty_marks(s: JudgeScheme) -> Seq<Seq<Option<MarkModel>>> {
    Seq::new(3, |g: int| Seq::new(scheme_sizes(s)[g] as nat, |i: int| None::<MarkModel>))
}

/// Whether every slot of every group holds a mark.
pub open spec fn all_marked(groups: Seq<Seq<Option<MarkModel>>>) -> bool {
    forall|g: int, i: int|
        0 <= g < groups.len() && 0 <= i < groups[g].len() ==> #[trigger] groups[g][i] is Some
}

/// The marks of an action that has not started.
pub open spec fn blank_marks() -> MarksModel {
    MarksModel {
        in_progress: false,
        active_action: 0,
        team: None,
        mark_groups: Seq::empty(),
        fines: Seq::empty(),
        voted_users: Seq::empty(),
    }
}

/// `m` with fresh empty slots for the scheme and nobody recorded as voted.
pub open spec fn cleaned(m: MarksModel, s: JudgeScheme) -> MarksModel {
    MarksModel { mark_groups: empty_marks(s), voted_users: Seq::empty(), ..m }
}

fn empty_group(n: usize) -> (r: Vec<Option<Mark>>)
    ensures
        r.deep_view() == Seq::new(n as nat, |i: int| None::<MarkModel>),
{
    let mut v: Vec<Option<Mark>> = Vec::new();
    while v.len() < n
        invariant
            v@.len() <= n,
            forall|i: int| 0 <= i < v@.len() ==> v@[i] is None,
        decreases n - v@.len(),
    {
        v.push(None);
    }
    assert(v.deep_view() =~= Seq::new(n as nat, |i: int| None::<MarkModel>));
    v
}

/// Empty mark slots for the scheme.
pub fn scheme_marks(scheme: &JudgeScheme) -> (r: Vec<Vec<Option<Mark>>>)
    ensures
        r.deep_view() == empty_marks(*scheme),
{
    let sizes = scheme.get_lens();
    let mut out: Vec<Vec<Option<Mark>>> = Vec::new();
    let mut g: usize = 0;
    while g < 3
        invariant
            g <= 3,
            sizes@ == scheme_sizes(*scheme),
            out@.len() == g,
            forall|k: int|
                0 <= k < g ==> #[trigger] out@[k].deep_view() == Seq::new(
                    scheme_sizes(*scheme)[k] as nat,
                    |i: int| None::<MarkModel>,
                ),
        decreases 3 - g,
    {
        out.push(empty_group(sizes[g] as usize));
        g = g + 1;
    }
    assert(out.deep_view() =~= empty_marks(*scheme));
    out
}

impl NominationMarks {
    /// Marks of an action that has not started.
    pub fn blank() -> (r: NominationMarks)
        ensures
            r.deep_view() == blank_marks(),
    {
        let r = NominationMarks {
            in_progress: false,
            active_action: 0,
            team: None,
            mark_groups: Vec::new(),
            fines: Vec::new(),
            voted_users: Vec::new(),
        };
        assert(r.deep_view().mark_groups =~= Seq::<Seq<Option<MarkModel>>>::empty());
        r
    }

    /// The marks given so far, by group.
    pub fn get_marks(&self) -> (r: &Vec<Vec<Option<Mark>>>)
        ensures
            r == &self.mark_groups,
    {
        &self.mark_groups
    }

    /// The fines given so far.
    pub fn get_fines(&self) -> (r: &Vec<i32>)
        ensures
            r == &self.fines,
    {
        &self.fines
    }

    /// No action, no team, empty slots for the scheme.
    pub fn with_scheme(scheme: &JudgeScheme) -> (r: Self)
        ensures
            r.deep_view() == (MarksModel {
                in_progress: false,
                active_action: -1i32,
                team: None,
                mark_groups: empty_marks(*scheme),
                fines: Seq::empty(),
                voted_users: Seq::empty(),
            }),
    {
        NominationMarks {
            in_progress: false,
            active_action: -1,
            team: None,
            mark_groups: scheme_marks(scheme),
            fines: Vec::new(),
            voted_users: Vec::new(),
        }
    }

    /// Forgets who voted and empties every slot, shaping the slots as the
    /// scheme groups its judges.
    pub fn clean_marks_with_scheme(&mut self, scheme: &JudgeScheme)
        ensures
            final(self).deep_view() == cleaned(old(self).deep_view(), *scheme),
    {
        self.voted_users.clear();
        self.mark_groups = scheme_marks(scheme);
        assert(self.voted_users@ =~= Seq::<i32>::empty());
    }

    /// Whether every slot holds a mark.
    pub fn ready(&self) -> (r: bool)
        ensures
            r == all_marked(self.deep_view().mark_groups),
    {
        let mut g: usize = 0;
        while g < self.mark_groups.len()
            invariant
                g <= self.mark_groups@.len(),
                forall|k: int, i: int|
                    0 <= k < g && 0 <= i < self.mark_groups@[k]@.len()
                        ==> #[trigger] self.mark_groups@[k]@[i] is Some,
            decreases self.mark_groups@.len() - g,
        {
            let group = &self.mark_groups[g];
            let mut i: usize = 0;
            while i < group.len()
                invariant
                    g < self.mark_groups@.len(),
                    *group == self.mark_groups@[g as int],
                    i <= group@.len(),
                    forall|j: int| 0 <= j < i ==> #[trigger] group@[j] is Some,
                decreases group@.len() - i,
            {
                if group[i].is_none() {
                    proof {
                        let groups = self.deep_view().mark_groups;
                        assert(groups[g as int][i as int] is None);
                    }
                    return false;
                }
                i = i + 1;
            }
            g = g + 1;
        }
        proof {
            let groups = self.deep_view().mark_groups;
            assert forall|k: int, i: int|
                0 <= k < groups.len() && 0 <= i < groups[k].len() implies #[trigger] groups[k][i] is Some by {
                assert(self.mark_groups@[k]@[i] is Some);
            }
        }
        true
    }
}

impl Default for NominationMarks {
    fn default() -> (r: Self)
        ensures
            r.deep_view() == blank_marks(),
    {
        NominationMarks::blank()
    }
}

} // verus!
