//! Building nominations and teams from the rows of an uploaded table, and
//! small checks on declarations.
use std::collections::HashMap;
use vstd::prelude::*;

use crate::external::{lowercased, to_lowercase_text};
use crate::text::{trim_text, trimmed};
use crate::proto::{
    teams_model, CompDeclaration, EasyParticipant, EasyParticipantModel, Gender,
    NominationDeclaration, NominationDeclarationModel, Team, TeamModel,
};
use crate::replicate::Replicate;
use crate::table::ConvertablePackage;
use crate::text::{split_char, split_on};

verus! {

broadcast use vstd::std_specs::hash::group_hash_axioms;

impl CompDeclaration {
    /// A declaration can be sent when it has a title and dates.
    pub fn is_valid(&self) -> (r: bool)
        ensures
            r == (self.title@.len() > 0 && self.dates is Some),
    {
        self.title.as_str().unicode_len() > 0 && self.dates.is_some()
    }
}

/// The gender that a lower-cased flag names by its first character: `f`,
/// `w`, `ж` or `д` a woman, `m` or `м` a man; anything else, or nothing, is
/// unknown.
pub open spec fn gender_of_flag(s: Seq<char>) -> Gender {
    if s.len() == 0 {
        Gender::Unknown
    } else if s[0] == 'f' || s[0] == 'w' || s[0] == 'ж' || s[0] == 'д' {
        Gender::Female
    } else if s[0] == 'm' || s[0] == 'м' {
        Gender::Male
    } else {
        Gender::Unknown
    }
}

/// The gender that the lower-cased, trimmed flag `lowered` names.
pub fn gender_from_flag(lowered: &str) -> (r: Gender)
    ensures
        r == gender_of_flag(lowered@),
{
    if lowered.unicode_len() == 0 {
        return Gender::Unknown;
    }
    let x = lowered.get_char(0);
    if x == 'f' || x == 'w' || x == 'ж' || x == 'д' {
        Gender::Female
    } else if x == 'm' || x == 'м' {
        Gender::Male
    } else {
        Gender::Unknown
    }
}

impl From<String> for Gender {
    /// The gender that a table cell names: the cell is trimmed and lower-cased,
    /// and its first character read as `gender_of_flag` reads it.
    fn from(value: String) -> (r: Self)
        ensures
            r == gender_of_flag(lowercased(trimmed(value@))),
    {
        let t = trim_text(value.as_str());
        let l = to_lowercase_text(t.as_str());
        gender_from_flag(l.as_str())
    }
}

impl vstd::std_specs::convert::FromSpecImpl<String> for Gender {
    open spec fn obeys_from_spec() -> bool {
        true
    }

    open spec fn from_spec(v: String) -> Self {
        gender_of_flag(lowercased(trimmed(v@)))
    }
}

/// The participants of a team row: one for each comma-separated name in the
/// first cell, each with the cells after the second as extra data.
pub open spec fn team_participants(cells: Seq<Seq<char>>) -> Seq<EasyParticipantModel> {
    split_on(cells[0], ',').map_values(
        |x: Seq<char>| EasyParticipantModel { name: x, extra_personal: cells.skip(2) },
    )
}

/// The team of row `cells` under number `tid`: participants from the first
/// cell, organisation from the second, nomination not yet known.
pub open spec fn team_from_row(tid: i32, cells: Seq<Seq<char>>) -> TeamModel {
    TeamModel {
        tid,
        nom: seq!['N', 'o', 'n', 'e'],
        organisation: cells[1],
        participants: team_participants(cells),
    }
}

impl TryFrom<(i32, Vec<String>)> for Team {
    type Error = ();

    /// The team of a table row; `Err` where the row has fewer than two cells.
    fn try_from(value: (i32, Vec<String>)) -> (r: Result<Self, ()>)
        ensures
            match r {
                Ok(t) => value.1@.len() >= 2 && t.deep_view() == team_from_row(
                    value.0,
                    value.1.deep_view(),
                ),
                Err(_) => value.1@.len() < 2,
            },
    {
        proof {
            reveal_strlit("None");
        }
        let (tid, cells) = value;
        if cells.len() < 2 {
            return Err(());
        }
        let ghost cv = cells.deep_view();
        assert(cv[0] == cells@[0]@);
        assert(cv[1] == cells@[1]@);
        let names = split_char(cells[0].as_str(), ',');
        let mut extra: Vec<String> = Vec::new();
        let mut k: usize = 2;
        while k < cells.len()
            invariant
                2 <= k <= cells.len(),
                cv == cells.deep_view(),
                extra.deep_view() == cv.subrange(2, k as int),
            decreases cells.len() - k,
        {
            let ghost before = extra.deep_view();
            extra.push(cells[k].clone());
            assert(extra.deep_view() =~= before.push(cv[k as int]));
            assert(cv.subrange(2, k + 1) =~= cv.subrange(2, k as int).push(cv[k as int]));
            k = k + 1;
        }
        assert(cv.skip(2) =~= cv.subrange(2, cells.len() as int));
        let ghost nv = names.deep_view();
        let mut participants: Vec<EasyParticipant> = Vec::new();
        let mut i: usize = 0;
        while i < names.len()
            invariant
                i <= names.len(),
                nv == names.deep_view(),
                extra.deep_view() == cv.skip(2),
                participants.deep_view() == nv.subrange(0, i as int).map_values(
                    |x: Seq<char>| EasyParticipantModel { name: x, extra_personal: cv.skip(2) },
                ),
            decreases names.len() - i,
        {
            let ghost before = participants.deep_view();
            let p = EasyParticipant { name: names[i].clone(), extra_personal: extra.replicate() };
            participants.push(p);
            assert(participants.deep_view() =~= before.push(p.deep_view()));
            assert(nv.subrange(0, i + 1) =~= nv.subrange(0, i as int).push(nv[i as int]));
            i = i + 1;
        }
        assert(nv.subrange(0, names.len() as int) =~= nv);
        let t = Team {
            tid,
            nom: "None".to_owned(),
            organisation: cells[1].clone(),
            participants,
        };
        assert(t.deep_view().participants =~= team_participants(cv));
        assert(t.nom@ =~= seq!['N', 'o', 'n', 'e']);
        assert(t.organisation@ == cv[1]);
        assert(t.deep_view() == team_from_row(tid, cv));
        Ok(t)
    }
}

impl vstd::std_specs::convert::TryFromSpecImpl<(i32, Vec<String>)> for Team {
    open spec fn obeys_try_from_spec() -> bool {
        false
    }

    open spec fn try_from_spec(v: (i32, Vec<String>)) -> Result<Self, ()> {
        vstd::pervasive::arbitrary()
    }
}

/// Team `t` placed in the nomination called `title`.
pub open spec fn titled(t: TeamModel, title: Seq<char>) -> TeamModel {
    TeamModel { nom: title, ..t }
}

/// The teams of a nomination by number; of teams with the same number the
/// last one is kept.
pub open spec fn teams_by_tid(title: Seq<char>, ts: Seq<TeamModel>) -> Map<i32, TeamModel>
    decreases ts.len(),
{
    if ts.len() == 0 {
        Map::empty()
    } else {
        teams_by_tid(title, ts.drop_last()).insert(ts.last().tid, titled(ts.last(), title))
    }
}

/// The nomination called `title` with teams `ts`, performing in the order
/// given.
pub open spec fn nomination_of(title: Seq<char>, ts: Seq<TeamModel>) -> NominationDeclarationModel {
    NominationDeclarationModel {
        title,
        teams: teams_by_tid(title, ts),
        inner_queue: ts.map_values(|t: TeamModel| t.tid),
    }
}

impl From<(String, Vec<Team>)> for NominationDeclaration {
    /// The nomination called `value.0` with the teams `value.1`, each placed
    /// in it, performing in the order given.
    fn from(value: (String, Vec<Team>)) -> (r: Self)
        ensures
            r.deep_view() == nomination_of(value.0@, value.1.deep_view()),
    {
        let (title, list) = value;
        let ghost lv = list.deep_view();
        let mut teams: HashMap<i32, Team> = HashMap::new();
        let mut queue: Vec<i32> = Vec::new();
        let mut i: usize = 0;
        assert(teams_model(teams@) =~= Map::<i32, TeamModel>::empty());
        while i < list.len()
            invariant
                i <= list.len(),
                lv == list.deep_view(),
                teams_model(teams@) == teams_by_tid(title@, lv.subrange(0, i as int)),
                queue@ == lv.subrange(0, i as int).map_values(|t: TeamModel| t.tid),
            decreases list.len() - i,
        {
            let ghost pre = lv.subrange(0, i as int);
            let ghost post = lv.subrange(0, i + 1);
            assert(post.drop_last() =~= pre);
            assert(post.last() == lv[i as int]);
            assert(lv[i as int] == list@[i as int].deep_view());
            let mut t = list[i].replicate();
            t.nom = title.clone();
            let ghost tv = t.deep_view();
            assert(tv == titled(lv[i as int], title@));
            let ghost old_teams = teams@;
            teams.insert(t.tid, t);
            assert(teams_model(teams@) =~= teams_model(old_teams).insert(tv.tid, tv));
            let ghost old_queue = queue@;
            queue.push(list[i].tid);
            assert(queue@ =~= post.map_values(|t: TeamModel| t.tid));
            i = i + 1;
        }
        assert(lv.subrange(0, list.len() as int) =~= lv);
        NominationDeclaration { title, teams, inner_queue: queue }
    }
}

impl vstd::std_specs::convert::FromSpecImpl<(String, Vec<Team>)> for NominationDeclaration {
    open spec fn obeys_from_spec() -> bool {
        false
    }

    open spec fn from_spec(v: (String, Vec<Team>)) -> Self {
        vstd::pervasive::arbitrary()
    }
}

impl ConvertablePackage for NominationDeclaration {
    type Item = Team;
}

/// A list of teams, each naming its nomination.
pub struct TeamVecToNominations(pub Vec<Team>);

/// Where the first nomination called `title` stands in `noms`.
pub open spec fn title_position(noms: Seq<NominationDeclarationModel>, title: Seq<char>) -> Option<int>
    decreases noms.len(),
{
    if noms.len() == 0 {
        None
    } else {
        match title_position(noms.drop_last(), title) {
            Some(i) => Some(i),
            None => if noms.last().title == title {
                Some(noms.len() - 1)
            } else {
                None
            },
        }
    }
}

/// Nomination `n` with team `t` added at the end of its order.
pub open spec fn with_team(n: NominationDeclarationModel, t: TeamModel) -> NominationDeclarationModel {
    NominationDeclarationModel {
        title: n.title,
        teams: n.teams.insert(t.tid, t),
        inner_queue: n.inner_queue.push(t.tid),
    }
}

/// A nomination named after team `t`, holding just that team.
pub open spec fn fresh_nomination(t: TeamModel) -> NominationDeclarationModel {
    NominationDeclarationModel {
        title: t.nom,
        teams: Map::<i32, TeamModel>::empty().insert(t.tid, t),
        inner_queue: seq![t.tid],
    }
}

/// The teams grouped by the nomination they name: one nomination per title,
/// in the order in which titles first occur, each with its teams in the
/// order given.
pub open spec fn group_by_nomination(ts: Seq<TeamModel>) -> Seq<NominationDeclarationModel>
    decreases ts.len(),
{
    if ts.len() == 0 {
        Seq::empty()
    } else {
        let g = group_by_nomination(ts.drop_last());
        let t = ts.last();
        match title_position(g, t.nom) {
            Some(i) => g.update(i, with_team(g[i], t)),
            None => g.push(fresh_nomination(t)),
        }
    }
}

proof fn lemma_title_position(noms: Seq<NominationDeclarationModel>, title: Seq<char>, i: int)
    requires
        0 <= i <= noms.len(),
        forall|j: int| 0 <= j < i ==> (#[trigger] noms[j]).title != title,
    ensures
        i < noms.len() && noms[i].title == title ==> title_position(noms, title) == Some(i),
        i == noms.len() ==> title_position(noms, title) is None,
    decreases noms.len(),
{
    if noms.len() > 0 {
        let d = noms.drop_last();
        if i < noms.len() {
            if i < d.len() {
                lemma_title_position(d, title, i);
            } else {
                lemma_title_position(d, title, d.len() as int);
            }
        } else {
            lemma_title_position(d, title, d.len() as int);
        }
    }
}

impl TeamVecToNominations {
    /// The teams grouped by the nomination they name, one nomination per
    /// title in the order in which titles first occur.
    pub fn convert(&self) -> (r: Vec<NominationDeclaration>)
        ensures
            r.deep_view() == group_by_nomination(self.0.deep_view()),
    {
        let teams = &self.0;
        let ghost tv = teams.deep_view();
        let mut out: Vec<NominationDeclaration> = Vec::new();
        let mut i: usize = 0;
        assert(out.deep_view() =~= Seq::<NominationDeclarationModel>::empty());
        while i < teams.len()
            invariant
                i <= teams.len(),
                tv == teams.deep_view(),
                out.deep_view() == group_by_nomination(tv.subrange(0, i as int)),
            decreases teams.len() - i,
        {
            let ghost pre = tv.subrange(0, i as int);
            let ghost post = tv.subrange(0, i + 1);
            assert(post.drop_last() =~= pre);
            assert(post.last() == tv[i as int]);
            assert(tv[i as int] == teams@[i as int].deep_view());
            let ghost g = out.deep_view();
            let t = &teams[i];
            let mut j: usize = 0;
            while j < out.len()
                invariant
                    j <= out.len(),
                    g == out.deep_view(),
                    forall|k: int| 0 <= k < j ==> (#[trigger] g[k]).title != t.nom@,
                ensures
                    j <= out.len(),
                    j < out.len() ==> g[j as int].title == t.nom@,
                    forall|k: int| 0 <= k < j ==> (#[trigger] g[k]).title != t.nom@,
                decreases out.len() - j,
            {
                assert(g[j as int] == out@[j as int].deep_view());
                if out[j].title == t.nom {
                    break;
                }
                j = j + 1;
            }
            proof {
                lemma_title_position(g, t.nom@, j as int);
            }
            if j < out.len() {
                let ghost nm = g[j as int];
                let mut n = out.remove(j);
                let ghost old_teams = n.teams@;
                n.teams.insert(t.tid, t.replicate());
                n.inner_queue.push(t.tid);
                assert(teams_model(n.teams@) =~= teams_model(old_teams).insert(t.tid, t.deep_view()));
                assert(n.deep_view() == with_team(nm, t.deep_view()));
                out.insert(j, n);
                assert(out.deep_view() =~= g.update(j as int, with_team(nm, t.deep_view())));
            } else {
                let mut m: HashMap<i32, Team> = HashMap::new();
                m.insert(t.tid, t.replicate());
                let mut q: Vec<i32> = Vec::new();
                q.push(t.tid);
                let n = NominationDeclaration { title: t.nom.clone(), teams: m, inner_queue: q };
                assert(teams_model(n.teams@) =~= Map::<i32, TeamModel>::empty().insert(t.tid, t.deep_view()));
                assert(n.inner_queue@ =~= seq![t.tid]);
                assert(n.deep_view() == fresh_nomination(t.deep_view()));
                let ghost before = out.deep_view();
                out.push(n);
                assert(out.deep_view() =~= before.push(fresh_nomination(t.deep_view())));
            }
            i = i + 1;
        }
        assert(tv.subrange(0, teams.len() as int) =~= tv);
        out
    }
}

proof fn lemma_title_position_found(noms: Seq<NominationDeclarationModel>, title: Seq<char>)
    ensures
        title_position(noms, title) matches Some(i) ==> 0 <= i < noms.len() && noms[i].title == title,
        title_position(noms, title) is None ==> forall|j: int| 0 <= j < noms.len() ==> (#[trigger] noms[j]).title != title,
    decreases noms.len(),
{
    if noms.len() > 0 {
        let d = noms.drop_last();
        lemma_title_position_found(d, title);
        if title_position(noms, title) is None {
            assert forall|j: int| 0 <= j < noms.len() implies (#[trigger] noms[j]).title != title by {
                if j < d.len() {
                    assert(noms[j] == d[j]);
                }
            }
        }
    }
}

/// Grouping teams by nomination gives one nomination per title, and every
/// team is in the nomination that it names: in its order and among its
/// teams.
pub proof fn law_teams_land_in_their_nomination(ts: Seq<TeamModel>)
    ensures
        forall|i: int, j: int|
            0 <= i < j < group_by_nomination(ts).len() ==> (#[trigger] group_by_nomination(ts)[i]).title
                != (#[trigger] group_by_nomination(ts)[j]).title,
        forall|k: int|
            0 <= k < ts.len() ==> exists|i: int|
                0 <= i < group_by_nomination(ts).len() && (#[trigger] group_by_nomination(ts)[i]).title
                    == (#[trigger] ts[k]).nom && group_by_nomination(ts)[i].inner_queue.contains(ts[k].tid)
                    && group_by_nomination(ts)[i].teams.contains_key(ts[k].tid),
    decreases ts.len(),
{
    if ts.len() > 0 {
        let d = ts.drop_last();
        law_teams_land_in_their_nomination(d);
        let g = group_by_nomination(d);
        let t = ts.last();
        let r = group_by_nomination(ts);
        lemma_title_position_found(g, t.nom);
        match title_position(g, t.nom) {
            Some(p) => {
                assert(r == g.update(p, with_team(g[p], t)));
                assert forall|i: int, j: int| 0 <= i < j < r.len() implies (#[trigger] r[i]).title != (#[trigger] r[j]).title by {
                    assert(r[i].title == g[i].title);
                    assert(r[j].title == g[j].title);
                }
                assert forall|k: int| 0 <= k < ts.len() implies exists|i: int|
                    0 <= i < r.len() && (#[trigger] r[i]).title == (#[trigger] ts[k]).nom && r[i].inner_queue.contains(ts[k].tid)
                        && r[i].teams.contains_key(ts[k].tid) by {
                    if k == ts.len() - 1 {
                        let q = r[p].inner_queue;
                        assert(q[q.len() - 1] == t.tid);
                        assert(r[p].teams.contains_key(t.tid));
                    } else {
                        assert(ts[k] == d[k]);
                        let i = choose|i: int|
                            0 <= i < g.len() && (#[trigger] g[i]).title == d[k].nom && g[i].inner_queue.contains(d[k].tid)
                                && g[i].teams.contains_key(d[k].tid);
                        if i == p {
                            let q = g[p].inner_queue;
                            let w = choose|w: int| 0 <= w < q.len() && q[w] == d[k].tid;
                            assert(r[p].inner_queue[w] == d[k].tid);
                        } else {
                            assert(r[i] == g[i]);
                        }
                    }
                }
            },
            None => {
                assert(r == g.push(fresh_nomination(t)));
                assert forall|i: int, j: int| 0 <= i < j < r.len() implies (#[trigger] r[i]).title != (#[trigger] r[j]).title by {
                    if j == g.len() {
                        assert(r[i] == g[i]);
                    } else {
                        assert(r[i] == g[i]);
                        assert(r[j] == g[j]);
                    }
                }
                assert forall|k: int| 0 <= k < ts.len() implies exists|i: int|
                    0 <= i < r.len() && (#[trigger] r[i]).title == (#[trigger] ts[k]).nom && r[i].inner_queue.contains(ts[k].tid)
                        && r[i].teams.contains_key(ts[k].tid) by {
                    if k == ts.len() - 1 {
                        let n = g.len() as int;
                        assert(r[n].inner_queue[0] == t.tid);
                        assert(r[n].teams.contains_key(t.tid));
                    } else {
                        assert(ts[k] == d[k]);
                        let i = choose|i: int|
                            0 <= i < g.len() && (#[trigger] g[i]).title == d[k].nom && g[i].inner_queue.contains(d[k].tid)
                                && g[i].teams.contains_key(d[k].tid);
                        assert(r[i] == g[i]);
                    }
                }
            },
        }
    }
}

} // verus!
