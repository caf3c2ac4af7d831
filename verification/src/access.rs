//! Which of a user's permissions concern a competition, and whether they
//! let the user send a given message to its event queue.
use vstd::prelude::*;

use crate::proto::{Empty, Id, Judge, JudgeScheme, Message, MessageModel, Role};
use crate::replicate::Replicate;
use crate::scheme::group_id;
use crate::tokens::{grants, holds_id, AccessModel, AccessType, PermModel, PermissionComparator, Permissions};

verus! {

/// Whether access `a` lets its holder at competition `coid`.
pub open spec fn access_includes(a: AccessModel, coid: i32) -> bool {
    match a {
        AccessModel::All => true,
        AccessModel::List(l) => l.contains(coid),
    }
}

/// Whether permission `p` concerns competition `coid`; watching counts only
/// where `watchers` is set.
pub open spec fn concerns(p: PermModel, coid: i32, watchers: bool) -> bool {
    match p {
        PermModel::Administrate => true,
        PermModel::Moderator(a) => access_includes(a, coid),
        PermModel::Watch(a) => watchers && access_includes(a, coid),
        PermModel::Judge(c, _, _) => c == coid,
        PermModel::Secretary(c) => c == coid,
        PermModel::Arbitor(c, _) => c == coid,
        PermModel::Create => false,
    }
}

/// The permissions held in organisation `org` that concern competition
/// `coid`, in the order in which they are held.
pub open spec fn org_perms(ps: Seq<(i32, Seq<PermModel>)>, org: i32, coid: i32, watchers: bool) -> Seq<PermModel>
    decreases ps.len(),
{
    if ps.len() == 0 {
        Seq::empty()
    } else {
        org_perms(ps.drop_last(), org, coid, watchers) + if ps.last().0 == org {
            ps.last().1.filter(|p: PermModel| concerns(p, coid, watchers))
        } else {
            Seq::empty()
        }
    }
}

fn access_includes_exec(a: &AccessType<i32>, coid: i32) -> (r: bool)
    ensures
        r == access_includes(a.deep_view(), coid),
{
    match a {
        AccessType::All => true,
        AccessType::List(l) => holds_id(l, coid),
    }
}

fn concerns_exec(p: &Permissions, coid: i32, watchers: bool) -> (r: bool)
    ensures
        r == concerns(p.deep_view(), coid, watchers),
{
    match p {
        Permissions::Administrate => true,
        Permissions::Moderator(a) => access_includes_exec(a, coid),
        Permissions::Watch(a) => watchers && access_includes_exec(a, coid),
        Permissions::Judge(c, _, _) => *c == coid,
        Permissions::Secretary(c) => *c == coid,
        Permissions::Arbitor(c, _) => *c == coid,
        Permissions::Create => false,
    }
}

/// The permissions that `perms` holds in organisation `org` and that concern
/// competition `coid`: administration, moderation or (where `watchers` is
/// set) watching with access to it, and judging, secretary and supervisor
/// posts in it.
pub fn competition_perms(perms: &Vec<(i32, Vec<Permissions>)>, org: i32, coid: i32, watchers: bool) -> (r: Vec<Permissions>)
    ensures
        r.deep_view() == org_perms(perms.deep_view(), org, coid, watchers),
{
    let ghost ps = perms.deep_view();
    let mut out: Vec<Permissions> = Vec::new();
    let mut i: usize = 0;
    assert(out.deep_view() =~= Seq::<PermModel>::empty());
    while i < perms.len()
        invariant
            i <= perms.len(),
            ps == perms.deep_view(),
            out.deep_view() == org_perms(ps.subrange(0, i as int), org, coid, watchers),
        decreases perms.len() - i,
    {
        let ghost before = out.deep_view();
        let ghost pre = ps.subrange(0, i as int);
        let ghost post = ps.subrange(0, i + 1);
        assert(post.drop_last() =~= pre);
        assert(post.last() == ps[i as int]);
        assert(ps[i as int] == perms@[i as int].deep_view());
        let ghost pred = |p: PermModel| concerns(p, coid, watchers);
        if perms[i].0 == org {
            let inner = &perms[i].1;
            let ghost held = inner.deep_view();
            let mut j: usize = 0;
            assert(held.subrange(0, 0).filter(pred) =~= Seq::<PermModel>::empty());
            assert(out.deep_view() =~= before + held.subrange(0, 0).filter(pred));
            while j < inner.len()
                invariant
                    j <= inner.len(),
                    held == inner.deep_view(),
                    pred == (|p: PermModel| concerns(p, coid, watchers)),
                    out.deep_view() == before + held.subrange(0, j as int).filter(pred),
                decreases inner.len() - j,
            {
                let ghost part = held.subrange(0, j as int);
                let ghost outv = out.deep_view();
                assert(held.subrange(0, j + 1) =~= part.push(held[j as int]));
                proof {
                    part.lemma_filter_push(held[j as int], pred);
                }
                assert(held[j as int] == inner@[j as int].deep_view());
                if concerns_exec(&inner[j], coid, watchers) {
                    let p = inner[j].replicate();
                    out.push(p);
                    assert(out.deep_view() =~= outv.push(held[j as int]));
                    assert(pred(held[j as int]));
                    assert(out.deep_view() =~= before + held.subrange(0, j + 1).filter(pred));
                } else {
                    assert(out.deep_view() =~= outv);
                    assert(!pred(held[j as int]));
                    assert(out.deep_view() =~= before + held.subrange(0, j + 1).filter(pred));
                }
                j = j + 1;
            }
            assert(held.subrange(0, inner.len() as int) =~= held);
        } else {
            assert(out.deep_view() =~= before + Seq::<PermModel>::empty());
        }
        i = i + 1;
    }
    assert(ps.subrange(0, perms.len() as int) =~= ps);
    out
}

/// Whether `held` names its holder a supervisor (an arbitor of some queue)
/// of competition `coid`.
pub open spec fn supervises(held: Seq<PermModel>, coid: i32) -> bool {
    exists|i: int| 0 <= i < held.len() && (#[trigger] held[i] matches PermModel::Arbitor(c, _) && c == coid)
}

/// The mark group that a vote names, or -1 where the name is unknown.
pub open spec fn vote_group(mark_type: Seq<char>) -> i32 {
    match group_id(mark_type) {
        Some(g) => g,
        None => -1i32,
    }
}

/// Whether permissions `held` let their holder send `msg` to the event queue
/// of competition `coid`: administrators and moderators of it may send
/// anything; a judge may vote in the queue and mark group of the post; a
/// supervisor may give verdicts on votes; the secretary may close votings,
/// move queues on and block. Other messages are refused.
///
/// A supervisor is an arbitor of any queue of the competition
/// (`supervises`), so an arbitor may give verdicts on the votes of every
/// queue. A verdict message names no queue, only the vote it judges, and the
/// service asks for a supervisor of the whole competition; the permission
/// that comes nearest to that is being arbitor of one of its queues. The
/// arbitor's screen offers verdict buttons on the votes of the arbitor's own
/// queue only (`screens::verdict_queue`); the service does not hold the
/// arbitor to that queue.
pub open spec fn may_push(held: Seq<PermModel>, coid: i32, msg: MessageModel) -> bool {
    ||| grants(held, PermModel::Administrate)
    ||| grants(held, PermModel::Moderator(AccessModel::List(seq![coid])))
    ||| match msg {
        MessageModel::VoteMessage(v) => grants(
            held,
            PermModel::Judge(coid, v.queue_id, vote_group(v.mark_type)),
        ),
        MessageModel::VerifyMessage(_) => supervises(held, coid),
        MessageModel::FixVoting(_) => grants(held, PermModel::Secretary(coid)),
        MessageModel::TryNext(_) => grants(held, PermModel::Secretary(coid)),
        MessageModel::Block(_) => grants(held, PermModel::Secretary(coid)),
        _ => false,
    }
}

fn supervises_exec(held: &Vec<Permissions>, coid: i32) -> (r: bool)
    ensures
        r == supervises(held.deep_view(), coid),
{
    let ghost h = held.deep_view();
    let mut i: usize = 0;
    while i < held.len()
        invariant
            i <= held.len(),
            h == held.deep_view(),
            forall|j: int| 0 <= j < i ==> !(#[trigger] h[j] matches PermModel::Arbitor(c, _) && c == coid),
        decreases held.len() - i,
    {
        assert(h[i as int] == held@[i as int].deep_view());
        match &held[i] {
            Permissions::Arbitor(c, _) => {
                if *c == coid {
                    return true;
                }
            },
            _ => {},
        }
        i = i + 1;
    }
    false
}

/// Whether `perms` let their holder send `msg` to the event queue of
/// competition `coid`, judged under `scheme`.
pub fn message_permitted(perms: &PermissionComparator, coid: i32, scheme: JudgeScheme, msg: &Message) -> (r: bool)
    ensures
        r == may_push(perms.held(), coid, msg.deep_view()),
{
    if perms.contains(&Permissions::Administrate) {
        return true;
    }
    let mut ids: Vec<i32> = Vec::new();
    ids.push(coid);
    assert(ids@ =~= seq![coid]);
    if perms.contains(&Permissions::Moderator(AccessType::List(ids))) {
        return true;
    }
    match msg {
        Message::VoteMessage(vote) => {
            let group = match scheme.get_judgement_group_id(vote.mark_type.clone()) {
                Ok(g) => g,
                Err(_) => -1,
            };
            perms.contains(&Permissions::Judge(coid, vote.queue_id, group))
        },
        Message::VerifyMessage(_) => supervises_exec(&perms.0, coid),
        Message::FixVoting(_) => perms.contains(&Permissions::Secretary(coid)),
        Message::TryNext(_) => perms.contains(&Permissions::Secretary(coid)),
        Message::Block(_) => perms.contains(&Permissions::Secretary(coid)),
        _ => false,
    }
}

/// Whether `held` makes its holder an administrator of competition `coid`:
/// administration of the organisation, or moderation with access to it.
pub open spec fn admin_of(held: Seq<PermModel>, coid: i32) -> bool {
    exists|i: int|
        0 <= i < held.len() && (#[trigger] held[i] is Administrate || (held[i] matches PermModel::Moderator(a)
            && access_includes(a, coid)))
}

/// The role that a permission gives inside its competition, if any.
pub open spec fn role_of(p: PermModel) -> Option<Role> {
    match p {
        PermModel::Watch(_) => Some(Role::Watcher(Empty {})),
        PermModel::Judge(_, q, g) => Some(Role::Judge(Judge { queue: q, mark_group: g })),
        PermModel::Secretary(_) => Some(Role::Secretary(Empty {})),
        PermModel::Arbitor(_, q) => Some(Role::Arbitor(Id { id: q })),
        _ => None,
    }
}

/// The roles that the permissions in `held` give, in order.
pub open spec fn roles_of(held: Seq<PermModel>) -> Seq<Role>
    decreases held.len(),
{
    if held.len() == 0 {
        Seq::empty()
    } else {
        roles_of(held.drop_last()) + match role_of(held.last()) {
            Some(r) => seq![r],
            None => Seq::empty(),
        }
    }
}

/// The roles of a user inside competition `coid` of organisation `org`: the
/// owner of the organisation and its administrators and moderators are
/// moderators of the competition, and nothing else; anyone else has a role
/// for each judging, secretary or supervisor post held in it.
pub open spec fn comp_roles_model(perms: Seq<(i32, Seq<PermModel>)>, org: i32, coid: i32, owner: bool) -> Seq<Role> {
    let held = org_perms(perms, org, coid, false);
    if owner || admin_of(held, coid) {
        seq![Role::Moderator(Empty {})]
    } else {
        roles_of(held)
    }
}

/// The roles of a user holding `perms`, owner of organisation `org` or not,
/// inside competition `coid` of that organisation.
pub fn comp_roles(perms: &Vec<(i32, Vec<Permissions>)>, org: i32, coid: i32, owner: bool) -> (r: Vec<Role>)
    ensures
        r@ == comp_roles_model(perms.deep_view(), org, coid, owner),
{
    let held = competition_perms(perms, org, coid, false);
    let ghost h = held.deep_view();
    let mut admin = owner;
    let mut i: usize = 0;
    while i < held.len()
        invariant
            i <= held.len(),
            h == held.deep_view(),
            admin == (owner || exists|j: int|
                0 <= j < i && (#[trigger] h[j] is Administrate || (h[j] matches PermModel::Moderator(a)
                    && access_includes(a, coid)))),
        decreases held.len() - i,
    {
        assert(h[i as int] == held@[i as int].deep_view());
        let hit = match &held[i] {
            Permissions::Administrate => true,
            Permissions::Moderator(a) => access_includes_exec(a, coid),
            _ => false,
        };
        if hit {
            admin = true;
        }
        i = i + 1;
    }
    if admin {
        let mut r: Vec<Role> = Vec::new();
        r.push(Role::Moderator(Empty {}));
        assert(r@ =~= seq![Role::Moderator(Empty {})]);
        return r;
    }
    let mut r: Vec<Role> = Vec::new();
    let mut k: usize = 0;
    assert(h.subrange(0, 0) =~= Seq::<PermModel>::empty());
    assert(r@ =~= roles_of(h.subrange(0, 0)));
    while k < held.len()
        invariant
            k <= held.len(),
            h == held.deep_view(),
            r@ == roles_of(h.subrange(0, k as int)),
        decreases held.len() - k,
    {
        assert(h[k as int] == held@[k as int].deep_view());
        let ghost pre = h.subrange(0, k as int);
        let ghost post = h.subrange(0, k + 1);
        assert(post.drop_last() =~= pre);
        assert(post.last() == h[k as int]);
        let ghost before = r@;
        match &held[k] {
            Permissions::Watch(_) => r.push(Role::Watcher(Empty {})),
            Permissions::Judge(_, q, g) => r.push(Role::Judge(Judge { queue: *q, mark_group: *g })),
            Permissions::Secretary(_) => r.push(Role::Secretary(Empty {})),
            Permissions::Arbitor(_, q) => r.push(Role::Arbitor(Id { id: *q })),
            _ => {},
        }
        assert(r@ =~= roles_of(post));
        k = k + 1;
    }
    assert(h.subrange(0, held.len() as int) =~= h);
    r
}

} // verus!
