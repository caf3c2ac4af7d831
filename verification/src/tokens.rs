//! Permissions carried by access tokens, and the claims of a token.
use vstd::prelude::*;

use crate::replicate::Replicate;

verus! {

/// Size of the secret that signs tokens, in bytes.
pub const SECRETSIZE: usize = 1024;

/// Length of the random value that identifies a token.
pub const TOKENSIZE: usize = 64;

/// Access to every object, or to the listed ones.
#[derive(Clone, Debug, PartialEq)]
pub enum AccessType<T> {
    All,
    List(Vec<T>),
}

pub enum AccessModel {
    All,
    List(Seq<i32>),
}

impl DeepView for AccessType<i32> {
    type V = AccessModel;

    open spec fn deep_view(&self) -> AccessModel {
        match self {
            AccessType::All => AccessModel::All,
            AccessType::List(v) => AccessModel::List(v@),
        }
    }
}

impl Replicate for AccessType<i32> {
    fn replicate(&self) -> (r: Self) {
        match self {
            AccessType::All => AccessType::All,
            AccessType::List(v) => {
                let c = v.replicate();
                assert(c@ =~= v@) by {
                    assert(c.deep_view() =~= c@);
                    assert(v.deep_view() =~= v@);
                }
                AccessType::List(c)
            },
        }
    }
}

/// Whether access `a` covers access `b`: everything covers everything, and a
/// list covers a list of objects that it holds.
pub open spec fn access_covers(a: AccessModel, b: AccessModel) -> bool {
    match (a, b) {
        (AccessModel::All, _) => true,
        (AccessModel::List(_), AccessModel::All) => false,
        (AccessModel::List(sf), AccessModel::List(ot)) => forall|i: int|
            0 <= i < ot.len() ==> sf.contains(#[trigger] ot[i]),
    }
}

/// Whether two vectors hold the same elements in the same order.
pub fn same_ids(a: &Vec<i32>, b: &Vec<i32>) -> (r: bool)
    ensures
        r == (a@ == b@),
{
    if a.len() != b.len() {
        return false;
    }
    let mut i: usize = 0;
    while i < a.len()
        invariant
            a@.len() == b@.len(),
            i <= a@.len(),
            forall|j: int| 0 <= j < i ==> a@[j] == b@[j],
        decreases a@.len() - i,
    {
        if a[i] != b[i] {
            return false;
        }
        i = i + 1;
    }
    assert(a@ =~= b@);
    true
}

/// Whether `v` holds `x`.
pub fn holds_id(v: &Vec<i32>, x: i32) -> (r: bool)
    ensures
        r == v@.contains(x),
{
    let mut i: usize = 0;
    while i < v.len()
        invariant
            i <= v@.len(),
            forall|j: int| 0 <= j < i ==> v@[j] != x,
        decreases v@.len() - i,
    {
        if v[i] == x {
            assert(v@[i as int] == x);
            return true;
        }
        i = i + 1;
    }
    false
}

impl AccessType<i32> {
    /// Whether this access covers `other`.
    pub fn contains(&self, other: &Self) -> (r: bool)
        ensures
            r == access_covers(self.deep_view(), other.deep_view()),
    {
        match (self, other) {
            (AccessType::All, AccessType::All) => true,
            (AccessType::All, AccessType::List(_)) => true,
            (AccessType::List(_), AccessType::All) => false,
            (AccessType::List(sf), AccessType::List(ot)) => {
                let mut i: usize = 0;
                while i < ot.len()
                    invariant
                        self.deep_view() == AccessModel::List(sf@),
                        other.deep_view() == AccessModel::List(ot@),
                        i <= ot@.len(),
                        forall|j: int| 0 <= j < i ==> sf@.contains(#[trigger] ot@[j]),
                    decreases ot@.len() - i,
                {
                    if !holds_id(sf, ot[i]) {
                        assert(!sf@.contains(ot@[i as int]));
                        let ghost a = self.deep_view();
                        let ghost b = other.deep_view();
                        assert(b->List_0[i as int] == ot@[i as int]);
                        assert(!access_covers(a, b));
                        return false;
                    }
                    i = i + 1;
                }
                true
            },
        }
    }

    /// Whether the two accesses are the same.
    pub fn same_as(&self, other: &Self) -> (r: bool)
        ensures
            r == (self.deep_view() == other.deep_view()),
    {
        match (self, other) {
            (AccessType::List(l), AccessType::List(r)) => same_ids(l, r),
            (AccessType::All, AccessType::All) => true,
            _ => false,
        }
    }
}

/// What a user may do inside an organisation.
#[derive(Clone, Debug, PartialEq)]
pub enum Permissions {
    /// Watch the listed private competitions
    Watch(AccessType<i32>),
    /// Create new competitions
    Create,
    /// Moderate competitions: change them, set up judges and so on
    Moderator(AccessType<i32>),
    /// Administrate the organisation
    Administrate,
    /// Judge(competition, queue, mark group)
    Judge(i32, i32, i32),
    /// Secretary(competition)
    Secretary(i32),
    /// Arbitor(competition, queue)
    Arbitor(i32, i32),
}

pub enum PermModel {
    Watch(AccessModel),
    Create,
    Moderator(AccessModel),
    Administrate,
    Judge(i32, i32, i32),
    Secretary(i32),
    Arbitor(i32, i32),
}

impl DeepView for Permissions {
    type V = PermModel;

    open spec fn deep_view(&self) -> PermModel {
        match self {
            Permissions::Watch(a) => PermModel::Watch(a.deep_view()),
            Permissions::Create => PermModel::Create,
            Permissions::Moderator(a) => PermModel::Moderator(a.deep_view()),
            Permissions::Administrate => PermModel::Administrate,
            Permissions::Judge(c, q, g) => PermModel::Judge(*c, *q, *g),
            Permissions::Secretary(c) => PermModel::Secretary(*c),
            Permissions::Arbitor(c, q) => PermModel::Arbitor(*c, *q),
        }
    }
}

impl Replicate for Permissions {
    fn replicate(&self) -> (r: Self) {
        match self {
            Permissions::Watch(a) => Permissions::Watch(a.replicate()),
            Permissions::Create => Permissions::Create,
            Permissions::Moderator(a) => Permissions::Moderator(a.replicate()),
            Permissions::Administrate => Permissions::Administrate,
            Permissions::Judge(c, q, g) => Permissions::Judge(*c, *q, *g),
            Permissions::Secretary(c) => Permissions::Secretary(*c),
            Permissions::Arbitor(c, q) => Permissions::Arbitor(*c, *q),
        }
    }
}

pub open spec fn permission_name(p: PermModel) -> Seq<char> {
    match p {
        PermModel::Watch(_) => "Watch"@,
        PermModel::Create => "Create"@,
        PermModel::Moderator(_) => "Moderator"@,
        PermModel::Administrate => "Administrate"@,
        PermModel::Judge(_, _, _) => "Judge"@,
        PermModel::Secretary(_) => "Secreatary"@,
        PermModel::Arbitor(_, _) => "Arbitor"@,
    }
}

impl Permissions {
    /// Whether the two permissions are the same.
    pub fn same_as(&self, other: &Self) -> (r: bool)
        ensures
            r == (self.deep_view() == other.deep_view()),
    {
        match (self, other) {
            (Permissions::Watch(l), Permissions::Watch(r)) => l.same_as(r),
            (Permissions::Moderator(l), Permissions::Moderator(r)) => l.same_as(r),
            (Permissions::Judge(l0, l1, l2), Permissions::Judge(r0, r1, r2)) => *l0 == *r0 && *l1
                == *r1 && *l2 == *r2,
            (Permissions::Secretary(l), Permissions::Secretary(r)) => *l == *r,
            (Permissions::Arbitor(l0, l1), Permissions::Arbitor(r0, r1)) => *l0 == *r0 && *l1
                == *r1,
            (Permissions::Create, Permissions::Create) => true,
            (Permissions::Administrate, Permissions::Administrate) => true,
            _ => false,
        }
    }

    /// The name of the kind of permission.
    pub fn to_string(&self) -> (r: String)
        ensures
            r@ == permission_name(self.deep_view()),
    {
        let s = match self {
            Permissions::Watch(_) => "Watch",
            Permissions::Create => "Create",
            Permissions::Moderator(_) => "Moderator",
            Permissions::Administrate => "Administrate",
            Permissions::Judge(_, _, _) => "Judge",
            Permissions::Secretary(_) => "Secreatary",
            Permissions::Arbitor(_, _) => "Arbitor",
        };
        s.to_owned()
    }
}

/// Whether a list of permissions grants `p`: a moderator's access covers a
/// moderation it includes; any other permission must be held as it is.
pub open spec fn grants(held: Seq<PermModel>, p: PermModel) -> bool {
    match p {
        PermModel::Moderator(acc) => exists|i: int|
            0 <= i < held.len() && (#[trigger] held[i] matches PermModel::Moderator(a2)
                && access_covers(a2, acc)),
        _ => held.contains(p),
    }
}

/// A list of permissions, asked whether it grants a permission.
pub struct PermissionComparator(pub Vec<Permissions>);

impl PermissionComparator {
    pub open spec fn held(&self) -> Seq<PermModel> {
        self.0.deep_view()
    }

    /// Whether the held permissions grant `perm`. Asking about `Watch` is not
    /// supported.
    pub fn contains(&self, perm: &Permissions) -> (r: bool)
        requires
            !(perm is Watch),
        ensures
            r == grants(self.held(), perm.deep_view()),
    {
        let ghost held = self.held();
        let mut i: usize = 0;
        match perm {
            Permissions::Moderator(acc) => {
                while i < self.0.len()
                    invariant
                        held == self.held(),
                        *perm == Permissions::Moderator(*acc),
                        i <= held.len(),
                        forall|j: int|
                            0 <= j < i ==> !(#[trigger] held[j] matches PermModel::Moderator(a2)
                                && access_covers(a2, acc.deep_view())),
                    decreases held.len() - i,
                {
                    let hit = match &self.0[i] {
                        Permissions::Moderator(acc2) => acc2.contains(acc),
                        _ => false,
                    };
                    assert(held[i as int] == self.0@[i as int].deep_view());
                    if hit {
                        return true;
                    }
                    i = i + 1;
                }
                false
            },
            _ => {
                while i < self.0.len()
                    invariant
                        held == self.held(),
                        i <= held.len(),
                        forall|j: int| 0 <= j < i ==> held[j] != perm.deep_view(),
                    decreases held.len() - i,
                {
                    assert(held[i as int] == self.0@[i as int].deep_view());
                    if self.0[i].same_as(perm) {
                        return true;
                    }
                    i = i + 1;
                }
                false
            },
        }
    }
}

/// Access covers itself, and covering is transitive: permissions of
/// moderators form a preorder, with `All` above everything.
pub proof fn law_access_covers_preorder(a: AccessModel, b: AccessModel, c: AccessModel)
    ensures
        access_covers(a, a),
        access_covers(a, b) && access_covers(b, c) ==> access_covers(a, c),
        access_covers(AccessModel::All, b),
        access_covers(b, AccessModel::All) ==> b is All,
{
    match a {
        AccessModel::List(sa) => {
            assert forall|i: int| 0 <= i < sa.len() implies sa.contains(#[trigger] sa[i]) by {
            }
        },
        _ => {},
    }
    if access_covers(a, b) && access_covers(b, c) {
        match (a, b, c) {
            (AccessModel::List(sa), AccessModel::List(sb), AccessModel::List(sc)) => {
                assert forall|i: int| 0 <= i < sc.len() implies sa.contains(#[trigger] sc[i]) by {
                    assert(sb.contains(sc[i]));
                    let j = choose|j: int| 0 <= j < sb.len() && sb[j] == sc[i];
                    assert(sa.contains(sb[j]));
                }
            },
            _ => {},
        }
    }
}

} // verus!
