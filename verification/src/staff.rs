//! The staff accounts made for a declared competition: judges for every mark
//! group of every queue, a supervisor per queue and one secretary, each with
//! a fresh login and password.
use vstd::prelude::*;

use crate::external::{is_alphanumeric, random_alphanumeric};
use crate::proto::{AuthRequest, CompDeclaration, JudgeScheme, Pack, PasswordPackage};
use crate::scheme::{scheme_from_code, scheme_sizes};
use crate::text::{int_digits, push_i64};
use crate::tokens::{PermModel, Permissions};

verus! {

/// The upper case of an ASCII lower case letter; any other character as it
/// is.
pub open spec fn ascii_upper(c: char) -> char {
    if 'a' <= c && c <= 'z' {
        ((c as u32) - 32) as char
    } else {
        c
    }
}

/// An ASCII upper case letter or digit.
pub open spec fn upper_alphanumeric(c: char) -> bool {
    ('A' <= c && c <= 'Z') || ('0' <= c && c <= '9')
}

/// A password of a staff account: fifteen upper case letters and digits.
pub open spec fn password_ok(p: Seq<char>) -> bool {
    p.len() == 15 && forall|i: int| 0 <= i < p.len() ==> upper_alphanumeric(#[trigger] p[i])
}

/// `login` is `prefix` followed by `n` ASCII letters and digits.
pub open spec fn login_ok(login: Seq<char>, prefix: Seq<char>, n: nat) -> bool {
    &&& login.len() == prefix.len() + n
    &&& login.subrange(0, prefix.len() as int) == prefix
    &&& forall|i: int| prefix.len() <= i < login.len() ==> is_alphanumeric(#[trigger] login[i])
}

/// `o<organisation>c<competition>`.
pub open spec fn staff_stem(org: i32, cid: i32) -> Seq<char> {
    seq!['o'] + int_digits(org as int) + seq!['c'] + int_digits(cid as int)
}

/// `o<organisation>c<competition>q<queue>judge<group>u<number>`.
pub open spec fn judge_prefix(org: i32, cid: i32, q: int, g: int, u: int) -> Seq<char> {
    staff_stem(org, cid) + seq!['q'] + int_digits(q) + seq!['j', 'u', 'd', 'g', 'e'] + int_digits(g)
        + seq!['u'] + int_digits(u)
}

/// `o<organisation>c<competition>q<queue>sup`.
pub open spec fn supervisor_prefix(org: i32, cid: i32, q: int) -> Seq<char> {
    staff_stem(org, cid) + seq!['q'] + int_digits(q) + seq!['s', 'u', 'p']
}

/// `o<organisation>c<competition>sec`.
pub open spec fn secretary_prefix(org: i32, cid: i32) -> Seq<char> {
    staff_stem(org, cid) + seq!['s', 'e', 'c']
}

/// `Judges-queue<queue>-group-<group>`.
pub open spec fn judges_mark(q: int, g: int) -> Seq<char> {
    seq!['J', 'u', 'd', 'g', 'e', 's', '-', 'q', 'u', 'e', 'u', 'e'] + int_digits(q) + seq![
        '-',
        'g',
        'r',
        'o',
        'u',
        'p',
        '-',
    ] + int_digits(g)
}

/// `Arbitor-queue-<queue>`.
pub open spec fn arbitor_mark(q: int) -> Seq<char> {
    seq!['A', 'r', 'b', 'i', 't', 'o', 'r', '-', 'q', 'u', 'e', 'u', 'e', '-'] + int_digits(q)
}

/// `secretary`.
pub open spec fn secretary_mark() -> Seq<char> {
    seq!['s', 'e', 'c', 'r', 'e', 't', 'a', 'r', 'y']
}

/// Pack `k` of the staff of a competition: for queue `k / 4`, the judges of
/// mark groups 0, 1 and 2 (as many as the scheme gives the group), then the
/// supervisor.
pub open spec fn staff_pack_ok(org: i32, cid: i32, scheme: JudgeScheme, k: int, p: Pack) -> bool {
    let q = k / 4;
    let g = k % 4;
    if g == 3 {
        &&& p.mark@ == arbitor_mark(q)
        &&& p.logins@.len() == 1
        &&& login_ok(p.logins@[0].login@, supervisor_prefix(org, cid, q), 5)
        &&& password_ok(p.logins@[0].password@)
    } else {
        &&& p.mark@ == judges_mark(q, g)
        &&& p.logins@.len() == scheme_sizes(scheme)[g]
        &&& forall|u: int|
            0 <= u < p.logins@.len() ==> login_ok(
                (#[trigger] p.logins@[u]).login@,
                judge_prefix(org, cid, q, g, u),
                5,
            ) && password_ok(p.logins@[u].password@)
    }
}

/// The permission that the accounts of pack `k` get in competition `cid`.
pub open spec fn pack_permission(cid: i32, k: int) -> PermModel {
    if k % 4 == 3 {
        PermModel::Arbitor(cid, (k / 4) as i32)
    } else {
        PermModel::Judge(cid, (k / 4) as i32, (k % 4) as i32)
    }
}

fn push_lit(out: &mut String, lit: &str)
    ensures
        final(out)@ == old(out)@ + lit@,
{
    out.append(lit);
}

fn upper(c: char) -> (r: char)
    ensures
        r == ascii_upper(c),
{
    if 'a' <= c && c <= 'z' {
        let b: u8 = (c as u32 - 32) as u8;
        b as char
    } else {
        c
    }
}

/// A fresh password: fifteen random ASCII letters and digits, in upper case.
fn new_password() -> (r: String)
    ensures
        password_ok(r@),
{
    let raw = random_alphanumeric(15);
    let n = raw.as_str().unicode_len();
    let mut out = String::new();
    let mut i: usize = 0;
    while i < n
        invariant
            n == raw@.len(),
            i <= n,
            forall|j: int| 0 <= j < raw@.len() ==> is_alphanumeric(#[trigger] raw@[j]),
            out@.len() == i,
            forall|j: int| 0 <= j < i ==> upper_alphanumeric(#[trigger] out@[j]),
        decreases n - i,
    {
        let c = raw.as_str().get_char(i);
        assert(is_alphanumeric(raw@[i as int]));
        let u = upper(c);
        let ghost before = out@;
        crate::text::append_char(&mut out, u);
        assert(out@[i as int] == u);
        i = i + 1;
    }
    out
}

/// `prefix` followed by `n` random ASCII letters and digits.
fn new_login(prefix: String, n: usize) -> (r: String)
    ensures
        login_ok(r@, prefix@, n as nat),
{
    let suffix = random_alphanumeric(n);
    let mut out = prefix;
    let ghost p = out@;
    out.append(suffix.as_str());
    assert(out@.subrange(0, p.len() as int) =~= p);
    assert forall|i: int| p.len() <= i < out@.len() implies is_alphanumeric(#[trigger] out@[i]) by {
        assert(out@[i] == suffix@[i - p.len()]);
    }
    out
}

fn stem(org: i32, cid: i32) -> (r: String)
    ensures
        r@ == staff_stem(org, cid),
{
    proof {
        reveal_strlit("o");
        reveal_strlit("c");
    }
    let mut s = String::new();
    push_lit(&mut s, "o");
    push_i64(&mut s, org as i64);
    push_lit(&mut s, "c");
    push_i64(&mut s, cid as i64);
    assert(s@ =~= staff_stem(org, cid));
    s
}

/// The password package of the staff of competition `cid`, declared as
/// `declaration`: for each queue, a pack of judges for each of the three mark
/// groups (as many as the scheme gives the group) and a pack with the
/// supervisor; last, a pack with the secretary. Every login is its prefix
/// followed by random letters and digits, every password fresh.
pub fn staff_package(cid: i32, declaration: &CompDeclaration) -> (r: PasswordPackage)
    requires
        scheme_from_code(declaration.scheme) is Some,
        declaration.queues@.len() <= i32::MAX + 1,
    ensures
        r.scheme == declaration.scheme,
        r.passwords@.len() == 4 * declaration.queues@.len() + 1,
        forall|k: int|
            0 <= k < 4 * declaration.queues@.len() ==> staff_pack_ok(
                declaration.related_organisation_id,
                cid,
                scheme_from_code(declaration.scheme).unwrap(),
                k,
                #[trigger] r.passwords@[k],
            ),
        r.passwords@.last().mark@ == secretary_mark(),
        r.passwords@.last().logins@.len() == 1,
        login_ok(
            r.passwords@.last().logins@[0].login@,
            secretary_prefix(declaration.related_organisation_id, cid),
            7,
        ),
        password_ok(r.passwords@.last().logins@[0].password@),
{
    proof {
        reveal_strlit("secretary");
    }
    let scheme = match JudgeScheme::try_from_code(declaration.scheme) {
        Some(s) => s,
        None => JudgeScheme::FourFourOne,
    };
    let sizes = scheme.get_lens();
    let org = declaration.related_organisation_id;
    let n = declaration.queues.len();
    let mut packs: Vec<Pack> = Vec::new();
    let mut q: usize = 0;
    while q < n
        invariant
            n == declaration.queues@.len(),
            n <= i32::MAX + 1,
            q <= n,
            scheme == scheme_from_code(declaration.scheme).unwrap(),
            sizes@ == scheme_sizes(scheme),
            org == declaration.related_organisation_id,
            packs@.len() == 4 * q,
            forall|k: int| 0 <= k < 4 * q ==> staff_pack_ok(org, cid, scheme, k, #[trigger] packs@[k]),
        decreases n - q,
    {
        let mut g: usize = 0;
        while g < 3
            invariant
                q < n,
                n <= i32::MAX + 1,
                g <= 3,
                sizes@ == scheme_sizes(scheme),
                sizes@.len() == 3,
                packs@.len() == 4 * q + g,
                forall|k: int| 0 <= k < 4 * q + g ==> staff_pack_ok(org, cid, scheme, k, #[trigger] packs@[k]),
            decreases 3 - g,
        {
            let size = sizes[g];
            let mut logins: Vec<AuthRequest> = Vec::new();
            let mut u: i32 = 0;
            while u < size
                invariant
                    q < n,
                    n <= i32::MAX + 1,
                    g < 3,
                    0 <= u,
                    size >= 0 ==> u <= size,
                    logins@.len() == u,
                    forall|j: int|
                        0 <= j < u ==> login_ok(
                            (#[trigger] logins@[j]).login@,
                            judge_prefix(org, cid, q as int, g as int, j),
                            5,
                        ) && password_ok(logins@[j].password@),
                decreases size - u,
            {
                proof {
                    reveal_strlit("q");
                    reveal_strlit("judge");
                    reveal_strlit("u");
                }
                let mut prefix = stem(org, cid);
                push_lit(&mut prefix, "q");
                push_i64(&mut prefix, q as i64);
                push_lit(&mut prefix, "judge");
                push_i64(&mut prefix, g as i64);
                push_lit(&mut prefix, "u");
                push_i64(&mut prefix, u as i64);
                assert(prefix@ =~= judge_prefix(org, cid, q as int, g as int, u as int));
                let login = new_login(prefix, 5);
                let password = new_password();
                logins.push(AuthRequest { login, password });
                u = u + 1;
            }
            assert(scheme_sizes(scheme)[g as int] >= 0);
            proof {
                reveal_strlit("Judges-queue");
                reveal_strlit("-group-");
            }
            let mut mark = String::new();
            push_lit(&mut mark, "Judges-queue");
            push_i64(&mut mark, q as i64);
            push_lit(&mut mark, "-group-");
            push_i64(&mut mark, g as i64);
            assert(mark@ =~= judges_mark(q as int, g as int));
            let ghost k = 4 * q + g;
            assert(k / 4 == q && k % 4 == g);
            packs.push(Pack { mark, logins });
            g = g + 1;
        }
        proof {
            reveal_strlit("q");
            reveal_strlit("sup");
            reveal_strlit("Arbitor-queue-");
        }
        let mut prefix = stem(org, cid);
        push_lit(&mut prefix, "q");
        push_i64(&mut prefix, q as i64);
        push_lit(&mut prefix, "sup");
        assert(prefix@ =~= supervisor_prefix(org, cid, q as int));
        let login = new_login(prefix, 5);
        let password = new_password();
        let mut sup: Vec<AuthRequest> = Vec::new();
        sup.push(AuthRequest { login, password });
        let mut mark = String::new();
        push_lit(&mut mark, "Arbitor-queue-");
        push_i64(&mut mark, q as i64);
        assert(mark@ =~= arbitor_mark(q as int));
        let ghost k = 4 * q + 3;
        assert(k / 4 == q && k % 4 == 3);
        packs.push(Pack { mark, logins: sup });
        q = q + 1;
    }
    proof {
        reveal_strlit("sec");
    }
    let mut prefix = stem(org, cid);
    push_lit(&mut prefix, "sec");
    assert(prefix@ =~= secretary_prefix(org, cid));
    let login = new_login(prefix, 7);
    let password = new_password();
    let mut sec: Vec<AuthRequest> = Vec::new();
    sec.push(AuthRequest { login, password });
    let mark = "secretary".to_owned();
    packs.push(Pack { mark, logins: sec });
    PasswordPackage { scheme: declaration.scheme, passwords: packs }
}

/// The judge and supervisor accounts of a staff package, in the order of
/// its packs, each with the permission it gets: a judge of pack `k` judges
/// queue `k / 4` in mark group `k % 4`; the account of every fourth pack
/// supervises queue `k / 4`. The last pack, the secretary's, is left out.
pub open spec fn staff_accounts_model(cid: i32, packs: Seq<Pack>, n: int) -> Seq<(Seq<char>, Seq<char>, PermModel)>
    decreases n,
{
    if n <= 0 {
        Seq::empty()
    } else {
        staff_accounts_model(cid, packs, n - 1) + packs[n - 1].logins@.map_values(
            |l: AuthRequest| (l.login@, l.password@, pack_permission(cid, n - 1)),
        )
    }
}

pub open spec fn account_view(a: (AuthRequest, Permissions)) -> (Seq<char>, Seq<char>, PermModel) {
    (a.0.login@, a.0.password@, a.1.deep_view())
}

/// The accounts to create for the judges and supervisors of `package`, with
/// their permissions in competition `cid`.
pub fn staff_accounts(cid: i32, package: &PasswordPackage) -> (r: Vec<(AuthRequest, Permissions)>)
    requires
        package.passwords@.len() >= 1,
        package.passwords@.len() <= 4 * (i32::MAX as int + 1) + 1,
    ensures
        r@.map_values(|a: (AuthRequest, Permissions)| account_view(a)) == staff_accounts_model(
            cid,
            package.passwords@,
            package.passwords@.len() - 1,
        ),
{
    let packs = &package.passwords;
    let last = packs.len() - 1;
    let mut out: Vec<(AuthRequest, Permissions)> = Vec::new();
    let mut k: usize = 0;
    assert(out@.map_values(|a: (AuthRequest, Permissions)| account_view(a)) =~= Seq::empty());
    while k < last
        invariant
            last == packs@.len() - 1,
            last <= 4 * (i32::MAX as int + 1),
            k <= last,
            out@.map_values(|a: (AuthRequest, Permissions)| account_view(a)) == staff_accounts_model(
                cid,
                packs@,
                k as int,
            ),
        decreases last - k,
    {
        let q: i32 = (k / 4) as i32;
        let perm = if k % 4 == 3 {
            Permissions::Arbitor(cid, q)
        } else {
            Permissions::Judge(cid, q, (k % 4) as i32)
        };
        let logins = &packs[k].logins;
        let ghost base = out@.map_values(|a: (AuthRequest, Permissions)| account_view(a));
        let mut u: usize = 0;
        while u < logins.len()
            invariant
                u <= logins@.len(),
                perm.deep_view() == pack_permission(cid, k as int),
                out@.map_values(|a: (AuthRequest, Permissions)| account_view(a)) == base
                    + logins@.subrange(0, u as int).map_values(
                    |l: AuthRequest| (l.login@, l.password@, pack_permission(cid, k as int)),
                ),
            decreases logins@.len() - u,
        {
            let ghost before = out@;
            let l = &logins[u];
            let acc = AuthRequest { login: l.login.clone(), password: l.password.clone() };
            let p = match &perm {
                Permissions::Arbitor(c, q2) => Permissions::Arbitor(*c, *q2),
                Permissions::Judge(c, q2, g) => Permissions::Judge(*c, *q2, *g),
                _ => Permissions::Create,
            };
            assert(p.deep_view() == perm.deep_view());
            assert(account_view((acc, p)) == (l.login@, l.password@, pack_permission(cid, k as int)));
            out.push((acc, p));
            assert(out@ == before.push((acc, p)));
            let ghost f = |a: (AuthRequest, Permissions)| account_view(a);
            let ghost gk = |l: AuthRequest| (l.login@, l.password@, pack_permission(cid, k as int));
            assert(out@.map_values(f) =~= before.map_values(f).push(f((acc, p))));
            assert(logins@.subrange(0, u + 1).map_values(gk) =~= logins@.subrange(0, u as int).map_values(gk).push(gk(logins@[u as int])));
            assert(out@.map_values(|a: (AuthRequest, Permissions)| account_view(a)) =~= base
                + logins@.subrange(0, u + 1).map_values(
                |l: AuthRequest| (l.login@, l.password@, pack_permission(cid, k as int)),
            ));
            u = u + 1;
        }
        assert(logins@.subrange(0, logins@.len() as int) =~= logins@);
        k = k + 1;
    }
    out
}


/// The account of the secretary of competition `cid`: the login of the last
/// pack of `package`, with the permission `Secretary(cid)`.
pub fn secretary_account(cid: i32, package: &PasswordPackage) -> (r: (AuthRequest, Permissions))
    requires
        package.passwords@.len() >= 1,
        package.passwords@.last().logins@.len() >= 1,
    ensures
        account_view(r) == (
            package.passwords@.last().logins@[0].login@,
            package.passwords@.last().logins@[0].password@,
            Permissions::Secretary(cid).deep_view(),
        ),
{
    let last = &package.passwords[package.passwords.len() - 1];
    let l = &last.logins[0];
    (AuthRequest { login: l.login.clone(), password: l.password.clone() }, Permissions::Secretary(cid))
}

} // verus!
