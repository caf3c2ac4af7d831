//! What the competition form makes of its fields, and the staff sheet that a
//! new competition hands out.
use vstd::prelude::*;

use crate::external::{epoch_days, local_midnight_seconds, parse_ymd, ymd_date};
use crate::parse::{parse_i32, parsed_int};
use crate::proto::{
    AuthRequest, CompDeclaration, CompetitionQueue, DatePair, NominationDeclaration, Pack, PasswordPackage,
    Timestamp,
};

verus! {

/// The scheme number that the scheme field `s` selects: the `i32` it
/// writes, or `0`.
pub open spec fn scheme_field(s: Seq<char>) -> i32 {
    match parsed_int(s, true) {
        Some(v) => if i32::MIN <= v <= i32::MAX {
            v as i32
        } else {
            0
        },
        None => 0,
    }
}

/// An optional text field: nothing where it is empty.
pub open spec fn optional_field(s: Seq<char>) -> Option<Seq<char>> {
    if s.len() == 0 {
        None
    } else {
        Some(s)
    }
}

/// The view of an optional text.
pub open spec fn optional_view(s: Option<String>) -> Option<Seq<char>> {
    match s {
        Some(t) => Some(t@),
        None => None,
    }
}

/// `d` holds what the form fields give: the title, a private competition of
/// organisation `1`, the selected scheme, both dates, the non-empty place
/// and description, and one queue per nomination list, numbered in order.
pub open spec fn declared_from(
    d: CompDeclaration,
    title: Seq<char>,
    place: Seq<char>,
    descr: Seq<char>,
    scheme_text: Seq<char>,
    begins: Timestamp,
    ends: Timestamp,
    lists: Seq<Vec<NominationDeclaration>>,
) -> bool {
    &&& d.title@ == title
    &&& !d.public
    &&& d.related_organisation_id == 1
    &&& d.scheme == scheme_field(scheme_text)
    &&& d.dates == Some(DatePair { begins: Some(begins), ends: Some(ends) })
    &&& optional_view(d.place) == optional_field(place)
    &&& optional_view(d.descr) == optional_field(descr)
    &&& d.queues@.len() == lists.len()
    &&& forall|q: int|
        0 <= q < lists.len() ==> (#[trigger] d.queues@[q]).id == q && d.queues@[q].nomination_list
            == lists[q]
}

fn optional_text(s: String) -> (r: Option<String>)
    ensures
        optional_view(r) == optional_field(s@),
{
    if s.as_str().is_empty() {
        None
    } else {
        Some(s)
    }
}

/// `seconds` lie strictly within one day of the UTC midnight that starts the
/// date `d` (year, month, day).
pub open spec fn near_utc_midnight(seconds: int, d: (int, int, int)) -> bool {
    let midnight = epoch_days(d.0, d.1, d.2) * 86400;
    midnight - 86400 < seconds < midnight + 86400
}

/// The time of a date field (`YYYY-MM-DD`): the local midnight that starts
/// the date, as a timestamp. `None` where the text is no such date; also
/// `None` where the machine's time zone has no single midnight that day.
pub fn parse_dateinput(input: String) -> (r: Option<Timestamp>)
    ensures
        ymd_date(input@) is None ==> r is None,
        r matches Some(t) ==> ymd_date(input@) matches Some(d) && t.nanos == 0 && near_utc_midnight(
            t.seconds as int,
            d,
        ),
{
    match parse_ymd(input.as_str()) {
        None => None,
        Some((y, m, d)) => midnight_timestamp(local_midnight_seconds(y, m, d)),
    }
}

/// The timestamp of a local midnight given by its seconds since the Unix
/// epoch, or `None` where the time zone gave no single midnight.
pub fn midnight_timestamp(seconds: Option<i64>) -> (r: Option<Timestamp>)
    ensures
        r == (match seconds {
            Some(s) => Some(Timestamp { seconds: s, nanos: 0 }),
            None => None,
        }),
{
    match seconds {
        None => None,
        Some(seconds) => Some(Timestamp { seconds, nanos: 0 }),
    }
}

/// The declaration that the competition form sends: none without a signed
/// in user, nor where it lacks a title or one of its dates; the nomination
/// lists read from the uploaded table, if any, become the queues.
pub fn form_declaration(
    signed_in: bool,
    title: String,
    place: String,
    descr: String,
    scheme_text: &str,
    begins: Option<Timestamp>,
    ends: Option<Timestamp>,
    lists: Option<Vec<Vec<NominationDeclaration>>>,
) -> (r: Option<CompDeclaration>)
    requires
        lists matches Some(v) ==> v@.len() <= i32::MAX + 1,
    ensures
        r is Some <==> (signed_in && title@.len() > 0 && begins is Some && ends is Some),
        r matches Some(d) ==> declared_from(
            d,
            title@,
            place@,
            descr@,
            scheme_text@,
            begins.unwrap(),
            ends.unwrap(),
            match lists {
                Some(v) => v@,
                None => Seq::empty(),
            },
        ),
{
    if !signed_in {
        return None;
    }
    let mut pending: Vec<Vec<NominationDeclaration>> = match lists {
        Some(v) => v,
        None => Vec::new(),
    };
    let ghost all = pending@;
    let mut queues: Vec<CompetitionQueue> = Vec::new();
    let mut q: usize = 0;
    assert(all.subrange(0, all.len() as int) =~= all);
    while pending.len() > 0
        invariant
            q + pending@.len() == all.len(),
            all.len() <= i32::MAX + 1,
            pending@ == all.subrange(q as int, all.len() as int),
            queues@.len() == q,
            forall|p: int|
                0 <= p < q ==> (#[trigger] queues@[p]).id == p && queues@[p].nomination_list == all[p],
        decreases pending@.len(),
    {
        let noms = pending.remove(0);
        assert(noms == all[q as int]);
        assert(pending@ =~= all.subrange(q + 1, all.len() as int));
        queues.push(CompetitionQueue { id: q as i32, nomination_list: noms });
        q = q + 1;
    }
    let scheme = match parse_i32(scheme_text) {
        Some(v) => v,
        None => 0,
    };
    let dates = match (begins, ends) {
        (Some(fr), Some(to)) => Some(DatePair { begins: Some(fr), ends: Some(to) }),
        _ => None,
    };
    let declaration = CompDeclaration {
        title,
        public: false,
        related_organisation_id: 1,
        dates,
        place: optional_text(place),
        descr: optional_text(descr),
        scheme,
        queues,
    };
    if declaration.is_valid() {
        Some(declaration)
    } else {
        None
    }
}

/// `parts` written one after another with `sep` between them.
pub open spec fn joined(parts: Seq<Seq<char>>, sep: Seq<char>) -> Seq<char>
    decreases parts.len(),
{
    if parts.len() == 0 {
        Seq::empty()
    } else if parts.len() == 1 {
        parts[0]
    } else {
        joined(parts.drop_last(), sep) + sep + parts.last()
    }
}

/// The line of one account on the staff sheet.
pub open spec fn login_line(a: AuthRequest) -> Seq<char> {
    "\t"@ + a.login@ + " : "@ + a.password@
}

/// The block of one pack on the staff sheet: its mark, a heading, then one
/// line per account.
pub open spec fn pack_block(p: Pack) -> Seq<char> {
    "Блок: "@ + p.mark@ + "\n\t <Логин>:<Пароль>\n"@ + joined(
        p.logins@.map_values(|a: AuthRequest| login_line(a)),
        "\n"@,
    )
}

/// Appends the parts of a join step: `sep` unless `first`, then `part`.
fn append_piece(out: &mut String, first: bool, sep: &str, part: &str)
    ensures
        final(out)@ == (if first {
            old(out)@ + part@
        } else {
            old(out)@ + sep@ + part@
        }),
{
    if !first {
        out.append(sep);
    }
    out.append(part);
}

proof fn lemma_joined_step(parts: Seq<Seq<char>>, sep: Seq<char>, k: int)
    requires
        0 <= k < parts.len(),
    ensures
        joined(parts.subrange(0, k + 1), sep) == (if k == 0 {
            parts[0]
        } else {
            joined(parts.subrange(0, k), sep) + sep + parts[k]
        }),
{
    let s = parts.subrange(0, k + 1);
    assert(s.drop_last() =~= parts.subrange(0, k));
    assert(s.last() == parts[k]);
    if k == 0 {
        assert(s.len() == 1);
    }
}

/// The block of `p` on the staff sheet.
fn pack_text(p: &Pack) -> (r: String)
    ensures
        r@ == pack_block(*p),
{
    proof {
        reveal_strlit("Блок: ");
        reveal_strlit("\n\t <Логин>:<Пароль>\n");
        reveal_strlit("\n");
        reveal_strlit("\t");
        reveal_strlit(" : ");
    }
    let mut out = String::new();
    out.append("Блок: ");
    out.append(p.mark.as_str());
    out.append("\n\t <Логин>:<Пароль>\n");
    let ghost head = out@;
    let ghost lines = p.logins@.map_values(|a: AuthRequest| login_line(a));
    let mut i: usize = 0;
    assert(lines.subrange(0, 0) =~= Seq::<Seq<char>>::empty());
    assert(out@ =~= head + joined(lines.subrange(0, 0), "\n"@));
    while i < p.logins.len()
        invariant
            i <= p.logins@.len(),
            lines == p.logins@.map_values(|a: AuthRequest| login_line(a)),
            out@ == head + joined(lines.subrange(0, i as int), "\n"@),
        decreases p.logins@.len() - i,
    {
        let a = &p.logins[i];
        let mut line = String::new();
        line.append("\t");
        line.append(a.login.as_str());
        line.append(" : ");
        line.append(a.password.as_str());
        assert(line@ == lines[i as int]);
        append_piece(&mut out, i == 0, "\n", line.as_str());
        proof {
            lemma_joined_step(lines, "\n"@, i as int);
        }
        assert(out@ =~= head + joined(lines.subrange(0, i + 1), "\n"@));
        i = i + 1;
    }
    assert(lines.subrange(0, p.logins@.len() as int) =~= lines);
    out
}

/// The staff sheet of a competition, as it is downloaded after the
/// competition is declared: the blocks of the packs, separated by a rule.
pub fn staff_sheet(package: &PasswordPackage) -> (r: String)
    ensures
        r@ == joined(
            package.passwords@.map_values(|p: Pack| pack_block(p)),
            "\n-----=====-----\n"@,
        ),
{
    proof {
        reveal_strlit("\n-----=====-----\n");
    }
    let ghost blocks = package.passwords@.map_values(|p: Pack| pack_block(p));
    let mut out = String::new();
    let mut i: usize = 0;
    assert(blocks.subrange(0, 0) =~= Seq::<Seq<char>>::empty());
    assert(out@ =~= joined(blocks.subrange(0, 0), "\n-----=====-----\n"@));
    while i < package.passwords.len()
        invariant
            i <= package.passwords@.len(),
            blocks == package.passwords@.map_values(|p: Pack| pack_block(p)),
            out@ == joined(blocks.subrange(0, i as int), "\n-----=====-----\n"@),
        decreases package.passwords@.len() - i,
    {
        let block = pack_text(&package.passwords[i]);
        append_piece(&mut out, i == 0, "\n-----=====-----\n", block.as_str());
        proof {
            lemma_joined_step(blocks, "\n-----=====-----\n"@, i as int);
        }
        i = i + 1;
    }
    assert(blocks.subrange(0, package.passwords@.len() as int) =~= blocks);
    out
}

} // verus!
