//! Reading the participants and the performances of a competition from the
//! rows of its spreadsheet.
use vstd::prelude::*;

use crate::external::{excel_day_seconds, lowercased, to_lowercase_text};
use crate::text::{trim_text, trimmed};
use crate::nominations::gender_of_flag;
use crate::parse::{parse_i32, parse_u64, parsed_int};
use crate::proto::{Gender, Participant, Timestamp};
use crate::text::str_eq;

verus! {

/// Why rows of a spreadsheet could not be read.
#[derive(Clone, Copy, Debug, PartialEq, Eq, Structural)]
pub enum SheetError {
    /// The header does not name the columns that are expected.
    BadStructure,
    /// A cell that should hold a number does not.
    BadNumber,
    /// A row or the header has fewer cells than are read.
    ShortRow,
    /// A birth date lies beyond the last date that can be represented.
    DateOutOfRange,
    /// Rows of one team name different nominations.
    MixedNominations,
    /// The bytes are not a spreadsheet that can be read.
    Unreadable,
    /// A sheet that is read is not in the file.
    MissingSheet,
}

/// A header cell as compared: lower-cased, then trimmed.
pub open spec fn header_cell(h: Seq<char>) -> Seq<char> {
    trimmed(lowercased(h))
}

/// The four first columns are the participant's number, name, gender and
/// birth date, under one of the accepted names each.
pub open spec fn participant_header_ok(head: Seq<Seq<char>>) -> bool {
    let h0 = header_cell(head[0]);
    let h1 = header_cell(head[1]);
    let h2 = header_cell(head[2]);
    let h3 = header_cell(head[3]);
    &&& (h0 == "id"@ || h0 == "номер участника"@)
    &&& (h1 == "фио"@ || h1 == "имя"@ || h1 == "name"@)
    &&& (h2 == "пол"@ || h2 == "гендер"@ || h2 == "sex"@ || h2 == "gender"@)
    &&& (h3 == "дата рождения"@ || h3 == "день рождения"@ || h3 == "birthdate"@ || h3
        == "birthday"@)
}

pub open spec fn gender_code(g: Gender) -> i32 {
    match g {
        Gender::Unknown => 0,
        Gender::Male => 1,
        Gender::Female => 2,
    }
}

/// The birth date written as a count of days since 1900-01-01, as seconds
/// since the Unix epoch.
pub open spec fn birth_seconds(days: int) -> int {
    (days - 25567) * 86400
}

fn header_matches(h: &String, names: &Vec<&str>) -> (r: bool)
    ensures
        r == exists|i: int| 0 <= i < names@.len() && header_cell(h@) == (#[trigger] names@[i])@,
{
    let lowered = to_lowercase_text(h.as_str());
    let cell = trim_text(lowered.as_str());
    let mut i: usize = 0;
    while i < names.len()
        invariant
            i <= names@.len(),
            cell@ == header_cell(h@),
            forall|j: int| 0 <= j < i ==> cell@ != (#[trigger] names@[j])@,
        decreases names@.len() - i,
    {
        if str_eq(cell.as_str(), names[i]) {
            return true;
        }
        i = i + 1;
    }
    false
}

fn participant_header_exec(head: &Vec<String>) -> (r: bool)
    requires
        head@.len() >= 4,
    ensures
        r == participant_header_ok(head.deep_view()),
{
    let ghost hv = head.deep_view();
    assert(hv[0] == head@[0]@ && hv[1] == head@[1]@ && hv[2] == head@[2]@ && hv[3] == head@[3]@);
    let n0: Vec<&str> = vec!["id", "номер участника"];
    let n1: Vec<&str> = vec!["фио", "имя", "name"];
    let n2: Vec<&str> = vec!["пол", "гендер", "sex", "gender"];
    let n3: Vec<&str> = vec!["дата рождения", "день рождения", "birthdate", "birthday"];
    let a = header_matches(&head[0], &n0);
    let b = header_matches(&head[1], &n1);
    let c = header_matches(&head[2], &n2);
    let d = header_matches(&head[3], &n3);
    proof {
        let h0 = header_cell(hv[0]);
        let h1 = header_cell(hv[1]);
        let h2 = header_cell(hv[2]);
        let h3 = header_cell(hv[3]);
        if h0 == "id"@ {
            assert(h0 == n0@[0]@);
        }
        if h0 == "номер участника"@ {
            assert(h0 == n0@[1]@);
        }
        if h1 == "фио"@ {
            assert(h1 == n1@[0]@);
        }
        if h1 == "имя"@ {
            assert(h1 == n1@[1]@);
        }
        if h1 == "name"@ {
            assert(h1 == n1@[2]@);
        }
        if h2 == "пол"@ {
            assert(h2 == n2@[0]@);
        }
        if h2 == "гендер"@ {
            assert(h2 == n2@[1]@);
        }
        if h2 == "sex"@ {
            assert(h2 == n2@[2]@);
        }
        if h2 == "gender"@ {
            assert(h2 == n2@[3]@);
        }
        if h3 == "дата рождения"@ {
            assert(h3 == n3@[0]@);
        }
        if h3 == "день рождения"@ {
            assert(h3 == n3@[1]@);
        }
        if h3 == "birthdate"@ {
            assert(h3 == n3@[2]@);
        }
        if h3 == "birthday"@ {
            assert(h3 == n3@[3]@);
        }
    }
    a && b && c && d
}

/// What `Participant::try_from` makes of a header `head` and a row `data`.
pub open spec fn participant_ok(head: Seq<Seq<char>>, data: Seq<Seq<char>>, p: Participant) -> bool {
    let uid = parsed_int(data[0], true).unwrap();
    let days = parsed_int(data[3], false).unwrap();
    &&& p.uid == uid
    &&& p.name@ == data[1]
    &&& p.gender == gender_code(gender_of_flag(lowercased(trimmed(data[2]))))
    &&& p.birthdate == Some(Timestamp { seconds: birth_seconds(days) as i64, nanos: 0 })
    &&& p.extra_personal.deep_view() == data.skip(2)
}

/// Why `Participant::try_from` refuses a header `head` and a row `data`, in
/// the order in which it checks.
pub open spec fn participant_error(head: Seq<Seq<char>>, data: Seq<Seq<char>>) -> Option<SheetError> {
    if head.len() < 4 || data.len() < 4 {
        Some(SheetError::ShortRow)
    } else if !participant_header_ok(head) {
        Some(SheetError::BadStructure)
    } else {
        match parsed_int(data[0], true) {
            None => Some(SheetError::BadNumber),
            Some(uid) => if !(i32::MIN <= uid <= i32::MAX) {
                Some(SheetError::BadNumber)
            } else {
                match parsed_int(data[3], false) {
                    None => Some(SheetError::BadNumber),
                    Some(days) => if days > u64::MAX {
                        Some(SheetError::BadNumber)
                    } else if days > 95051803 {
                        Some(SheetError::DateOutOfRange)
                    } else {
                        None
                    },
                }
            },
        }
    }
}

impl TryFrom<(Vec<String>, Vec<String>)> for Participant {
    type Error = SheetError;

    /// The participant of row `data` under header `head`: the first four
    /// columns give number, name, gender and birth date (days since
    /// 1900-01-01); the columns from the third on are kept as extra data.
    fn try_from(value: (Vec<String>, Vec<String>)) -> (r: Result<Self, SheetError>)
        ensures
            match participant_error(value.0.deep_view(), value.1.deep_view()) {
                Some(e) => r == Err::<Participant, SheetError>(e),
                None => r matches Ok(p) && participant_ok(value.0.deep_view(), value.1.deep_view(), p),
            },
    {
        let (head, data) = value;
        let ghost hv = head.deep_view();
        let ghost dv = data.deep_view();
        if head.len() < 4 || data.len() < 4 {
            return Err(SheetError::ShortRow);
        }
        if !participant_header_exec(&head) {
            return Err(SheetError::BadStructure);
        }
        assert(dv[0] == data@[0]@ && dv[1] == data@[1]@ && dv[2] == data@[2]@ && dv[3] == data@[3]@);
        let uid = match parse_i32(data[0].as_str()) {
            Some(u) => u,
            None => {
                return Err(SheetError::BadNumber);
            },
        };
        let days = match parse_u64(data[3].as_str()) {
            Some(d) => d,
            None => {
                return Err(SheetError::BadNumber);
            },
        };
        let seconds = match excel_day_seconds(days) {
            Some(s) => s,
            None => {
                assert(days > 95051803);
                assert(parsed_int(dv[3], false) == Some(days as int));
                return Err(SheetError::DateOutOfRange);
            },
        };
        let gender = Gender::from(data[2].clone());
        let mut extra: Vec<String> = Vec::new();
        let mut k: usize = 2;
        while k < data.len()
            invariant
                2 <= k <= data.len(),
                dv == data.deep_view(),
                extra.deep_view() == dv.subrange(2, k as int),
            decreases data.len() - k,
        {
            let ghost before = extra.deep_view();
            extra.push(data[k].clone());
            assert(extra.deep_view() =~= before.push(dv[k as int]));
            assert(dv.subrange(2, k + 1) =~= dv.subrange(2, k as int).push(dv[k as int]));
            k = k + 1;
        }
        assert(dv.skip(2) =~= dv.subrange(2, data.len() as int));
        assert(participant_error(hv, dv) is None);
        assert(parsed_int(dv[0], true).unwrap() == uid);
        assert(parsed_int(dv[3], false).unwrap() == days);
        assert(gender == gender_of_flag(lowercased(trimmed(dv[2]))));
        Ok(
            Participant {
                uid,
                name: data[1].clone(),
                gender: gender.code(),
                birthdate: Some(Timestamp { seconds, nanos: 0 }),
                extra_personal: extra,
            },
        )
    }
}

impl vstd::std_specs::convert::TryFromSpecImpl<(Vec<String>, Vec<String>)> for Participant {
    open spec fn obeys_try_from_spec() -> bool {
        false
    }

    open spec fn try_from_spec(v: (Vec<String>, Vec<String>)) -> Result<Self, SheetError> {
        vstd::pervasive::arbitrary()
    }
}

/// Row `row` with each missing cell taken from the same column of `above`,
/// or empty where there is no row above.
pub open spec fn fill_missing(above: Option<Seq<Seq<char>>>, row: Seq<Option<Seq<char>>>) -> Seq<Seq<char>> {
    Seq::new(
        row.len(),
        |j: int|
            match row[j] {
                Some(v) => v,
                None => match above {
                    Some(a) => a[j],
                    None => Seq::<char>::empty(),
                },
            },
    )
}

/// The first `n` rows, each with its missing cells filled from the filled
/// row above it.
pub open spec fn filled_sheet(rows: Seq<Seq<Option<Seq<char>>>>, n: nat) -> Seq<Seq<Seq<char>>>
    decreases n,
{
    if n == 0 {
        Seq::empty()
    } else {
        let done = filled_sheet(rows, (n - 1) as nat);
        done.push(
            fill_missing(
                if n == 1 {
                    None
                } else {
                    Some(done.last())
                },
                rows[n - 1],
            ),
        )
    }
}

/// No row is wider than the row above it.
pub open spec fn narrowing(rows: Seq<Seq<Option<Seq<char>>>>) -> bool {
    forall|i: int| 0 < i < rows.len() ==> (#[trigger] rows[i]).len() <= rows[i - 1].len()
}

proof fn lemma_filled_sheet_len(rows: Seq<Seq<Option<Seq<char>>>>, n: nat)
    requires
        n <= rows.len(),
    ensures
        filled_sheet(rows, n).len() == n,
        forall|i: int| 0 <= i < n ==> (#[trigger] filled_sheet(rows, n)[i]).len() == rows[i].len(),
    decreases n,
{
    if n > 0 {
        lemma_filled_sheet_len(rows, (n - 1) as nat);
    }
}

/// The rows of a sheet with each missing cell filled from the row above.
pub fn fill_sheet_rows(rows: &Vec<Vec<Option<String>>>) -> (r: Vec<Vec<String>>)
    requires
        narrowing(rows.deep_view()),
    ensures
        r.deep_view() == filled_sheet(rows.deep_view(), rows@.len() as nat),
{
    let ghost rv = rows.deep_view();
    let mut out: Vec<Vec<String>> = Vec::new();
    let mut i: usize = 0;
    assert(out.deep_view() =~= Seq::<Seq<Seq<char>>>::empty());
    while i < rows.len()
        invariant
            i <= rows.len(),
            rv == rows.deep_view(),
            narrowing(rv),
            out.deep_view() == filled_sheet(rv, i as nat),
            out@.len() == i,
        decreases rows.len() - i,
    {
        proof {
            lemma_filled_sheet_len(rv, i as nat);
        }
        let ghost done = out.deep_view();
        assert(i > 0 ==> done.last().len() == rv[i - 1].len());
        assert(i > 0 ==> rv[i as int].len() <= rv[i - 1].len());
        let ghost above: Option<Seq<Seq<char>>> = if i == 0 {
            None
        } else {
            Some(done.last())
        };
        let row = &rows[i];
        assert(rv[i as int] == row.deep_view());
        let ghost target = fill_missing(above, rv[i as int]);
        assert(target.len() == row@.len());
        let mut line: Vec<String> = Vec::new();
        let mut j: usize = 0;
        assert(line.deep_view() =~= target.subrange(0, 0));
        while j < row.len()
            invariant
                j <= row.len(),
                i < rows.len(),
                rv[i as int] == row.deep_view(),
                target == fill_missing(above, rv[i as int]),
                target.len() == row@.len(),
                done == out.deep_view(),
                out@.len() == i,
                i > 0 ==> done.last().len() >= row@.len(),
                above == (if i == 0 {
                    None
                } else {
                    Some(done.last())
                }),
                line.deep_view() == target.subrange(0, j as int),
            decreases row.len() - j,
        {
            let ghost before = line.deep_view();
            assert(row.deep_view()[j as int] == row@[j as int].deep_view());
            let cell = match &row[j] {
                Some(v) => v.clone(),
                None => {
                    if i == 0 {
                        String::new()
                    } else {
                        assert(done.last() == out@[i - 1].deep_view());
                        assert(done.last()[j as int] == out@[i - 1]@[j as int]@);
                        out[i - 1][j].clone()
                    }
                },
            };
            assert(cell@ == target[j as int]);
            line.push(cell);
            assert(line.deep_view() =~= before.push(cell@));
            assert(target.subrange(0, j + 1) =~= target.subrange(0, j as int).push(target[j as int]));
            j = j + 1;
        }
        assert(target.subrange(0, row.len() as int) =~= target);
        out.push(line);
        assert(out.deep_view() =~= filled_sheet(rv, (i + 1) as nat));
        i = i + 1;
    }
    out
}

/// The participants of the filled rows `rows` under header `head`; the first
/// refusal of `Participant::try_from`, in row order, where there is one.
pub fn participants_of(head: &Vec<String>, rows: &Vec<Vec<String>>) -> (r: Result<Vec<Participant>, SheetError>)
    ensures
        match r {
            Ok(v) => v@.len() == rows@.len() && forall|i: int|
                0 <= i < rows@.len() ==> participant_error(head.deep_view(), (#[trigger] rows@[i]).deep_view())
                    is None && participant_ok(head.deep_view(), rows@[i].deep_view(), v@[i]),
            Err(e) => exists|k: int|
                0 <= k < rows@.len() && (forall|i: int|
                    0 <= i < k ==> participant_error(head.deep_view(), (#[trigger] rows@[i]).deep_view())
                        is None) && participant_error(head.deep_view(), rows@[k].deep_view()) == Some(e),
        },
{
    let mut out: Vec<Participant> = Vec::new();
    let mut i: usize = 0;
    while i < rows.len()
        invariant
            i <= rows.len(),
            out@.len() == i,
            forall|k: int|
                0 <= k < i ==> participant_error(head.deep_view(), (#[trigger] rows@[k]).deep_view()) is None
                    && participant_ok(head.deep_view(), rows@[k].deep_view(), out@[k]),
        decreases rows.len() - i,
    {
        let h = head.clone();
        let row = rows[i].clone();
        assert(h.deep_view() =~= head.deep_view());
        assert(row.deep_view() =~= rows@[i as int].deep_view());
        match Participant::try_from((h, row)) {
            Ok(p) => {
                out.push(p);
            },
            Err(e) => {
                return Err(e);
            },
        }
        i = i + 1;
    }
    Ok(out)
}

/// A performance: a team by number, its nomination, and the numbers of its
/// participants.
#[derive(Clone, Debug, PartialEq)]
pub struct Performance {
    pub tid: i32,
    pub nom: String,
    pub participants: Vec<i32>,
}

pub struct PerformanceModel {
    pub tid: i32,
    pub nom: Seq<char>,
    pub participants: Seq<i32>,
}

impl DeepView for Performance {
    type V = PerformanceModel;

    open spec fn deep_view(&self) -> PerformanceModel {
        PerformanceModel { tid: self.tid, nom: self.nom@, participants: self.participants@ }
    }
}

/// The `i32` that cell `c` writes, if it writes one.
pub open spec fn cell_i32(c: Seq<char>) -> Option<i32> {
    match parsed_int(c, true) {
        Some(v) => if i32::MIN <= v <= i32::MAX {
            Some(v as i32)
        } else {
            None
        },
        None => None,
    }
}

/// Reading a performance row stops on a missing cell: the team number must be
/// there, and the participant number and nomination must be there where the
/// cells before them were read.
pub open spec fn perf_row_stops(row: Seq<Option<Seq<char>>>) -> bool {
    ||| row.len() < 1
    ||| row[0] is None
    ||| (cell_i32(row[0].unwrap()) is Some && (row.len() < 2 || row[1] is None || (cell_i32(
        row[1].unwrap(),
    ) is Some && (row.len() < 3 || row[2] is None))))
}

/// The performances of the first `n` rows: consecutive rows of the same team
/// add participants to it; a row of another team starts a new one.
pub open spec fn group_perf(rows: Seq<Seq<Option<Seq<char>>>>, n: nat) -> Result<Seq<PerformanceModel>, SheetError>
    decreases n,
{
    if n == 0 {
        Ok(Seq::empty())
    } else {
        match group_perf(rows, (n - 1) as nat) {
            Err(e) => Err(e),
            Ok(ts) => {
                let row = rows[n - 1];
                match cell_i32(row[0].unwrap()) {
                    None => Err(SheetError::BadNumber),
                    Some(tid) => match cell_i32(row[1].unwrap()) {
                        None => Err(SheetError::BadNumber),
                        Some(part) => {
                            let nom = row[2].unwrap();
                            if ts.len() > 0 && ts.last().tid == tid {
                                if ts.last().nom != nom {
                                    Err(SheetError::MixedNominations)
                                } else {
                                    Ok(
                                        ts.update(
                                            ts.len() - 1,
                                            PerformanceModel {
                                                participants: ts.last().participants.push(part),
                                                ..ts.last()
                                            },
                                        ),
                                    )
                                }
                            } else {
                                Ok(
                                    ts.push(
                                        PerformanceModel { tid, nom, participants: seq![part] },
                                    ),
                                )
                            }
                        },
                    },
                }
            },
        }
    }
}

/// No row is read that stops the reading.
pub open spec fn perf_rows_readable(rows: Seq<Seq<Option<Seq<char>>>>) -> bool {
    forall|i: int| 0 <= i < rows.len() && #[trigger] group_perf(rows, i as nat) is Ok ==> !perf_row_stops(rows[i])
}

proof fn lemma_group_perf_err_stays(rows: Seq<Seq<Option<Seq<char>>>>, k: nat, m: nat)
    requires
        k <= m,
        group_perf(rows, k) is Err,
    ensures
        group_perf(rows, m) == group_perf(rows, k),
    decreases m - k,
{
    if k < m {
        lemma_group_perf_err_stays(rows, k, (m - 1) as nat);
    }
}

/// The performances that the rows of the performance sheet list: team
/// number, participant number and nomination per row.
pub fn group_performances(rows: &Vec<Vec<Option<String>>>) -> (r: Result<Vec<Performance>, SheetError>)
    requires
        perf_rows_readable(rows.deep_view()),
    ensures
        match group_perf(rows.deep_view(), rows@.len() as nat) {
            Ok(ts) => r matches Ok(v) && v.deep_view() == ts,
            Err(e) => r == Err::<Vec<Performance>, SheetError>(e),
        },
{
    let ghost rv = rows.deep_view();
    let mut teams: Vec<Performance> = Vec::new();
    let mut i: usize = 0;
    assert(teams.deep_view() =~= Seq::<PerformanceModel>::empty());
    while i < rows.len()
        invariant
            i <= rows.len(),
            rv == rows.deep_view(),
            perf_rows_readable(rv),
            group_perf(rv, i as nat) == Ok::<Seq<PerformanceModel>, SheetError>(teams.deep_view()),
        decreases rows.len() - i,
    {
        let ghost ts = teams.deep_view();
        let row = &rows[i];
        assert(rv[i as int] == row.deep_view());
        assert(!perf_row_stops(rv[i as int]));
        assert(row.deep_view()[0] == row@[0].deep_view());
        let tid = match &row[0] {
            Some(c) => match parse_i32(c.as_str()) {
                Some(t) => t,
                None => {
                    assert(group_perf(rv, (i + 1) as nat) == Err::<Seq<PerformanceModel>, SheetError>(SheetError::BadNumber));
                    proof {
                        lemma_group_perf_err_stays(rv, (i + 1) as nat, rows@.len() as nat);
                    }
                    return Err(SheetError::BadNumber);
                },
            },
            None => {
                return Err(SheetError::BadNumber);
            },
        };
        assert(row.deep_view()[1] == row@[1].deep_view());
        let part = match &row[1] {
            Some(c) => match parse_i32(c.as_str()) {
                Some(t) => t,
                None => {
                    assert(group_perf(rv, (i + 1) as nat) == Err::<Seq<PerformanceModel>, SheetError>(SheetError::BadNumber));
                    proof {
                        lemma_group_perf_err_stays(rv, (i + 1) as nat, rows@.len() as nat);
                    }
                    return Err(SheetError::BadNumber);
                },
            },
            None => {
                return Err(SheetError::BadNumber);
            },
        };
        assert(row.deep_view()[2] == row@[2].deep_view());
        let nom = match &row[2] {
            Some(c) => c.clone(),
            None => {
                return Err(SheetError::BadNumber);
            },
        };
        let n = teams.len();
        if n > 0 && teams[n - 1].tid == tid {
            assert(ts.last() == teams@[n - 1].deep_view());
            if teams[n - 1].nom != nom {
                assert(group_perf(rv, (i + 1) as nat) == Err::<Seq<PerformanceModel>, SheetError>(SheetError::MixedNominations));
                proof {
                    lemma_group_perf_err_stays(rv, (i + 1) as nat, rows@.len() as nat);
                }
                return Err(SheetError::MixedNominations);
            }
            let ghost last = teams@[n - 1];
            teams[n - 1].participants.push(part);
            assert(teams.deep_view() =~= ts.update(
                ts.len() - 1,
                PerformanceModel { participants: ts.last().participants.push(part), ..ts.last() },
            ));
        } else {
            let mut ps: Vec<i32> = Vec::new();
            ps.push(part);
            assert(ps@ =~= seq![part]);
            teams.push(Performance { tid, nom, participants: ps });
            assert(teams.deep_view() =~= ts.push(
                PerformanceModel { tid, nom: nom@, participants: seq![part] },
            ));
        }
        i = i + 1;
    }
    Ok(teams)
}

/// The participants of a sheet read row by row: each missing cell is filled
/// from the row above, then every row goes through `Participant::try_from`
/// under the header `head`; the first refusal, in row order, is returned.
pub fn parce_naive_struct(head: &Vec<String>, rows: &Vec<Vec<Option<String>>>) -> (r: Result<
    Vec<Participant>,
    SheetError,
>)
    requires
        narrowing(rows.deep_view()),
    ensures
        ({
            let filled = filled_sheet(rows.deep_view(), rows@.len() as nat);
            match r {
                Ok(ps) => ps@.len() == filled.len() && (forall|i: int|
                    0 <= i < filled.len() ==> participant_error(head.deep_view(), #[trigger] filled[i]) is None
                        && participant_ok(head.deep_view(), filled[i], ps@[i])),
                Err(e) => exists|k: int|
                    0 <= k < filled.len() && (forall|i: int|
                        0 <= i < k ==> participant_error(head.deep_view(), #[trigger] filled[i]) is None)
                        && participant_error(head.deep_view(), filled[k]) == Some(e),
            }
        }),
{
    let filled = fill_sheet_rows(rows);
    let ghost fv = filled.deep_view();
    assert forall|i: int| 0 <= i < filled@.len() implies #[trigger] filled@[i].deep_view() == fv[i] by {}
    let r = participants_of(head, &filled);
    proof {
        match &r {
            Ok(ps) => {
                assert forall|i: int| 0 <= i < fv.len() implies participant_error(head.deep_view(), #[trigger] fv[i]) is None
                    && participant_ok(head.deep_view(), fv[i], ps@[i]) by {
                    assert(fv[i] == filled@[i].deep_view());
                }
            },
            Err(e) => {
                let k = choose|k: int|
                    0 <= k < filled@.len() && (forall|i: int|
                        0 <= i < k ==> participant_error(head.deep_view(), (#[trigger] filled@[i]).deep_view()) is None)
                        && participant_error(head.deep_view(), filled@[k].deep_view()) == Some(*e);
                assert(fv[k] == filled@[k].deep_view());
                assert forall|i: int| 0 <= i < k implies participant_error(head.deep_view(), #[trigger] fv[i]) is None by {
                    assert(fv[i] == filled@[i].deep_view());
                }
            },
        }
    }
    r
}


/// Whether reading the performance rows `rows` meets no missing cell that it
/// needs.
pub fn perf_rows_check(rows: &Vec<Vec<Option<String>>>) -> (r: bool)
    ensures
        r == perf_rows_readable(rows.deep_view()),
{
    let ghost rv = rows.deep_view();
    let mut last: Option<(i32, String)> = None;
    let mut i: usize = 0;
    while i < rows.len()
        invariant
            i <= rows@.len(),
            rv == rows.deep_view(),
            group_perf(rv, i as nat) matches Ok(ts) && (ts.len() == 0 <==> last is None) && (last matches Some(
                p,
            ) ==> ts.last().tid == p.0 && ts.last().nom == p.1@),
            forall|j: int| 0 <= j < i && #[trigger] group_perf(rv, j as nat) is Ok ==> !perf_row_stops(rv[j]),
        decreases rows@.len() - i,
    {
        let row = &rows[i];
        assert(rv[i as int] == row.deep_view());
        let ghost rw = rv[i as int];
        if row.len() < 1 {
            assert(perf_row_stops(rw));
            return false;
        }
        assert(rw[0] == row@[0].deep_view());
        let t = match &row[0] {
            None => {
                assert(perf_row_stops(rw));
                return false;
            },
            Some(c) => parse_i32(c.as_str()),
        };
        let tid = match t {
            None => {
                assert(group_perf(rv, (i + 1) as nat) is Err);
                proof {
                    assert forall|j: int| 0 <= j < rv.len() && #[trigger] group_perf(rv, j as nat) is Ok implies !perf_row_stops(rv[j]) by {
                        if j > i {
                            lemma_group_perf_err_stays(rv, (i + 1) as nat, j as nat);
                        }
                    }
                }
                return true;
            },
            Some(x) => x,
        };
        if row.len() < 2 {
            assert(perf_row_stops(rw));
            return false;
        }
        assert(rw[1] == row@[1].deep_view());
        let p = match &row[1] {
            None => {
                assert(perf_row_stops(rw));
                return false;
            },
            Some(c) => parse_i32(c.as_str()),
        };
        if p.is_none() {
            assert(group_perf(rv, (i + 1) as nat) is Err);
            proof {
                assert forall|j: int| 0 <= j < rv.len() && #[trigger] group_perf(rv, j as nat) is Ok implies !perf_row_stops(rv[j]) by {
                    if j > i {
                        lemma_group_perf_err_stays(rv, (i + 1) as nat, j as nat);
                    }
                }
            }
            return true;
        }
        if row.len() < 3 {
            assert(perf_row_stops(rw));
            return false;
        }
        assert(rw[2] == row@[2].deep_view());
        let nom = match &row[2] {
            None => {
                assert(perf_row_stops(rw));
                return false;
            },
            Some(c) => c.clone(),
        };
        assert(!perf_row_stops(rw));
        let same_team = match &last {
            Some(q) => q.0 == tid,
            None => false,
        };
        if same_team {
            let differs = match &last {
                Some(q) => !str_eq(q.1.as_str(), nom.as_str()),
                None => false,
            };
            if differs {
                assert(group_perf(rv, (i + 1) as nat) is Err);
                proof {
                    assert forall|j: int| 0 <= j < rv.len() && #[trigger] group_perf(rv, j as nat) is Ok implies !perf_row_stops(rv[j]) by {
                        if j > i {
                            lemma_group_perf_err_stays(rv, (i + 1) as nat, j as nat);
                        }
                    }
                }
                return true;
            }
        } else {
            last = Some((tid, nom));
        }
        i = i + 1;
    }
    true
}

/// `r` is what reading a competition file gives, where the participant
/// sheet has header `part_head` and rows `part_rows` and the performance
/// sheet has rows `perf_rows`: the participants of the rows (missing cells
/// filled from the row above), then the performances; or the first error of
/// the participants, else that of the performances.
pub open spec fn competition_read(
    part_head: Seq<Seq<char>>,
    part_rows: Seq<Seq<Option<Seq<char>>>>,
    perf_rows: Seq<Seq<Option<Seq<char>>>>,
    r: Result<(Vec<Participant>, Vec<Performance>), SheetError>,
) -> bool {
    let filled = filled_sheet(part_rows, part_rows.len());
    let first_bad = exists|k: int|
        0 <= k < filled.len() && participant_error(part_head, #[trigger] filled[k])
            is Some;
    match r {
        Ok((ps, ts)) => !first_bad && ps@.len() == filled.len() && (forall|i: int|
            0 <= i < filled.len() ==> participant_ok(part_head, #[trigger] filled[i], ps@[i]))
            && group_perf(perf_rows, perf_rows.len()) == Ok::<
            Seq<PerformanceModel>,
            SheetError,
        >(ts.deep_view()),
        Err(e) => (exists|k: int|
            0 <= k < filled.len() && (forall|i: int|
                0 <= i < k ==> participant_error(part_head, #[trigger] filled[i])
                    is None) && participant_error(part_head, filled[k]) == Some(e))
            || (!first_bad && group_perf(perf_rows, perf_rows.len()) == Err::<
            Seq<PerformanceModel>,
            SheetError,
        >(e)),
    }
}

/// What the two sheets of a competition file hold: the participants under
/// the header of the participant sheet (missing cells filled from the row
/// above), then the performances.
pub fn compet_reader(
    part_head: &Vec<String>,
    part_rows: &Vec<Vec<Option<String>>>,
    perf_rows: &Vec<Vec<Option<String>>>,
) -> (r: Result<(Vec<Participant>, Vec<Performance>), SheetError>)
    requires
        narrowing(part_rows.deep_view()),
        perf_rows_readable(perf_rows.deep_view()),
    ensures
        competition_read(part_head.deep_view(), part_rows.deep_view(), perf_rows.deep_view(), r),
{
    let parts = match parce_naive_struct(part_head, part_rows) {
        Ok(p) => p,
        Err(e) => {
            return Err(e);
        },
    };
    match group_performances(perf_rows) {
        Ok(ts) => Ok((parts, ts)),
        Err(e) => Err(e),
    }
}

} // verus!
