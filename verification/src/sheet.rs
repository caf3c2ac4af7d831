//! Reading nominations from columns of a spreadsheet: numbered rows are
//! teams, a row of text heads the nomination that the teams after it belong
//! to, and blank rows are skipped.
use vstd::prelude::*;

use crate::text::{trim_text, trimmed};
use crate::nominations::{nomination_of, team_from_row};
use crate::proto::{NominationDeclaration, NominationDeclarationModel, Team, TeamModel};
use crate::replicate::Replicate;
use crate::participants::{
    compet_reader, competition_read, perf_rows_check, perf_rows_readable, Performance, SheetError,
};
use crate::proto::Participant;
use crate::text::str_eq;

verus! {

/// What a row of the sheet is.
pub enum LineModel {
    /// A team: the number in the first cell, and the other cells trimmed.
    Item(i32, Seq<Seq<char>>),
    /// A heading: the first cell that is not blank, trimmed.
    Marker(Seq<char>),
    /// A blank row.
    Empty,
}

/// The first cell that is not blank once trimmed, trimmed.
pub open spec fn first_filled(cells: Seq<Seq<char>>) -> Option<Seq<char>>
    decreases cells.len(),
{
    if cells.len() == 0 {
        None
    } else if trimmed(cells[0]).len() > 0 {
        Some(trimmed(cells[0]))
    } else {
        first_filled(cells.drop_first())
    }
}

/// A row whose first cell holds the number `first` (rounded), if it holds a
/// number, and whose cells read `cells`.
pub open spec fn line_of(first: Option<i32>, cells: Seq<Seq<char>>) -> LineModel {
    match first {
        Some(n) => LineModel::Item(n, cells.skip(1).map_values(|c: Seq<char>| trimmed(c))),
        None => match first_filled(cells) {
            Some(m) => LineModel::Marker(m),
            None => LineModel::Empty,
        },
    }
}

/// The heading of the teams met before any heading.
pub open spec fn default_marker() -> Seq<char> {
    seq!['D', 'E', 'B', 'U', 'G']
}

/// Reading in progress: the nominations closed so far, and the heading and
/// teams of the one being read.
pub struct Grouping {
    pub done: Seq<NominationDeclarationModel>,
    pub marker: Seq<char>,
    pub items: Seq<TeamModel>,
}

/// The state after the first `n` rows; or the index of the first team row
/// with fewer than two cells after its number.
pub open spec fn group_rows(rows: Seq<(Option<i32>, Seq<Seq<char>>)>, n: nat) -> Result<Grouping, int>
    decreases n,
{
    if n == 0 {
        Ok(Grouping { done: Seq::empty(), marker: default_marker(), items: Seq::empty() })
    } else {
        match group_rows(rows, (n - 1) as nat) {
            Err(e) => Err(e),
            Ok(st) => match line_of(rows[n - 1].0, rows[n - 1].1) {
                LineModel::Item(id, cells) => if cells.len() < 2 {
                    Err(n - 1)
                } else {
                    Ok(Grouping { items: st.items.push(team_from_row(id, cells)), ..st })
                },
                LineModel::Marker(m) => Ok(
                    Grouping {
                        done: if st.items.len() > 0 {
                            st.done.push(nomination_of(st.marker, st.items))
                        } else {
                            st.done
                        },
                        marker: m,
                        items: Seq::empty(),
                    },
                ),
                LineModel::Empty => Ok(st),
            },
        }
    }
}

/// The nominations that the rows hold, each heading with at least one team
/// under it; or the index of the first team row that is too short.
pub open spec fn read_column_model(rows: Seq<(Option<i32>, Seq<Seq<char>>)>) -> Result<Seq<NominationDeclarationModel>, int> {
    match group_rows(rows, rows.len()) {
        Err(e) => Err(e),
        Ok(st) => Ok(
            if st.items.len() > 0 {
                st.done.push(nomination_of(st.marker, st.items))
            } else {
                st.done
            },
        ),
    }
}

pub open spec fn rows_view(rows: Seq<(Option<i32>, Vec<String>)>) -> Seq<(Option<i32>, Seq<Seq<char>>)> {
    rows.map_values(|r: (Option<i32>, Vec<String>)| (r.0, r.1.deep_view()))
}

proof fn lemma_group_rows_err_stays(rows: Seq<(Option<i32>, Seq<Seq<char>>)>, k: nat, m: nat)
    requires
        k <= m,
        group_rows(rows, k) is Err,
    ensures
        group_rows(rows, m) == group_rows(rows, k),
    decreases m - k,
{
    if k < m {
        lemma_group_rows_err_stays(rows, k, (m - 1) as nat);
    }
}

fn first_filled_exec(cells: &Vec<String>) -> (r: Option<String>)
    ensures
        r.deep_view() == first_filled(cells.deep_view()),
{
    let ghost cv = cells.deep_view();
    let mut i: usize = 0;
    assert(cv.skip(0) =~= cv);
    while i < cells.len()
        invariant
            i <= cells.len(),
            cv == cells.deep_view(),
            first_filled(cv.skip(i as int)) == first_filled(cv),
        decreases cells.len() - i,
    {
        assert(cv.skip(i as int)[0] == cells@[i as int]@);
        assert(cv.skip(i as int).drop_first() =~= cv.skip(i + 1));
        let t = trim_text(cells[i].as_str());
        if t.as_str().unicode_len() > 0 {
            return Some(t);
        }
        i = i + 1;
    }
    assert(cv.skip(i as int) =~= Seq::<Seq<char>>::empty());
    None
}

/// The nominations in rows `rows` of a sheet, each row given as the number
/// in its first cell (rounded), where that cell holds a number, and the text
/// of its cells: numbered rows are teams (`Team::try_from` of the number and
/// the trimmed cells after the first), a row with text heads the teams after
/// it, blank rows are skipped. `Err(i)` where row `i` is a team row with
/// fewer than two cells after its number.
pub fn read_column(rows: &Vec<(Option<i32>, Vec<String>)>) -> (r: Result<Vec<NominationDeclaration>, usize>)
    requires
        forall|i: int| 0 <= i < rows@.len() ==> (#[trigger] rows@[i]).1@.len() >= 1,
    ensures
        match read_column_model(rows_view(rows@)) {
            Ok(noms) => r matches Ok(v) && v.deep_view() == noms,
            Err(e) => r == Err::<Vec<NominationDeclaration>, usize>(e as usize),
        },
{
    proof {
        reveal_strlit("DEBUG");
    }
    let ghost rv = rows_view(rows@);
    let mut done: Vec<NominationDeclaration> = Vec::new();
    let mut marker: String = "DEBUG".to_owned();
    let mut items: Vec<Team> = Vec::new();
    let mut i: usize = 0;
    assert(done.deep_view() =~= Seq::<NominationDeclarationModel>::empty());
    assert(items.deep_view() =~= Seq::<TeamModel>::empty());
    assert(marker@ =~= default_marker());
    while i < rows.len()
        invariant
            i <= rows.len(),
            rv == rows_view(rows@),
            forall|j: int| 0 <= j < rows@.len() ==> (#[trigger] rows@[j]).1@.len() >= 1,
            group_rows(rv, i as nat) == Ok::<Grouping, int>(
                Grouping { done: done.deep_view(), marker: marker@, items: items.deep_view() },
            ),
        decreases rows.len() - i,
    {
        let ghost st = Grouping { done: done.deep_view(), marker: marker@, items: items.deep_view() };
        assert(rv[i as int] == (rows@[i as int].0, rows@[i as int].1.deep_view()));
        let first = rows[i].0;
        let cells = &rows[i].1;
        let ghost cv = cells.deep_view();
        match first {
            Some(n) => {
                let mut trimmed_cells: Vec<String> = Vec::new();
                let mut k: usize = 1;
                assert(cells@.len() >= 1);
                assert(trimmed_cells.deep_view() =~= cv.subrange(1, 1).map_values(|c: Seq<char>| trimmed(c)));
                while k < cells.len()
                    invariant
                        1 <= k <= cells.len(),
                        cv == cells.deep_view(),
                        trimmed_cells.deep_view() == cv.subrange(1, k as int).map_values(
                            |c: Seq<char>| trimmed(c),
                        ),
                    decreases cells.len() - k,
                {
                    let ghost before = trimmed_cells.deep_view();
                    let t = trim_text(cells[k].as_str());
                    trimmed_cells.push(t);
                    assert(trimmed_cells.deep_view() =~= before.push(trimmed(cv[k as int])));
                    assert(cv.subrange(1, k + 1).map_values(|c: Seq<char>| trimmed(c)) =~= cv.subrange(
                        1,
                        k as int,
                    ).map_values(|c: Seq<char>| trimmed(c)).push(trimmed(cv[k as int])));
                    k = k + 1;
                }
                assert(cv.skip(1) =~= cv.subrange(1, cells.len() as int));
                let ghost tc = trimmed_cells.deep_view();
                assert(line_of(first, cv) == LineModel::Item(n, tc));
                match Team::try_from((n, trimmed_cells)) {
                    Ok(t) => {
                        let ghost before = items.deep_view();
                        items.push(t);
                        assert(items.deep_view() =~= before.push(team_from_row(n, tc)));
                    },
                    Err(_) => {
                        assert(group_rows(rv, (i + 1) as nat) == Err::<Grouping, int>(i as int));
                        proof {
                            lemma_group_rows_err_stays(rv, (i + 1) as nat, rows.len() as nat);
                        }
                        assert(rv.len() == rows@.len());
                        return Err(i);
                    },
                }
            },
            None => {
                match first_filled_exec(cells) {
                    Some(m) => {
                        if items.len() > 0 {
                            let ghost before = done.deep_view();
                            let ghost nm = nomination_of(marker@, items.deep_view());
                            let mut taken: Vec<Team> = Vec::new();
                            std::mem::swap(&mut taken, &mut items);
                            let nom = NominationDeclaration::from((marker, taken));
                            done.push(nom);
                            assert(done.deep_view() =~= before.push(nm));
                        }
                        marker = m;
                        assert(items.deep_view() =~= Seq::<TeamModel>::empty());
                    },
                    None => {},
                }
            },
        }
        i = i + 1;
    }
    assert(rv.len() == rows@.len());
    if items.len() > 0 {
        let ghost before = done.deep_view();
        let ghost nm = nomination_of(marker@, items.deep_view());
        let nom = NominationDeclaration::from((marker, items));
        done.push(nom);
        assert(done.deep_view() =~= before.push(nm));
    }
    Ok(done)
}

/// The copies that unmerging the merged ranges `ranges` makes, in order:
/// for each range `(x1, y1, x2, y2)`, column by column and row by row, every
/// cell `(i, j)` of it receives the value of its top-left cell `(x1, y1)`.
/// Each copy is `(i, j, x1, y1)`.
pub open spec fn range_copies(r: (u32, u32, u32, u32)) -> Seq<(u32, u32, u32, u32)> {
    let (x1, y1, x2, y2) = r;
    let w = if x2 >= x1 {
        x2 - x1 + 1
    } else {
        0
    };
    let h = if y2 >= y1 {
        y2 - y1 + 1
    } else {
        0
    };
    Seq::new(
        (w * h) as nat,
        |k: int| ((x1 + k / h) as u32, (y1 + k % h) as u32, x1, y1),
    )
}

pub open spec fn all_copies(ranges: Seq<(u32, u32, u32, u32)>) -> Seq<(u32, u32, u32, u32)>
    decreases ranges.len(),
{
    if ranges.len() == 0 {
        Seq::empty()
    } else {
        all_copies(ranges.drop_last()) + range_copies(ranges.last())
    }
}

/// The copies that unmerging `ranges` makes, in the order in which they are
/// made.
pub fn merged_cleaner(ranges: &Vec<(u32, u32, u32, u32)>) -> (r: Vec<(u32, u32, u32, u32)>)
    requires
        forall|i: int| 0 <= i < ranges@.len() ==> (#[trigger] ranges@[i]).2 < u32::MAX && ranges@[i].3
            < u32::MAX,
    ensures
        r@ == all_copies(ranges@),
{
    let mut out: Vec<(u32, u32, u32, u32)> = Vec::new();
    let mut k: usize = 0;
    assert(out@ =~= all_copies(ranges@.subrange(0, 0)));
    while k < ranges.len()
        invariant
            k <= ranges@.len(),
            forall|i: int| 0 <= i < ranges@.len() ==> (#[trigger] ranges@[i]).2 < u32::MAX && ranges@[i].3
                < u32::MAX,
            out@ == all_copies(ranges@.subrange(0, k as int)),
        decreases ranges@.len() - k,
    {
        let (x1, y1, x2, y2) = ranges[k];
        assert(ranges@.subrange(0, k + 1).drop_last() =~= ranges@.subrange(0, k as int));
        let ghost base = out@;
        let ghost rc = range_copies((x1, y1, x2, y2));
        let ghost h: int = if y2 >= y1 { y2 - y1 + 1 } else { 0 };
        let mut i: u32 = x1;
        while i < x2 + 1
            invariant
                x1 <= i,
                x2 < u32::MAX,
                y2 < u32::MAX,
                x2 >= x1 ==> i <= x2 + 1,
                h == (if y2 >= y1 { y2 - y1 + 1 } else { 0 }),
                rc == range_copies((x1, y1, x2, y2)),
                out@ == base + rc.subrange(0, (i - x1) * h),
                (i - x1) * h <= rc.len(),
            decreases x2 + 1 - i,
        {
            let mut j: u32 = y1;
            while j < y2 + 1
                invariant
                    x1 <= i <= x2,
                    y1 <= j,
                    y2 < u32::MAX,
                    y2 >= y1 ==> j <= y2 + 1,
                    h == (if y2 >= y1 { y2 - y1 + 1 } else { 0 }),
                    rc == range_copies((x1, y1, x2, y2)),
                    out@ == base + rc.subrange(0, (i - x1) * h + (j - y1)),
                    (i - x1) * h + (j - y1) <= rc.len(),
                decreases y2 + 1 - j,
            {
                let ghost kk = (i - x1) * h + (j - y1);
                assert(kk / h == i - x1 && kk % h == j - y1) by (nonlinear_arith)
                    requires
                        kk == (i - x1) * h + (j - y1),
                        0 <= j - y1 < h,
                        0 <= i - x1,
                ;
                assert((i - x1) * h + (j - y1) < (x2 - x1 + 1) * h) by (nonlinear_arith)
                    requires
                        i <= x2,
                        x1 <= i,
                        0 <= j - y1 < h,
                ;
                let ghost before = out@;
                out.push((i, j, x1, y1));
                assert(rc[kk] == (i, j, x1, y1));
                assert(out@ =~= base + rc.subrange(0, kk + 1));
                j = j + 1;
            }
            assert((i - x1) * h + h == (i + 1 - x1) * h) by (nonlinear_arith);
            assert((i + 1 - x1) * h <= (x2 - x1 + 1) * h) by (nonlinear_arith)
                requires
                    i <= x2,
                    x1 <= i,
                    h >= 0,
            ;
            i = i + 1;
        }
        assert(rc.subrange(0, (i - x1) * h) =~= rc) by {
            if x2 >= x1 {
                assert(i == x2 + 1);
            }
        }
        assert(out@ =~= all_copies(ranges@.subrange(0, k + 1)));
        k = k + 1;
    }
    assert(ranges@.subrange(0, ranges@.len() as int) =~= ranges@);
    out
}


/// A cell of a sheet as it is read from an xlsx file: its raw value, its
/// text as formatted, and the number it holds (rounded), where it holds one.
#[derive(Clone, Debug, PartialEq)]
pub struct SheetCell {
    pub value: String,
    pub text: String,
    pub number: Option<i32>,
}

pub struct SheetCellModel {
    pub value: Seq<char>,
    pub text: Seq<char>,
    pub number: Option<i32>,
}

impl DeepView for SheetCell {
    type V = SheetCellModel;

    open spec fn deep_view(&self) -> SheetCellModel {
        SheetCellModel { value: self.value@, text: self.text@, number: self.number }
    }
}

impl Replicate for SheetCell {
    fn replicate(&self) -> (r: Self) {
        SheetCell { value: self.value.clone(), text: self.text.clone(), number: self.number }
    }
}

/// A sheet of an xlsx file: its name; its cells row by row, from row 1 and
/// column 1 up to the highest row and column that hold a cell (`None` where
/// there is no cell); and its merged ranges as (first column, first row,
/// last column, last row).
#[derive(Clone, Debug, PartialEq)]
pub struct SheetCells {
    pub name: String,
    pub cells: Vec<Vec<Option<SheetCell>>>,
    pub merged: Vec<Option<(u32, u32, u32, u32)>>,
}

pub struct SheetCellsModel {
    pub name: Seq<char>,
    pub cells: Seq<Seq<Option<SheetCellModel>>>,
    pub merged: Seq<Option<(u32, u32, u32, u32)>>,
}

impl DeepView for SheetCells {
    type V = SheetCellsModel;

    open spec fn deep_view(&self) -> SheetCellsModel {
        SheetCellsModel { name: self.name@, cells: self.cells.deep_view(), merged: self.merged@ }
    }
}

/// What reading the bytes `data` of an xlsx file for its sheets' names and
/// cells comes to: `None` where umya-spreadsheet panics on them; else
/// `Some(None)` where it refuses them, and otherwise, for each sheet in
/// order, its name and its cells.
pub uninterp spec fn xlsx_sheets(data: Seq<u8>) -> Option<Option<Seq<(Seq<char>, Seq<Seq<Option<SheetCellModel>>>)>>>;

/// What reading the bytes `data` of an xlsx file for its sheets' merged
/// ranges comes to: `None` where umya-spreadsheet panics on them; else
/// `Some(None)` where it refuses them, and otherwise, for each sheet in
/// order, its merged ranges, `None` for a range that lacks a coordinate.
pub uninterp spec fn xlsx_merges(data: Seq<u8>) -> Option<Option<Seq<Seq<Option<(u32, u32, u32, u32)>>>>>;

/// umya-spreadsheet reads the bytes `data` without a panic.
pub open spec fn xlsx_reads(data: Seq<u8>) -> bool {
    xlsx_sheets(data) is Some && xlsx_merges(data) is Some
}

/// The sheets of the xlsx file `data`: the names and cells that the reader
/// gives, each with the merged ranges it gives for that sheet; `None` where
/// the reader refuses the bytes (or, as it never does, gives the two in
/// different numbers).
pub open spec fn xlsx_book(data: Seq<u8>) -> Option<Seq<SheetCellsModel>> {
    match (xlsx_sheets(data), xlsx_merges(data)) {
        (Some(Some(ss)), Some(Some(ms))) => if ss.len() == ms.len() {
            Some(Seq::new(ss.len(), |k: int| SheetCellsModel { name: ss[k].0, cells: ss[k].1, merged: ms[k] }))
        } else {
            None
        },
        _ => None,
    }
}

/// The width of a grid of cells: that of its first row.
pub open spec fn grid_width(g: Seq<Seq<Option<SheetCellModel>>>) -> nat {
    if g.len() == 0 {
        0
    } else {
        g[0].len()
    }
}

/// Every row of the grid is as wide as the first, and the grid spans at most
/// the rows and columns that a sheet can number.
pub open spec fn grid_shape(g: Seq<Seq<Option<SheetCellModel>>>) -> bool {
    &&& g.len() <= u32::MAX
    &&& grid_width(g) <= u32::MAX
    &&& forall|r: int| 0 <= r < g.len() ==> (#[trigger] g[r]).len() == grid_width(g)
}

/// Calls `umya_spreadsheet::reader::xlsx::read_reader` on `data` (reading the
/// sheets), and for each sheet, in order, hands back its name (`get_name`)
/// and each cell `get_cell((column, row))` up to `get_highest_column_and_row`
/// with its `get_value`, the sheet's `get_formatted_value` for it and its
/// `get_value_number` rounded to an `i32`. What is read is left to the name
/// `xlsx_sheets`; the grid built has rows of one width, each at most
/// `u32::MAX` long. umya unwraps and panics inside its readers on some
/// malformed files; those bytes are left out by the `requires`.
#[verifier::external_body]
fn read_xlsx_sheets(data: &[u8]) -> (r: Option<Vec<(String, Vec<Vec<Option<SheetCell>>>)>>)
    requires
        xlsx_sheets(data@) is Some,
    ensures
        xlsx_sheets(data@) == Some(r.deep_view()),
        r matches Some(book) ==> forall|k: int| 0 <= k < book@.len() ==> grid_shape(#[trigger] book@[k].1.deep_view()),
{
    let mut book = umya_spreadsheet::reader::xlsx::read_reader(std::io::Cursor::new(data.to_vec()), true).ok()?;
    Some(book.get_sheet_collection_mut().iter().map(|ws| {
        let (cols, rows) = ws.get_highest_column_and_row();
        (ws.get_name().to_string(), (1..=rows).map(|r| (1..=cols).map(|c| ws.get_cell((c, r)).map(|x| SheetCell {
            value: x.get_value().to_string(), text: ws.get_formatted_value((c, r)),
            number: x.get_value_number().map(|f| f.round() as i32) })).collect()).collect())
    }).collect())
}

/// Calls `umya_spreadsheet::reader::xlsx::read_reader` on `data` (reading the
/// sheets), and for each sheet, in order, hands back the coordinates
/// (`get_num`) of the first column and row and of the last column and row of
/// each of its `get_merge_cells`. What is read is left to the name
/// `xlsx_merges`; a range that lacks one of the four coordinates is handed
/// back as `None`. umya unwraps and panics inside its readers on some
/// malformed files; those bytes are left out by the `requires`.
#[verifier::external_body]
fn read_xlsx_merges(data: &[u8]) -> (r: Option<Vec<Vec<Option<(u32, u32, u32, u32)>>>>)
    requires
        xlsx_merges(data@) is Some,
    ensures
        xlsx_merges(data@) == Some(r.deep_view()),
{
    let mut book = umya_spreadsheet::reader::xlsx::read_reader(std::io::Cursor::new(data.to_vec()), true).ok()?;
    Some(book.get_sheet_collection_mut().iter().map(|ws| ws.get_merge_cells().iter().map(|m| (|| Some((
        *m.get_coordinate_start_col()?.get_num(), *m.get_coordinate_start_row()?.get_num(),
        *m.get_coordinate_end_col()?.get_num(), *m.get_coordinate_end_row()?.get_num())))()).collect()).collect())
}

/// The sheets of the xlsx file `data`, with their merged ranges.
fn read_xlsx(data: &[u8]) -> (r: Option<Vec<SheetCells>>)
    requires
        xlsx_reads(data@),
    ensures
        r.deep_view() == xlsx_book(data@),
        r matches Some(book) ==> forall|k: int| 0 <= k < book@.len() ==> grid_shape(#[trigger] book@[k].cells.deep_view()),
{
    let sheets = read_xlsx_sheets(data);
    let merges = read_xlsx_merges(data);
    match (sheets, merges) {
        (Some(mut ss), Some(mut ms)) => {
            if ss.len() != ms.len() {
                return None;
            }
            let ghost sv = ss.deep_view();
            let ghost mv = ms.deep_view();
            let ghost target = xlsx_book(data@)->Some_0;
            let mut out: Vec<SheetCells> = Vec::new();
            let mut k: usize = 0;
            let n = ss.len();
            while ss.len() > 0
                invariant
                    n == sv.len(),
                    sv.len() == mv.len(),
                    k + ss@.len() == n,
                    ss@.len() == ms@.len(),
                    ss.deep_view() == sv.subrange(k as int, n as int),
                    ms.deep_view() == mv.subrange(k as int, n as int),
                    forall|j: int| 0 <= j < ss@.len() ==> grid_shape(#[trigger] ss@[j].1.deep_view()),
                    target == Seq::new(sv.len(), |j: int| SheetCellsModel { name: sv[j].0, cells: sv[j].1, merged: mv[j] }),
                    out.deep_view() == target.subrange(0, k as int),
                    forall|j: int| 0 <= j < out@.len() ==> grid_shape(#[trigger] out@[j].cells.deep_view()),
                decreases ss@.len(),
            {
                assert(ss.deep_view()[0] == ss@[0].deep_view());
                assert(ms.deep_view()[0] == ms@[0]@);
                assert(grid_shape(ss@[0].1.deep_view()));
                let ghost old_ss = ss@;
                let ghost old_ms = ms@;
                let ghost old_sd = ss.deep_view();
                let ghost old_md = ms.deep_view();
                let (name, cells) = ss.remove(0);
                let merged = ms.remove(0);
                assert forall|j: int| 0 <= j < ss@.len() implies ss.deep_view()[j] == sv.subrange(k + 1, n as int)[j] by {
                    assert(ss@[j] == old_ss[j + 1]);
                    assert(old_sd[j + 1] == old_ss[j + 1].deep_view());
                }
                assert forall|j: int| 0 <= j < ms@.len() implies ms.deep_view()[j] == mv.subrange(k + 1, n as int)[j] by {
                    assert(ms@[j] == old_ms[j + 1]);
                    assert(old_md[j + 1] == old_ms[j + 1].deep_view());
                }
                assert(ss.deep_view() =~= sv.subrange(k + 1, n as int));
                assert(ms.deep_view() =~= mv.subrange(k + 1, n as int));
                assert forall|j: int| 0 <= j < ss@.len() implies grid_shape(#[trigger] ss@[j].1.deep_view()) by {
                    assert(ss@[j] == old_ss[j + 1]);
                }
                let ghost before = out.deep_view();
                out.push(SheetCells { name, cells, merged });
                assert(out.deep_view() =~= before.push(target[k as int]));
                assert(out.deep_view() =~= target.subrange(0, k + 1));
                k = k + 1;
            }
            assert(target.subrange(0, n as int) =~= target);
            Some(out)
        },
        _ => None,
    }
}

/// The cell at column `c` and row `r` (from 1) of the grid, if there is one.
pub open spec fn cell_at(g: Seq<Seq<Option<SheetCellModel>>>, c: int, r: int) -> Option<SheetCellModel> {
    if 1 <= r <= g.len() && 1 <= c <= g[r - 1].len() {
        g[r - 1][c - 1]
    } else {
        None
    }
}

/// The cell at column `c` and row `r` once the writes `ov` are made on the
/// grid, in order.
pub open spec fn cell_after(
    g: Seq<Seq<Option<SheetCellModel>>>,
    ov: Seq<(u32, u32, SheetCellModel)>,
    c: int,
    r: int,
) -> Option<SheetCellModel>
    decreases ov.len(),
{
    if ov.len() == 0 {
        cell_at(g, c, r)
    } else if ov.last().0 == c && ov.last().1 == r {
        Some(ov.last().2)
    } else {
        cell_after(g, ov.drop_last(), c, r)
    }
}

/// The value of a missing cell: empty, with no number.
pub open spec fn blank_cell() -> SheetCellModel {
    SheetCellModel { value: Seq::empty(), text: Seq::empty(), number: None }
}

/// The writes that the copies `copies` (target column and row, source column
/// and row) make on the grid: each target gets the value of its source as it
/// stands when the copy is made.
pub open spec fn copy_writes(g: Seq<Seq<Option<SheetCellModel>>>, copies: Seq<(u32, u32, u32, u32)>) -> Seq<
    (u32, u32, SheetCellModel),
>
    decreases copies.len(),
{
    if copies.len() == 0 {
        Seq::empty()
    } else {
        let ov = copy_writes(g, copies.drop_last());
        let k = copies.last();
        ov.push(
            (
                k.0,
                k.1,
                match cell_after(g, ov, k.2 as int, k.3 as int) {
                    Some(x) => x,
                    None => blank_cell(),
                },
            ),
        )
    }
}

pub open spec fn max_write_col(ov: Seq<(u32, u32, SheetCellModel)>) -> nat
    decreases ov.len(),
{
    if ov.len() == 0 {
        0
    } else {
        let m = max_write_col(ov.drop_last());
        if ov.last().0 > m {
            ov.last().0 as nat
        } else {
            m
        }
    }
}

pub open spec fn max_write_row(ov: Seq<(u32, u32, SheetCellModel)>) -> nat
    decreases ov.len(),
{
    if ov.len() == 0 {
        0
    } else {
        let m = max_write_row(ov.drop_last());
        if ov.last().1 > m {
            ov.last().1 as nat
        } else {
            m
        }
    }
}

/// The writes that unmerging the merged ranges of sheet `s` makes.
pub open spec fn unmerge_writes(s: SheetCellsModel) -> Seq<(u32, u32, SheetCellModel)> {
    copy_writes(s.cells, all_copies(present_ranges(s.merged)))
}

/// The cell at column `c` and row `r` of sheet `s` once unmerged.
pub open spec fn unmerged_cell(s: SheetCellsModel, c: int, r: int) -> Option<SheetCellModel> {
    cell_after(s.cells, unmerge_writes(s), c, r)
}

/// The highest column of sheet `s` once unmerged.
pub open spec fn unmerged_width(s: SheetCellsModel) -> nat {
    let m = max_write_col(unmerge_writes(s));
    if grid_width(s.cells) > m {
        grid_width(s.cells)
    } else {
        m
    }
}

/// The highest row of sheet `s` once unmerged.
pub open spec fn unmerged_height(s: SheetCellsModel) -> nat {
    let m = max_write_row(unmerge_writes(s));
    if s.cells.len() > m {
        s.cells.len()
    } else {
        m
    }
}

/// The merged ranges can be unmerged: no range ends on the last column or
/// row number.
pub open spec fn merges_ok(ranges: Seq<Option<(u32, u32, u32, u32)>>) -> bool {
    forall|i: int|
        0 <= i < ranges.len() ==> ((#[trigger] ranges[i]) matches Some(r) && r.2 < u32::MAX && r.3 < u32::MAX)
}

/// The ranges of `ranges`, each with all its coordinates.
pub open spec fn present_ranges(ranges: Seq<Option<(u32, u32, u32, u32)>>) -> Seq<(u32, u32, u32, u32)> {
    ranges.map_values(|o: Option<(u32, u32, u32, u32)>| o.unwrap())
}

fn present_exec(ranges: &Vec<Option<(u32, u32, u32, u32)>>) -> (r: Vec<(u32, u32, u32, u32)>)
    requires
        merges_ok(ranges@),
    ensures
        r@ == present_ranges(ranges@),
        forall|i: int| 0 <= i < r@.len() ==> (#[trigger] r@[i]).2 < u32::MAX && r@[i].3 < u32::MAX,
{
    let mut out: Vec<(u32, u32, u32, u32)> = Vec::new();
    let mut i: usize = 0;
    while i < ranges.len()
        invariant
            i <= ranges@.len(),
            merges_ok(ranges@),
            out@ == present_ranges(ranges@).subrange(0, i as int),
        decreases ranges@.len() - i,
    {
        let x = match ranges[i] {
            Some(x) => x,
            None => {
                assert(ranges@[i as int] is Some);
                (0, 0, 0, 0)
            },
        };
        out.push(x);
        assert(out@ =~= present_ranges(ranges@).subrange(0, i + 1));
        i = i + 1;
    }
    assert(present_ranges(ranges@).subrange(0, ranges@.len() as int) =~= present_ranges(ranges@));
    out
}

/// The header of sheet `s` once unmerged: the values of row 1, `""` for a
/// missing cell.
pub open spec fn naive_header(s: SheetCellsModel) -> Seq<Seq<char>> {
    Seq::new(
        unmerged_width(s),
        |c: int|
            match unmerged_cell(s, c + 1, 1) {
                Some(x) => x.value,
                None => Seq::empty(),
            },
    )
}

/// The rows of sheet `s` after the header once unmerged: the value of each
/// cell, `None` for a missing one.
pub open spec fn naive_rows(s: SheetCellsModel) -> Seq<Seq<Option<Seq<char>>>> {
    Seq::new(
        if unmerged_height(s) >= 1 {
            (unmerged_height(s) - 1) as nat
        } else {
            0
        },
        |r: int|
            Seq::new(
                unmerged_width(s),
                |c: int|
                    match unmerged_cell(s, c + 1, r + 2) {
                        Some(x) => Some(x.value),
                        None => None,
                    },
            ),
    )
}


fn cell_after_exec(
    grid: &Vec<Vec<Option<SheetCell>>>,
    ov: &Vec<(u32, u32, SheetCell)>,
    c: u32,
    r: u32,
) -> (res: Option<SheetCell>)
    ensures
        res.deep_view() == cell_after(grid.deep_view(), ov.deep_view(), c as int, r as int),
{
    let ghost g = grid.deep_view();
    let ghost ovv = ov.deep_view();
    let mut k: usize = ov.len();
    assert(ovv.subrange(0, ovv.len() as int) =~= ovv);
    while k > 0
        invariant
            k <= ov@.len(),
            ovv == ov.deep_view(),
            g == grid.deep_view(),
            cell_after(g, ovv, c as int, r as int) == cell_after(g, ovv.subrange(0, k as int), c as int, r as int),
        decreases k,
    {
        let ghost pre = ovv.subrange(0, k as int);
        assert(pre.last() == ovv[k - 1]);
        assert(ovv[k - 1] == ov@[k - 1].deep_view());
        if ov[k - 1].0 == c && ov[k - 1].1 == r {
            return Some(ov[k - 1].2.replicate());
        }
        assert(pre.drop_last() =~= ovv.subrange(0, k - 1));
        k = k - 1;
    }
    assert(ovv.subrange(0, 0) =~= Seq::<(u32, u32, SheetCellModel)>::empty());
    if r >= 1 && (r as usize) <= grid.len() {
        let row = &grid[(r - 1) as usize];
        assert(g[r - 1] == row.deep_view());
        if c >= 1 && (c as usize) <= row.len() {
            assert(g[r - 1][c - 1] == row@[c - 1].deep_view());
            return row[(c - 1) as usize].replicate();
        }
    }
    None
}

fn copy_writes_exec(grid: &Vec<Vec<Option<SheetCell>>>, copies: &Vec<(u32, u32, u32, u32)>) -> (res: Vec<
    (u32, u32, SheetCell),
>)
    ensures
        res.deep_view() == copy_writes(grid.deep_view(), copies@),
{
    let ghost g = grid.deep_view();
    let mut ov: Vec<(u32, u32, SheetCell)> = Vec::new();
    let mut k: usize = 0;
    assert(copies@.subrange(0, 0) =~= Seq::<(u32, u32, u32, u32)>::empty());
    assert(ov.deep_view() =~= Seq::<(u32, u32, SheetCellModel)>::empty());
    while k < copies.len()
        invariant
            k <= copies@.len(),
            g == grid.deep_view(),
            ov.deep_view() == copy_writes(g, copies@.subrange(0, k as int)),
        decreases copies@.len() - k,
    {
        let (i, j, x1, y1) = copies[k];
        let ghost pre = copies@.subrange(0, k + 1);
        assert(pre.drop_last() =~= copies@.subrange(0, k as int));
        assert(pre.last() == copies@[k as int]);
        let v = match cell_after_exec(grid, &ov, x1, y1) {
            Some(x) => x,
            None => SheetCell { value: String::new(), text: String::new(), number: None },
        };
        let ghost before = ov.deep_view();
        ov.push((i, j, v));
        assert(ov.deep_view() =~= before.push((i, j, v.deep_view())));
        k = k + 1;
    }
    assert(copies@.subrange(0, copies@.len() as int) =~= copies@);
    ov
}

fn max_writes_exec(ov: &Vec<(u32, u32, SheetCell)>) -> (res: (u32, u32))
    ensures
        res.0 == max_write_col(ov.deep_view()),
        res.1 == max_write_row(ov.deep_view()),
{
    let ghost ovv = ov.deep_view();
    let mut mc: u32 = 0;
    let mut mr: u32 = 0;
    let mut k: usize = 0;
    assert(ovv.subrange(0, 0) =~= Seq::<(u32, u32, SheetCellModel)>::empty());
    while k < ov.len()
        invariant
            k <= ov@.len(),
            ovv == ov.deep_view(),
            mc == max_write_col(ovv.subrange(0, k as int)),
            mr == max_write_row(ovv.subrange(0, k as int)),
        decreases ov@.len() - k,
    {
        let ghost pre = ovv.subrange(0, k + 1);
        assert(pre.drop_last() =~= ovv.subrange(0, k as int));
        assert(pre.last() == ovv[k as int]);
        assert(ovv[k as int] == ov@[k as int].deep_view());
        if ov[k].0 > mc {
            mc = ov[k].0;
        }
        if ov[k].1 > mr {
            mr = ov[k].1;
        }
        k = k + 1;
    }
    assert(ovv.subrange(0, ovv.len() as int) =~= ovv);
    (mc, mr)
}

/// The header and the rows after it of sheet `sheet` once its merged ranges
/// are unmerged (each cell of a range taking the value of the range's first
/// cell): for each row up to the highest, the value of each cell up to the
/// highest column, `None` for a missing cell (`""` in the header).
pub fn naive_table(sheet: &SheetCells) -> (r: (Vec<String>, Vec<Vec<Option<String>>>))
    requires
        merges_ok(sheet.merged@),
        grid_shape(sheet.cells.deep_view()),
    ensures
        r.0.deep_view() == naive_header(sheet.deep_view()),
        r.1.deep_view() == naive_rows(sheet.deep_view()),
{
    let ghost s = sheet.deep_view();
    let ranges = present_exec(&sheet.merged);
    let copies = merged_cleaner(&ranges);
    let ov = copy_writes_exec(&sheet.cells, &copies);
    assert(ov.deep_view() == unmerge_writes(s));
    let (mc, mr) = max_writes_exec(&ov);
    let gw: u32 = if sheet.cells.len() == 0 {
        0
    } else {
        sheet.cells[0].len() as u32
    };
    let gh: u32 = sheet.cells.len() as u32;
    let width: u32 = if gw > mc { gw } else { mc };
    let height: u32 = if gh > mr { gh } else { mr };
    assert(width == unmerged_width(s));
    assert(height == unmerged_height(s));
    let mut head: Vec<String> = Vec::new();
    let mut c: u64 = 0;
    while c < width as u64
        invariant
            c <= width,
            s == sheet.deep_view(),
            ov.deep_view() == unmerge_writes(s),
            width == unmerged_width(s),
            head.deep_view() == naive_header(s).subrange(0, c as int),
        decreases width - c,
    {
        let col: u32 = (c + 1) as u32;
        assert(col == c + 1);
        let got = cell_after_exec(&sheet.cells, &ov, col, 1);
        assert(got.deep_view() == unmerged_cell(s, c + 1, 1));
        let v = match got {
            Some(x) => x.value,
            None => String::new(),
        };
        assert(v@ == naive_header(s)[c as int]);
        let ghost before = head.deep_view();
        head.push(v);
        assert(head.deep_view() =~= before.push(naive_header(s)[c as int]));
        assert(head.deep_view() =~= naive_header(s).subrange(0, c + 1));
        c = c + 1;
    }
    assert(naive_header(s).subrange(0, width as int) =~= naive_header(s));
    let mut rows: Vec<Vec<Option<String>>> = Vec::new();
    let nrows: u64 = if height >= 1 { (height - 1) as u64 } else { 0 };
    let mut rr: u64 = 0;
    while rr < nrows
        invariant
            rr <= nrows,
            nrows == naive_rows(s).len(),
            height >= 1 ==> nrows == height - 1,
            height < 1 ==> nrows == 0,
            height == unmerged_height(s),
            s == sheet.deep_view(),
            ov.deep_view() == unmerge_writes(s),
            width == unmerged_width(s),
            rows.deep_view() == naive_rows(s).subrange(0, rr as int),
        decreases nrows - rr,
    {
        let mut line: Vec<Option<String>> = Vec::new();
        let mut c: u64 = 0;
        while c < width as u64
            invariant
                c <= width,
                rr < nrows,
                nrows == naive_rows(s).len(),
                height >= 1 ==> nrows == height - 1,
                height < 1 ==> nrows == 0,
                height == unmerged_height(s),
                s == sheet.deep_view(),
                ov.deep_view() == unmerge_writes(s),
                width == unmerged_width(s),
                line.deep_view() == naive_rows(s)[rr as int].subrange(0, c as int),
            decreases width - c,
        {
            let col: u32 = (c + 1) as u32;
            let row: u32 = (rr + 2) as u32;
            assert(col == c + 1 && row == rr + 2);
            let got = cell_after_exec(&sheet.cells, &ov, col, row);
            assert(got.deep_view() == unmerged_cell(s, c + 1, rr + 2));
            let v = match got {
                Some(x) => Some(x.value),
                None => None,
            };
            assert(v.deep_view() == naive_rows(s)[rr as int][c as int]);
            let ghost lb = line.deep_view();
            line.push(v);
            assert(line.deep_view() =~= lb.push(naive_rows(s)[rr as int][c as int]));
            assert(line.deep_view() =~= naive_rows(s)[rr as int].subrange(0, c + 1));
            c = c + 1;
        }
        assert(naive_rows(s)[rr as int].subrange(0, width as int) =~= naive_rows(s)[rr as int]);
        let ghost before = rows.deep_view();
        rows.push(line);
        assert(rows.deep_view() =~= before.push(naive_rows(s)[rr as int]));
        assert(rows.deep_view() =~= naive_rows(s).subrange(0, rr + 1));
        rr = rr + 1;
    }
    assert(naive_rows(s).subrange(0, nrows as int) =~= naive_rows(s));
    (head, rows)
}


/// Sheet `i` is the first of `book` named `name`.
pub open spec fn is_first_named(book: Seq<SheetCellsModel>, name: Seq<char>, i: int) -> bool {
    &&& 0 <= i < book.len()
    &&& book[i].name == name
    &&& forall|j: int| 0 <= j < i ==> (#[trigger] book[j]).name != name
}

fn find_sheet(book: &Vec<SheetCells>, name: &str) -> (r: Option<usize>)
    ensures
        match r {
            Some(i) => is_first_named(book.deep_view(), name@, i as int),
            None => forall|j: int| 0 <= j < book@.len() ==> (#[trigger] book.deep_view()[j]).name != name@,
        },
{
    let ghost bv = book.deep_view();
    let mut i: usize = 0;
    while i < book.len()
        invariant
            i <= book@.len(),
            bv == book.deep_view(),
            forall|j: int| 0 <= j < i ==> (#[trigger] bv[j]).name != name@,
        decreases book@.len() - i,
    {
        assert(bv[i as int].name == book@[i as int].name@);
        if str_eq(book[i].name.as_str(), name) {
            return Some(i);
        }
        i = i + 1;
    }
    None
}

proof fn lemma_first_named_unique(book: Seq<SheetCellsModel>, name: Seq<char>, i: int, k: int)
    requires
        is_first_named(book, name, i),
        is_first_named(book, name, k),
    ensures
        i == k,
{
    if i < k {
        assert(book[i].name != name);
    } else if k < i {
        assert(book[k].name != name);
    }
}

/// The name of the participant sheet of a competition file.
pub open spec fn participants_sheet() -> Seq<char> {
    "Участники"@
}

/// The name of the performance sheet of a competition file.
pub open spec fn performances_sheet() -> Seq<char> {
    "Выступления"@
}

/// The competition file `data` can be read without a panic: the merged
/// ranges of its two sheets can be unmerged, and reading the performances
/// meets no missing cell that it needs.
pub open spec fn competition_file_ok(data: Seq<u8>) -> bool {
    match xlsx_book(data) {
        None => true,
        Some(book) => forall|p: int, f: int|
            #[trigger] is_first_named(book, participants_sheet(), p) && #[trigger] is_first_named(
                book,
                performances_sheet(),
                f,
            ) ==> merges_ok(book[p].merged) && merges_ok(book[f].merged) && perf_rows_readable(
                naive_rows(book[f]),
            ),
    }
}

/// `r` is what reading the competition file `data` gives: `Unreadable` where
/// it is no spreadsheet, `MissingSheet` where a sheet named «Участники» or
/// «Выступления» is missing, else what reading the first sheets of those
/// names, unmerged, gives.
pub open spec fn competition_file_read(
    data: Seq<u8>,
    r: Result<(Vec<Participant>, Vec<Performance>), SheetError>,
) -> bool {
    match xlsx_book(data) {
        None => r == Err::<(Vec<Participant>, Vec<Performance>), SheetError>(SheetError::Unreadable),
        Some(book) => if (exists|p: int| is_first_named(book, participants_sheet(), p)) && (exists|f: int|
            is_first_named(book, performances_sheet(), f)) {
            forall|p: int, f: int|
                #[trigger] is_first_named(book, participants_sheet(), p) && #[trigger] is_first_named(
                    book,
                    performances_sheet(),
                    f,
                ) ==> competition_read(naive_header(book[p]), naive_rows(book[p]), naive_rows(book[f]), r)
        } else {
            r == Err::<(Vec<Participant>, Vec<Performance>), SheetError>(SheetError::MissingSheet)
        },
    }
}

/// The participants and performances of a competition file given as the
/// bytes of an xlsx file: the sheets «Участники» and «Выступления» are
/// unmerged and read as `participants::compet_reader` reads them.
pub fn compet_reader_bytes(data: &[u8]) -> (r: Result<(Vec<Participant>, Vec<Performance>), SheetError>)
    requires
        xlsx_reads(data@),
        competition_file_ok(data@),
    ensures
        competition_file_read(data@, r),
{
    let book = match read_xlsx(data) {
        None => {
            return Err(SheetError::Unreadable);
        },
        Some(b) => b,
    };
    let ghost bv = book.deep_view();
    assert(xlsx_book(data@) == Some(bv));
    let pi = find_sheet(&book, "Участники");
    let fi = find_sheet(&book, "Выступления");
    let (p, f) = match (pi, fi) {
        (Some(p), Some(f)) => (p, f),
        _ => {
            proof {
                if pi is None {
                    assert(!exists|q: int| is_first_named(bv, participants_sheet(), q));
                } else {
                    assert(!exists|q: int| is_first_named(bv, performances_sheet(), q));
                }
            }
            return Err(SheetError::MissingSheet);
        },
    };
    assert(is_first_named(bv, participants_sheet(), p as int));
    assert(is_first_named(bv, performances_sheet(), f as int));
    assert(bv[p as int] == book@[p as int].deep_view());
    assert(bv[f as int] == book@[f as int].deep_view());
    assert(merges_ok(bv[p as int].merged) && merges_ok(bv[f as int].merged) && perf_rows_readable(naive_rows(bv[f as int]))) by {
        let pp = p as int;
        let ff = f as int;
        assert(competition_file_ok(data@));
        let book0 = xlsx_book(data@)->Some_0;
        assert(book0 == bv);
        assert(forall|p1: int, f1: int|
            #[trigger] is_first_named(book0, participants_sheet(), p1) && #[trigger] is_first_named(
                book0,
                performances_sheet(),
                f1,
            ) ==> merges_ok(book0[p1].merged) && merges_ok(book0[f1].merged) && perf_rows_readable(
                naive_rows(book0[f1]),
            ));
        assert(is_first_named(bv, participants_sheet(), pp) && is_first_named(bv, performances_sheet(), ff));
    }
    let (head, part_rows) = naive_table(&book[p]);
    let (_, perf_rows) = naive_table(&book[f]);
    let r = compet_reader(&head, &part_rows, &perf_rows);
    proof {
        assert forall|p2: int, f2: int|
            #[trigger] is_first_named(bv, participants_sheet(), p2) && #[trigger] is_first_named(
                bv,
                performances_sheet(),
                f2,
            ) implies competition_read(naive_header(bv[p2]), naive_rows(bv[p2]), naive_rows(bv[f2]), r) by {
            lemma_first_named_unique(bv, participants_sheet(), p as int, p2);
            lemma_first_named_unique(bv, performances_sheet(), f as int, f2);
        }
    }
    r
}


fn merges_check(ranges: &Vec<Option<(u32, u32, u32, u32)>>) -> (r: bool)
    ensures
        r == merges_ok(ranges@),
{
    let mut i: usize = 0;
    while i < ranges.len()
        invariant
            i <= ranges@.len(),
            forall|j: int|
                0 <= j < i ==> ((#[trigger] ranges@[j]) matches Some(r) && r.2 < u32::MAX && r.3 < u32::MAX),
        decreases ranges@.len() - i,
    {
        match ranges[i] {
            Some(r) => {
                if r.2 == u32::MAX || r.3 == u32::MAX {
                    return false;
                }
            },
            None => {
                return false;
            },
        }
        i = i + 1;
    }
    true
}

/// Reads the competition file `data` where that can be done without a
/// panic (`competition_file_ok`), as `compet_reader_bytes` does; `None`
/// where it cannot.
pub fn try_compet_reader_bytes(data: &[u8]) -> (r: Option<Result<(Vec<Participant>, Vec<Performance>), SheetError>>)
    requires
        xlsx_reads(data@),
    ensures
        competition_file_ok(data@) ==> (r matches Some(x) && competition_file_read(data@, x)),
        !competition_file_ok(data@) ==> r is None,
{
    let ok = match read_xlsx(data) {
        None => true,
        Some(book) => {
            let ghost bv = book.deep_view();
            assert(xlsx_book(data@) == Some(bv));
            match (find_sheet(&book, "Участники"), find_sheet(&book, "Выступления")) {
                (Some(p), Some(f)) => {
                    assert(bv[p as int] == book@[p as int].deep_view());
                    assert(bv[f as int] == book@[f as int].deep_view());
                    let good = if merges_check(&book[p].merged) && merges_check(&book[f].merged) {
                        let (_, perf_rows) = naive_table(&book[f]);
                        perf_rows_check(&perf_rows)
                    } else {
                        false
                    };
                    proof {
                        assert forall|p2: int, f2: int|
                            #[trigger] is_first_named(bv, participants_sheet(), p2) && #[trigger] is_first_named(
                                bv,
                                performances_sheet(),
                                f2,
                            ) implies p2 == p && f2 == f by {
                            lemma_first_named_unique(bv, participants_sheet(), p as int, p2);
                            lemma_first_named_unique(bv, performances_sheet(), f as int, f2);
                        }
                        assert(is_first_named(bv, participants_sheet(), p as int));
                        assert(is_first_named(bv, performances_sheet(), f as int));
                        let bk = xlsx_book(data@)->Some_0;
                        assert(bk == bv);
                        let pp = p as int;
                        let ff = f as int;
                        assert(good == (merges_ok(bv[pp].merged) && merges_ok(bv[ff].merged) && perf_rows_readable(naive_rows(bv[ff]))));
                        if competition_file_ok(data@) {
                            assert(forall|p1: int, f1: int|
                                #[trigger] is_first_named(bk, participants_sheet(), p1) && #[trigger] is_first_named(
                                    bk,
                                    performances_sheet(),
                                    f1,
                                ) ==> merges_ok(bk[p1].merged) && merges_ok(bk[f1].merged) && perf_rows_readable(
                                    naive_rows(bk[f1]),
                                ));
                            assert(is_first_named(bk, participants_sheet(), pp));
                            assert(is_first_named(bk, performances_sheet(), ff));
                            assert(good);
                        }
                        if good {
                            assert(competition_file_ok(data@));
                        }
                    }
                    good
                },
                (pi, fi) => {
                    proof {
                        if pi is None {
                            assert(forall|q: int| !is_first_named(bv, participants_sheet(), q));
                        } else {
                            assert(forall|q: int| !is_first_named(bv, performances_sheet(), q));
                        }
                        assert(competition_file_ok(data@));
                    }
                    true
                },
            }
        },
    };
    if ok {
        Some(compet_reader_bytes(data))
    } else {
        None
    }
}


/// The cells of column `c` of sheet `s`, once unmerged, in the rows below
/// `n`, in row order.
pub open spec fn col_cells(s: SheetCellsModel, c: int, n: nat) -> Seq<SheetCellModel>
    decreases n,
{
    if n == 0 {
        Seq::empty()
    } else {
        let before = col_cells(s, c, (n - 1) as nat);
        match unmerged_cell(s, c, n - 1) {
            Some(x) => before.push(x),
            None => before,
        }
    }
}

/// The cells that column `c` of sheet `s` holds once unmerged, in row order.
pub open spec fn column_cells(s: SheetCellsModel, c: int) -> Seq<SheetCellModel> {
    col_cells(s, c, unmerged_height(s) + 1)
}

/// The length of the shortest of `cols`.
pub open spec fn min_len(cols: Seq<Seq<SheetCellModel>>) -> nat
    decreases cols.len(),
{
    if cols.len() == 0 {
        0
    } else if cols.len() == 1 {
        cols[0].len()
    } else {
        let m = min_len(cols.drop_last());
        if cols.last().len() < m {
            cols.last().len()
        } else {
            m
        }
    }
}

proof fn lemma_min_len(cols: Seq<Seq<SheetCellModel>>)
    ensures
        forall|k: int| 0 <= k < cols.len() ==> min_len(cols) <= (#[trigger] cols[k]).len(),
    decreases cols.len(),
{
    if cols.len() > 1 {
        lemma_min_len(cols.drop_last());
        assert forall|k: int| 0 <= k < cols.len() implies min_len(cols) <= (#[trigger] cols[k]).len() by {
            if k < cols.len() - 1 {
                assert(cols[k] == cols.drop_last()[k]);
            }
        }
    }
}

/// The rows that a block of `size` columns from column `start` of sheet `s`
/// is read as: the `line`-th cell of each column makes row `line`, as long as
/// every column has one; a row is the number of its first cell and the
/// formatted text of its cells.
pub open spec fn block_rows(s: SheetCellsModel, start: int, size: nat) -> Seq<(Option<i32>, Seq<Seq<char>>)> {
    let cols = Seq::new(size, |k: int| column_cells(s, start + k));
    Seq::new(min_len(cols), |line: int| (cols[0][line].number, Seq::new(size, |k: int| cols[k][line].text)))
}

/// The nominations of the first `m` blocks of `linsize` columns of sheet
/// `s`, from column `shift` on; or the first error.
pub open spec fn sheet_blocks(s: SheetCellsModel, linsize: nat, shift: nat, m: nat) -> Result<
    Seq<Seq<NominationDeclarationModel>>,
    int,
>
    decreases m,
{
    if m == 0 {
        Ok(Seq::empty())
    } else {
        match sheet_blocks(s, linsize, shift, (m - 1) as nat) {
            Err(e) => Err(e),
            Ok(bs) => match read_column_model(block_rows(s, shift + linsize * (m - 1), linsize)) {
                Err(e) => Err(e),
                Ok(b) => Ok(bs.push(b)),
            },
        }
    }
}

/// The nominations of `count` blocks of every one of the first `n` sheets.
pub open spec fn book_blocks(book: Seq<SheetCellsModel>, count: nat, linsize: nat, shift: nat, n: nat) -> Result<
    Seq<Seq<NominationDeclarationModel>>,
    int,
>
    decreases n,
{
    if n == 0 {
        Ok(Seq::empty())
    } else {
        match book_blocks(book, count, linsize, shift, (n - 1) as nat) {
            Err(e) => Err(e),
            Ok(bs) => match sheet_blocks(book[n - 1], linsize, shift, count) {
                Err(e) => Err(e),
                Ok(cs) => Ok(bs + cs),
            },
        }
    }
}

/// Reading the packaged table `data` meets no panic: where the file has
/// sheets and blocks are read, a block has a column and the last column
/// read has a number, and every sheet can be unmerged.
pub open spec fn packaged_table_ok(data: Seq<u8>, count_each: u32, linsize: u32, shift: u32) -> bool {
    match xlsx_book(data) {
        None => true,
        Some(book) => (book.len() > 0 && count_each > 0 ==> linsize >= 1 && shift + linsize * count_each
            <= u32::MAX) && forall|k: int| 0 <= k < book.len() ==> merges_ok(#[trigger] book[k].merged),
    }
}

fn column_exec(sheet: &SheetCells, ov: &Vec<(u32, u32, SheetCell)>, height: u32, c: u32) -> (r: Vec<SheetCell>)
    requires
        ov.deep_view() == unmerge_writes(sheet.deep_view()),
        height == unmerged_height(sheet.deep_view()),
    ensures
        r.deep_view() == column_cells(sheet.deep_view(), c as int),
{
    let ghost s = sheet.deep_view();
    let mut out: Vec<SheetCell> = Vec::new();
    let mut rr: u64 = 0;
    assert(out.deep_view() =~= Seq::<SheetCellModel>::empty());
    while rr <= height as u64
        invariant
            rr <= height + 1,
            s == sheet.deep_view(),
            ov.deep_view() == unmerge_writes(s),
            height == unmerged_height(s),
            out.deep_view() == col_cells(s, c as int, rr as nat),
        decreases height + 1 - rr,
    {
        let row: u32 = rr as u32;
        let got = cell_after_exec(&sheet.cells, ov, c, row);
        assert(got.deep_view() == unmerged_cell(s, c as int, rr as int));
        match got {
            Some(x) => {
                let ghost before = out.deep_view();
                out.push(x);
                assert(out.deep_view() =~= before.push(x.deep_view()));
            },
            None => {},
        }
        rr = rr + 1;
    }
    out
}

fn block_rows_exec(sheet: &SheetCells, ov: &Vec<(u32, u32, SheetCell)>, height: u32, start: u32, size: u32) -> (r: Vec<
    (Option<i32>, Vec<String>),
>)
    requires
        ov.deep_view() == unmerge_writes(sheet.deep_view()),
        height == unmerged_height(sheet.deep_view()),
        size >= 1,
        start + size <= u32::MAX,
    ensures
        rows_view(r@) == block_rows(sheet.deep_view(), start as int, size as nat),
        forall|i: int| 0 <= i < r@.len() ==> (#[trigger] r@[i]).1@.len() >= 1,
{
    let ghost s = sheet.deep_view();
    let ghost cm = Seq::new(size as nat, |k: int| column_cells(s, start + k));
    let mut cols: Vec<Vec<SheetCell>> = Vec::new();
    let mut k: u32 = 0;
    while k < size
        invariant
            k <= size,
            start + size <= u32::MAX,
            s == sheet.deep_view(),
            ov.deep_view() == unmerge_writes(s),
            height == unmerged_height(s),
            cm == Seq::new(size as nat, |k: int| column_cells(s, start + k)),
            cols.deep_view() == cm.subrange(0, k as int),
        decreases size - k,
    {
        let col = column_exec(sheet, ov, height, start + k);
        let ghost before = cols.deep_view();
        assert(col.deep_view() == cm[k as int]);
        cols.push(col);
        assert(cols.deep_view() =~= before.push(cm[k as int]));
        assert(cols.deep_view() =~= cm.subrange(0, k + 1));
        k = k + 1;
    }
    assert(cm.subrange(0, size as int) =~= cm);
    let mut least: usize = cols[0].len();
    let mut j: usize = 1;
    assert(cm.subrange(0, 1) =~= seq![cm[0]]);
    while j < cols.len()
        invariant
            1 <= j <= cols@.len(),
            cols@.len() == size,
            cols.deep_view() == cm,
            least == min_len(cm.subrange(0, j as int)),
        decreases cols@.len() - j,
    {
        assert(cm.subrange(0, j + 1).drop_last() =~= cm.subrange(0, j as int));
        assert(cm.subrange(0, j + 1).last() == cm[j as int]);
        assert(cm[j as int].len() == cols@[j as int]@.len());
        if cols[j].len() < least {
            least = cols[j].len();
        }
        j = j + 1;
    }
    proof {
        lemma_min_len(cm);
    }
    let ghost target = block_rows(s, start as int, size as nat);
    let mut rows: Vec<(Option<i32>, Vec<String>)> = Vec::new();
    let mut line: usize = 0;
    while line < least
        invariant
            line <= least,
            least == min_len(cm),
            cols@.len() == size,
            size >= 1,
            cols.deep_view() == cm,
            forall|q: int| 0 <= q < cm.len() ==> min_len(cm) <= (#[trigger] cm[q]).len(),
            target == block_rows(s, start as int, size as nat),
            cm == Seq::new(size as nat, |k: int| column_cells(s, start + k)),
            rows_view(rows@) == target.subrange(0, line as int),
            forall|i: int| 0 <= i < rows@.len() ==> (#[trigger] rows@[i]).1@.len() >= 1,
        decreases least - line,
    {
        assert(cm[0].len() >= least);
        assert(cols@[0].deep_view() == cm[0]);
        assert(cols@[0].deep_view()[line as int] == cols@[0]@[line as int].deep_view());
        let first = cols[0][line].number;
        let mut texts: Vec<String> = Vec::new();
        let mut k: usize = 0;
        while k < cols.len()
            invariant
                k <= cols@.len(),
                line < least,
                least == min_len(cm),
                cols@.len() == size,
                cols.deep_view() == cm,
                forall|q: int| 0 <= q < cm.len() ==> min_len(cm) <= (#[trigger] cm[q]).len(),
                texts.deep_view() == Seq::new(k as nat, |q: int| cm[q][line as int].text),
            decreases cols@.len() - k,
        {
            assert(cols@[k as int].deep_view() == cm[k as int]);
            assert(cm[k as int].len() >= least);
            assert(cols@[k as int].deep_view()[line as int] == cols@[k as int]@[line as int].deep_view());
            let t = cols[k][line].text.clone();
            assert(t@ == cm[k as int][line as int].text);
            let ghost before = texts.deep_view();
            texts.push(t);
            assert(texts.deep_view() =~= before.push(t@));
            assert(texts.deep_view() =~= Seq::new((k + 1) as nat, |q: int| cm[q][line as int].text));
            k = k + 1;
        }
        let ghost before = rows@;
        rows.push((first, texts));
        assert(rows_view(rows@) =~= rows_view(before).push((first, texts.deep_view())));
        assert(target[line as int] == (first, texts.deep_view()));
        assert(rows_view(rows@) =~= target.subrange(0, line + 1));
        line = line + 1;
    }
    assert(target.len() == least);
    assert(target.subrange(0, least as int) =~= target);
    rows
}


proof fn lemma_block_bound(shift: u32, linsize: u32, m: u32, count: u32)
    requires
        m < count,
        shift + linsize * count <= u32::MAX,
    ensures
        shift + linsize * m + linsize <= u32::MAX,
{
    assert(linsize * m + linsize <= linsize * count) by (nonlinear_arith)
        requires
            m < count,
    ;
}

/// The nominations of `count_each` blocks of `linsize` columns, from column
/// `shift` on, of every sheet of the xlsx file `data`, each sheet unmerged
/// first: block by block, sheet by sheet. A file that cannot be read gives
/// no blocks; a team row too short in a block gives `Err` with its line.
/// Each column's cells are taken in row order.
pub fn read_packaged_table_bytes(data: &[u8], count_each: u32, linsize: u32, shift: u32) -> (r: Result<
    Vec<Vec<NominationDeclaration>>,
    usize,
>)
    requires
        xlsx_reads(data@),
        packaged_table_ok(data@, count_each, linsize, shift),
    ensures
        match xlsx_book(data@) {
            None => r matches Ok(v) && v@.len() == 0,
            Some(book) => match book_blocks(book, count_each as nat, linsize as nat, shift as nat, book.len()) {
                Ok(bs) => r matches Ok(v) && v.deep_view() == bs,
                Err(e) => r == Err::<Vec<Vec<NominationDeclaration>>, usize>(e as usize),
            },
        },
{
    let mut out: Vec<Vec<NominationDeclaration>> = Vec::new();
    let book = match read_xlsx(data) {
        None => {
            return Ok(out);
        },
        Some(b) => b,
    };
    let ghost bv = book.deep_view();
    assert(xlsx_book(data@) == Some(bv));
    proof {
        let bk = xlsx_book(data@)->Some_0;
        assert(bk == bv);
        assert(forall|k: int| 0 <= k < bk.len() ==> merges_ok(#[trigger] bk[k].merged));
        assert(bk.len() > 0 && count_each > 0 ==> linsize >= 1 && shift + linsize * count_each <= u32::MAX);
    }
    let mut n: usize = 0;
    assert(out.deep_view() =~= Seq::<Seq<NominationDeclarationModel>>::empty());
    while n < book.len()
        invariant
            n <= book@.len(),
            bv == book.deep_view(),
            bv.len() == book@.len(),
            xlsx_book(data@) == Some(bv),
            forall|k: int| 0 <= k < book@.len() ==> grid_shape(#[trigger] book@[k].cells.deep_view()),
            book@.len() > 0 && count_each > 0 ==> linsize >= 1 && shift + linsize * count_each <= u32::MAX,
            forall|k: int| 0 <= k < bv.len() ==> merges_ok(#[trigger] bv[k].merged),
            book_blocks(bv, count_each as nat, linsize as nat, shift as nat, n as nat) == Ok::<
                Seq<Seq<NominationDeclarationModel>>,
                int,
            >(out.deep_view()),
        decreases book@.len() - n,
    {
        let sheet = &book[n];
        let ghost sm = bv[n as int];
        assert(sm == sheet.deep_view());
        assert(merges_ok(bv[n as int].merged));
        assert(sm.merged == sheet.merged@);
        assert(merges_ok(sheet.merged@));
        assert(grid_shape(sheet.cells.deep_view()));
        let ranges = present_exec(&sheet.merged);
        let copies = merged_cleaner(&ranges);
        let ov = copy_writes_exec(&sheet.cells, &copies);
        let (_, mr) = max_writes_exec(&ov);
        let gh: u32 = sheet.cells.len() as u32;
        let height: u32 = if gh > mr { gh } else { mr };
        assert(height == unmerged_height(sm));
        let ghost base = out.deep_view();
        let mut m: u32 = 0;
        while m < count_each
            invariant
                m <= count_each,
                n < book@.len(),
                bv == book.deep_view(),
                bv.len() == book@.len(),
                xlsx_book(data@) == Some(bv),
                sm == bv[n as int],
                sm == sheet.deep_view(),
                ov.deep_view() == unmerge_writes(sm),
                height == unmerged_height(sm),
                book@.len() > 0 && count_each > 0 ==> linsize >= 1 && shift + linsize * count_each <= u32::MAX,
                book_blocks(bv, count_each as nat, linsize as nat, shift as nat, n as nat) == Ok::<
                    Seq<Seq<NominationDeclarationModel>>,
                    int,
                >(base),
                sheet_blocks(sm, linsize as nat, shift as nat, m as nat) matches Ok(cs) && out.deep_view() == base + cs,
            decreases count_each - m,
        {
            proof {
                lemma_block_bound(shift, linsize, m, count_each);
            }
            let start: u32 = shift + linsize * m;
            assert(start as int == shift as nat + linsize as nat * (m as nat));
            let rows = block_rows_exec(sheet, &ov, height, start, linsize);
            let ghost cs = sheet_blocks(sm, linsize as nat, shift as nat, m as nat)->Ok_0;
            match read_column(&rows) {
                Ok(b) => {
                    let ghost before = out.deep_view();
                    assert(sheet_blocks(sm, linsize as nat, shift as nat, (m + 1) as nat) == Ok::<
                        Seq<Seq<NominationDeclarationModel>>,
                        int,
                    >(cs.push(b.deep_view())));
                    out.push(b);
                    assert(out.deep_view() =~= before.push(b.deep_view()));
                    assert(out.deep_view() =~= base + cs.push(b.deep_view()));
                },
                Err(e) => {
                    proof {
                        assert(sheet_blocks(sm, linsize as nat, shift as nat, (m + 1) as nat) is Err);
                        lemma_sheet_blocks_err_stays(sm, linsize as nat, shift as nat, (m + 1) as nat, count_each as nat);
                        assert(bv[n as int] == sm);
                        assert(book_blocks(bv, count_each as nat, linsize as nat, shift as nat, (n + 1) as nat) is Err);
                        lemma_book_blocks_err_stays(bv, count_each as nat, linsize as nat, shift as nat, (n + 1) as nat, bv.len());
                    }
                    return Err(e);
                },
            }
            m = m + 1;
        }
        n = n + 1;
    }
    Ok(out)
}

proof fn lemma_sheet_blocks_err_stays(s: SheetCellsModel, linsize: nat, shift: nat, k: nat, m: nat)
    requires
        k <= m,
        sheet_blocks(s, linsize, shift, k) is Err,
    ensures
        sheet_blocks(s, linsize, shift, m) == sheet_blocks(s, linsize, shift, k),
    decreases m - k,
{
    if k < m {
        lemma_sheet_blocks_err_stays(s, linsize, shift, k, (m - 1) as nat);
    }
}

proof fn lemma_book_blocks_err_stays(book: Seq<SheetCellsModel>, count: nat, linsize: nat, shift: nat, k: nat, m: nat)
    requires
        k <= m,
        book_blocks(book, count, linsize, shift, k) is Err,
    ensures
        book_blocks(book, count, linsize, shift, m) == book_blocks(book, count, linsize, shift, k),
    decreases m - k,
{
    if k < m {
        lemma_book_blocks_err_stays(book, count, linsize, shift, k, (m - 1) as nat);
    }
}


/// Reads the packaged table `data` as `read_packaged_table_bytes` does,
/// where that can be done without a panic (`packaged_table_ok`); `None`
/// where it cannot.
pub fn try_read_packaged_table_bytes(data: &[u8], count_each: u32, linsize: u32, shift: u32) -> (r: Option<
    Result<Vec<Vec<NominationDeclaration>>, usize>,
>)
    requires
        xlsx_reads(data@),
    ensures
        !packaged_table_ok(data@, count_each, linsize, shift) ==> r is None,
        packaged_table_ok(data@, count_each, linsize, shift) ==> (r matches Some(x) && match xlsx_book(data@) {
            None => x matches Ok(v) && v@.len() == 0,
            Some(book) => match book_blocks(book, count_each as nat, linsize as nat, shift as nat, book.len()) {
                Ok(bs) => x matches Ok(v) && v.deep_view() == bs,
                Err(e) => x == Err::<Vec<Vec<NominationDeclaration>>, usize>(e as usize),
            },
        }),
{
    let ok = match read_xlsx(data) {
        None => true,
        Some(book) => {
            let ghost bv = book.deep_view();
            assert(xlsx_book(data@) == Some(bv));
            let sizes_ok = if book.len() > 0 && count_each > 0 {
                linsize >= 1 && match (linsize as u64).checked_mul(count_each as u64) {
                    Some(prod) => prod <= (u32::MAX - shift) as u64,
                    None => false,
                }
            } else {
                true
            };
            let mut all = true;
            let mut k: usize = 0;
            while k < book.len()
                invariant
                    k <= book@.len(),
                    bv == book.deep_view(),
                    all == forall|j: int| 0 <= j < k ==> merges_ok(#[trigger] bv[j].merged),
                decreases book@.len() - k,
            {
                assert(bv[k as int].merged == book@[k as int].merged@);
                let here = merges_check(&book[k].merged);
                all = all && here;
                k = k + 1;
            }
            proof {
                let bk = xlsx_book(data@)->Some_0;
                assert(bk == bv);
                assert(sizes_ok == (bk.len() > 0 && count_each > 0 ==> linsize >= 1 && shift + linsize * count_each
                    <= u32::MAX));
            }
            sizes_ok && all
        },
    };
    if ok {
        Some(read_packaged_table_bytes(data, count_each, linsize, shift))
    } else {
        None
    }
}

} // verus!
