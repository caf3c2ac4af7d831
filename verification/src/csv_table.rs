//! Reading a delimited text into a header and rows, where an empty cell
//! repeats the cell above it.
use vstd::prelude::*;

verus! {

/// What the csv crate reads from `data` with delimiter `del`, headers on:
/// `None` where the header row is not valid UTF-8, else the header cells and,
/// for each further row, its cells or `None` where the crate reports an
/// error for that row.
pub uninterp spec fn csv_table(data: Seq<u8>, del: u8) -> Option<(Seq<Seq<char>>, Seq<Option<Seq<Seq<char>>>>)>;

/// Calls `csv::ReaderBuilder::new().delimiter(del).from_reader(data)`, then
/// `Reader::headers` and `Reader::records`, and hands back the cells as
/// strings. What the csv crate makes of the bytes is named, not stated: the
/// contract says that the result is `csv_table` of the arguments.
#[verifier::external_body]
fn read_csv(data: &[u8], del: u8) -> (r: Option<(Vec<String>, Vec<Option<Vec<String>>>)>)
    ensures
        r.deep_view() == csv_table(data@, del),
{
    let mut reader = csv::ReaderBuilder::new().delimiter(del).from_reader(data);
    let heads: Vec<String> = match reader.headers() {
        Ok(h) => h.iter().map(String::from).collect(),
        Err(_) => return None,
    };
    let rows = reader.records().map(|rec| rec.ok().map(|d| d.iter().map(String::from).collect()));
    Some((heads, rows.collect()))
}

/// `row`, with each empty cell taken from the same column of `above`.
pub open spec fn filled_row(above: Seq<Seq<char>>, row: Seq<Seq<char>>) -> Seq<Seq<char>> {
    Seq::new(row.len(), |c: int| if row[c].len() == 0 { above[c] } else { row[c] })
}

/// The first `n` rows filled down, each from the filled row before it; or the
/// index of the first of them that was not read or has other than `size`
/// cells.
pub open spec fn fill_rows(size: nat, rows: Seq<Option<Seq<Seq<char>>>>, n: nat) -> Result<Seq<Seq<Seq<char>>>, int>
    decreases n,
{
    if n == 0 {
        Ok(Seq::empty())
    } else {
        match fill_rows(size, rows, (n - 1) as nat) {
            Err(e) => Err(e),
            Ok(done) => match rows[n - 1] {
                None => Err(n - 1),
                Some(row) => if row.len() != size {
                    Err(n - 1)
                } else {
                    Ok(
                        done.push(
                            filled_row(
                                if done.len() == 0 {
                                    Seq::empty()
                                } else {
                                    done.last()
                                },
                                row,
                            ),
                        ),
                    )
                },
            },
        }
    }
}

/// All rows filled down; or the index of the first row that was not read or
/// is not as wide as the header.
pub open spec fn filled_table(size: nat, rows: Seq<Option<Seq<Seq<char>>>>) -> Result<Seq<Seq<Seq<char>>>, int> {
    fill_rows(size, rows, rows.len())
}

/// The first row, where it was read and is as wide as the header, has no
/// empty cell: there is nothing above it to fill one from.
pub open spec fn first_row_complete(size: nat, rows: Seq<Option<Seq<Seq<char>>>>) -> bool {
    rows.len() > 0 ==> match rows[0] {
        Some(first) => first.len() == size ==> forall|c: int|
            0 <= c < size ==> (#[trigger] first[c]).len() > 0,
        None => true,
    }
}

/// What the csv crate read can be filled down: the header was read and the
/// first row has no empty cell.
pub open spec fn convertible(t: Option<(Seq<Seq<char>>, Seq<Option<Seq<Seq<char>>>>)>) -> bool {
    match t {
        Some((heads, rows)) => first_row_complete(heads.len(), rows),
        None => false,
    }
}

proof fn lemma_fill_rows_err_stays(size: nat, rows: Seq<Option<Seq<Seq<char>>>>, k: nat, m: nat)
    requires
        k <= m,
        fill_rows(size, rows, k) is Err,
    ensures
        fill_rows(size, rows, m) == fill_rows(size, rows, k),
    decreases m - k,
{
    if k < m {
        lemma_fill_rows_err_stays(size, rows, k, (m - 1) as nat);
    }
}

proof fn lemma_fill_rows_len(size: nat, rows: Seq<Option<Seq<Seq<char>>>>, n: nat)
    requires
        fill_rows(size, rows, n) is Ok,
    ensures
        fill_rows(size, rows, n)->Ok_0.len() == n,
    decreases n,
{
    if n > 0 {
        lemma_fill_rows_len(size, rows, (n - 1) as nat);
    }
}

/// The header and the filled rows of what the csv crate read; or the index
/// of the first row that was not read or is not as wide as the header.
pub open spec fn converted(t: Option<(Seq<Seq<char>>, Seq<Option<Seq<Seq<char>>>>)>) -> Result<(Seq<Seq<char>>, Seq<Seq<Seq<char>>>), int> {
    match t {
        Some((heads, rows)) => match filled_table(heads.len(), rows) {
            Ok(v) => Ok((heads, v)),
            Err(e) => Err(e),
        },
        None => Err(0),
    }
}

/// `r` holds the header and rows, or the row index, that `m` holds.
pub open spec fn table_result_is(r: Result<(Vec<String>, Vec<Vec<String>>), usize>, m: Result<(Seq<Seq<char>>, Seq<Seq<Seq<char>>>), int>) -> bool {
    match (r, m) {
        (Ok((h, v)), Ok((mh, mv))) => h.deep_view() == mh && v.deep_view() == mv,
        (Err(e), Err(me)) => e == me,
        _ => false,
    }
}

/// Fills each empty cell of `rows` from the filled row above it. `Err(i)` where
/// row `i` is the first that was not read or has not as many cells as
/// `heads`; else the header and the filled rows.
pub fn fill_down(heads: Vec<String>, rows: Vec<Option<Vec<String>>>) -> (r: Result<(Vec<String>, Vec<Vec<String>>), usize>)
    requires
        first_row_complete(heads@.len(), rows.deep_view()),
    ensures
        table_result_is(r, converted(Some((heads.deep_view(), rows.deep_view())))),
{
    let size = heads.len();
    let ghost dv = rows.deep_view();
    let mut out: Vec<Vec<String>> = Vec::new();
    let mut i: usize = 0;
    assert(out.deep_view() =~= Seq::<Seq<Seq<char>>>::empty());
    while i < rows.len()
        invariant
            i <= rows.len(),
            size == heads@.len(),
            dv == rows.deep_view(),
            first_row_complete(size as nat, dv),
            fill_rows(size as nat, dv, i as nat) == Ok::<Seq<Seq<Seq<char>>>, int>(out.deep_view()),
            out.len() == i,
            forall|k: int| 0 <= k < i ==> (#[trigger] out[k]).len() == size,
        decreases rows.len() - i,
    {
        let ghost done = out.deep_view();
        assert(dv[i as int] == rows[i as int].deep_view());
        match &rows[i] {
            None => {
                assert(fill_rows(size as nat, dv, (i + 1) as nat) == Err::<Seq<Seq<Seq<char>>>, int>(i as int));
                proof {
                    lemma_fill_rows_err_stays(size as nat, dv, (i + 1) as nat, rows.len() as nat);
                }
                return Err(i);
            },
            Some(row) => {
                if row.len() != size {
                    assert(fill_rows(size as nat, dv, (i + 1) as nat) == Err::<Seq<Seq<Seq<char>>>, int>(i as int));
                    proof {
                        lemma_fill_rows_err_stays(size as nat, dv, (i + 1) as nat, rows.len() as nat);
                    }
                    return Err(i);
                }
                let ghost above: Seq<Seq<char>> = if done.len() == 0 {
                    Seq::empty()
                } else {
                    done.last()
                };
                let mut line: Vec<String> = Vec::new();
                let mut c: usize = 0;
                while c < size
                    invariant
                        c <= size,
                        size == row.len(),
                        out.len() == i,
                        done == out.deep_view(),
                        above == (if done.len() == 0 {
                            Seq::<Seq<char>>::empty()
                        } else {
                            done.last()
                        }),
                        i == 0 ==> forall|k: int| 0 <= k < size ==> (#[trigger] row.deep_view()[k]).len() > 0,
                        forall|k: int| 0 <= k < i ==> (#[trigger] out[k]).len() == size,
                        line.len() == c,
                        forall|k: int| 0 <= k < c ==> #[trigger] line.deep_view()[k] == filled_row(above, row.deep_view())[k],
                    decreases size - c,
                {
                    let ghost before = line.deep_view();
                    if row[c].as_str().is_empty() {
                        assert(row.deep_view()[c as int].len() == 0);
                        let cell = out[i - 1][c].clone();
                        assert(above == out.deep_view()[i - 1]);
                        line.push(cell);
                    } else {
                        let cell = row[c].clone();
                        line.push(cell);
                    }
                    assert(line.deep_view() =~= before.push(line.deep_view()[c as int]));
                    c = c + 1;
                }
                assert(line.deep_view() =~= filled_row(above, row.deep_view()));
                out.push(line);
                assert(out.deep_view() =~= done.push(filled_row(above, row.deep_view())));
            },
        }
        i = i + 1;
    }
    Ok((heads, out))
}

fn first_row_complete_exec(size: usize, rows: &Vec<Option<Vec<String>>>) -> (b: bool)
    ensures
        b == first_row_complete(size as nat, rows.deep_view()),
{
    if rows.len() == 0 {
        return true;
    }
    assert(rows.deep_view()[0] == rows[0].deep_view());
    match &rows[0] {
        None => true,
        Some(first) => {
            if first.len() != size {
                return true;
            }
            assert(rows.deep_view()[0] == Some(first.deep_view()));
            let mut c: usize = 0;
            while c < size
                invariant
                    c <= size,
                    size == first.len(),
                    rows.len() > 0,
                    rows.deep_view()[0] == Some(first.deep_view()),
                    forall|k: int| 0 <= k < c ==> (#[trigger] first.deep_view()[k]).len() > 0,
                decreases size - c,
            {
                if first[c].as_str().is_empty() {
                    let ghost f = first.deep_view();
                    assert(rows.deep_view()[0] == Some(f));
                    assert(f.len() == size);
                    assert(f[c as int].len() == 0);
                    return false;
                }
                c = c + 1;
            }
            true
        },
    }
}

/// Whether `clear_convert` can read `data`: the header row is valid UTF-8 and
/// the first row has no empty cell to fill.
pub fn csv_convertible(data: &[u8], del: u8) -> (b: bool)
    ensures
        b == convertible(csv_table(data@, del)),
{
    match read_csv(data, del) {
        Some((heads, rows)) => first_row_complete_exec(heads.len(), &rows),
        None => false,
    }
}

/// Reads `data` with delimiter `del` into its header and rows, each empty
/// cell repeating the cell above it; `Err(i)` where row `i` (counted after the
/// header) is the first that the csv crate could not read or that is not as
/// wide as the header.
pub fn clear_convert(data: &[u8], del: u8) -> (r: Result<(Vec<String>, Vec<Vec<String>>), usize>)
    requires
        convertible(csv_table(data@, del)),
    ensures
        table_result_is(r, converted(csv_table(data@, del))),
{
    match read_csv(data, del) {
        Some((heads, rows)) => fill_down(heads, rows),
        None => Err(0),
    }
}

} // verus!
