//! A file picked by the user, and its contents read as a table.
use vstd::prelude::*;

use crate::csv_table::{clear_convert, converted, convertible, csv_convertible, csv_table, table_result_is};

verus! {

/// A file as the browser hands it over.
#[derive(Default, Debug, Clone)]
pub struct FileDetails {
    pub name: String,
    pub file_type: String,
    pub data: Vec<u8>,
}

/// A file read as a table: its name, header and filled rows.
#[derive(Default, Debug, Clone)]
pub struct ParsedTableFileDetails {
    pub name: String,
    pub headers: Vec<String>,
    pub value: Vec<Vec<String>>,
}

/// `r` is the table called `name` with the header and rows that `m` holds,
/// or the row index that `m` holds.
pub open spec fn parsed_result_is(r: Result<ParsedTableFileDetails, usize>, name: Seq<char>, m: Result<(Seq<Seq<char>>, Seq<Seq<Seq<char>>>), int>) -> bool {
    match (r, m) {
        (Ok(p), Ok((mh, mv))) => p.name@ == name && p.headers.deep_view() == mh && p.value.deep_view() == mv,
        (Err(e), Err(me)) => e == me,
        _ => false,
    }
}

/// Reads `data` as a table called `name`, as `clear_convert` reads it.
pub fn parse_to_table(name: String, data: &[u8], del: u8) -> (r: Result<ParsedTableFileDetails, usize>)
    requires
        convertible(csv_table(data@, del)),
    ensures
        parsed_result_is(r, name@, converted(csv_table(data@, del))),
{
    let res = clear_convert(data, del);
    match res {
        Ok((heads, dats)) => Ok(ParsedTableFileDetails { name: name, headers: heads, value: dats }),
        Err(x) => Err(x),
    }
}

/// As `parse_to_table`, where `clear_convert` can read `data`; `None` where it
/// cannot.
pub fn try_parse_to_table(name: String, data: &[u8], del: u8) -> (r: Option<Result<ParsedTableFileDetails, usize>>)
    ensures
        r is None <==> !convertible(csv_table(data@, del)),
        r matches Some(p) ==> parsed_result_is(p, name@, converted(csv_table(data@, del))),
{
    if csv_convertible(data, del) {
        Some(parse_to_table(name, data, del))
    } else {
        None
    }
}

impl FileDetails {
    /// Reads the file's bytes as a table under the file's name.
    pub fn parse_to_table(&self, del: u8) -> (r: Result<ParsedTableFileDetails, usize>)
        requires
            convertible(csv_table(self.data@, del)),
        ensures
            parsed_result_is(r, self.name@, converted(csv_table(self.data@, del))),
    {
        let res = clear_convert(self.data.as_slice(), del);
        match res {
            Ok((heads, dats)) => Ok(
                ParsedTableFileDetails { name: self.name.clone(), headers: heads, value: dats },
            ),
            Err(x) => Err(x),
        }
    }

    /// As `parse_to_table`, where `clear_convert` can read the bytes; `None`
    /// where it cannot.
    pub fn try_parse_to_table(&self, del: u8) -> (r: Option<Result<ParsedTableFileDetails, usize>>)
        ensures
            r is None <==> !convertible(csv_table(self.data@, del)),
            r matches Some(p) ==> parsed_result_is(p, self.name@, converted(csv_table(self.data@, del))),
    {
        if csv_convertible(self.data.as_slice(), del) {
            Some(self.parse_to_table(del))
        } else {
            None
        }
    }
}


/// Reading a file as a named table gives what `clear_convert` gives for its
/// bytes, under the name: the same header and rows where `clear_convert`
/// reads the table, the same error index where it does not.
pub proof fn law_named_table_is_the_converted_table(
    data: Seq<u8>,
    del: u8,
    name: Seq<char>,
    named: Result<ParsedTableFileDetails, usize>,
    plain: Result<(Vec<String>, Vec<Vec<String>>), usize>,
)
    requires
        parsed_result_is(named, name, converted(csv_table(data, del))),
        table_result_is(plain, converted(csv_table(data, del))),
    ensures
        match (named, plain) {
            (Ok(p), Ok((h, v))) => p.name@ == name && p.headers.deep_view() == h.deep_view()
                && p.value.deep_view() == v.deep_view(),
            (Err(e), Err(i)) => e == i,
            _ => false,
        },
{
}

/// Where loading a file stands.
#[derive(Debug, PartialEq, Clone)]
pub enum FileLoadStatus {
    Blocked,
    Waiting,
    Loading,
    Error,
    Finished(String),
}

} // verus!
