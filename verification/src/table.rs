//! A table of named columns of string cells, and the traits that typed
//! tables and their records implement.
use std::fmt::Debug;
use vstd::prelude::*;

use crate::text::string_eq_str;

verus! {

/// One cell: the strings it holds.
#[derive(Debug, Clone)]
pub struct GenericValue {
    pub values: Vec<String>,
}

impl DeepView for GenericValue {
    type V = Seq<Seq<char>>;

    open spec fn deep_view(&self) -> Seq<Seq<char>> {
        self.values.deep_view()
    }
}

impl Default for GenericValue {
    fn default() -> (r: Self)
        ensures
            r.deep_view() == Seq::<Seq<char>>::empty(),
    {
        let r = GenericValue { values: Vec::new() };
        assert(r.deep_view() =~= Seq::<Seq<char>>::empty());
        r
    }
}

/// A table of columns, each found by its name; every column has `size`
/// cells.
#[derive(Debug, Clone)]
pub struct GenericTable {
    columns: Vec<(String, Vec<GenericValue>)>,
    size: usize,
}

/// What a table holds: its columns by name, and the number of rows.
pub struct GenericTableModel {
    pub columns: Map<Seq<char>, Seq<Seq<Seq<char>>>>,
    pub size: nat,
}

/// A column of `n` empty cells.
pub open spec fn blank_column(n: nat) -> Seq<Seq<Seq<char>>> {
    Seq::new(n, |i: int| Seq::<Seq<char>>::empty())
}

spec fn names_distinct(s: Seq<(Seq<char>, Seq<Seq<Seq<char>>>)>) -> bool {
    forall|i: int, j: int| 0 <= i < j < s.len() ==> #[trigger] s[i].0 != #[trigger] s[j].0
}

spec fn has_name(s: Seq<(Seq<char>, Seq<Seq<Seq<char>>>)>, k: Seq<char>) -> bool {
    exists|i: int| 0 <= i < s.len() && #[trigger] s[i].0 == k
}

spec fn column_of(s: Seq<(Seq<char>, Seq<Seq<Seq<char>>>)>, k: Seq<char>) -> Seq<Seq<Seq<char>>> {
    s[choose|i: int| 0 <= i < s.len() && #[trigger] s[i].0 == k].1
}

spec fn columns_map(s: Seq<(Seq<char>, Seq<Seq<Seq<char>>>)>) -> Map<Seq<char>, Seq<Seq<Seq<char>>>> {
    Map::new(|k: Seq<char>| has_name(s, k), |k: Seq<char>| column_of(s, k))
}

proof fn lemma_column_at(s: Seq<(Seq<char>, Seq<Seq<Seq<char>>>)>, i: int)
    requires
        names_distinct(s),
        0 <= i < s.len(),
    ensures
        has_name(s, s[i].0),
        column_of(s, s[i].0) == s[i].1,
{
    let k = s[i].0;
    assert(has_name(s, k));
    let j = choose|j: int| 0 <= j < s.len() && #[trigger] s[j].0 == k;
    if j != i {
        if j < i {
            assert(s[j].0 != s[i].0);
        } else {
            assert(s[i].0 != s[j].0);
        }
    }
}

impl GenericTable {
    spec fn rows(&self) -> Seq<(Seq<char>, Seq<Seq<Seq<char>>>)> {
        self.columns.deep_view()
    }

    /// The columns have distinct names and `size` cells each.
    pub closed spec fn wf(&self) -> bool {
        &&& names_distinct(self.rows())
        &&& forall|i: int| 0 <= i < self.rows().len() ==> (#[trigger] self.rows()[i]).1.len() == self.size
    }

    pub closed spec fn view(&self) -> GenericTableModel {
        GenericTableModel { columns: columns_map(self.rows()), size: self.size as nat }
    }

    /// The number of rows.
    pub fn size(&self) -> (r: usize)
        ensures
            r == self.view().size,
    {
        self.size
    }

    fn position_of(&self, name: &str) -> (r: Option<usize>)
        requires
            self.wf(),
        ensures
            match r {
                Some(i) => i < self.rows().len() && self.rows()[i as int].0 == name@,
                None => !has_name(self.rows(), name@),
            },
    {
        let mut i: usize = 0;
        while i < self.columns.len()
            invariant
                i <= self.columns.len(),
                self.rows().len() == self.columns.len(),
                forall|j: int| 0 <= j < i ==> self.rows()[j].0 != name@,
            decreases self.columns.len() - i,
        {
            if string_eq_str(&self.columns[i].0, name) {
                return Some(i);
            }
            i = i + 1;
        }
        None
    }

    /// Takes out the column called `val` and hands back its cells; `Err` where
    /// there is none, the table then unchanged.
    pub fn remove_col(&mut self, val: &str) -> (r: Result<Vec<GenericValue>, ()>)
        requires
            old(self).wf(),
        ensures
            final(self).wf(),
            final(self).view().size == old(self).view().size,
            old(self).view().columns.dom().contains(val@) ==> r is Ok && r.unwrap().deep_view()
                == old(self).view().columns[val@] && final(self).view().columns
                == old(self).view().columns.remove(val@),
            !old(self).view().columns.dom().contains(val@) ==> r is Err && final(self).view()
                == old(self).view(),
    {
        match self.position_of(val) {
            Some(i) => {
                let ghost s = self.rows();
                proof {
                    lemma_column_at(s, i as int);
                }
                let (_, cells) = self.columns.remove(i);
                let ghost t = self.rows();
                assert(t =~= s.remove(i as int));
                assert(forall|j: int|
                    0 <= j < t.len() ==> #[trigger] t[j] == s[if j < i { j } else { j + 1 }]);
                assert(names_distinct(t)) by {
                    assert forall|a: int, b: int| 0 <= a < b < t.len() implies #[trigger] t[a].0
                        != #[trigger] t[b].0 by {
                        let a2 = if a < i { a } else { a + 1 };
                        let b2 = if b < i { b } else { b + 1 };
                        assert(t[a] == s[a2]);
                        assert(t[b] == s[b2]);
                        assert(s[a2].0 != s[b2].0);
                    }
                }
                assert(columns_map(t) =~= columns_map(s).remove(val@)) by {
                    assert forall|k: Seq<char>| #[trigger] has_name(t, k) <==> (has_name(s, k) && k
                        != val@) by {
                        if has_name(t, k) {
                            let j = choose|j: int| 0 <= j < t.len() && #[trigger] t[j].0 == k;
                            let j2 = if j < i { j } else { j + 1 };
                            assert(s[j2].0 == k);
                            assert(j2 != i);
                            if j2 < i {
                                assert(s[j2].0 != s[i as int].0);
                            } else {
                                assert(s[i as int].0 != s[j2].0);
                            }
                        }
                        if has_name(s, k) && k != val@ {
                            let j = choose|j: int| 0 <= j < s.len() && #[trigger] s[j].0 == k;
                            assert(j != i);
                            let j2 = if j < i { j } else { j - 1 };
                            assert(t[j2] == s[j]);
                        }
                    }
                    assert forall|k: Seq<char>| #[trigger] has_name(t, k) implies column_of(t, k)
                        == column_of(s, k) by {
                        let j = choose|j: int| 0 <= j < t.len() && #[trigger] t[j].0 == k;
                        let j2 = if j < i { j } else { j + 1 };
                        assert(t[j] == s[j2]);
                        lemma_column_at(t, j);
                        lemma_column_at(s, j2);
                    }
                }
                Ok(cells)
            },
            None => Err(()),
        }
    }

    /// Adds a column called `name` with `size` empty cells; `Err` where a
    /// column of that name is there already, the table then unchanged.
    pub fn add_col(&mut self, name: String) -> (r: Result<(), ()>)
        requires
            old(self).wf(),
        ensures
            final(self).wf(),
            final(self).view().size == old(self).view().size,
            old(self).view().columns.dom().contains(name@) ==> r is Err && final(self).view()
                == old(self).view(),
            !old(self).view().columns.dom().contains(name@) ==> r is Ok && final(self).view().columns
                == old(self).view().columns.insert(name@, blank_column(old(self).view().size)),
    {
        match self.position_of(name.as_str()) {
            Some(i) => {
                proof {
                    lemma_column_at(self.rows(), i as int);
                }
                Err(())
            },
            None => {
                let mut cells: Vec<GenericValue> = Vec::new();
                let mut n: usize = 0;
                while n < self.size
                    invariant
                        n <= self.size,
                        cells.deep_view() == blank_column(n as nat),
                    decreases self.size - n,
                {
                    let ghost before = cells.deep_view();
                    let cell = GenericValue { values: Vec::new() };
                    assert(cell.deep_view() =~= Seq::<Seq<char>>::empty());
                    cells.push(cell);
                    assert(cells.deep_view() =~= before.push(Seq::<Seq<char>>::empty()));
                    assert(cells.deep_view() =~= blank_column((n + 1) as nat));
                    n = n + 1;
                }
                let ghost s = self.rows();
                let ghost key = name@;
                self.columns.push((name, cells));
                let ghost t = self.rows();
                assert(t =~= s.push((key, blank_column(self.size as nat))));
                assert(names_distinct(t)) by {
                    assert forall|a: int, b: int| 0 <= a < b < t.len() implies #[trigger] t[a].0
                        != #[trigger] t[b].0 by {
                        if b == s.len() {
                            assert(t[a] == s[a]);
                        } else {
                            assert(t[a] == s[a]);
                            assert(t[b] == s[b]);
                        }
                    }
                }
                assert(columns_map(t) =~= columns_map(s).insert(key, blank_column(self.size as nat))) by {
                    assert forall|k: Seq<char>| #[trigger] has_name(t, k) <==> (has_name(s, k) || k
                        == key) by {
                        if has_name(s, k) {
                            let j = choose|j: int| 0 <= j < s.len() && #[trigger] s[j].0 == k;
                            assert(t[j] == s[j]);
                        }
                        if k == key {
                            assert(t[s.len() as int].0 == key);
                        }
                        if has_name(t, k) && k != key {
                            let j = choose|j: int| 0 <= j < t.len() && #[trigger] t[j].0 == k;
                            assert(j < s.len());
                            assert(s[j] == t[j]);
                        }
                    }
                    assert forall|k: Seq<char>| #[trigger] has_name(t, k) implies column_of(t, k)
                        == (if k == key { blank_column(self.size as nat) } else { column_of(s, k) }) by {
                        let j = choose|j: int| 0 <= j < t.len() && #[trigger] t[j].0 == k;
                        lemma_column_at(t, j);
                        if j < s.len() {
                            assert(t[j] == s[j]);
                            lemma_column_at(s, j);
                        }
                    }
                }
                Ok(())
            },
        }
    }
}

impl Default for GenericTable {
    /// A table with no columns and no rows.
    fn default() -> (r: Self)
        ensures
            r.wf(),
            r.view().size == 0,
            r.view().columns == Map::<Seq<char>, Seq<Seq<Seq<char>>>>::empty(),
    {
        let r = GenericTable { columns: Vec::new(), size: 0 };
        assert(r.view().columns =~= Map::<Seq<char>, Seq<Seq<Seq<char>>>>::empty());
        r
    }
}

/// Adding a column that is not there and then taking it out gives back a
/// column of blank cells, one per row, and leaves the columns as they were.
pub proof fn law_added_column_comes_back_blank(
    columns: Map<Seq<char>, Seq<Seq<Seq<char>>>>,
    size: nat,
    name: Seq<char>,
)
    requires
        !columns.dom().contains(name),
    ensures
        columns.insert(name, blank_column(size)).dom().contains(name),
        columns.insert(name, blank_column(size))[name] == blank_column(size),
        columns.insert(name, blank_column(size)).remove(name) == columns,
{
    assert(columns.insert(name, blank_column(size)).remove(name) =~= columns);
}

/// A column, once there, is not added a second time, and once taken out is
/// not taken out again.
pub proof fn law_column_names_stay_unique(
    columns: Map<Seq<char>, Seq<Seq<Seq<char>>>>,
    size: nat,
    name: Seq<char>,
)
    ensures
        columns.insert(name, blank_column(size)).dom().contains(name),
        !columns.remove(name).dom().contains(name),
{
}

/// How a record names its columns.
pub trait KeyMapper: Default {
    /// The names of all columns, in order, as the implementing type defines
    /// them.
    spec fn key_names() -> Seq<Seq<char>>;

    /// The names of all columns, in order.
    fn keys() -> (r: Vec<String>)
        ensures
            r.deep_view() == Self::key_names(),
    ;

    /// The name of this column.
    fn to_key(&self) -> String;
}

/// A row of a typed table.
pub trait Record {
    type KeyMap: KeyMapper;

    fn change_key(&mut self, v: Self::KeyMap) -> Result<(), ()>;

    fn change_key_vec(&mut self, vs: Vec<Self::KeyMap>) -> Result<usize, ()>;

    /// The row as one string per column.
    fn as_line(&self) -> Vec<String>;

    /// A row read from one string per column.
    fn from_line(line: Vec<String>) -> Result<Self, ()> where Self: Sized;
}

/// A table of typed records.
pub trait Table<TableRecord: Record> {
    fn push(&mut self, rec: TableRecord);

    fn index(&self, index: usize) -> Option<&TableRecord>;

    fn index_set(&mut self, index: usize, val: TableRecord) -> Option<&TableRecord>;

    fn generate_text_view(&self) -> Vec<Vec<String>>;

    /// The header row: the names of the record's columns.
    fn generate_header(&self) -> (r: Vec<String>)
        ensures
            r.deep_view() == TableRecord::KeyMap::key_names(),
    {
        TableRecord::KeyMap::keys()
    }
}

/// A group of items read from a sheet under one heading, built from the
/// heading and the items.
pub trait ConvertablePackage: From<(String, Vec<Self::Item>)> + Clone + Debug {
    type Item: TryFrom<(i32, Vec<String>)> + Clone + Debug;
}

} // verus!
