//! Typed columnar tables with nulls, and the selection of rows by a mask.
use crate::double::Double;
use vstd::prelude::*;

verus! {

/// One column: a sequence of typed cells, each of which may be null.
#[derive(Debug)]
pub enum Column {
    Int64(Vec<Option<i64>>),
    Float64(Vec<Option<Double>>),
    Str(Vec<Option<String>>),
    Bool(Vec<Option<bool>>),
}

/// What a column holds: numbers as their bit patterns, text as characters.
pub enum ColumnModel {
    Int64(Seq<Option<i64>>),
    Float64(Seq<Option<u64>>),
    Str(Seq<Option<Seq<char>>>),
    Bool(Seq<Option<bool>>),
}

/// One cell of a column.
pub enum Cell {
    Null,
    Int(i64),
    Float(u64),
    Text(Seq<char>),
    Flag(bool),
}

pub open spec fn text_view(o: Option<String>) -> Option<Seq<char>> {
    match o {
        Some(s) => Some(s@),
        None => None,
    }
}

pub open spec fn double_view(o: Option<Double>) -> Option<u64> {
    match o {
        Some(d) => Some(d.bits),
        None => None,
    }
}

impl View for Column {
    type V = ColumnModel;

    open spec fn view(&self) -> ColumnModel {
        match self {
            Column::Int64(v) => ColumnModel::Int64(v@),
            Column::Float64(v) => ColumnModel::Float64(v@.map_values(|o: Option<Double>| double_view(o))),
            Column::Str(v) => ColumnModel::Str(v@.map_values(|o: Option<String>| text_view(o))),
            Column::Bool(v) => ColumnModel::Bool(v@),
        }
    }
}

impl ColumnModel {
    pub open spec fn len(self) -> nat {
        match self {
            ColumnModel::Int64(s) => s.len(),
            ColumnModel::Float64(s) => s.len(),
            ColumnModel::Str(s) => s.len(),
            ColumnModel::Bool(s) => s.len(),
        }
    }

    /// The cell in row `i`.
    pub open spec fn cell(self, i: int) -> Cell {
        match self {
            ColumnModel::Int64(s) => match s[i] {
                Some(v) => Cell::Int(v),
                None => Cell::Null,
            },
            ColumnModel::Float64(s) => match s[i] {
                Some(v) => Cell::Float(v),
                None => Cell::Null,
            },
            ColumnModel::Str(s) => match s[i] {
                Some(v) => Cell::Text(v),
                None => Cell::Null,
            },
            ColumnModel::Bool(s) => match s[i] {
                Some(v) => Cell::Flag(v),
                None => Cell::Null,
            },
        }
    }

    /// Whether two columns hold the same type of cells.
    pub open spec fn same_kind(self, other: ColumnModel) -> bool {
        match (self, other) {
            (ColumnModel::Int64(_), ColumnModel::Int64(_)) => true,
            (ColumnModel::Float64(_), ColumnModel::Float64(_)) => true,
            (ColumnModel::Str(_), ColumnModel::Str(_)) => true,
            (ColumnModel::Bool(_), ColumnModel::Bool(_)) => true,
            _ => false,
        }
    }

    /// The rows of this column whose mask entry is true, in order.
    pub open spec fn select(self, mask: Seq<bool>) -> ColumnModel {
        match self {
            ColumnModel::Int64(s) => ColumnModel::Int64(select(s, mask)),
            ColumnModel::Float64(s) => ColumnModel::Float64(select(s, mask)),
            ColumnModel::Str(s) => ColumnModel::Str(select(s, mask)),
            ColumnModel::Bool(s) => ColumnModel::Bool(select(s, mask)),
        }
    }
}

/// The elements of `s[..i]` whose mask entry is true, in order.
pub open spec fn select_upto<T>(s: Seq<T>, mask: Seq<bool>, i: int) -> Seq<T>
    decreases i,
{
    if i <= 0 {
        Seq::empty()
    } else if mask[i - 1] {
        select_upto(s, mask, i - 1).push(s[i - 1])
    } else {
        select_upto(s, mask, i - 1)
    }
}

/// The elements of `s` whose mask entry is true, in order.
pub open spec fn select<T>(s: Seq<T>, mask: Seq<bool>) -> Seq<T> {
    select_upto(s, mask, s.len() as int)
}

/// The indices below `i` whose mask entry is true, in increasing order.
pub open spec fn kept_upto(mask: Seq<bool>, i: int) -> Seq<int>
    decreases i,
{
    if i <= 0 {
        Seq::empty()
    } else if mask[i - 1] {
        kept_upto(mask, i - 1).push(i - 1)
    } else {
        kept_upto(mask, i - 1)
    }
}

/// The indices of the true entries of `mask`, in increasing order.
pub open spec fn kept(mask: Seq<bool>) -> Seq<int> {
    kept_upto(mask, mask.len() as int)
}

pub proof fn lemma_select_upto<T>(s: Seq<T>, mask: Seq<bool>, i: int)
    requires
        0 <= i <= s.len(),
        i <= mask.len(),
    ensures
        select_upto(s, mask, i).len() == kept_upto(mask, i).len(),
        forall|k: int|
            0 <= k < kept_upto(mask, i).len() ==> 0 <= #[trigger] kept_upto(mask, i)[k] < i
                && mask[kept_upto(mask, i)[k]] && select_upto(s, mask, i)[k] == s[kept_upto(
                mask,
                i,
            )[k]],
        forall|k: int, l: int|
            0 <= k < l < kept_upto(mask, i).len() ==> #[trigger] kept_upto(mask, i)[k]
                < #[trigger] kept_upto(mask, i)[l],
    decreases i,
{
    if i > 0 {
        lemma_select_upto(s, mask, i - 1);
    }
}

/// A table: named columns of one common length.
#[derive(Debug)]
pub struct Table {
    names: Vec<String>,
    columns: Vec<Column>,
    rows: usize,
}

pub struct TableModel {
    pub names: Seq<Seq<char>>,
    pub columns: Seq<ColumnModel>,
    pub rows: nat,
}

impl TableModel {
    /// Names and columns pair up, every column has `rows` cells, and no two
    /// columns share a name.
    pub open spec fn wf(self) -> bool {
        &&& self.names.len() == self.columns.len()
        &&& forall|i: int| 0 <= i < self.columns.len() ==> (#[trigger] self.columns[i]).len() == self.rows
        &&& forall|i: int, j: int|
            0 <= i < j < self.names.len() ==> #[trigger] self.names[i] != #[trigger] self.names[j]
    }

    /// The index of the column called `name`.
    pub open spec fn index_of(self, name: Seq<char>) -> Option<int> {
        if exists|i: int| 0 <= i < self.names.len() && self.names[i] == name {
            Some(choose|i: int| 0 <= i < self.names.len() && self.names[i] == name)
        } else {
            None
        }
    }

    /// The rows whose mask entry is true, in order, with every column kept.
    pub open spec fn select(self, mask: Seq<bool>) -> TableModel {
        TableModel {
            names: self.names,
            columns: self.columns.map_values(|c: ColumnModel| c.select(mask)),
            rows: kept(mask).len(),
        }
    }
}

impl View for Table {
    type V = TableModel;

    closed spec fn view(&self) -> TableModel {
        TableModel {
            names: self.names@.map_values(|s: String| s@),
            columns: self.columns@.map_values(|c: Column| c@),
            rows: self.rows as nat,
        }
    }
}

/// Why a column could not be added to a table.
#[derive(Debug, Clone, Copy, PartialEq, Eq, Structural)]
pub enum TableError {
    DuplicateName,
    LengthMismatch,
}

impl Column {
    /// The number of cells.
    pub fn len(&self) -> (r: usize)
        ensures
            r == self@.len(),
    {
        match self {
            Column::Int64(v) => v.len(),
            Column::Float64(v) => v.len(),
            Column::Str(v) => v.len(),
            Column::Bool(v) => v.len(),
        }
    }

    /// The cells whose mask entry is true, in order.
    pub fn select(&self, mask: &Vec<bool>) -> (r: Column)
        requires
            mask@.len() == self@.len(),
        ensures
            r@ == self@.select(mask@),
    {
        match self {
            Column::Int64(v) => {
                let mut out: Vec<Option<i64>> = Vec::new();
                let mut i: usize = 0;
                while i < v.len()
                    invariant
                        i <= v@.len() == mask@.len(),
                        out@ == select_upto(v@, mask@, i as int),
                    decreases v@.len() - i,
                {
                    if mask[i] {
                        out.push(v[i]);
                    }
                    i = i + 1;
                }
                Column::Int64(out)
            },
            Column::Float64(v) => {
                let ghost vv = v@.map_values(|o: Option<Double>| double_view(o));
                let mut out: Vec<Option<Double>> = Vec::new();
                let mut i: usize = 0;
                while i < v.len()
                    invariant
                        i <= v@.len() == mask@.len(),
                        vv == v@.map_values(|o: Option<Double>| double_view(o)),
                        out@.map_values(|o: Option<Double>| double_view(o)) == select_upto(
                            vv,
                            mask@,
                            i as int,
                        ),
                    decreases v@.len() - i,
                {
                    if mask[i] {
                        out.push(v[i]);
                        assert(out@.map_values(|o: Option<Double>| double_view(o)) =~= select_upto(
                            vv,
                            mask@,
                            i as int,
                        ).push(vv[i as int]));
                    }
                    i = i + 1;
                }
                assert(select_upto(vv, mask@, vv.len() as int) == select(vv, mask@));
                Column::Float64(out)
            },
            Column::Str(v) => {
                let ghost vv = v@.map_values(|o: Option<String>| text_view(o));
                let mut out: Vec<Option<String>> = Vec::new();
                let mut i: usize = 0;
                while i < v.len()
                    invariant
                        i <= v@.len() == mask@.len(),
                        vv == v@.map_values(|o: Option<String>| text_view(o)),
                        out@.map_values(|o: Option<String>| text_view(o)) == select_upto(
                            vv,
                            mask@,
                            i as int,
                        ),
                    decreases v@.len() - i,
                {
                    if mask[i] {
                        let cell = match &v[i] {
                            Some(s) => Some(s.clone()),
                            None => None,
                        };
                        out.push(cell);
                        assert(out@.map_values(|o: Option<String>| text_view(o)) =~= select_upto(
                            vv,
                            mask@,
                            i as int,
                        ).push(vv[i as int]));
                    }
                    i = i + 1;
                }
                Column::Str(out)
            },
            Column::Bool(v) => {
                let mut out: Vec<Option<bool>> = Vec::new();
                let mut i: usize = 0;
                while i < v.len()
                    invariant
                        i <= v@.len() == mask@.len(),
                        out@ == select_upto(v@, mask@, i as int),
                    decreases v@.len() - i,
                {
                    if mask[i] {
                        out.push(v[i]);
                    }
                    i = i + 1;
                }
                Column::Bool(out)
            },
        }
    }
}

impl Table {
    /// A table without columns or rows.
    pub fn new() -> (r: Table)
        ensures
            r@.wf(),
            r@.names.len() == 0,
            r@.rows == 0,
    {
        Table { names: Vec::new(), columns: Vec::new(), rows: 0 }
    }

    /// Adds a column at the end. The first column sets the row count; a later
    /// one must have as many cells, and no two columns may share a name.
    pub fn add_column(&mut self, name: String, column: Column) -> (r: Result<(), TableError>)
        requires
            old(self)@.wf(),
        ensures
            final(self)@.wf(),
            r is Err ==> final(self)@ == old(self)@,
            r == Err::<(), TableError>(TableError::DuplicateName) <==> old(self)@.index_of(name@) is Some,
            r == Err::<(), TableError>(TableError::LengthMismatch) <==> (old(self)@.index_of(
                name@,
            ) is None && old(self)@.names.len() > 0 && column@.len() != old(self)@.rows),
            r is Ok ==> final(self)@.names == old(self)@.names.push(name@) && final(self)@.columns
                == old(self)@.columns.push(column@) && final(self)@.rows == column@.len(),
    {
        if self.index_of(&name).is_some() {
            return Err(TableError::DuplicateName);
        }
        let n = column.len();
        if self.names.len() > 0 && n != self.rows {
            return Err(TableError::LengthMismatch);
        }
        let ghost before = self@;
        self.names.push(name);
        self.columns.push(column);
        self.rows = n;
        proof {
            assert(self@.names =~= before.names.push(name@));
            assert(self@.columns =~= before.columns.push(column@));
            assert forall|i: int| 0 <= i < self@.columns.len() implies (
            #[trigger] self@.columns[i]).len() == self@.rows by {
                if i < before.columns.len() {
                    assert(self@.columns[i] == before.columns[i]);
                }
            }
        }
        Ok(())
    }

    /// The number of rows.
    pub fn num_rows(&self) -> (r: usize)
        ensures
            r == self@.rows,
    {
        self.rows
    }

    /// The number of columns.
    pub fn num_columns(&self) -> (r: usize)
        ensures
            r == self@.names.len(),
    {
        self.names.len()
    }

    /// The column names, in order.
    pub fn column_names(&self) -> (r: Vec<String>)
        ensures
            r@.map_values(|s: String| s@) == self@.names,
    {
        let mut out: Vec<String> = Vec::new();
        let mut i: usize = 0;
        while i < self.names.len()
            invariant
                i <= self.names@.len(),
                out@.len() == i,
                out@.map_values(|s: String| s@) == self@.names.subrange(0, i as int),
            decreases self.names@.len() - i,
        {
            let ghost prev = out@;
            out.push(self.names[i].clone());
            assert(out@ == prev.push(out@[i as int]));
            assert(out@[i as int]@ == self@.names[i as int]);
            assert(out@.map_values(|s: String| s@) =~= self@.names.subrange(0, i + 1)) by {
                assert forall|j: int| 0 <= j < i implies out@[j]@ == prev[j]@ by {}
            }
            i = i + 1;
        }
        assert(self@.names.subrange(0, i as int) =~= self@.names);
        out
    }

    /// The name of column `i`.
    pub fn name(&self, i: usize) -> (r: &String)
        requires
            i < self@.names.len(),
        ensures
            r@ == self@.names[i as int],
    {
        &self.names[i]
    }

    /// Column `i`.
    pub fn column(&self, i: usize) -> (r: &Column)
        requires
            i < self@.names.len(),
            self@.wf(),
        ensures
            r@ == self@.columns[i as int],
    {
        &self.columns[i]
    }

    /// The index of the column called `name`.
    pub fn index_of(&self, name: &String) -> (r: Option<usize>)
        requires
            self@.wf(),
        ensures
            r matches Some(i) ==> self@.index_of(name@) == Some(i as int),
            r is None ==> self@.index_of(name@) is None,
    {
        let mut i: usize = 0;
        while i < self.names.len()
            invariant
                i <= self.names@.len(),
                self@.wf(),
                forall|j: int| 0 <= j < i ==> self@.names[j] != name@,
            decreases self.names@.len() - i,
        {
            if self.names[i] == *name {
                proof {
                    assert(self@.names[i as int] == name@);
                    let j = choose|j: int| 0 <= j < self@.names.len() && self@.names[j] == name@;
                    if j < i {
                        assert(self@.names[j] != self@.names[i as int]);
                    } else if j > i {
                        assert(self@.names[i as int] != self@.names[j]);
                    }
                }
                return Some(i);
            }
            i = i + 1;
        }
        None
    }

    /// A new table with the rows whose mask entry is true, in their order,
    /// and every column.
    pub fn select_rows(&self, mask: &Vec<bool>) -> (r: Table)
        requires
            self@.wf(),
            mask@.len() == self@.rows,
        ensures
            r@ == self@.select(mask@),
            r@.wf(),
    {
        let mut columns: Vec<Column> = Vec::new();
        let mut i: usize = 0;
        while i < self.columns.len()
            invariant
                self@.wf(),
                mask@.len() == self@.rows,
                i <= self.columns@.len(),
                columns@.len() == i,
                forall|j: int| 0 <= j < i ==> (#[trigger] columns@[j])@ == self@.columns[j].select(mask@),
            decreases self.columns@.len() - i,
        {
            assert(self@.columns[i as int] == self.columns@[i as int]@);
            let c = self.columns[i].select(mask);
            columns.push(c);
            i = i + 1;
        }
        let names = self.column_names();
        let mut rows: usize = 0;
        let mut k: usize = 0;
        while k < mask.len()
            invariant
                k <= mask@.len(),
                rows == kept_upto(mask@, k as int).len(),
                rows <= k,
            decreases mask@.len() - k,
        {
            if mask[k] {
                rows = rows + 1;
            }
            k = k + 1;
        }
        let r = Table { names, columns, rows };
        proof {
            assert(r@.columns =~= self@.select(mask@).columns);
            assert forall|j: int| 0 <= j < r@.columns.len() implies (#[trigger] r@.columns[j]).len()
                == r@.rows by {
                lemma_column_select_len(self@.columns[j], mask@);
            }
        }
        r
    }
}

proof fn lemma_column_select_len(c: ColumnModel, mask: Seq<bool>)
    requires
        c.len() == mask.len(),
    ensures
        c.select(mask).len() == kept(mask).len(),
{
    match c {
        ColumnModel::Int64(s) => lemma_select_upto(s, mask, s.len() as int),
        ColumnModel::Float64(s) => lemma_select_upto(s, mask, s.len() as int),
        ColumnModel::Str(s) => lemma_select_upto(s, mask, s.len() as int),
        ColumnModel::Bool(s) => lemma_select_upto(s, mask, s.len() as int),
    }
}
/// With every mask entry true, selection keeps everything.
pub proof fn lemma_select_all<T>(s: Seq<T>, mask: Seq<bool>, i: int)
    requires
        0 <= i <= s.len(),
        i <= mask.len(),
        forall|j: int| 0 <= j < i ==> mask[j],
    ensures
        select_upto(s, mask, i) == s.subrange(0, i),
        kept_upto(mask, i).len() == i,
    decreases i,
{
    if i > 0 {
        lemma_select_all(s, mask, i - 1);
        assert(s.subrange(0, i - 1).push(s[i - 1]) =~= s.subrange(0, i));
    } else {
        assert(s.subrange(0, 0) =~= Seq::<T>::empty());
    }
}

proof fn lemma_column_select_all(c: ColumnModel, mask: Seq<bool>)
    requires
        c.len() == mask.len(),
        forall|j: int| 0 <= j < mask.len() ==> mask[j],
    ensures
        c.select(mask) == c,
        kept(mask).len() == mask.len(),
{
    match c {
        ColumnModel::Int64(s) => {
            lemma_select_all(s, mask, s.len() as int);
            assert(s.subrange(0, s.len() as int) =~= s);
        },
        ColumnModel::Float64(s) => {
            lemma_select_all(s, mask, s.len() as int);
            assert(s.subrange(0, s.len() as int) =~= s);
        },
        ColumnModel::Str(s) => {
            lemma_select_all(s, mask, s.len() as int);
            assert(s.subrange(0, s.len() as int) =~= s);
        },
        ColumnModel::Bool(s) => {
            lemma_select_all(s, mask, s.len() as int);
            assert(s.subrange(0, s.len() as int) =~= s);
        },
    }
}

impl Table {
    /// A copy of this table.
    pub fn duplicate(&self) -> (r: Table)
        requires
            self@.wf(),
        ensures
            r@ == self@,
            r@.wf(),
    {
        let mut mask: Vec<bool> = Vec::new();
        let mut k: usize = 0;
        while k < self.rows
            invariant
                k <= self.rows,
                mask@.len() == k,
                forall|j: int| 0 <= j < k ==> mask@[j],
            decreases self.rows - k,
        {
            mask.push(true);
            k = k + 1;
        }
        let r = self.select_rows(&mask);
        proof {
            let m = self@;
            kept_all(mask@);
            assert forall|j: int| 0 <= j < m.columns.len() implies #[trigger] m.columns[j].select(mask@)
                == m.columns[j] by {
                lemma_column_select_all(m.columns[j], mask@);
            }
            assert(m.select(mask@).columns =~= m.columns);
        }
        r
    }
}

proof fn kept_all(mask: Seq<bool>)
    requires
        forall|j: int| 0 <= j < mask.len() ==> mask[j],
    ensures
        kept(mask).len() == mask.len(),
{
    lemma_select_all(mask, mask, mask.len() as int);
}

} // verus!
